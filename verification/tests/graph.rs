use js_x_ray::entry_files_analyser::graph::keep_unique_vertices_paths;
use js_x_ray::entry_files_analyser::DiGraph;

fn strings(items: &[&str]) -> Vec<String> {
    items.iter().map(|s| s.to_string()).collect()
}

#[test]
fn add_vertex_then_has_vertex() {
    let mut g = DiGraph::new();
    assert!(!g.has_vertex("a"));
    g.add_vertex("a".to_string());
    assert!(g.has_vertex("a"));
    g.add_vertex("a".to_string());
    assert!(g.has_vertex("a"));
    assert!(!g.has_vertex("b"));
}

#[test]
fn edge_to_unknown_vertex_or_self_is_ignored() {
    let mut g = DiGraph::new();
    g.add_vertex("a".to_string());
    g.add_edge("a".to_string(), "b".to_string());
    g.add_edge("a".to_string(), "a".to_string());
    assert!(g.get_deep_children("a", usize::MAX).is_empty());
    assert!(g.find_cycles().is_empty());
}

#[test]
fn deep_children_follow_depth_limit() {
    let mut g = DiGraph::new();
    for v in ["a", "b", "c"] {
        g.add_vertex(v.to_string());
    }
    g.add_edge("a".to_string(), "b".to_string());
    g.add_edge("b".to_string(), "c".to_string());
    g.add_edge("a".to_string(), "b".to_string());
    assert_eq!(g.get_deep_children("a", 1), strings(&["b"]));
    assert_eq!(g.get_deep_children("a", 2), strings(&["b", "c"]));
    assert_eq!(g.get_deep_children("a", usize::MAX), strings(&["b", "c"]));
    assert!(g.get_deep_children("missing", 3).is_empty());
}

#[test]
fn two_vertex_cycle_is_found_once() {
    let mut g = DiGraph::new();
    g.add_vertex("a".to_string());
    g.add_vertex("b".to_string());
    g.add_edge("a".to_string(), "b".to_string());
    g.add_edge("b".to_string(), "a".to_string());
    assert_eq!(g.find_cycles(), vec![strings(&["a", "b"])]);
}

#[test]
fn acyclic_graph_has_no_cycle() {
    let mut g = DiGraph::new();
    for v in ["a", "b", "c"] {
        g.add_vertex(v.to_string());
    }
    g.add_edge("a".to_string(), "b".to_string());
    g.add_edge("a".to_string(), "c".to_string());
    g.add_edge("b".to_string(), "c".to_string());
    assert!(g.find_cycles().is_empty());
}

#[test]
fn three_vertex_cycle_is_found() {
    let mut g = DiGraph::new();
    for v in ["a", "b", "c"] {
        g.add_vertex(v.to_string());
    }
    g.add_edge("a".to_string(), "b".to_string());
    g.add_edge("b".to_string(), "c".to_string());
    g.add_edge("c".to_string(), "a".to_string());
    let cycles = g.find_cycles();
    assert_eq!(cycles.len(), 1);
    let mut sorted = cycles[0].clone();
    sorted.sort();
    assert_eq!(sorted, strings(&["a", "b", "c"]));
}

#[test]
fn keep_unique_drops_permutations() {
    let paths = vec![strings(&["a", "b"]), strings(&["b", "a"]), strings(&["c"]), strings(&["a", "b", "a"])];
    assert_eq!(
        keep_unique_vertices_paths(paths),
        vec![strings(&["a", "b"]), strings(&["c"]), strings(&["a", "b", "a"])]
    );
}

#[test]
fn link_dependency_reports_new_files() {
    let mut g = DiGraph::new();
    g.add_vertex("index.js".to_string());
    assert!(g.link_dependency("index.js", "a.js"));
    assert!(!g.link_dependency("index.js", "a.js"));
    assert!(g.link_dependency("a.js", "b.js"));
    assert!(!g.link_dependency("b.js", "index.js"));
    assert_eq!(g.get_deep_children("index.js", usize::MAX), strings(&["a.js", "b.js", "index.js"]));
    assert_eq!(g.find_cycles().len(), 1);
}

#[test]
fn add_edge_appends_a_direct_child() {
    let mut g = DiGraph::new();
    for v in ["a", "b", "c"] {
        g.add_vertex(v.to_string());
    }
    g.add_edge("a".to_string(), "b".to_string());
    assert_eq!(g.get_deep_children("a", 1), strings(&["b"]));
    g.add_edge("a".to_string(), "c".to_string());
    g.add_edge("a".to_string(), "b".to_string());
    g.add_edge("a".to_string(), "a".to_string());
    g.add_edge("a".to_string(), "z".to_string());
    assert_eq!(g.get_deep_children("a", 1), strings(&["b", "c"]));
    assert!(g.get_deep_children("b", 1).is_empty());
    assert!(!g.has_vertex("z"));
}
