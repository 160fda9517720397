use js_x_ray::collectable_set::{CollectableSetRegistry, DefaultCollectableSet};
use js_x_ray::estree::location::{to_array_location, Position, SourceArrayLocation, SourceLocation};
use js_x_ray::json::JsonValue;

fn at(line: u64) -> SourceArrayLocation {
    to_array_location(Some(SourceLocation {
        start: Position { line, column: 1 },
        end: Position { line, column: 4 },
    }))
}

#[test]
fn array_location_of_nothing_is_the_root() {
    let root = to_array_location(None);
    assert_eq!((root.start_line, root.start_column, root.end_line, root.end_column), (0, 0, 0, 0));
    let l = at(3);
    assert_eq!((l.start_line, l.start_column, l.end_line, l.end_column), (3, 1, 3, 4));
}

#[test]
fn set_groups_sightings_by_value() {
    let mut set = DefaultCollectableSet::new("url");
    set.add("https://a", Some("f.js".to_string()), at(1), None);
    set.add("https://b", None, at(2), Some(vec![("k".to_string(), JsonValue::Bool(true))]));
    set.add("https://a", None, at(3), None);
    assert_eq!(set.values(), vec!["https://a".to_string(), "https://b".to_string()]);
    let data = set.to_json();
    assert_eq!(data.collectable_type, "url");
    assert_eq!(data.entries.len(), 2);
    assert_eq!(data.entries[0].value, "https://a");
    assert_eq!(data.entries[0].locations.len(), 2);
    assert_eq!(data.entries[0].locations[0].file.as_deref(), Some("f.js"));
    assert_eq!(data.entries[0].locations[1].location, vec![at(3)]);
    assert_eq!(data.entries[1].locations[0].metadata.as_ref().map(|m| m.len()), Some(1));
}

#[test]
fn from_json_rebuilds_the_set() {
    let mut set = DefaultCollectableSet::new("hostname");
    set.add("x.org", Some("a.js".to_string()), at(1), None);
    set.add("y.org", Some("b.js".to_string()), at(2), None);
    set.add("x.org", None, at(5), None);
    let data = set.to_json();
    let rebuilt = DefaultCollectableSet::from_json(&data);
    assert_eq!(rebuilt.collectable_type, "hostname");
    assert_eq!(rebuilt.values(), set.values());
    let again = rebuilt.to_json();
    assert_eq!(again.entries.len(), 2);
    assert_eq!(again.entries[0].locations.len(), 2);
    assert_eq!(again.entries[0].locations[1].location, vec![at(5)]);
    assert_eq!(again.entries[1].locations[0].file.as_deref(), Some("b.js"));
}

#[test]
fn merge_adds_each_location() {
    let mut source = DefaultCollectableSet::new("ip");
    source.add("1.2.3.4", None, at(1), None);
    let mut data = source.to_json();
    data.entries[0].locations[0].location.push(at(9));
    let mut target = DefaultCollectableSet::new("ip");
    target.add("5.6.7.8", None, at(4), None);
    target.merge_data(&data);
    assert_eq!(target.values(), vec!["5.6.7.8".to_string(), "1.2.3.4".to_string()]);
    assert_eq!(target.to_json().entries[1].locations.len(), 2);
}

#[test]
fn registry_adds_only_to_registered_types() {
    let sets = vec![DefaultCollectableSet::new("url"), DefaultCollectableSet::new("email")];
    let mut registry = CollectableSetRegistry::new(sets);
    assert!(registry.has("url"));
    assert!(!registry.has("ip"));
    registry.add("email", "a@b.c", None, at(1), None);
    registry.add("ip", "1.1.1.1", None, at(1), None);
    let email = registry.get("email").unwrap();
    assert_eq!(email.values(), vec!["a@b.c".to_string()]);
    let metadata = &email.to_json().entries[0].locations[0].metadata;
    assert_eq!(metadata.as_ref().map(|m| m.len()), Some(0));
    assert!(registry.get("ip").is_none());
    assert!(registry.get("url").unwrap().values().is_empty());
    let order: Vec<String> = registry.sets.keys().cloned().collect();
    assert_eq!(order, vec!["url".to_string(), "email".to_string()]);
}

#[test]
fn registry_keeps_the_last_set_of_a_type() {
    let mut first = DefaultCollectableSet::new("url");
    first.add("old", None, at(1), None);
    let registry = CollectableSetRegistry::new(vec![first, DefaultCollectableSet::new("url")]);
    assert_eq!(registry.sets.len(), 1);
    assert!(registry.get("url").unwrap().values().is_empty());
}
