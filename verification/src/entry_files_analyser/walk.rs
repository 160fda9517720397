//! The order in which an entry-files analysis visits files: each entry file
//! in turn, and, depth first, each file it imports that has not been seen.
//! The analyser decides; the caller reads files, analyses them and resolves
//! imports, and hands back what came of it.

use vstd::prelude::*;

use crate::ast_analyser::is_declaration_file;
use crate::collections::{name_set_insert, name_set_items, name_set_len, name_set_new, set_insert};
use crate::entry_files_analyser::graph::{first_occurrences, has_key, with_edge, with_vertex, DiGraph};
use crate::entry_files_analyser::paths::{get_relative_file_path, normalize_and_clean_entry_file};
use crate::entry_files_analyser::{EntryFilesAnalyser, Stats};
use crate::text::{contains_seq, strings_contain, to_string, view_strings};

verus! {

/// A file being analysed: its path, its name in the graph, the imports its
/// report lists and how many of them were followed.
pub struct EntryFrame {
    pub file: String,
    pub relative_file: String,
    pub dependencies: Vec<String>,
    pub next: usize,
}

/// What the analyser waits for.
pub enum Awaiting {
    /// Nothing: it goes on with `EntryEvent::Next`.
    Next,
    /// Whether this entry file exists.
    Exists(String),
    /// The report on this file (path, name in the graph).
    Report(String, String),
    /// The file that the current import resolves to.
    Resolution,
}

/// Where an entry-files analysis stands.
pub struct EntryWalk {
    /// The entry files, each once, in order.
    pub entries: Vec<String>,
    /// How many entry files were taken up.
    pub entry_index: usize,
    /// The files being analysed, the one whose imports are followed last.
    pub frames: Vec<EntryFrame>,
    pub awaiting: Awaiting,
}

impl EntryWalk {
    /// No analysis under way.
    pub fn new() -> (r: EntryWalk)
        ensures
            r.entries@.len() == 0,
            r.entry_index == 0,
            r.frames@.len() == 0,
            r.awaiting is Next,
    {
        EntryWalk { entries: Vec::new(), entry_index: 0, frames: Vec::new(), awaiting: Awaiting::Next }
    }
}

/// What the caller hands the analyser.
pub enum EntryEvent {
    /// Analyse these entry files.
    Start(Vec<String>),
    /// Go on (after `EntryAction::Proceed`).
    Next,
    /// Whether the entry file asked about exists.
    Exists(bool),
    /// The imports that the report on the file lists; `None` when the
    /// analysis of the file failed (or it has no parent directory).
    Analysed(Option<Vec<String>>),
    /// The file the import resolves to, if any.
    Resolved(Option<String>),
}

/// What the analyser asks the caller to do next.
pub enum EntryAction {
    /// Nothing outside: hand back `EntryEvent::Next`.
    Proceed,
    /// Say whether this (normalized) entry file exists.
    CheckExists(String),
    /// Analyse this file and hand back the imports its report lists.
    Analyse { file: String, relative_file: String },
    /// Resolve the import `name` of `file` to a file.
    Resolve { file: String, name: String },
    /// The analysis is over.
    Done,
}

/// A frame as plain values: path, name, imports, how many followed.
pub type FrameView = (Seq<char>, Seq<char>, Seq<Seq<char>>, int);

pub open spec fn frame_view(f: EntryFrame) -> FrameView {
    (f.file@, f.relative_file@, view_strings(f.dependencies@), f.next as int)
}

pub open spec fn frames_view(fs: Seq<EntryFrame>) -> Seq<FrameView> {
    fs.map_values(|f: EntryFrame| frame_view(f))
}

/// The settings that a step never changes.
pub open spec fn same_setup(o: EntryFilesAnalyser, n: EntryFilesAnalyser) -> bool {
    &&& n.ast_analyzer == o.ast_analyzer
    &&& n.allowed_extensions == o.allowed_extensions
    &&& n.root_path == o.root_path
    &&& n.ignore_enoent == o.ignore_enoent
    &&& n.package_dependencies == o.package_dependencies
}

/// The root, as the relative names are computed.
pub open spec fn root_of(a: EntryFilesAnalyser) -> Option<Seq<char>> {
    match a.root_path {
        Some(r) => Some(r@),
        None => None,
    }
}

/// A name that `get_relative_file_path` can give `file` under `root`.
pub open spec fn relative_name(file: Seq<char>, root: Option<Seq<char>>, name: Seq<char>) -> bool {
    &&& root is None ==> name == file
    &&& root matches Some(r) ==> name.len() > 0 && (r == file ==> name == seq!['.'])
}

/// Taking up a file: a declaration file is not analysed (a frame without
/// imports stands for it); otherwise its vertex is added and its analysis
/// asked for.
pub open spec fn started(
    o_graph: Seq<(Seq<char>, Seq<Seq<char>>)>,
    o_frames: Seq<FrameView>,
    n: EntryFilesAnalyser,
    file: Seq<char>,
    rel: Seq<char>,
    r: EntryAction,
) -> bool {
    if contains_seq(file, "d.ts"@) {
        &&& n.dependencies.entries() == o_graph
        &&& frames_view(n.walk.frames@) == o_frames.push((file, rel, Seq::empty(), 0))
        &&& n.walk.awaiting is Next
        &&& r is Proceed
    } else {
        &&& n.dependencies.entries() == with_vertex(o_graph, rel)
        &&& frames_view(n.walk.frames@) == o_frames
        &&& n.walk.awaiting matches Awaiting::Report(f, l) && f@ == file && l@ == rel
        &&& r matches EntryAction::Analyse { file: f, relative_file: l } && f@ == file && l@ == rel
    }
}

/// What `EntryEvent::Next` does.
pub open spec fn stepped_next(o: EntryFilesAnalyser, n: EntryFilesAnalyser, r: EntryAction) -> bool {
    let fs = frames_view(o.walk.frames@);
    let g = o.dependencies.entries();
    if fs.len() > 0 && fs.last().3 < fs.last().2.len() {
        let top = fs.last();
        let name = top.2[top.3];
        &&& n.dependencies.entries() == g
        &&& n.stats == o.stats
        &&& n.unique_imports == o.unique_imports
        &&& n.walk.entries == o.walk.entries
        &&& n.walk.entry_index == o.walk.entry_index
        &&& if view_strings(o.package_dependencies@).contains(name) {
            &&& frames_view(n.walk.frames@) == fs.drop_last().push((top.0, top.1, top.2, top.3 + 1))
            &&& n.walk.awaiting is Next
            &&& r is Proceed
        } else {
            &&& frames_view(n.walk.frames@) == fs
            &&& n.walk.awaiting is Resolution
            &&& r matches EntryAction::Resolve { file, name: m } && file@ == top.0 && m@ == name
        }
    } else if fs.len() > 0 {
        let child = fs.last();
        let rest = fs.drop_last();
        &&& n.stats == o.stats
        &&& n.unique_imports == o.unique_imports
        &&& n.walk.entries == o.walk.entries
        &&& n.walk.entry_index == o.walk.entry_index
        &&& n.walk.awaiting is Next
        &&& r is Proceed
        &&& if rest.len() > 0 {
            let parent = rest.last();
            &&& n.dependencies.entries() == with_edge(g, parent.1, child.1)
            &&& frames_view(n.walk.frames@) == rest.drop_last().push(
                (parent.0, parent.1, parent.2, if parent.3 < parent.2.len() {
                    parent.3 + 1
                } else {
                    parent.3
                }),
            )
        } else {
            &&& n.dependencies.entries() == g
            &&& frames_view(n.walk.frames@) == rest
        }
    } else if o.walk.entry_index < o.walk.entries@.len() {
        &&& n.stats == o.stats
        &&& n.unique_imports == o.unique_imports
        &&& n.walk.entries == o.walk.entries
        &&& n.walk.entry_index == o.walk.entry_index + 1
        &&& if o.ignore_enoent {
            &&& n.dependencies.entries() == g
            &&& frames_view(n.walk.frames@) == fs
            &&& n.walk.awaiting matches Awaiting::Exists(f) && f@.len() > 0
            &&& r matches EntryAction::CheckExists(f) && n.walk.awaiting == Awaiting::Exists(f)
        } else {
            exists|file: Seq<char>, rel: Seq<char>|
                #![trigger relative_name(file, root_of(o), rel)]
                file.len() > 0 && relative_name(file, root_of(o), rel) && started(g, fs, n, file, rel, r)
        }
    } else {
        &&& n.dependencies == o.dependencies
        &&& n.unique_imports == o.unique_imports
        &&& n.stats.number_of_imports_detected == name_set_items(o.unique_imports).len()
        &&& n.stats.number_of_files_processed == o.stats.number_of_files_processed
        &&& frames_view(n.walk.frames@) == fs
        &&& n.walk.entries == o.walk.entries
        &&& n.walk.entry_index == o.walk.entry_index
        &&& n.walk.awaiting is Next
        &&& r is Done
    }
}

/// The entry file whose existence the analyser waits for.
pub open spec fn awaited_entry(a: EntryFilesAnalyser) -> Seq<char> {
    match a.walk.awaiting {
        Awaiting::Exists(f) => f@,
        _ => Seq::empty(),
    }
}

/// Whether a step can take this event: the one the analyser waits for
/// (`Start` at any time).
pub open spec fn accepts(a: EntryFilesAnalyser, event: EntryEvent) -> bool {
    match event {
        EntryEvent::Start(_) => true,
        EntryEvent::Next => a.walk.awaiting is Next,
        EntryEvent::Exists(_) => a.walk.awaiting is Exists,
        EntryEvent::Analysed(_) => a.walk.awaiting is Report
            && a.stats.number_of_files_processed < usize::MAX,
        EntryEvent::Resolved(_) => {
            &&& a.walk.awaiting is Resolution
            &&& a.walk.frames@.len() > 0
            &&& a.walk.frames@.last().next < a.walk.frames@.last().dependencies@.len()
        },
    }
}

/// What a step does with an event.
pub open spec fn stepped(o: EntryFilesAnalyser, n: EntryFilesAnalyser, event: EntryEvent, r: EntryAction) -> bool {
    let fs = frames_view(o.walk.frames@);
    let g = o.dependencies.entries();
    match event {
        EntryEvent::Start(files) => {
            &&& n.dependencies.entries() == Seq::<(Seq<char>, Seq<Seq<char>>)>::empty()
            &&& n.stats.number_of_imports_detected == 0
            &&& n.stats.number_of_files_processed == 0
            &&& name_set_items(n.unique_imports) == Seq::<Seq<char>>::empty()
            &&& view_strings(n.walk.entries@) == first_occurrences(view_strings(files@))
            &&& n.walk.entry_index == 0
            &&& n.walk.frames@.len() == 0
            &&& n.walk.awaiting is Next
            &&& r is Proceed
        },
        EntryEvent::Next => stepped_next(o, n, r),
        EntryEvent::Exists(found) => {
            let file = awaited_entry(o);
            &&& n.stats == o.stats
            &&& n.unique_imports == o.unique_imports
            &&& n.walk.entries == o.walk.entries
            &&& n.walk.entry_index == o.walk.entry_index
            &&& if !found {
                &&& n.dependencies.entries() == g
                &&& frames_view(n.walk.frames@) == fs
                &&& n.walk.awaiting is Next
                &&& r is Proceed
            } else {
                exists|rel: Seq<char>|
                    #![trigger relative_name(file, root_of(o), rel)]
                    relative_name(file, root_of(o), rel) && started(g, fs, n, file, rel, r)
            }
        },
        EntryEvent::Analysed(imports) => {
            let (file, rel) = match o.walk.awaiting {
                Awaiting::Report(f, l) => (f@, l@),
                _ => (Seq::empty(), Seq::empty()),
            };
            let deps = match imports {
                Some(v) => view_strings(v@),
                None => Seq::empty(),
            };
            &&& n.stats.number_of_files_processed == o.stats.number_of_files_processed + 1
            &&& n.stats.number_of_imports_detected == o.stats.number_of_imports_detected
            &&& n.dependencies.entries() == g
            &&& n.unique_imports == o.unique_imports
            &&& n.walk.entries == o.walk.entries
            &&& n.walk.entry_index == o.walk.entry_index
            &&& frames_view(n.walk.frames@) == fs.push((file, rel, deps, 0))
            &&& n.walk.awaiting is Next
            &&& r is Proceed
        },
        EntryEvent::Resolved(resolved) => {
            let top = fs.last();
            let followed = fs.drop_last().push((top.0, top.1, top.2, top.3 + 1));
            &&& n.stats == o.stats
            &&& n.walk.entries == o.walk.entries
            &&& n.walk.entry_index == o.walk.entry_index
            &&& match resolved {
                None => {
                    &&& n.unique_imports == o.unique_imports
                    &&& n.dependencies.entries() == g
                    &&& frames_view(n.walk.frames@) == followed
                    &&& n.walk.awaiting is Next
                    &&& r is Proceed
                },
                Some(dep) => {
                    &&& name_set_items(n.unique_imports) == set_insert(
                        name_set_items(o.unique_imports),
                        dep@,
                    )
                    &&& exists|rel: Seq<char>|
                        #![trigger relative_name(dep@, root_of(o), rel)]
                        relative_name(dep@, root_of(o), rel) && if has_key(g, rel) {
                            &&& n.dependencies.entries() == with_edge(g, top.1, rel)
                            &&& frames_view(n.walk.frames@) == followed
                            &&& n.walk.awaiting is Next
                            &&& r is Proceed
                        } else {
                            started(with_vertex(g, rel), fs, n, dep@, rel, r)
                        }
                },
            }
        },
    }
}

proof fn lemma_frames_push(fs: Seq<EntryFrame>, f: EntryFrame)
    ensures
        frames_view(fs.push(f)) == frames_view(fs).push(frame_view(f)),
{
    assert(frames_view(fs.push(f)) =~= frames_view(fs).push(frame_view(f)));
}

proof fn lemma_frames_pop(fs: Seq<EntryFrame>)
    requires
        fs.len() > 0,
    ensures
        frames_view(fs.drop_last()) == frames_view(fs).drop_last(),
        frames_view(fs).last() == frame_view(fs.last()),
{
    assert(frames_view(fs.drop_last()) =~= frames_view(fs).drop_last());
}

impl EntryFilesAnalyser {
    /// Takes up a file: a declaration file stands as a frame without
    /// imports; otherwise its vertex is added and its analysis asked for.
    fn start_file(&mut self, file: String, relative_file: String) -> (r: EntryAction)
        ensures
            same_setup(*old(self), *final(self)),
            final(self).stats == old(self).stats,
            final(self).unique_imports == old(self).unique_imports,
            final(self).walk.entries == old(self).walk.entries,
            final(self).walk.entry_index == old(self).walk.entry_index,
            started(
                old(self).dependencies.entries(),
                frames_view(old(self).walk.frames@),
                *final(self),
                file@,
                relative_file@,
                r,
            ),
    {
        if is_declaration_file(file.as_str()) {
            let ghost before = self.walk.frames@;
            let frame = EntryFrame { file, relative_file, dependencies: Vec::new(), next: 0 };
            proof {
                lemma_frames_push(before, frame);
                assert(view_strings(frame.dependencies@) =~= Seq::<Seq<char>>::empty());
            }
            self.walk.frames.push(frame);
            self.walk.awaiting = Awaiting::Next;
            return EntryAction::Proceed;
        }
        self.dependencies.add_vertex(relative_file.clone());
        self.walk.awaiting = Awaiting::Report(file.clone(), relative_file.clone());
        EntryAction::Analyse { file, relative_file }
    }

    /// Marks the top frame's current import as followed.
    fn follow_next(&mut self)
        requires
            old(self).walk.frames@.len() > 0,
            old(self).walk.frames@.last().next < old(self).walk.frames@.last().dependencies@.len(),
        ensures
            ({
                let fs = frames_view(old(self).walk.frames@);
                let top = fs.last();
                frames_view(final(self).walk.frames@) == fs.drop_last().push(
                    (top.0, top.1, top.2, top.3 + 1),
                )
            }),
            final(self).walk.entries == old(self).walk.entries,
            final(self).walk.entry_index == old(self).walk.entry_index,
            final(self).walk.awaiting == old(self).walk.awaiting,
            final(self).dependencies == old(self).dependencies,
            final(self).stats == old(self).stats,
            final(self).unique_imports == old(self).unique_imports,
            same_setup(*old(self), *final(self)),
    {
        let ghost before = self.walk.frames@;
        let mut top = self.walk.frames.pop().unwrap();
        assert(top == before.last());
        if top.next < top.dependencies.len() {
            top.next = top.next + 1;
        }
        proof {
            lemma_frames_pop(before);
            lemma_frames_push(before.drop_last(), top);
        }
        self.walk.frames.push(top);
    }

    /// Whether a step can take this event now.
    pub fn accepts_event(&self, event: &EntryEvent) -> (r: bool)
        ensures
            r == accepts(*self, *event),
    {
        match event {
            EntryEvent::Start(_) => true,
            EntryEvent::Next => matches!(self.walk.awaiting, Awaiting::Next),
            EntryEvent::Exists(_) => matches!(self.walk.awaiting, Awaiting::Exists(_)),
            EntryEvent::Analysed(_) => matches!(self.walk.awaiting, Awaiting::Report(_, _))
                && self.stats.number_of_files_processed < usize::MAX,
            EntryEvent::Resolved(_) => {
                let n = self.walk.frames.len();
                matches!(self.walk.awaiting, Awaiting::Resolution) && n > 0 && self.walk.frames[n
                    - 1].next < self.walk.frames[n - 1].dependencies.len()
            },
        }
    }

    /// One step of an entry-files analysis: what the analyser makes of the
    /// event, and what it asks for next.
    pub fn step(&mut self, event: EntryEvent) -> (r: EntryAction)
        requires
            accepts(*old(self), event),
        ensures
            same_setup(*old(self), *final(self)),
            stepped(*old(self), *final(self), event, r),
    {
        match event {
            EntryEvent::Start(files) => {
                self.begin_analysis();
                let ghost all = view_strings(files@);
                let mut entries: Vec<String> = Vec::new();
                let mut i: usize = 0;
                while i < files.len()
                    invariant
                        all == view_strings(files@),
                        0 <= i <= files@.len(),
                        view_strings(entries@) == first_occurrences(all.take(i as int)),
                    decreases files.len() - i,
                {
                    assert(all.take(i + 1).drop_last() =~= all.take(i as int));
                    if !strings_contain(&entries, files[i].as_str()) {
                        let ghost before = entries@;
                        entries.push(files[i].clone());
                        proof {
                            crate::text::lemma_view_strings_push(before, files@[i as int]);
                        }
                    }
                    i = i + 1;
                }
                assert(all.take(i as int) =~= all);
                assert(self.dependencies.entries() == Seq::<(Seq<char>, Seq<Seq<char>>)>::empty());
                assert(name_set_items(self.unique_imports) == Seq::<Seq<char>>::empty());
                assert(view_strings(entries@) == first_occurrences(view_strings(files@)));
                self.walk = EntryWalk { entries, entry_index: 0, frames: Vec::new(), awaiting: Awaiting::Next };
                assert(self.stats.number_of_imports_detected == 0);
                assert(self.walk.frames@.len() == 0);
                assert(view_strings(self.walk.entries@) == first_occurrences(view_strings(files@)));
                assert(self.dependencies.entries() == Seq::<(Seq<char>, Seq<Seq<char>>)>::empty());
                assert(name_set_items(self.unique_imports) == Seq::<Seq<char>>::empty());
                assert(self.stats.number_of_files_processed == 0);
                assert(same_setup(*old(self), *self));
                EntryAction::Proceed
            },
            EntryEvent::Next => self.next_step(),
            EntryEvent::Exists(found) => self.on_exists(found),
            EntryEvent::Analysed(imports) => self.on_analysed(imports),
            EntryEvent::Resolved(resolved) => self.on_resolved(resolved),
        }
    }

    /// `EntryEvent::Exists`.
    fn on_exists(&mut self, found: bool) -> (r: EntryAction)
        requires
            accepts(*old(self), EntryEvent::Exists(found)),
        ensures
            same_setup(*old(self), *final(self)),
            stepped(*old(self), *final(self), EntryEvent::Exists(found), r),
    {
        let file = match &self.walk.awaiting {
            Awaiting::Exists(f) => f.clone(),
            _ => String::new(),
        };
        if !found {
            self.walk.awaiting = Awaiting::Next;
            return EntryAction::Proceed;
        }
        let rel = match &self.root_path {
            Some(root) => get_relative_file_path(file.as_str(), Some(root.as_str())),
            None => get_relative_file_path(file.as_str(), None),
        };
        let ghost filev = file@;
        let ghost relv = rel@;
        let r = self.start_file(file, rel);
        assert(filev == awaited_entry(*old(self)));
        assert(relative_name(filev, root_of(*old(self)), relv));
        assert(started(
            old(self).dependencies.entries(),
            frames_view(old(self).walk.frames@),
            *self,
            filev,
            relv,
            r,
        ));
        assert(exists|rl: Seq<char>|
            #![trigger relative_name(filev, root_of(*old(self)), rl)]
            relative_name(filev, root_of(*old(self)), rl) && started(
                old(self).dependencies.entries(),
                frames_view(old(self).walk.frames@),
                *self,
                filev,
                rl,
                r,
            ));
        assert(self.stats == old(self).stats);
        assert(self.walk.entries == old(self).walk.entries);
        r
    }

    /// `EntryEvent::Analysed`.
    fn on_analysed(&mut self, imports: Option<Vec<String>>) -> (r: EntryAction)
        requires
            accepts(*old(self), EntryEvent::Analysed(imports)),
        ensures
            same_setup(*old(self), *final(self)),
            stepped(*old(self), *final(self), EntryEvent::Analysed(imports), r),
    {
        let (file, rel) = match &self.walk.awaiting {
            Awaiting::Report(f, l) => (f.clone(), l.clone()),
            _ => (String::new(), String::new()),
        };
        let dependencies = match imports {
            Some(v) => v,
            None => Vec::new(),
        };
        proof {
            assert(imports is None ==> view_strings(dependencies@) =~= Seq::<Seq<char>>::empty());
        }
        self.file_processed();
        let ghost before = self.walk.frames@;
        let frame = EntryFrame { file, relative_file: rel, dependencies, next: 0 };
        proof {
            lemma_frames_push(before, frame);
        }
        self.walk.frames.push(frame);
        self.walk.awaiting = Awaiting::Next;
        EntryAction::Proceed
    }

    /// `EntryEvent::Resolved`.
    fn on_resolved(&mut self, resolved: Option<String>) -> (r: EntryAction)
        requires
            accepts(*old(self), EntryEvent::Resolved(resolved)),
        ensures
            same_setup(*old(self), *final(self)),
            stepped(*old(self), *final(self), EntryEvent::Resolved(resolved), r),
    {
        match resolved {
            None => {
                self.follow_next();
                self.walk.awaiting = Awaiting::Next;
                EntryAction::Proceed
            },
            Some(dep) => {
                let _ = name_set_insert(&mut self.unique_imports, dep.clone());
                let dep_rel = match &self.root_path {
                    Some(root) => get_relative_file_path(dep.as_str(), Some(root.as_str())),
                    None => get_relative_file_path(dep.as_str(), None),
                };
                let ghost relv = dep_rel@;
                let ghost depv = dep@;
                assert(relative_name(depv, root_of(*old(self)), relv));
                let last = self.walk.frames.len() - 1;
                let parent_rel = self.walk.frames[last].relative_file.clone();
                proof {
                    lemma_frames_pop(old(self).walk.frames@);
                }
                if self.dependencies.has_vertex(dep_rel.as_str()) {
                    self.dependencies.add_edge(parent_rel, dep_rel);
                    self.follow_next();
                    self.walk.awaiting = Awaiting::Next;
                    EntryAction::Proceed
                } else {
                    self.dependencies.add_vertex(dep_rel.clone());
                    let r = self.start_file(dep, dep_rel);
                    assert(started(
                        with_vertex(old(self).dependencies.entries(), relv),
                        frames_view(old(self).walk.frames@),
                        *self,
                        depv,
                        relv,
                        r,
                    ));
                    r
                }
            },
        }
    }

    /// `EntryEvent::Next`: follows the next import of the current file,
    /// ends a file whose imports are all followed, takes up the next entry
    /// file, or ends the analysis.
    fn next_step(&mut self) -> (r: EntryAction)
        ensures
            same_setup(*old(self), *final(self)),
            stepped_next(*old(self), *final(self), r),
    {
        let count = self.walk.frames.len();
        if count > 0 {
            let ghost fs = self.walk.frames@;
            proof {
                lemma_frames_pop(fs);
            }
            let top = count - 1;
            if self.walk.frames[top].next < self.walk.frames[top].dependencies.len() {
                let k = self.walk.frames[top].next;
                let name = self.walk.frames[top].dependencies[k].clone();
                assert(frames_view(fs).last().2[k as int] == name@);
                if strings_contain(&self.package_dependencies, name.as_str()) {
                    self.follow_next();
                    self.walk.awaiting = Awaiting::Next;
                    return EntryAction::Proceed;
                }
                let file = self.walk.frames[top].file.clone();
                self.walk.awaiting = Awaiting::Resolution;
                return EntryAction::Resolve { file, name };
            }
            let child = self.walk.frames.pop().unwrap();
            self.walk.awaiting = Awaiting::Next;
            if self.walk.frames.len() > 0 {
                let ghost rest = self.walk.frames@;
                proof {
                    lemma_frames_pop(rest);
                }
                let parent = self.walk.frames.len() - 1;
                let parent_rel = self.walk.frames[parent].relative_file.clone();
                self.dependencies.add_edge(parent_rel, child.relative_file);
                let mut frame = self.walk.frames.pop().unwrap();
                if frame.next < frame.dependencies.len() {
                    frame.next = frame.next + 1;
                }
                proof {
                    lemma_frames_push(rest.drop_last(), frame);
                }
                self.walk.frames.push(frame);
            }
            return EntryAction::Proceed;
        }
        if self.walk.entry_index < self.walk.entries.len() {
            let entry = self.walk.entries[self.walk.entry_index].clone();
            self.walk.entry_index = self.walk.entry_index + 1;
            let file = match &self.root_path {
                Some(root) => normalize_and_clean_entry_file(entry.as_str(), Some(root.as_str())),
                None => normalize_and_clean_entry_file(entry.as_str(), None),
            };
            if self.ignore_enoent {
                self.walk.awaiting = Awaiting::Exists(file.clone());
                return EntryAction::CheckExists(file);
            }
            let rel = match &self.root_path {
                Some(root) => get_relative_file_path(file.as_str(), Some(root.as_str())),
                None => get_relative_file_path(file.as_str(), None),
            };
            let ghost filev = file@;
            let ghost relv = rel@;
            let r = self.start_file(file, rel);
            assert(relative_name(filev, root_of(*old(self)), relv));
            return r;
        }
        self.end_analysis();
        self.walk.awaiting = Awaiting::Next;
        EntryAction::Done
    }
}

} // verus!
