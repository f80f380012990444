//! Discovery of external commands: walking the repository tree, filtering
//! paths against the exclusion rules, probing file content for the
//! declaration marker, and merging parsed records into a name-keyed
//! registry.

use vstd::prelude::*;
use vstd::string::StrSliceExecFns;
use vstd::pervasive::VecAdditionalExecFns;
use crate::interfaces::{contains_name, external_names, external_views, find_external,
    find_parsed, parsed_names, parsed_views, DevKitCommand, DevKitCommandView, ParsedCommand};
use crate::internal_commands::internal_registry::{find_internal, internal_names, InternalCommand};
use crate::validations::CommandCollision;
use crate::text::{contains_seq, has_dotted_segment, has_segment, is_prefix_of, is_suffix_of,
    str_contains, str_has_dotted_segment, str_has_prefix, str_has_segment, str_has_suffix,
    views_of};

verus! {

/// One entry the tree walk produced: its path and whether it is a regular
/// file.
pub struct WalkEntry {
    pub path: String,
    pub is_file: bool,
}

/// Mathematical image of a [`WalkEntry`].
pub ghost struct WalkEntryView {
    pub path: Seq<char>,
    pub is_file: bool,
}

impl View for WalkEntry {
    type V = WalkEntryView;

    open spec fn view(&self) -> WalkEntryView {
        WalkEntryView { path: self.path@, is_file: self.is_file }
    }
}

/// The views of a sequence of walk entries, in order.
pub open spec fn entry_views(s: Seq<WalkEntry>) -> Seq<WalkEntryView> {
    s.map_values(|e: WalkEntry| e@)
}

/// `path` made relative to `root`: the part behind `root/` when the path
/// starts so, otherwise the path unchanged.
pub open spec fn relative_to(root: Seq<char>, path: Seq<char>) -> Seq<char> {
    if is_prefix_of(root + "/"@, path) {
        path.subrange((root.len() + "/"@.len()) as int, path.len() as int)
    } else {
        path
    }
}

/// The relative path begins with one of the restricted names.
pub open spec fn forward_restricted(rel: Seq<char>) -> bool {
    is_prefix_of("."@, rel) || is_prefix_of("node_modules"@, rel) || is_prefix_of("target"@, rel)
}

/// The relative path ends in a reserved suffix: a lockfile, or the tool's
/// own command template.
pub open spec fn backward_restricted(rel: Seq<char>) -> bool {
    is_suffix_of(".lock"@, rel) || is_suffix_of("internal_commands/command_template.ts"@, rel)
}

/// Some whole segment of the relative path is hidden or restricted.
pub open spec fn segment_restricted(rel: Seq<char>) -> bool {
    has_dotted_segment(rel) || has_segment(rel, "."@) || has_segment(rel, "node_modules"@)
        || has_segment(rel, "target"@)
}

/// The exclusion rule of the tree walk, evaluated on the path relative to
/// `root`.
pub open spec fn blacklisted(root: Seq<char>, path: Seq<char>) -> bool {
    forward_restricted(relative_to(root, path)) || backward_restricted(relative_to(root, path))
        || segment_restricted(relative_to(root, path))
}

/// A path the walk keeps: declaration-source extension and not excluded.
pub open spec fn is_candidate_path(root: Seq<char>, path: Seq<char>) -> bool {
    is_suffix_of(".ts"@, path) && !blacklisted(root, path)
}

/// An entry the walk keeps: a regular file at a candidate path.
pub open spec fn is_candidate_entry(root: Seq<char>, e: WalkEntryView) -> bool {
    e.is_file && is_candidate_path(root, e.path)
}

/// The candidate filter as a predicate over walk entries.
pub open spec fn candidate_pred(root: Seq<char>) -> spec_fn(WalkEntryView) -> bool {
    |e: WalkEntryView| is_candidate_entry(root, e)
}

/// The paths the walk keeps out of `entries`, in walk order.
pub open spec fn candidate_paths(root: Seq<char>, entries: Seq<WalkEntryView>) -> Seq<Seq<char>> {
    entries.filter(candidate_pred(root)).map_values(|e: WalkEntryView| e.path)
}

/// The marker an external command declaration is recognized by.
pub open spec fn marker() -> Seq<char> {
    "new DevKitCommand("@
}

/// Which end of the path a restriction token is held against.
#[derive(Clone, Copy)]
pub enum RestrictDirection {
    Forwards,
    Backwards,
}

/// Discovers the external commands declared under a repository root.
pub struct ExternalCommands {
    pub root: String,
}

impl ExternalCommands {
    pub fn new(root: String) -> (r: ExternalCommands)
        ensures
            r.root == root,
    {
        ExternalCommands { root }
    }

    /// Whether some restriction token sits at the chosen end of `path`.
    pub fn restrict(path: &str, tokens: &Vec<String>, direction: RestrictDirection) -> (r: bool)
        ensures
            r == exists|i: int|
                0 <= i < tokens@.len() && match direction {
                    RestrictDirection::Forwards => is_prefix_of(tokens@[i]@, path@),
                    RestrictDirection::Backwards => is_suffix_of(tokens@[i]@, path@),
                },
    {
        let mut i: usize = 0;
        while i < tokens.len()
            invariant
                0 <= i <= tokens@.len(),
                forall|k: int| 0 <= k < i ==> match direction {
                    RestrictDirection::Forwards => !is_prefix_of(tokens@[k]@, path@),
                    RestrictDirection::Backwards => !is_suffix_of(tokens@[k]@, path@),
                },
            decreases tokens@.len() - i,
        {
            let hit = match direction {
                RestrictDirection::Forwards => str_has_prefix(path, tokens[i].as_str()),
                RestrictDirection::Backwards => str_has_suffix(path, tokens[i].as_str()),
            };
            if hit {
                return true;
            }
            i = i + 1;
        }
        false
    }

    /// `path` relative to this discovery's root.
    fn relative_path(&self, path: &str) -> (r: String)
        ensures
            r@ == relative_to(self.root@, path@),
    {
        let prefix = self.root.clone().concat("/");
        if str_has_prefix(path, prefix.as_str()) {
            let start = prefix.as_str().unicode_len();
            let end = path.unicode_len();
            path.substring_char(start, end).to_owned()
        } else {
            path.to_owned()
        }
    }

    /// Whether the exclusion rule rejects `path`.
    pub fn black_list_dirs(&self, path: &str) -> (r: bool)
        ensures
            r == blacklisted(self.root@, path@),
    {
        let rel = self.relative_path(path);
        let mut restricted_paths: Vec<String> = Vec::new();
        restricted_paths.push(".".to_owned());
        restricted_paths.push("node_modules".to_owned());
        restricted_paths.push("target".to_owned());
        let mut restricted_suffixes: Vec<String> = Vec::new();
        restricted_suffixes.push(".lock".to_owned());
        restricted_suffixes.push("internal_commands/command_template.ts".to_owned());
        if ExternalCommands::restrict(rel.as_str(), &restricted_paths, RestrictDirection::Forwards) {
            return true;
        }
        if ExternalCommands::restrict(
            rel.as_str(),
            &restricted_suffixes,
            RestrictDirection::Backwards,
        ) {
            return true;
        }
        proof {
            assert(restricted_paths@[0]@ == "."@);
            assert(restricted_paths@[1]@ == "node_modules"@);
            assert(restricted_paths@[2]@ == "target"@);
            assert(restricted_suffixes@[0]@ == ".lock"@);
            assert(restricted_suffixes@[1]@ == "internal_commands/command_template.ts"@);
            assert(!is_prefix_of("."@, rel@));
            assert(!is_prefix_of("node_modules"@, rel@));
            assert(!is_prefix_of("target"@, rel@));
            assert(!is_suffix_of(".lock"@, rel@));
            assert(!is_suffix_of("internal_commands/command_template.ts"@, rel@));
        }
        if str_has_dotted_segment(rel.as_str()) {
            return true;
        }
        if str_has_segment(rel.as_str(), ".") {
            return true;
        }
        if str_has_segment(rel.as_str(), "node_modules") {
            return true;
        }
        if str_has_segment(rel.as_str(), "target") {
            return true;
        }
        false
    }

    /// Whether the walk may keep an entry at all: its path survives the
    /// exclusion rule.
    pub fn allowed(&self, entry: &WalkEntry) -> (r: bool)
        ensures
            r == !blacklisted(self.root@, entry.path@),
    {
        !self.black_list_dirs(entry.path.as_str())
    }

    /// Whether one line of a candidate file declares an external command.
    pub fn contains_marker(line: &str) -> (r: bool)
        ensures
            r == contains_seq(line@, marker()),
    {
        str_contains(line, "new DevKitCommand(")
    }

    /// Whether any line of a candidate file declares an external command:
    /// the content probe, applied to the file read as lines.
    pub fn probe_lines(lines: &Vec<String>) -> (r: bool)
        ensures
            r == exists|i: int| 0 <= i < lines@.len() && contains_seq(lines@[i]@, marker()),
    {
        let mut i: usize = 0;
        while i < lines.len()
            invariant
                0 <= i <= lines@.len(),
                forall|k: int| 0 <= k < i ==> !contains_seq(lines@[k]@, marker()),
            decreases lines@.len() - i,
        {
            if ExternalCommands::contains_marker(lines[i].as_str()) {
                return true;
            }
            i = i + 1;
        }
        false
    }

    /// Relies on `walkdir::WalkDir`: enumerates the directory tree under
    /// `root`.  What comes back depends on the file system; unreadable
    /// entries and non-Unicode paths are skipped.
    #[verifier::external_body]
    fn walk_tree(root: &str) -> (r: Vec<WalkEntry>) {
        walkdir::WalkDir::new(root)
            .into_iter()
            .filter_map(|entry| entry.ok())
            .filter_map(|entry| {
                let is_file = entry.file_type().is_file();
                entry.path().to_str().map(|p| WalkEntry { path: p.to_string(), is_file })
            })
            .collect()
    }

    /// The paths of exactly those entries that are regular files with the
    /// declaration extension and survive the exclusion rule, in walk order.
    pub fn filter_candidates(&self, entries: &Vec<WalkEntry>) -> (r: Vec<String>)
        ensures
            views_of(r@) == candidate_paths(self.root@, entry_views(entries@)),
    {
        let mut out: Vec<String> = Vec::new();
        let ghost evs = entry_views(entries@);
        let ghost pred = candidate_pred(self.root@);
        let ghost path_of = |e: WalkEntryView| e.path;
        let mut j: usize = 0;
        proof {
            assert(evs.take(0) =~= Seq::<WalkEntryView>::empty());
            reveal_with_fuel(Seq::<_>::filter, 2);
        }
        while j < entries.len()
            invariant
                0 <= j <= entries@.len(),
                evs == entry_views(entries@),
                pred == candidate_pred(self.root@),
                path_of == (|e: WalkEntryView| e.path),
                views_of(out@) == candidate_paths(self.root@, evs.take(j as int)),
            decreases entries@.len() - j,
        {
            let entry = &entries[j];
            let ghost before = out@;
            if entry.is_file && str_has_suffix(entry.path.as_str(), ".ts")
                && !self.black_list_dirs(entry.path.as_str()) {
                out.push(entry.path.clone());
            }
            proof {
                reveal_with_fuel(Seq::<_>::filter, 2);
                assert(evs.take(j + 1).drop_last() =~= evs.take(j as int));
                assert(evs.take(j + 1).last() == evs[j as int]);
                assert(evs[j as int] == entries@[j as int]@);
                if pred(evs[j as int]) {
                    assert(evs.take(j + 1).filter(pred) == evs.take(j as int).filter(pred).push(
                        evs[j as int],
                    ));
                    assert(views_of(out@) =~= views_of(before).push(entries@[j as int]@.path));
                    assert(views_of(out@) =~= candidate_paths(self.root@, evs.take(j + 1)));
                } else {
                    assert(views_of(out@) =~= candidate_paths(self.root@, evs.take(j + 1)));
                }
            }
            j = j + 1;
        }
        proof {
            assert(evs.take(entries@.len() as int) =~= evs);
        }
        out
    }

    /// Walks the tree under the root and keeps the candidate paths: every
    /// path handed back is a `.ts` file path that survives the exclusion
    /// rule, whatever the file system held.
    pub fn find_candidates(&self) -> (r: Vec<String>)
        ensures
            forall|i: int| 0 <= i < r@.len() ==> is_candidate_path(self.root@, r@[i]@),
    {
        let entries = ExternalCommands::walk_tree(self.root.as_str());
        let out = self.filter_candidates(&entries);
        proof {
            let evs = entry_views(entries@);
            let pred = candidate_pred(self.root@);
            let filtered = evs.filter(pred);
            assert(views_of(out@) == candidate_paths(self.root@, evs));
            assert(views_of(out@).len() == out@.len());
            assert(candidate_paths(self.root@, evs).len() == filtered.len());
            assert forall|i: int| 0 <= i < out@.len()
                implies is_candidate_path(self.root@, out@[i]@) by {
                assert(views_of(out@)[i] == out@[i]@);
                assert(candidate_paths(self.root@, evs)[i] == filtered[i].path);
                evs.lemma_filter_pred(pred, i);
                assert(is_candidate_entry(self.root@, filtered[i]));
            }
        }
        out
    }

    /// The first external command whose name shadows a built-in, if any.
    pub fn detect_collisions_between_internals_and_externals(
        internals: &Vec<InternalCommand>,
        externals: &Vec<DevKitCommand>,
    ) -> (r: Option<CommandCollision>)
        ensures
            match r {
                Some(c) => exists|i: int|
                    0 <= i < externals@.len() && contains_name(
                        internal_names(internals@),
                        #[trigger] externals@[i]@.name,
                    ) && (c matches CommandCollision::WithInternal { name, location }
                        && name@ == externals@[i]@.name && location@ == externals@[i]@.location)
                        && (forall|k: int|
                        0 <= k < i ==> !contains_name(
                            internal_names(internals@),
                            #[trigger] externals@[k]@.name,
                        )),
                None => forall|i: int|
                    0 <= i < externals@.len() ==> !contains_name(
                        internal_names(internals@),
                        #[trigger] externals@[i]@.name,
                    ),
            },
    {
        let mut i: usize = 0;
        while i < externals.len()
            invariant
                0 <= i <= externals@.len(),
                forall|k: int|
                    0 <= k < i ==> !contains_name(
                        internal_names(internals@),
                        #[trigger] externals@[k]@.name,
                    ),
            decreases externals@.len() - i,
        {
            let c = &externals[i];
            match find_internal(internals, c.name.as_str()) {
                Some(h) => {
                    proof {
                        assert(internal_names(internals@)[h as int]
                            == internals@[h as int].name_view());
                        assert(contains_name(
                            internal_names(internals@),
                            externals@[i as int]@.name,
                        ));
                    }
                    return Some(CommandCollision::WithInternal {
                        name: c.name.clone(),
                        location: c.location.clone(),
                    });
                },
                None => {},
            }
            i = i + 1;
        }
        None
    }

    /// The first built-in whose name a project command shadows, if any.
    pub fn detect_collisions_between_internals_and_root_commands(
        internals: &Vec<InternalCommand>,
        root_commands: &Vec<ParsedCommand>,
    ) -> (r: Option<CommandCollision>)
        ensures
            match r {
                Some(c) => exists|i: int|
                    0 <= i < internals@.len() && contains_name(
                        parsed_names(parsed_views(root_commands@)),
                        #[trigger] internals@[i].name_view(),
                    ) && (c matches CommandCollision::RootWithInternal { name }
                        && name@ == internals@[i].name_view()) && (forall|k: int|
                        0 <= k < i ==> !contains_name(
                            parsed_names(parsed_views(root_commands@)),
                            #[trigger] internals@[k].name_view(),
                        )),
                None => forall|i: int|
                    0 <= i < internals@.len() ==> !contains_name(
                        parsed_names(parsed_views(root_commands@)),
                        #[trigger] internals@[i].name_view(),
                    ),
            },
    {
        let mut i: usize = 0;
        while i < internals.len()
            invariant
                0 <= i <= internals@.len(),
                forall|k: int|
                    0 <= k < i ==> !contains_name(
                        parsed_names(parsed_views(root_commands@)),
                        #[trigger] internals@[k].name_view(),
                    ),
            decreases internals@.len() - i,
        {
            let d = internals[i].get_definition();
            match find_parsed(root_commands, d.name.as_str()) {
                Some(h) => {
                    proof {
                        assert(parsed_names(parsed_views(root_commands@))[h as int]
                            == root_commands@[h as int]@.name);
                        assert(contains_name(
                            parsed_names(parsed_views(root_commands@)),
                            internals@[i as int].name_view(),
                        ));
                    }
                    return Some(CommandCollision::RootWithInternal { name: d.name.clone() });
                },
                None => {},
            }
            i = i + 1;
        }
        None
    }

    /// The first external command whose name shadows a project command, if
    /// any.
    pub fn detect_collisions_between_root_commands_and_externals(
        externals: &Vec<DevKitCommand>,
        root_commands: &Vec<ParsedCommand>,
    ) -> (r: Option<CommandCollision>)
        ensures
            match r {
                Some(c) => exists|i: int|
                    0 <= i < externals@.len() && contains_name(
                        parsed_names(parsed_views(root_commands@)),
                        #[trigger] externals@[i]@.name,
                    ) && (c matches CommandCollision::RootWithExternal { name, location }
                        && name@ == externals@[i]@.name && location@ == externals@[i]@.location)
                        && (forall|k: int|
                        0 <= k < i ==> !contains_name(
                            parsed_names(parsed_views(root_commands@)),
                            #[trigger] externals@[k]@.name,
                        )),
                None => forall|i: int|
                    0 <= i < externals@.len() ==> !contains_name(
                        parsed_names(parsed_views(root_commands@)),
                        #[trigger] externals@[i]@.name,
                    ),
            },
    {
        let mut i: usize = 0;
        while i < externals.len()
            invariant
                0 <= i <= externals@.len(),
                forall|k: int|
                    0 <= k < i ==> !contains_name(
                        parsed_names(parsed_views(root_commands@)),
                        #[trigger] externals@[k]@.name,
                    ),
            decreases externals@.len() - i,
        {
            let c = &externals[i];
            match find_parsed(root_commands, c.name.as_str()) {
                Some(h) => {
                    proof {
                        assert(parsed_names(parsed_views(root_commands@))[h as int]
                            == root_commands@[h as int]@.name);
                        assert(contains_name(
                            parsed_names(parsed_views(root_commands@)),
                            externals@[i as int]@.name,
                        ));
                    }
                    return Some(CommandCollision::RootWithExternal {
                        name: c.name.clone(),
                        location: c.location.clone(),
                    });
                },
                None => {},
            }
            i = i + 1;
        }
        None
    }

    /// Merges parsed records into a name-keyed registry: one entry per
    /// distinct name, the last record seen under a name winning.
    pub fn collect_instances(&self, commands: &Vec<DevKitCommand>) -> (r: Vec<DevKitCommand>)
        ensures
            unique_names_of(external_views(r@)),
            forall|n: Seq<char>|
                contains_name(external_names(external_views(r@)), n) == contains_name(
                    external_names(external_views(commands@)),
                    n,
                ),
            merged_from(
                external_views(r@),
                external_views(commands@),
                external_views(commands@).len() as int,
            ),
    {
        let mut out: Vec<DevKitCommand> = Vec::new();
        let mut j: usize = 0;
        proof {
            assert(external_views(commands@).take(0) =~= Seq::<DevKitCommandView>::empty());
            assert(external_names(external_views(out@)) =~= Seq::<Seq<char>>::empty());
            assert(external_names(external_views(commands@).take(0)) =~= Seq::<Seq<char>>::empty());
        }
        while j < commands.len()
            invariant
                0 <= j <= commands@.len(),
                unique_names_of(external_views(out@)),
                forall|n: Seq<char>|
                    contains_name(external_names(external_views(out@)), n) == contains_name(
                        external_names(external_views(commands@).take(j as int)),
                        n,
                    ),
                merged_from(external_views(out@), external_views(commands@), j as int),
            decreases commands@.len() - j,
        {
            let c = &commands[j];
            let ghost before = external_views(out@);
            proof {
                assert(external_names(external_views(commands@).take(j + 1)) =~= external_names(external_views(commands@).take(j as int)).push(
                    external_views(commands@)[j as int].name,
                ));
            }
            match find_external(&out, c.name.as_str()) {
                Some(i) => {
                    out.set(i, c.clone());
                    proof {
                        let after = external_views(out@);
                        assert(after =~= before.update(i as int, external_views(commands@)[j as int]));
                        assert(before[i as int].name == external_views(commands@)[j as int].name);
                        assert(external_names(after) =~= external_names(before));
                        assert(contains_name(external_names(before), external_views(commands@)[j as int].name)) by {
                            assert(external_names(before)[i as int] == before[i as int].name);
                        }
                        assert forall|n: Seq<char>|
                            contains_name(external_names(after), n) == contains_name(
                                external_names(external_views(commands@).take(j + 1)),
                                n,
                            ) by {
                            assert(contains_name(external_names(before), n) == contains_name(
                                external_names(external_views(commands@).take(j as int)),
                                n,
                            ));
                            crate::interfaces::lemma_contains_name_push(
                                external_names(external_views(commands@).take(j as int)),
                                external_views(commands@)[j as int].name,
                                n,
                            );
                        }
                        assert forall|p: int| 0 <= p < after.len() implies exists|k: int|
                            0 <= k < j + 1 && #[trigger] external_views(commands@)[k] == #[trigger] after[p] && (forall|m: int|
                                k < m < j + 1 ==> (#[trigger] external_views(commands@)[m]).name != after[p].name) by {
                            if p == i as int {
                                assert(external_views(commands@)[j as int] == after[p]);
                                assert(forall|m: int|
                                    j < m < j + 1 ==> external_views(commands@)[m].name != after[p].name);
                            } else {
                                assert(after[p] == before[p]);
                                let k = choose|k: int|
                                    0 <= k < j && external_views(commands@)[k] == before[p] && (forall|m: int|
                                        k < m < j ==> external_views(commands@)[m].name != before[p].name);
                                assert(external_names(before)[p] == before[p].name);
                                assert(external_names(before)[i as int]
                                    == before[i as int].name);
                                assert(before[p].name != before[i as int].name);
                                assert(external_views(commands@)[j as int].name != after[p].name);
                                assert(external_views(commands@)[k] == after[p]);
                                assert(forall|m: int| k < m < j + 1 ==> external_views(commands@)[m].name != after[p].name);
                            }
                        }
                    }
                },
                None => {
                    out.push(c.clone());
                    proof {
                        let after = external_views(out@);
                        assert(after =~= before.push(external_views(commands@)[j as int]));
                        assert(external_names(after) =~= external_names(before).push(
                            external_views(commands@)[j as int].name,
                        ));
                        assert forall|n: Seq<char>|
                            contains_name(external_names(after), n) == contains_name(
                                external_names(external_views(commands@).take(j + 1)),
                                n,
                            ) by {
                            assert(contains_name(external_names(before), n) == contains_name(
                                external_names(external_views(commands@).take(j as int)),
                                n,
                            ));
                            crate::interfaces::lemma_contains_name_push(
                                external_names(before),
                                external_views(commands@)[j as int].name,
                                n,
                            );
                            crate::interfaces::lemma_contains_name_push(
                                external_names(external_views(commands@).take(j as int)),
                                external_views(commands@)[j as int].name,
                                n,
                            );
                        }
                        assert forall|a: int, b: int| 0 <= a < b < external_names(after).len()
                            implies external_names(after)[a] != external_names(after)[b] by {
                            if b == before.len() as int {
                                assert(external_names(after)[a] == external_names(before)[a]);
                                assert(!contains_name(external_names(before), external_views(commands@)[j as int].name));
                            }
                        }
                        assert forall|p: int| 0 <= p < after.len() implies exists|k: int|
                            0 <= k < j + 1 && #[trigger] external_views(commands@)[k] == #[trigger] after[p] && (forall|m: int|
                                k < m < j + 1 ==> (#[trigger] external_views(commands@)[m]).name != after[p].name) by {
                            if p == before.len() as int {
                                assert(external_views(commands@)[j as int] == after[p]);
                            } else {
                                assert(after[p] == before[p]);
                                let k = choose|k: int|
                                    0 <= k < j && external_views(commands@)[k] == before[p] && (forall|m: int|
                                        k < m < j ==> external_views(commands@)[m].name != before[p].name);
                                assert(external_names(before)[p] == before[p].name);
                                assert(!contains_name(external_names(before), external_views(commands@)[j as int].name));
                                assert(external_views(commands@)[j as int].name != before[p].name);
                                assert(external_views(commands@)[k] == after[p]);
                                assert(forall|m: int| k < m < j + 1 ==> external_views(commands@)[m].name != after[p].name);
                            }
                        }
                    }
                },
            }
            j = j + 1;
        }
        proof {
            assert(external_views(commands@).take(commands@.len() as int) =~= external_views(commands@));
            assert(commands@.len() == external_views(commands@).len());
        }
        out
    }
}

/// Every entry of `out` is the last record of the first `j` entries of
/// `input` that carries its name.
pub open spec fn merged_from(
    out: Seq<DevKitCommandView>,
    input: Seq<DevKitCommandView>,
    j: int,
) -> bool {
    forall|i: int| 0 <= i < out.len() ==> exists|k: int|
        0 <= k < j && #[trigger] input[k] == #[trigger] out[i] && (forall|m: int|
            k < m < j ==> (#[trigger] input[m]).name != out[i].name)
}

/// Exclusion correctness: a path whose relative form holds a whole segment
/// equal to one of the excluded directory names is never a candidate,
/// whatever its nesting depth.
pub proof fn lemma_excluded_segment_never_candidate(
    root: Seq<char>,
    path: Seq<char>,
    tok: Seq<char>,
)
    requires
        tok == "."@ || tok == "node_modules"@ || tok == "target"@,
        has_segment(relative_to(root, path), tok),
    ensures
        !is_candidate_path(root, path),
{
}

/// Exclusion correctness, at the walker: whatever entries the walk of the
/// tree produced, a path with an excluded segment is never among the
/// candidate paths kept from them.
pub proof fn lemma_excluded_segment_never_yielded(
    root: Seq<char>,
    entries: Seq<WalkEntryView>,
    path: Seq<char>,
    tok: Seq<char>,
)
    requires
        tok == "."@ || tok == "node_modules"@ || tok == "target"@,
        has_segment(relative_to(root, path), tok),
    ensures
        !candidate_paths(root, entries).contains(path),
{
    let pred = candidate_pred(root);
    let filtered = entries.filter(pred);
    if candidate_paths(root, entries).contains(path) {
        let i = choose|i: int|
            0 <= i < candidate_paths(root, entries).len() && candidate_paths(root, entries)[i]
                == path;
        assert(candidate_paths(root, entries)[i] == filtered[i].path);
        filtered.lemma_filter_pred(pred, i);
        assert(is_candidate_entry(root, filtered[i]));
        lemma_excluded_segment_never_candidate(root, path, tok);
        assert(false);
    }
}

/// Shorthand for name uniqueness over external-command views.
pub open spec fn unique_names_of(s: Seq<DevKitCommandView>) -> bool {
    crate::interfaces::unique_names(external_names(s))
}

} // verus!
