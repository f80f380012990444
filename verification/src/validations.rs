//! Validation of the merged command universe: building the external
//! registry with duplicate detection, and the pairwise collision checks
//! between built-ins, project commands and external commands.

use vstd::prelude::*;
use vstd::seq_lib::group_to_multiset_ensures;
use crate::devkit::DevKit;
use crate::external_commands::ExternalCommands;
use crate::interfaces::{contains_name, external_names, external_views, find_external,
    find_parsed, parsed_names, parsed_views, unique_names, DevKitCommand, DevKitCommandView,
    DevKitConfig};
use crate::internal_commands::internal_registry::{internal_names, InternalCommand,
    InternalRegistry};
use crate::text::spaces;

verus! {

/// A name clash between two of the command collections, fatal for the
/// invocation: the first one found is reported and the tool stops.
pub enum CommandCollision {
    /// An external command shadows a built-in.
    WithInternal { name: String, location: String },
    /// A project-configuration command shadows a built-in.
    RootWithInternal { name: String },
    /// An external command shadows a project-configuration command.
    RootWithExternal { name: String, location: String },
    /// Two external declarations share one name.
    DuplicateExternal { name: String, original_location: String, duplicate_location: String },
}

impl CommandCollision {
    /// The diagnostic lines reported for this collision, in print order.
    pub fn report(&self) -> (r: Vec<String>)
        ensures
            match self {
                CommandCollision::WithInternal { name, location } => r@.len() == 4
                    && r@[0]@ == "I encountered a command named "@ + name@
                    + " that conflicts with one of my internals"@
                    && r@[1]@ == "Here's where it's located:"@ && r@[2]@ == location@
                    && r@[3]@ == "Please rename it"@,
                CommandCollision::RootWithInternal { name } => r@.len() == 2
                    && r@[0]@ == "I encountered a command named "@ + name@
                    + " in your devkit.ts file that conflicts with one of my internals"@
                    && r@[1]@ == "Please rename it"@,
                CommandCollision::RootWithExternal { name, location } => r@.len() == 4
                    && r@[0]@ == "I encountered a package command named "@ + name@
                    + " that conflicts with a command in your devkit.ts file"@
                    && r@[1]@ == "Here's where it's located:"@ && r@[2]@ == location@
                    && r@[3]@ == "Please rename one of these"@,
                CommandCollision::DuplicateExternal {
                    name,
                    original_location,
                    duplicate_location,
                } => r@.len() == 5 && r@[0]@ == "I encountered two packages with the name "@
                    + name@ && r@[1]@ == "Here's where they're located:"@ && r@[2]@
                    == crate::internal_commands::help::indent_seq(5) + "1. "@
                    + original_location@ && r@[3]@
                    == crate::internal_commands::help::indent_seq(5) + "2. "@
                    + duplicate_location@ && r@[4]@ == "Please rename one of these"@,
            },
    {
        let mut lines: Vec<String> = Vec::new();
        match self {
            CommandCollision::WithInternal { name, location } => {
                lines.push(
                    "I encountered a command named ".to_owned().concat(name.as_str()).concat(
                        " that conflicts with one of my internals",
                    ),
                );
                lines.push("Here's where it's located:".to_owned());
                lines.push(location.clone());
                lines.push("Please rename it".to_owned());
            },
            CommandCollision::RootWithInternal { name } => {
                lines.push(
                    "I encountered a command named ".to_owned().concat(name.as_str()).concat(
                        " in your devkit.ts file that conflicts with one of my internals",
                    ),
                );
                lines.push("Please rename it".to_owned());
            },
            CommandCollision::RootWithExternal { name, location } => {
                lines.push(
                    "I encountered a package command named ".to_owned().concat(
                        name.as_str(),
                    ).concat(" that conflicts with a command in your devkit.ts file"),
                );
                lines.push("Here's where it's located:".to_owned());
                lines.push(location.clone());
                lines.push("Please rename one of these".to_owned());
            },
            CommandCollision::DuplicateExternal {
                name,
                original_location,
                duplicate_location,
            } => {
                lines.push(
                    "I encountered two packages with the name ".to_owned().concat(name.as_str()),
                );
                lines.push("Here's where they're located:".to_owned());
                let first = spaces(5).concat("1. ").concat(original_location.as_str());
                let second = spaces(5).concat("2. ").concat(duplicate_location.as_str());
                proof {
                    assert(first@.subrange(0, 5) =~= crate::internal_commands::help::indent_seq(5));
                    assert(first@ =~= crate::internal_commands::help::indent_seq(5) + "1. "@
                        + original_location@);
                    assert(second@ =~= crate::internal_commands::help::indent_seq(5) + "2. "@
                        + duplicate_location@);
                }
                lines.push(first);
                lines.push(second);
                lines.push("Please rename one of these".to_owned());
            },
        }
        lines
    }
}

/// The earlier part of the scan already holds a record named as entry `j`.
pub open spec fn dup_at(iv: Seq<DevKitCommandView>, j: int) -> bool {
    exists|k: int| 0 <= k < j && #[trigger] iv[k].name == iv[j].name
}

/// Entry `j` shadows a project-configuration command.
pub open spec fn root_conflict_at(cfg: Seq<Seq<char>>, iv: Seq<DevKitCommandView>, j: int) -> bool {
    contains_name(cfg, iv[j].name)
}

/// Entry `j` is the point where the external scan fails.
pub open spec fn external_conflict_at(
    cfg: Seq<Seq<char>>,
    iv: Seq<DevKitCommandView>,
    j: int,
) -> bool {
    dup_at(iv, j) || root_conflict_at(cfg, iv, j)
}

/// The whole command universe is free of collisions: no project command
/// shadows a built-in, no external name repeats or shadows a project
/// command, and no external command shadows a built-in.
pub open spec fn universe_valid(cfg: Seq<Seq<char>>, iv: Seq<DevKitCommandView>) -> bool {
    &&& forall|k: int|
        0 <= k < InternalRegistry::registry_names().len() ==> !contains_name(
            cfg,
            #[trigger] InternalRegistry::registry_names()[k],
        )
    &&& forall|j: int| 0 <= j < iv.len() ==> !external_conflict_at(cfg, iv, j)
    &&& forall|j: int|
        0 <= j < iv.len() ==> !contains_name(
            InternalRegistry::registry_names(),
            (#[trigger] iv[j]).name,
        )
}


/// A registry as a name-keyed map: each contained name maps to the record
/// carrying it.
pub open spec fn registry_map(s: Seq<DevKitCommandView>) -> Map<Seq<char>, DevKitCommandView> {
    Map::new(
        |n: Seq<char>| contains_name(external_names(s), n),
        |n: Seq<char>|
            {
                let i = choose|i: int| 0 <= i < s.len() && s[i].name == n;
                s[i]
            },
    )
}

/// Idempotent discovery: two registries that hold the same records, however
/// ordered, are identical as name-keyed maps.  Running discovery twice over
/// an unchanged tree parses the same records, so the maps agree.
pub proof fn lemma_discovery_idempotent(a: Seq<DevKitCommandView>, b: Seq<DevKitCommandView>)
    requires
        unique_names(external_names(a)),
        unique_names(external_names(b)),
        a.to_multiset() == b.to_multiset(),
    ensures
        registry_map(a) == registry_map(b),
{
    broadcast use group_to_multiset_ensures;

    assert forall|n: Seq<char>|
        contains_name(external_names(a), n) implies contains_name(external_names(b), n) by {
        let i = choose|i: int| 0 <= i < external_names(a).len() && external_names(a)[i] == n;
        assert(external_names(a)[i] == a[i].name);
        assert(a.contains(a[i]) <==> a.to_multiset().count(a[i]) > 0);
        assert(b.contains(a[i]) <==> b.to_multiset().count(a[i]) > 0);
        assert(a.contains(a[i]));
        assert(b.contains(a[i]));
        let j = choose|j: int| 0 <= j < b.len() && b[j] == a[i];
        assert(external_names(b)[j] == n);
    }
    assert forall|n: Seq<char>|
        contains_name(external_names(b), n) implies contains_name(external_names(a), n) by {
        let i = choose|i: int| 0 <= i < external_names(b).len() && external_names(b)[i] == n;
        assert(external_names(b)[i] == b[i].name);
        assert(b.contains(b[i]) <==> b.to_multiset().count(b[i]) > 0);
        assert(a.contains(b[i]) <==> a.to_multiset().count(b[i]) > 0);
        assert(b.contains(b[i]));
        assert(a.contains(b[i]));
        let j = choose|j: int| 0 <= j < a.len() && a[j] == b[i];
        assert(external_names(a)[j] == n);
    }
    assert forall|n: Seq<char>|
        contains_name(external_names(a), n) implies registry_map(a)[n] == registry_map(b)[n] by {
        let ia = choose|i: int| 0 <= i < a.len() && a[i].name == n;
        let ib = choose|i: int| 0 <= i < b.len() && b[i].name == n;
        assert(external_names(a)[ia] == a[ia].name);
        assert(a.contains(a[ia]) <==> a.to_multiset().count(a[ia]) > 0);
        assert(b.contains(a[ia]) <==> b.to_multiset().count(a[ia]) > 0);
        assert(a.contains(a[ia]));
        assert(b.contains(a[ia]));
        let j = choose|j: int| 0 <= j < b.len() && b[j] == a[ia];
        assert(external_names(b)[j] == n);
        assert(external_names(b)[ib] == n);
        if j != ib {
            assert(external_names(b)[j] == external_names(b)[ib]);
            assert(false);
        }
        assert(registry_map(a)[n] == a[ia]);
        assert(registry_map(b)[n] == b[ib]);
    }
    assert(registry_map(a) =~= registry_map(b));
}

/// The two name collections share some name.
pub open spec fn names_intersect(a: Seq<Seq<char>>, b: Seq<Seq<char>>) -> bool {
    exists|n: Seq<char>| #[trigger] contains_name(a, n) && contains_name(b, n)
}

/// Collision symmetry: which collection is scanned first does not decide
/// whether the scan can fail; the two orientations agree.
pub proof fn lemma_collision_symmetry(a: Seq<Seq<char>>, b: Seq<Seq<char>>)
    ensures
        names_intersect(a, b) == names_intersect(b, a),
{
    if names_intersect(a, b) {
        let n = choose|n: Seq<char>| #[trigger] contains_name(a, n) && contains_name(b, n);
        assert(contains_name(b, n) && contains_name(a, n));
    }
    if names_intersect(b, a) {
        let n = choose|n: Seq<char>| #[trigger] contains_name(b, n) && contains_name(a, n);
        assert(contains_name(a, n) && contains_name(b, n));
    }
}

/// Collision symmetry, at the scan: over duplicate-free records, the scan
/// finds a conflict exactly when the configuration names and the scanned
/// names intersect -- a property of the two sets alone, independent of the
/// order either collection is visited in.
pub proof fn lemma_scan_outcome_set_determined(cfg: Seq<Seq<char>>, iv: Seq<DevKitCommandView>)
    requires
        unique_names(external_names(iv)),
    ensures
        (exists|j: int|
            0 <= j < iv.len() && #[trigger] external_conflict_at(cfg, iv, j)) == names_intersect(
            cfg,
            external_names(iv),
        ),
{
    assert forall|j: int| 0 <= j < iv.len() implies !dup_at(iv, j) by {
        if dup_at(iv, j) {
            let k = choose|k: int| 0 <= k < j && #[trigger] iv[k].name == iv[j].name;
            assert(external_names(iv)[k] == iv[k].name);
            assert(external_names(iv)[j] == iv[j].name);
            assert(false);
        }
    }
    if exists|j: int| 0 <= j < iv.len() && #[trigger] external_conflict_at(cfg, iv, j) {
        let j = choose|j: int| 0 <= j < iv.len() && #[trigger] external_conflict_at(cfg, iv, j);
        assert(contains_name(cfg, iv[j].name));
        assert(external_names(iv)[j] == iv[j].name);
        assert(contains_name(external_names(iv), iv[j].name));
        assert(names_intersect(cfg, external_names(iv)));
    }
    if names_intersect(cfg, external_names(iv)) {
        let n = choose|n: Seq<char>| #[trigger] contains_name(cfg, n) && contains_name(
            external_names(iv),
            n,
        );
        let j = choose|j: int|
            0 <= j < external_names(iv).len() && external_names(iv)[j] == n;
        assert(external_names(iv)[j] == iv[j].name);
        assert(root_conflict_at(cfg, iv, j));
        assert(external_conflict_at(cfg, iv, j));
    }
}

/// Dispatch resolution order: a name carried by both a built-in and a
/// project command always invalidates the command universe, so validation
/// fails before the dispatcher's routing step is ever consulted; the
/// configuration is rejected, never silently resolved.
pub proof fn lemma_builtin_root_collision_rejected(
    cfg: Seq<Seq<char>>,
    iv: Seq<DevKitCommandView>,
    n: Seq<char>,
)
    requires
        contains_name(InternalRegistry::registry_names(), n),
        contains_name(cfg, n),
    ensures
        !universe_valid(cfg, iv),
{
    let k = choose|k: int|
        0 <= k < InternalRegistry::registry_names().len() && InternalRegistry::registry_names()[k]
            == n;
    assert(contains_name(cfg, InternalRegistry::registry_names()[k]));
}

/// Runs all command validations for one invocation.
pub struct CommandValidations {
    pub root: String,
    pub configuration: DevKitConfig,
}

impl CommandValidations {
    pub fn new(root: String, configuration: DevKitConfig) -> (r: CommandValidations)
        ensures
            r.root == root,
            r.configuration == configuration,
    {
        CommandValidations { root, configuration }
    }

    pub fn from(kit: &DevKit) -> (r: CommandValidations)
        ensures
            r.root@ == kit.root@,
            r.configuration@ == kit.configuration@,
    {
        CommandValidations { root: kit.root.clone(), configuration: kit.configuration.clone() }
    }

    /// Builds the built-in registry and refuses to proceed when a project
    /// command shadows one of its names.
    pub fn collect_and_validate_internals(&self) -> (r: Result<
        Vec<InternalCommand>,
        CommandCollision,
    >)
        ensures
            match r {
                Ok(v) => internal_names(v@) == crate::internal_commands::internal_registry::InternalRegistry::registry_names()
                    && (forall|k: int|
                    0 <= k < internal_names(v@).len() ==> !contains_name(
                        parsed_names(parsed_views(self.configuration.commands@)),
                        #[trigger] internal_names(v@)[k],
                    )),
                Err(c) => exists|i: int|
                    0 <= i < InternalRegistry::registry_names().len() && contains_name(
                        parsed_names(parsed_views(self.configuration.commands@)),
                        #[trigger] InternalRegistry::registry_names()[i],
                    ) && (c matches CommandCollision::RootWithInternal { name }
                        && name@ == InternalRegistry::registry_names()[i]) && (forall|m: int|
                        0 <= m < i ==> !contains_name(
                            parsed_names(parsed_views(self.configuration.commands@)),
                            #[trigger] InternalRegistry::registry_names()[m],
                        )),
            },
    {
        let internals = InternalRegistry::new(self.root.clone(), self.configuration.clone())
            .get_all();
        match ExternalCommands::detect_collisions_between_internals_and_root_commands(
            &internals,
            &self.configuration.commands,
        ) {
            Some(c) => Err(c),
            None => Ok(internals),
        }
    }

    /// Builds the external registry from the parsed records, refusing to
    /// proceed at the first duplicate name or project-command shadowing.
    pub fn collect_and_validate_externals(&self, externals: &Vec<DevKitCommand>) -> (r: Result<
        Vec<DevKitCommand>,
        CommandCollision,
    >)
        ensures
            match r {
                Ok(v) => external_views(v@) == external_views(externals@) && (forall|j: int|
                    0 <= j < external_views(externals@).len() ==> !external_conflict_at(
                        parsed_names(parsed_views(self.configuration.commands@)),
                        external_views(externals@),
                        j,
                    )) && unique_names(external_names(external_views(v@))),
                Err(c) => exists|j: int|
                    #![trigger external_conflict_at(
                        parsed_names(parsed_views(self.configuration.commands@)),
                        external_views(externals@),
                        j,
                    )]
                    {
                        let cfg = parsed_names(parsed_views(self.configuration.commands@));
                        let iv = external_views(externals@);
                        &&& 0 <= j < iv.len()
                        &&& external_conflict_at(cfg, iv, j)
                        &&& forall|k: int| 0 <= k < j ==> !external_conflict_at(cfg, iv, k)
                        &&& if dup_at(iv, j) {
                            &&& c matches CommandCollision::DuplicateExternal {
                                name,
                                original_location,
                                duplicate_location,
                            }
                            &&& name@ == iv[j].name
                            &&& duplicate_location@ == iv[j].location
                            &&& exists|k: int|
                                0 <= k < j && #[trigger] iv[k].name == iv[j].name
                                    && original_location@ == iv[k].location
                        } else {
                            &&& c matches CommandCollision::RootWithExternal { name, location }
                            &&& name@ == iv[j].name
                            &&& location@ == iv[j].location
                        }
                    },
            },
    {
        let ghost cfg = parsed_names(parsed_views(self.configuration.commands@));
        let ghost iv = external_views(externals@);
        let mut out: Vec<DevKitCommand> = Vec::new();
        let mut j: usize = 0;
        proof {
            assert(iv.take(0) =~= Seq::<DevKitCommandView>::empty());
        }
        while j < externals.len()
            invariant
                0 <= j <= externals@.len(),
                cfg == parsed_names(parsed_views(self.configuration.commands@)),
                iv == external_views(externals@),
                external_views(out@) == iv.take(j as int),
                forall|k: int| 0 <= k < j ==> !external_conflict_at(cfg, iv, k),
            decreases externals@.len() - j,
        {
            let c = &externals[j];
            proof {
                assert(iv[j as int] == externals@[j as int]@);
            }
            match find_external(&out, c.name.as_str()) {
                Some(i) => {
                    proof {
                        assert(external_views(out@).len() == out@.len());
                        assert(i < j);
                        assert(iv.take(j as int)[i as int] == iv[i as int]);
                        assert(external_views(out@)[i as int] == iv[i as int]);
                        assert(out@[i as int]@ == iv[i as int]);
                        assert(iv[i as int].name == iv[j as int].name);
                        assert(dup_at(iv, j as int));
                        assert(external_conflict_at(cfg, iv, j as int));
                        assert(forall|k: int| 0 <= k < j ==> !external_conflict_at(cfg, iv, k));
                        assert(out@[i as int]@.location == iv[i as int].location);
                    }
                    return Err(CommandCollision::DuplicateExternal {
                        name: c.name.clone(),
                        original_location: out[i].location.clone(),
                        duplicate_location: c.location.clone(),
                    });
                },
                None => {},
            }
            proof {
                assert(external_views(out@).len() == out@.len());
                assert forall|k: int| 0 <= k < j implies iv[k].name != iv[j as int].name by {
                    assert(iv.take(j as int)[k] == iv[k]);
                    assert(external_views(out@)[k] == iv[k]);
                    assert(external_names(external_views(out@))[k] == iv[k].name);
                    assert(out@[k]@.name == iv[k].name);
                }
                assert(!dup_at(iv, j as int));
            }
            match find_parsed(&self.configuration.commands, c.name.as_str()) {
                Some(i) => {
                    proof {
                        let cmds = self.configuration.commands@;
                        assert(parsed_names(parsed_views(cmds))[i as int] == cmds[i as int]@.name);
                        assert(root_conflict_at(cfg, iv, j as int));
                        assert(external_conflict_at(cfg, iv, j as int));
                        assert(forall|k: int| 0 <= k < j ==> !external_conflict_at(cfg, iv, k));
                    }
                    return Err(CommandCollision::RootWithExternal {
                        name: c.name.clone(),
                        location: c.location.clone(),
                    });
                },
                None => {
                    proof {
                        let cmds = self.configuration.commands@;
                        assert(!contains_name(parsed_names(parsed_views(cmds)), iv[j as int].name));
                        assert(!root_conflict_at(cfg, iv, j as int));
                    }
                },
            }
            let ghost before = external_views(out@);
            out.push(c.clone());
            proof {
                assert(external_views(out@) =~= before.push(iv[j as int]));
                assert(external_views(out@) =~= iv.take(j + 1));
            }
            j = j + 1;
        }
        proof {
            assert(iv.take(externals@.len() as int) =~= iv);
            assert forall|a: int, b: int|
                0 <= a < b < external_names(external_views(out@)).len()
                implies external_names(external_views(out@))[a] != external_names(
                external_views(out@),
            )[b] by {
                assert(external_names(external_views(out@))[a] == iv[a].name);
                assert(external_names(external_views(out@))[b] == iv[b].name);
                assert(!external_conflict_at(cfg, iv, b));
                assert(!dup_at(iv, b));
            }
        }
        Ok(out)
    }

    /// Builds and validates both registries for one invocation: the
    /// built-ins checked against the project commands, the externals checked
    /// for duplicates and against the project commands, and the two
    /// registries cross-checked.  Succeeds exactly when the whole command
    /// universe is collision-free.
    pub fn validate_all(&self, parsed: &Vec<DevKitCommand>) -> (r: Result<
        (Vec<InternalCommand>, Vec<DevKitCommand>),
        CommandCollision,
    >)
        ensures
            (r is Ok) == universe_valid(
                parsed_names(parsed_views(self.configuration.commands@)),
                external_views(parsed@),
            ),
            r matches Ok((internals, externals)) ==> internal_names(internals@)
                == InternalRegistry::registry_names() && external_views(externals@)
                == external_views(parsed@),
    {
        let ghost cfg = parsed_names(parsed_views(self.configuration.commands@));
        let ghost iv = external_views(parsed@);
        let internals = match self.collect_and_validate_internals() {
            Ok(v) => v,
            Err(c) => {
                proof {
                    let i = choose|i: int|
                        0 <= i < InternalRegistry::registry_names().len()
                            && contains_name(
                            parsed_names(parsed_views(self.configuration.commands@)),
                            #[trigger] InternalRegistry::registry_names()[i],
                        );
                    assert(contains_name(
                        cfg,
                        InternalRegistry::registry_names()[i],
                    ));
                    assert(!universe_valid(cfg, iv));
                }
                return Err(c);
            },
        };
        let externals = match self.collect_and_validate_externals(parsed) {
            Ok(v) => v,
            Err(c) => {
                proof {
                    let j = choose|j: int|
                        #![trigger external_conflict_at(
                            parsed_names(parsed_views(self.configuration.commands@)),
                            external_views(parsed@),
                            j,
                        )]
                        0 <= j < external_views(parsed@).len()
                            && external_conflict_at(
                            parsed_names(parsed_views(self.configuration.commands@)),
                            external_views(parsed@),
                            j,
                        );
                    assert(external_conflict_at(cfg, iv, j));
                    assert(!universe_valid(cfg, iv));
                }
                return Err(c);
            },
        };
        proof {
            assert forall|k: int| 0 <= k < InternalRegistry::registry_names().len()
                implies !contains_name(
                cfg,
                #[trigger] InternalRegistry::registry_names()[k],
            ) by {
                assert(InternalRegistry::registry_names()[k] == internal_names(internals@)[k]);
            }
            assert forall|j: int| 0 <= j < iv.len()
                implies !external_conflict_at(cfg, iv, j) by {
                assert(external_conflict_at(
                    parsed_names(parsed_views(self.configuration.commands@)),
                    external_views(parsed@),
                    j,
                ) == external_conflict_at(cfg, iv, j));
            }
        }
        match CommandValidations::detect_collisions_between_internals_and_externals(
            &internals,
            &externals,
        ) {
            Some(c) => {
                proof {
                    let i = choose|i: int|
                        0 <= i < externals@.len() && contains_name(
                            internal_names(internals@),
                            #[trigger] externals@[i]@.name,
                        );
                    assert(external_views(externals@)[i] == externals@[i]@);
                    assert(iv[i] == externals@[i]@);
                    assert(contains_name(
                        InternalRegistry::registry_names(),
                        iv[i].name,
                    ));
                    assert(!universe_valid(cfg, iv));
                }
                Err(c)
            },
            None => {
                proof {
                    assert(external_views(externals@) == external_views(parsed@));
                    assert forall|j: int| 0 <= j < iv.len()
                        implies !contains_name(
                        InternalRegistry::registry_names(),
                        (#[trigger] iv[j]).name,
                    ) by {
                        assert(iv[j] == external_views(externals@)[j]);
                        assert(external_views(externals@)[j] == externals@[j]@);
                        assert(!contains_name(
                            internal_names(internals@),
                            externals@[j]@.name,
                        ));
                    }
                    assert(universe_valid(cfg, iv));
                }
                Ok((internals, externals))
            },
        }
    }

    /// The cross-check between the built-in registry and the external one.
    pub fn detect_collisions_between_internals_and_externals(
        internals: &Vec<InternalCommand>,
        externals: &Vec<DevKitCommand>,
    ) -> (r: Option<CommandCollision>)
        ensures
            match r {
                Some(c) => exists|i: int|
                    0 <= i < externals@.len() && contains_name(
                        internal_names(internals@),
                        #[trigger] externals@[i]@.name,
                    ) && (c matches CommandCollision::WithInternal { name, location }
                        && name@ == externals@[i]@.name && location@ == externals@[i]@.location)
                        && (forall|k: int|
                        0 <= k < i ==> !contains_name(
                            internal_names(internals@),
                            #[trigger] externals@[k]@.name,
                        )),
                None => forall|i: int|
                    0 <= i < externals@.len() ==> !contains_name(
                        internal_names(internals@),
                        #[trigger] externals@[i]@.name,
                    ),
            },
    {
        ExternalCommands::detect_collisions_between_internals_and_externals(internals, externals)
    }

    /// Diagnostic lines for an external command shadowing a project
    /// command.
    pub fn on_external_root_collision(command: &DevKitCommand) -> (r: Vec<String>)
        ensures
            r@.len() == 4,
            r@[0]@ == "I encountered a package command named "@ + command.name@
                + " that conflicts with a command in your devkit.ts file"@,
            r@[1]@ == "Here's where it's located:"@,
            r@[2]@ == command.location@,
            r@[3]@ == "Please rename one of these"@,
    {
        let collision = CommandCollision::RootWithExternal {
            name: command.name.clone(),
            location: command.location.clone(),
        };
        collision.report()
    }

    /// Diagnostic lines for two external declarations sharing one name:
    /// the header naming the command, then both locations as the numbered
    /// items, then the closing instruction.
    pub fn on_external_duplicate_collision(command: &DevKitCommand, collision_path: &str) -> (r:
        Vec<String>)
        ensures
            r@.len() == 5,
            r@[0]@ == "I encountered two packages with the name "@ + command.name@,
            r@[1]@ == "Here's where they're located:"@,
            r@[2]@ == crate::internal_commands::help::indent_seq(5) + "1. "@ + collision_path@,
            r@[3]@ == crate::internal_commands::help::indent_seq(5) + "2. "@ + command.location@,
            r@[4]@ == "Please rename one of these"@,
    {
        let collision = CommandCollision::DuplicateExternal {
            name: command.name.clone(),
            original_location: collision_path.to_owned(),
            duplicate_location: command.location.clone(),
        };
        collision.report()
    }
}

} // verus!
