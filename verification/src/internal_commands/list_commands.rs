//! The `list-commands` built-in: lists commands by the scope they are
//! defined in, or by owner.

use vstd::prelude::*;
use crate::executables::{ArgDoc, InternalExecutable, InternalExecutableDefinition,
    InternalExecutableDefinitionView};
use crate::interfaces::{external_views, DevKitCommand, DevKitCommandView, DevKitConfig};
use crate::text::{contains_seq, join_strings, join_with, lower_of, lowercase, str_contains,
    views_of};

verus! {

/// The scope a `list-commands` invocation asks about.
pub enum ListScope {
    /// No scope argument was supplied.
    Invalid,
    /// The tool's built-in commands.
    Internal,
    /// Commands of the project configuration file.
    Root,
    /// Commands discovered in the repository tree.
    Registered,
    /// Any other query: match it against command owners.
    Owner,
}

/// Lists commands based on their scope of definition.
pub struct ListCommands {
    pub root: String,
    pub configuration: DevKitConfig,
    pub definition: InternalExecutableDefinition,
}

/// The filter a free-form owner query applies to a discovered command: the
/// folded query occurs in the command's folded owner tag.
pub open spec fn owner_match(q: Seq<char>) -> spec_fn(DevKitCommandView) -> bool {
    |c: DevKitCommandView| contains_seq(lower_of(c.owner), q)
}

impl ListCommands {
    pub fn new(root: String, configuration: DevKitConfig) -> (r: ListCommands)
        ensures
            r.root == root,
            r.configuration == configuration,
            r.definition@.name == "list-commands"@,
            r.definition@.description == "List commands based on their scope of definition"@,
            r.definition@.args.len() == 1,
            r.definition@.args[0].flag == "<scope>"@,
            r.definition@.args[0].description
                == "The scope of the commands you wish to list. Specify one of internal | registered | root | <owner>"@,
    {
        let mut args: Vec<ArgDoc> = Vec::new();
        args.push(ArgDoc {
            flag: "<scope>".to_owned(),
            description:
                "The scope of the commands you wish to list. Specify one of internal | registered | root | <owner>".to_owned(),
        });
        ListCommands {
            root,
            configuration,
            definition: InternalExecutableDefinition {
                name: "list-commands".to_owned(),
                description: "List commands based on their scope of definition".to_owned(),
                args,
            },
        }
    }

    /// The diagnostic shown when no scope argument was supplied.
    pub fn exit_on_invalid_scope(&self) -> (r: String)
        ensures
            r@
                == "Please specify a scope to list the commands of. Select one of internal | registered | root | <owner>"@,
    {
        "Please specify a scope to list the commands of. Select one of internal | registered | root | <owner>".to_owned()
    }

    /// Which scope the first argument selects, after case folding.
    pub fn resolve_scope(&self, args: &Vec<String>) -> (r: ListScope)
        ensures
            match r {
                ListScope::Invalid => args@.len() == 0,
                ListScope::Internal => args@.len() > 0 && lower_of(args@[0]@) == "internal"@,
                ListScope::Root => args@.len() > 0 && lower_of(args@[0]@) != "internal"@
                    && lower_of(args@[0]@) == "root"@,
                ListScope::Registered => args@.len() > 0 && lower_of(args@[0]@) != "internal"@
                    && lower_of(args@[0]@) != "root"@ && lower_of(args@[0]@) == "registered"@,
                ListScope::Owner => args@.len() > 0 && lower_of(args@[0]@) != "internal"@
                    && lower_of(args@[0]@) != "root"@ && lower_of(args@[0]@) != "registered"@,
            },
    {
        if args.len() == 0 {
            return ListScope::Invalid;
        }
        let folded = lowercase(args[0].as_str());
        if crate::text::eq_str(folded.as_str(), "internal") {
            return ListScope::Internal;
        }
        if crate::text::eq_str(folded.as_str(), "root") {
            return ListScope::Root;
        }
        if crate::text::eq_str(folded.as_str(), "registered") {
            return ListScope::Registered;
        }
        ListScope::Owner
    }

    /// The full query an owner search matches against: all arguments joined
    /// with spaces.
    pub fn full_query(&self, args: &Vec<String>) -> (r: String)
        ensures
            r@ == join_with(views_of(args@), " "@),
    {
        join_strings(args, " ")
    }

    /// The discovered commands whose folded owner tag contains the folded
    /// query, in discovery order.
    pub fn filter_by_owner(&self, registered: &Vec<DevKitCommand>, query: &str) -> (r: Vec<
        DevKitCommand,
    >)
        ensures
            external_views(r@) == external_views(registered@).filter(
                owner_match(lower_of(query@)),
            ),
    {
        let folded_query = lowercase(query);
        let mut out: Vec<DevKitCommand> = Vec::new();
        let ghost evs = external_views(registered@);
        let ghost pred = owner_match(lower_of(query@));
        let mut j: usize = 0;
        proof {
            assert(evs.take(0) =~= Seq::<DevKitCommandView>::empty());
            reveal_with_fuel(Seq::<_>::filter, 2);
        }
        while j < registered.len()
            invariant
                0 <= j <= registered@.len(),
                evs == external_views(registered@),
                pred == owner_match(lower_of(query@)),
                folded_query@ == lower_of(query@),
                external_views(out@) == evs.take(j as int).filter(pred),
            decreases registered@.len() - j,
        {
            let folded_owner = lowercase(registered[j].owner.as_str());
            let ghost before = out@;
            if str_contains(folded_owner.as_str(), folded_query.as_str()) {
                out.push(registered[j].clone());
            }
            proof {
                reveal_with_fuel(Seq::<_>::filter, 2);
                assert(evs.take(j + 1).drop_last() =~= evs.take(j as int));
                assert(evs.take(j + 1).last() == evs[j as int]);
                assert(evs[j as int] == registered@[j as int]@);
                if pred(evs[j as int]) {
                    assert(external_views(out@) =~= external_views(before).push(
                        registered@[j as int]@,
                    ));
                    assert(external_views(out@) =~= evs.take(j + 1).filter(pred));
                } else {
                    assert(external_views(out@) =~= evs.take(j + 1).filter(pred));
                }
            }
            j = j + 1;
        }
        proof {
            assert(evs.take(registered@.len() as int) =~= evs);
        }
        out
    }
}

impl InternalExecutable for ListCommands {
    open spec fn definition_view(&self) -> InternalExecutableDefinitionView {
        self.definition@
    }

    fn get_definition(&self) -> (d: &InternalExecutableDefinition) {
        &self.definition
    }
}

} // verus!
