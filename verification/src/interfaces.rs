//! The data model: project-level commands, discovered external commands and
//! the parsed configuration, together with name-keyed lookup over them.
//!
//! Each record type has a mathematical view built from `Seq<char>` names and
//! scripts; every contract in the crate speaks over these views.  A
//! collection of commands is a vector of records; a registry is such a
//! vector whose names are pairwise distinct.

use vstd::prelude::*;
use crate::text::eq_str;

verus! {

/// A runnable script together with its description, as found under one name
/// in the project configuration or in an external command's sub-command map.
pub struct Command {
    pub command: String,
    pub description: String,
}

/// Mathematical image of a [`Command`].
pub ghost struct CommandView {
    pub command: Seq<char>,
    pub description: Seq<char>,
}

/// A named entry of the project configuration's command map.
pub struct ParsedCommand {
    pub name: String,
    pub command: String,
    pub description: String,
}

/// Mathematical image of a [`ParsedCommand`].
pub ghost struct ParsedCommandView {
    pub name: Seq<char>,
    pub command: Seq<char>,
    pub description: Seq<char>,
}

/// The project-level configuration.
pub struct DevKitConfig {
    pub project: String,
    pub workspaces: Vec<String>,
    pub commands: Vec<ParsedCommand>,
}

/// Mathematical image of a [`DevKitConfig`].
pub ghost struct DevKitConfigView {
    pub project: Seq<char>,
    pub workspaces: Seq<Seq<char>>,
    pub commands: Seq<ParsedCommandView>,
}

/// A command declared in a source file somewhere under the repository root.
pub struct DevKitCommand {
    pub name: String,
    pub location: String,
    pub description: String,
    pub owner: String,
    pub commands: Vec<ParsedCommand>,
}

/// Mathematical image of a [`DevKitCommand`].
pub ghost struct DevKitCommandView {
    pub name: Seq<char>,
    pub location: Seq<char>,
    pub description: Seq<char>,
    pub owner: Seq<char>,
    pub commands: Seq<ParsedCommandView>,
}

impl View for Command {
    type V = CommandView;

    open spec fn view(&self) -> CommandView {
        CommandView { command: self.command@, description: self.description@ }
    }
}

impl View for ParsedCommand {
    type V = ParsedCommandView;

    open spec fn view(&self) -> ParsedCommandView {
        ParsedCommandView {
            name: self.name@,
            command: self.command@,
            description: self.description@,
        }
    }
}

/// The views of a sequence of project-command entries, in order.
pub open spec fn parsed_views(s: Seq<ParsedCommand>) -> Seq<ParsedCommandView> {
    s.map_values(|c: ParsedCommand| c@)
}

/// The views of a sequence of external commands, in order.
pub open spec fn external_views(s: Seq<DevKitCommand>) -> Seq<DevKitCommandView> {
    s.map_values(|c: DevKitCommand| c@)
}

impl View for DevKitConfig {
    type V = DevKitConfigView;

    open spec fn view(&self) -> DevKitConfigView {
        DevKitConfigView {
            project: self.project@,
            workspaces: self.workspaces@.map_values(|w: String| w@),
            commands: parsed_views(self.commands@),
        }
    }
}

impl View for DevKitCommand {
    type V = DevKitCommandView;

    open spec fn view(&self) -> DevKitCommandView {
        DevKitCommandView {
            name: self.name@,
            location: self.location@,
            description: self.description@,
            owner: self.owner@,
            commands: parsed_views(self.commands@),
        }
    }
}

impl Clone for Command {
    fn clone(&self) -> (r: Self)
        ensures
            r@ == self@,
    {
        Command { command: self.command.clone(), description: self.description.clone() }
    }
}

impl Clone for ParsedCommand {
    fn clone(&self) -> (r: Self)
        ensures
            r@ == self@,
    {
        ParsedCommand {
            name: self.name.clone(),
            command: self.command.clone(),
            description: self.description.clone(),
        }
    }
}

impl Clone for DevKitConfig {
    fn clone(&self) -> (r: Self)
        ensures
            r@ == self@,
    {
        let r = DevKitConfig {
            project: self.project.clone(),
            workspaces: self.workspaces.clone(),
            commands: self.commands.clone(),
        };
        proof {
            assert(r@.workspaces =~= self@.workspaces);
            assert(r@.commands =~= self@.commands);
        }
        r
    }
}

impl Clone for DevKitCommand {
    fn clone(&self) -> (r: Self)
        ensures
            r@ == self@,
    {
        let r = DevKitCommand {
            name: self.name.clone(),
            location: self.location.clone(),
            description: self.description.clone(),
            owner: self.owner.clone(),
            commands: self.commands.clone(),
        };
        proof {
            assert(r@.commands =~= self@.commands);
        }
        r
    }
}

impl ParsedCommand {
    /// Pairs a map key with the script it names.
    pub fn from(name: &str, command: &Command) -> (r: ParsedCommand)
        ensures
            r@.name == name@,
            r@.command == command@.command,
            r@.description == command@.description,
    {
        ParsedCommand {
            name: name.to_owned(),
            command: command.command.clone(),
            description: command.description.clone(),
        }
    }
}

/// The names of a sequence of project-command views, in order.
pub open spec fn parsed_names(s: Seq<ParsedCommandView>) -> Seq<Seq<char>> {
    s.map_values(|c: ParsedCommandView| c.name)
}

/// The names of a sequence of external-command views, in order.
pub open spec fn external_names(s: Seq<DevKitCommandView>) -> Seq<Seq<char>> {
    s.map_values(|c: DevKitCommandView| c.name)
}

/// Some entry of `names` equals `n`.
pub open spec fn contains_name(names: Seq<Seq<char>>, n: Seq<char>) -> bool {
    exists|i: int| 0 <= i < names.len() && names[i] == n
}

/// Appending one name extends what a name sequence contains by exactly that
/// name.
pub proof fn lemma_contains_name_push(names: Seq<Seq<char>>, x: Seq<char>, n: Seq<char>)
    ensures
        contains_name(names.push(x), n) <==> (contains_name(names, n) || n == x),
{
    if contains_name(names.push(x), n) {
        let i = choose|i: int| 0 <= i < names.push(x).len() && names.push(x)[i] == n;
        if i < names.len() {
            assert(names[i] == n);
        } else {
            assert(names.push(x)[i] == x);
        }
    }
    if contains_name(names, n) {
        let i = choose|i: int| 0 <= i < names.len() && names[i] == n;
        assert(names.push(x)[i] == n);
    }
    if n == x {
        assert(names.push(x)[names.len() as int] == n);
    }
}

/// No two entries of `names` are equal.
pub open spec fn unique_names(names: Seq<Seq<char>>) -> bool {
    forall|i: int, j: int| 0 <= i < j < names.len() ==> names[i] != names[j]
}

/// Position of the first project-command entry named `name`, if any.
pub fn find_parsed(cmds: &Vec<ParsedCommand>, name: &str) -> (r: Option<usize>)
    ensures
        match r {
            Some(i) => i < cmds@.len() && cmds@[i as int]@.name == name@
                && (forall|k: int| 0 <= k < i ==> cmds@[k]@.name != name@),
            None => !contains_name(parsed_names(parsed_views(cmds@)), name@),
        },
{
    let mut i: usize = 0;
    while i < cmds.len()
        invariant
            0 <= i <= cmds@.len(),
            forall|k: int| 0 <= k < i ==> cmds@[k]@.name != name@,
        decreases cmds@.len() - i,
    {
        if eq_str(cmds[i].name.as_str(), name) {
            return Some(i);
        }
        i = i + 1;
    }
    proof {
        assert(forall|k: int| 0 <= k < cmds@.len()
            ==> parsed_names(parsed_views(cmds@))[k] == cmds@[k]@.name);
    }
    None
}

/// Position of the first external command named `name`, if any.
pub fn find_external(cmds: &Vec<DevKitCommand>, name: &str) -> (r: Option<usize>)
    ensures
        match r {
            Some(i) => i < cmds@.len() && cmds@[i as int]@.name == name@
                && (forall|k: int| 0 <= k < i ==> cmds@[k]@.name != name@),
            None => !contains_name(external_names(external_views(cmds@)), name@),
        },
{
    let mut i: usize = 0;
    while i < cmds.len()
        invariant
            0 <= i <= cmds@.len(),
            forall|k: int| 0 <= k < i ==> cmds@[k]@.name != name@,
        decreases cmds@.len() - i,
    {
        if eq_str(cmds[i].name.as_str(), name) {
            return Some(i);
        }
        i = i + 1;
    }
    proof {
        assert(forall|k: int| 0 <= k < cmds@.len()
            ==> external_names(external_views(cmds@))[k] == cmds@[k]@.name);
    }
    None
}

} // verus!
