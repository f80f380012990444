//! The closed set of built-in commands the tool ships with.

use vstd::prelude::*;
use crate::executables::{InternalExecutable, InternalExecutableDefinition};
use crate::interfaces::{contains_name, unique_names, DevKitConfig};
use crate::internal_commands::list_commands::ListCommands;
use crate::internal_commands::locate_command::LocateCommand;
use crate::internal_commands::onboarder::Onboarder;
use crate::internal_commands::register_command::RegisterCommand;
use crate::internal_commands::upgrade_devkit::UpgradeDevKit;
use crate::text::eq_str;

verus! {

/// One built-in command, as a closed tagged variant rather than an open
/// trait object: every kind the tool ships is listed here.
pub enum InternalCommand {
    Onboard(Onboarder),
    List(ListCommands),
    Locate(LocateCommand),
    Register(RegisterCommand),
    Upgrade(UpgradeDevKit),
}

impl InternalCommand {
    /// The name this built-in answers to.
    pub open spec fn name_view(&self) -> Seq<char> {
        self.definition_view().name
    }

    /// The definition this built-in publishes.
    pub open spec fn definition_view(&self) -> crate::executables::InternalExecutableDefinitionView {
        match self {
            InternalCommand::Onboard(c) => c.definition@,
            InternalCommand::List(c) => c.definition@,
            InternalCommand::Locate(c) => c.definition@,
            InternalCommand::Register(c) => c.definition@,
            InternalCommand::Upgrade(c) => c.definition@,
        }
    }

    /// Hands out the definition record for help rendering.
    pub fn get_definition(&self) -> (d: &InternalExecutableDefinition)
        ensures
            d@ == self.definition_view(),
    {
        match self {
            InternalCommand::Onboard(c) => c.get_definition(),
            InternalCommand::List(c) => c.get_definition(),
            InternalCommand::Locate(c) => c.get_definition(),
            InternalCommand::Register(c) => c.get_definition(),
            InternalCommand::Upgrade(c) => c.get_definition(),
        }
    }
}

/// The names of a sequence of built-ins, in order.
pub open spec fn internal_names(s: Seq<InternalCommand>) -> Seq<Seq<char>> {
    s.map_values(|c: InternalCommand| c.name_view())
}

/// Position of the first built-in named `name`, if any.
pub fn find_internal(cmds: &Vec<InternalCommand>, name: &str) -> (r: Option<usize>)
    ensures
        match r {
            Some(i) => i < cmds@.len() && cmds@[i as int].name_view() == name@
                && (forall|k: int| 0 <= k < i ==> cmds@[k].name_view() != name@),
            None => !contains_name(internal_names(cmds@), name@),
        },
{
    let mut i: usize = 0;
    while i < cmds.len()
        invariant
            0 <= i <= cmds@.len(),
            forall|k: int| 0 <= k < i ==> cmds@[k].name_view() != name@,
        decreases cmds@.len() - i,
    {
        if eq_str(cmds[i].get_definition().name.as_str(), name) {
            return Some(i);
        }
        i = i + 1;
    }
    proof {
        assert(forall|k: int| 0 <= k < cmds@.len()
            ==> internal_names(cmds@)[k] == cmds@[k].name_view());
    }
    None
}

/// Builds the built-in command set for one invocation.
pub struct InternalRegistry {
    pub root: String,
    pub configuration: DevKitConfig,
}

impl InternalRegistry {
    /// The names of the built-ins the registry constructs, in registry
    /// order.
    pub open spec fn registry_names() -> Seq<Seq<char>> {
        seq![
            "onboard"@,
            "list-commands"@,
            "locate-command"@,
            "register-command"@,
            "upgrade-devkit"@,
        ]
    }

    pub fn new(root: String, configuration: DevKitConfig) -> (r: InternalRegistry)
        ensures
            r.root == root,
            r.configuration == configuration,
    {
        InternalRegistry { root, configuration }
    }

    /// Constructs the five built-ins, fresh for this invocation; their
    /// names are fixed and pairwise distinct.
    pub fn get_all(&self) -> (r: Vec<InternalCommand>)
        ensures
            r@.len() == 5,
            r@[0].name_view() == "onboard"@,
            r@[1].name_view() == "list-commands"@,
            r@[2].name_view() == "locate-command"@,
            r@[3].name_view() == "register-command"@,
            r@[4].name_view() == "upgrade-devkit"@,
            internal_names(r@) == InternalRegistry::registry_names(),
            unique_names(internal_names(r@)),
    {
        let mut r: Vec<InternalCommand> = Vec::new();
        r.push(InternalCommand::Onboard(Onboarder::new(
            self.root.clone(),
            self.configuration.clone(),
        )));
        r.push(InternalCommand::List(ListCommands::new(
            self.root.clone(),
            self.configuration.clone(),
        )));
        r.push(InternalCommand::Locate(LocateCommand::new(
            self.root.clone(),
            self.configuration.clone(),
        )));
        r.push(InternalCommand::Register(RegisterCommand::new(
            self.root.clone(),
            self.configuration.clone(),
        )));
        r.push(InternalCommand::Upgrade(UpgradeDevKit::new(
            self.root.clone(),
            self.configuration.clone(),
        )));
        proof {
            reveal_strlit("onboard");
            reveal_strlit("list-commands");
            reveal_strlit("locate-command");
            reveal_strlit("register-command");
            reveal_strlit("upgrade-devkit");
            assert("onboard"@.len() == 7);
            assert("list-commands"@.len() == 13);
            assert("locate-command"@.len() == 14);
            assert("register-command"@.len() == 16);
            assert("upgrade-devkit"@.len() == 14);
            assert("locate-command"@ != "upgrade-devkit"@) by {
                assert("locate-command"@[0] == 'l');
                assert("upgrade-devkit"@[0] == 'u');
            }
            assert forall|i: int, j: int| 0 <= i < j < internal_names(r@).len()
                implies internal_names(r@)[i] != internal_names(r@)[j] by {
                assert(internal_names(r@)[i] == r@[i].name_view());
                assert(internal_names(r@)[j] == r@[j].name_view());
            }
            assert(internal_names(r@) =~= InternalRegistry::registry_names());
        }
        r
    }
}

} // verus!
