//! The devkit orchestrator: resolves one invocation against the built-in,
//! project-level and external command collections, in that order.

use vstd::prelude::*;
use crate::dispatch::{resolve_builtin_or_root, resolve_external, Dispatch, ExternalDispatch,
    parse_argv, ParsedInvocation};
use crate::interfaces::{external_views, parsed_names, parsed_views, DevKitCommand, DevKitConfig};
use crate::internal_commands::help::{keyed_lines, Help};
use crate::internal_commands::internal_registry::{internal_names, InternalCommand,
    InternalRegistry};
use crate::text::views_of;
use crate::validations::{universe_valid, CommandCollision, CommandValidations};

verus! {

/// One invocation of the tool: the repository root and the parsed project
/// configuration.
pub struct DevKit {
    pub root: String,
    pub configuration: DevKitConfig,
}

impl DevKit {
    pub fn new(root: String, configuration: DevKitConfig) -> (r: DevKit)
        ensures
            r.root == root,
            r.configuration == configuration,
    {
        DevKit { root, configuration }
    }

    /// Splits the argument vector into the command name and its arguments;
    /// fewer than two tokens means the full help listing is wanted.
    pub fn parse(&self, argv: &Vec<String>) -> (r: ParsedInvocation)
        ensures
            match r {
                ParsedInvocation::Help => argv@.len() < 2,
                ParsedInvocation::Run { command, args } => argv@.len() >= 2 && command@
                    == argv@[1]@ && args@.len() == argv@.len() - 2 && (forall|k: int|
                    0 <= k < args@.len() ==> #[trigger] args@[k]@ == argv@[k + 2]@),
            },
    {
        parse_argv(argv)
    }

    /// Routes the command name against built-ins first, project commands
    /// second; anything else needs the external registry.
    pub fn route(
        &self,
        command: &String,
        args: &Vec<String>,
        internals: &Vec<InternalCommand>,
    ) -> (r: Dispatch)
        ensures
            resolve_builtin_or_root(
                crate::interfaces::parsed_views(self.configuration.commands@),
                crate::internal_commands::internal_registry::internal_names(internals@),
                command@,
                crate::text::views_of(args@),
                r,
            ),
    {
        crate::dispatch::route(&self.configuration.commands, internals, command, args)
    }

    /// Routes the command name against the external registry, the last
    /// collection consulted.
    pub fn route_external(
        &self,
        command: &String,
        args: &Vec<String>,
        externals: &Vec<DevKitCommand>,
    ) -> (r: ExternalDispatch)
        ensures
            resolve_external(
                crate::interfaces::external_views(externals@),
                command@,
                crate::text::views_of(args@),
                r,
            ),
    {
        crate::dispatch::route_external(command, args, externals)
    }

    /// Builds and validates both registries: the built-ins checked against
    /// the project commands, the externals checked for duplicates and
    /// against the project commands, and the two registries cross-checked.
    /// Succeeds exactly when the whole command universe is collision-free.
    pub fn collect_and_validate(&self, parsed: &Vec<DevKitCommand>) -> (r: Result<
        (Vec<InternalCommand>, Vec<DevKitCommand>),
        CommandCollision,
    >)
        ensures
            (r is Ok) == universe_valid(
                parsed_names(parsed_views(self.configuration.commands@)),
                external_views(parsed@),
            ),
            r matches Ok((internals, externals)) ==> internal_names(internals@)
                == InternalRegistry::registry_names() && external_views(externals@)
                == external_views(parsed@),
    {
        let validator = CommandValidations::from(self);
        proof {
            assert(parsed_views(validator.configuration.commands@)
                == validator.configuration@.commands);
            assert(parsed_views(self.configuration.commands@) == self.configuration@.commands);
        }
        validator.validate_all(parsed)
    }

    /// The diagnostic put before the help listing when no collection owns
    /// the invoked name.
    pub fn command_not_found(&self, command: &str) -> (r: String)
        ensures
            r@ == "I'm not aware of a command named "@ + command@,
    {
        "I'm not aware of a command named ".to_owned().concat(command)
    }

    /// The diagnostic lines shown when the matched external command has no
    /// sub-command of the requested name: the message and the sub-command
    /// listing.
    pub fn subcommand_not_found(&self, command: &DevKitCommand, sub_command: &str) -> (r: Vec<
        String,
    >)
        ensures
            views_of(r@) == seq![
                "The command "@ + sub_command@ + " was not found on "@ + command@.name,
                "Here are the commands that belong to "@ + command@.name,
            ] + keyed_lines(3, command@.commands),
    {
        let mut lines: Vec<String> = Vec::new();
        lines.push(
            "The command ".to_owned().concat(sub_command).concat(" was not found on ").concat(
                command.name.as_str(),
            ),
        );
        lines.push(
            "Here are the commands that belong to ".to_owned().concat(command.name.as_str()),
        );
        let mut subs = Help::print_commands(&command.commands, Some(3));
        let ghost head = views_of(lines@);
        let ghost tail = views_of(subs@);
        lines.append(&mut subs);
        proof {
            assert(views_of(lines@) =~= head + tail);
            assert(views_of(lines@) =~= seq![
                "The command "@ + sub_command@ + " was not found on "@ + command@.name,
                "Here are the commands that belong to "@ + command@.name,
            ] + keyed_lines(3, command@.commands));
        }
        lines
    }

    /// The lines shown when an external command is invoked without a
    /// sub-command: the announcement and the sub-command listing.
    pub fn log_external_command(&self, command: &DevKitCommand) -> (r: Vec<String>)
        ensures
            views_of(r@) == seq!["Listing available commands for "@ + command@.name]
                + keyed_lines(3, command@.commands),
    {
        let mut lines: Vec<String> = Vec::new();
        lines.push(
            "Listing available commands for ".to_owned().concat(command.name.as_str()),
        );
        let mut subs = Help::print_commands(&command.commands, Some(3));
        let ghost head = views_of(lines@);
        let ghost tail = views_of(subs@);
        lines.append(&mut subs);
        proof {
            assert(views_of(lines@) =~= head + tail);
            assert(views_of(lines@) =~= seq!["Listing available commands for "@ + command@.name]
                + keyed_lines(3, command@.commands));
        }
        lines
    }
}

} // verus!
