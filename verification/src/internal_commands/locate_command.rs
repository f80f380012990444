//! The `locate-command` built-in: reports where a command is declared.

use vstd::prelude::*;
use crate::executables::{InternalExecutable, InternalExecutableDefinition,
    InternalExecutableDefinitionView};
use crate::interfaces::{contains_name, external_names, external_views, find_external,
    parsed_names, parsed_views, DevKitCommand, DevKitConfig};

verus! {

/// Where the located command turned out to live, or why it could not be
/// located.
pub enum LocateOutcome {
    /// No command name was supplied.
    MissingName,
    /// Declared in a scanned source file at this location.
    External { location: String },
    /// Declared in the project configuration file at this location.
    Root { location: String },
    /// No collection declares the name.
    NotFound { name: String },
}

/// Locates command definitions.
pub struct LocateCommand {
    pub root: String,
    pub configuration: DevKitConfig,
    pub definition: InternalExecutableDefinition,
}

impl LocateCommand {
    pub fn new(root: String, configuration: DevKitConfig) -> (r: LocateCommand)
        ensures
            r.root == root,
            r.configuration == configuration,
            r.definition@.name == "locate-command"@,
            r.definition@.description == "Locates command definitions"@,
            r.definition@.args.len() == 1,
            r.definition@.args[0].flag == "<name>"@,
            r.definition@.args[0].description == "The name of a registered command"@,
    {
        let mut args: Vec<crate::executables::ArgDoc> = Vec::new();
        args.push(crate::executables::ArgDoc {
            flag: "<name>".to_owned(),
            description: "The name of a registered command".to_owned(),
        });
        let r = LocateCommand {
            root,
            configuration,
            definition: InternalExecutableDefinition {
                name: "locate-command".to_owned(),
                description: "Locates command definitions".to_owned(),
                args,
            },
        };
        r
    }

    /// The path the project configuration file is reported at.
    pub fn root_config_location(&self) -> (r: String)
        ensures
            r@ == self.root@ + "/devkit.ts"@,
    {
        self.root.clone().concat("/devkit.ts")
    }

    /// Resolves the queried name against the scanned commands first, then
    /// the project configuration.
    pub fn run(&self, args: &Vec<String>, externals: &Vec<DevKitCommand>) -> (r: LocateOutcome)
        ensures
            args@.len() == 0 ==> (r is MissingName),
            match r {
                LocateOutcome::MissingName => args@.len() == 0,
                LocateOutcome::External { location } => args@.len() > 0 && exists|i: int|
                    0 <= i < externals@.len() && externals@[i]@.name == args@[0]@
                        && location@ == externals@[i]@.location
                        && (forall|k: int| 0 <= k < i ==> externals@[k]@.name != args@[0]@),
                LocateOutcome::Root { location } => args@.len() > 0
                    && !contains_name(external_names(external_views(externals@)), args@[0]@)
                    && contains_name(
                    parsed_names(parsed_views(self.configuration.commands@)),
                    args@[0]@,
                ) && location@ == self.root@ + "/devkit.ts"@,
                LocateOutcome::NotFound { name } => args@.len() > 0 && name@ == args@[0]@
                    && !contains_name(external_names(external_views(externals@)), args@[0]@)
                    && !contains_name(
                    parsed_names(parsed_views(self.configuration.commands@)),
                    args@[0]@,
                ),
            },
    {
        if args.len() == 0 {
            return LocateOutcome::MissingName;
        }
        let name = &args[0];
        match find_external(externals, name.as_str()) {
            Some(i) => {
                return LocateOutcome::External { location: externals[i].location.clone() };
            },
            None => {},
        }
        match crate::interfaces::find_parsed(&self.configuration.commands, name.as_str()) {
            Some(i) => {
                proof {
                    let cmds = self.configuration.commands@;
                    assert(parsed_names(parsed_views(cmds))[i as int] == cmds[i as int]@.name);
                }
                LocateOutcome::Root { location: self.root_config_location() }
            },
            None => LocateOutcome::NotFound { name: name.clone() },
        }
    }
}

impl InternalExecutable for LocateCommand {
    open spec fn definition_view(&self) -> InternalExecutableDefinitionView {
        self.definition@
    }

    fn get_definition(&self) -> (d: &InternalExecutableDefinition) {
        &self.definition
    }
}

} // verus!
