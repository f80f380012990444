//! The `register-command` built-in: scaffolds a new command declaration
//! file at a chosen spot in the repository.

use vstd::prelude::*;
use crate::executables::{ArgDoc, InternalExecutable, InternalExecutableDefinition,
    InternalExecutableDefinitionView};
use crate::interfaces::DevKitConfig;
use crate::internal_filesystem::{joined_path, join_path, normalize, normalized_of};

verus! {

/// Creates new Devkit commands.
pub struct RegisterCommand {
    pub root: String,
    pub configuration: DevKitConfig,
    pub definition: InternalExecutableDefinition,
}

impl RegisterCommand {
    pub fn new(root: String, configuration: DevKitConfig) -> (r: RegisterCommand)
        ensures
            r.root == root,
            r.configuration == configuration,
            r.definition@.name == "register-command"@,
            r.definition@.description == "Creates new Devkit commands"@,
            r.definition@.args.len() == 1,
            r.definition@.args[0].flag == "--path | -p"@,
            r.definition@.args[0].description
                == "A relative path to your preferred command location"@,
    {
        let mut args: Vec<ArgDoc> = Vec::new();
        args.push(ArgDoc {
            flag: "--path | -p".to_owned(),
            description: "A relative path to your preferred command location".to_owned(),
        });
        RegisterCommand {
            root,
            configuration,
            definition: InternalExecutableDefinition {
                name: "register-command".to_owned(),
                description: "Creates new Devkit commands".to_owned(),
                args,
            },
        }
    }

    /// The diagnostic shown when the `--path` argument is missing or does
    /// not name a directory.
    pub fn exit_on_missing_path() -> (r: String)
        ensures
            r@
                == "Please specify a path to a directory relative to the root of your repository using the --path | -p argument"@,
    {
        "Please specify a path to a directory relative to the root of your repository using the --path | -p argument".to_owned()
    }

    /// Where the command declaration template lives inside the tool's own
    /// sources.
    pub fn template_path() -> (r: String)
        ensures
            r@ == "src/internal_commands/command_template.ts"@,
    {
        "src/internal_commands/command_template.ts".to_owned()
    }

    /// The directory the new declaration file is placed in: the requested
    /// path anchored below the repository root, in normalized form.
    pub fn target_directory(&self, path_arg: &str) -> (r: String)
        ensures
            r@ == normalized_of(joined_path(self.root@, path_arg@)),
    {
        let joined = join_path(self.root.as_str(), path_arg);
        normalize(joined.as_str())
    }

    /// The declaration file inside the target directory.
    pub fn command_file_path(directory: &str) -> (r: String)
        ensures
            r@ == joined_path(directory@, "Commands.ts"@),
    {
        join_path(directory, "Commands.ts")
    }

    /// The notice shown before a missing target directory is created.
    pub fn creating_path_message(path_arg: &str) -> (r: String)
        ensures
            r@ == "Creating the path "@ + path_arg@ + " in your file system"@,
    {
        "Creating the path ".to_owned().concat(path_arg).concat(" in your file system")
    }

    /// The diagnostics shown when a declaration file already exists at the
    /// target.
    pub fn already_exists_messages() -> (r: (String, String))
        ensures
            r.0@ == "A Commands.ts file already exists in this directory"@,
            r.1@
                == "You can append additional commands to the existing DevKitCommand instance or export another one"@,
    {
        (
            "A Commands.ts file already exists in this directory".to_owned(),
            "You can append additional commands to the existing DevKitCommand instance or export another one".to_owned(),
        )
    }
}

impl InternalExecutable for RegisterCommand {
    open spec fn definition_view(&self) -> InternalExecutableDefinitionView {
        self.definition@
    }

    fn get_definition(&self) -> (d: &InternalExecutableDefinition) {
        &self.definition
    }
}

} // verus!
