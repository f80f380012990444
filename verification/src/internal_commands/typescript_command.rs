//! The bridge towards the external interpreter: building the command lines
//! that invoke its two parser scripts.  Running the subprocess and decoding
//! its output happen outside the library.

use vstd::prelude::*;
use crate::internal_filesystem::{joined_path, join_path, normalize, normalized_of};
use crate::text::{join_strings, join_with, views_of};

verus! {

/// Builds the interpreter invocations for one repository root.
pub struct TypescriptCommand {
    pub root: String,
}

impl TypescriptCommand {
    pub fn new(root: String) -> (r: TypescriptCommand)
        ensures
            r.root == root,
    {
        TypescriptCommand { root }
    }

    /// The directory holding the interpreter's parser scripts, anchored at
    /// the repository root next to this crate's own sources.
    pub fn commands_dir(&self) -> (r: String)
        ensures
            r@ == normalized_of(
                joined_path(
                    joined_path(self.root@, "src/internal_commands"@),
                    "../../src/commands"@,
                ),
            ),
    {
        let below = join_path(self.root.as_str(), "src/internal_commands");
        let resolved = join_path(below.as_str(), "../../src/commands");
        normalize(resolved.as_str())
    }

    /// Full path of the parser script named `command_file`.
    pub fn path_to_command(&self, command_file: &str) -> (r: String)
        ensures
            r@ == joined_path(
                normalized_of(
                    joined_path(
                        joined_path(self.root@, "src/internal_commands"@),
                        "../../src/commands"@,
                    ),
                ),
                command_file@,
            ),
    {
        let dir = self.commands_dir();
        join_path(dir.as_str(), command_file)
    }

    /// The shell line that asks the interpreter for the project
    /// configuration.
    pub fn parse_configuration_invocation(&self) -> (r: String)
        ensures
            r@ == "npx tsx "@ + joined_path(
                normalized_of(
                    joined_path(
                        joined_path(self.root@, "src/internal_commands"@),
                        "../../src/commands"@,
                    ),
                ),
                "parse_configuration.ts"@,
            ) + " --root "@ + self.root@,
    {
        let executable = self.path_to_command("parse_configuration.ts");
        "npx tsx ".to_owned().concat(executable.as_str()).concat(" --root ").concat(
            self.root.as_str(),
        )
    }

    /// The shell line that asks the interpreter to parse the candidate
    /// files, handed over as a comma-joined path list.
    pub fn parse_commands_invocation(&self, path_list: &Vec<String>) -> (r: String)
        ensures
            r@ == "npx tsx "@ + joined_path(
                normalized_of(
                    joined_path(
                        joined_path(self.root@, "src/internal_commands"@),
                        "../../src/commands"@,
                    ),
                ),
                "parse_commands.ts"@,
            ) + " --paths "@ + join_with(views_of(path_list@), ","@) + " --root "@ + self.root@,
    {
        let executable = self.path_to_command("parse_commands.ts");
        let paths = join_strings(path_list, ",");
        "npx tsx ".to_owned().concat(executable.as_str()).concat(" --paths ").concat(
            paths.as_str(),
        ).concat(" --root ").concat(self.root.as_str())
    }
}

} // verus!
