//! The `onboard` built-in: first-time-user instructions.

use vstd::prelude::*;
use crate::executables::{InternalExecutable, InternalExecutableDefinition,
    InternalExecutableDefinitionView};
use crate::interfaces::DevKitConfig;

verus! {

/// Prints onboarding instructions for first time users.
pub struct Onboarder {
    pub root: String,
    pub configuration: DevKitConfig,
    pub definition: InternalExecutableDefinition,
}

impl Onboarder {
    pub fn new(root: String, configuration: DevKitConfig) -> (r: Onboarder)
        ensures
            r.root == root,
            r.configuration == configuration,
            r.definition@.name == "onboard"@,
            r.definition@.description == "Onboarding instructions for first time users"@,
            r.definition@.args.len() == 0,
    {
        let r = Onboarder {
            root,
            configuration,
            definition: InternalExecutableDefinition {
                name: "onboard".to_owned(),
                description: "Onboarding instructions for first time users".to_owned(),
                args: Vec::new(),
            },
        };
        proof {
            assert(r.definition@.args =~= Seq::<crate::executables::ArgDocView>::empty());
        }
        r
    }

    /// The onboarding text, one entry per line printed.
    pub fn run(&self) -> (r: Vec<String>)
        ensures
            r@.len() == 8,
            r@[0]@ == "Welcome to Devkit"@,
            r@[1]@
                == "Devkit is a tool designed to self-document and publish developer facing workflows in a single CLI"@,
            r@[2]@
                == "As you develop new features in your codebase, you can publish commands, API's, and tools to the Devkit CLI by running"@,
            r@[3]@ == "devkit register-command ./path/to/your-feature"@,
            r@[4]@
                == "This command creates a tooling definition for your feature in a file collocated to your code"@,
            r@[5]@
                == "The Devkit CLI will automatically detect these files and add them to its toolchain"@,
            r@[6]@
                == "As your codebase grows, your Devkit CLI will continue to track all of the published workflows created by your team"@,
            r@[7]@ == "It's your living source of knowledge and documentation"@,
    {
        let mut lines: Vec<String> = Vec::new();
        lines.push("Welcome to Devkit".to_owned());
        lines.push(
            "Devkit is a tool designed to self-document and publish developer facing workflows in a single CLI".to_owned(),
        );
        lines.push(
            "As you develop new features in your codebase, you can publish commands, API's, and tools to the Devkit CLI by running".to_owned(),
        );
        lines.push("devkit register-command ./path/to/your-feature".to_owned());
        lines.push(
            "This command creates a tooling definition for your feature in a file collocated to your code".to_owned(),
        );
        lines.push(
            "The Devkit CLI will automatically detect these files and add them to its toolchain".to_owned(),
        );
        lines.push(
            "As your codebase grows, your Devkit CLI will continue to track all of the published workflows created by your team".to_owned(),
        );
        lines.push("It's your living source of knowledge and documentation".to_owned());
        lines
    }
}

impl InternalExecutable for Onboarder {
    open spec fn definition_view(&self) -> InternalExecutableDefinitionView {
        self.definition@
    }

    fn get_definition(&self) -> (d: &InternalExecutableDefinition) {
        &self.definition
    }
}

} // verus!
