//! First-run scaffolding decisions: when the configuration file is absent,
//! where its template goes, and what the user is told.

use vstd::prelude::*;

verus! {

/// Decides and describes the first-run scaffolding of the configuration
/// file; copying the template and exiting happen outside the library.
pub struct Configuration;

impl Configuration {
    /// An empty interpreter output means no configuration file exists yet:
    /// the caller must scaffold one and stop, without attempting command
    /// discovery.
    pub fn needs_scaffold(stdout: &str) -> (r: bool)
        ensures
            r == (stdout@.len() == 0),
    {
        stdout.is_empty()
    }

    /// Where the scaffolded configuration file is created.
    pub fn config_path(root: &str) -> (r: String)
        ensures
            r@ == root@ + "/repokit.ts"@,
    {
        root.to_owned().concat("/repokit.ts")
    }

    /// The template the configuration file is scaffolded from, relative to
    /// the tool's installation directory.
    pub fn template_name() -> (r: String)
        ensures
            r@ == "configuration_template.ts"@,
    {
        "configuration_template.ts".to_owned()
    }

    /// The greeting shown before the configuration file is created.
    pub fn welcome() -> (r: Vec<String>)
        ensures
            r@.len() == 2,
            r@[0]@ == "Welcome to Repokit! Let's get you setup"@,
            r@[1]@ == "Creating your configuration file:"@,
    {
        let mut lines: Vec<String> = Vec::new();
        lines.push("Welcome to Repokit! Let's get you setup".to_owned());
        lines.push("Creating your configuration file:".to_owned());
        lines
    }

    /// The onboarding instruction shown after the file is created.
    pub fn instructions() -> (r: String)
        ensures
            r@ == "Please fill out this file with your desired settings. Then run repokit onboard"@,
    {
        "Please fill out this file with your desired settings. Then run repokit onboard".to_owned()
    }
}

} // verus!
