//! The `upgrade` built-in: the repokit flavour of the installation upgrade.

use vstd::prelude::*;
use crate::executables::{InternalExecutable, InternalExecutableDefinition,
    InternalExecutableDefinitionView};
use crate::interfaces::DevKitConfig;
use crate::internal_filesystem::{joined_path, join_path, normalize, normalized_of};

verus! {

/// Upgrades the tool installation to the latest stable version.
pub struct UpgradeRepoKit {
    pub root: String,
    pub configuration: DevKitConfig,
    pub definition: InternalExecutableDefinition,
}

impl UpgradeRepoKit {
    pub fn new(root: String, configuration: DevKitConfig) -> (r: UpgradeRepoKit)
        ensures
            r.root == root,
            r.configuration == configuration,
            r.definition@.name == "upgrade"@,
            r.definition@.description
                == "Upgrades your installation of repokit to the latest stable version"@,
            r.definition@.args.len() == 0,
    {
        let r = UpgradeRepoKit {
            root,
            configuration,
            definition: InternalExecutableDefinition {
                name: "upgrade".to_owned(),
                description:
                    "Upgrades your installation of repokit to the latest stable version".to_owned(),
                args: Vec::new(),
            },
        };
        proof {
            assert(r.definition@.args =~= Seq::<crate::executables::ArgDocView>::empty());
        }
        r
    }

    /// Where a lock file of the given name would sit under the root.
    pub fn lock_path(&self, lock_file: &str) -> (r: String)
        ensures
            r@ == normalized_of(joined_path(self.root@, lock_file@)),
    {
        let joined = join_path(self.root.as_str(), lock_file);
        normalize(joined.as_str())
    }

    /// The shell line that performs the upgrade through the chosen manager.
    pub fn upgrade_line(install_prefix: &str) -> (r: String)
        ensures
            r@ == install_prefix@ + " @repokit/core@latest"@,
    {
        install_prefix.to_owned().concat(" @repokit/core@latest")
    }
}

impl InternalExecutable for UpgradeRepoKit {
    open spec fn definition_view(&self) -> InternalExecutableDefinitionView {
        self.definition@
    }

    fn get_definition(&self) -> (d: &InternalExecutableDefinition) {
        &self.definition
    }
}

} // verus!
