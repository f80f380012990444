//! The `upgrade-devkit` built-in: detects which node package manager the
//! repository uses and upgrades the tool through it.

use vstd::prelude::*;
use crate::executables::{InternalExecutable, InternalExecutableDefinition,
    InternalExecutableDefinitionView};
use crate::interfaces::DevKitConfig;
use crate::internal_filesystem::{joined_path, join_path, normalize, normalized_of};

verus! {

/// One node package manager the tool knows how to drive: the lock file that
/// betrays it and the install command it is driven with.
pub struct PackageManager {
    pub name: String,
    pub lock_file: String,
    pub install_prefix: String,
}

/// The package managers the tool probes for, in probe order.
pub fn package_managers() -> (r: Vec<PackageManager>)
    ensures
        r@.len() == 4,
        r@[0].name@ == "npm"@ && r@[0].lock_file@ == "package-lock.json"@
            && r@[0].install_prefix@ == "npm i -D"@,
        r@[1].name@ == "yarn"@ && r@[1].lock_file@ == "yarn.lock"@
            && r@[1].install_prefix@ == "yarn add -D"@,
        r@[2].name@ == "pnpm"@ && r@[2].lock_file@ == "pnpm-lock.yaml"@
            && r@[2].install_prefix@ == "pnpm i -D"@,
        r@[3].name@ == "bun"@ && r@[3].lock_file@ == "bun.lockb"@
            && r@[3].install_prefix@ == "bun add -d"@,
{
    let mut r: Vec<PackageManager> = Vec::new();
    r.push(PackageManager {
        name: "npm".to_owned(),
        lock_file: "package-lock.json".to_owned(),
        install_prefix: "npm i -D".to_owned(),
    });
    r.push(PackageManager {
        name: "yarn".to_owned(),
        lock_file: "yarn.lock".to_owned(),
        install_prefix: "yarn add -D".to_owned(),
    });
    r.push(PackageManager {
        name: "pnpm".to_owned(),
        lock_file: "pnpm-lock.yaml".to_owned(),
        install_prefix: "pnpm i -D".to_owned(),
    });
    r.push(PackageManager {
        name: "bun".to_owned(),
        lock_file: "bun.lockb".to_owned(),
        install_prefix: "bun add -d".to_owned(),
    });
    r
}

/// Position of the first package manager whose lock file is present, given
/// one presence flag per entry of [`package_managers`].
pub fn select_manager(present: &Vec<bool>) -> (r: Option<usize>)
    ensures
        match r {
            Some(i) => i < present@.len() && present@[i as int]
                && (forall|k: int| 0 <= k < i ==> !present@[k]),
            None => forall|k: int| 0 <= k < present@.len() ==> !present@[k],
        },
{
    let mut i: usize = 0;
    while i < present.len()
        invariant
            0 <= i <= present@.len(),
            forall|k: int| 0 <= k < i ==> !present@[k],
        decreases present@.len() - i,
    {
        if present[i] {
            return Some(i);
        }
        i = i + 1;
    }
    None
}

/// Upgrades the tool installation to the latest stable version.
pub struct UpgradeDevKit {
    pub root: String,
    pub configuration: DevKitConfig,
    pub definition: InternalExecutableDefinition,
}

impl UpgradeDevKit {
    pub fn new(root: String, configuration: DevKitConfig) -> (r: UpgradeDevKit)
        ensures
            r.root == root,
            r.configuration == configuration,
            r.definition@.name == "upgrade-devkit"@,
            r.definition@.description
                == "Upgrades your installation of devkit to the latest stable version"@,
            r.definition@.args.len() == 0,
    {
        let r = UpgradeDevKit {
            root,
            configuration,
            definition: InternalExecutableDefinition {
                name: "upgrade-devkit".to_owned(),
                description:
                    "Upgrades your installation of devkit to the latest stable version".to_owned(),
                args: Vec::new(),
            },
        };
        proof {
            assert(r.definition@.args =~= Seq::<crate::executables::ArgDocView>::empty());
        }
        r
    }

    /// Where a lock file of the given name would sit under the root.
    pub fn lock_path(&self, lock_file: &str) -> (r: String)
        ensures
            r@ == normalized_of(joined_path(self.root@, lock_file@)),
    {
        let joined = join_path(self.root.as_str(), lock_file);
        normalize(joined.as_str())
    }

    /// The shell line that performs the upgrade through the chosen manager.
    pub fn upgrade_line(install_prefix: &str) -> (r: String)
        ensures
            r@ == install_prefix@ + " @devkit/cli@latest"@,
    {
        install_prefix.to_owned().concat(" @devkit/cli@latest")
    }
}

impl InternalExecutable for UpgradeDevKit {
    open spec fn definition_view(&self) -> InternalExecutableDefinitionView {
        self.definition@
    }

    fn get_definition(&self) -> (d: &InternalExecutableDefinition) {
        &self.definition
    }
}

} // verus!
