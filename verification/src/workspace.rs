//! The pure decisions of the workspace scaffolding built around the menu:
//! which package-manager binary a choice stands for, which arguments its
//! initialization call takes, and where the new workspace directory goes.
//! Running the external tools, and every other file-system step, stays with
//! the caller.

use vstd::prelude::*;
use vstd::string::StringExecFns;
use vstd::string::StrSliceExecFns;

verus! {

/// The package managers the menu offers.
#[derive(Clone, Copy, Debug, PartialEq, Eq, Structural)]
pub enum NodePackageManager {
    NPM,
    PNPM,
    Yarn,
}

/// The binary name a package-manager choice stands for.
pub open spec fn bin_name(pm: NodePackageManager) -> Seq<char> {
    match pm {
        NodePackageManager::NPM => "npm"@,
        NodePackageManager::PNPM => "pnpm"@,
        NodePackageManager::Yarn => "yarn"@,
    }
}

/// The arguments of the workspace-initialization call for the manager named
/// `bin`: `init`, plus `--yes` for the managers that would otherwise stop
/// and prompt.
pub open spec fn init_args_of(bin: Seq<char>) -> Seq<Seq<char>> {
    if bin == "npm"@ || bin == "yarn"@ {
        seq!["init"@, "--yes"@]
    } else {
        seq!["init"@]
    }
}

/// A path is taken as absolute exactly when it starts with the root
/// separator.
pub fn is_absolute_path(path: &str) -> (r: bool)
    ensures
        r == (path@.len() > 0 && path@[0] == '/'),
{
    if path.unicode_len() > 0 {
        path.get_char(0) == '/'
    } else {
        false
    }
}

/// Where the new workspace goes: the name itself when it is already
/// absolute, otherwise the name under the given working directory, with a
/// single separator in between.
pub fn resolve_workspace_path(workdir: &str, name: &str) -> (r: String)
    ensures
        r@ == (if name@.len() > 0 && name@[0] == '/' {
            name@
        } else {
            workdir@ + "/"@ + name@
        }),
{
    if is_absolute_path(name) {
        name.to_owned()
    } else {
        let mut path = workdir.to_owned();
        path.append("/");
        path.append(name);
        path
    }
}

/// A workspace to scaffold: its directory and the package-manager binary
/// that drives every external step.
pub struct TypescriptWorkspace {
    path: String,
    package_manager_bin: String,
}

impl TypescriptWorkspace {
    /// The workspace directory.
    pub closed spec fn spec_path(self) -> Seq<char> {
        self.path@
    }

    /// The package-manager binary name.
    pub closed spec fn spec_bin(self) -> Seq<char> {
        self.package_manager_bin@
    }

    /// A workspace at `path` driven by the binary that `package_manager`
    /// stands for.
    pub fn new(path: String, package_manager: NodePackageManager) -> (w: Self)
        ensures
            w.spec_path() == path@,
            w.spec_bin() == bin_name(package_manager),
    {
        let package_manager_bin: String = match package_manager {
            NodePackageManager::NPM => "npm".to_owned(),
            NodePackageManager::PNPM => "pnpm".to_owned(),
            NodePackageManager::Yarn => "yarn".to_owned(),
        };
        TypescriptWorkspace { path, package_manager_bin }
    }

    /// The workspace directory, for the caller that runs the tools there.
    pub fn path(&self) -> (r: &String)
        ensures
            r@ == self.spec_path(),
    {
        &self.path
    }

    /// The package-manager binary name, for the caller that invokes it.
    pub fn package_manager_bin(&self) -> (r: &String)
        ensures
            r@ == self.spec_bin(),
    {
        &self.package_manager_bin
    }

    /// The arguments of the workspace-initialization call: exactly
    /// [`init_args_of`] the binary name.
    pub fn init_args(&self) -> (r: Vec<String>)
        ensures
            r@.map_values(|s: String| s@) == init_args_of(self.spec_bin()),
    {
        let mut args: Vec<String> = Vec::new();
        args.push("init".to_owned());
        if self.package_manager_bin.eq(&"npm".to_owned()) || self.package_manager_bin.eq(
            &"yarn".to_owned(),
        ) {
            args.push("--yes".to_owned());
            proof {
                assert(args@.map_values(|s: String| s@) =~= init_args_of(self.spec_bin()));
            }
        } else {
            proof {
                assert(args@.map_values(|s: String| s@) =~= init_args_of(self.spec_bin()));
            }
        }
        args
    }
}

} // verus!
