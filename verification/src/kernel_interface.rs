//! What the daemon reports of its kernel module, and the commands that load and unload it.
use crate::config::KernelConfig;
use vstd::prelude::*;
use vstd::string::StringExecFns;

verus! {

/// The state of the kernel module as it is reported.
#[derive(Clone, Debug, PartialEq, Eq)]
pub struct KernelStatus {
    pub loaded: bool,
    pub version: String,
    pub features: Vec<String>,
}

/// The version that is reported: that of the module if it is loaded.
pub open spec fn version_of(loaded: bool) -> Seq<char> {
    if loaded {
        "2.0.0"@
    } else {
        "unloaded"@
    }
}

/// The features that are reported: copy-on-write and snapshots, in this order, each if
/// it is switched on.
pub open spec fn features_of(kernel: KernelConfig) -> Seq<Seq<char>> {
    let cow = if kernel.cow_enabled {
        seq!["cow"@]
    } else {
        Seq::empty()
    };
    if kernel.snapshot_enabled {
        cow.push("snapshots"@)
    } else {
        cow
    }
}

impl KernelStatus {
    /// The status of a module that is or is not loaded, under the given configuration.
    pub fn report(loaded: bool, kernel: &KernelConfig) -> (status: KernelStatus)
        ensures
            status.loaded == loaded,
            status.version@ == version_of(loaded),
            crate::config::texts(status.features@) == features_of(*kernel),
    {
        let version = if loaded {
            "2.0.0".to_owned()
        } else {
            "unloaded".to_owned()
        };
        let mut features: Vec<String> = Vec::new();
        if kernel.cow_enabled {
            features.push("cow".to_owned());
        }
        if kernel.snapshot_enabled {
            features.push("snapshots".to_owned());
        }
        assert(crate::config::texts(features@) =~= features_of(*kernel));
        KernelStatus { loaded, version, features }
    }
}

/// The shell command that loads the module from the given file.
pub fn load_command(module_file: &str) -> (command: String)
    ensures
        command@ == "insmod "@ + module_file@,
{
    "insmod ".to_owned().concat(module_file)
}

/// The shell command that unloads the module.
pub fn unload_command() -> (command: String)
    ensures
        command@ == "rmmod corestate"@,
{
    "rmmod corestate".to_owned()
}

} // verus!
