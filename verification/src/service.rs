//! The daemon's service-side bookkeeping types.

use vstd::prelude::*;

verus! {

/// One module as the service reports it: name, path, a status label, and
/// the child processes running it.
#[derive(Debug)]
pub struct LoadedModule {
    pub name: String,
    pub path: String,
    pub status: String,
    pub processes: Vec<i32>,
}

/// The service state behind the remote interface: the watched directory
/// and the modules reported as loaded.
pub struct MyModules {
    pub hot_folder_path: String,
    pub loaded_modules: Vec<LoadedModule>,
    pub is_running: bool,
}

impl MyModules {
    /// A service over the directory at `path`, not yet running, with no
    /// modules loaded.
    pub fn new(path: String) -> (r: MyModules)
        ensures
            r.hot_folder_path@ == path@,
            r.loaded_modules@.len() == 0,
            !r.is_running,
    {
        MyModules { hot_folder_path: path, loaded_modules: Vec::new(), is_running: false }
    }
}

} // verus!
