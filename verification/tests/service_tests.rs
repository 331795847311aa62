use wasm_central::service::{LoadedModule, MyModules};
use wasm_central::watcher::DirectoryWatcher;

#[test]
fn a_new_service_is_idle_and_empty() {
    let service = MyModules::new("modules".to_string());
    assert_eq!(service.hot_folder_path, "modules");
    assert!(service.loaded_modules.is_empty());
    assert!(!service.is_running);
}

#[test]
fn loaded_modules_carry_their_processes() {
    let mut service = MyModules::new("modules".to_string());
    service.loaded_modules.push(LoadedModule {
        name: "echo".to_string(),
        path: "modules/echo.wasm".to_string(),
        status: "deployed".to_string(),
        processes: vec![4711],
    });
    assert_eq!(service.loaded_modules.len(), 1);
    assert_eq!(service.loaded_modules[0].processes, vec![4711]);
}

#[test]
fn a_watcher_remembers_its_directory() {
    let watcher = DirectoryWatcher::new("modules".to_string());
    assert_eq!(watcher.dir, "modules");
}
