use wasm_central::watcher::{is_side_file, is_wasm_file, side_files, DirectoryWatcher};

fn listing(names: &[&str]) -> Vec<String> {
    names.iter().map(|n| n.to_string()).collect()
}

#[test]
fn scan_finds_wasm_files_with_default_deploy() {
    let watcher = DirectoryWatcher::new("modules".to_string());
    let entries = watcher.run(&listing(&["echo.wasm", "notes.txt", "sum.wasm"]));
    assert_eq!(entries.len(), 2);
    assert_eq!(entries[0].path, "echo.wasm");
    assert_eq!(entries[0].next_status, "deploy");
    assert_eq!(entries[1].path, "sum.wasm");
    assert_eq!(entries[1].next_status, "deploy");
}

#[test]
fn undeploy_beats_deploy() {
    // the intent-precedence half of the deploy-and-undeploy scenario
    let watcher = DirectoryWatcher::new("modules".to_string());
    let entries = watcher.run(&listing(&["f.wasm", "f.deploy", "f.undeploy"]));
    assert_eq!(entries.len(), 1);
    assert_eq!(entries[0].path, "f.wasm");
    assert_eq!(entries[0].next_status, "undeploy");
}

#[test]
fn redeploy_beats_everything() {
    let watcher = DirectoryWatcher::new("modules".to_string());
    let entries = watcher.run(&listing(&[
        "f.wasm",
        "f.deploy",
        "f.running",
        "f.undeployed",
        "f.undeploy",
        "f.redeploy",
    ]));
    assert_eq!(entries.len(), 1);
    assert_eq!(entries[0].next_status, "redeploy");
}

#[test]
fn side_files_are_per_module() {
    let watcher = DirectoryWatcher::new("modules".to_string());
    let entries = watcher.run(&listing(&["a.wasm", "b.wasm", "b.undeploy"]));
    assert_eq!(entries.len(), 2);
    assert_eq!(entries[0].path, "a.wasm");
    assert_eq!(entries[0].next_status, "deploy");
    assert_eq!(entries[1].path, "b.wasm");
    assert_eq!(entries[1].next_status, "undeploy");
}

#[test]
fn all_side_files_are_listed_for_deletion() {
    // the side-file-consumption half: everything the scan must delete
    let files = listing(&["f.wasm", "f.deploy", "f.undeploy", "g.redeploy", "notes.txt"]);
    let stale = side_files(&files);
    assert_eq!(stale, listing(&["f.deploy", "f.undeploy", "g.redeploy"]));
}

#[test]
fn file_name_classification() {
    assert!(is_wasm_file("echo.wasm"));
    assert!(!is_wasm_file(".wasm"));
    assert!(!is_wasm_file("echo.wasm.part"));
    assert!(!is_wasm_file("echo.txt"));
    assert!(is_side_file("echo.deploy"));
    assert!(is_side_file("echo.undeploy"));
    assert!(is_side_file("echo.running"));
    assert!(is_side_file("echo.undeployed"));
    assert!(is_side_file("echo.redeploy"));
    assert!(!is_side_file("echo.wasm"));
    assert!(!is_side_file("deploy"));
}
