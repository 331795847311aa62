use wasm_central::compiler::{CompileError, Compiler};
use wasm_central::digest::checksum_of;
use wasm_central::manager::{FunctionManager, ObservedFile};
use wasm_central::status::FunctionStatus;

/// A minimal module exporting both `process` and `on_error` (empty bodies).
fn valid_module() -> Vec<u8> {
    vec![
        0x00, 0x61, 0x73, 0x6d, 0x01, 0x00, 0x00, 0x00, // header
        0x01, 0x04, 0x01, 0x60, 0x00, 0x00, // type () -> ()
        0x03, 0x03, 0x02, 0x00, 0x00, // two functions of type 0
        0x07, 0x16, 0x02, // exports: 2 entries
        0x07, b'p', b'r', b'o', b'c', b'e', b's', b's', 0x00, 0x00, //
        0x08, b'o', b'n', b'_', b'e', b'r', b'r', b'o', b'r', 0x00, 0x01, //
        0x0a, 0x07, 0x02, 0x02, 0x00, 0x0b, 0x02, 0x00, 0x0b, // empty bodies
    ]
}

/// Like `valid_module`, but `process` holds a nop: same exports, different
/// bytes, hence a different checksum.
fn valid_module_variant() -> Vec<u8> {
    vec![
        0x00, 0x61, 0x73, 0x6d, 0x01, 0x00, 0x00, 0x00, //
        0x01, 0x04, 0x01, 0x60, 0x00, 0x00, //
        0x03, 0x03, 0x02, 0x00, 0x00, //
        0x07, 0x16, 0x02, //
        0x07, b'p', b'r', b'o', b'c', b'e', b's', b's', 0x00, 0x00, //
        0x08, b'o', b'n', b'_', b'e', b'r', b'r', b'o', b'r', 0x00, 0x01, //
        0x0a, 0x08, 0x02, 0x03, 0x00, 0x01, 0x0b, 0x02, 0x00, 0x0b, // nop body
    ]
}

/// A module exporting only `on_error`: compiles, but `process` is missing.
fn module_without_process() -> Vec<u8> {
    vec![
        0x00, 0x61, 0x73, 0x6d, 0x01, 0x00, 0x00, 0x00, //
        0x01, 0x04, 0x01, 0x60, 0x00, 0x00, //
        0x03, 0x02, 0x01, 0x00, //
        0x07, 0x0c, 0x01, //
        0x08, b'o', b'n', b'_', b'e', b'r', b'r', b'o', b'r', 0x00, 0x00, //
        0x0a, 0x04, 0x01, 0x02, 0x00, 0x0b, //
    ]
}

fn observed(path: &str, word: &str, bytes: Vec<u8>) -> ObservedFile {
    ObservedFile { path: path.to_string(), next_status: word.to_string(), bytes }
}

#[test]
fn deploy_then_handle() {
    // deploy-then-execute, up to the handle the executor receives
    let mut mgr = FunctionManager::new("modules".to_string()).expect("engine");
    let bytes = valid_module();
    let sum = checksum_of(&bytes);
    let report = mgr.tick(&vec![observed("echo.wasm", "deploy", bytes)]);
    assert_eq!(report.compiled.len(), 1);
    assert_eq!(report.compiled[0].name, "echo");
    assert_eq!(report.compiled[0].checksum, sum);

    let running = mgr.running_modules();
    assert_eq!(running.len(), 1);
    assert_eq!(running[0].name, "echo");
    assert_eq!(running[0].checksum, sum);

    let handle = mgr.get_handle(&"echo".to_string()).expect("deployed handle");
    assert_eq!(handle.name, "echo");
    assert_eq!(handle.compilation_unit.checksum, sum);
}

#[test]
fn unchanged_bytes_are_not_recompiled() {
    // at-most-one compile per (name, checksum)
    let mut mgr = FunctionManager::new("modules".to_string()).expect("engine");
    let first = mgr.tick(&vec![observed("echo.wasm", "deploy", valid_module())]);
    assert_eq!(first.compiled.len(), 1);
    let second = mgr.tick(&vec![observed("echo.wasm", "deploy", valid_module())]);
    assert_eq!(second.compiled.len(), 0);
    assert!(mgr.get_handle(&"echo".to_string()).is_some());
}

#[test]
fn file_removal_undeploys() {
    // undeploy via file removal: the next tick sees an empty directory
    let mut mgr = FunctionManager::new("modules".to_string()).expect("engine");
    mgr.tick(&vec![observed("echo.wasm", "deploy", valid_module())]);
    assert_eq!(mgr.running_modules().len(), 1);
    mgr.tick(&vec![]);
    assert_eq!(mgr.running_modules().len(), 0);
    assert!(mgr.get_handle(&"echo".to_string()).is_none());
}

#[test]
fn content_change_redeploys() {
    // redeploy on content change: new bytes, one recompile, new checksum
    let mut mgr = FunctionManager::new("modules".to_string()).expect("engine");
    mgr.tick(&vec![observed("echo.wasm", "deploy", valid_module())]);
    let old_sum = mgr.running_modules()[0].checksum.clone();
    let report = mgr.tick(&vec![observed("echo.wasm", "deploy", valid_module_variant())]);
    assert_eq!(report.compiled.len(), 1);
    let new_sum = mgr.running_modules()[0].checksum.clone();
    assert_ne!(old_sum, new_sum);
    assert_eq!(new_sum, checksum_of(&valid_module_variant()));
}

#[test]
fn redeploy_intent_recompiles_unchanged_bytes() {
    let mut mgr = FunctionManager::new("modules".to_string()).expect("engine");
    mgr.tick(&vec![observed("echo.wasm", "deploy", valid_module())]);
    let report = mgr.tick(&vec![observed("echo.wasm", "redeploy", valid_module())]);
    assert_eq!(report.compiled.len(), 1);
    assert!(mgr.get_handle(&"echo".to_string()).is_some());
}

#[test]
fn missing_process_export_is_rejected() {
    // missing-export: the record exists but is not deployed, with the error
    let mut mgr = FunctionManager::new("modules".to_string()).expect("engine");
    let report = mgr.tick(&vec![observed("bad.wasm", "deploy", module_without_process())]);
    assert_eq!(report.compiled.len(), 1);
    assert_eq!(mgr.running_modules().len(), 0);
    assert!(mgr.get_handle(&"bad".to_string()).is_none());
    assert_eq!(mgr.records.len(), 1);
    match &mgr.records[0].last_error {
        Some(CompileError::MissingExport(name)) => assert_eq!(name, "process"),
        other => panic!("expected a missing process export, got {:?}", other.is_some()),
    }
}

#[test]
fn garbage_bytes_are_a_parse_error() {
    let compiler = Compiler::new().expect("engine");
    match compiler.compile(&vec![0x00, 0x61, 0x73, 0x6d, 0xff, 0xff, 0xff, 0xff]) {
        Err(CompileError::Parse(_)) => {},
        _ => panic!("expected a parse error"),
    }
}

#[test]
fn compile_accepts_both_exports() {
    let compiler = Compiler::new().expect("engine");
    let bytes = valid_module();
    let cu = compiler.compile(&bytes).expect("compilable module");
    assert_eq!(cu.checksum, checksum_of(&bytes));
}

#[test]
fn missing_on_error_export_is_named() {
    // strip the second export: only `process` remains
    let bytes = vec![
        0x00, 0x61, 0x73, 0x6d, 0x01, 0x00, 0x00, 0x00, //
        0x01, 0x04, 0x01, 0x60, 0x00, 0x00, //
        0x03, 0x02, 0x01, 0x00, //
        0x07, 0x0b, 0x01, //
        0x07, b'p', b'r', b'o', b'c', b'e', b's', b's', 0x00, 0x00, //
        0x0a, 0x04, 0x01, 0x02, 0x00, 0x0b, //
    ];
    let compiler = Compiler::new().expect("engine");
    match compiler.compile(&bytes) {
        Err(CompileError::MissingExport(name)) => assert_eq!(name, "on_error"),
        _ => panic!("expected a missing on_error export"),
    }
}

#[test]
fn undeploy_intent_destroys_the_record() {
    // intent precedence end-to-end: the scanner already resolved undeploy
    let mut mgr = FunctionManager::new("modules".to_string()).expect("engine");
    mgr.tick(&vec![observed("f.wasm", "deploy", valid_module())]);
    assert_eq!(mgr.running_modules().len(), 1);
    let report = mgr.tick(&vec![observed("f.wasm", "undeploy", valid_module())]);
    assert_eq!(report.compiled.len(), 0);
    assert_eq!(mgr.records.len(), 0);
    assert!(mgr.get_handle(&"f".to_string()).is_none());
}

#[test]
fn undeploy_intent_on_a_new_file_creates_nothing() {
    let mut mgr = FunctionManager::new("modules".to_string()).expect("engine");
    let report = mgr.tick(&vec![observed("f.wasm", "undeploy", valid_module())]);
    assert_eq!(report.compiled.len(), 0);
    assert_eq!(mgr.records.len(), 0);
}

#[test]
fn load_applies_one_observation() {
    let mut mgr = FunctionManager::new("modules".to_string()).expect("engine");
    let ev = mgr.load(&observed("echo.wasm", "deploy", valid_module()));
    let ev = ev.expect("a compile event");
    assert_eq!(ev.name, "echo");
    assert_eq!(ev.checksum, checksum_of(&valid_module()));
    assert!(mgr.get_handle(&"echo".to_string()).is_some());
    assert!(mgr.load(&observed("echo.wasm", "deploy", valid_module())).is_none());
}

#[test]
fn scan_and_tick_consume_intents() {
    // a full pass: scan the listing, tick on it, delete the reported
    // side-files, scan and tick again
    let watcher = wasm_central::watcher::DirectoryWatcher::new("modules".to_string());
    let mut mgr = FunctionManager::new("modules".to_string()).expect("engine");

    let mut listing: Vec<String> =
        vec!["f.wasm".to_string(), "f.deploy".to_string(), "f.undeploy".to_string()];
    let entries = watcher.run(&listing);
    let obs: Vec<ObservedFile> = entries
        .into_iter()
        .map(|e| ObservedFile { path: e.path, next_status: e.next_status, bytes: valid_module() })
        .collect();
    mgr.tick(&obs);
    // undeploy wins: no record survives the first tick
    assert_eq!(mgr.records.len(), 0);

    // the scanner's deletion list clears every side-file
    let stale = wasm_central::watcher::side_files(&listing);
    listing.retain(|name| !stale.contains(name));
    assert_eq!(listing, vec!["f.wasm".to_string()]);

    // with intents consumed, the next tick deploys the surviving file
    let entries = watcher.run(&listing);
    let obs: Vec<ObservedFile> = entries
        .into_iter()
        .map(|e| ObservedFile { path: e.path, next_status: e.next_status, bytes: valid_module() })
        .collect();
    let report = mgr.tick(&obs);
    assert_eq!(report.compiled.len(), 1);
    assert!(mgr.get_handle(&"f".to_string()).is_some());
}

#[test]
fn mixed_observations_in_one_tick() {
    let mut mgr = FunctionManager::new("modules".to_string()).expect("engine");
    let report = mgr.tick(&vec![
        observed("a.wasm", "deploy", valid_module()),
        observed("b.wasm", "undeploy", valid_module()),
        observed("c.wasm", "running", valid_module_variant()),
    ]);
    assert_eq!(report.compiled.len(), 2);
    assert!(mgr.get_handle(&"a".to_string()).is_some());
    assert!(mgr.get_handle(&"b".to_string()).is_none());
    assert!(mgr.get_handle(&"c".to_string()).is_some());
    assert_eq!(mgr.running_modules().len(), 2);
}

#[test]
fn undeploy_reports_missing_modules() {
    let mut mgr = FunctionManager::new("modules".to_string()).expect("engine");
    assert!(mgr.undeploy(&"ghost".to_string()).is_err());
    mgr.load(&observed("echo.wasm", "deploy", valid_module()));
    match mgr.undeploy(&"echo".to_string()) {
        Ok(st) => assert!(matches!(st, FunctionStatus::Undeployed)),
        Err(_) => panic!("undeploy of an existing record must succeed"),
    }
    assert_eq!(mgr.records.len(), 0);
}
