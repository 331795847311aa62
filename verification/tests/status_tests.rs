use wasm_central::status::{FunctionStatus, ModuleStatus};

#[test]
fn parses_every_intent_word() {
    assert!(matches!(FunctionStatus::from_string("deploy"), FunctionStatus::Deploy));
    assert!(matches!(FunctionStatus::from_string("undeploy"), FunctionStatus::Undeploy));
    assert!(matches!(FunctionStatus::from_string("running"), FunctionStatus::Deployed));
    assert!(matches!(FunctionStatus::from_string("undeployed"), FunctionStatus::Undeployed));
    assert!(matches!(FunctionStatus::from_string("redeploy"), FunctionStatus::Redeploy));
}

#[test]
fn unknown_word_means_undeployed() {
    assert!(matches!(FunctionStatus::from_string(""), FunctionStatus::Undeployed));
    assert!(matches!(FunctionStatus::from_string("Deploy"), FunctionStatus::Undeployed));
    assert!(matches!(FunctionStatus::from_string("restart"), FunctionStatus::Undeployed));
}

#[test]
fn status_labels() {
    assert_eq!(FunctionStatus::Deploy.as_string(), "deploy");
    assert_eq!(FunctionStatus::Deployed.as_string(), "deployed");
    assert_eq!(FunctionStatus::Undeploy.as_string(), "undeploy");
    assert_eq!(FunctionStatus::Undeployed.as_string(), "undeployed");
    assert_eq!(FunctionStatus::Redeploy.as_string(), "redeploy");
}

#[test]
fn legacy_status_parsing() {
    assert!(matches!(ModuleStatus::from_string("deploy"), ModuleStatus::Deploy));
    assert!(matches!(ModuleStatus::from_string("undeploy"), ModuleStatus::Undeploy));
    assert!(matches!(ModuleStatus::from_string("running"), ModuleStatus::Deployed));
    assert!(matches!(ModuleStatus::from_string("undeployed"), ModuleStatus::Undeployed));
    // the older interface has no redeploy state
    assert!(matches!(ModuleStatus::from_string("redeploy"), ModuleStatus::Undeployed));
}
