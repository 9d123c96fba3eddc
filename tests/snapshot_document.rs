use wei_hardware::snapshot::{assemble, installed_flag, status_code_text, tech_type_text, SnapshotParts};

fn parts() -> SnapshotParts {
    SnapshotParts {
        hardware: "{}".to_string(),
        network: "[]".to_string(),
        images: "[]".to_string(),
        containers: "not json".to_string(),
        model: "[]".to_string(),
        model_timestamp: 12,
        dataset: "[]".to_string(),
        dataset_timestamp: 0,
        ip: "{}".to_string(),
        installed_status: "{\"is_installed\":true}".to_string(),
        started_status: "{\"is_start\":\"1\"}".to_string(),
        autorun_status: "{\"data\":1}".to_string(),
        tech_type: Some("  k8s\n".to_string()),
    }
}

#[test]
fn snapshot_has_every_key_in_order() {
    assert_eq!(
        assemble(&parts()),
        "{\"hardware\":{},\"network\":[],\"images\":[],\"containers\":{},\"model\":[],\
\"model_timestamp\":12,\"dataset\":[],\"dataset_timestamp\":0,\"ip\":{},\"docker_installed\":true,\
\"host_service_up\":\"1\",\"host_service_up_default\":\"0\",\"tech_type\":\"k8s\"}"
    );
}

#[test]
fn runtime_defaults() {
    let mut p = parts();
    p.installed_status = "garbage".to_string();
    p.started_status = "{}".to_string();
    p.tech_type = None;
    let doc = assemble(&p);
    assert!(doc.contains("\"docker_installed\":false,"));
    assert!(doc.contains("\"host_service_up\":\"0\","));
    assert!(doc.ends_with("\"tech_type\":\"docker\"}"));
}

#[test]
fn runtime_flags() {
    assert!(installed_flag("{\"is_installed\":true}"));
    assert!(!installed_flag("{\"is_installed\":false}"));
    assert!(!installed_flag("{\"is_installed\":\"yes\"}"));
    assert_eq!(status_code_text("{\"data\":\"1\"}", "data"), "1");
    assert_eq!(status_code_text("{\"data\":\"\"}", "data"), "");
    assert_eq!(status_code_text("[1]", "data"), "0");
    assert_eq!(tech_type_text(&Some("\tdocker \r\n".to_string())), "docker");
    assert_eq!(tech_type_text(&None), "docker");
}

#[test]
fn marker_text_is_escaped() {
    let mut p = parts();
    p.tech_type = Some("a\u{1}b\"c\\d\te".to_string());
    let doc = assemble(&p);
    assert!(doc.ends_with("\"tech_type\":\"a\\u0001b\\\"c\\\\d\\te\"}"), "{}", doc);
}
