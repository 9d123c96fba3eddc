use wei_hardware::resolver::{CacheEntry, FactFamily, ProbeReport, Step};
use wei_hardware::snapshot::{assemble, SnapshotParts};

fn report(ok: bool, raw: &str) -> ProbeReport {
    ProbeReport { ok, raw: raw.to_string() }
}

#[test]
fn family_settings() {
    assert_eq!(FactFamily::Hardware.ttl(), 1800);
    assert_eq!(FactFamily::Network.ttl(), 1800);
    assert_eq!(FactFamily::IpGeo.ttl(), 1800);
    assert_eq!(FactFamily::ModelFiles.ttl(), 600);
    assert_eq!(FactFamily::DatasetFiles.ttl(), 600);
    assert_eq!(FactFamily::IpGeo.probe_count(), 3);
    assert_eq!(FactFamily::Network.probe_count(), 1);
    assert_eq!(FactFamily::Hardware.default_payload(), "{}");
    assert_eq!(FactFamily::ModelFiles.default_payload(), "[]");
    assert_eq!(FactFamily::Network.cache_file(), "net.json");
    assert_eq!(FactFamily::DatasetFiles.cache_file(), "dataset.json");
}

#[test]
fn second_resolve_within_ttl_uses_cache() {
    let f = FactFamily::Hardware;
    let (first, ran) = f.resolve(None, 1000, &vec![report(true, "{\"a\":1}")]);
    assert_eq!(first, "{\"a\":1}");
    assert_eq!(ran, 1);
    let entry = CacheEntry { payload: first.clone(), written_at: 1000 };
    let (second, ran) = f.resolve(Some(&entry), 1000 + 1799, &vec![report(false, "")]);
    assert_eq!(second, first);
    assert_eq!(ran, 0);
    match f.begin(Some(&entry), 1500) {
        Step::Done { payload, store } => {
            assert_eq!(payload, first);
            assert!(!store);
        }
        Step::Probe(_) => panic!("a fresh entry must be served"),
    }
}

#[test]
fn stale_or_future_entry_runs_the_chain() {
    let f = FactFamily::ModelFiles;
    let entry = CacheEntry { payload: "[]".to_string(), written_at: 1000 };
    assert!(matches!(f.begin(Some(&entry), 1600), Step::Probe(0)));
    assert!(matches!(f.begin(Some(&entry), 999), Step::Probe(0)));
    assert!(matches!(f.begin(None, 5), Step::Probe(0)));
    assert!(matches!(f.begin(Some(&entry), 1599), Step::Done { .. }));
}

#[test]
fn all_probes_failing_gives_default() {
    let (p, ran) = FactFamily::Network.resolve(None, 0, &vec![report(false, "")]);
    assert_eq!(p, "[]");
    assert_eq!(ran, 1);
    let (p, ran) = FactFamily::IpGeo.resolve(None, 0, &vec![]);
    assert_eq!(p, "{}");
    assert_eq!(ran, 3);
    let (p, _) = FactFamily::Network.resolve(None, 0, &vec![report(true, "not json")]);
    assert_eq!(p, "[]");
}

#[test]
fn fallback_stops_at_first_taken_probe() {
    let reports = vec![
        report(true, "not json"),
        report(true, "{\"ip\":\"1.2.3.4\"}"),
        report(true, "{\"x\":1}"),
    ];
    let (p, ran) = FactFamily::IpGeo.resolve(None, 0, &reports);
    assert_eq!(p, "{\"ipsite\":\"pconline.com.cn\",\"data\":{\"ip\":\"1.2.3.4\"}}");
    assert_eq!(ran, 2);
    assert!(matches!(FactFamily::IpGeo.after_probe(0, &reports[0]), Step::Probe(1)));
}

#[test]
fn corrupt_cache_is_regenerated() {
    let f = FactFamily::Network;
    let entry = CacheEntry { payload: "[{\"name\":".to_string(), written_at: 100 };
    assert!(matches!(f.begin(Some(&entry), 101), Step::Probe(0)));
    match f.after_probe(0, &report(true, "[{\"name\":\"eth0\"}]")) {
        Step::Done { payload, store } => {
            assert_eq!(payload, "[{\"name\":\"eth0\"}]");
            assert!(store);
        }
        Step::Probe(_) => panic!("a one-probe chain must finish"),
    }
    match f.after_probe(0, &report(false, "")) {
        Step::Done { payload, store } => {
            assert_eq!(payload, "[]");
            assert!(store);
        }
        Step::Probe(_) => panic!("a one-probe chain must finish"),
    }
}

#[test]
fn second_provider_answers_when_first_times_out() {
    let reports = vec![report(false, ""), report(true, "{\"ip\":\"8.8.8.8\",\"city\":\"X\"}")];
    let (ip, ran) = FactFamily::IpGeo.resolve(None, 0, &reports);
    assert_eq!(ran, 2);
    assert_eq!(ip, "{\"ipsite\":\"pconline.com.cn\",\"data\":{\"ip\":\"8.8.8.8\",\"city\":\"X\"}}");
    let parts = SnapshotParts {
        hardware: "{}".to_string(),
        network: "[]".to_string(),
        images: "{}".to_string(),
        containers: "{}".to_string(),
        model: "[]".to_string(),
        model_timestamp: 0,
        dataset: "[]".to_string(),
        dataset_timestamp: 0,
        ip,
        installed_status: "{}".to_string(),
        started_status: "{}".to_string(),
        autorun_status: "{}".to_string(),
        tech_type: None,
    };
    let doc = assemble(&parts);
    assert!(doc.contains(",\"ip\":{\"ipsite\":\"pconline.com.cn\",\"data\":{\"ip\":\"8.8.8.8\",\"city\":\"X\"}},"));
}

#[test]
fn third_provider_is_last_resort() {
    let reports = vec![report(false, ""), report(true, "<html>"), report(true, "{\"ip\":\"9.9.9.9\"}")];
    let (ip, ran) = FactFamily::IpGeo.resolve(None, 0, &reports);
    assert_eq!(ran, 3);
    assert_eq!(ip, "{\"ipsite\":\"csdn.net\",\"data\":{\"ip\":\"9.9.9.9\"}}");
    let (ip, ran) = FactFamily::IpGeo.resolve(None, 0, &vec![report(true, "{\"ip\":\"1.1.1.1\"}")]);
    assert_eq!(ran, 1);
    assert_eq!(ip, "{\"ipsite\":\"ipchaxun.com\",\"data\":{\"ip\":\"1.1.1.1\"}}");
}

#[test]
fn provider_body_that_is_not_json_is_skipped() {
    let reports = vec![report(true, "1,\"x\":2"), report(true, "1,\"y\":3"), report(true, "")];
    let (ip, ran) = FactFamily::IpGeo.resolve(None, 0, &reports);
    assert_eq!(ip, "{}");
    assert_eq!(ran, 3);
    let reports = vec![report(true, "<html>"), report(true, "{\"ip\":\"2.2.2.2\"}")];
    let (ip, ran) = FactFamily::IpGeo.resolve(None, 0, &reports);
    assert_eq!(ran, 2);
    assert_eq!(ip, "{\"ipsite\":\"pconline.com.cn\",\"data\":{\"ip\":\"2.2.2.2\"}}");
}
