use kube_depre::{
    is_yaml_file, yaml_nesting_fits, Cluster, ClusterItem, ClusterListing, DepreApi, FileSystem,
    JsonDetails, ManifestDoc, ManifestError,
};

fn api(kind: &str, group: &str, version: &str, removed: &str) -> DepreApi {
    DepreApi {
        kind: kind.to_string(),
        group: group.to_string(),
        version: version.to_string(),
        removed: removed.to_string(),
        k8_version: Some("1.25".to_string()),
    }
}

fn fs(apis: Vec<DepreApi>) -> FileSystem {
    FileSystem::new("tests/data".to_string(), apis)
}

const CRONJOB: &str = "apiVersion: batch/v1beta1\nkind: CronJob\nmetadata:\n  name: hello\n";

#[test]
fn deprecated_document_is_reported() {
    let f = fs(vec![api("CronJob", "batch", "v1", "false"), api("Pod", "", "v1", "false")]);
    let rows = f.scan_manifest("cron.yaml", CRONJOB).ok().unwrap();
    assert_eq!(rows.len(), 1);
    assert_eq!(rows[0].kind, "CronJob");
    assert_eq!(rows[0].namespace, "cron.yaml");
    assert_eq!(rows[0].name, "hello");
    assert_eq!(rows[0].deprecated_api_version, "batch/v1beta1");
    assert_eq!(rows[0].supported_api_version, "batch/v1");
    assert_eq!(rows[0].k8_version, "1.25");
}

#[test]
fn supported_document_is_not_reported() {
    let f = fs(vec![api("CronJob", "batch", "v1beta1", "false")]);
    assert_eq!(f.scan_manifest("cron.yaml", CRONJOB).ok().unwrap().len(), 0);
}

#[test]
fn other_kinds_are_not_reported() {
    let f = fs(vec![api("Ingress", "networking.k8s.io", "v1", "false")]);
    assert_eq!(f.scan_manifest("cron.yaml", CRONJOB).ok().unwrap().len(), 0);
}

#[test]
fn removed_api_is_reported_and_sticks() {
    let f = fs(vec![
        api("CronJob", "batch", "v1beta1", "true"),
        api("CronJob", "batch", "v1beta1", "false"),
    ]);
    let rows = f.scan_manifest("cron.yaml", CRONJOB).ok().unwrap();
    assert_eq!(rows.len(), 2);
    assert_eq!(rows[0].deprecated_api_version, "REMOVED");
    assert_eq!(rows[0].supported_api_version, "REMOVED");
    assert_eq!(rows[1].deprecated_api_version, "REMOVED");
    assert_eq!(rows[1].supported_api_version, "batch/v1beta1");
}

#[test]
fn several_documents_in_order() {
    let text = "apiVersion: batch/v1beta1\nkind: CronJob\nmetadata:\n  name: a\n---\nkind: CronJob\nmetadata:\n  name: b\n---\napiVersion: batch/v1beta1\nkind: CronJob\nmetadata:\n  name: c\n";
    let f = fs(vec![api("CronJob", "batch", "v1", "false")]);
    let rows = f.scan_manifest("m.yaml", text).ok().unwrap();
    assert_eq!(rows.len(), 2);
    assert_eq!(rows[0].name, "a");
    assert_eq!(rows[1].name, "c");
}

#[test]
fn unparsable_yaml_is_an_error() {
    let f = fs(vec![api("CronJob", "batch", "v1", "false")]);
    assert!(matches!(f.scan_manifest("bad.yaml", "a: [b"), Err(ManifestError::Parse(_))));
}

#[test]
fn missing_kind_is_an_error() {
    let f = fs(vec![api("CronJob", "batch", "v1", "false")]);
    let text = "apiVersion: batch/v1beta1\nmetadata:\n  name: x\n";
    assert!(matches!(f.scan_manifest("x.yaml", text), Err(ManifestError::Incomplete)));
    let empty = fs(vec![]);
    assert_eq!(empty.scan_manifest("x.yaml", text).ok().unwrap().len(), 0);
}

#[test]
fn missing_name_is_an_error_only_when_reported() {
    let text = "apiVersion: batch/v1beta1\nkind: CronJob\n";
    let reported = fs(vec![api("CronJob", "batch", "v1", "false")]);
    assert!(matches!(reported.scan_manifest("x.yaml", text), Err(ManifestError::Incomplete)));
    let quiet = fs(vec![api("CronJob", "batch", "v1beta1", "false")]);
    assert_eq!(quiet.scan_manifest("x.yaml", text).ok().unwrap().len(), 0);
}

#[test]
fn one_document_at_a_time() {
    let f = fs(vec![api("Ingress", "networking.k8s.io", "v1", "false")]);
    let doc = ManifestDoc {
        api_version: Some("extensions/v1beta1".to_string()),
        kind: Some("Ingress".to_string()),
        name: Some("web".to_string()),
    };
    assert!(f.can_scan(&doc));
    let rows = f.find_deprecated_api(&doc, "ing.yaml");
    assert_eq!(rows.len(), 1);
    assert_eq!(rows[0].supported_api_version, "networking.k8s.io/v1");
    let no_version = ManifestDoc { api_version: None, kind: None, name: None };
    assert!(f.can_scan(&no_version));
    assert_eq!(f.find_deprecated_api(&no_version, "x.yaml").len(), 0);
}

#[test]
fn yaml_files_by_extension() {
    assert!(is_yaml_file("deploy.yaml"));
    assert!(is_yaml_file("a.b.yaml"));
    assert!(!is_yaml_file(".yaml"));
    assert!(!is_yaml_file("deploy.yml"));
    assert!(!is_yaml_file("deploy.yaml.bak"));
    assert!(!is_yaml_file("yaml"));
}

fn item(name: &str, last: Option<&str>) -> ClusterItem {
    ClusterItem {
        name: name.to_string(),
        namespace: "default".to_string(),
        last_applied: last.map(|v| JsonDetails { api_version: v.to_string() }),
    }
}

#[test]
fn cluster_objects_of_a_removed_api() {
    let a = api("PodSecurityPolicy", "policy", "v1beta1", "true");
    let items = vec![item("p1", None), item("p2", Some("policy/v1beta1"))];
    let rows = Cluster::find_deprecated_api_in_items(&a, "PodSecurityPolicy", &items);
    assert_eq!(rows.len(), 2);
    assert_eq!(rows[1].name, "p2");
    assert_eq!(rows[1].deprecated_api_version, "REMOVED");
    assert_eq!(rows[1].supported_api_version, "REMOVED");
}

#[test]
fn cluster_objects_of_a_deprecated_api() {
    let a = api("HorizontalPodAutoscaler", "autoscaling", "v2", "false");
    let items = vec![
        item("plain", None),
        item("current", Some("autoscaling/v2")),
        item("old", Some("autoscaling/v2beta2")),
    ];
    let rows = Cluster::find_deprecated_api_in_items(&a, "HorizontalPodAutoscaler", &items);
    assert_eq!(rows.len(), 1);
    assert_eq!(rows[0].name, "old");
    assert_eq!(rows[0].namespace, "default");
    assert_eq!(rows[0].deprecated_api_version, "autoscaling/v2beta2");
    assert_eq!(rows[0].supported_api_version, "autoscaling/v2");
    assert_eq!(rows[0].k8_version, "1.25");
    let c = Cluster::new(vec![a]);
    assert_eq!(c.deprecated_api_result.len(), 1);
}

#[test]
fn too_deep_text_is_refused() {
    let f = fs(vec![api("CronJob", "batch", "v1", "false")]);
    let text = "- ".repeat(3000) + "x\n";
    assert!(!yaml_nesting_fits(&text));
    assert!(matches!(f.scan_manifest("deep.yaml", &text), Err(ManifestError::TooDeep)));
}

#[test]
fn line_layout_alone_is_no_nesting() {
    let f = fs(vec![api("CronJob", "batch", "v1", "false")]);
    let indented = " ".repeat(300) + "x\n";
    assert!(yaml_nesting_fits(&indented));
    assert!(f.scan_manifest("x.yaml", &indented).is_ok());
    let old_mac = "apiVersion: batch/v1beta1\rkind: CronJob\rmetadata:\r  name: hello\r";
    assert!(yaml_nesting_fits(old_mac));
    assert!(!matches!(f.scan_manifest("mac.yaml", old_mac), Err(ManifestError::TooDeep)));
    let prose = "description: \"a - b - c : d ? e\"\n".repeat(50);
    assert!(yaml_nesting_fits(&prose));
}

#[test]
fn nesting_counts_open_collections() {
    assert!(yaml_nesting_fits(&("- ".repeat(350) + "x")));
    assert!(!yaml_nesting_fits(&("- ".repeat(351) + "x")));
    let flow = "[".repeat(255) + &"]".repeat(255);
    assert!(yaml_nesting_fits(&flow));
    let siblings = "- a\n".repeat(2000);
    assert!(yaml_nesting_fits(&siblings));
}

#[test]
fn deepest_admitted_texts_load() {
    let f = fs(vec![api("CronJob", "batch", "v1", "false")]);
    let flat = "- ".repeat(350) + "x\n";
    assert_eq!(f.scan_manifest("flat.yaml", &flat).ok().unwrap().len(), 0);
    let flow = "- ".repeat(95) + &"[a:".repeat(254) + "b" + &"]".repeat(254) + "\n";
    assert!(yaml_nesting_fits(&flow));
    assert_eq!(f.scan_manifest("flow.yaml", &flow).ok().unwrap().len(), 0);
    let mut block = String::from("k0:\n");
    for k in 1..350 {
        block.push_str(&"  ".repeat(k - 1));
        block.push_str(&format!("- k{k}:\n"));
    }
    block.push_str(&"  ".repeat(349));
    block.push_str("- x\n");
    assert!(yaml_nesting_fits(&block));
    assert_eq!(f.scan_manifest("block.yaml", &block).ok().unwrap().len(), 0);
}

#[test]
fn appended_apis_only_append_rows() {
    let a = vec![api("CronJob", "batch", "v1", "false")];
    let mut ab = a.clone();
    ab.push(api("CronJob", "batch", "v2", "false"));
    ab.push(api("Ingress", "networking.k8s.io", "v1", "false"));
    let rows_a = fs(a).scan_manifest("cron.yaml", CRONJOB).ok().unwrap();
    let rows_ab = fs(ab).scan_manifest("cron.yaml", CRONJOB).ok().unwrap();
    assert_eq!(rows_a.len(), 1);
    assert_eq!(rows_ab.len(), 2);
    assert_eq!(rows_ab[0].supported_api_version, rows_a[0].supported_api_version);
    assert_eq!(rows_ab[1].supported_api_version, "batch/v2");
}

#[test]
fn cluster_report_follows_the_list() {
    let c = Cluster::new(vec![
        api("PodSecurityPolicy", "policy", "v1beta1", "true"),
        api("Ingress", "networking.k8s.io", "v1", "false"),
        api("CronJob", "batch", "v1", "false"),
    ]);
    let listings = vec![
        Some(ClusterListing {
            resource_kind: "PodSecurityPolicy".to_string(),
            items: vec![item("psp", None)],
        }),
        None,
        Some(ClusterListing {
            resource_kind: "CronJob".to_string(),
            items: vec![item("old", Some("batch/v1beta1")), item("new", Some("batch/v1"))],
        }),
    ];
    let rows = c.find_deprecated_api_in_cluster(&listings);
    assert_eq!(rows.len(), 2);
    assert_eq!(rows[0].name, "psp");
    assert_eq!(rows[0].supported_api_version, "REMOVED");
    assert_eq!(rows[1].name, "old");
    assert_eq!(rows[1].kind, "CronJob");
}
