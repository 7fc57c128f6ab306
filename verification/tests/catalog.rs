use kube_depre::{
    check_scrape_type, default_versions, deprecated_api_url, get_deprecated_api,
    push_with_version, same_text, split_commas, target_versions, DepreApi, Scrape,
};

fn api(kind: &str, removed: &str) -> DepreApi {
    DepreApi {
        kind: kind.to_string(),
        group: "batch".to_string(),
        version: "v1".to_string(),
        removed: removed.to_string(),
        k8_version: None,
    }
}

#[test]
fn url_of_a_version() {
    assert_eq!(
        deprecated_api_url("1.22"),
        "https://raw.githubusercontent.com/maheshrayas/k8s_deprecated_api/main/v1.22/data.json"
    );
    assert_ne!(deprecated_api_url("1.22"), deprecated_api_url("1.25"));
}

#[test]
fn lists_are_marked_with_their_version() {
    let lists = vec![
        ("1.22".to_string(), vec![api("CronJob", "false"), api("Job", "true")]),
        ("1.25".to_string(), vec![]),
        ("1.26".to_string(), vec![api("Ingress", "false")]),
    ];
    let all = get_deprecated_api(&lists);
    assert_eq!(all.len(), 3);
    assert_eq!(all[0].k8_version.as_deref(), Some("1.22"));
    assert_eq!(all[1].kind, "Job");
    assert_eq!(all[1].k8_version.as_deref(), Some("1.22"));
    assert_eq!(all[2].kind, "Ingress");
    assert_eq!(all[2].k8_version.as_deref(), Some("1.26"));
}

#[test]
fn push_keeps_what_was_there() {
    let mut out = vec![api("Old", "false")];
    push_with_version(&mut out, &vec![api("New", "true")], "1.16");
    assert_eq!(out.len(), 2);
    assert_eq!(out[0].k8_version, None);
    assert_eq!(out[1].k8_version.as_deref(), Some("1.16"));
}

#[test]
fn versions_split_at_commas() {
    assert_eq!(split_commas("1.22,1.25"), vec!["1.22", "1.25"]);
    assert_eq!(split_commas("1.22"), vec!["1.22"]);
    assert_eq!(split_commas(""), vec![""]);
    assert_eq!(split_commas("a,,b,"), vec!["a", "", "b", ""]);
    let s = "1.16,1.22,1.25";
    assert_eq!(split_commas(s).join(","), s);
}

#[test]
fn default_and_target_versions() {
    assert_eq!(
        default_versions(),
        vec!["1.16", "1.22", "1.25", "1.26", "1.27", "custom"]
    );
    assert_eq!(target_versions(&None), default_versions());
    assert_eq!(target_versions(&Some("1.25,1.22".to_string())), vec!["1.25", "1.22"]);
}

#[test]
fn scrape_type_follows_the_file_option() {
    match check_scrape_type(&Some("./manifests".to_string())) {
        Scrape::Dir(d, col) => {
            assert_eq!(d, "./manifests");
            assert_eq!(col, "Filename");
        }
        Scrape::Cluster(_) => panic!("a directory was given"),
    }
    assert!(check_scrape_type(&None) == Scrape::Cluster("Namespace"));
}

#[test]
fn same_text_compares_characters() {
    assert!(same_text("abc", "abc"));
    assert!(!same_text("abc", "abd"));
    assert!(!same_text("ab", "abc"));
    assert!(same_text("", ""));
}
