use kube_depre::{process, Output, Report, TableDetails, VecTableDetails};

fn webhook_row() -> TableDetails {
    TableDetails {
        kind: "ValidatingWebhookConfiguration".to_string(),
        namespace: "".to_string(),
        name: "istiod-istio-system".to_string(),
        deprecated_api_version: "admissionregistration.k8s.io/v1beta1".to_string(),
        supported_api_version: "admissionregistration.k8s.io/v1".to_string(),
        k8_version: "1.22".to_string(),
    }
}

fn removed_row() -> TableDetails {
    TableDetails {
        kind: "Kind".to_string(),
        namespace: "Test".to_string(),
        name: "Name".to_string(),
        supported_api_version: "REMOVED".to_string(),
        deprecated_api_version: "REMOVED".to_string(),
        k8_version: "1.22".to_string(),
    }
}

#[test]
fn utils_test_table_generation() {
    let table = VecTableDetails(vec![webhook_row()]);
    let x = table.generate_table("Namespace");
    assert_eq!(x.row_count(), 1);
    let text = x.to_string();
    assert!(text.contains("istiod-istio-system"));
    assert!(text.contains("Namespace"));
}

#[test]
fn integration_test_table_generation() {
    let table = VecTableDetails(vec![webhook_row()]);
    let x = table.generate_table("Namespace");
    let header: Vec<String> = x.header().unwrap().cell_iter().map(|c| c.content()).collect();
    assert_eq!(
        header,
        vec![
            "Kind",
            "Namespace",
            "Name",
            "DeprecatedApiVersion",
            "SupportedApiVersion",
            "K8sVersion"
        ]
    );
    let row: Vec<String> = x.row(0).unwrap().cell_iter().map(|c| c.content()).collect();
    assert_eq!(
        row,
        vec![
            "ValidatingWebhookConfiguration",
            "",
            "istiod-istio-system",
            "admissionregistration.k8s.io/v1beta1",
            "admissionregistration.k8s.io/v1",
            "1.22"
        ]
    );
}

#[test]
fn utils_test_csv_generation() {
    let table = VecTableDetails(vec![webhook_row()]);
    let x = table.generate_csv("Filename");
    assert!(!x.is_empty());
    let text = String::from_utf8(x).unwrap();
    assert_eq!(
        text,
        "Kind,Filename,Name,DeprecatedApiVersion,SupportedApiVersion,K8sVersion\n\
         ValidatingWebhookConfiguration,,istiod-istio-system,admissionregistration.k8s.io/v1beta1,admissionregistration.k8s.io/v1,1.22\n"
    );
}

#[test]
fn integration_test_csv_generation() {
    let table = VecTableDetails(vec![webhook_row()]);
    let text = String::from_utf8(table.generate_csv("Filename")).unwrap();
    assert_eq!(
        text,
        "Kind,Filename,Name,DeprecatedApiVersion,SupportedApiVersion,K8sVersion\n\
         ValidatingWebhookConfiguration,,istiod-istio-system,admissionregistration.k8s.io/v1beta1,admissionregistration.k8s.io/v1,1.22\n"
    );
}

#[test]
fn csv_generation_of_two_rows() {
    let table = VecTableDetails(vec![webhook_row(), removed_row()]);
    let text = String::from_utf8(table.generate_csv("Filename")).unwrap();
    assert_eq!(text.lines().count(), 3);
    assert_eq!(text.lines().nth(2).unwrap(), "Kind,Test,Name,REMOVED,REMOVED,1.22");
}

#[test]
fn csv_quotes_fields_that_need_it() {
    let mut row = removed_row();
    row.name = "a,b".to_string();
    let text = String::from_utf8(VecTableDetails(vec![row]).generate_csv("Namespace"))
        .unwrap();
    assert_eq!(text.lines().nth(1).unwrap(), "Kind,Test,\"a,b\",REMOVED,REMOVED,1.22");
}

#[test]
fn test_markdown_table_generation() {
    let table = VecTableDetails(vec![webhook_row()]);
    let x = table.generate_markdown_table("Namespace");
    assert_eq!(x.row_count(), 1);
    let text = x.to_string();
    assert!(text.lines().next().unwrap().starts_with("| Kind"));
    assert!(text.contains("|-"));
}

#[test]
fn test_process_generate_table() {
    let process = process(vec![removed_row()], Output::Table, "Filename");
    match process {
        Report::Table(t) => assert_eq!(t.row_count(), 1),
        Report::Csv(_) => panic!("a table was asked for"),
    }
}

#[test]
fn test_process_generate_csv() {
    let process = process(vec![removed_row()], Output::Csv, "Filename");
    match process {
        Report::Csv(bytes) => assert_eq!(
            String::from_utf8(bytes).unwrap(),
            "Kind,Filename,Name,DeprecatedApiVersion,SupportedApiVersion,K8sVersion\nKind,Test,Name,REMOVED,REMOVED,1.22\n"
        ),
        Report::Table(_) => panic!("CSV was asked for"),
    }
}

#[test]
fn process_junit_gives_markdown() {
    match process(vec![], Output::Junit, "Namespace") {
        Report::Table(t) => {
            assert_eq!(t.row_count(), 0);
            assert!(t.to_string().starts_with("| Kind"));
        }
        Report::Csv(_) => panic!("a table was expected"),
    }
}

#[test]
fn empty_report_has_only_the_header() {
    let t = VecTableDetails(vec![]).generate_table("Namespace");
    assert_eq!(t.row_count(), 0);
    let csv = VecTableDetails(vec![]).generate_csv("Namespace");
    assert_eq!(
        String::from_utf8(csv).unwrap(),
        "Kind,Namespace,Name,DeprecatedApiVersion,SupportedApiVersion,K8sVersion\n"
    );
}

#[test]
fn header_cells_name_the_second_column() {
    let h = kube_depre::header_cells("Filename");
    assert_eq!(h.len(), 6);
    assert_eq!(h[1], "Filename");
    let r = kube_depre::row_cells(&webhook_row());
    assert_eq!(r[2], "istiod-istio-system");
    assert_eq!(r[5], "1.22");
}

#[test]
fn default_table_details_is_empty() {
    let d = TableDetails::default();
    assert!(d.kind.is_empty() && d.k8_version.is_empty());
}
