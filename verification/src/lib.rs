//! Finds Kubernetes resources whose `apiVersion` is deprecated or removed in
//! a given Kubernetes release, in manifest files or in a live cluster, and
//! reports them as a table or as CSV.
//!
//! The library holds the decisions: which manifest documents and cluster
//! objects are reported and with which columns, how the list of deprecated
//! APIs is assembled per Kubernetes version, and how the report is laid out.
//! Reading files, talking to the cluster and fetching the lists stay with the
//! caller.
//!
//! - `types`: the records of the deprecated-API lists and of the report.
//! - `catalog`: where the lists are published and how they are gathered;
//!   which versions and which source a run looks at.
//! - `manifest`: the scan of the YAML documents of manifest files.
//! - `cluster`: the decision, per cluster object, whether it is reported.
//! - `report`: the report as a table or as CSV.
//! - `text`: text helpers.
pub mod catalog;
pub mod cluster;
pub mod manifest;
pub mod report;
pub mod text;
pub mod types;

pub use catalog::{
    check_scrape_type, default_versions, deprecated_api_url, get_deprecated_api,
    push_with_version, target_versions,
};
pub use cluster::{Cluster, ClusterItem, ClusterListing};
pub use manifest::{is_yaml_file, yaml_nesting_fits, FileSystem, ManifestDoc, ManifestError};
pub use report::{
    generate_csv_header, generate_table_header, header_cells, process, row_cells, Report,
};
pub use text::{same_text, split_commas};
pub use types::{DepreApi, JsonDetails, Output, Scrape, TableDetails, VecTableDetails};
