use vstd::prelude::*;

verus! {

/// One deprecated (or removed) API of the published lists: the `kind` it
/// serves, the `group`/`version` that replaces it, whether it was removed
/// outright (`removed == "true"`), and the Kubernetes release it belongs to.
#[derive(Clone, Debug)]
pub struct DepreApi {
    pub kind: String,
    pub group: String,
    pub version: String,
    pub removed: String,
    pub k8_version: Option<String>,
}

/// Mathematical model of a [`DepreApi`].
pub struct DepreApiView {
    pub kind: Seq<char>,
    pub group: Seq<char>,
    pub version: Seq<char>,
    pub removed: Seq<char>,
    pub k8_version: Option<Seq<char>>,
}

pub open spec fn opt_string_view(s: Option<String>) -> Option<Seq<char>> {
    match s {
        Some(v) => Some(v@),
        None => None,
    }
}

impl View for DepreApi {
    type V = DepreApiView;

    open spec fn view(&self) -> DepreApiView {
        DepreApiView {
            kind: self.kind@,
            group: self.group@,
            version: self.version@,
            removed: self.removed@,
            k8_version: opt_string_view(self.k8_version),
        }
    }
}

impl DeepView for DepreApi {
    type V = DepreApiView;

    open spec fn deep_view(&self) -> DepreApiView {
        self@
    }
}

/// One line of the report: a resource found with a deprecated API.
/// `namespace` holds the namespace for cluster objects and the file name
/// for manifests.
#[derive(Clone, Debug)]
pub struct TableDetails {
    pub kind: String,
    pub namespace: String,
    pub name: String,
    pub deprecated_api_version: String,
    pub supported_api_version: String,
    pub k8_version: String,
}

/// Mathematical model of a [`TableDetails`].
pub struct TableDetailsView {
    pub kind: Seq<char>,
    pub namespace: Seq<char>,
    pub name: Seq<char>,
    pub deprecated_api_version: Seq<char>,
    pub supported_api_version: Seq<char>,
    pub k8_version: Seq<char>,
}

impl View for TableDetails {
    type V = TableDetailsView;

    open spec fn view(&self) -> TableDetailsView {
        TableDetailsView {
            kind: self.kind@,
            namespace: self.namespace@,
            name: self.name@,
            deprecated_api_version: self.deprecated_api_version@,
            supported_api_version: self.supported_api_version@,
            k8_version: self.k8_version@,
        }
    }
}

impl DeepView for TableDetails {
    type V = TableDetailsView;

    open spec fn deep_view(&self) -> TableDetailsView {
        self@
    }
}

impl Default for TableDetails {
    fn default() -> (d: TableDetails)
        ensures
            d@.kind.len() == 0,
            d@.namespace.len() == 0,
            d@.name.len() == 0,
            d@.deprecated_api_version.len() == 0,
            d@.supported_api_version.len() == 0,
            d@.k8_version.len() == 0,
    {
        TableDetails {
            kind: String::new(),
            namespace: String::new(),
            name: String::new(),
            deprecated_api_version: String::new(),
            supported_api_version: String::new(),
            k8_version: String::new(),
        }
    }
}

/// The rows of a report.
pub struct VecTableDetails(pub Vec<TableDetails>);

impl View for VecTableDetails {
    type V = Seq<TableDetailsView>;

    open spec fn view(&self) -> Seq<TableDetailsView> {
        self.0.deep_view()
    }
}

/// The part of a `kubectl.kubernetes.io/last-applied-configuration`
/// annotation that the cluster scan reads.
#[derive(Clone, Debug)]
pub struct JsonDetails {
    pub api_version: String,
}

/// The report formats.
#[derive(Copy, Clone, Debug, PartialEq, Eq, Structural, PartialOrd, Ord)]
pub enum Output {
    Table,
    Junit,
    Csv,
}

/// Where the resources are looked for: in the cluster, or in the manifest
/// files under a directory. The `&str` is the title of the report's second
/// column.
#[derive(Clone, Debug, PartialEq, Eq, PartialOrd, Ord)]
pub enum Scrape<'a> {
    Cluster(&'a str),
    Dir(String, &'a str),
}

} // verus!
