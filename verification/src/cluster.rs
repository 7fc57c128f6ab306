use vstd::prelude::*;
use vstd::string::StringExecFns;

use crate::manifest::{is_removed, supported_version};
use crate::types::{DepreApi, DepreApiView, JsonDetails, TableDetails, TableDetailsView};

verus! {

/// What the cluster scan reads of one object found for a deprecated API:
/// its name, its namespace (empty for cluster-scoped objects) and, where the
/// object carries a `kubectl.kubernetes.io/last-applied-configuration`
/// annotation, that annotation as parsed.
#[derive(Clone, Debug)]
pub struct ClusterItem {
    pub name: String,
    pub namespace: String,
    pub last_applied: Option<JsonDetails>,
}

/// Model of a [`ClusterItem`]: name, namespace, and the `apiVersion` of the
/// last applied configuration.
pub struct ClusterItemView {
    pub name: Seq<char>,
    pub namespace: Seq<char>,
    pub last_applied_version: Option<Seq<char>>,
}

impl View for ClusterItem {
    type V = ClusterItemView;

    open spec fn view(&self) -> ClusterItemView {
        ClusterItemView {
            name: self.name@,
            namespace: self.namespace@,
            last_applied_version: match self.last_applied {
                Some(j) => Some(j.api_version@),
                None => None,
            },
        }
    }
}

impl DeepView for ClusterItem {
    type V = ClusterItemView;

    open spec fn deep_view(&self) -> ClusterItemView {
        self@
    }
}

/// The row that object `item`, found for the deprecated API `api` under the
/// resource kind `resource_kind`, gives: every object of a removed API is
/// reported, with `REMOVED` for both versions; an object of a deprecated API
/// is reported when it was last applied with another version than the
/// supported `group/version`; other objects are not reported.
pub open spec fn item_row(api: DepreApiView, resource_kind: Seq<char>, item: ClusterItemView) -> Option<
    TableDetailsView,
> {
    if is_removed(api) {
        Some(
            TableDetailsView {
                kind: resource_kind,
                namespace: item.namespace,
                name: item.name,
                deprecated_api_version: "REMOVED"@,
                supported_api_version: "REMOVED"@,
                k8_version: api.k8_version.unwrap(),
            },
        )
    } else {
        match item.last_applied_version {
            Some(v) => if v != supported_version(api) {
                Some(
                    TableDetailsView {
                        kind: resource_kind,
                        namespace: item.namespace,
                        name: item.name,
                        deprecated_api_version: v,
                        supported_api_version: supported_version(api),
                        k8_version: api.k8_version.unwrap(),
                    },
                )
            } else {
                None
            },
            None => None,
        }
    }
}

/// The rows of the objects `items`, in order.
pub open spec fn items_report(
    api: DepreApiView,
    resource_kind: Seq<char>,
    items: Seq<ClusterItemView>,
) -> Seq<TableDetailsView>
    decreases items.len(),
{
    if items.len() == 0 {
        Seq::empty()
    } else {
        items_report(api, resource_kind, items.drop_last()) + match item_row(
            api,
            resource_kind,
            items.last(),
        ) {
            Some(row) => seq![row],
            None => Seq::empty(),
        }
    }
}

/// What looking up one deprecated API in the cluster gave: the resource kind
/// that discovery found for it, and the objects listed under it.
#[derive(Clone, Debug)]
pub struct ClusterListing {
    pub resource_kind: String,
    pub items: Vec<ClusterItem>,
}

impl View for ClusterListing {
    type V = (Seq<char>, Seq<ClusterItemView>);

    open spec fn view(&self) -> (Seq<char>, Seq<ClusterItemView>) {
        (self.resource_kind@, self.items.deep_view())
    }
}

impl DeepView for ClusterListing {
    type V = (Seq<char>, Seq<ClusterItemView>);

    open spec fn deep_view(&self) -> (Seq<char>, Seq<ClusterItemView>) {
        self@
    }
}

/// The report of a cluster: for each deprecated API of `apis` in turn, the
/// rows of the objects listed for it, and none where its kind could not be
/// discovered or its objects not listed (`None`).
pub open spec fn cluster_report(
    apis: Seq<DepreApiView>,
    listings: Seq<Option<(Seq<char>, Seq<ClusterItemView>)>>,
) -> Seq<TableDetailsView>
    decreases listings.len(),
{
    if listings.len() == 0 {
        Seq::empty()
    } else {
        cluster_report(apis, listings.drop_last()) + match listings.last() {
            Some(l) => items_report(apis[listings.len() - 1], l.0, l.1),
            None => Seq::empty(),
        }
    }
}

/// The scan of a cluster against the deprecated APIs `deprecated_api_result`.
pub struct Cluster {
    pub deprecated_api_result: Vec<DepreApi>,
}

impl Cluster {
    pub fn new(deprecated_api_result: Vec<DepreApi>) -> (c: Cluster)
        ensures
            c.deprecated_api_result.deep_view() == deprecated_api_result.deep_view(),
    {
        Cluster { deprecated_api_result }
    }

    /// The row of one object; see [`item_row`].
    pub fn find_deprecated_api_in_item(api: &DepreApi, resource_kind: &str, item: &ClusterItem) -> (r:
        Option<TableDetails>)
        requires
            api@.k8_version is Some,
        ensures
            match r {
                Some(row) => item_row(api@, resource_kind@, item@) == Some(row@),
                None => item_row(api@, resource_kind@, item@) is None,
            },
    {
        let k8 = api.k8_version.as_ref().unwrap().clone();
        if api.removed == String::from_str("true") {
            let removed_text = String::from_str("REMOVED");
            return Some(
                TableDetails {
                    kind: String::from_str(resource_kind),
                    namespace: item.namespace.clone(),
                    name: item.name.clone(),
                    deprecated_api_version: removed_text.clone(),
                    supported_api_version: removed_text,
                    k8_version: k8,
                },
            );
        }
        match &item.last_applied {
            Some(last) => {
                let mut supported = api.group.clone();
                supported.append("/");
                supported.append(api.version.as_str());
                if last.api_version != supported {
                    Some(
                        TableDetails {
                            kind: String::from_str(resource_kind),
                            namespace: item.namespace.clone(),
                            name: item.name.clone(),
                            deprecated_api_version: last.api_version.clone(),
                            supported_api_version: supported,
                            k8_version: k8,
                        },
                    )
                } else {
                    None
                }
            },
            None => None,
        }
    }

    /// The report of the cluster from what looking up each deprecated API
    /// gave, `listings[i]` for `deprecated_api_result[i]`; see
    /// [`cluster_report`].
    pub fn find_deprecated_api_in_cluster(&self, listings: &Vec<Option<ClusterListing>>) -> (rows: Vec<
        TableDetails,
    >)
        requires
            listings.len() == self.deprecated_api_result.len(),
            forall|i: int|
                0 <= i < self.deprecated_api_result.len() ==> (
                #[trigger] self.deprecated_api_result.deep_view()[i]).k8_version is Some,
        ensures
            rows.deep_view() == cluster_report(
                self.deprecated_api_result.deep_view(),
                listings.deep_view(),
            ),
    {
        let ghost apis = self.deprecated_api_result.deep_view();
        let ghost lv = listings.deep_view();
        let mut rows: Vec<TableDetails> = Vec::new();
        let n = listings.len();
        let mut i: usize = 0;
        while i < n
            invariant
                n == listings.len(),
                n == apis.len(),
                apis == self.deprecated_api_result.deep_view(),
                lv == listings.deep_view(),
                forall|j: int| 0 <= j < apis.len() ==> (#[trigger] apis[j]).k8_version is Some,
                i <= n,
                rows.deep_view() == cluster_report(apis, lv.take(i as int)),
            decreases n - i,
        {
            assert(lv.take(i + 1).drop_last() =~= lv.take(i as int));
            assert(lv.take(i + 1).last() == lv[i as int]);
            match &listings[i] {
                Some(l) => {
                    assert(apis[i as int].k8_version is Some);
                    let mut found = Self::find_deprecated_api_in_items(
                        &self.deprecated_api_result[i],
                        l.resource_kind.as_str(),
                        &l.items,
                    );
                    let ghost before = rows.deep_view();
                    let ghost added = found.deep_view();
                    rows.append(&mut found);
                    assert(rows.deep_view() =~= before + added);
                },
                None => {
                    assert(cluster_report(apis, lv.take(i + 1)) =~= cluster_report(
                        apis,
                        lv.take(i as int),
                    ));
                },
            }
            i += 1;
        }
        assert(lv.take(n as int) =~= lv);
        rows
    }

    /// The rows of the objects `items` found for the deprecated API `api`
    /// under the resource kind `resource_kind`, in order.
    pub fn find_deprecated_api_in_items(
        api: &DepreApi,
        resource_kind: &str,
        items: &Vec<ClusterItem>,
    ) -> (rows: Vec<TableDetails>)
        requires
            api@.k8_version is Some,
        ensures
            rows.deep_view() == items_report(api@, resource_kind@, items.deep_view()),
    {
        let mut rows: Vec<TableDetails> = Vec::new();
        let n = items.len();
        let mut i: usize = 0;
        while i < n
            invariant
                n == items.len(),
                api@.k8_version is Some,
                i <= n,
                rows.deep_view() == items_report(
                    api@,
                    resource_kind@,
                    items.deep_view().take(i as int),
                ),
            decreases n - i,
        {
            let ghost iv = items.deep_view();
            assert(iv.take(i + 1).drop_last() =~= iv.take(i as int));
            assert(iv.take(i + 1).last() == iv[i as int]);
            let ghost before = rows.deep_view();
            match Self::find_deprecated_api_in_item(api, resource_kind, &items[i]) {
                Some(row) => {
                    rows.push(row);
                    assert(rows.deep_view() =~= before + seq![row@]);
                },
                None => {},
            }
            i += 1;
        }
        assert(items.deep_view().take(n as int) =~= items.deep_view());
        rows
    }
}

/// Every object found for a removed API is reported, in order, with
/// `REMOVED` for both versions.
pub proof fn lemma_removed_api_reports_every_object(
    api: DepreApiView,
    resource_kind: Seq<char>,
    items: Seq<ClusterItemView>,
)
    requires
        is_removed(api),
    ensures
        items_report(api, resource_kind, items).len() == items.len(),
        forall|i: int|
            0 <= i < items.len() ==> {
                let row = #[trigger] items_report(api, resource_kind, items)[i];
                &&& row.name == items[i].name
                &&& row.namespace == items[i].namespace
                &&& row.deprecated_api_version == "REMOVED"@
                &&& row.supported_api_version == "REMOVED"@
            },
    decreases items.len(),
{
    if items.len() > 0 {
        lemma_removed_api_reports_every_object(api, resource_kind, items.drop_last());
        let prev = items_report(api, resource_kind, items.drop_last());
        let all = items_report(api, resource_kind, items);
        assert forall|i: int| 0 <= i < items.len() implies {
            let row = #[trigger] all[i];
            &&& row.name == items[i].name
            &&& row.namespace == items[i].namespace
            &&& row.deprecated_api_version == "REMOVED"@
            &&& row.supported_api_version == "REMOVED"@
        } by {
            if i < prev.len() {
                assert(all[i] == prev[i]);
                assert(items.drop_last()[i] == items[i]);
            }
        }
    }
}

/// Objects of a deprecated (not removed) API that carry no last applied
/// configuration, or were last applied with the supported `group/version`,
/// are not reported.
pub proof fn lemma_supported_objects_are_not_reported(
    api: DepreApiView,
    resource_kind: Seq<char>,
    items: Seq<ClusterItemView>,
)
    requires
        !is_removed(api),
        forall|i: int|
            0 <= i < items.len() ==> match (#[trigger] items[i]).last_applied_version {
                Some(v) => v == supported_version(api),
                None => true,
            },
    ensures
        items_report(api, resource_kind, items).len() == 0,
    decreases items.len(),
{
    if items.len() > 0 {
        assert(items.last() == items[items.len() - 1]);
        assert forall|i: int| 0 <= i < items.drop_last().len() implies match (
        #[trigger] items.drop_last()[i]).last_applied_version {
            Some(v) => v == supported_version(api),
            None => true,
        } by {
            assert(items.drop_last()[i] == items[i]);
        }
        lemma_supported_objects_are_not_reported(api, resource_kind, items.drop_last());
    }
}

/// An object of a deprecated, not removed, API whose last applied
/// `apiVersion` differs from the API's `group/version` gives exactly one
/// row, whatever its namespace and name: the resource kind, its namespace
/// and name, its last applied version as the deprecated one, the API's
/// `group/version` as the supported one, and the API's Kubernetes version.
pub proof fn lemma_outdated_object_is_reported(
    api: DepreApiView,
    resource_kind: Seq<char>,
    item: ClusterItemView,
    v: Seq<char>,
)
    requires
        api.removed != "true"@,
        item.last_applied_version == Some(v),
        v != api.group + "/"@ + api.version,
    ensures
        item_row(api, resource_kind, item) == Some(
            TableDetailsView {
                kind: resource_kind,
                namespace: item.namespace,
                name: item.name,
                deprecated_api_version: v,
                supported_api_version: api.group + "/"@ + api.version,
                k8_version: api.k8_version.unwrap(),
            },
        ),
{
}

/// Whether an object is reported depends on its last applied version only,
/// not on its namespace or its name.
pub proof fn lemma_report_ignores_namespace_and_name(
    api: DepreApiView,
    resource_kind: Seq<char>,
    a: ClusterItemView,
    b: ClusterItemView,
)
    requires
        a.last_applied_version == b.last_applied_version,
    ensures
        item_row(api, resource_kind, a) is Some <==> item_row(api, resource_kind, b) is Some,
{
}

} // verus!
