use vstd::prelude::*;
use vstd::string::StringExecFns;

use crate::text::{is_comma_split, split_commas};
use crate::types::{opt_string_view, DepreApi, DepreApiView, Scrape};

verus! {

/// Where the list of APIs deprecated in Kubernetes `version` is published.
pub open spec fn api_list_url(version: Seq<char>) -> Seq<char> {
    "https://raw.githubusercontent.com/maheshrayas/k8s_deprecated_api/main/v"@ + version
        + "/data.json"@
}

/// The address of the list of APIs deprecated in Kubernetes `version`.
pub fn deprecated_api_url(version: &str) -> (url: String)
    ensures
        url@ == api_list_url(version@),
{
    let mut url = String::from_str(
        "https://raw.githubusercontent.com/maheshrayas/k8s_deprecated_api/main/v",
    );
    url.append(version);
    url.append("/data.json");
    url
}

/// Distinct Kubernetes versions are looked up at distinct addresses.
pub proof fn lemma_api_list_url_injective(v1: Seq<char>, v2: Seq<char>)
    requires
        api_list_url(v1) == api_list_url(v2),
    ensures
        v1 == v2,
{
    let p = "https://raw.githubusercontent.com/maheshrayas/k8s_deprecated_api/main/v"@;
    let s = "/data.json"@;
    let u1 = api_list_url(v1);
    let u2 = api_list_url(v2);
    assert(u1.len() == u2.len());
    assert(v1.len() == v2.len());
    assert(v1 =~= u1.subrange(p.len() as int, (p.len() + v1.len()) as int));
    assert(v2 =~= u2.subrange(p.len() as int, (p.len() + v2.len()) as int));
}

/// The entries `apis` of the list published for `version`, each marked with
/// that version.
pub open spec fn with_version(apis: Seq<DepreApiView>, version: Seq<char>) -> Seq<DepreApiView> {
    apis.map_values(|a: DepreApiView| DepreApiView { k8_version: Some(version), ..a })
}

/// The deprecated APIs of all versions: for each `(version, list)` in turn,
/// the entries of its list marked with that version.
pub open spec fn api_catalog(lists: Seq<(Seq<char>, Seq<DepreApiView>)>) -> Seq<DepreApiView>
    decreases lists.len(),
{
    if lists.len() == 0 {
        Seq::empty()
    } else {
        api_catalog(lists.drop_last()) + with_version(lists.last().1, lists.last().0)
    }
}

/// Appends to `output` the entries `fetched` of the list published for
/// `version`, each marked with that version.
pub fn push_with_version(output: &mut Vec<DepreApi>, fetched: &Vec<DepreApi>, version: &str)
    ensures
        final(output).deep_view() == old(output).deep_view() + with_version(
            fetched.deep_view(),
            version@,
        ),
{
    let n = fetched.len();
    let ghost start = output.deep_view();
    let ghost fv = fetched.deep_view();
    let mut i: usize = 0;
    while i < n
        invariant
            n == fetched.len(),
            fv == fetched.deep_view(),
            i <= n,
            output.deep_view() == start + with_version(fv.take(i as int), version@),
        decreases n - i,
    {
        let k = &fetched[i];
        let entry = DepreApi {
            kind: k.kind.clone(),
            group: k.group.clone(),
            version: k.version.clone(),
            removed: k.removed.clone(),
            k8_version: Some(String::from_str(version)),
        };
        let ghost before = output.deep_view();
        output.push(entry);
        assert(output.deep_view() =~= before.push(entry@));
        assert(with_version(fv.take(i + 1), version@) =~= with_version(fv.take(i as int), version@).push(
            entry@,
        ));
        i += 1;
    }
    assert(fv.take(n as int) =~= fv);
}

/// Gathers the deprecated APIs of several Kubernetes versions from the lists
/// published for them, `(version, list)` in the order the versions were
/// asked for; see [`api_catalog`].
pub fn get_deprecated_api(lists: &Vec<(String, Vec<DepreApi>)>) -> (output: Vec<DepreApi>)
    ensures
        output.deep_view() == api_catalog(lists.deep_view()),
{
    let mut output: Vec<DepreApi> = Vec::new();
    let n = lists.len();
    let ghost lv = lists.deep_view();
    let mut i: usize = 0;
    while i < n
        invariant
            n == lists.len(),
            lv == lists.deep_view(),
            i <= n,
            output.deep_view() == api_catalog(lv.take(i as int)),
        decreases n - i,
    {
        let (version, fetched) = &lists[i];
        push_with_version(&mut output, fetched, version.as_str());
        assert(lv.take(i + 1).drop_last() =~= lv.take(i as int));
        assert(lv.take(i + 1).last() == lv[i as int]);
        i += 1;
    }
    assert(lv.take(n as int) =~= lv);
    output
}

/// Every entry gathered by [`get_deprecated_api`] carries a Kubernetes
/// version, and there are as many as the lists hold together.
pub proof fn lemma_api_catalog_tagged(lists: Seq<(Seq<char>, Seq<DepreApiView>)>)
    ensures
        forall|i: int|
            0 <= i < api_catalog(lists).len() ==> (#[trigger] api_catalog(lists)[i]).k8_version
                is Some,
        api_catalog(lists).len() == total_entries(lists),
    decreases lists.len(),
{
    if lists.len() > 0 {
        lemma_api_catalog_tagged(lists.drop_last());
        let prev = api_catalog(lists.drop_last());
        let last = with_version(lists.last().1, lists.last().0);
        assert forall|i: int| 0 <= i < api_catalog(lists).len() implies (#[trigger] api_catalog(
            lists,
        )[i]).k8_version is Some by {
            if i < prev.len() {
                assert(api_catalog(lists)[i] == prev[i]);
            } else {
                assert(api_catalog(lists)[i] == last[i - prev.len()]);
            }
        }
    }
}

/// How many entries the lists hold together.
pub open spec fn total_entries(lists: Seq<(Seq<char>, Seq<DepreApiView>)>) -> nat
    decreases lists.len(),
{
    if lists.len() == 0 {
        0
    } else {
        total_entries(lists.drop_last()) + lists.last().1.len()
    }
}

/// The Kubernetes versions looked at when none is asked for.
pub open spec fn default_versions_spec() -> Seq<Seq<char>> {
    seq!["1.16"@, "1.22"@, "1.25"@, "1.26"@, "1.27"@, "custom"@]
}

/// The Kubernetes versions looked at when none is asked for: 1.16, 1.22,
/// 1.25, 1.26, 1.27 and custom.
pub fn default_versions() -> (v: Vec<String>)
    ensures
        v.deep_view() == default_versions_spec(),
{
    let mut v: Vec<String> = Vec::new();
    v.push(String::from_str("1.16"));
    v.push(String::from_str("1.22"));
    v.push(String::from_str("1.25"));
    v.push(String::from_str("1.26"));
    v.push(String::from_str("1.27"));
    v.push(String::from_str("custom"));
    assert(v.deep_view() =~= default_versions_spec());
    v
}

/// The Kubernetes versions to look at: those of the comma-separated
/// `target_version` when given, the default ones otherwise.
pub fn target_versions(target_version: &Option<String>) -> (v: Vec<String>)
    ensures
        match target_version {
            Some(t) => is_comma_split(t@, v.deep_view()),
            None => v.deep_view() == default_versions_spec(),
        },
{
    match target_version {
        Some(t) => split_commas(t.as_str()),
        None => default_versions(),
    }
}

/// Where to look: in the manifests under `file` when given, in the cluster
/// otherwise. The second column of the report reads `Filename` for
/// manifests and `Namespace` for the cluster.
pub fn check_scrape_type(file: &Option<String>) -> (s: Scrape<'static>)
    ensures
        match file {
            Some(d) => s matches Scrape::Dir(dir, col) && dir@ == d@ && col@ == "Filename"@,
            None => s matches Scrape::Cluster(col) && col@ == "Namespace"@,
        },
{
    match file {
        Some(d) => Scrape::Dir(d.clone(), "Filename"),
        None => Scrape::Cluster("Namespace"),
    }
}

/// Marking the entries of a list with its version keeps each entry's kind,
/// group, version and removal mark, in order, and sets its Kubernetes
/// version.
pub proof fn lemma_with_version_keeps_entries(apis: Seq<DepreApiView>, version: Seq<char>)
    ensures
        with_version(apis, version).len() == apis.len(),
        forall|i: int|
            0 <= i < apis.len() ==> #[trigger] with_version(apis, version)[i] == (DepreApiView {
                kind: apis[i].kind,
                group: apis[i].group,
                version: apis[i].version,
                removed: apis[i].removed,
                k8_version: Some(version),
            }),
{
}

/// Every gathered entry is an entry of one of the fetched lists, unchanged
/// but for its Kubernetes version, which is that list's version.
pub proof fn lemma_api_catalog_keeps_entries(lists: Seq<(Seq<char>, Seq<DepreApiView>)>)
    ensures
        forall|j: int|
            0 <= j < api_catalog(lists).len() ==> exists|l: int, i: int|
                0 <= l < lists.len() && 0 <= i < lists[l].1.len() && #[trigger] api_catalog(lists)[j]
                    == (DepreApiView {
                    kind: lists[l].1[i].kind,
                    group: lists[l].1[i].group,
                    version: lists[l].1[i].version,
                    removed: lists[l].1[i].removed,
                    k8_version: Some(lists[l].0),
                }),
    decreases lists.len(),
{
    if lists.len() > 0 {
        let prev = lists.drop_last();
        lemma_api_catalog_keeps_entries(prev);
        let last = lists.last();
        lemma_with_version_keeps_entries(last.1, last.0);
        let pc = api_catalog(prev);
        assert forall|j: int| 0 <= j < api_catalog(lists).len() implies exists|l: int, i: int|
            0 <= l < lists.len() && 0 <= i < lists[l].1.len() && #[trigger] api_catalog(lists)[j]
                == (DepreApiView {
                kind: lists[l].1[i].kind,
                group: lists[l].1[i].group,
                version: lists[l].1[i].version,
                removed: lists[l].1[i].removed,
                k8_version: Some(lists[l].0),
            }) by {
            if j < pc.len() {
                assert(api_catalog(lists)[j] == pc[j]);
                let (l, i) = choose|l: int, i: int|
                    0 <= l < prev.len() && 0 <= i < prev[l].1.len() && #[trigger] pc[j]
                        == (DepreApiView {
                        kind: prev[l].1[i].kind,
                        group: prev[l].1[i].group,
                        version: prev[l].1[i].version,
                        removed: prev[l].1[i].removed,
                        k8_version: Some(prev[l].0),
                    });
                assert(prev[l] == lists[l]);
            } else {
                let i = j - pc.len();
                let l = lists.len() - 1;
                assert(lists[l] == last);
                assert(api_catalog(lists)[j] == with_version(last.1, last.0)[i]);
            }
        }
    }
}

} // verus!
