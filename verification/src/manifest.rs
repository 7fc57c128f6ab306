use vstd::prelude::*;
use vstd::string::StrSliceExecFns;
use vstd::string::StringExecFns;

use yaml_rust::scanner::TokenType;

use crate::text::same_text;
use crate::types::{opt_string_view, DepreApi, DepreApiView, TableDetails, TableDetailsView};

verus! {

/// What the scan reads of one YAML document of a manifest: its
/// `apiVersion`, its `kind` and its `metadata.name`, each present only when
/// the document holds it as a YAML string.
#[derive(Clone, Debug)]
pub struct ManifestDoc {
    pub api_version: Option<String>,
    pub kind: Option<String>,
    pub name: Option<String>,
}

/// `file_name` has the extension `yaml`, as `Path::extension` reads it:
/// the part after the last dot, where that dot is not the first character.
pub open spec fn has_yaml_extension(file_name: Seq<char>) -> bool {
    file_name.len() > 5 && file_name.subrange(file_name.len() - 5, file_name.len() as int)
        == ".yaml"@
}

/// Whether the file `file_name` is a manifest that the scan reads.
pub fn is_yaml_file(file_name: &str) -> (r: bool)
    ensures
        r == has_yaml_extension(file_name@),
{
    let n = file_name.unicode_len();
    if n <= 5 {
        return false;
    }
    same_text(file_name.substring_char(n - 5, n), ".yaml")
}

/// How deep the collections of a manifest may nest, counted in the tokens
/// that open and close them.
pub const MAX_TOKEN_NESTING: usize = 350;

/// The kinds of YAML tokens that matter for nesting: those that open a
/// collection, those that close one, and all others.
#[derive(Clone, Copy, Debug, PartialEq, Eq, Structural)]
pub enum YamlTokenKind {
    BlockSequenceStart,
    BlockMappingStart,
    FlowSequenceStart,
    FlowMappingStart,
    BlockEnd,
    FlowSequenceEnd,
    FlowMappingEnd,
    Other,
}

pub open spec fn opens_collection(t: YamlTokenKind) -> bool {
    t == YamlTokenKind::BlockSequenceStart || t == YamlTokenKind::BlockMappingStart || t
        == YamlTokenKind::FlowSequenceStart || t == YamlTokenKind::FlowMappingStart
}

pub open spec fn closes_collection(t: YamlTokenKind) -> bool {
    t == YamlTokenKind::BlockEnd || t == YamlTokenKind::FlowSequenceEnd || t
        == YamlTokenKind::FlowMappingEnd
}

/// How many collections are open after the tokens `ts` (a close with none
/// open counts as nothing).
pub open spec fn token_depth(ts: Seq<YamlTokenKind>) -> nat
    decreases ts.len(),
{
    if ts.len() == 0 {
        0
    } else {
        let d = token_depth(ts.drop_last());
        if opens_collection(ts.last()) {
            d + 1
        } else if closes_collection(ts.last()) && d > 0 {
            (d - 1) as nat
        } else {
            d
        }
    }
}

/// The collections of the token stream `ts` never nest deeper than
/// [`MAX_TOKEN_NESTING`].
///
/// The YAML loader recurses once per collection that it is inside. Each
/// collection comes from a token that opens it, except an indentless
/// sequence (at most one inside each block mapping) and a single-pair
/// mapping inside a flow sequence (at most one inside each flow sequence).
/// So the loader stays within `2 * MAX_TOKEN_NESTING + 1` levels.
pub open spec fn token_nesting_fits(ts: Seq<YamlTokenKind>) -> bool {
    forall|k: int| 0 <= k <= ts.len() ==> #[trigger] token_depth(ts.take(k)) <= MAX_TOKEN_NESTING
}

/// The tokens that `yaml_rust::scanner::Scanner` yields for the text
/// `source`, up to its end or to the first scan error, each reduced to its
/// [`YamlTokenKind`].
pub uninterp spec fn yaml_tokens(source: Seq<char>) -> Seq<YamlTokenKind>;

/// Runs `yaml_rust::scanner::Scanner` over `source` (the scanner loops
/// without recursion and stops at the first scan error) and tells apart the
/// kind of each token it yields. Its contract claims that the result is the
/// one that [`yaml_tokens`] names for `source`.
#[verifier::external_body]
fn scan_tokens(source: &str) -> (r: Vec<YamlTokenKind>)
    ensures
        r@ == yaml_tokens(source@),
{
    yaml_rust::scanner::Scanner::new(source.chars()).map(|t| match t.1 {
        TokenType::BlockSequenceStart => YamlTokenKind::BlockSequenceStart,
        TokenType::BlockMappingStart => YamlTokenKind::BlockMappingStart,
        TokenType::FlowSequenceStart => YamlTokenKind::FlowSequenceStart,
        TokenType::FlowMappingStart => YamlTokenKind::FlowMappingStart,
        TokenType::BlockEnd => YamlTokenKind::BlockEnd,
        TokenType::FlowSequenceEnd => YamlTokenKind::FlowSequenceEnd,
        TokenType::FlowMappingEnd => YamlTokenKind::FlowMappingEnd,
        _ => YamlTokenKind::Other,
    }).collect()
}

/// Whether the collections of the text `text` nest within
/// [`MAX_TOKEN_NESTING`], so that the YAML loader can follow them.
pub fn yaml_nesting_fits(text: &str) -> (r: bool)
    ensures
        r == token_nesting_fits(yaml_tokens(text@)),
{
    let ts = scan_tokens(text);
    let n = ts.len();
    let ghost tv = ts@;
    let mut depth: usize = 0;
    let mut k: usize = 0;
    while k < n
        invariant
            n == tv.len(),
            tv == ts@,
            tv == yaml_tokens(text@),
            k <= n,
            depth == token_depth(tv.take(k as int)),
            depth <= MAX_TOKEN_NESTING,
            forall|j: int| 0 <= j <= k ==> #[trigger] token_depth(tv.take(j)) <= MAX_TOKEN_NESTING,
        decreases n - k,
    {
        assert(tv.take(k + 1).drop_last() =~= tv.take(k as int));
        assert(tv.take(k + 1).last() == tv[k as int]);
        let t = ts[k];
        match t {
            YamlTokenKind::BlockSequenceStart | YamlTokenKind::BlockMappingStart
            | YamlTokenKind::FlowSequenceStart | YamlTokenKind::FlowMappingStart => {
                depth = depth + 1;
            },
            YamlTokenKind::BlockEnd | YamlTokenKind::FlowSequenceEnd
            | YamlTokenKind::FlowMappingEnd => {
                if depth > 0 {
                    depth = depth - 1;
                }
            },
            YamlTokenKind::Other => {},
        }
        assert(depth == token_depth(tv.take(k + 1)));
        if depth > MAX_TOKEN_NESTING {
            return false;
        }
        k += 1;
    }
    assert(tv.take(n as int) =~= tv);
    true
}

/// Model of a [`ManifestDoc`]: `(apiVersion, kind, metadata.name)`.
pub type ManifestDocView = (Option<Seq<char>>, Option<Seq<char>>, Option<Seq<char>>);

impl View for ManifestDoc {
    type V = ManifestDocView;

    open spec fn view(&self) -> ManifestDocView {
        (opt_string_view(self.api_version), opt_string_view(self.kind), opt_string_view(self.name))
    }
}

impl DeepView for ManifestDoc {
    type V = ManifestDocView;

    open spec fn deep_view(&self) -> ManifestDocView {
        self@
    }
}

/// The `group/version` that replaces a deprecated API.
pub open spec fn supported_version(z: DepreApiView) -> Seq<char> {
    z.group + "/"@ + z.version
}

/// The API was removed outright rather than deprecated.
pub open spec fn is_removed(z: DepreApiView) -> bool {
    z.removed == "true"@
}

/// Entry `z` of the list reports a document of kind `kind` whose API version
/// currently reads `current`.
pub open spec fn emits(z: DepreApiView, kind: Seq<char>, current: Seq<char>) -> bool {
    z.kind == kind && (is_removed(z) || supported_version(z) != current)
}

/// The API version that a document of kind `kind` and API version
/// `api_version` is compared with after the entries `apis` were examined:
/// once a removed API of that kind was met, it reads `REMOVED`.
pub open spec fn version_after(apis: Seq<DepreApiView>, kind: Seq<char>, api_version: Seq<char>) -> Seq<
    char,
>
    decreases apis.len(),
{
    if apis.len() == 0 {
        api_version
    } else if apis.last().kind == kind && is_removed(apis.last()) {
        "REMOVED"@
    } else {
        version_after(apis.drop_last(), kind, api_version)
    }
}

/// The row that entry `z` gives for a document of the given kind, current
/// API version, name and file.
pub open spec fn doc_row(
    z: DepreApiView,
    kind: Seq<char>,
    current: Seq<char>,
    name: Seq<char>,
    file: Seq<char>,
) -> TableDetailsView {
    TableDetailsView {
        kind: kind,
        namespace: file,
        name: name,
        deprecated_api_version: if is_removed(z) {
            "REMOVED"@
        } else {
            current
        },
        supported_api_version: if is_removed(z) {
            "REMOVED"@
        } else {
            supported_version(z)
        },
        k8_version: z.k8_version.unwrap(),
    }
}

/// The rows that the entries `apis`, examined in order, give for one
/// document.
pub open spec fn doc_rows(
    apis: Seq<DepreApiView>,
    kind: Seq<char>,
    api_version: Seq<char>,
    name: Seq<char>,
    file: Seq<char>,
) -> Seq<TableDetailsView>
    decreases apis.len(),
{
    if apis.len() == 0 {
        Seq::empty()
    } else {
        let current = version_after(apis.drop_last(), kind, api_version);
        doc_rows(apis.drop_last(), kind, api_version, name, file) + if emits(
            apis.last(),
            kind,
            current,
        ) {
            seq![doc_row(apis.last(), kind, current, name, file)]
        } else {
            Seq::empty()
        }
    }
}

pub open spec fn name_or_empty(name: Option<Seq<char>>) -> Seq<char> {
    match name {
        Some(n) => n,
        None => Seq::empty(),
    }
}

/// The rows reported for document `doc` of file `file`: none when it has no
/// `apiVersion`.
pub open spec fn doc_report(apis: Seq<DepreApiView>, doc: ManifestDocView, file: Seq<char>) -> Seq<
    TableDetailsView,
> {
    match doc.0 {
        Some(av) => doc_rows(apis, doc.1.unwrap(), av, name_or_empty(doc.2), file),
        None => Seq::empty(),
    }
}

/// The document can be scanned: a document with an `apiVersion` has a
/// `kind` (when there is any entry to compare it with), and every entry that
/// reports it has a Kubernetes version and finds the document's name.
pub open spec fn doc_scannable(apis: Seq<DepreApiView>, doc: ManifestDocView) -> bool {
    doc.0 is Some ==> {
        &&& apis.len() > 0 ==> doc.1 is Some
        &&& forall|i: int|
            #![trigger apis[i]]
            0 <= i < apis.len() && emits(
                apis[i],
                doc.1.unwrap(),
                version_after(apis.take(i), doc.1.unwrap(), doc.0.unwrap()),
            ) ==> doc.2 is Some && apis[i].k8_version is Some
    }
}

/// The scan of manifest files under `file_dir` against the deprecated APIs
/// `deprecated_apis`.
pub struct FileSystem {
    pub file_dir: String,
    pub deprecated_apis: Vec<DepreApi>,
}

impl FileSystem {
    pub fn new(file_dir: String, deprecated_apis: Vec<DepreApi>) -> (fs: FileSystem)
        ensures
            fs.file_dir@ == file_dir@,
            fs.deprecated_apis.deep_view() == deprecated_apis.deep_view(),
    {
        FileSystem { file_dir, deprecated_apis }
    }

    /// The rows that one document of the file `file_name` gives: for each
    /// deprecated API of the document's kind, in order, a row when the API
    /// was removed (both versions read `REMOVED`, and so does the document's
    /// version from then on) or when the document's version differs from the
    /// supported `group/version`.
    pub fn find_deprecated_api(&self, doc: &ManifestDoc, file_name: &str) -> (rows: Vec<
        TableDetails,
    >)
        requires
            doc_scannable(self.deprecated_apis.deep_view(), doc@),
        ensures
            rows.deep_view() == doc_report(self.deprecated_apis.deep_view(), doc@, file_name@),
    {
        let ghost apis = self.deprecated_apis.deep_view();
        let mut rows: Vec<TableDetails> = Vec::new();
        let av0 = match &doc.api_version {
            Some(v) => v,
            None => {
                return rows;
            },
        };
        let n = self.deprecated_apis.len();
        if n == 0 {
            assert(apis.len() == 0);
            return rows;
        }
        let kind = doc.kind.as_ref().unwrap();
        let ghost name = name_or_empty(doc@.2);
        let true_text = String::from_str("true");
        let removed_text = String::from_str("REMOVED");
        let mut current: String = av0.clone();
        let mut i: usize = 0;
        while i < n
            invariant
                n == apis.len(),
                apis == self.deprecated_apis.deep_view(),
                doc_scannable(apis, doc@),
                doc@.0 == Some(av0@),
                doc@.1 == Some(kind@),
                name == name_or_empty(doc@.2),
                true_text@ == "true"@,
                removed_text@ == "REMOVED"@,
                i <= n,
                current@ == version_after(apis.take(i as int), kind@, av0@),
                rows.deep_view() == doc_rows(apis.take(i as int), kind@, av0@, name, file_name@),
            decreases n - i,
        {
            let z = &self.deprecated_apis[i];
            let ghost zv = apis[i as int];
            assert(apis.take(i + 1).drop_last() =~= apis.take(i as int));
            assert(apis.take(i + 1).last() == zv);
            if z.kind == *kind {
                let removed = z.removed == true_text;
                let mut supported = z.group.clone();
                supported.append("/");
                supported.append(z.version.as_str());
                assert(supported@ == supported_version(zv));
                if removed || supported != current {
                    assert(emits(zv, kind@, current@));
                    let name_val = doc.name.as_ref().unwrap().clone();
                    let k8 = z.k8_version.as_ref().unwrap().clone();
                    let row = if removed {
                        TableDetails {
                            kind: kind.clone(),
                            namespace: String::from_str(file_name),
                            name: name_val,
                            deprecated_api_version: removed_text.clone(),
                            supported_api_version: removed_text.clone(),
                            k8_version: k8,
                        }
                    } else {
                        TableDetails {
                            kind: kind.clone(),
                            namespace: String::from_str(file_name),
                            name: name_val,
                            deprecated_api_version: current.clone(),
                            supported_api_version: supported,
                            k8_version: k8,
                        }
                    };
                    assert(row@ == doc_row(zv, kind@, current@, name, file_name@));
                    let ghost before = rows.deep_view();
                    rows.push(row);
                    assert(rows.deep_view() =~= before.push(
                        doc_row(zv, kind@, current@, name, file_name@),
                    ));
                    if removed {
                        current = removed_text.clone();
                    }
                }
            }
            i += 1;
        }
        assert(apis.take(n as int) =~= apis);
        rows
    }

    /// Whether [`FileSystem::find_deprecated_api`] can scan `doc`.
    pub fn can_scan(&self, doc: &ManifestDoc) -> (r: bool)
        ensures
            r == doc_scannable(self.deprecated_apis.deep_view(), doc@),
    {
        let ghost apis = self.deprecated_apis.deep_view();
        let av0 = match &doc.api_version {
            Some(v) => v,
            None => {
                return true;
            },
        };
        let n = self.deprecated_apis.len();
        if n == 0 {
            return true;
        }
        let kind = match &doc.kind {
            Some(k) => k,
            None => {
                return false;
            },
        };
        let has_name = doc.name.is_some();
        let true_text = String::from_str("true");
        let removed_text = String::from_str("REMOVED");
        let mut current: String = av0.clone();
        let mut i: usize = 0;
        while i < n
            invariant
                n == apis.len(),
                apis == self.deprecated_apis.deep_view(),
                doc@.0 == Some(av0@),
                doc@.1 == Some(kind@),
                has_name == (doc@.2 is Some),
                true_text@ == "true"@,
                removed_text@ == "REMOVED"@,
                i <= n,
                current@ == version_after(apis.take(i as int), kind@, av0@),
                forall|j: int|
                    #![trigger apis[j]]
                    0 <= j < i && emits(apis[j], kind@, version_after(apis.take(j), kind@, av0@))
                        ==> has_name && apis[j].k8_version is Some,
            decreases n - i,
        {
            let z = &self.deprecated_apis[i];
            let ghost zv = apis[i as int];
            let ghost prev = current@;
            assert(apis.take(i + 1).drop_last() =~= apis.take(i as int));
            assert(apis.take(i + 1).last() == zv);
            let mut emitting = false;
            let mut removed = false;
            if z.kind == *kind {
                removed = z.removed == true_text;
                let mut supported = z.group.clone();
                supported.append("/");
                supported.append(z.version.as_str());
                emitting = removed || supported != current;
            }
            assert(emitting == emits(zv, kind@, prev));
            if emitting {
                if !has_name || z.k8_version.is_none() {
                    return false;
                }
                if removed {
                    current = removed_text.clone();
                }
            }
            assert(current@ == version_after(apis.take(i + 1), kind@, av0@));
            assert forall|j: int|
                #![trigger apis[j]]
                0 <= j < i + 1 && emits(apis[j], kind@, version_after(apis.take(j), kind@, av0@))
                    implies has_name && apis[j].k8_version is Some by {
                if j == i {
                    assert(version_after(apis.take(j), kind@, av0@) == prev);
                }
            }
            i += 1;
        }
        true
    }

    /// The rows of all documents `docs` of the file `file_name`, document
    /// after document.
    pub fn find_deprecated_api_in_docs(&self, docs: &Vec<ManifestDoc>, file_name: &str) -> (rows: Vec<
        TableDetails,
    >)
        requires
            all_scannable(self.deprecated_apis.deep_view(), docs.deep_view()),
        ensures
            rows.deep_view() == manifest_report(
                self.deprecated_apis.deep_view(),
                docs.deep_view(),
                file_name@,
            ),
    {
        let ghost apis = self.deprecated_apis.deep_view();
        let mut rows: Vec<TableDetails> = Vec::new();
        let n = docs.len();
        let mut i: usize = 0;
        while i < n
            invariant
                n == docs.len(),
                apis == self.deprecated_apis.deep_view(),
                all_scannable(apis, docs.deep_view()),
                i <= n,
                rows.deep_view() == manifest_report(apis, docs.deep_view().take(i as int), file_name@),
            decreases n - i,
        {
            let ghost dv = docs.deep_view();
            assert(doc_scannable(apis, dv[i as int]));
            let mut found = self.find_deprecated_api(&docs[i], file_name);
            let ghost before = rows.deep_view();
            let ghost added = found.deep_view();
            rows.append(&mut found);
            assert(rows.deep_view() =~= before + added);
            assert(dv.take(i + 1).drop_last() =~= dv.take(i as int));
            i += 1;
        }
        assert(docs.deep_view().take(n as int) =~= docs.deep_view());
        rows
    }

    /// Scans the manifest `contents` of the file `file_name`: parses its YAML
    /// documents and reports them in order. Fails when the text nests deeper
    /// than [`token_nesting_fits`] admits, when the YAML does not parse, or when a
    /// document cannot be scanned (it lacks the `kind` or the name that its
    /// report needs).
    pub fn scan_manifest(&self, file_name: &str, contents: &str) -> (r: Result<
        Vec<TableDetails>,
        ManifestError,
    >)
        ensures
            !token_nesting_fits(yaml_tokens(contents@)) <==> r matches Err(ManifestError::TooDeep),
            token_nesting_fits(yaml_tokens(contents@)) ==> (yaml_documents(contents@) is None <==> r matches Err(
                ManifestError::Parse(_),
            )),
            token_nesting_fits(yaml_tokens(contents@)) ==> (yaml_documents(contents@) matches Some(docs) ==> {
                &&& r is Ok <==> all_scannable(self.deprecated_apis.deep_view(), docs)
                &&& r matches Ok(rows) ==> rows.deep_view() == manifest_report(
                    self.deprecated_apis.deep_view(),
                    docs,
                    file_name@,
                )
            }),
    {
        if !yaml_nesting_fits(contents) {
            return Err(ManifestError::TooDeep);
        }
        let docs = match load_documents(contents) {
            Ok(d) => d,
            Err(e) => {
                return Err(ManifestError::Parse(e));
            },
        };
        let n = docs.len();
        let mut i: usize = 0;
        while i < n
            invariant
                n == docs.len(),
                i <= n,
                yaml_documents(contents@) == Some(docs.deep_view()),
                token_nesting_fits(yaml_tokens(contents@)),
                forall|j: int|
                    0 <= j < i ==> doc_scannable(
                        self.deprecated_apis.deep_view(),
                        #[trigger] docs.deep_view()[j],
                    ),
            decreases n - i,
        {
            if !self.can_scan(&docs[i]) {
                assert(!doc_scannable(self.deprecated_apis.deep_view(), docs.deep_view()[i as int]));
                return Err(ManifestError::Incomplete);
            }
            i += 1;
        }
        Ok(self.find_deprecated_api_in_docs(&docs, file_name))
    }
}

/// The rows of all documents `docs` of file `file`, in order.
pub open spec fn manifest_report(apis: Seq<DepreApiView>, docs: Seq<ManifestDocView>, file: Seq<char>) -> Seq<
    TableDetailsView,
>
    decreases docs.len(),
{
    if docs.len() == 0 {
        Seq::empty()
    } else {
        manifest_report(apis, docs.drop_last(), file) + doc_report(apis, docs.last(), file)
    }
}

/// Every document of `docs` can be scanned.
pub open spec fn all_scannable(apis: Seq<DepreApiView>, docs: Seq<ManifestDocView>) -> bool {
    forall|i: int| 0 <= i < docs.len() ==> doc_scannable(apis, #[trigger] docs[i])
}

/// Why a manifest could not be scanned.
pub enum ManifestError {
    /// The collections of the text nest deeper than the YAML loader can
    /// follow; see [`token_nesting_fits`].
    TooDeep,
    /// The YAML does not parse.
    Parse(yaml_rust::ScanError),
    /// A document with an `apiVersion` lacks the `kind`, or a reported
    /// document lacks its `metadata.name`, or a reporting entry of the list
    /// lacks its Kubernetes version.
    Incomplete,
}

#[verifier::external_type_specification]
#[verifier::external_body]
pub struct ExScanError(yaml_rust::ScanError);

/// The documents that `yaml_rust::YamlLoader::load_from_str` reads from the
/// text `source`, each reduced to its `apiVersion`, `kind` and
/// `metadata.name` where the document holds them as YAML strings; `None`
/// where the text does not parse.
pub uninterp spec fn yaml_documents(source: Seq<char>) -> Option<Seq<ManifestDocView>>;

/// Calls `yaml_rust::YamlLoader::load_from_str` and reads, from each
/// document, `doc["apiVersion"]`, `doc["kind"]` and `doc["metadata"]["name"]`
/// with `Yaml::as_str`. Its contract claims that the result is the one that
/// [`yaml_documents`] names for `source`; what the parse gives is not stated.
/// The loader recurses once per level of nesting with no limit of its own,
/// so the text is required to nest within [`token_nesting_fits`]; memory that
/// copies of aliased nodes may take is not bounded by it.
#[verifier::external_body]
fn load_documents(source: &str) -> (r: Result<Vec<ManifestDoc>, yaml_rust::ScanError>)
    requires
        token_nesting_fits(yaml_tokens(source@)),
    ensures
        match r {
            Ok(docs) => yaml_documents(source@) == Some(docs.deep_view()),
            Err(_) => yaml_documents(source@) is None,
        },
{
    let docs = yaml_rust::YamlLoader::load_from_str(source)?;
    Ok(docs.iter().map(|d| ManifestDoc {
        api_version: d["apiVersion"].as_str().map(String::from),
        kind: d["kind"].as_str().map(String::from),
        name: d["metadata"]["name"].as_str().map(String::from),
    }).collect())
}

/// How many entries of `apis` serve the kind `kind`.
pub open spec fn entries_of_kind(apis: Seq<DepreApiView>, kind: Seq<char>) -> nat
    decreases apis.len(),
{
    if apis.len() == 0 {
        0
    } else {
        entries_of_kind(apis.drop_last(), kind) + if apis.last().kind == kind {
            1nat
        } else {
            0nat
        }
    }
}

/// Every row reported for a document names the document's kind, its file
/// and its name.
pub proof fn lemma_doc_rows_name_the_document(
    apis: Seq<DepreApiView>,
    kind: Seq<char>,
    api_version: Seq<char>,
    name: Seq<char>,
    file: Seq<char>,
)
    ensures
        forall|i: int|
            0 <= i < doc_rows(apis, kind, api_version, name, file).len() ==> {
                let row = #[trigger] doc_rows(apis, kind, api_version, name, file)[i];
                &&& row.kind == kind
                &&& row.namespace == file
                &&& row.name == name
            },
    decreases apis.len(),
{
    if apis.len() > 0 {
        lemma_doc_rows_name_the_document(apis.drop_last(), kind, api_version, name, file);
        let prev = doc_rows(apis.drop_last(), kind, api_version, name, file);
        let all = doc_rows(apis, kind, api_version, name, file);
        assert forall|i: int| 0 <= i < all.len() implies {
            let row = #[trigger] all[i];
            &&& row.kind == kind
            &&& row.namespace == file
            &&& row.name == name
        } by {
            if i < prev.len() {
                assert(all[i] == prev[i]);
            }
        }
    }
}

/// A document gives at most one row per deprecated API of its kind, and
/// none when no deprecated API serves its kind.
pub proof fn lemma_doc_rows_at_most_one_per_entry(
    apis: Seq<DepreApiView>,
    kind: Seq<char>,
    api_version: Seq<char>,
    name: Seq<char>,
    file: Seq<char>,
)
    ensures
        doc_rows(apis, kind, api_version, name, file).len() <= entries_of_kind(apis, kind),
    decreases apis.len(),
{
    if apis.len() > 0 {
        lemma_doc_rows_at_most_one_per_entry(apis.drop_last(), kind, api_version, name, file);
    }
}

/// A document is always reported when an API of its kind was removed.
pub proof fn lemma_removed_kind_is_reported(
    apis: Seq<DepreApiView>,
    kind: Seq<char>,
    api_version: Seq<char>,
    name: Seq<char>,
    file: Seq<char>,
    i: int,
)
    requires
        0 <= i < apis.len(),
        apis[i].kind == kind,
        is_removed(apis[i]),
    ensures
        doc_rows(apis, kind, api_version, name, file).len() > 0,
    decreases apis.len(),
{
    if i < apis.len() - 1 {
        assert(apis.drop_last()[i] == apis[i]);
        lemma_removed_kind_is_reported(apis.drop_last(), kind, api_version, name, file, i);
    }
}

/// While no API of the kind was removed, the document's own version is the
/// one compared.
proof fn lemma_version_unchanged(apis: Seq<DepreApiView>, kind: Seq<char>, api_version: Seq<char>)
    requires
        forall|i: int| 0 <= i < apis.len() && (#[trigger] apis[i]).kind == kind ==> !is_removed(apis[i]),
    ensures
        version_after(apis, kind, api_version) == api_version,
    decreases apis.len(),
{
    if apis.len() > 0 {
        assert(apis.last() == apis[apis.len() - 1]);
        assert forall|i: int|
            0 <= i < apis.drop_last().len() && (#[trigger] apis.drop_last()[i]).kind == kind implies !is_removed(
            apis.drop_last()[i],
        ) by {
            assert(apis.drop_last()[i] == apis[i]);
        }
        lemma_version_unchanged(apis.drop_last(), kind, api_version);
    }
}

/// A document already on the supported `group/version` of every API of its
/// kind, none of which was removed, is not reported.
pub proof fn lemma_supported_document_is_not_reported(
    apis: Seq<DepreApiView>,
    kind: Seq<char>,
    api_version: Seq<char>,
    name: Seq<char>,
    file: Seq<char>,
)
    requires
        forall|i: int|
            0 <= i < apis.len() && (#[trigger] apis[i]).kind == kind ==> !is_removed(apis[i])
                && supported_version(apis[i]) == api_version,
    ensures
        doc_rows(apis, kind, api_version, name, file).len() == 0,
    decreases apis.len(),
{
    if apis.len() > 0 {
        assert(apis.last() == apis[apis.len() - 1]);
        assert forall|i: int|
            0 <= i < apis.drop_last().len() && (#[trigger] apis.drop_last()[i]).kind == kind implies !is_removed(
            apis.drop_last()[i],
        ) && supported_version(apis.drop_last()[i]) == api_version by {
            assert(apis.drop_last()[i] == apis[i]);
        }
        lemma_supported_document_is_not_reported(apis.drop_last(), kind, api_version, name, file);
        lemma_version_unchanged(apis.drop_last(), kind, api_version);
    }
}

/// Once an API of the document's kind was found removed, the document's
/// version reads `REMOVED` for every later entry.
proof fn lemma_version_after_removed(apis: Seq<DepreApiView>, kind: Seq<char>, api_version: Seq<char>, i: int)
    requires
        0 <= i < apis.len(),
        apis[i].kind == kind,
        is_removed(apis[i]),
    ensures
        version_after(apis, kind, api_version) == "REMOVED"@,
    decreases apis.len(),
{
    if i < apis.len() - 1 {
        assert(apis.drop_last()[i] == apis[i]);
        lemma_version_after_removed(apis.drop_last(), kind, api_version, i);
    }
}

/// Once an API of the document's kind was found removed, every later API of
/// that kind reports the document too, against the version `REMOVED`.
pub proof fn lemma_removed_entry_reports_later_entries(
    apis: Seq<DepreApiView>,
    kind: Seq<char>,
    api_version: Seq<char>,
    i: int,
    j: int,
)
    requires
        0 <= i < j < apis.len(),
        apis[i].kind == kind,
        is_removed(apis[i]),
        apis[j].kind == kind,
    ensures
        version_after(apis.take(j), kind, api_version) == "REMOVED"@,
        emits(apis[j], kind, version_after(apis.take(j), kind, api_version)),
{
    assert(apis.take(j)[i] == apis[i]);
    lemma_version_after_removed(apis.take(j), kind, api_version, i);
    let sv = supported_version(apis[j]);
    if !is_removed(apis[j]) && sv == "REMOVED"@ {
        reveal_strlit("REMOVED");
        reveal_strlit("/");
        let at = apis[j].group.len() as int;
        let r = "REMOVED"@;
        assert(sv[at] == '/');
        assert(r.len() == 7);
        assert(r[0] != '/' && r[1] != '/' && r[2] != '/' && r[3] != '/' && r[4] != '/' && r[5]
            != '/' && r[6] != '/');
        assert(0 <= at < 7);
        assert(r[at] != '/');
        assert(false);
    }
}

/// Examining more entries only carries the document's version on.
proof fn lemma_version_after_append(
    a: Seq<DepreApiView>,
    b: Seq<DepreApiView>,
    kind: Seq<char>,
    api_version: Seq<char>,
)
    ensures
        version_after(a + b, kind, api_version) == version_after(
            b,
            kind,
            version_after(a, kind, api_version),
        ),
    decreases b.len(),
{
    if b.len() == 0 {
        assert(a + b =~= a);
    } else {
        assert((a + b).drop_last() =~= a + b.drop_last());
        assert((a + b).last() == b.last());
        lemma_version_after_append(a, b.drop_last(), kind, api_version);
    }
}

/// The rows that entries `a` followed by entries `b` give for a document are
/// those that `a` gives, then those that `b` gives against the version that
/// `a` leaves.
pub proof fn lemma_doc_rows_append(
    a: Seq<DepreApiView>,
    b: Seq<DepreApiView>,
    kind: Seq<char>,
    api_version: Seq<char>,
    name: Seq<char>,
    file: Seq<char>,
)
    ensures
        doc_rows(a + b, kind, api_version, name, file) == doc_rows(a, kind, api_version, name, file)
            + doc_rows(b, kind, version_after(a, kind, api_version), name, file),
    decreases b.len(),
{
    let va = version_after(a, kind, api_version);
    if b.len() == 0 {
        assert(a + b =~= a);
        assert(doc_rows(a, kind, api_version, name, file) + doc_rows(b, kind, va, name, file)
            =~= doc_rows(a, kind, api_version, name, file));
    } else {
        assert((a + b).drop_last() =~= a + b.drop_last());
        assert((a + b).last() == b.last());
        lemma_doc_rows_append(a, b.drop_last(), kind, api_version, name, file);
        lemma_version_after_append(a, b.drop_last(), kind, api_version);
        let step = if emits(b.last(), kind, version_after(b.drop_last(), kind, va)) {
            seq![doc_row(b.last(), kind, version_after(b.drop_last(), kind, va), name, file)]
        } else {
            Seq::empty()
        };
        assert(doc_rows(a, kind, api_version, name, file) + doc_rows(b.drop_last(), kind, va, name, file)
            + step =~= doc_rows(a, kind, api_version, name, file) + (doc_rows(
            b.drop_last(),
            kind,
            va,
            name,
            file,
        ) + step));
    }
}

/// Entries none of which serves the kind give no row.
proof fn lemma_other_kinds_give_no_rows(
    b: Seq<DepreApiView>,
    kind: Seq<char>,
    api_version: Seq<char>,
    name: Seq<char>,
    file: Seq<char>,
)
    requires
        forall|j: int| 0 <= j < b.len() ==> (#[trigger] b[j]).kind != kind,
    ensures
        doc_rows(b, kind, api_version, name, file) == Seq::<TableDetailsView>::empty(),
    decreases b.len(),
{
    if b.len() > 0 {
        assert(b.last() == b[b.len() - 1]);
        assert forall|j: int| 0 <= j < b.drop_last().len() implies (#[trigger] b.drop_last()[j]).kind
            != kind by {
            assert(b.drop_last()[j] == b[j]);
        }
        lemma_other_kinds_give_no_rows(b.drop_last(), kind, api_version, name, file);
    }
}

/// No entry of `more` serves the kind of document `doc` (when it has an
/// `apiVersion`).
pub open spec fn serves_none_of(more: Seq<DepreApiView>, doc: ManifestDocView) -> bool {
    doc.0 is Some ==> forall|j: int| 0 <= j < more.len() ==> (#[trigger] more[j]).kind != doc.1.unwrap()
}

/// Appending entries to the list of deprecated APIs only appends rows to a
/// document's report, and appends none when no appended entry serves the
/// document's kind.
pub proof fn lemma_appended_apis_append_rows(
    apis: Seq<DepreApiView>,
    more: Seq<DepreApiView>,
    doc: ManifestDocView,
    file: Seq<char>,
)
    ensures
        doc_report(apis + more, doc, file).len() >= doc_report(apis, doc, file).len(),
        doc_report(apis + more, doc, file).subrange(0, doc_report(apis, doc, file).len() as int)
            == doc_report(apis, doc, file),
        serves_none_of(more, doc) ==> doc_report(apis + more, doc, file) == doc_report(apis, doc, file),
{
    match doc.0 {
        Some(av) => {
            let kind = doc.1.unwrap();
            let name = name_or_empty(doc.2);
            lemma_doc_rows_append(apis, more, kind, av, name, file);
            let first = doc_rows(apis, kind, av, name, file);
            let rest = doc_rows(more, kind, version_after(apis, kind, av), name, file);
            assert((first + rest).subrange(0, first.len() as int) =~= first);
            if serves_none_of(more, doc) {
                lemma_other_kinds_give_no_rows(more, kind, version_after(apis, kind, av), name, file);
                assert(first + rest =~= first);
            }
        },
        None => {},
    }
}

/// A document that can be scanned against a list can be scanned against
/// any first part of it.
pub proof fn lemma_scannable_prefix(apis: Seq<DepreApiView>, more: Seq<DepreApiView>, doc: ManifestDocView)
    requires
        doc_scannable(apis + more, doc),
    ensures
        doc_scannable(apis, doc),
{
    if doc.0 is Some {
        let all = apis + more;
        assert forall|i: int|
            #![trigger apis[i]]
            0 <= i < apis.len() && emits(
                apis[i],
                doc.1.unwrap(),
                version_after(apis.take(i), doc.1.unwrap(), doc.0.unwrap()),
            ) implies doc.2 is Some && apis[i].k8_version is Some by {
            assert(all[i] == apis[i]);
            assert(all.take(i) =~= apis.take(i));
        }
    }
}

/// Appending entries to the list of deprecated APIs keeps every row of a
/// manifest's report (counted with multiplicity), and changes nothing when
/// no appended entry serves the kind of a document of the manifest.
pub proof fn lemma_appended_apis_keep_manifest_rows(
    apis: Seq<DepreApiView>,
    more: Seq<DepreApiView>,
    docs: Seq<ManifestDocView>,
    file: Seq<char>,
)
    ensures
        manifest_report(apis, docs, file).to_multiset().subset_of(
            manifest_report(apis + more, docs, file).to_multiset(),
        ),
        (forall|i: int| 0 <= i < docs.len() ==> serves_none_of(more, #[trigger] docs[i]))
            ==> manifest_report(apis + more, docs, file) == manifest_report(apis, docs, file),
    decreases docs.len(),
{
    broadcast use vstd::multiset::group_multiset_axioms;

    if docs.len() > 0 {
        let prev = docs.drop_last();
        let d = docs.last();
        lemma_appended_apis_keep_manifest_rows(apis, more, prev, file);
        lemma_appended_apis_append_rows(apis, more, d, file);
        let ra = doc_report(apis, d, file);
        let rb = doc_report(apis + more, d, file);
        let extra = rb.subrange(ra.len() as int, rb.len() as int);
        assert(rb =~= ra + extra);
        let pa = manifest_report(apis, prev, file);
        let pb = manifest_report(apis + more, prev, file);
        vstd::seq_lib::lemma_multiset_commutative(pa, ra);
        vstd::seq_lib::lemma_multiset_commutative(pb, rb);
        vstd::seq_lib::lemma_multiset_commutative(ra, extra);
        if forall|i: int| 0 <= i < docs.len() ==> serves_none_of(more, #[trigger] docs[i]) {
            assert forall|i: int| 0 <= i < prev.len() implies serves_none_of(more, #[trigger] prev[i]) by {
                assert(prev[i] == docs[i]);
            }
            assert(serves_none_of(more, docs[docs.len() - 1]));
        }
    }
}

/// A document is reported for every deprecated API of its kind whose
/// `group/version` differs from the document's `apiVersion`, as long as no
/// API of that kind was found removed before it: the report holds a row
/// with the document's kind, file and name, its `apiVersion` as the
/// deprecated version, the API's `group/version` as the supported one, and
/// the API's Kubernetes version.
pub proof fn lemma_deprecated_document_is_reported(
    apis: Seq<DepreApiView>,
    doc: ManifestDocView,
    file: Seq<char>,
    i: int,
)
    requires
        doc.0 is Some,
        doc.1 is Some,
        doc.2 is Some,
        0 <= i < apis.len(),
        apis[i].kind == doc.1.unwrap(),
        apis[i].removed != "true"@,
        apis[i].group + "/"@ + apis[i].version != doc.0.unwrap(),
        forall|j: int|
            0 <= j < i && (#[trigger] apis[j]).kind == doc.1.unwrap() ==> apis[j].removed != "true"@,
    ensures
        exists|r: int|
            0 <= r < doc_report(apis, doc, file).len() && #[trigger] doc_report(apis, doc, file)[r]
                == (TableDetailsView {
                kind: doc.1.unwrap(),
                namespace: file,
                name: doc.2.unwrap(),
                deprecated_api_version: doc.0.unwrap(),
                supported_api_version: apis[i].group + "/"@ + apis[i].version,
                k8_version: apis[i].k8_version.unwrap(),
            }),
{
    let kind = doc.1.unwrap();
    let av = doc.0.unwrap();
    let name = doc.2.unwrap();
    let head = apis.take(i);
    let a = apis.take(i + 1);
    let b = apis.skip(i + 1);
    assert(apis =~= a + b);
    assert forall|j: int| 0 <= j < head.len() && (#[trigger] head[j]).kind == kind implies !is_removed(
        head[j],
    ) by {
        assert(head[j] == apis[j]);
    }
    lemma_version_unchanged(head, kind, av);
    assert(a.drop_last() =~= head);
    assert(a.last() == apis[i]);
    assert(emits(apis[i], kind, av));
    let row = doc_row(apis[i], kind, av, name, file);
    assert(doc_rows(a, kind, av, name, file) == doc_rows(head, kind, av, name, file) + seq![row]);
    lemma_doc_rows_append(a, b, kind, av, name, file);
    let r = doc_rows(head, kind, av, name, file).len() as int;
    assert(doc_report(apis, doc, file) == doc_rows(a + b, kind, av, name, file));
    assert(doc_report(apis, doc, file)[r] == row);
}

/// How many of the tokens `ts` open a collection.
pub open spec fn opening_tokens(ts: Seq<YamlTokenKind>) -> nat
    decreases ts.len(),
{
    if ts.len() == 0 {
        0
    } else {
        opening_tokens(ts.drop_last()) + match ts.last() {
            YamlTokenKind::BlockSequenceStart => 1nat,
            YamlTokenKind::BlockMappingStart => 1nat,
            YamlTokenKind::FlowSequenceStart => 1nat,
            YamlTokenKind::FlowMappingStart => 1nat,
            _ => 0nat,
        }
    }
}

/// How many of the tokens `ts` close a collection, block ones included.
pub open spec fn closing_tokens(ts: Seq<YamlTokenKind>) -> nat
    decreases ts.len(),
{
    if ts.len() == 0 {
        0
    } else {
        closing_tokens(ts.drop_last()) + match ts.last() {
            YamlTokenKind::BlockEnd => 1nat,
            YamlTokenKind::FlowSequenceEnd => 1nat,
            YamlTokenKind::FlowMappingEnd => 1nat,
            _ => 0nat,
        }
    }
}

/// No prefix of `ts` closes more collections than it opened.
pub open spec fn well_nested(ts: Seq<YamlTokenKind>) -> bool {
    forall|k: int| 0 <= k <= ts.len() ==> closing_tokens(#[trigger] ts.take(k)) <= opening_tokens(ts.take(k))
}

/// In a well-nested token stream, the depth is the number of collections
/// opened and not yet closed: every closing token, block ones included,
/// ends one.
pub proof fn lemma_token_depth_counts_open_collections(ts: Seq<YamlTokenKind>)
    requires
        well_nested(ts),
    ensures
        token_depth(ts) == opening_tokens(ts) - closing_tokens(ts),
    decreases ts.len(),
{
    if ts.len() > 0 {
        let p = ts.drop_last();
        assert forall|k: int| 0 <= k <= p.len() implies closing_tokens(#[trigger] p.take(k))
            <= opening_tokens(p.take(k)) by {
            assert(p.take(k) =~= ts.take(k));
        }
        lemma_token_depth_counts_open_collections(p);
        assert(ts.take(ts.len() as int) =~= ts);
    }
}

/// After a stream whose collections are all closed, the depth continues as
/// if the stream had started afresh.
proof fn lemma_token_depth_after_closed(a: Seq<YamlTokenKind>, b: Seq<YamlTokenKind>)
    requires
        token_depth(a) == 0,
    ensures
        token_depth(a + b) == token_depth(b),
    decreases b.len(),
{
    if b.len() == 0 {
        assert(a + b =~= a);
    } else {
        assert((a + b).drop_last() =~= a + b.drop_last());
        assert((a + b).last() == b.last());
        lemma_token_depth_after_closed(a, b.drop_last());
    }
}

/// Texts that each fit, the first of which closes every collection it
/// opens (as a whole YAML document does), fit one after the other: the
/// nesting of a file does not grow with the number of its documents.
pub proof fn lemma_closed_streams_fit_in_sequence(a: Seq<YamlTokenKind>, b: Seq<YamlTokenKind>)
    requires
        well_nested(a),
        opening_tokens(a) == closing_tokens(a),
        token_nesting_fits(a),
        token_nesting_fits(b),
    ensures
        token_nesting_fits(a + b),
{
    lemma_token_depth_counts_open_collections(a);
    assert forall|k: int| 0 <= k <= (a + b).len() implies #[trigger] token_depth((a + b).take(k))
        <= MAX_TOKEN_NESTING by {
        if k <= a.len() {
            assert((a + b).take(k) =~= a.take(k));
        } else {
            assert((a + b).take(k) =~= a + b.take(k - a.len()));
            lemma_token_depth_after_closed(a, b.take(k - a.len()));
        }
    }
}

/// A document is reported for every removed API of its kind, with
/// `REMOVED` as both its deprecated and its supported version, its kind,
/// file and name, and the API's Kubernetes version.
pub proof fn lemma_removed_api_row(apis: Seq<DepreApiView>, doc: ManifestDocView, file: Seq<char>, i: int)
    requires
        doc.0 is Some,
        doc.1 is Some,
        doc.2 is Some,
        0 <= i < apis.len(),
        apis[i].kind == doc.1.unwrap(),
        apis[i].removed == "true"@,
    ensures
        exists|r: int|
            0 <= r < doc_report(apis, doc, file).len() && #[trigger] doc_report(apis, doc, file)[r]
                == (TableDetailsView {
                kind: doc.1.unwrap(),
                namespace: file,
                name: doc.2.unwrap(),
                deprecated_api_version: "REMOVED"@,
                supported_api_version: "REMOVED"@,
                k8_version: apis[i].k8_version.unwrap(),
            }),
{
    let kind = doc.1.unwrap();
    let av = doc.0.unwrap();
    let name = doc.2.unwrap();
    let head = apis.take(i);
    let a = apis.take(i + 1);
    let b = apis.skip(i + 1);
    assert(apis =~= a + b);
    assert(a.drop_last() =~= head);
    assert(a.last() == apis[i]);
    let cur = version_after(head, kind, av);
    assert(emits(apis[i], kind, cur));
    let row = doc_row(apis[i], kind, cur, name, file);
    assert(doc_rows(a, kind, av, name, file) == doc_rows(head, kind, av, name, file) + seq![row]);
    lemma_doc_rows_append(a, b, kind, av, name, file);
    let r = doc_rows(head, kind, av, name, file).len() as int;
    assert(doc_report(apis, doc, file) == doc_rows(a + b, kind, av, name, file));
    assert(doc_report(apis, doc, file)[r] == row);
}

} // verus!
