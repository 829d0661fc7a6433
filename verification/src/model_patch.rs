//! The grammar-model patch of a scheme's `<schema_id>.custom.yaml`:
//!
//! ```yaml
//! patch:
//!   grammar/language_model: wanxiang-lts-zh-hans
//! ```
//!
//! The document is parsed and printed by serde_yaml; what the patch does to
//! it is verified here over the library's own model of the document.
use crate::text::str_eq;
use std::collections::HashMap;
use vstd::prelude::*;

verus! {

broadcast use vstd::string::group_string_axioms;

/// A YAML value, carried through unchanged.
#[verifier::external_type_specification]
#[verifier::external_body]
pub struct ExYamlValue(serde_yaml::Value);

/// A serde_yaml parse or print error.
#[verifier::external_type_specification]
#[verifier::external_body]
pub struct ExYamlError(serde_yaml::Error);

// ---------------------------------------------------------------------------
// The document
// ---------------------------------------------------------------------------

/// A mapping key or value that serde_yaml did not read as a string. Only
/// the parser (`parse_top_level`) makes one, so it never holds a string.
pub struct NotText {
    value: serde_yaml::Value,
}

/// A top-level value that serde_yaml did not read as a mapping. Only the
/// parser (`parse_top_level`) makes one, so it never holds a mapping.
pub struct NotMapping {
    value: serde_yaml::Value,
}

/// A key or value of the `patch` mapping: a string, which the patch reads
/// and writes, or any other YAML value.
pub enum YamlScalar {
    Text(String),
    Other(NotText),
}

/// The value under a top-level key: a mapping, which the patch edits, or
/// any other YAML value.
pub enum Section {
    Mapping(Vec<(YamlScalar, YamlScalar)>),
    Other(NotMapping),
}

/// One top-level entry of the patch file.
pub struct TopEntry {
    pub key: String,
    pub value: Section,
}

/// A patch file: its top-level entries.
pub struct PatchDoc {
    pub entries: Vec<TopEntry>,
}

/// The model of a mapping key or value.
pub enum ScalarView {
    Text(Seq<char>),
    Other(NotText),
}

/// The model of a top-level value.
pub enum SectionView {
    Mapping(Seq<(ScalarView, ScalarView)>),
    Other(NotMapping),
}

/// The model of a mapping.
pub type MappingView = Seq<(ScalarView, ScalarView)>;

/// The model of a document: its top-level keys and values.
pub type DocView = Seq<(Seq<char>, SectionView)>;

impl View for YamlScalar {
    type V = ScalarView;

    open spec fn view(&self) -> ScalarView {
        match self {
            YamlScalar::Text(s) => ScalarView::Text(s@),
            YamlScalar::Other(v) => ScalarView::Other(*v),
        }
    }
}

/// The model of a mapping's pairs.
pub open spec fn pairs_view(m: Seq<(YamlScalar, YamlScalar)>) -> MappingView {
    m.map_values(|p: (YamlScalar, YamlScalar)| (p.0@, p.1@))
}

impl View for Section {
    type V = SectionView;

    open spec fn view(&self) -> SectionView {
        match self {
            Section::Mapping(m) => SectionView::Mapping(pairs_view(m@)),
            Section::Other(v) => SectionView::Other(*v),
        }
    }
}

impl View for TopEntry {
    type V = (Seq<char>, SectionView);

    open spec fn view(&self) -> (Seq<char>, SectionView) {
        (self.key@, self.value@)
    }
}

/// The model of a list of top-level entries.
pub open spec fn entries_view(es: Seq<TopEntry>) -> DocView {
    es.map_values(|e: TopEntry| e@)
}

impl View for PatchDoc {
    type V = DocView;

    open spec fn view(&self) -> DocView {
        entries_view(self.entries@)
    }
}

/// Why a patch file cannot be read, patched or written.
#[derive(Clone, Copy, Debug, PartialEq, Eq, Structural)]
pub enum ModelPatchError {
    /// The file is not a YAML mapping from strings to values.
    Parse,
    /// The `patch` entry is not a mapping.
    NotMapping,
    /// The document could not be printed as YAML.
    Serialize,
}

// ---------------------------------------------------------------------------
// What the patch does
// ---------------------------------------------------------------------------

/// The top-level key of Rime patches.
pub open spec fn patch_key() -> Seq<char> {
    "patch"@
}

/// The key that selects the grammar model.
pub open spec fn model_key() -> Seq<char> {
    "grammar/language_model"@
}

/// The grammar model the patch selects.
pub open spec fn model_value() -> Seq<char> {
    "wanxiang-lts-zh-hans"@
}

/// The mapping key is the string `grammar/language_model`.
pub open spec fn is_model_key(k: ScalarView) -> bool {
    k matches ScalarView::Text(s) && s == model_key()
}

/// The entry that selects the model.
pub open spec fn model_entry() -> (ScalarView, ScalarView) {
    (ScalarView::Text(model_key()), ScalarView::Text(model_value()))
}

/// Position of the first top-level entry with the key, or -1.
pub open spec fn top_pos(d: DocView, key: Seq<char>) -> int
    decreases d.len(),
{
    if d.len() == 0 {
        -1
    } else if d[0].0 == key {
        0
    } else {
        let r = top_pos(d.drop_first(), key);
        if r < 0 {
            -1
        } else {
            r + 1
        }
    }
}

/// Position of the first model key in the mapping, or -1.
pub open spec fn model_pos(m: MappingView) -> int
    decreases m.len(),
{
    if m.len() == 0 {
        -1
    } else if is_model_key(m[0].0) {
        0
    } else {
        let r = model_pos(m.drop_first());
        if r < 0 {
            -1
        } else {
            r + 1
        }
    }
}

/// Inserting the model entry: an existing model key keeps its place and
/// takes the model value, else the entry goes at the end.
pub open spec fn set_model(m: MappingView) -> MappingView {
    let q = model_pos(m);
    if q >= 0 {
        m.update(q, (m[q].0, ScalarView::Text(model_value())))
    } else {
        m.push(model_entry())
    }
}

/// Removing position `q`; the last entry takes its place.
pub open spec fn swap_remove<A>(m: Seq<A>, q: int) -> Seq<A> {
    m.update(q, m.last()).drop_last()
}

/// Removing the model key, if any.
pub open spec fn unset_model(m: MappingView) -> MappingView {
    let q = model_pos(m);
    if q >= 0 {
        swap_remove(m, q)
    } else {
        m
    }
}

/// Patching: a missing `patch` entry is added as a mapping; the model entry
/// is inserted into the `patch` mapping; a `patch` entry that is not a
/// mapping is refused.
pub open spec fn spec_apply(d: DocView) -> Result<DocView, ModelPatchError> {
    let p = top_pos(d, patch_key());
    if p < 0 {
        Ok(d.push((patch_key(), SectionView::Mapping(seq![model_entry()]))))
    } else {
        match d[p].1 {
            SectionView::Mapping(m) => Ok(d.update(p, (d[p].0, SectionView::Mapping(set_model(m))))),
            SectionView::Other(_) => Err(ModelPatchError::NotMapping),
        }
    }
}

/// Unpatching: the model key is removed from the `patch` mapping; without a
/// `patch` entry nothing changes; a `patch` entry that is not a mapping is
/// refused.
pub open spec fn spec_remove(d: DocView) -> Result<DocView, ModelPatchError> {
    let p = top_pos(d, patch_key());
    if p < 0 {
        Ok(d)
    } else {
        match d[p].1 {
            SectionView::Mapping(m) => Ok(
                d.update(p, (d[p].0, SectionView::Mapping(unset_model(m)))),
            ),
            SectionView::Other(_) => Err(ModelPatchError::NotMapping),
        }
    }
}

/// The `patch` entry is a mapping that holds the model key.
pub open spec fn spec_has(d: DocView) -> bool {
    let p = top_pos(d, patch_key());
    p >= 0 && match d[p].1 {
        SectionView::Mapping(m) => model_pos(m) >= 0,
        SectionView::Other(_) => false,
    }
}

/// The model of a result.
pub open spec fn doc_result_view(r: Result<PatchDoc, ModelPatchError>) -> Result<
    DocView,
    ModelPatchError,
> {
    match r {
        Ok(d) => Ok(d@),
        Err(e) => Err(e),
    }
}

// ---------------------------------------------------------------------------
// Lemmas
// ---------------------------------------------------------------------------

/// What `top_pos` finds.
pub proof fn lemma_top_pos(d: DocView, key: Seq<char>)
    ensures
        -1 <= top_pos(d, key) < d.len(),
        top_pos(d, key) >= 0 ==> d[top_pos(d, key)].0 == key,
        forall|j: int| 0 <= j < d.len() && (top_pos(d, key) < 0 || j < top_pos(d, key)) ==> d[j].0
            != key,
    decreases d.len(),
{
    if d.len() > 0 && d[0].0 != key {
        lemma_top_pos(d.drop_first(), key);
        assert forall|j: int|
            0 <= j < d.len() && (top_pos(d, key) < 0 || j < top_pos(d, key)) implies d[j].0
            != key by {
            if j > 0 {
                assert(d[j] == d.drop_first()[j - 1]);
            }
        }
    }
}

/// What `model_pos` finds.
pub proof fn lemma_model_pos(m: MappingView)
    ensures
        -1 <= model_pos(m) < m.len(),
        model_pos(m) >= 0 ==> is_model_key(m[model_pos(m)].0),
        forall|j: int|
            0 <= j < m.len() && (model_pos(m) < 0 || j < model_pos(m)) ==> !is_model_key(
                #[trigger] m[j].0,
            ),
    decreases m.len(),
{
    if m.len() > 0 && !is_model_key(m[0].0) {
        lemma_model_pos(m.drop_first());
        assert forall|j: int|
            0 <= j < m.len() && (model_pos(m) < 0 || j < model_pos(m)) implies !is_model_key(
            #[trigger] m[j].0,
        ) by {
            if j > 0 {
                assert(m[j] == m.drop_first()[j - 1]);
            }
        }
    }
}

/// A mapping without a model key.
pub proof fn lemma_model_pos_none(m: MappingView)
    requires
        forall|j: int| 0 <= j < m.len() ==> !is_model_key(#[trigger] m[j].0),
    ensures
        model_pos(m) == -1,
    decreases m.len(),
{
    if m.len() > 0 {
        assert forall|j: int| 0 <= j < m.drop_first().len() implies !is_model_key(
            #[trigger] m.drop_first()[j].0,
        ) by {
            assert(m.drop_first()[j] == m[j + 1]);
        }
        lemma_model_pos_none(m.drop_first());
    }
}

/// The first model key of a mapping, known by position.
pub proof fn lemma_model_pos_at(m: MappingView, q: int)
    requires
        0 <= q < m.len(),
        is_model_key(m[q].0),
        forall|j: int| 0 <= j < q ==> !is_model_key(#[trigger] m[j].0),
    ensures
        model_pos(m) == q,
{
    lemma_model_pos(m);
    if model_pos(m) < 0 || model_pos(m) > q {
        assert(!is_model_key(m[q].0));
    } else if model_pos(m) < q {
        assert(!is_model_key(m[model_pos(m)].0));
    }
}

/// The first top-level entry with a key, known by position.
pub proof fn lemma_top_pos_at(d: DocView, key: Seq<char>, p: int)
    requires
        0 <= p < d.len(),
        d[p].0 == key,
        forall|j: int| 0 <= j < p ==> d[j].0 != key,
    ensures
        top_pos(d, key) == p,
{
    lemma_top_pos(d, key);
    if top_pos(d, key) < 0 || top_pos(d, key) > p {
        assert(d[p].0 != key);
    } else if top_pos(d, key) < p {
        assert(d[top_pos(d, key)].0 != key);
    }
}

/// A document without the key.
pub proof fn lemma_top_pos_none(d: DocView, key: Seq<char>)
    requires
        forall|j: int| 0 <= j < d.len() ==> d[j].0 != key,
    ensures
        top_pos(d, key) == -1,
{
    lemma_top_pos(d, key);
    if top_pos(d, key) >= 0 {
        assert(d[top_pos(d, key)].0 != key);
    }
}

// ---------------------------------------------------------------------------
// Executable operations
// ---------------------------------------------------------------------------

/// Whether a mapping key is the model key.
fn is_model_key_exec(k: &YamlScalar) -> (r: bool)
    ensures
        r == is_model_key(k@),
{
    match k {
        YamlScalar::Text(s) => str_eq(s.as_str(), "grammar/language_model"),
        YamlScalar::Other(_) => false,
    }
}

/// Position of the first model key in the mapping.
fn find_model(m: &Vec<(YamlScalar, YamlScalar)>) -> (r: Option<usize>)
    ensures
        match r {
            Some(q) => model_pos(pairs_view(m@)) == q as int,
            None => model_pos(pairs_view(m@)) == -1,
        },
{
    let ghost mv = pairs_view(m@);
    let mut i: usize = 0;
    while i < m.len()
        invariant
            0 <= i <= m.len(),
            mv == pairs_view(m@),
            forall|j: int| 0 <= j < i ==> !is_model_key(#[trigger] mv[j].0),
        decreases m.len() - i,
    {
        assert(mv[i as int].0 == m@[i as int].0@);
        if is_model_key_exec(&m[i].0) {
            proof {
                lemma_model_pos_at(mv, i as int);
            }
            return Some(i);
        }
        i = i + 1;
    }
    proof {
        lemma_model_pos_none(mv);
    }
    None
}

/// Position of the first top-level `patch` entry.
fn find_patch(es: &Vec<TopEntry>) -> (r: Option<usize>)
    ensures
        match r {
            Some(p) => top_pos(entries_view(es@), patch_key()) == p as int,
            None => top_pos(entries_view(es@), patch_key()) == -1,
        },
{
    let ghost dv = entries_view(es@);
    let mut i: usize = 0;
    while i < es.len()
        invariant
            0 <= i <= es.len(),
            dv == entries_view(es@),
            forall|j: int| 0 <= j < i ==> dv[j].0 != patch_key(),
        decreases es.len() - i,
    {
        assert(dv[i as int].0 == es@[i as int].key@);
        if str_eq(es[i].key.as_str(), "patch") {
            proof {
                lemma_top_pos_at(dv, patch_key(), i as int);
            }
            return Some(i);
        }
        i = i + 1;
    }
    proof {
        lemma_top_pos_none(dv, patch_key());
    }
    None
}

/// The model entry.
fn model_pair() -> (r: (YamlScalar, YamlScalar))
    ensures
        (r.0@, r.1@) == model_entry(),
{
    (
        YamlScalar::Text("grammar/language_model".to_string()),
        YamlScalar::Text("wanxiang-lts-zh-hans".to_string()),
    )
}

/// Inserts the model entry into a mapping.
fn set_model_exec(m: &mut Vec<(YamlScalar, YamlScalar)>)
    ensures
        pairs_view(final(m)@) == set_model(pairs_view(old(m)@)),
{
    let ghost mv = pairs_view(m@);
    match find_model(m) {
        Some(q) => {
            proof {
                lemma_model_pos(mv);
            }
            let (k, _) = m.remove(q);
            m.insert(q, (k, YamlScalar::Text("wanxiang-lts-zh-hans".to_string())));
            assert(pairs_view(m@) =~= mv.update(
                q as int,
                (mv[q as int].0, ScalarView::Text(model_value())),
            ));
        },
        None => {
            m.push(model_pair());
            assert(pairs_view(m@) =~= mv.push(model_entry()));
        },
    }
}

/// Removes the model entry from a mapping.
fn unset_model_exec(m: &mut Vec<(YamlScalar, YamlScalar)>)
    ensures
        pairs_view(final(m)@) == unset_model(pairs_view(old(m)@)),
{
    let ghost mv = pairs_view(m@);
    match find_model(m) {
        Some(q) => {
            proof {
                lemma_model_pos(mv);
            }
            m.swap_remove(q);
            assert(pairs_view(m@) =~= swap_remove(mv, q as int));
        },
        None => {},
    }
}

/// Whether the `patch` mapping holds the model key.
pub fn has_model_patch(doc: &PatchDoc) -> (r: bool)
    ensures
        r == spec_has(doc@),
{
    match find_patch(&doc.entries) {
        Some(p) => {
            proof {
                lemma_top_pos(doc@, patch_key());
            }
            assert(doc@[p as int].1 == doc.entries@[p as int].value@);
            match &doc.entries[p].value {
                Section::Mapping(m) => find_model(m).is_some(),
                Section::Other(_) => false,
            }
        },
        None => false,
    }
}

/// Patches the document: the model entry goes into the `patch` mapping,
/// which is created when missing.
pub fn apply_model_patch(doc: PatchDoc) -> (r: Result<PatchDoc, ModelPatchError>)
    ensures
        doc_result_view(r) == spec_apply(doc@),
{
    let ghost dv = doc@;
    let mut entries = doc.entries;
    match find_patch(&entries) {
        None => {
            let mut m: Vec<(YamlScalar, YamlScalar)> = Vec::new();
            m.push(model_pair());
            let ghost mp = pairs_view(m@);
            assert(mp =~= seq![model_entry()]);
            entries.push(TopEntry { key: "patch".to_string(), value: Section::Mapping(m) });
            assert(entries_view(entries@) =~= dv.push(
                (patch_key(), SectionView::Mapping(seq![model_entry()])),
            ));
            Ok(PatchDoc { entries })
        },
        Some(p) => {
            proof {
                lemma_top_pos(dv, patch_key());
            }
            let TopEntry { key, value } = entries.remove(p);
            assert(key@ == dv[p as int].0);
            assert(value@ == dv[p as int].1);
            match value {
                Section::Mapping(mut m) => {
                    set_model_exec(&mut m);
                    let ghost mp = pairs_view(m@);
                    entries.insert(p, TopEntry { key, value: Section::Mapping(m) });
                    assert(entries_view(entries@) =~= dv.update(
                        p as int,
                        (dv[p as int].0, SectionView::Mapping(mp)),
                    ));
                    Ok(PatchDoc { entries })
                },
                Section::Other(_) => Err(ModelPatchError::NotMapping),
            }
        },
    }
}

/// Unpatches the document: the model key leaves the `patch` mapping.
pub fn remove_model_patch(doc: PatchDoc) -> (r: Result<PatchDoc, ModelPatchError>)
    ensures
        doc_result_view(r) == spec_remove(doc@),
{
    let ghost dv = doc@;
    let mut entries = doc.entries;
    match find_patch(&entries) {
        None => Ok(PatchDoc { entries }),
        Some(p) => {
            proof {
                lemma_top_pos(dv, patch_key());
            }
            let TopEntry { key, value } = entries.remove(p);
            assert(key@ == dv[p as int].0);
            assert(value@ == dv[p as int].1);
            match value {
                Section::Mapping(mut m) => {
                    unset_model_exec(&mut m);
                    let ghost mp = pairs_view(m@);
                    entries.insert(p, TopEntry { key, value: Section::Mapping(m) });
                    assert(entries_view(entries@) =~= dv.update(
                        p as int,
                        (dv[p as int].0, SectionView::Mapping(mp)),
                    ));
                    Ok(PatchDoc { entries })
                },
                Section::Other(_) => Err(ModelPatchError::NotMapping),
            }
        },
    }
}

// ---------------------------------------------------------------------------
// Round trip
// ---------------------------------------------------------------------------

/// The `patch` entry, if there is one, is a mapping.
pub open spec fn patch_section_ok(d: DocView) -> bool {
    let p = top_pos(d, patch_key());
    p < 0 || d[p].1 is Mapping
}

/// The mapping holds the model key at most once, as a YAML mapping does.
pub open spec fn model_key_unique(m: MappingView) -> bool {
    forall|i: int, j: int|
        0 <= i < m.len() && 0 <= j < m.len() && is_model_key(#[trigger] m[i].0) && is_model_key(
            #[trigger] m[j].0,
        ) ==> i == j
}

/// A document as serde_yaml produces it: the `patch` mapping, if any, holds
/// the model key at most once.
pub open spec fn doc_wf(d: DocView) -> bool {
    let p = top_pos(d, patch_key());
    p >= 0 ==> match d[p].1 {
        SectionView::Mapping(m) => model_key_unique(m),
        SectionView::Other(_) => true,
    }
}

/// No two keys of the mapping are the same, as a YAML mapping holds them.
pub open spec fn keys_distinct(m: MappingView) -> bool {
    forall|i: int, j: int|
        0 <= i < m.len() && 0 <= j < m.len() && i != j ==> (#[trigger] m[i]).0 != (#[trigger] m[j]).0
}

/// No two top-level entries have the same key.
pub open spec fn top_keys_distinct(d: DocView) -> bool {
    forall|i: int, j: int| 0 <= i < d.len() && 0 <= j < d.len() && i != j ==> (#[trigger] d[i]).0
        != (#[trigger] d[j]).0
}

/// Every mapping of the document holds each key once.
pub open spec fn mappings_distinct(d: DocView) -> bool {
    forall|k: int|
        0 <= k < d.len() ==> match (#[trigger] d[k]).1 {
            SectionView::Mapping(m) => keys_distinct(m),
            SectionView::Other(_) => true,
        }
}

/// A mapping with distinct keys holds the model key at most once.
pub proof fn lemma_distinct_model_unique(m: MappingView)
    requires
        keys_distinct(m),
    ensures
        model_key_unique(m),
{
    assert forall|i: int, j: int|
        0 <= i < m.len() && 0 <= j < m.len() && is_model_key(#[trigger] m[i].0) && is_model_key(
            #[trigger] m[j].0,
        ) implies i == j by {
        if i != j {
            assert(m[i].0 != m[j].0);
        }
    }
}

/// A document whose mappings hold each key once is one as serde_yaml
/// produces it.
pub proof fn lemma_distinct_doc_wf(d: DocView)
    requires
        mappings_distinct(d),
    ensures
        doc_wf(d),
{
    lemma_top_pos(d, patch_key());
    let p = top_pos(d, patch_key());
    if p >= 0 {
        match d[p].1 {
            SectionView::Mapping(m) => {
                lemma_distinct_model_unique(m);
            },
            SectionView::Other(_) => {},
        }
    }
}

/// After inserting the model entry the model key is found, and only there.
pub proof fn lemma_set_model(m: MappingView)
    requires
        model_key_unique(m),
    ensures
        model_pos(set_model(m)) >= 0,
        model_key_unique(set_model(m)),
        model_pos(m) < 0 ==> set_model(m) == m.push(model_entry()) && model_pos(set_model(m))
            == m.len(),
{
    lemma_model_pos(m);
    let q = model_pos(m);
    let m1 = set_model(m);
    if q >= 0 {
        assert forall|j: int| 0 <= j < q implies !is_model_key(#[trigger] m1[j].0) by {
            assert(m1[j] == m[j]);
        }
        lemma_model_pos_at(m1, q);
        assert forall|i: int, j: int|
            0 <= i < m1.len() && 0 <= j < m1.len() && is_model_key(#[trigger] m1[i].0)
                && is_model_key(#[trigger] m1[j].0) implies i == j by {
            assert(m1[i].0 == m[i].0);
            assert(m1[j].0 == m[j].0);
        }
    } else {
        assert forall|j: int| 0 <= j < m.len() implies !is_model_key(#[trigger] m1[j].0) by {
            assert(m1[j] == m[j]);
        }
        assert(m1[m.len() as int] == model_entry());
        lemma_model_pos_at(m1, m.len() as int);
        assert forall|i: int, j: int|
            0 <= i < m1.len() && 0 <= j < m1.len() && is_model_key(#[trigger] m1[i].0)
                && is_model_key(#[trigger] m1[j].0) implies i == j by {
            if i < m.len() {
                assert(m1[i] == m[i]);
            }
            if j < m.len() {
                assert(m1[j] == m[j]);
            }
        }
    }
}

/// Removing the only model key leaves none.
pub proof fn lemma_unset_model(m: MappingView)
    requires
        model_key_unique(m),
    ensures
        model_pos(unset_model(m)) == -1,
{
    lemma_model_pos(m);
    let q = model_pos(m);
    let m2 = unset_model(m);
    if q >= 0 {
        assert forall|j: int| 0 <= j < m2.len() implies !is_model_key(#[trigger] m2[j].0) by {
            if j == q {
                assert(m2[j] == m.last());
                assert(m.last() == m[m.len() - 1]);
                assert(m.len() - 1 != q);
            } else {
                assert(m2[j] == m[j]);
            }
        }
    }
    lemma_model_pos_none(m2);
}

/// Patch, then unpatch: patching succeeds exactly when the `patch` entry is
/// missing or a mapping; the patched document holds the model key; the
/// unpatched one succeeds and does not; and a document that did not hold the
/// key comes back as it was, with an empty `patch` mapping where it had none.
pub proof fn law_patch_round_trip(d: DocView)
    requires
        doc_wf(d),
    ensures
        spec_apply(d) is Ok <==> patch_section_ok(d),
        spec_apply(d) matches Ok(d1) ==> {
            &&& spec_has(d1)
            &&& (spec_remove(d1) matches Ok(d2) && !spec_has(d2) && (!spec_has(d) ==> d2 == if top_pos(
                d,
                patch_key(),
            ) < 0 {
                d.push((patch_key(), SectionView::Mapping(seq![])))
            } else {
                d
            }))
        },
{
    lemma_top_pos(d, patch_key());
    let p = top_pos(d, patch_key());
    if p < 0 {
        let d1 = d.push((patch_key(), SectionView::Mapping(seq![model_entry()])));
        assert forall|j: int| 0 <= j < d.len() implies d1[j].0 != patch_key() by {
            assert(d1[j] == d[j]);
        }
        lemma_top_pos_at(d1, patch_key(), d.len() as int);
        let m1 = seq![model_entry()];
        lemma_model_pos_at(m1, 0);
        let m2 = unset_model(m1);
        assert(m2 =~= Seq::<(ScalarView, ScalarView)>::empty());
        let d2 = d1.update(d.len() as int, (patch_key(), SectionView::Mapping(m2)));
        assert(d2 =~= d.push((patch_key(), SectionView::Mapping(seq![]))));
        lemma_top_pos_at(d2, patch_key(), d.len() as int);
        assert(model_pos(m2) == -1);
    } else {
        match d[p].1 {
            SectionView::Mapping(m) => {
                lemma_set_model(m);
                let m1 = set_model(m);
                let d1 = d.update(p, (d[p].0, SectionView::Mapping(m1)));
                assert forall|j: int| 0 <= j < p implies d1[j].0 != patch_key() by {
                    assert(d1[j] == d[j]);
                }
                lemma_top_pos_at(d1, patch_key(), p);
                lemma_unset_model(m1);
                let m2 = unset_model(m1);
                let d2 = d1.update(p, (d[p].0, SectionView::Mapping(m2)));
                assert forall|j: int| 0 <= j < p implies d2[j].0 != patch_key() by {
                    assert(d2[j] == d[j]);
                }
                lemma_top_pos_at(d2, patch_key(), p);
                if !spec_has(d) {
                    lemma_model_pos(m);
                    assert(m1 == m.push(model_entry()));
                    assert(model_pos(m1) == m.len());
                    assert(m2 =~= m);
                    assert(d2 =~= d);
                }
            },
            SectionView::Other(_) => {},
        }
    }
}

// ---------------------------------------------------------------------------
// The patch file as serde_yaml reads it
// ---------------------------------------------------------------------------

/// What `serde_yaml::from_str` reads of a patch file into a map from
/// strings to YAML values, in the document model: each top-level key with
/// its value; `None` when serde_yaml refuses the text.
pub uninterp spec fn yaml_doc(text: Seq<char>) -> Option<Map<Seq<char>, SectionView>>;

/// Whether `serde_yaml::to_string` prints the map of these top-level
/// entries; it fails only on values it cannot print (such as nested tags).
pub uninterp spec fn yaml_prints(doc: Map<Seq<char>, SectionView>) -> bool;

/// A document as a map: each top-level key with its (first) value.
pub open spec fn doc_map(d: DocView) -> Map<Seq<char>, SectionView> {
    Map::new(|k: Seq<char>| top_pos(d, k) >= 0, |k: Seq<char>| d[top_pos(d, k)].1)
}

/// Every mapping of the map holds each key once.
pub open spec fn map_wf(m: Map<Seq<char>, SectionView>) -> bool {
    forall|k: Seq<char>|
        #[trigger] m.contains_key(k) ==> match m[k] {
            SectionView::Mapping(p) => keys_distinct(p),
            SectionView::Other(_) => true,
        }
}

/// The `patch` entry, if any, is a mapping.
pub open spec fn map_patch_ok(m: Map<Seq<char>, SectionView>) -> bool {
    !(m.get(patch_key()) matches Some(SectionView::Other(_)))
}

/// The pairs of the `patch` mapping, none when it is missing.
pub open spec fn patch_pairs(m: Map<Seq<char>, SectionView>) -> MappingView {
    match m.get(patch_key()) {
        Some(SectionView::Mapping(p)) => p,
        _ => seq![],
    }
}

/// The `patch` entry is a mapping that holds the model key.
pub open spec fn map_has_model(m: Map<Seq<char>, SectionView>) -> bool {
    m.get(patch_key()) matches Some(SectionView::Mapping(p)) && model_pos(p) >= 0
}

/// The file after patching: the `patch` mapping (created empty when
/// missing) sets `grammar/language_model` to `wanxiang-lts-zh-hans`, in
/// place when the key is there, else at the end; everything else is kept.
pub open spec fn patched_map(m: Map<Seq<char>, SectionView>) -> Map<Seq<char>, SectionView> {
    m.insert(patch_key(), SectionView::Mapping(set_model(patch_pairs(m))))
}

/// The file after unpatching: the `patch` mapping, if any, loses the model
/// key (the last pair takes its place); everything else is kept.
pub open spec fn unpatched_map(m: Map<Seq<char>, SectionView>) -> Map<Seq<char>, SectionView> {
    match m.get(patch_key()) {
        Some(SectionView::Mapping(p)) => m.insert(patch_key(), SectionView::Mapping(unset_model(p))),
        _ => m,
    }
}

/// The text of an optional string.
pub open spec fn opt_text(s: Option<&str>) -> Option<Seq<char>> {
    match s {
        Some(t) => Some(t@),
        None => None,
    }
}

/// A patch file that may not exist, as read: empty when it does not.
pub open spec fn existing_doc(existing: Option<Seq<char>>) -> Option<Map<Seq<char>, SectionView>> {
    match existing {
        Some(t) => yaml_doc(t),
        None => Some(Map::empty()),
    }
}

/// Documents with the same keys at every position find keys at the same
/// positions.
pub proof fn lemma_top_pos_same_keys(d1: DocView, d2: DocView, k: Seq<char>)
    requires
        d1.len() == d2.len(),
        forall|i: int| 0 <= i < d1.len() ==> (#[trigger] d1[i]).0 == d2[i].0,
    ensures
        top_pos(d1, k) == top_pos(d2, k),
    decreases d1.len(),
{
    if d1.len() > 0 && d1[0].0 != k {
        assert forall|i: int| 0 <= i < d1.drop_first().len() implies (
        #[trigger] d1.drop_first()[i]).0 == d2.drop_first()[i].0 by {
            assert(d1.drop_first()[i] == d1[i + 1]);
            assert(d2.drop_first()[i] == d2[i + 1]);
        }
        lemma_top_pos_same_keys(d1.drop_first(), d2.drop_first(), k);
    }
}

/// A key found in a document is found at the same place after a push.
pub proof fn lemma_top_pos_push(d: DocView, e: (Seq<char>, SectionView), k: Seq<char>)
    ensures
        top_pos(d, k) >= 0 ==> top_pos(d.push(e), k) == top_pos(d, k),
        top_pos(d, k) < 0 && e.0 != k ==> top_pos(d.push(e), k) < 0,
        top_pos(d, k) < 0 && e.0 == k ==> top_pos(d.push(e), k) == d.len(),
{
    let d1 = d.push(e);
    lemma_top_pos(d, k);
    if top_pos(d, k) >= 0 {
        let p = top_pos(d, k);
        assert forall|j: int| 0 <= j < p implies d1[j].0 != k by {
            assert(d1[j] == d[j]);
        }
        lemma_top_pos_at(d1, k, p);
    } else {
        assert forall|j: int| 0 <= j < d.len() implies d1[j].0 != k by {
            assert(d1[j] == d[j]);
        }
        if e.0 != k {
            lemma_top_pos_none(d1, k);
        } else {
            lemma_top_pos_at(d1, k, d.len() as int);
        }
    }
}

/// Inserting the model entry keeps the keys distinct.
pub proof fn lemma_set_model_distinct(m: MappingView)
    requires
        keys_distinct(m),
    ensures
        keys_distinct(set_model(m)),
{
    lemma_model_pos(m);
    let q = model_pos(m);
    let m1 = set_model(m);
    assert forall|i: int, j: int| 0 <= i < m1.len() && 0 <= j < m1.len() && i != j implies (
    #[trigger] m1[i]).0 != (#[trigger] m1[j]).0 by {
        if q >= 0 {
            assert(m1[i].0 == m[i].0 && m1[j].0 == m[j].0);
        } else if i < m.len() && j < m.len() {
            assert(m1[i] == m[i] && m1[j] == m[j]);
        } else if i < m.len() {
            assert(m1[i] == m[i]);
            assert(!is_model_key(m[i].0));
        } else {
            assert(m1[j] == m[j]);
            assert(!is_model_key(m[j].0));
        }
    }
}

/// Removing the model key keeps the keys distinct.
pub proof fn lemma_unset_model_distinct(m: MappingView)
    requires
        keys_distinct(m),
    ensures
        keys_distinct(unset_model(m)),
{
    lemma_model_pos(m);
    let q = model_pos(m);
    let m2 = unset_model(m);
    if q >= 0 {
        let last = m.len() - 1;
        assert forall|i: int, j: int| 0 <= i < m2.len() && 0 <= j < m2.len() && i != j implies (
        #[trigger] m2[i]).0 != (#[trigger] m2[j]).0 by {
            let a = if i == q {
                last
            } else {
                i
            };
            let b = if j == q {
                last
            } else {
                j
            };
            assert(m2[i] == m[a]);
            assert(m2[j] == m[b]);
            assert(a != b);
        }
    }
}

/// Patching always leaves the model key in the `patch` mapping.
pub proof fn lemma_patched_has(m: Map<Seq<char>, SectionView>)
    ensures
        map_has_model(patched_map(m)),
{
    let pp = patch_pairs(m);
    let s1 = set_model(pp);
    lemma_model_pos(pp);
    let q = model_pos(pp);
    if q >= 0 {
        assert forall|j: int| 0 <= j < q implies !is_model_key(#[trigger] s1[j].0) by {
            assert(s1[j] == pp[j]);
        }
        lemma_model_pos_at(s1, q);
    } else {
        assert forall|j: int| 0 <= j < pp.len() implies !is_model_key(#[trigger] s1[j].0) by {
            assert(s1[j] == pp[j]);
        }
        lemma_model_pos_at(s1, pp.len() as int);
    }
}

/// Unpatching a file whose mappings hold each key once leaves no model key.
pub proof fn lemma_unpatched_clear(m: Map<Seq<char>, SectionView>)
    requires
        map_wf(m),
    ensures
        !map_has_model(unpatched_map(m)),
{
    match m.get(patch_key()) {
        Some(SectionView::Mapping(p)) => {
            assert(m.contains_key(patch_key()));
            lemma_distinct_model_unique(p);
            lemma_unset_model(p);
        },
        _ => {},
    }
}

/// A document read as a map holds the model key exactly when the document
/// does, and its `patch` entry is fine exactly when the document's is.
pub proof fn lemma_map_has(d: DocView)
    ensures
        spec_has(d) == map_has_model(doc_map(d)),
        patch_section_ok(d) == map_patch_ok(doc_map(d)),
{
    lemma_top_pos(d, patch_key());
}

/// Mappings with distinct keys stay so in the map of the document.
pub proof fn lemma_map_wf(d: DocView)
    requires
        mappings_distinct(d),
    ensures
        map_wf(doc_map(d)),
{
    assert forall|k: Seq<char>| #[trigger] doc_map(d).contains_key(k) implies match doc_map(d)[k] {
        SectionView::Mapping(p) => keys_distinct(p),
        SectionView::Other(_) => true,
    } by {
        lemma_top_pos(d, k);
        let p = top_pos(d, k);
        assert(doc_map(d)[k] == d[p].1);
    }
}

/// Patching a document patches its map, and keeps its keys and its
/// mappings' keys distinct.
pub proof fn lemma_map_apply(d: DocView)
    ensures
        spec_apply(d) is Ok <==> map_patch_ok(doc_map(d)),
        spec_apply(d) matches Ok(d1) ==> {
            &&& doc_map(d1) =~= patched_map(doc_map(d))
            &&& (top_keys_distinct(d) ==> top_keys_distinct(d1))
            &&& (mappings_distinct(d) ==> mappings_distinct(d1))
        },
{
    lemma_map_has(d);
    lemma_top_pos(d, patch_key());
    let p = top_pos(d, patch_key());
    let sh = doc_map(d);
    if p < 0 {
        let e = (patch_key(), SectionView::Mapping(seq![model_entry()]));
        let d1 = d.push(e);
        assert(patch_pairs(sh) =~= Seq::<(ScalarView, ScalarView)>::empty());
        lemma_model_pos_none(Seq::<(ScalarView, ScalarView)>::empty());
        assert(set_model(patch_pairs(sh)) =~= seq![model_entry()]);
        assert forall|k: Seq<char>| #[trigger] doc_map(d1).contains_key(k) <==> patched_map(
            sh,
        ).contains_key(k) by {
            lemma_top_pos_push(d, e, k);
        }
        assert forall|k: Seq<char>| #[trigger] doc_map(d1).contains_key(k) implies doc_map(d1)[k]
            == patched_map(sh)[k] by {
            lemma_top_pos_push(d, e, k);
            if k != patch_key() {
                lemma_top_pos(d, k);
                assert(d1[top_pos(d, k)] == d[top_pos(d, k)]);
            }
        }
        assert(doc_map(d1) =~= patched_map(sh));
        if top_keys_distinct(d) {
            assert forall|i: int, j: int|
                0 <= i < d1.len() && 0 <= j < d1.len() && i != j implies (#[trigger] d1[i]).0 != (
            #[trigger] d1[j]).0 by {
                if i < d.len() && j < d.len() {
                    assert(d1[i] == d[i] && d1[j] == d[j]);
                } else if i < d.len() {
                    assert(d1[i] == d[i]);
                } else {
                    assert(d1[j] == d[j]);
                }
            }
        }
        if mappings_distinct(d) {
            assert forall|k: int| 0 <= k < d1.len() implies match (#[trigger] d1[k]).1 {
                SectionView::Mapping(m) => keys_distinct(m),
                SectionView::Other(_) => true,
            } by {
                if k < d.len() {
                    assert(d1[k] == d[k]);
                }
            }
        }
    } else {
        match d[p].1 {
            SectionView::Mapping(m) => {
                let d1 = d.update(p, (d[p].0, SectionView::Mapping(set_model(m))));
                assert(patch_pairs(sh) == m);
                assert forall|k: Seq<char>| #[trigger] doc_map(d1).contains_key(k)
                    <==> patched_map(sh).contains_key(k) by {
                    lemma_top_pos_same_keys(d1, d, k);
                }
                assert forall|k: Seq<char>| #[trigger] doc_map(d1).contains_key(k) implies doc_map(
                    d1,
                )[k] == patched_map(sh)[k] by {
                    lemma_top_pos_same_keys(d1, d, k);
                    lemma_top_pos(d, k);
                    if k != patch_key() {
                        assert(top_pos(d, k) != p);
                        assert(d1[top_pos(d, k)] == d[top_pos(d, k)]);
                    }
                }
                assert(doc_map(d1) =~= patched_map(sh));
                if top_keys_distinct(d) {
                    assert forall|i: int, j: int|
                        0 <= i < d1.len() && 0 <= j < d1.len() && i != j implies (
                    #[trigger] d1[i]).0 != (#[trigger] d1[j]).0 by {
                        assert(d1[i].0 == d[i].0 && d1[j].0 == d[j].0);
                    }
                }
                if mappings_distinct(d) {
                    assert(keys_distinct(m)) by {
                        assert(d[p] == d[p]);
                    }
                    lemma_set_model_distinct(m);
                    assert forall|k: int| 0 <= k < d1.len() implies match (#[trigger] d1[k]).1 {
                        SectionView::Mapping(x) => keys_distinct(x),
                        SectionView::Other(_) => true,
                    } by {
                        if k != p {
                            assert(d1[k] == d[k]);
                        }
                    }
                }
            },
            SectionView::Other(_) => {},
        }
    }
}

/// Unpatching a document unpatches its map, and keeps its keys and its
/// mappings' keys distinct.
pub proof fn lemma_map_remove(d: DocView)
    ensures
        spec_remove(d) is Ok <==> map_patch_ok(doc_map(d)),
        spec_remove(d) matches Ok(d2) ==> {
            &&& doc_map(d2) =~= unpatched_map(doc_map(d))
            &&& (top_keys_distinct(d) ==> top_keys_distinct(d2))
            &&& (mappings_distinct(d) ==> mappings_distinct(d2))
        },
{
    lemma_map_has(d);
    lemma_top_pos(d, patch_key());
    let p = top_pos(d, patch_key());
    let sh = doc_map(d);
    if p >= 0 {
        match d[p].1 {
            SectionView::Mapping(m) => {
                let d2 = d.update(p, (d[p].0, SectionView::Mapping(unset_model(m))));
                assert forall|k: Seq<char>| #[trigger] doc_map(d2).contains_key(k)
                    <==> unpatched_map(sh).contains_key(k) by {
                    lemma_top_pos_same_keys(d2, d, k);
                }
                assert forall|k: Seq<char>| #[trigger] doc_map(d2).contains_key(k) implies doc_map(
                    d2,
                )[k] == unpatched_map(sh)[k] by {
                    lemma_top_pos_same_keys(d2, d, k);
                    lemma_top_pos(d, k);
                    if k != patch_key() {
                        assert(top_pos(d, k) != p);
                        assert(d2[top_pos(d, k)] == d[top_pos(d, k)]);
                    }
                }
                assert(doc_map(d2) =~= unpatched_map(sh));
                if top_keys_distinct(d) {
                    assert forall|i: int, j: int|
                        0 <= i < d2.len() && 0 <= j < d2.len() && i != j implies (
                    #[trigger] d2[i]).0 != (#[trigger] d2[j]).0 by {
                        assert(d2[i].0 == d[i].0 && d2[j].0 == d[j].0);
                    }
                }
                if mappings_distinct(d) {
                    assert(keys_distinct(m)) by {
                        assert(d[p] == d[p]);
                    }
                    lemma_unset_model_distinct(m);
                    assert forall|k: int| 0 <= k < d2.len() implies match (#[trigger] d2[k]).1 {
                        SectionView::Mapping(x) => keys_distinct(x),
                        SectionView::Other(_) => true,
                    } by {
                        if k != p {
                            assert(d2[k] == d[k]);
                        }
                    }
                }
            },
            SectionView::Other(_) => {},
        }
    } else {
        assert(!sh.contains_key(patch_key()));
        assert(unpatched_map(sh) == sh);
    }
}

/// Patch, then unpatch, as the file reads: for a file whose `patch` entry
/// is missing or a mapping, patching sets the model key to the model value
/// in the `patch` mapping and keeps every other entry; the patched file
/// reads as patched, and unpatching it leaves a file that reads as
/// unpatched, again with every other entry kept. A file that did not hold
/// the model key comes back as it was, with an empty `patch` mapping where
/// it had none.
pub proof fn law_text_round_trip(m: Map<Seq<char>, SectionView>)
    requires
        map_patch_ok(m),
        map_wf(m),
    ensures
        map_has_model(patched_map(m)),
        map_patch_ok(patched_map(m)),
        map_wf(patched_map(m)),
        ({
            let p = patch_pairs(patched_map(m));
            model_pos(p) >= 0 && p[model_pos(p)].1 == ScalarView::Text(model_value())
        }),
        !map_has_model(unpatched_map(patched_map(m))),
        forall|k: Seq<char>|
            k != patch_key() ==> #[trigger] patched_map(m).get(k) == m.get(k)
                && unpatched_map(patched_map(m)).get(k) == m.get(k),
        !map_has_model(m) ==> unpatched_map(patched_map(m)) == if m.contains_key(patch_key()) {
            m
        } else {
            m.insert(patch_key(), SectionView::Mapping(seq![]))
        },
{
    let pp = patch_pairs(m);
    assert(keys_distinct(pp)) by {
        if m.contains_key(patch_key()) {
            assert(m.contains_key(patch_key()));
        }
    }
    lemma_set_model_distinct(pp);
    lemma_distinct_model_unique(pp);
    lemma_set_model(pp);
    let m1 = patched_map(m);
    let s1 = set_model(pp);
    assert(patch_pairs(m1) == s1);
    lemma_model_pos(pp);
    lemma_model_pos(s1);
    assert(s1[model_pos(s1)].1 == ScalarView::Text(model_value())) by {
        if model_pos(pp) >= 0 {
            lemma_model_pos_at(s1, model_pos(pp));
        } else {
            lemma_model_pos_at(s1, pp.len() as int);
        }
    }
    assert forall|k: Seq<char>| #[trigger] m1.contains_key(k) implies match m1[k] {
        SectionView::Mapping(x) => keys_distinct(x),
        SectionView::Other(_) => true,
    } by {
        if k != patch_key() {
            assert(m.contains_key(k));
        }
    }
    lemma_distinct_model_unique(s1);
    lemma_unset_model(s1);
    if !map_has_model(m) {
        let m2 = unpatched_map(m1);
        assert(model_pos(pp) < 0);
        assert(unset_model(s1) =~= pp);
        if m.contains_key(patch_key()) {
            assert(m2 =~= m);
        } else {
            assert(pp =~= Seq::<(ScalarView, ScalarView)>::empty());
            assert(m2 =~= m.insert(patch_key(), SectionView::Mapping(seq![])));
        }
    }
}

// ---------------------------------------------------------------------------
// Reading and writing YAML
// ---------------------------------------------------------------------------

/// `serde_yaml::from_str` into a map from strings to YAML values, each
/// value told apart as a mapping (its pairs in order, strings told from
/// other values) or any other value. It fails exactly when `yaml_doc` is
/// `None`, and otherwise gives that map. A map and a YAML mapping hold each
/// key once. The entries come in the map's iteration order, which differs
/// from run to run, so their order is not stated.
#[verifier::external_body]
fn parse_top_level(data: &str) -> (r: Result<Vec<TopEntry>, serde_yaml::Error>)
    ensures
        r is Ok <==> yaml_doc(data@) is Some,
        r matches Ok(v) ==> {
            &&& yaml_doc(data@) == Some(doc_map(entries_view(v@)))
            &&& top_keys_distinct(entries_view(v@))
            &&& mappings_distinct(entries_view(v@))
        },
{
    let text = |x: serde_yaml::Value| match x {
        serde_yaml::Value::String(s) => YamlScalar::Text(s),
        value => YamlScalar::Other(NotText { value }),
    };
    let map = serde_yaml::from_str::<HashMap<String, serde_yaml::Value>>(data)?;
    Ok(map.into_iter().map(|(key, v)| TopEntry { key, value: match v {
        serde_yaml::Value::Mapping(m) => Section::Mapping(m.into_iter().map(|(k, x)| (text(k), text(x))).collect()),
        value => Section::Other(NotMapping { value }),
    } }).collect())
}

/// `serde_yaml::to_string` of the entries gathered into a map from strings
/// to YAML values, strings and mappings rebuilt as YAML values. With
/// distinct top-level keys it succeeds exactly when `yaml_prints` holds of
/// their map; when the mappings' keys are distinct too, the text reads back
/// as that map: serde_yaml reads what it wrote. The text itself is not
/// stated: the map's iteration order, which differs from run to run,
/// decides it.
#[verifier::external_body]
fn print_top_level(entries: Vec<TopEntry>) -> (r: Result<String, serde_yaml::Error>)
    ensures
        top_keys_distinct(entries_view(entries@)) ==> (r is Ok <==> yaml_prints(
            doc_map(entries_view(entries@)),
        )),
        top_keys_distinct(entries_view(entries@)) && mappings_distinct(entries_view(entries@))
            ==> (r matches Ok(s) ==> yaml_doc(s@) == Some(doc_map(entries_view(entries@)))),
{
    let value = |s: YamlScalar| match s {
        YamlScalar::Text(t) => serde_yaml::Value::String(t),
        YamlScalar::Other(o) => o.value,
    };
    let map: HashMap<String, serde_yaml::Value> = entries.into_iter().map(|e| (e.key, match e.value {
        Section::Mapping(m) => serde_yaml::Value::Mapping(m.into_iter().map(|(k, x)| (value(k), value(x))).collect()),
        Section::Other(o) => o.value,
    })).collect();
    serde_yaml::to_string(&map)
}

/// Parses a patch file into the document model: it fails exactly when
/// serde_yaml refuses the text, and otherwise holds what serde_yaml read
/// (`yaml_doc`), each top-level key once and each mapping key once. The
/// order of the top-level entries is not stated (see `parse_top_level`).
pub fn load_patch_doc(data: &str) -> (r: Result<PatchDoc, ModelPatchError>)
    ensures
        r is Ok <==> yaml_doc(data@) is Some,
        r matches Err(e) ==> e == ModelPatchError::Parse,
        r matches Ok(d) ==> {
            &&& yaml_doc(data@) == Some(doc_map(d@))
            &&& map_wf(doc_map(d@))
            &&& doc_wf(d@)
            &&& top_keys_distinct(d@)
            &&& mappings_distinct(d@)
        },
{
    match parse_top_level(data) {
        Ok(entries) => {
            proof {
                lemma_distinct_doc_wf(entries_view(entries@));
                lemma_map_wf(entries_view(entries@));
            }
            Ok(PatchDoc { entries })
        },
        Err(_) => Err(ModelPatchError::Parse),
    }
}

/// Prints the document model as a patch file. With distinct top-level keys
/// it succeeds exactly when serde_yaml can print the document
/// (`yaml_prints`), else it gives the serialisation error; when the
/// mappings' keys are distinct too, the text reads back as the document.
/// The text itself is not stated (see `print_top_level`).
pub fn store_patch_doc(doc: PatchDoc) -> (r: Result<String, ModelPatchError>)
    ensures
        r matches Err(e) ==> e == ModelPatchError::Serialize,
        top_keys_distinct(doc@) ==> (r is Ok <==> yaml_prints(doc_map(doc@))),
        top_keys_distinct(doc@) && mappings_distinct(doc@) ==> (r matches Ok(s) ==> yaml_doc(s@)
            == Some(doc_map(doc@))),
{
    match print_top_level(doc.entries) {
        Ok(s) => Ok(s),
        Err(_) => Err(ModelPatchError::Serialize),
    }
}

/// The document of a patch file that may not exist yet: empty when it does
/// not.
fn load_or_empty(existing: Option<&str>) -> (r: Result<PatchDoc, ModelPatchError>)
    ensures
        r is Ok <==> existing_doc(opt_text(existing)) is Some,
        r matches Err(e) ==> e == ModelPatchError::Parse,
        r matches Ok(d) ==> {
            &&& existing_doc(opt_text(existing)) == Some(doc_map(d@))
            &&& doc_wf(d@)
            &&& top_keys_distinct(d@)
            &&& mappings_distinct(d@)
        },
{
    match existing {
        Some(text) => load_patch_doc(text),
        None => {
            let d = PatchDoc { entries: Vec::new() };
            assert(d@ =~= Seq::<(Seq<char>, SectionView)>::empty());
            assert(doc_map(d@) =~= Map::<Seq<char>, SectionView>::empty());
            proof {
                lemma_distinct_doc_wf(d@);
            }
            Ok(d)
        },
    }
}

/// The new text of `<schema_id>.custom.yaml` with the grammar model patched
/// in, from its current text (`None` when the file does not exist): text
/// serde_yaml refuses gives the parse error; a `patch` entry that is not a
/// mapping the not-a-mapping error; a patched file serde_yaml cannot print
/// the serialisation error; otherwise it succeeds, and the new text reads
/// as the old one patched (`patched_map`).
pub fn patch_model(existing: Option<&str>) -> (r: Result<String, ModelPatchError>)
    ensures
        ({
            let m = existing_doc(opt_text(existing));
            &&& (r == Err::<String, ModelPatchError>(ModelPatchError::Parse) <==> m is None)
            &&& (r == Err::<String, ModelPatchError>(ModelPatchError::NotMapping) <==> (m matches Some(
                x,
            ) && !map_patch_ok(x)))
            &&& (r == Err::<String, ModelPatchError>(ModelPatchError::Serialize) <==> (m matches Some(
                x,
            ) && map_patch_ok(x) && !yaml_prints(patched_map(x))))
            &&& (r matches Ok(s) ==> (m matches Some(x) && yaml_doc(s@) == Some(patched_map(x))
                && map_has_model(patched_map(x))))
        }),
{
    let doc = match load_or_empty(existing) {
        Ok(d) => d,
        Err(e) => {
            return Err(e);
        },
    };
    proof {
        lemma_map_apply(doc@);
        lemma_patched_has(doc_map(doc@));
    }
    let patched = match apply_model_patch(doc) {
        Ok(d) => d,
        Err(e) => {
            return Err(e);
        },
    };
    store_patch_doc(patched)
}

/// The new text of `<schema_id>.custom.yaml` with the grammar model patch
/// removed; `Ok(None)` when the file does not exist, which leaves nothing
/// to write. Text serde_yaml refuses gives the parse error; a `patch`
/// entry that is not a mapping the not-a-mapping error; an unpatched file
/// serde_yaml cannot print the serialisation error; otherwise it succeeds,
/// and the new text reads as the old one unpatched (`unpatched_map`).
pub fn unpatch_model(existing: Option<&str>) -> (r: Result<Option<String>, ModelPatchError>)
    ensures
        existing is None <==> r == Ok::<Option<String>, ModelPatchError>(None),
        existing matches Some(t) ==> {
            &&& (r == Err::<Option<String>, ModelPatchError>(ModelPatchError::Parse)
                <==> yaml_doc(t@) is None)
            &&& (r == Err::<Option<String>, ModelPatchError>(ModelPatchError::NotMapping)
                <==> (yaml_doc(t@) matches Some(x) && !map_patch_ok(x)))
            &&& (r == Err::<Option<String>, ModelPatchError>(ModelPatchError::Serialize)
                <==> (yaml_doc(t@) matches Some(x) && map_patch_ok(x) && !yaml_prints(
                unpatched_map(x),
            )))
            &&& (r matches Ok(Some(s)) ==> (yaml_doc(t@) matches Some(x) && yaml_doc(s@) == Some(
                unpatched_map(x),
            ) && !map_has_model(unpatched_map(x))))
        },
{
    match existing {
        None => Ok(None),
        Some(text) => {
            let doc = match load_patch_doc(text) {
                Ok(d) => d,
                Err(e) => {
                    return Err(e);
                },
            };
            proof {
                lemma_map_remove(doc@);
                lemma_map_wf(doc@);
                lemma_unpatched_clear(doc_map(doc@));
            }
            let cleaned = match remove_model_patch(doc) {
                Ok(d) => d,
                Err(e) => {
                    return Err(e);
                },
            };
            match store_patch_doc(cleaned) {
                Ok(s) => Ok(Some(s)),
                Err(e) => Err(e),
            }
        },
    }
}

/// Whether the grammar model patch is in `<schema_id>.custom.yaml`: the
/// `patch` entry is a mapping holding the model key; never when the file
/// does not exist or serde_yaml refuses its text.
pub fn is_model_patched(existing: Option<&str>) -> (r: bool)
    ensures
        r == (existing_doc(opt_text(existing)) matches Some(m) && map_has_model(m)),
{
    match load_or_empty(existing) {
        Ok(doc) => {
            proof {
                lemma_map_has(doc@);
            }
            has_model_patch(&doc)
        },
        Err(_) => false,
    }
}

/// What toggling the grammar model patch wrote: the new text of the patch
/// file, patched or unpatched.
pub enum PatchToggle {
    /// The patch was not in the file; the text has it.
    Enabled(String),
    /// The patch was in the file; the text no longer has it.
    Disabled(String),
}

/// Toggles the grammar model patch of `<schema_id>.custom.yaml`: a file
/// that holds it is unpatched (`unpatch_model`), any other is patched
/// (`patch_model`), with their errors; whichever was done, the new text
/// reads the other way.
pub fn toggle_model_patch(existing: Option<&str>) -> (r: Result<PatchToggle, ModelPatchError>)
    ensures
        ({
            let m = existing_doc(opt_text(existing));
            let was = m matches Some(x) && map_has_model(x);
            &&& (r == Err::<PatchToggle, ModelPatchError>(ModelPatchError::Parse) <==> m is None)
            &&& (r == Err::<PatchToggle, ModelPatchError>(ModelPatchError::NotMapping) <==> (
            m matches Some(x) && !map_patch_ok(x)))
            &&& (r == Err::<PatchToggle, ModelPatchError>(ModelPatchError::Serialize) <==> (
            m matches Some(x) && map_patch_ok(x) && !yaml_prints(
                if was {
                    unpatched_map(x)
                } else {
                    patched_map(x)
                },
            )))
            &&& (r matches Ok(PatchToggle::Enabled(s)) ==> !was && (m matches Some(x)
                && yaml_doc(s@) == Some(patched_map(x)) && map_has_model(patched_map(x))))
            &&& (r matches Ok(PatchToggle::Disabled(s)) ==> was && (m matches Some(x)
                && yaml_doc(s@) == Some(unpatched_map(x)) && !map_has_model(unpatched_map(x))))
        }),
{
    if is_model_patched(existing) {
        match unpatch_model(existing) {
            Ok(Some(s)) => Ok(PatchToggle::Disabled(s)),
            Ok(None) => {
                // A patched file exists, so unpatching always has a text.
                proof {
                    assert(false);
                }
                Err(ModelPatchError::Serialize)
            },
            Err(e) => Err(e),
        }
    } else {
        match patch_model(existing) {
            Ok(s) => Ok(PatchToggle::Enabled(s)),
            Err(e) => Err(e),
        }
    }
}


/// Unpatching a mapping removes the model key and nothing else: every pair
/// whose key is not the model key is kept, wherever the model key stood;
/// every pair left was there before; the mapping shrinks by one exactly
/// when it held the model key; and when it held the key once, none is left.
pub proof fn law_unset_model(m: MappingView)
    ensures
        forall|i: int|
            0 <= i < m.len() && !is_model_key(m[i].0) ==> unset_model(m).contains(#[trigger] m[i]),
        forall|j: int| 0 <= j < unset_model(m).len() ==> m.contains(#[trigger] unset_model(m)[j]),
        unset_model(m).len() == if exists|i: int| 0 <= i < m.len() && is_model_key(#[trigger] m[i].0) {
            m.len() - 1
        } else {
            m.len() as int
        },
        model_key_unique(m) ==> forall|j: int|
            0 <= j < unset_model(m).len() ==> !is_model_key(#[trigger] unset_model(m)[j].0),
{
    lemma_model_pos(m);
    let q = model_pos(m);
    let u = unset_model(m);
    if q >= 0 {
        let last = m.len() - 1;
        assert forall|i: int| 0 <= i < m.len() && !is_model_key(m[i].0) implies u.contains(
            #[trigger] m[i],
        ) by {
            assert(i != q);
            if i == last {
                assert(u[q] == m[i]);
            } else {
                assert(u[i] == m[i]);
            }
        }
        assert forall|j: int| 0 <= j < u.len() implies m.contains(#[trigger] u[j]) by {
            if j == q {
                assert(u[j] == m[last]);
            } else {
                assert(u[j] == m[j]);
            }
        }
        if model_key_unique(m) {
            assert forall|j: int| 0 <= j < u.len() implies !is_model_key(#[trigger] u[j].0) by {
                let k = if j == q {
                    last
                } else {
                    j
                };
                assert(u[j] == m[k]);
                assert(k != q);
                if is_model_key(m[k].0) {
                    assert(is_model_key(m[q].0));
                }
            }
        }
        assert(is_model_key(m[q].0));
    } else {
        assert(u == m);
        assert forall|i: int| 0 <= i < m.len() && !is_model_key(m[i].0) implies u.contains(
            #[trigger] m[i],
        ) by {
            assert(u[i] == m[i]);
        }
        assert forall|j: int| 0 <= j < u.len() implies m.contains(#[trigger] u[j]) by {
            assert(m[j] == u[j]);
        }
    }
}

/// Unpatching a file keeps every pair of its `patch` mapping but the model
/// key's, and every other top-level entry.
pub proof fn law_unpatch_keeps_settings(m: Map<Seq<char>, SectionView>)
    ensures
        forall|i: int|
            0 <= i < patch_pairs(m).len() && !is_model_key(patch_pairs(m)[i].0) ==> patch_pairs(
                unpatched_map(m),
            ).contains(#[trigger] patch_pairs(m)[i]),
        forall|k: Seq<char>| k != patch_key() ==> #[trigger] unpatched_map(m).get(k) == m.get(k),
{
    law_unset_model(patch_pairs(m));
}

} // verus!
