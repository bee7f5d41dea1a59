//! Test-runner suite documents: a tagged tree model of a suite
//! document, the rewriter that restricts a suite to a test list or
//! appends an exclusion set, and the fixture classifier.
use vstd::prelude::*;

use yaml_rust::Yaml;

use crate::errors::GenError;

verus! {

broadcast use vstd::seq_lib::group_seq_properties;

/// One node of a structured suite document: a scalar, a sequence, or a
/// mapping with string keys kept in document order.
#[derive(Debug)]
pub enum DocNode {
    Null,
    Bool(bool),
    Int(i64),
    /// A floating-point scalar, kept as its textual form.
    Real(String),
    Text(String),
    List(Vec<DocNode>),
    Dict(Vec<(String, DocNode)>),
}

/// The mathematical value of a document node.
pub enum DocVal {
    Null,
    Bool(bool),
    Int(int),
    Real(Seq<char>),
    Text(Seq<char>),
    List(Seq<DocVal>),
    Dict(Seq<(Seq<char>, DocVal)>),
}

pub open spec fn node_view(n: DocNode) -> DocVal
    decreases n,
{
    match n {
        DocNode::Null => DocVal::Null,
        DocNode::Bool(b) => DocVal::Bool(b),
        DocNode::Int(i) => DocVal::Int(i as int),
        DocNode::Real(s) => DocVal::Real(s@),
        DocNode::Text(s) => DocVal::Text(s@),
        DocNode::List(items) => DocVal::List(items_view(items@)),
        DocNode::Dict(entries) => DocVal::Dict(entries_view(entries@)),
    }
}

pub open spec fn items_view(items: Seq<DocNode>) -> Seq<DocVal>
    decreases items,
{
    if items.len() == 0 {
        Seq::<DocVal>::empty()
    } else {
        items_view(items.drop_last()).push(node_view(items.last()))
    }
}

pub open spec fn entries_view(entries: Seq<(String, DocNode)>) -> Seq<(Seq<char>, DocVal)>
    decreases entries,
{
    if entries.len() == 0 {
        Seq::<(Seq<char>, DocVal)>::empty()
    } else {
        entries_view(entries.drop_last()).push(
            (entries.last().0@, node_view(entries.last().1)),
        )
    }
}

impl View for DocNode {
    type V = DocVal;

    open spec fn view(&self) -> DocVal {
        node_view(*self)
    }
}

pub proof fn lemma_items_view_len(items: Seq<DocNode>)
    ensures
        items_view(items).len() == items.len(),
        forall|i: int|
            0 <= i < items.len() ==> #[trigger] items_view(items)[i] == node_view(items[i]),
    decreases items,
{
    if items.len() > 0 {
        lemma_items_view_len(items.drop_last());
    }
}

pub proof fn lemma_entries_view_len(entries: Seq<(String, DocNode)>)
    ensures
        entries_view(entries).len() == entries.len(),
        forall|i: int|
            0 <= i < entries.len() ==> #[trigger] entries_view(entries)[i] == (
            entries[i].0@,
            node_view(entries[i].1),
            ),
    decreases entries,
{
    if entries.len() > 0 {
        lemma_entries_view_len(entries.drop_last());
    }
}

/// Lookup in a mapping: the value of the first entry with the key.
pub open spec fn dict_get(entries: Seq<(Seq<char>, DocVal)>, key: Seq<char>) -> Option<DocVal>
    decreases entries.len(),
{
    if entries.len() == 0 {
        None
    } else if entries[0].0 == key {
        Some(entries[0].1)
    } else {
        dict_get(entries.drop_first(), key)
    }
}

pub open spec fn dict_has(entries: Seq<(Seq<char>, DocVal)>, key: Seq<char>) -> bool {
    dict_get(entries, key) is Some
}

/// A prefix without the key does not affect lookup.
proof fn lemma_dict_get_step(entries: Seq<(Seq<char>, DocVal)>, key: Seq<char>, i: int)
    requires
        0 <= i < entries.len(),
        forall|j: int| 0 <= j < i ==> entries[j].0 != key,
    ensures
        dict_get(entries, key) == dict_get(entries.subrange(i, entries.len() as int), key),
    decreases i,
{
    if i > 0 {
        lemma_dict_get_step(entries, key, i - 1);
        assert(entries.subrange(i - 1, entries.len() as int).drop_first() =~= entries.subrange(
            i,
            entries.len() as int,
        ));
    } else {
        assert(entries.subrange(0, entries.len() as int) =~= entries);
    }
}

/// When no entry carries the key, lookup fails.
proof fn lemma_dict_get_none(entries: Seq<(Seq<char>, DocVal)>, key: Seq<char>)
    requires
        forall|j: int| 0 <= j < entries.len() ==> entries[j].0 != key,
    ensures
        dict_get(entries, key) is None,
    decreases entries.len(),
{
    if entries.len() > 0 {
        lemma_dict_get_none(entries.drop_first(), key);
    }
}

/// Find the first entry of a mapping with the given key.
pub fn map_get<'a>(entries: &'a Vec<(String, DocNode)>, key: &str) -> (r: Option<&'a DocNode>)
    ensures
        match r {
            Some(v) => dict_get(entries_view(entries@), key@) == Some(v@),
            None => dict_get(entries_view(entries@), key@) is None,
        },
{
    proof {
        lemma_entries_view_len(entries@);
    }
    let n = entries.len();
    let mut i: usize = 0;
    while i < n
        invariant
            n == entries.len(),
            i <= n,
            forall|j: int| 0 <= j < i ==> entries@[j].0@ != key@,
            entries_view(entries@).len() == entries@.len(),
            forall|j: int|
                0 <= j < entries@.len() ==> #[trigger] entries_view(entries@)[j] == (
                entries@[j].0@,
                node_view(entries@[j].1),
                ),
        decreases n - i,
    {
        if crate::strings::str_eq(entries[i].0.as_str(), key) {
            proof {
                lemma_dict_get_step(entries_view(entries@), key@, i as int);
                assert(entries_view(entries@).subrange(
                    i as int,
                    entries@.len() as int,
                )[0] == (entries@[i as int].0@, node_view(entries@[i as int].1)));
            }
            return Some(&entries[i].1);
        }
        i = i + 1;
    }
    proof {
        lemma_dict_get_none(entries_view(entries@), key@);
    }
    None
}

pub open spec fn key_selector() -> Seq<char> {
    seq!['s', 'e', 'l', 'e', 'c', 't', 'o', 'r']
}

pub open spec fn key_executor() -> Seq<char> {
    seq!['e', 'x', 'e', 'c', 'u', 't', 'o', 'r']
}

pub open spec fn key_fixture() -> Seq<char> {
    seq!['f', 'i', 'x', 't', 'u', 'r', 'e']
}

pub open spec fn key_class() -> Seq<char> {
    seq!['c', 'l', 'a', 's', 's']
}

pub open spec fn key_exclude_files() -> Seq<char> {
    seq!['e', 'x', 'c', 'l', 'u', 'd', 'e', '_', 'f', 'i', 'l', 'e', 's']
}

pub open spec fn key_roots() -> Seq<char> {
    seq!['r', 'o', 'o', 't', 's']
}

/// Strings turned into text nodes, in order.
pub open spec fn texts_of(l: Seq<Seq<char>>) -> Seq<DocVal> {
    Seq::new(l.len(), |i: int| DocVal::Text(l[i]))
}

/// Every entry with the key gets the value, in place; other entries
/// stay as they are.
pub open spec fn replace_key(
    entries: Seq<(Seq<char>, DocVal)>,
    key: Seq<char>,
    v: DocVal,
) -> Seq<(Seq<char>, DocVal)> {
    Seq::new(
        entries.len(),
        |i: int|
            if entries[i].0 == key {
                (key, v)
            } else {
                entries[i]
            },
    )
}

/// Entries with the key removed; the order of the rest is kept.
pub open spec fn remove_key(entries: Seq<(Seq<char>, DocVal)>, key: Seq<char>) -> Seq<
    (Seq<char>, DocVal),
>
    decreases entries.len(),
{
    if entries.len() == 0 {
        Seq::<(Seq<char>, DocVal)>::empty()
    } else if entries[0].0 == key {
        remove_key(entries.drop_first(), key)
    } else {
        seq![entries[0]] + remove_key(entries.drop_first(), key)
    }
}

/// The value stored under the key, replacing it in place when present
/// and appended at the end otherwise.
pub open spec fn replace_or_append(
    entries: Seq<(Seq<char>, DocVal)>,
    key: Seq<char>,
    v: DocVal,
) -> Seq<(Seq<char>, DocVal)> {
    if dict_has(entries, key) {
        replace_key(entries, key, v)
    } else {
        entries.push((key, v))
    }
}

/// The rewritten selector mapping. With an exclusion set, its elements
/// are appended to `exclude_files` (created when absent; left alone
/// when present but not a list). Without one, `exclude_files` is
/// removed and `roots` is set to the test list.
pub open spec fn spec_new_selector(
    sel: Seq<(Seq<char>, DocVal)>,
    tests: Seq<Seq<char>>,
    all: Option<Seq<Seq<char>>>,
) -> Seq<(Seq<char>, DocVal)> {
    match all {
        Some(a) => match dict_get(sel, key_exclude_files()) {
            Some(DocVal::List(ex)) => replace_key(
                sel,
                key_exclude_files(),
                DocVal::List(ex + texts_of(a)),
            ),
            Some(_) => sel,
            None => sel.push((key_exclude_files(), DocVal::List(texts_of(a)))),
        },
        None => replace_or_append(
            remove_key(sel, key_exclude_files()),
            key_roots(),
            DocVal::List(texts_of(tests)),
        ),
    }
}

/// The rewritten top-level entries: every entry but `selector` is
/// kept; a mapping-valued `selector` is rewritten; a `selector` of any
/// other shape is dropped.
pub open spec fn upd_entries(
    root: Seq<(Seq<char>, DocVal)>,
    tests: Seq<Seq<char>>,
    all: Option<Seq<Seq<char>>>,
) -> Seq<(Seq<char>, DocVal)>
    decreases root.len(),
{
    if root.len() == 0 {
        Seq::<(Seq<char>, DocVal)>::empty()
    } else {
        let rest = upd_entries(root.drop_first(), tests, all);
        let e = root[0];
        if e.0 != key_selector() {
            seq![e] + rest
        } else {
            match e.1 {
                DocVal::Dict(sel) => seq![(e.0, DocVal::Dict(spec_new_selector(sel, tests, all)))]
                    + rest,
                _ => rest,
            }
        }
    }
}

/// The rewritten document: a mapping root is rewritten entry by entry;
/// any other root yields an empty mapping.
pub open spec fn spec_update_doc(
    d: DocVal,
    tests: Seq<Seq<char>>,
    all: Option<Seq<Seq<char>>>,
) -> DocVal {
    match d {
        DocVal::Dict(root) => DocVal::Dict(upd_entries(root, tests, all)),
        _ => DocVal::Dict(Seq::<(Seq<char>, DocVal)>::empty()),
    }
}

/// Lookup after an in-place replacement.
pub proof fn lemma_dict_get_replace_key(
    entries: Seq<(Seq<char>, DocVal)>,
    key: Seq<char>,
    v: DocVal,
    k: Seq<char>,
)
    ensures
        dict_get(replace_key(entries, key, v), k) == if k == key {
            if dict_has(entries, key) {
                Some(v)
            } else {
                None::<DocVal>
            }
        } else {
            dict_get(entries, k)
        },
    decreases entries.len(),
{
    if entries.len() > 0 {
        lemma_dict_get_replace_key(entries.drop_first(), key, v, k);
        assert(replace_key(entries, key, v).drop_first() =~= replace_key(
            entries.drop_first(),
            key,
            v,
        ));
    }
}

/// Lookup after a removal.
pub proof fn lemma_dict_get_remove_key(
    entries: Seq<(Seq<char>, DocVal)>,
    key: Seq<char>,
    k: Seq<char>,
)
    ensures
        dict_get(remove_key(entries, key), k) == if k == key {
            None::<DocVal>
        } else {
            dict_get(entries, k)
        },
    decreases entries.len(),
{
    if entries.len() > 0 {
        lemma_dict_get_remove_key(entries.drop_first(), key, k);
        if entries[0].0 != key {
            let r = seq![entries[0]] + remove_key(entries.drop_first(), key);
            assert(r[0] == entries[0]);
            assert(r.drop_first() =~= remove_key(entries.drop_first(), key));
        }
    }
}

/// Lookup after appending an entry at the end.
pub proof fn lemma_dict_get_push(
    entries: Seq<(Seq<char>, DocVal)>,
    key: Seq<char>,
    v: DocVal,
    k: Seq<char>,
)
    ensures
        dict_get(entries.push((key, v)), k) == match dict_get(entries, k) {
            Some(w) => Some(w),
            None => if k == key {
                Some(v)
            } else {
                None::<DocVal>
            },
        },
    decreases entries.len(),
{
    if entries.len() == 0 {
        assert(entries.push((key, v))[0] == (key, v));
        assert(entries.push((key, v)).drop_first() =~= Seq::<(Seq<char>, DocVal)>::empty());
    } else {
        lemma_dict_get_push(entries.drop_first(), key, v, k);
        assert(entries.push((key, v)).drop_first() =~= entries.drop_first().push((key, v)));
    }
}

/// Whether the keys of a mapping are pairwise distinct, as they are in
/// any parsed document.
pub open spec fn unique_keys(entries: Seq<(Seq<char>, DocVal)>) -> bool {
    forall|i: int, j: int|
        0 <= i < j < entries.len() ==> (#[trigger] entries[i]).0 != (#[trigger] entries[j]).0
}

/// Lookup in the rewritten top level: every key but `selector` is
/// unchanged; `selector` maps to the rewritten selector exactly when
/// it was a mapping.
pub proof fn lemma_dict_get_upd_entries(
    root: Seq<(Seq<char>, DocVal)>,
    tests: Seq<Seq<char>>,
    all: Option<Seq<Seq<char>>>,
    k: Seq<char>,
)
    requires
        unique_keys(root),
    ensures
        k != key_selector() ==> dict_get(upd_entries(root, tests, all), k) == dict_get(root, k),
        k == key_selector() ==> dict_get(upd_entries(root, tests, all), k) == match dict_get(
            root,
            k,
        ) {
            Some(DocVal::Dict(sel)) => Some(DocVal::Dict(spec_new_selector(sel, tests, all))),
            _ => None::<DocVal>,
        },
    decreases root.len(),
{
    if root.len() > 0 {
        lemma_dict_get_upd_entries(root.drop_first(), tests, all, k);
        let rest = upd_entries(root.drop_first(), tests, all);
        let e = root[0];
        if e.0 != key_selector() {
            let r = seq![e] + rest;
            assert(r[0] == e);
            assert(r.drop_first() =~= rest);
        } else {
            assert(forall|j: int|
                0 <= j < root.drop_first().len() ==> root.drop_first()[j].0 != key_selector());
            lemma_dict_get_none(root.drop_first(), key_selector());
            match e.1 {
                DocVal::Dict(sel) => {
                    let ne = (e.0, DocVal::Dict(spec_new_selector(sel, tests, all)));
                    let r = seq![ne] + rest;
                    assert(r[0] == ne);
                    assert(r.drop_first() =~= rest);
                },
                _ => {},
            }
        }
    }
}

/// Lookup distributes over concatenation, preferring the front.
pub proof fn lemma_dict_get_append(a: Seq<(Seq<char>, DocVal)>, b: Seq<(Seq<char>, DocVal)>, k: Seq<char>)
    ensures
        dict_get(a + b, k) == match dict_get(a, k) {
            Some(v) => Some(v),
            None => dict_get(b, k),
        },
    decreases a.len(),
{
    if a.len() == 0 {
        assert(a + b =~= b);
    } else {
        lemma_dict_get_append(a.drop_first(), b, k);
        assert((a + b)[0] == a[0]);
        assert((a + b).drop_first() =~= a.drop_first() + b);
    }
}

/// Removal distributes over concatenation.
pub proof fn lemma_remove_key_append(
    a: Seq<(Seq<char>, DocVal)>,
    b: Seq<(Seq<char>, DocVal)>,
    key: Seq<char>,
)
    ensures
        remove_key(a + b, key) == remove_key(a, key) + remove_key(b, key),
    decreases a.len(),
{
    if a.len() == 0 {
        assert(a + b =~= b);
        assert(remove_key(a, key) + remove_key(b, key) =~= remove_key(b, key));
    } else {
        lemma_remove_key_append(a.drop_first(), b, key);
        assert((a + b)[0] == a[0]);
        assert((a + b).drop_first() =~= a.drop_first() + b);
        if a[0].0 != key {
            assert(seq![a[0]] + (remove_key(a.drop_first(), key) + remove_key(b, key)) =~= (
            seq![a[0]] + remove_key(a.drop_first(), key)) + remove_key(b, key));
        }
    }
}

/// Entry-wise rewriting distributes over concatenation.
pub proof fn lemma_upd_entries_append(
    a: Seq<(Seq<char>, DocVal)>,
    b: Seq<(Seq<char>, DocVal)>,
    tests: Seq<Seq<char>>,
    all: Option<Seq<Seq<char>>>,
)
    ensures
        upd_entries(a + b, tests, all) == upd_entries(a, tests, all) + upd_entries(b, tests, all),
    decreases a.len(),
{
    if a.len() == 0 {
        assert(a + b =~= b);
        assert(upd_entries(a, tests, all) + upd_entries(b, tests, all) =~= upd_entries(
            b,
            tests,
            all,
        ));
    } else {
        lemma_upd_entries_append(a.drop_first(), b, tests, all);
        assert((a + b)[0] == a[0]);
        assert((a + b).drop_first() =~= a.drop_first() + b);
        let e = a[0];
        let ra = upd_entries(a.drop_first(), tests, all);
        let rb = upd_entries(b, tests, all);
        if e.0 != key_selector() {
            assert(seq![e] + (ra + rb) =~= (seq![e] + ra) + rb);
        } else {
            match e.1 {
                DocVal::Dict(sel) => {
                    let ne = (e.0, DocVal::Dict(spec_new_selector(sel, tests, all)));
                    assert(seq![ne] + (ra + rb) =~= (seq![ne] + ra) + rb);
                },
                _ => {},
            }
        }
    }
}

/// Deep copy of a document node; the copy has the same value.
#[verifier::loop_isolation(false)]
pub fn clone_node(n: &DocNode) -> (r: DocNode)
    ensures
        r@ == n@,
    decreases *n,
{
    match n {
        DocNode::Null => DocNode::Null,
        DocNode::Bool(b) => DocNode::Bool(*b),
        DocNode::Int(i) => DocNode::Int(*i),
        DocNode::Real(s) => DocNode::Real(s.clone()),
        DocNode::Text(s) => DocNode::Text(s.clone()),
        DocNode::List(items) => {
            let m = items.len();
            let mut out: Vec<DocNode> = Vec::new();
            let mut i: usize = 0;
            while i < m
                invariant
                    m == items.len(),
                    i <= m,
                    out@.len() == i,
                    forall|j: int| 0 <= j < i ==> #[trigger] out@[j]@ == items@[j]@,
                decreases m - i,
            {
                proof {
                    assert(decreases_to!(*n => (*n)->List_0));
                    assert(decreases_to!(*items => items@));
                    assert(decreases_to!(items@ => items@[i as int]));
                }
                let c = clone_node(&items[i]);
                out.push(c);
                i = i + 1;
            }
            proof {
                lemma_items_view_len(items@);
                lemma_items_view_len(out@);
                assert forall|k: int| 0 <= k < items@.len() implies items_view(out@)[k]
                    == items_view(items@)[k] by {
                    assert(out@[k]@ == items@[k]@);
                    assert(items_view(out@)[k] == node_view(out@[k]));
                    assert(items_view(items@)[k] == node_view(items@[k]));
                    assert(node_view(out@[k]) == out@[k]@);
                    assert(node_view(items@[k]) == items@[k]@);
                }
                assert(items_view(out@) =~= items_view(items@));
            }
            DocNode::List(out)
        },
        DocNode::Dict(entries) => {
            let m = entries.len();
            let mut out: Vec<(String, DocNode)> = Vec::new();
            let mut i: usize = 0;
            while i < m
                invariant
                    m == entries.len(),
                    i <= m,
                    out@.len() == i,
                    forall|j: int|
                        0 <= j < i ==> #[trigger] out@[j].0@ == entries@[j].0@ && out@[j].1@
                            == entries@[j].1@,
                decreases m - i,
            {
                proof {
                    assert(decreases_to!(*n => (*n)->Dict_0));
                    assert(decreases_to!(*entries => entries@));
                    assert(decreases_to!(entries@ => entries@[i as int]));
                    assert(decreases_to!(entries@[i as int] => entries@[i as int].1));
                }
                let k = entries[i].0.clone();
                let v = clone_node(&entries[i].1);
                out.push((k, v));
                i = i + 1;
            }
            proof {
                lemma_entries_view_len(entries@);
                lemma_entries_view_len(out@);
                assert forall|k: int| 0 <= k < entries@.len() implies entries_view(out@)[k]
                    == entries_view(entries@)[k] by {
                    assert(out@[k].0@ == entries@[k].0@ && out@[k].1@ == entries@[k].1@);
                    assert(entries_view(out@)[k] == (out@[k].0@, node_view(out@[k].1)));
                    assert(entries_view(entries@)[k] == (
                        entries@[k].0@,
                        node_view(entries@[k].1),
                    ));
                    assert(node_view(out@[k].1) == out@[k].1@);
                    assert(node_view(entries@[k].1) == entries@[k].1@);
                }
                assert(entries_view(out@) =~= entries_view(entries@));
            }
            DocNode::Dict(out)
        },
    }
}

/// Strings turned into a vector of text nodes.
fn texts_vec(l: &Vec<String>) -> (r: Vec<DocNode>)
    ensures
        items_view(r@) == texts_of(l.deep_view()),
{
    let n = l.len();
    let mut out: Vec<DocNode> = Vec::new();
    let mut i: usize = 0;
    while i < n
        invariant
            n == l.len(),
            i <= n,
            out@.len() == i,
            forall|j: int| 0 <= j < i ==> #[trigger] out@[j]@ == DocVal::Text(l@[j]@),
        decreases n - i,
    {
        out.push(DocNode::Text(l[i].clone()));
        i = i + 1;
    }
    proof {
        lemma_items_view_len(out@);
        assert forall|k: int| 0 <= k < n implies items_view(out@)[k] == texts_of(l.deep_view())[k]
            by {
            assert(items_view(out@)[k] == node_view(out@[k]));
            assert(node_view(out@[k]) == out@[k]@);
            assert(l.deep_view()[k] == l@[k]@);
        }
        assert(items_view(out@) =~= texts_of(l.deep_view()));
    }
    out
}

/// Index of the first entry with the key, if any.
fn find_key(entries: &Vec<(String, DocNode)>, key: &str) -> (r: Option<usize>)
    ensures
        match r {
            Some(i) => i < entries@.len() && entries@[i as int].0@ == key@ && forall|j: int|
                0 <= j < i ==> entries@[j].0@ != key@,
            None => forall|j: int| 0 <= j < entries@.len() ==> entries@[j].0@ != key@,
        },
{
    let n = entries.len();
    let mut i: usize = 0;
    while i < n
        invariant
            n == entries.len(),
            i <= n,
            forall|j: int| 0 <= j < i ==> entries@[j].0@ != key@,
        decreases n - i,
    {
        if crate::strings::str_eq(entries[i].0.as_str(), key) {
            return Some(i);
        }
        i = i + 1;
    }
    None
}

pub open spec fn opt_tests_view(o: Option<&Vec<String>>) -> Option<Seq<Seq<char>>> {
    match o {
        Some(a) => Some(a.deep_view()),
        None => None,
    }
}

/// The rewritten selector mapping, as `spec_new_selector` describes.
#[verifier::loop_isolation(false)]
fn update_selector(
    sel: &Vec<(String, DocNode)>,
    test_list: &Vec<String>,
    all_tests: Option<&Vec<String>>,
) -> (r: Vec<(String, DocNode)>)
    ensures
        entries_view(r@) == spec_new_selector(
            entries_view(sel@),
            test_list.deep_view(),
            opt_tests_view(all_tests),
        ),
{
    proof {
        lemma_entries_view_len(sel@);
        reveal_strlit("exclude_files");
        reveal_strlit("roots");
        assert("exclude_files"@ =~= key_exclude_files());
        assert("roots"@ =~= key_roots());
    }
    let ghost sv = entries_view(sel@);
    let n = sel.len();
    match all_tests {
        Some(a) => {
            let found = find_key(sel, "exclude_files");
            match found {
                Some(idx) => {
                    proof {
                        lemma_dict_get_step(sv, key_exclude_files(), idx as int);
                        assert(sv.subrange(idx as int, sv.len() as int)[0] == sv[idx as int]);
                        assert(dict_get(sv, key_exclude_files()) == Some(sv[idx as int].1));
                    }
                    match &sel[idx].1 {
                        DocNode::List(ex) => {
                            // append the exclusions to the existing list
                            let m = ex.len();
                            let mut items: Vec<DocNode> = Vec::new();
                            let mut i: usize = 0;
                            while i < m
                                invariant
                                    i <= m,
                                    items@.len() == i,
                                    forall|j: int|
                                        0 <= j < i ==> #[trigger] items@[j]@ == ex@[j]@,
                                decreases m - i,
                            {
                                items.push(clone_node(&ex[i]));
                                i = i + 1;
                            }
                            let mut added = texts_vec(a);
                            proof {
                                lemma_items_view_len(ex@);
                                lemma_items_view_len(items@);
                                assert forall|k: int| 0 <= k < m implies items_view(items@)[k]
                                    == items_view(ex@)[k] by {
                                    assert(items_view(items@)[k] == node_view(items@[k]));
                                    assert(items_view(ex@)[k] == node_view(ex@[k]));
                                    assert(items@[k]@ == ex@[k]@);
                                }
                                assert(items_view(items@) =~= items_view(ex@));
                            }
                            let ghost old_items = items@;
                            let ghost added_v = added@;
                            items.append(&mut added);
                            proof {
                                lemma_items_view_append(old_items, added_v);
                                assert(items@ == old_items + added_v);
                            }
                            let replacement = DocNode::List(items);
                            let ghost newv = node_view(replacement);
                            proof {
                                assert(newv == DocVal::List(
                                    items_view(ex@) + texts_of(a.deep_view()),
                                ));
                            }
                            let mut out: Vec<(String, DocNode)> = Vec::new();
                            let mut i: usize = 0;
                            while i < n
                                invariant
                                    i <= n,
                                    entries_view(out@) == replace_key(
                                        sv.take(i as int),
                                        key_exclude_files(),
                                        newv,
                                    ),
                                decreases n - i,
                            {
                                proof {
                                    assert(sv.take(i + 1).drop_last() =~= sv.take(i as int));
                                    assert(sv.take(i + 1).last() == sv[i as int]);
                                    assert(sv[i as int] == (sel@[i as int].0@, sel@[i as int].1@));
                                }
                                let ghost prev = out@;
                                if crate::strings::str_eq(sel[i].0.as_str(), "exclude_files") {
                                    out.push(("exclude_files".to_owned(), clone_node(&replacement)));
                                } else {
                                    out.push((sel[i].0.clone(), clone_node(&sel[i].1)));
                                }
                                proof {
                                    lemma_entries_view_push(prev, out@.last());
                                    assert(out@ == prev.push(out@.last()));
                                    assert(replace_key(sv.take(i + 1), key_exclude_files(), newv)
                                        =~= replace_key(
                                        sv.take(i as int),
                                        key_exclude_files(),
                                        newv,
                                    ).push(
                                        if sv[i as int].0 == key_exclude_files() {
                                            (key_exclude_files(), newv)
                                        } else {
                                            sv[i as int]
                                        },
                                    ));
                                }
                                i = i + 1;
                            }
                            proof {
                                assert(sv.take(n as int) =~= sv);
                            }
                            out
                        },
                        _ => {
                            // an exclusion entry of another shape: leave the
                            // selector unchanged
                            let out = clone_entries(sel);
                            out
                        },
                    }
                },
                None => {
                    let mut out = clone_entries(sel);
                    let texts = texts_vec(a);
                    let ghost before = out@;
                    out.push(("exclude_files".to_owned(), DocNode::List(texts)));
                    proof {
                        lemma_entries_view_push(before, out@.last());
                        assert(out@ == before.push(out@.last()));
                        lemma_dict_get_none(sv, key_exclude_files());
                        assert(entries_view(out@) =~= sv.push(
                            (key_exclude_files(), DocVal::List(texts_of(a.deep_view()))),
                        ));
                    }
                    out
                },
            }
        },
        None => {
            let roots_node = DocNode::List(texts_vec(test_list));
            let ghost rootsv = node_view(roots_node);
            proof {
                assert(rootsv == DocVal::List(texts_of(test_list.deep_view())));
            }
            let mut out: Vec<(String, DocNode)> = Vec::new();
            let mut found_roots = false;
            let mut i: usize = 0;
            while i < n
                invariant
                    i <= n,
                    entries_view(out@) == replace_key(
                        remove_key(sv.take(i as int), key_exclude_files()),
                        key_roots(),
                        rootsv,
                    ),
                    found_roots == dict_has(
                        remove_key(sv.take(i as int), key_exclude_files()),
                        key_roots(),
                    ),
                decreases n - i,
            {
                let ghost pre = sv.take(i as int);
                let ghost cur = sv[i as int];
                proof {
                    assert(sv.take(i + 1) =~= pre + seq![cur]);
                    lemma_remove_key_append(pre, seq![cur], key_exclude_files());
                    assert(seq![cur].drop_first() =~= Seq::<(Seq<char>, DocVal)>::empty());
                    assert(remove_key(Seq::<(Seq<char>, DocVal)>::empty(), key_exclude_files())
                        =~= Seq::<(Seq<char>, DocVal)>::empty());
                    assert(seq![cur][0] == cur);
                    assert(cur == (sel@[i as int].0@, sel@[i as int].1@));
                    lemma_dict_get_append(
                        remove_key(pre, key_exclude_files()),
                        remove_key(seq![cur], key_exclude_files()),
                        key_roots(),
                    );
                }
                if crate::strings::str_eq(sel[i].0.as_str(), "exclude_files") {
                    proof {
                        assert(remove_key(seq![cur], key_exclude_files())
                            =~= Seq::<(Seq<char>, DocVal)>::empty());
                        assert(remove_key(sv.take(i + 1), key_exclude_files()) =~= remove_key(
                            pre,
                            key_exclude_files(),
                        ));
                    }
                } else {
                    let is_roots = crate::strings::str_eq(sel[i].0.as_str(), "roots");
                    proof {
                        assert(remove_key(seq![cur], key_exclude_files()) =~= seq![cur]);
                        assert(remove_key(sv.take(i + 1), key_exclude_files()) =~= remove_key(
                            pre,
                            key_exclude_files(),
                        ).push(cur));
                        let rm = remove_key(pre, key_exclude_files());
                        assert(replace_key(rm.push(cur), key_roots(), rootsv) =~= replace_key(
                            rm,
                            key_roots(),
                            rootsv,
                        ).push(
                            if cur.0 == key_roots() {
                                (key_roots(), rootsv)
                            } else {
                                cur
                            },
                        ));
                        lemma_dict_get_push(rm, cur.0, cur.1, key_roots());
                    }
                    let ghost prev = out@;
                    if is_roots {
                        out.push(("roots".to_owned(), clone_node(&roots_node)));
                        found_roots = true;
                    } else {
                        out.push((sel[i].0.clone(), clone_node(&sel[i].1)));
                    }
                    proof {
                        lemma_entries_view_push(prev, out@.last());
                        assert(out@ == prev.push(out@.last()));
                    }
                }
                i = i + 1;
            }
            proof {
                assert(sv.take(n as int) =~= sv);
            }
            if !found_roots {
                let ghost before = out@;
                out.push(("roots".to_owned(), roots_node));
                proof {
                    lemma_entries_view_push(before, out@.last());
                    assert(out@ == before.push(out@.last()));
                    let rm = remove_key(sv, key_exclude_files());
                    assert(replace_key(rm, key_roots(), rootsv) =~= rm) by {
                        lemma_dict_get_none_keys(rm, key_roots());
                    }
                    assert(entries_view(out@) =~= rm.push((key_roots(), rootsv)));
                }
            }
            out
        },
    }
}

/// Without a matching key, lookup failure means no entry has the key.
proof fn lemma_dict_get_none_keys(entries: Seq<(Seq<char>, DocVal)>, key: Seq<char>)
    requires
        dict_get(entries, key) is None,
    ensures
        forall|j: int| 0 <= j < entries.len() ==> (#[trigger] entries[j]).0 != key,
    decreases entries.len(),
{
    if entries.len() > 0 {
        lemma_dict_get_none_keys(entries.drop_first(), key);
        assert forall|j: int| 0 <= j < entries.len() implies (#[trigger] entries[j]).0 != key by {
            if j > 0 {
                assert(entries.drop_first()[j - 1] == entries[j]);
            }
        }
    }
}

/// Appending one entry appends its view.
proof fn lemma_entries_view_push(s: Seq<(String, DocNode)>, e: (String, DocNode))
    ensures
        entries_view(s.push(e)) == entries_view(s).push((e.0@, node_view(e.1))),
{
    assert(s.push(e).drop_last() =~= s);
    assert(s.push(e).last() == e);
}

/// Concatenation of item views.
proof fn lemma_items_view_append(a: Seq<DocNode>, b: Seq<DocNode>)
    ensures
        items_view(a + b) == items_view(a) + items_view(b),
    decreases b.len(),
{
    if b.len() == 0 {
        assert(a + b =~= a);
        assert(items_view(a) + items_view(b) =~= items_view(a));
    } else {
        lemma_items_view_append(a, b.drop_last());
        assert((a + b).drop_last() =~= a + b.drop_last());
        assert((a + b).last() == b.last());
        assert(items_view(a) + items_view(b.drop_last()).push(node_view(b.last()))
            =~= (items_view(a) + items_view(b.drop_last())).push(node_view(b.last())));
    }
}

/// Full copy of a mapping's entries; the copy has the same entry views.
fn clone_entries(entries: &Vec<(String, DocNode)>) -> (r: Vec<(String, DocNode)>)
    ensures
        entries_view(r@) == entries_view(entries@),
{
    let n = entries.len();
    let mut out: Vec<(String, DocNode)> = Vec::new();
    let mut i: usize = 0;
    while i < n
        invariant
            n == entries.len(),
            i <= n,
            out@.len() == i,
            forall|j: int|
                0 <= j < i ==> #[trigger] out@[j].0@ == entries@[j].0@ && out@[j].1@
                    == entries@[j].1@,
        decreases n - i,
    {
        out.push((entries[i].0.clone(), clone_node(&entries[i].1)));
        i = i + 1;
    }
    proof {
        lemma_entries_view_len(entries@);
        lemma_entries_view_len(out@);
        assert forall|k: int| 0 <= k < n implies entries_view(out@)[k] == entries_view(entries@)[k]
            by {
            assert(entries_view(out@)[k] == (out@[k].0@, node_view(out@[k].1)));
            assert(entries_view(entries@)[k] == (entries@[k].0@, node_view(entries@[k].1)));
            assert(out@[k].0@ == entries@[k].0@ && out@[k].1@ == entries@[k].1@);
            assert(node_view(out@[k].1) == out@[k].1@);
            assert(node_view(entries@[k].1) == entries@[k].1@);
        }
        assert(entries_view(out@) =~= entries_view(entries@));
    }
    out
}

/// Rewrite a suite document: keep every top-level entry but
/// `selector`, and rewrite a mapping-valued `selector` as
/// `spec_new_selector` describes. A non-mapping root yields an empty
/// mapping. On a root with pairwise-distinct keys — every parsed
/// document has them — lookup of any other key is unchanged, and the
/// `selector` lookup yields exactly the rewritten selector.
#[verifier::loop_isolation(false)]
#[verifier::rlimit(60)]
pub fn rewrite_doc(doc: &DocNode, test_list: &Vec<String>, all_tests: Option<&Vec<String>>) -> (r:
    DocNode)
    ensures
        r@ == spec_update_doc(doc@, test_list.deep_view(), opt_tests_view(all_tests)),
        doc@ is Dict && unique_keys(doc@->Dict_0) ==> ({
            let root = doc@->Dict_0;
            let uroot = r@->Dict_0;
            &&& forall|k: Seq<char>|
                k != key_selector() ==> #[trigger] dict_get(uroot, k) == dict_get(root, k)
            &&& dict_get(uroot, key_selector()) == match dict_get(root, key_selector()) {
                Some(DocVal::Dict(sel)) => Some(
                    DocVal::Dict(
                        spec_new_selector(sel, test_list.deep_view(), opt_tests_view(all_tests)),
                    ),
                ),
                _ => None,
            }
        }),
{
    let ghost tests = test_list.deep_view();
    let ghost all = opt_tests_view(all_tests);
    proof {
        reveal_strlit("selector");
        assert("selector"@ =~= key_selector());
    }
    match doc {
        DocNode::Dict(root) => {
            proof {
                lemma_entries_view_len(root@);
            }
            let ghost rv = entries_view(root@);
            let n = root.len();
            let mut out: Vec<(String, DocNode)> = Vec::new();
            let mut i: usize = 0;
            while i < n
                invariant
                    i <= n,
                    entries_view(out@) == upd_entries(rv.take(i as int), tests, all),
                decreases n - i,
            {
                let ghost pre = rv.take(i as int);
                let ghost cur = rv[i as int];
                proof {
                    assert(rv.take(i + 1) =~= pre + seq![cur]);
                    assert(cur == (root@[i as int].0@, root@[i as int].1@));
                    lemma_upd_entries_append(pre, seq![cur], tests, all);
                    assert(seq![cur].drop_first() =~= Seq::<(Seq<char>, DocVal)>::empty());
                    assert(upd_entries(Seq::<(Seq<char>, DocVal)>::empty(), tests, all)
                        =~= Seq::<(Seq<char>, DocVal)>::empty());
                    assert(seq![cur][0] == cur);
                }
                if !crate::strings::str_eq(root[i].0.as_str(), "selector") {
                    let ghost prev = out@;
                    out.push((root[i].0.clone(), clone_node(&root[i].1)));
                    proof {
                        lemma_entries_view_push(prev, out@.last());
                        assert(out@ == prev.push(out@.last()));
                        assert(upd_entries(seq![cur], tests, all) =~= seq![cur]);
                        assert(entries_view(out@) =~= upd_entries(pre, tests, all) + seq![cur]);
                        assert(upd_entries(rv.take(i + 1), tests, all) =~= upd_entries(
                            pre,
                            tests,
                            all,
                        ) + seq![cur]);
                    }
                } else {
                    match &root[i].1 {
                        DocNode::Dict(sel) => {
                            let new_sel = update_selector(sel, test_list, all_tests);
                            let ghost prev = out@;
                            out.push((root[i].0.clone(), DocNode::Dict(new_sel)));
                            proof {
                                let ne = (
                                    cur.0,
                                    DocVal::Dict(spec_new_selector(cur.1->Dict_0, tests, all)),
                                );
                                lemma_entries_view_push(prev, out@.last());
                                assert(out@ == prev.push(out@.last()));
                                assert(upd_entries(seq![cur], tests, all) =~= seq![ne]);
                                assert(entries_view(out@) =~= upd_entries(pre, tests, all)
                                    + seq![ne]);
                                assert(upd_entries(rv.take(i + 1), tests, all) =~= upd_entries(
                                    pre,
                                    tests,
                                    all,
                                ) + seq![ne]);
                            }
                        },
                        _ => {
                            proof {
                                assert(upd_entries(seq![cur], tests, all)
                                    =~= Seq::<(Seq<char>, DocVal)>::empty());
                                assert(entries_view(out@) =~= upd_entries(pre, tests, all)
                                    + upd_entries(seq![cur], tests, all));
                                assert(upd_entries(rv.take(i + 1), tests, all) =~= upd_entries(
                                    pre,
                                    tests,
                                    all,
                                ));
                            }
                        },
                    }
                }
                i = i + 1;
            }
            proof {
                assert(rv.take(n as int) =~= rv);
                if unique_keys(rv) {
                    assert forall|k: Seq<char>| k != key_selector() implies #[trigger] dict_get(
                        upd_entries(rv, tests, all),
                        k,
                    ) == dict_get(rv, k) by {
                        lemma_dict_get_upd_entries(rv, tests, all, k);
                    }
                    lemma_dict_get_upd_entries(rv, tests, all, key_selector());
                }
            }
            DocNode::Dict(out)
        },
        _ => {
            let out: Vec<(String, DocNode)> = Vec::new();
            proof {
                assert(entries_view(out@) =~= Seq::<(Seq<char>, DocVal)>::empty());
            }
            DocNode::Dict(out)
        },
    }
}

/// Rewriter preservation: restricting a suite to a test list keeps
/// every other top-level entry and every other selector entry as it
/// was, sets `selector.roots` to the test list, and removes
/// `selector.exclude_files`.
pub proof fn lemma_rewrite_restricts(
    root: Seq<(Seq<char>, DocVal)>,
    sel: Seq<(Seq<char>, DocVal)>,
    tests: Seq<Seq<char>>,
    k: Seq<char>,
)
    requires
        unique_keys(root),
        dict_get(root, key_selector()) == Some(DocVal::Dict(sel)),
    ensures
        ({
            let u = spec_update_doc(DocVal::Dict(root), tests, None);
            let usel = spec_new_selector(sel, tests, None);
            &&& u matches DocVal::Dict(uroot) && {
                &&& k != key_selector() ==> dict_get(uroot, k) == dict_get(root, k)
                &&& dict_get(uroot, key_selector()) == Some(DocVal::Dict(usel))
            }
            &&& dict_get(usel, key_roots()) == Some(DocVal::List(texts_of(tests)))
            &&& dict_get(usel, key_exclude_files()) is None
            &&& (k != key_roots() && k != key_exclude_files()) ==> dict_get(usel, k) == dict_get(
                sel,
                k,
            )
        }),
{
    lemma_dict_get_upd_entries(root, tests, None, k);
    lemma_dict_get_upd_entries(root, tests, None, key_selector());
    let removed = remove_key(sel, key_exclude_files());
    let rootsv = DocVal::List(texts_of(tests));
    lemma_dict_get_remove_key(sel, key_exclude_files(), k);
    lemma_dict_get_remove_key(sel, key_exclude_files(), key_roots());
    lemma_dict_get_remove_key(sel, key_exclude_files(), key_exclude_files());
    if dict_has(removed, key_roots()) {
        lemma_dict_get_replace_key(removed, key_roots(), rootsv, k);
        lemma_dict_get_replace_key(removed, key_roots(), rootsv, key_roots());
        lemma_dict_get_replace_key(removed, key_roots(), rootsv, key_exclude_files());
    } else {
        lemma_dict_get_push(removed, key_roots(), rootsv, k);
        lemma_dict_get_push(removed, key_roots(), rootsv, key_roots());
        lemma_dict_get_push(removed, key_roots(), rootsv, key_exclude_files());
    }
}

/// Rewriter exclusion merge: appending an exclusion set keeps every
/// other top-level entry and every other selector entry as it was
/// (`selector.roots` among them), and extends `selector.exclude_files`
/// with the set, creating the list when it was absent.
pub proof fn lemma_rewrite_merges_exclusions(
    root: Seq<(Seq<char>, DocVal)>,
    sel: Seq<(Seq<char>, DocVal)>,
    excl: Seq<Seq<char>>,
    k: Seq<char>,
)
    requires
        unique_keys(root),
        dict_get(root, key_selector()) == Some(DocVal::Dict(sel)),
    ensures
        ({
            let u = spec_update_doc(DocVal::Dict(root), Seq::<Seq<char>>::empty(), Some(excl));
            let usel = spec_new_selector(sel, Seq::<Seq<char>>::empty(), Some(excl));
            &&& u matches DocVal::Dict(uroot) && {
                &&& k != key_selector() ==> dict_get(uroot, k) == dict_get(root, k)
                &&& dict_get(uroot, key_selector()) == Some(DocVal::Dict(usel))
            }
            &&& match dict_get(sel, key_exclude_files()) {
                Some(DocVal::List(pre)) => dict_get(usel, key_exclude_files()) == Some(
                    DocVal::List(pre + texts_of(excl)),
                ),
                Some(other) => usel == sel,
                None => dict_get(usel, key_exclude_files()) == Some(
                    DocVal::List(texts_of(excl)),
                ),
            }
            &&& k != key_exclude_files() ==> dict_get(usel, k) == dict_get(sel, k)
        }),
{
    let tests = Seq::<Seq<char>>::empty();
    lemma_dict_get_upd_entries(root, tests, Some(excl), k);
    lemma_dict_get_upd_entries(root, tests, Some(excl), key_selector());
    match dict_get(sel, key_exclude_files()) {
        Some(DocVal::List(pre)) => {
            let newv = DocVal::List(pre + texts_of(excl));
            lemma_dict_get_replace_key(sel, key_exclude_files(), newv, k);
            lemma_dict_get_replace_key(sel, key_exclude_files(), newv, key_exclude_files());
        },
        Some(_) => {},
        None => {
            lemma_dict_get_push(sel, key_exclude_files(), DocVal::List(texts_of(excl)), k);
            lemma_dict_get_push(
                sel,
                key_exclude_files(),
                DocVal::List(texts_of(excl)),
                key_exclude_files(),
            );
        },
    }
}

/// Declares `yaml_rust::Yaml` so the conversion helpers may name it;
/// values of it are opaque here.
#[verifier::external_type_specification]
#[verifier::external_body]
pub struct ExYaml(yaml_rust::Yaml);

/// What parsing a suite document yields: the value of the first
/// document of the text, or nothing when the text does not parse, has
/// no document, or holds a shape outside the model (a non-string
/// mapping key, an alias).
pub uninterp spec fn parsed_yaml(text: Seq<char>) -> Option<DocVal>;

/// What serializing a document value yields.
pub uninterp spec fn emitted_yaml(doc: DocVal) -> Option<Seq<char>>;

/// Converts a parsed node for `parse_yaml`. Relies on the shape of
/// `yaml_rust::Yaml`: one arm per variant, string mapping keys only.
/// Converts the items of a parsed list for `parse_yaml`.
#[verifier::external_body]
fn yaml_items(a: &[Yaml]) -> Option<Vec<DocNode>> {
    a.iter().map(yaml_to_node).collect()
}

/// Converts the entries of a parsed mapping: string keys only.
#[verifier::external_body]
fn yaml_entries(y: &Yaml) -> Option<Vec<(String, DocNode)>> {
    let h = y.as_hash()?;
    h.iter().map(|(k, v)| Some((k.as_str()?.to_string(), yaml_to_node(v)?))).collect()
}

/// Converts one parsed node for `parse_yaml`. Relies on the shape of
/// `yaml_rust::Yaml`: one arm per variant; aliases and bad values are
/// outside the model.
#[verifier::external_body]
fn yaml_to_node(y: &Yaml) -> Option<DocNode> {
    match y {
        Yaml::Null => Some(DocNode::Null),
        Yaml::Boolean(b) => Some(DocNode::Bool(*b)),
        Yaml::Integer(i) => Some(DocNode::Int(*i)),
        Yaml::Real(s) => Some(DocNode::Real(s.clone())),
        Yaml::String(s) => Some(DocNode::Text(s.clone())),
        Yaml::Array(a) => Some(DocNode::List(yaml_items(a)?)),
        Yaml::Hash(_) => Some(DocNode::Dict(yaml_entries(y)?)),
        _ => None,
    }
}

/// Converts a node back for `emit_yaml`: one arm per variant.
#[verifier::external_body]
fn node_to_yaml(n: &DocNode) -> Yaml {
    match n {
        DocNode::Null => Yaml::Null,
        DocNode::Bool(b) => Yaml::Boolean(*b),
        DocNode::Int(i) => Yaml::Integer(*i),
        DocNode::Real(s) => Yaml::Real(s.clone()),
        DocNode::Text(s) => Yaml::String(s.clone()),
        DocNode::List(items) => Yaml::Array(items.iter().map(node_to_yaml).collect()),
        DocNode::Dict(entries) => Yaml::Hash(
            entries.iter().map(|(k, v)| (Yaml::String(k.clone()), node_to_yaml(v))).collect(),
        ),
    }
}

/// Relies on `yaml_rust::YamlLoader::load_from_str`: the first document
/// of the text, as the model tree.
#[verifier::external_body]
fn parse_yaml(text: &str) -> (r: Option<DocNode>)
    ensures
        match r {
            Some(n) => parsed_yaml(text@) == Some(n@),
            None => parsed_yaml(text@) is None,
        },
{
    let docs = yaml_rust::YamlLoader::load_from_str(text).ok()?;
    let first = docs.into_iter().next()?;
    yaml_to_node(&first)
}

/// Relies on `yaml_rust::YamlEmitter::dump`: the serialized form of
/// the tree.
#[verifier::external_body]
fn emit_yaml(n: &DocNode) -> (r: Option<String>)
    ensures
        match r {
            Some(s) => emitted_yaml(n@) == Some(s@),
            None => emitted_yaml(n@) is None,
        },
{
    let y = node_to_yaml(n);
    let mut out = String::new();
    let mut emitter = yaml_rust::YamlEmitter::new(&mut out);
    match emitter.dump(&y) {
        Ok(()) => Some(out),
        Err(_) => None,
    }
}

/// The cluster topology a suite runs under.
#[derive(Debug, PartialEq, Eq, Structural, Clone)]
pub enum SuiteFixtureType {
    Shell,
    Repl,
    Shard,
    Other,
}

/// The version combinations used for multiversion expansion of a
/// fixture.
pub open spec fn spec_version_combinations(t: SuiteFixtureType) -> Seq<Seq<char>> {
    match t {
        SuiteFixtureType::Shard => seq!["new_old_old_new"@],
        SuiteFixtureType::Repl => seq!["new_new_old"@, "new_old_new"@, "old_new_new"@],
        _ => seq![""@],
    }
}

impl SuiteFixtureType {
    /// The old/new binary mixes to generate for this fixture: one
    /// combination for a sharded cluster, three for a replica set, and
    /// a single empty combination otherwise.
    pub fn get_version_combinations(&self) -> (r: Vec<String>)
        ensures
            r.deep_view() == spec_version_combinations(*self),
    {
        let mut out: Vec<String> = Vec::new();
        match self {
            SuiteFixtureType::Shard => {
                out.push("new_old_old_new".to_owned());
            },
            SuiteFixtureType::Repl => {
                out.push("new_new_old".to_owned());
                out.push("new_old_new".to_owned());
                out.push("old_new_new".to_owned());
            },
            _ => {
                out.push("".to_owned());
            },
        }
        proof {
            assert(out.deep_view() =~= spec_version_combinations(*self));
        }
        out
    }
}

/// How the executor section classifies the fixture: absent means a
/// plain shell suite; a mapping is classified by its `class`; any
/// other shape is `Other`.
pub open spec fn spec_executor_fixture(ex: Seq<(Seq<char>, DocVal)>) -> SuiteFixtureType {
    match dict_get(ex, key_fixture()) {
        None => SuiteFixtureType::Shell,
        Some(DocVal::Dict(fx)) => match dict_get(fx, key_class()) {
            Some(DocVal::Text(c)) => if c == "ShardedClusterFixture"@ {
                SuiteFixtureType::Shard
            } else if c == "ReplicaSetFixture"@ {
                SuiteFixtureType::Repl
            } else {
                SuiteFixtureType::Other
            },
            _ => SuiteFixtureType::Other,
        },
        Some(_) => SuiteFixtureType::Other,
    }
}

/// The fixture type of a suite document, or nothing when the root is
/// not a mapping or its executor is absent or not a mapping.
pub open spec fn spec_fixture_type(d: DocVal) -> Option<SuiteFixtureType> {
    match d {
        DocVal::Dict(root) => match dict_get(root, key_executor()) {
            Some(DocVal::Dict(ex)) => Some(spec_executor_fixture(ex)),
            _ => None,
        },
        _ => None,
    }
}

/// A test-runner suite document.
#[derive(Debug)]
pub struct ResmokeSuiteConfig {
    config: DocNode,
}

impl View for ResmokeSuiteConfig {
    type V = DocVal;

    closed spec fn view(&self) -> DocVal {
        self.config@
    }
}

impl ResmokeSuiteConfig {
    /// Wrap an already-built document tree.
    pub fn from_node(config: DocNode) -> (r: Self)
        ensures
            r@ == config@,
    {
        ResmokeSuiteConfig { config }
    }

    /// Parse a suite document from text.
    pub fn from_str(suite_contents: &str) -> (r: Result<Self, GenError>)
        ensures
            match r {
                Ok(c) => parsed_yaml(suite_contents@) == Some(c@),
                Err(e) => parsed_yaml(suite_contents@) is None && e is InvalidSuiteConfig,
            },
    {
        match parse_yaml(suite_contents) {
            Some(n) => Ok(ResmokeSuiteConfig { config: n }),
            None => Err(GenError::InvalidSuiteConfig),
        }
    }

    /// Classify the suite's fixture from `executor.fixture.class`.
    pub fn get_fixture_type(&self) -> (r: Result<SuiteFixtureType, GenError>)
        ensures
            match r {
                Ok(t) => spec_fixture_type(self@) == Some(t),
                Err(e) => spec_fixture_type(self@) is None && e is InvalidSuiteConfig,
            },
    {
        proof {
            reveal_strlit("executor");
            reveal_strlit("fixture");
            reveal_strlit("class");
            assert("executor"@ =~= key_executor());
            assert("fixture"@ =~= key_fixture());
            assert("class"@ =~= key_class());
        }
        match &self.config {
            DocNode::Dict(root) => match map_get(root, "executor") {
                Some(DocNode::Dict(ex)) => match map_get(ex, "fixture") {
                    None => Ok(SuiteFixtureType::Shell),
                    Some(DocNode::Dict(fx)) => match map_get(fx, "class") {
                        Some(DocNode::Text(c)) => {
                            if crate::strings::str_eq(c.as_str(), "ShardedClusterFixture") {
                                Ok(SuiteFixtureType::Shard)
                            } else if crate::strings::str_eq(c.as_str(), "ReplicaSetFixture") {
                                Ok(SuiteFixtureType::Repl)
                            } else {
                                Ok(SuiteFixtureType::Other)
                            }
                        },
                        _ => Ok(SuiteFixtureType::Other),
                    },
                    Some(_) => Ok(SuiteFixtureType::Other),
                },
                _ => Err(GenError::InvalidSuiteConfig),
            },
            _ => Err(GenError::InvalidSuiteConfig),
        }
    }

    /// Serialize the rewritten suite: restricted to `test_list`, or
    /// with `all_tests` appended to the exclusions (see
    /// `spec_update_doc`).
    pub fn update_config(&self, test_list: &Vec<String>, all_tests: Option<&Vec<String>>) -> (r:
        Result<String, GenError>)
        ensures
            match r {
                Ok(s) => emitted_yaml(
                    spec_update_doc(self@, test_list.deep_view(), opt_tests_view(all_tests)),
                ) == Some(s@),
                Err(e) => emitted_yaml(
                    spec_update_doc(self@, test_list.deep_view(), opt_tests_view(all_tests)),
                ) is None && e is InvalidSuiteConfig,
            },
    {
        let new_node = rewrite_doc(&self.config, test_list, all_tests);
        match emit_yaml(&new_node) {
            Some(s) => Ok(s),
            None => Err(GenError::InvalidSuiteConfig),
        }
    }
}

pub open spec fn key_multiversion_config() -> Seq<char> {
    seq![
        'm',
        'u',
        'l',
        't',
        'i',
        'v',
        'e',
        'r',
        's',
        'i',
        'o',
        'n',
        '_',
        'c',
        'o',
        'n',
        'f',
        'i',
        'g',
    ]
}

pub open spec fn key_last_versions() -> Seq<char> {
    seq!['l', 'a', 's', 't', '_', 'v', 'e', 'r', 's', 'i', 'o', 'n', 's']
}

pub open spec fn all_texts(items: Seq<DocVal>) -> bool {
    forall|i: int| 0 <= i < items.len() ==> (#[trigger] items[i]) is Text
}

pub open spec fn texts_back(items: Seq<DocVal>) -> Seq<Seq<char>> {
    Seq::new(items.len(), |i: int| items[i]->Text_0)
}

/// The last versions named by a multiversion-config document:
/// `multiversion_config.last_versions`, a list of strings.
pub open spec fn spec_last_versions(d: DocVal) -> Option<Seq<Seq<char>>> {
    match d {
        DocVal::Dict(root) => match dict_get(root, key_multiversion_config()) {
            Some(DocVal::Dict(mv)) => match dict_get(mv, key_last_versions()) {
                Some(DocVal::List(items)) => if all_texts(items) {
                    Some(texts_back(items))
                } else {
                    None
                },
                _ => None,
            },
            _ => None,
        },
        _ => None,
    }
}

#[derive(Debug, Clone)]
pub struct MultiversionConfigContents {
    pub last_versions: Vec<String>,
}

#[derive(Debug, Clone)]
pub struct MultiversionConfig {
    pub multiversion_config: MultiversionConfigContents,
}

impl MultiversionConfig {
    /// Parse the multiversion-config document printed by the
    /// test-runner probe.
    #[verifier::loop_isolation(false)]
    pub fn from_str(text: &str) -> (r: Result<Self, GenError>)
        ensures
            match r {
                Ok(c) => parsed_yaml(text@) is Some && spec_last_versions(
                    parsed_yaml(text@)->Some_0,
                ) == Some(c.multiversion_config.last_versions.deep_view()),
                Err(e) => (parsed_yaml(text@) is None || spec_last_versions(
                    parsed_yaml(text@)->Some_0,
                ) is None) && e is ExternalProcess,
            },
    {
        proof {
            reveal_strlit("multiversion_config");
            reveal_strlit("last_versions");
            assert("multiversion_config"@ =~= key_multiversion_config());
            assert("last_versions"@ =~= key_last_versions());
        }
        let parsed = match parse_yaml(text) {
            Some(n) => n,
            None => {
                return Err(GenError::ExternalProcess("unparseable multiversion config".to_owned()));
            },
        };
        match &parsed {
            DocNode::Dict(root) => match map_get(root, "multiversion_config") {
                Some(DocNode::Dict(mv)) => match map_get(mv, "last_versions") {
                    Some(DocNode::List(items)) => {
                        let ghost iv = items_view(items@);
                        proof {
                            lemma_items_view_len(items@);
                        }
                        let n = items.len();
                        let mut out: Vec<String> = Vec::new();
                        let mut i: usize = 0;
                        while i < n
                            invariant
                                n == items.len(),
                                i <= n,
                                iv == items_view(items@),
                                iv.len() == n,
                                forall|j: int|
                                    0 <= j < n ==> #[trigger] iv[j] == node_view(items@[j]),
                                out@.len() == i,
                                forall|j: int|
                                    0 <= j < i ==> (#[trigger] iv[j]) is Text && out@[j]@
                                        == iv[j]->Text_0,
                            decreases n - i,
                        {
                            match &items[i] {
                                DocNode::Text(s) => {
                                    out.push(s.clone());
                                },
                                _ => {
                                    proof {
                                        assert(iv[i as int] == node_view(items@[i as int]));
                                        assert(!(iv[i as int] is Text));
                                        assert(!all_texts(iv));
                                        assert(parsed_yaml(text@) == Some(parsed@));
                                        assert(spec_last_versions(parsed@) is None);
                                    }
                                    return Err(
                                        GenError::ExternalProcess(
                                            "unparseable multiversion config".to_owned(),
                                        ),
                                    );
                                },
                            }
                            i = i + 1;
                        }
                        proof {
                            assert(out.deep_view() =~= texts_back(iv));
                            assert(all_texts(iv));
                            assert(spec_last_versions(parsed@) == Some(texts_back(iv)));
                        }
                        Ok(
                            MultiversionConfig {
                                multiversion_config: MultiversionConfigContents {
                                    last_versions: out,
                                },
                            },
                        )
                    },
                    _ => Err(
                        GenError::ExternalProcess("unparseable multiversion config".to_owned()),
                    ),
                },
                _ => Err(GenError::ExternalProcess("unparseable multiversion config".to_owned())),
            },
            _ => Err(GenError::ExternalProcess("unparseable multiversion config".to_owned())),
        }
    }
}

/// Discovery of the tests a suite holds. The probe that runs the
/// test runner implements this; nothing is assumed of what it returns.
pub trait TestDiscovery {
    fn discover_tests(&self, suite: &str) -> Vec<String>;
}

/// Marker for the subprocess-backed prober of the test runner; the
/// binary wires it to the actual subprocess.
#[derive(Debug, Clone)]
pub struct ResmokeProxy {}

} // verus!
