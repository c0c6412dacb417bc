//! The snapshot document model: an association list of fields kept strictly
//! sorted by key, so that a document is determined by the mapping it denotes.

use vstd::prelude::*;
use crate::text::{lex_lt, str_eq, str_lt, lemma_lex_lt_total, lemma_lex_lt_asym, lemma_lex_lt_trans};

verus! {

/// One field value of a snapshot document.
///
/// `Text` holds a store value verbatim; `KeyList` holds the reserved list of
/// captured notification keys; `Structured` holds the canonical wire form of
/// a value that is kept parsed (not quoted) in the persisted document.
#[derive(Clone, Debug, PartialEq, Eq)]
pub enum FieldValue {
    Text(String),
    KeyList(Vec<String>),
    Structured(String),
}

/// The mathematical shape of a field value.
pub enum FieldV {
    Text(Seq<char>),
    KeyList(Seq<Seq<char>>),
    Structured(Seq<char>),
}

impl View for FieldValue {
    type V = FieldV;

    open spec fn view(&self) -> FieldV {
        match *self {
            FieldValue::Text(s) => FieldV::Text(s@),
            FieldValue::KeyList(ks) => FieldV::KeyList(ks.deep_view()),
            FieldValue::Structured(s) => FieldV::Structured(s@),
        }
    }
}

/// The view of a whole field list.
pub open spec fn fields_view(v: Seq<(String, FieldValue)>) -> Seq<(Seq<char>, FieldV)> {
    Seq::new(v.len(), |i: int| (v[i].0@, v[i].1@))
}

/// Keys appear in strictly increasing order, hence each at most once.
pub open spec fn doc_wf(d: Seq<(Seq<char>, FieldV)>) -> bool {
    forall|i: int, j: int|
        0 <= i < j < d.len() ==> lex_lt(#[trigger] d[i].0, #[trigger] d[j].0)
}

/// Some field carries key `k`.
pub open spec fn doc_has_key(d: Seq<(Seq<char>, FieldV)>, k: Seq<char>) -> bool {
    exists|i: int| 0 <= i < d.len() && (#[trigger] d[i]).0 == k
}

/// The position of the field carrying `k` (meaningful when keys are unique).
pub open spec fn doc_index_of(d: Seq<(Seq<char>, FieldV)>, k: Seq<char>) -> int {
    choose|i: int| 0 <= i < d.len() && (#[trigger] d[i]).0 == k
}

/// The value stored under `k`, if any.
pub open spec fn doc_lookup(d: Seq<(Seq<char>, FieldV)>, k: Seq<char>) -> Option<FieldV> {
    if doc_has_key(d, k) {
        Some(d[doc_index_of(d, k)].1)
    } else {
        None
    }
}

/// No two fields share a key.
pub open spec fn doc_keys_distinct(d: Seq<(Seq<char>, FieldV)>) -> bool {
    forall|i: int, j: int|
        0 <= i < j < d.len() ==> (#[trigger] d[i]).0 != (#[trigger] d[j]).0
}

/// Sorted documents have distinct keys.
pub proof fn lemma_wf_distinct(d: Seq<(Seq<char>, FieldV)>)
    requires
        doc_wf(d),
    ensures
        doc_keys_distinct(d),
{
    assert forall|i: int, j: int| 0 <= i < j < d.len() implies (#[trigger] d[i]).0 != (
    #[trigger] d[j]).0 by {
        assert(lex_lt(d[i].0, d[j].0));
        lemma_lex_lt_asym(d[i].0, d[j].0);
    }
}

/// With distinct keys, a field found at `i` is the looked-up field.
pub proof fn lemma_lookup_at(d: Seq<(Seq<char>, FieldV)>, i: int)
    requires
        doc_keys_distinct(d),
        0 <= i < d.len(),
    ensures
        doc_lookup(d, d[i].0) == Some(d[i].1),
        doc_index_of(d, d[i].0) == i,
{
    assert(doc_has_key(d, d[i].0));
    let j = doc_index_of(d, d[i].0);
    assert(0 <= j < d.len() && d[j].0 == d[i].0);
    if i != j {
        assert(d[i].0 != d[j].0);
    }
}

/// A key carried by no field looks up to `None`.
pub proof fn lemma_lookup_none(d: Seq<(Seq<char>, FieldV)>, k: Seq<char>)
    requires
        forall|i: int| 0 <= i < d.len() ==> (#[trigger] d[i]).0 != k,
    ensures
        doc_lookup(d, k) is None,
{
}

/// Inserting a fresh key at its sorted position keeps the document sorted and
/// changes exactly that key's lookup.
pub proof fn lemma_insert_lookup(
    d: Seq<(Seq<char>, FieldV)>,
    i: int,
    p: (Seq<char>, FieldV),
)
    requires
        doc_wf(d),
        0 <= i <= d.len(),
        forall|j: int| 0 <= j < i ==> lex_lt((#[trigger] d[j]).0, p.0),
        forall|j: int| i <= j < d.len() ==> lex_lt(p.0, (#[trigger] d[j]).0),
    ensures
        doc_wf(d.insert(i, p)),
        doc_lookup(d.insert(i, p), p.0) == Some(p.1),
        forall|k: Seq<char>| k != p.0 ==> doc_lookup(d.insert(i, p), k) == doc_lookup(d, k),
{
    let e = d.insert(i, p);
    assert(e.len() == d.len() + 1);
    assert(forall|j: int| 0 <= j < i ==> e[j] == d[j]);
    assert(e[i] == p);
    assert(forall|j: int| i < j < e.len() ==> e[j] == d[j - 1]);

    assert forall|a: int, b: int| 0 <= a < b < e.len() implies lex_lt(
        (#[trigger] e[a]).0,
        (#[trigger] e[b]).0,
    ) by {
        if a < i && b < i {
        } else if a < i && b == i {
        } else if a < i && b > i {
            // d[a] is below the new key, which is below d[b - 1]
            if i <= b - 1 < d.len() {
                if a < b - 1 {
                } else {
                    // a == b - 1 cannot hold: a < i <= b - 1
                    assert(false);
                }
            }
        } else if a == i {
            assert(lex_lt(p.0, d[b - 1].0));
        } else {
            assert(lex_lt(d[a - 1].0, d[b - 1].0));
        }
    }

    lemma_wf_distinct(e);
    lemma_lookup_at(e, i);

    assert forall|k: Seq<char>| k != p.0 implies doc_lookup(e, k) == doc_lookup(d, k) by {
        if doc_has_key(d, k) {
            let j = doc_index_of(d, k);
            assert(0 <= j < d.len() && d[j].0 == k);
            lemma_wf_distinct(d);
            lemma_lookup_at(d, j);
            if j < i {
                assert(e[j] == d[j]);
                lemma_lookup_at(e, j);
            } else {
                assert(e[j + 1] == d[j]);
                lemma_lookup_at(e, j + 1);
            }
        } else {
            assert(forall|j: int| 0 <= j < d.len() ==> (#[trigger] d[j]).0 != k);
            assert forall|j: int| 0 <= j < e.len() implies (#[trigger] e[j]).0 != k by {
                if j < i {
                    assert(e[j] == d[j]);
                } else if j == i {
                } else {
                    assert(e[j] == d[j - 1]);
                }
            }
            lemma_lookup_none(d, k);
            lemma_lookup_none(e, k);
        }
    }
}

/// Replacing the field at the position of an existing key keeps the document
/// sorted and changes exactly that key's lookup.
pub proof fn lemma_update_lookup(
    d: Seq<(Seq<char>, FieldV)>,
    i: int,
    p: (Seq<char>, FieldV),
)
    requires
        doc_wf(d),
        0 <= i < d.len(),
        d[i].0 == p.0,
    ensures
        doc_wf(d.update(i, p)),
        doc_lookup(d.update(i, p), p.0) == Some(p.1),
        forall|k: Seq<char>| k != p.0 ==> doc_lookup(d.update(i, p), k) == doc_lookup(d, k),
{
    let e = d.update(i, p);
    assert(e.len() == d.len());
    assert forall|a: int, b: int| 0 <= a < b < e.len() implies lex_lt(
        (#[trigger] e[a]).0,
        (#[trigger] e[b]).0,
    ) by {
        assert(e[a].0 == d[a].0);
        assert(e[b].0 == d[b].0);
    }
    lemma_wf_distinct(e);
    lemma_lookup_at(e, i);
    lemma_wf_distinct(d);
    assert forall|k: Seq<char>| k != p.0 implies doc_lookup(e, k) == doc_lookup(d, k) by {
        if doc_has_key(d, k) {
            let j = doc_index_of(d, k);
            lemma_lookup_at(d, j);
            assert(j != i);
            assert(e[j] == d[j]);
            lemma_lookup_at(e, j);
        } else {
            assert(forall|j: int| 0 <= j < d.len() ==> (#[trigger] d[j]).0 != k);
            assert forall|j: int| 0 <= j < e.len() implies (#[trigger] e[j]).0 != k by {
                if j != i {
                    assert(e[j] == d[j]);
                } else {
                    assert(e[i].0 == d[i].0);
                }
            }
            lemma_lookup_none(d, k);
            lemma_lookup_none(e, k);
        }
    }
}

/// Looking up a key other than the head key continues in the tail.
proof fn lemma_lookup_skip_head(d: Seq<(Seq<char>, FieldV)>, k: Seq<char>)
    requires
        doc_keys_distinct(d),
        d.len() > 0,
        d[0].0 != k,
    ensures
        doc_lookup(d, k) == doc_lookup(d.skip(1), k),
{
    let t = d.skip(1);
    assert(forall|j: int| 0 <= j < t.len() ==> t[j] == d[j + 1]);
    if doc_has_key(d, k) {
        let j = doc_index_of(d, k);
        assert(0 <= j < d.len() && d[j].0 == k);
        assert(j != 0);
        lemma_lookup_at(d, j);
        assert(t[j - 1] == d[j]);
        assert forall|a: int, b: int| 0 <= a < b < t.len() implies (#[trigger] t[a]).0 != (
        #[trigger] t[b]).0 by {
            assert(t[a] == d[a + 1]);
            assert(t[b] == d[b + 1]);
        }
        lemma_lookup_at(t, j - 1);
    } else {
        assert(forall|j: int| 0 <= j < d.len() ==> (#[trigger] d[j]).0 != k);
        assert forall|j: int| 0 <= j < t.len() implies (#[trigger] t[j]).0 != k by {
            assert(t[j] == d[j + 1]);
        }
        lemma_lookup_none(d, k);
        lemma_lookup_none(t, k);
    }
}

/// A sorted document is determined by the mapping it denotes: two sorted
/// documents with the same lookup everywhere are the same sequence.
pub proof fn lemma_doc_determined(d1: Seq<(Seq<char>, FieldV)>, d2: Seq<(Seq<char>, FieldV)>)
    requires
        doc_wf(d1),
        doc_wf(d2),
        forall|k: Seq<char>| #[trigger] doc_lookup(d1, k) == doc_lookup(d2, k),
    ensures
        d1 == d2,
    decreases d1.len(),
{
    lemma_wf_distinct(d1);
    lemma_wf_distinct(d2);
    if d1.len() == 0 && d2.len() == 0 {
        assert(d1 =~= d2);
    } else if d1.len() == 0 {
        lemma_lookup_at(d2, 0);
        assert(doc_lookup(d1, d2[0].0) == doc_lookup(d2, d2[0].0));
        assert(doc_has_key(d1, d2[0].0));
        assert(false);
    } else if d2.len() == 0 {
        lemma_lookup_at(d1, 0);
        assert(doc_lookup(d1, d1[0].0) == doc_lookup(d2, d1[0].0));
        assert(doc_has_key(d2, d1[0].0));
        assert(false);
    } else {
        // the head keys must be equal
        let k1 = d1[0].0;
        let k2 = d2[0].0;
        lemma_lookup_at(d1, 0);
        lemma_lookup_at(d2, 0);
        if k1 != k2 {
            lemma_lex_lt_total(k1, k2);
            if lex_lt(k1, k2) {
                assert(doc_lookup(d2, k1) == doc_lookup(d1, k1));
                assert(doc_has_key(d2, k1));
                let j = doc_index_of(d2, k1);
                assert(0 <= j < d2.len() && d2[j].0 == k1);
                if j > 0 {
                    assert(lex_lt(d2[0].0, d2[j].0));
                    lemma_lex_lt_trans(k1, k2, d2[j].0);
                    lemma_lex_lt_asym(k1, d2[j].0);
                }
                assert(false);
            } else {
                assert(doc_lookup(d1, k2) == doc_lookup(d2, k2));
                assert(doc_has_key(d1, k2));
                let j = doc_index_of(d1, k2);
                assert(0 <= j < d1.len() && d1[j].0 == k2);
                if j > 0 {
                    assert(lex_lt(d1[0].0, d1[j].0));
                    lemma_lex_lt_trans(k2, k1, d1[j].0);
                    lemma_lex_lt_asym(k2, d1[j].0);
                }
                assert(false);
            }
        }
        assert(k1 == k2);
        assert(d1[0].1 == d2[0].1) by {
            assert(doc_lookup(d1, k1) == doc_lookup(d2, k1));
        }
        let t1 = d1.skip(1);
        let t2 = d2.skip(1);
        assert(doc_wf(t1)) by {
            assert forall|a: int, b: int| 0 <= a < b < t1.len() implies lex_lt(
                (#[trigger] t1[a]).0,
                (#[trigger] t1[b]).0,
            ) by {
                assert(t1[a] == d1[a + 1]);
                assert(t1[b] == d1[b + 1]);
            }
        }
        assert(doc_wf(t2)) by {
            assert forall|a: int, b: int| 0 <= a < b < t2.len() implies lex_lt(
                (#[trigger] t2[a]).0,
                (#[trigger] t2[b]).0,
            ) by {
                assert(t2[a] == d2[a + 1]);
                assert(t2[b] == d2[b + 1]);
            }
        }
        assert forall|k: Seq<char>| #[trigger] doc_lookup(t1, k) == doc_lookup(t2, k) by {
            if k == k1 {
                // the head key occurs in neither tail
                assert forall|j: int| 0 <= j < t1.len() implies (#[trigger] t1[j]).0 != k by {
                    assert(t1[j] == d1[j + 1]);
                    assert(lex_lt(d1[0].0, d1[j + 1].0));
                    lemma_lex_lt_asym(d1[0].0, d1[j + 1].0);
                }
                assert forall|j: int| 0 <= j < t2.len() implies (#[trigger] t2[j]).0 != k by {
                    assert(t2[j] == d2[j + 1]);
                    assert(lex_lt(d2[0].0, d2[j + 1].0));
                    lemma_lex_lt_asym(d2[0].0, d2[j + 1].0);
                }
                lemma_lookup_none(t1, k);
                lemma_lookup_none(t2, k);
            } else {
                lemma_lookup_skip_head(d1, k);
                lemma_lookup_skip_head(d2, k);
                assert(doc_lookup(d1, k) == doc_lookup(d2, k));
            }
        }
        lemma_doc_determined(t1, t2);
        assert(d1 =~= d2) by {
            assert(d1.len() == t1.len() + 1);
            assert(d2.len() == t2.len() + 1);
            assert(d1[0] == d2[0]);
            assert(forall|j: int| 0 < j < d1.len() ==> #[trigger] d1[j] == t1[j - 1]);
            assert(forall|j: int| 0 < j < d2.len() ==> #[trigger] d2[j] == t2[j - 1]);
        }
    }
}

/// Everything a filtered sequence holds is an element of the unfiltered one.
pub proof fn lemma_filter_subset<A>(s: Seq<A>, pred: spec_fn(A) -> bool)
    ensures
        forall|i: int| 0 <= i < s.filter(pred).len() ==> s.contains(#[trigger] s.filter(pred)[i]),
    decreases s.len(),
{
    reveal(Seq::filter);
    if s.len() > 0 {
        let dd = s.drop_last();
        lemma_filter_subset(dd, pred);
        assert forall|i: int| 0 <= i < s.filter(pred).len() implies s.contains(
            #[trigger] s.filter(pred)[i],
        ) by {
            if pred(s.last()) {
                assert(s.filter(pred) == dd.filter(pred).push(s.last()));
            } else {
                assert(s.filter(pred) == dd.filter(pred));
            }
            if i < dd.filter(pred).len() {
                assert(s.filter(pred)[i] == dd.filter(pred)[i]);
                assert(dd.contains(dd.filter(pred)[i]));
                let j = choose|j: int| 0 <= j < dd.len() && dd[j] == dd.filter(pred)[i];
                assert(s[j] == dd[j]);
            } else {
                assert(s.filter(pred)[i] == s.last());
                assert(s[s.len() - 1] == s.last());
            }
        }
    }
}

/// Keys in strictly increasing order.
pub open spec fn strictly_sorted(ks: Seq<Seq<char>>) -> bool {
    forall|i: int, j: int| 0 <= i < j < ks.len() ==> lex_lt(#[trigger] ks[i], #[trigger] ks[j])
}

/// A strictly sorted key sequence is determined by its membership: two such
/// sequences holding the same keys are the same sequence.
pub proof fn lemma_sorted_keys_determined(a: Seq<Seq<char>>, b: Seq<Seq<char>>)
    requires
        strictly_sorted(a),
        strictly_sorted(b),
        forall|k: Seq<char>| #[trigger] a.contains(k) <==> b.contains(k),
    ensures
        a == b,
    decreases a.len(),
{
    if a.len() == 0 && b.len() == 0 {
        assert(a =~= b);
    } else if a.len() == 0 {
        assert(b.contains(b[0]));
        assert(a.contains(b[0]));
        assert(false);
    } else if b.len() == 0 {
        assert(a.contains(a[0]));
        assert(b.contains(a[0]));
        assert(false);
    } else {
        if a[0] != b[0] {
            lemma_lex_lt_total(a[0], b[0]);
            if lex_lt(a[0], b[0]) {
                assert(a.contains(a[0]));
                assert(b.contains(a[0]));
                let x = choose|x: int| 0 <= x < b.len() && b[x] == a[0];
                assert(x != 0);
                assert(lex_lt(b[0], b[x]));
                lemma_lex_lt_trans(a[0], b[0], b[x]);
                lemma_lex_lt_asym(a[0], b[x]);
                assert(false);
            } else {
                assert(b.contains(b[0]));
                assert(a.contains(b[0]));
                let x = choose|x: int| 0 <= x < a.len() && a[x] == b[0];
                assert(x != 0);
                assert(lex_lt(a[0], a[x]));
                lemma_lex_lt_trans(b[0], a[0], a[x]);
                lemma_lex_lt_asym(b[0], a[x]);
                assert(false);
            }
        }
        let ta = a.skip(1);
        let tb = b.skip(1);
        assert(forall|x: int| 0 <= x < ta.len() ==> ta[x] == a[x + 1]);
        assert(forall|x: int| 0 <= x < tb.len() ==> tb[x] == b[x + 1]);
        assert(strictly_sorted(ta)) by {
            assert forall|i: int, j: int| 0 <= i < j < ta.len() implies lex_lt(
                #[trigger] ta[i],
                #[trigger] ta[j],
            ) by {
                assert(lex_lt(a[i + 1], a[j + 1]));
            }
        }
        assert(strictly_sorted(tb)) by {
            assert forall|i: int, j: int| 0 <= i < j < tb.len() implies lex_lt(
                #[trigger] tb[i],
                #[trigger] tb[j],
            ) by {
                assert(lex_lt(b[i + 1], b[j + 1]));
            }
        }
        assert forall|k: Seq<char>| #[trigger] ta.contains(k) <==> tb.contains(k) by {
            if ta.contains(k) {
                let x = choose|x: int| 0 <= x < ta.len() && ta[x] == k;
                assert(a[x + 1] == k);
                assert(a.contains(k));
                assert(lex_lt(a[0], a[x + 1]));
                lemma_lex_lt_asym(a[0], k);
                assert(b.contains(k));
                let y = choose|y: int| 0 <= y < b.len() && b[y] == k;
                assert(y != 0);
                assert(tb[y - 1] == k);
                assert(tb.contains(k));
            }
            if tb.contains(k) {
                let x = choose|x: int| 0 <= x < tb.len() && tb[x] == k;
                assert(b[x + 1] == k);
                assert(b.contains(k));
                assert(lex_lt(b[0], b[x + 1]));
                lemma_lex_lt_asym(b[0], k);
                assert(a.contains(k));
                let y = choose|y: int| 0 <= y < a.len() && a[y] == k;
                assert(y != 0);
                assert(ta[y - 1] == k);
                assert(ta.contains(k));
            }
        }
        lemma_sorted_keys_determined(ta, tb);
        assert(a =~= b) by {
            assert(a.len() == ta.len() + 1);
            assert(b.len() == tb.len() + 1);
            assert(forall|x: int| 0 < x < a.len() ==> #[trigger] a[x] == ta[x - 1]);
            assert(forall|x: int| 0 < x < b.len() ==> #[trigger] b[x] == tb[x - 1]);
        }
    }
}

/// A snapshot document under construction: a field list kept strictly sorted
/// by key.
#[derive(Clone, Debug, PartialEq, Eq)]
pub struct Document {
    pub fields: Vec<(String, FieldValue)>,
}

impl View for Document {
    type V = Seq<(Seq<char>, FieldV)>;

    open spec fn view(&self) -> Seq<(Seq<char>, FieldV)> {
        fields_view(self.fields@)
    }
}

impl Document {
    /// The empty document.
    pub fn new() -> (r: Document)
        ensures
            r@ =~= Seq::<(Seq<char>, FieldV)>::empty(),
            doc_wf(r@),
    {
        Document { fields: Vec::new() }
    }

    /// Number of fields.
    pub fn len(&self) -> (r: usize)
        ensures
            r == self@.len(),
    {
        self.fields.len()
    }

    /// The field at position `i`, for walking a document in order.
    pub fn field_at(&self, i: usize) -> (r: &(String, FieldValue))
        requires
            i < self@.len(),
        ensures
            r.0@ == self@[i as int].0,
            r.1@ == self@[i as int].1,
    {
        &self.fields[i]
    }

    /// Store `value` under `key`, overwriting any prior field with that key
    /// and keeping the field list sorted.
    pub fn insert(&mut self, key: String, value: FieldValue)
        requires
            doc_wf(old(self)@),
        ensures
            doc_wf(final(self)@),
            doc_lookup(final(self)@, key@) == Some(value@),
            forall|k: Seq<char>|
                k != key@ ==> #[trigger] doc_lookup(final(self)@, k) == doc_lookup(old(self)@, k),
    {
        let ghost d0 = self@;
        let n = self.fields.len();
        let mut i: usize = 0;
        while i < n && str_lt(self.fields[i].0.as_str(), key.as_str())
            invariant
                n == self.fields@.len(),
                0 <= i <= n,
                self == old(self),
                forall|j: int| 0 <= j < i ==> lex_lt((#[trigger] self@[j]).0, key@),
            decreases n - i,
        {
            i += 1;
        }
        let ghost pv = (key@, value@);
        if i < n && str_eq(self.fields[i].0.as_str(), key.as_str()) {
            proof {
                lemma_update_lookup(d0, i as int, pv);
            }
            self.fields.remove(i);
            self.fields.insert(i, (key, value));
            proof {
                assert(self@ =~= d0.update(i as int, pv));
            }
        } else {
            proof {
                assert forall|j: int| i <= j < d0.len() implies lex_lt(
                    pv.0,
                    (#[trigger] d0[j]).0,
                ) by {
                    assert(!lex_lt(d0[i as int].0, key@));
                    assert(d0[i as int].0 != key@);
                    lemma_lex_lt_total(d0[i as int].0, key@);
                    assert(lex_lt(key@, d0[i as int].0));
                    if j > i {
                        assert(lex_lt(d0[i as int].0, d0[j].0));
                        lemma_lex_lt_trans(key@, d0[i as int].0, d0[j].0);
                    }
                }
                lemma_insert_lookup(d0, i as int, pv);
            }
            self.fields.insert(i, (key, value));
            proof {
                assert(self@ =~= d0.insert(i as int, pv));
            }
        }
    }

    /// Look a key up in the document.
    pub fn get(&self, key: &str) -> (r: Option<&FieldValue>)
        requires
            doc_wf(self@),
        ensures
            match r {
                Some(v) => doc_lookup(self@, key@) == Some(v@),
                None => doc_lookup(self@, key@) is None,
            },
    {
        proof {
            lemma_wf_distinct(self@);
        }
        let n = self.fields.len();
        let mut i: usize = 0;
        while i < n
            invariant
                n == self.fields@.len(),
                doc_keys_distinct(self@),
                0 <= i <= n,
                forall|j: int| 0 <= j < i ==> (#[trigger] self@[j]).0 != key@,
            decreases n - i,
        {
            if str_eq(self.fields[i].0.as_str(), key) {
                proof {
                    lemma_lookup_at(self@, i as int);
                }
                return Some(&self.fields[i].1);
            }
            i += 1;
        }
        proof {
            lemma_lookup_none(self@, key@);
        }
        None
    }
}

} // verus!
