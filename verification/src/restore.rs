//! The restore engine: writing a snapshot document back into the
//! configuration store, key by key and best-effort.
//!
//! Restore is split into a verified planning step — which fields become
//! writes, which are skipped — and a verified application step whose effect
//! on the store is stated over a success mask, since any single write may be
//! refused by the store.

use vstd::prelude::*;
use crate::doc::{
    doc_has_key, doc_index_of, doc_keys_distinct, doc_lookup, Document, FieldV, FieldValue,
    lemma_filter_subset, lemma_lookup_at, lemma_wf_distinct,
};
use crate::errors::AgentError;
use crate::snapshot::{
    capture_characterizes, CaptureConfigV, is_reserved_key, is_reserved_name,
    marker_capture_field, plain_capture_field,
};
use crate::store::{store_map, store_set};
use crate::text::has_prefix;
use crate::wire::{flat_parse, json_canon, parse_document_text};

verus! {

/// The string written back to the store for a field value: text and
/// structured fields have a wire form, a key list has none.
pub open spec fn wire_of(v: FieldV) -> Option<Seq<char>> {
    match v {
        FieldV::Text(s) => Some(s),
        FieldV::Structured(c) => Some(c),
        FieldV::KeyList(ks) => None,
    }
}

/// A data field that restore writes back.
pub open spec fn is_writable_field(p: (Seq<char>, FieldV)) -> bool {
    !is_reserved_name(p.0) && wire_of(p.1) is Some
}

/// A data field that restore must skip: it has no string wire form.
pub open spec fn is_malformed_field(p: (Seq<char>, FieldV)) -> bool {
    !is_reserved_name(p.0) && wire_of(p.1) is None
}

/// The ordered writes a restore performs for a document.
pub open spec fn spec_plan_writes(d: Seq<(Seq<char>, FieldV)>) -> Seq<(Seq<char>, Seq<char>)> {
    d.filter(|p: (Seq<char>, FieldV)| is_writable_field(p)).map_values(
        |p: (Seq<char>, FieldV)| (p.0, wire_of(p.1)->Some_0),
    )
}

/// The keys a restore skips for want of a wire form.
pub open spec fn spec_plan_skipped(d: Seq<(Seq<char>, FieldV)>) -> Seq<Seq<char>> {
    d.filter(|p: (Seq<char>, FieldV)| is_malformed_field(p)).map_values(
        |p: (Seq<char>, FieldV)| p.0,
    )
}

/// Extending a document by one field extends its plan accordingly.
proof fn lemma_plan_snoc(d: Seq<(Seq<char>, FieldV)>, p: (Seq<char>, FieldV))
    ensures
        spec_plan_writes(d.push(p)) == (if is_writable_field(p) {
            spec_plan_writes(d).push((p.0, wire_of(p.1)->Some_0))
        } else {
            spec_plan_writes(d)
        }),
        spec_plan_skipped(d.push(p)) == (if is_malformed_field(p) {
            spec_plan_skipped(d).push(p.0)
        } else {
            spec_plan_skipped(d)
        }),
{
    reveal(Seq::filter);
    let wpred = |q: (Seq<char>, FieldV)| is_writable_field(q);
    let spred = |q: (Seq<char>, FieldV)| is_malformed_field(q);
    assert(d.push(p).drop_last() =~= d);
    assert(d.push(p).last() == p);
    if is_writable_field(p) {
        assert(d.push(p).filter(wpred) == d.filter(wpred).push(p));
        assert(spec_plan_writes(d.push(p)) =~= spec_plan_writes(d).push(
            (p.0, wire_of(p.1)->Some_0),
        ));
        assert(d.push(p).filter(spred) == d.filter(spred));
    } else if is_malformed_field(p) {
        assert(d.push(p).filter(spred) == d.filter(spred).push(p));
        assert(spec_plan_skipped(d.push(p)) =~= spec_plan_skipped(d).push(p.0));
        assert(d.push(p).filter(wpred) == d.filter(wpred));
    } else {
        assert(d.push(p).filter(wpred) == d.filter(wpred));
        assert(d.push(p).filter(spred) == d.filter(spred));
    }
}

/// A document plans at most one entry, write or skip, per field.
proof fn lemma_plan_sizes(d: Seq<(Seq<char>, FieldV)>)
    ensures
        spec_plan_writes(d).len() + spec_plan_skipped(d).len() <= d.len(),
    decreases d.len(),
{
    if d.len() == 0 {
        reveal(Seq::filter);
    } else {
        let dd = d.drop_last();
        lemma_plan_sizes(dd);
        lemma_plan_snoc(dd, d.last());
        assert(dd.push(d.last()) =~= d);
    }
}

/// The view of an executable write list.
pub open spec fn pairs_view(v: Seq<(String, String)>) -> Seq<(Seq<char>, Seq<char>)> {
    Seq::new(v.len(), |i: int| (v[i].0@, v[i].1@))
}

/// What a restore will do to the store: the writes in document order, and
/// the skipped keys.
pub struct RestorePlan {
    pub writes: Vec<(String, String)>,
    pub skipped: Vec<String>,
}

/// Compute the restore plan of a document: every non-reserved field becomes
/// a write of its wire form, in order; fields without a wire form are
/// skipped.  The reserved metadata fields are never written.
pub fn restore_plan(doc: &Document) -> (r: RestorePlan)
    ensures
        pairs_view(r.writes@) == spec_plan_writes(doc@),
        r.skipped.deep_view() == spec_plan_skipped(doc@),
{
    let mut writes: Vec<(String, String)> = Vec::new();
    let mut skipped: Vec<String> = Vec::new();
    let n = doc.len();
    let mut i: usize = 0;
    proof {
        assert(doc@.take(0) =~= Seq::<(Seq<char>, FieldV)>::empty());
        reveal(Seq::filter);
        assert(pairs_view(writes@) =~= spec_plan_writes(doc@.take(0)));
        assert(skipped.deep_view() =~= spec_plan_skipped(doc@.take(0)));
    }
    while i < n
        invariant
            n == doc@.len(),
            0 <= i <= n,
            pairs_view(writes@) == spec_plan_writes(doc@.take(i as int)),
            skipped.deep_view() == spec_plan_skipped(doc@.take(i as int)),
        decreases n - i,
    {
        let ghost wpre = writes@;
        let ghost spre = skipped@;
        let ghost dpart = doc@.take(i as int);
        let ghost dpart1 = doc@.take(i + 1 as int);
        let ghost p = doc@[i as int];
        let f = doc.field_at(i);
        if !is_reserved_key(f.0.as_str()) {
            match &f.1 {
                FieldValue::Text(s) => {
                    writes.push((f.0.clone(), s.clone()));
                },
                FieldValue::Structured(c) => {
                    writes.push((f.0.clone(), c.clone()));
                },
                FieldValue::KeyList(ks) => {
                    skipped.push(f.0.clone());
                },
            }
        }
        proof {
            assert(dpart1 =~= dpart.push(p));
            lemma_plan_snoc(dpart, p);
            if is_writable_field(p) {
                assert(pairs_view(writes@) =~= spec_plan_writes(dpart1));
                assert(skipped.deep_view() =~= spec_plan_skipped(dpart1));
            } else if is_malformed_field(p) {
                assert(pairs_view(writes@) =~= spec_plan_writes(dpart1));
                assert(skipped.deep_view() =~= spec_plan_skipped(dpart1));
            } else {
                assert(pairs_view(writes@) =~= spec_plan_writes(dpart1));
                assert(skipped.deep_view() =~= spec_plan_skipped(dpart1));
            }
        }
        i += 1;
    }
    proof {
        assert(doc@.take(n as int) =~= doc@);
    }
    RestorePlan { writes, skipped }
}

/// Filtering fields with pairwise distinct keys keeps the keys distinct.
proof fn lemma_filter_distinct_keys(
    d: Seq<(Seq<char>, FieldV)>,
    pred: spec_fn((Seq<char>, FieldV)) -> bool,
)
    requires
        doc_keys_distinct(d),
    ensures
        doc_keys_distinct(d.filter(pred)),
    decreases d.len(),
{
    reveal(Seq::filter);
    if d.len() > 0 {
        let dd = d.drop_last();
        assert(doc_keys_distinct(dd)) by {
            assert(forall|x: int| 0 <= x < dd.len() ==> dd[x] == d[x]);
        }
        lemma_filter_distinct_keys(dd, pred);
        lemma_filter_subset(dd, pred);
        let fs = d.filter(pred);
        assert forall|x: int, y: int| 0 <= x < y < fs.len() implies (#[trigger] fs[x]).0 != (
        #[trigger] fs[y]).0 by {
            if pred(d.last()) {
                assert(fs == dd.filter(pred).push(d.last()));
            } else {
                assert(fs == dd.filter(pred));
            }
            if y < dd.filter(pred).len() {
                assert(fs[x] == dd.filter(pred)[x]);
                assert(fs[y] == dd.filter(pred)[y]);
            } else {
                // y names the pushed final field; x comes from the front
                assert(fs[y] == d.last());
                assert(fs[x] == dd.filter(pred)[x]);
                assert(dd.contains(dd.filter(pred)[x]));
                let j = choose|j: int| 0 <= j < dd.len() && dd[j] == dd.filter(pred)[x];
                assert(d[j] == dd[j]);
                assert(d[j].0 != d[d.len() - 1].0);
            }
        }
    }
}

/// A planned write names a key the document holds, with that field's wire
/// form; reserved names are never planned.
pub proof fn lemma_plan_sound(d: Seq<(Seq<char>, FieldV)>, x: int)
    requires
        doc_keys_distinct(d),
        0 <= x < spec_plan_writes(d).len(),
    ensures
        !is_reserved_name(spec_plan_writes(d)[x].0),
        doc_lookup(d, spec_plan_writes(d)[x].0) matches Some(v) && wire_of(v) == Some(
            spec_plan_writes(d)[x].1,
        ),
{
    let pred = |p: (Seq<char>, FieldV)| is_writable_field(p);
    let fs = d.filter(pred);
    assert(spec_plan_writes(d)[x] == (fs[x].0, wire_of(fs[x].1)->Some_0));
    d.lemma_filter_pred(pred, x);
    lemma_filter_subset(d, pred);
    assert(d.contains(fs[x]));
    let j = choose|j: int| 0 <= j < d.len() && d[j] == fs[x];
    lemma_lookup_at(d, j);
}

/// Every non-reserved field with a wire form is planned as a write.
pub proof fn lemma_plan_complete(d: Seq<(Seq<char>, FieldV)>, i: int)
    requires
        0 <= i < d.len(),
        is_writable_field(d[i]),
    ensures
        plan_has_write(spec_plan_writes(d), d[i].0, wire_of(d[i].1)->Some_0),
{
    let pred = |p: (Seq<char>, FieldV)| is_writable_field(p);
    d.lemma_filter_contains(pred, i);
    let fs = d.filter(pred);
    assert(fs.contains(d[i]));
    let x = choose|x: int| 0 <= x < fs.len() && fs[x] == d[i];
    assert(spec_plan_writes(d)[x] == (fs[x].0, wire_of(fs[x].1)->Some_0));
}

/// Some field carries this planned write's key and wire form.
pub open spec fn plan_has_write(
    ws: Seq<(Seq<char>, Seq<char>)>,
    k: Seq<char>,
    w: Seq<char>,
) -> bool {
    exists|i: int| 0 <= i < ws.len() && ws[i] == (k, w)
}

/// A skipped key names a malformed field of the document.
proof fn lemma_skipped_sound(d: Seq<(Seq<char>, FieldV)>, x: int)
    requires
        doc_keys_distinct(d),
        0 <= x < spec_plan_skipped(d).len(),
    ensures
        exists|j: int|
            0 <= j < d.len() && (#[trigger] d[j]).0 == spec_plan_skipped(d)[x]
                && is_malformed_field(d[j]),
{
    let pred = |p: (Seq<char>, FieldV)| is_malformed_field(p);
    let fs = d.filter(pred);
    assert(spec_plan_skipped(d)[x] == fs[x].0);
    d.lemma_filter_pred(pred, x);
    lemma_filter_subset(d, pred);
    assert(d.contains(fs[x]));
    let j = choose|j: int| 0 <= j < d.len() && d[j] == fs[x];
    assert(d[j].0 == spec_plan_skipped(d)[x] && is_malformed_field(d[j]));
}

/// Every malformed field's key is in the skipped list.
proof fn lemma_skipped_complete(d: Seq<(Seq<char>, FieldV)>, i: int)
    requires
        0 <= i < d.len(),
        is_malformed_field(d[i]),
    ensures
        spec_plan_skipped(d).contains(d[i].0),
{
    let pred = |p: (Seq<char>, FieldV)| is_malformed_field(p);
    d.lemma_filter_contains(pred, i);
    let fs = d.filter(pred);
    let x = choose|x: int| 0 <= x < fs.len() && fs[x] == d[i];
    assert(spec_plan_skipped(d)[x] == d[i].0);
}

/// How many writes succeeded, per a success mask.
pub open spec fn count_true(ok: Seq<bool>) -> int
    decreases ok.len(),
{
    if ok.len() == 0 {
        0
    } else {
        count_true(ok.drop_last()) + if ok.last() {
            1int
        } else {
            0int
        }
    }
}

/// The store contents after applying the writes whose mask entry is true.
pub open spec fn apply_writes_masked(
    m0: Map<Seq<char>, Seq<char>>,
    ws: Seq<(Seq<char>, Seq<char>)>,
    ok: Seq<bool>,
) -> Map<Seq<char>, Seq<char>>
    decreases ws.len(),
{
    if ws.len() == 0 {
        m0
    } else {
        let m1 = if ok[0] {
            m0.insert(ws[0].0, ws[0].1)
        } else {
            m0
        };
        apply_writes_masked(m1, ws.skip(1), ok.skip(1))
    }
}

proof fn lemma_apply_masked_snoc(
    m0: Map<Seq<char>, Seq<char>>,
    ws: Seq<(Seq<char>, Seq<char>)>,
    ok: Seq<bool>,
    w: (Seq<char>, Seq<char>),
    b: bool,
)
    requires
        ok.len() == ws.len(),
    ensures
        apply_writes_masked(m0, ws.push(w), ok.push(b)) == (if b {
            apply_writes_masked(m0, ws, ok).insert(w.0, w.1)
        } else {
            apply_writes_masked(m0, ws, ok)
        }),
    decreases ws.len(),
{
    if ws.len() == 0 {
        assert(ws.push(w)[0] == w);
        assert(ok.push(b)[0] == b);
        assert(ws.push(w).skip(1) =~= Seq::<(Seq<char>, Seq<char>)>::empty());
        assert(ok.push(b).skip(1) =~= Seq::<bool>::empty());
        let m1 = if b {
            m0.insert(w.0, w.1)
        } else {
            m0
        };
        assert(apply_writes_masked(m1, ws.push(w).skip(1), ok.push(b).skip(1)) == m1);
        assert(apply_writes_masked(m0, ws.push(w), ok.push(b)) == m1);
        assert(apply_writes_masked(m0, ws, ok) == m0);
    } else {
        assert(ws.push(w)[0] == ws[0]);
        assert(ok.push(b)[0] == ok[0]);
        assert(ws.push(w).skip(1) =~= ws.skip(1).push(w));
        assert(ok.push(b).skip(1) =~= ok.skip(1).push(b));
        let m1 = if ok[0] {
            m0.insert(ws[0].0, ws[0].1)
        } else {
            m0
        };
        lemma_apply_masked_snoc(m1, ws.skip(1), ok.skip(1), w, b);
        assert(apply_writes_masked(m0, ws.push(w), ok.push(b)) == apply_writes_masked(
            m1,
            ws.skip(1).push(w),
            ok.skip(1).push(b),
        ));
        assert(apply_writes_masked(m0, ws, ok) == apply_writes_masked(
            m1,
            ws.skip(1),
            ok.skip(1),
        ));
    }
}

proof fn lemma_count_true_snoc(ok: Seq<bool>, b: bool)
    ensures
        count_true(ok.push(b)) == count_true(ok) + if b {
            1int
        } else {
            0int
        },
{
    assert(ok.push(b).drop_last() =~= ok);
    assert(ok.push(b).last() == b);
}

proof fn lemma_count_true_nonneg(ok: Seq<bool>)
    ensures
        count_true(ok) >= 0,
    decreases ok.len(),
{
    if ok.len() > 0 {
        lemma_count_true_nonneg(ok.drop_last());
    }
}

proof fn lemma_count_zero_all_false(ok: Seq<bool>)
    requires
        count_true(ok) == 0,
    ensures
        forall|i: int| 0 <= i < ok.len() ==> !ok[i],
    decreases ok.len(),
{
    if ok.len() > 0 {
        lemma_count_true_nonneg(ok.drop_last());
        assert(!ok.last());
        lemma_count_zero_all_false(ok.drop_last());
        assert forall|i: int| 0 <= i < ok.len() implies !ok[i] by {
            if i < ok.len() - 1 {
                assert(ok.drop_last()[i] == ok[i]);
            }
        }
    }
}

/// Applying a write list of which nothing was accepted leaves the store
/// unchanged.
proof fn lemma_apply_none_accepted(
    m0: Map<Seq<char>, Seq<char>>,
    ws: Seq<(Seq<char>, Seq<char>)>,
    ok: Seq<bool>,
)
    requires
        ok.len() == ws.len(),
        count_true(ok) == 0,
    ensures
        apply_writes_masked(m0, ws, ok) == m0,
    decreases ws.len(),
{
    lemma_count_zero_all_false(ok);
    if ws.len() > 0 {
        assert(!ok[0]);
        assert(count_true(ok.skip(1)) == 0) by {
            lemma_count_true_nonneg(ok.skip(1));
            if count_true(ok.skip(1)) > 0 {
                lemma_count_zero_all_false(ok);
                let t = ok.skip(1);
                lemma_count_true_nonneg(t.drop_last());
                if t.len() > 0 && t.last() {
                    assert(ok[ok.len() - 1]);
                    assert(false);
                } else if t.len() > 0 {
                    lemma_nonzero_count_has_true(t);
                    let x = choose|x: int| 0 <= x < t.len() && t[x];
                    assert(ok[x + 1]);
                    assert(false);
                }
            }
        }
        lemma_apply_none_accepted(m0, ws.skip(1), ok.skip(1));
    }
}

proof fn lemma_nonzero_count_has_true(ok: Seq<bool>)
    requires
        count_true(ok) > 0,
    ensures
        exists|i: int| 0 <= i < ok.len() && ok[i],
    decreases ok.len(),
{
    if ok.len() > 0 {
        if ok.last() {
            assert(ok[ok.len() - 1]);
        } else {
            lemma_nonzero_count_has_true(ok.drop_last());
            let x = choose|x: int| 0 <= x < ok.drop_last().len() && ok.drop_last()[x];
            assert(ok[x]);
        }
    }
}

/// How a restore went: keys written, keys skipped (malformed or refused).
#[derive(Clone, Copy, Debug, PartialEq, Eq)]
pub struct RestoreSummary {
    pub written: usize,
    pub skipped: usize,
}

/// Apply a restore plan to the store.  Every write is attempted once; a
/// refused write is counted, not retried, and does not stop the rest.  The
/// store afterwards is the old store with the successful writes applied in
/// order.
pub fn apply_restore(conn: &mut rusqlite::Connection, plan: &RestorePlan) -> (r: (usize, usize))
    ensures
        r.0 + r.1 == plan.writes@.len(),
        exists|ok: Seq<bool>|
            {
                &&& ok.len() == plan.writes@.len()
                &&& store_map(*final(conn)) == apply_writes_masked(
                    store_map(*old(conn)),
                    pairs_view(plan.writes@),
                    ok,
                )
                &&& r.0 == count_true(ok)
            },
{
    let ghost m0 = store_map(*old(conn));
    let ghost ws = pairs_view(plan.writes@);
    let n = plan.writes.len();
    let mut written: usize = 0;
    let mut failed: usize = 0;
    let mut i: usize = 0;
    let ghost mask = Seq::<bool>::empty();
    proof {
        assert(ws.take(0) =~= Seq::<(Seq<char>, Seq<char>)>::empty());
    }
    let mut mask_g: Ghost<Seq<bool>> = Ghost(mask);
    while i < n
        invariant
            n == plan.writes@.len(),
            ws == pairs_view(plan.writes@),
            0 <= i <= n,
            written + failed == i,
            mask_g@.len() == i,
            store_map(*conn) == apply_writes_masked(m0, ws.take(i as int), mask_g@),
            written == count_true(mask_g@),
        decreases n - i,
    {
        let ghost mpre = mask_g@;
        let w = &plan.writes[i];
        let ok = match store_set(conn, w.0.as_str(), w.1.as_str()) {
            Ok(()) => true,
            Err(_) => false,
        };
        if ok {
            written += 1;
        } else {
            failed += 1;
        }
        proof {
            assert(ws[i as int] == (w.0@, w.1@));
            assert(ws.take(i + 1 as int) =~= ws.take(i as int).push(ws[i as int]));
            lemma_apply_masked_snoc(m0, ws.take(i as int), mpre, ws[i as int], ok);
            lemma_count_true_snoc(mpre, ok);
        }
        mask_g = Ghost(mask_g@.push(ok));
        i += 1;
    }
    proof {
        assert(ws.take(n as int) =~= ws);
    }
    (written, failed)
}

/// One planned write of a captured snapshot: a captured store key written
/// back with its stored value, except the marker, which is written in
/// canonical form when its value is valid JSON.
pub open spec fn is_captured_write(
    store: Map<Seq<char>, Seq<char>>,
    cfg: CaptureConfigV,
    kw: (Seq<char>, Seq<char>),
) -> bool {
    &&& !is_reserved_name(kw.0)
    &&& store.dom().contains(kw.0)
    &&& if kw.0 == cfg.marker_key {
        match json_canon(store[kw.0]) {
            Some(c) => kw.1 == c,
            None => kw.1 == store[kw.0] && (cfg.well_known.contains(kw.0) || has_prefix(
                kw.0,
                cfg.notification_prefix,
            )),
        }
    } else {
        kw.1 == store[kw.0] && (cfg.well_known.contains(kw.0) || has_prefix(
            kw.0,
            cfg.notification_prefix,
        ))
    }
}

/// Round trip: the restore plan of a captured snapshot writes back exactly
/// the captured data keys — every captured plain key verbatim, the marker in
/// canonical form when its value was valid JSON — and nothing else.
pub proof fn lemma_capture_restore_round_trip(
    d: Seq<(Seq<char>, FieldV)>,
    store: Map<Seq<char>, Seq<char>>,
    cfg: CaptureConfigV,
    email: Seq<char>,
    t: Seq<char>,
)
    requires
        capture_characterizes(d, store, cfg, email, t),
    ensures
        forall|k: Seq<char>|
            !is_reserved_name(k) && k != cfg.marker_key && store.dom().contains(k)
                && (cfg.well_known.contains(k) || has_prefix(k, cfg.notification_prefix))
                ==> #[trigger] plan_has_write(spec_plan_writes(d), k, store[k]),
        !is_reserved_name(cfg.marker_key) && store.dom().contains(cfg.marker_key)
            ==> match json_canon(store[cfg.marker_key]) {
            Some(c) => plan_has_write(spec_plan_writes(d), cfg.marker_key, c),
            None => (cfg.well_known.contains(cfg.marker_key) || has_prefix(
                cfg.marker_key,
                cfg.notification_prefix,
            )) ==> plan_has_write(spec_plan_writes(d), cfg.marker_key, store[cfg.marker_key]),
        },
        forall|x: int|
            0 <= x < spec_plan_writes(d).len() ==> is_captured_write(
                store,
                cfg,
                #[trigger] spec_plan_writes(d)[x],
            ),
{
    lemma_wf_distinct(d);
    // completeness for plain captured keys
    assert forall|k: Seq<char>|
        !is_reserved_name(k) && k != cfg.marker_key && store.dom().contains(k)
            && (cfg.well_known.contains(k) || has_prefix(k, cfg.notification_prefix)) implies
        #[trigger] plan_has_write(spec_plan_writes(d), k, store[k]) by {
        assert(doc_lookup(d, k) == plain_capture_field(store, cfg, k));
        assert(doc_lookup(d, k) == Some(FieldV::Text(store[k])));
        let j = doc_index_of(d, k);
        assert(doc_has_key(d, k));
        assert(0 <= j < d.len() && d[j].0 == k);
        assert(d[j].1 == FieldV::Text(store[k]));
        assert(is_writable_field(d[j]));
        lemma_plan_complete(d, j);
    }
    // completeness for the marker
    if !is_reserved_name(cfg.marker_key) && store.dom().contains(cfg.marker_key) {
        assert(doc_lookup(d, cfg.marker_key) == marker_capture_field(store, cfg));
        match json_canon(store[cfg.marker_key]) {
            Some(c) => {
                assert(doc_lookup(d, cfg.marker_key) == Some(FieldV::Structured(c)));
                let j = doc_index_of(d, cfg.marker_key);
                assert(doc_has_key(d, cfg.marker_key));
                assert(0 <= j < d.len() && d[j].0 == cfg.marker_key);
                assert(d[j].1 == FieldV::Structured(c));
                assert(is_writable_field(d[j]));
                lemma_plan_complete(d, j);
            },
            None => {
                if cfg.well_known.contains(cfg.marker_key) || has_prefix(
                    cfg.marker_key,
                    cfg.notification_prefix,
                ) {
                    assert(doc_lookup(d, cfg.marker_key) == Some(
                        FieldV::Text(store[cfg.marker_key]),
                    ));
                    let j = doc_index_of(d, cfg.marker_key);
                    assert(doc_has_key(d, cfg.marker_key));
                    assert(0 <= j < d.len() && d[j].0 == cfg.marker_key);
                    assert(is_writable_field(d[j]));
                    lemma_plan_complete(d, j);
                }
            },
        }
    }
    // soundness: nothing else is planned
    assert forall|x: int| 0 <= x < spec_plan_writes(d).len() implies is_captured_write(
        store,
        cfg,
        #[trigger] spec_plan_writes(d)[x],
    ) by {
        lemma_plan_sound(d, x);
        let k = spec_plan_writes(d)[x].0;
        let w = spec_plan_writes(d)[x].1;
        if k == cfg.marker_key {
            assert(doc_lookup(d, k) == marker_capture_field(store, cfg));
        } else if k == "notification_keys"@ {
            assert(is_reserved_name(k));
        } else if k == "account_email"@ || k == "backup_time"@ {
            assert(is_reserved_name(k));
        } else {
            assert(doc_lookup(d, k) == plain_capture_field(store, cfg, k));
        }
    }
}

/// Some write in the list carries key `k`.
pub open spec fn writes_has_key(ws: Seq<(Seq<char>, Seq<char>)>, k: Seq<char>) -> bool {
    exists|i: int| 0 <= i < ws.len() && (#[trigger] ws[i]).0 == k
}

/// With pairwise distinct keys and every write accepted, applying a write
/// list stores exactly its pairs and leaves every other key alone.
pub proof fn lemma_apply_all_accepted(
    m0: Map<Seq<char>, Seq<char>>,
    ws: Seq<(Seq<char>, Seq<char>)>,
    ok: Seq<bool>,
)
    requires
        ok.len() == ws.len(),
        forall|i: int| 0 <= i < ok.len() ==> ok[i],
        forall|i: int, j: int| 0 <= i < j < ws.len() ==> (#[trigger] ws[i]).0 != (#[trigger] ws[j]).0,
    ensures
        forall|i: int|
            0 <= i < ws.len() ==> apply_writes_masked(m0, ws, ok).dom().contains(
                (#[trigger] ws[i]).0,
            ) && apply_writes_masked(m0, ws, ok)[ws[i].0] == ws[i].1,
        forall|k: Seq<char>|
            !writes_has_key(ws, k) ==> (#[trigger] apply_writes_masked(m0, ws, ok).dom().contains(
                k,
            ) == m0.dom().contains(k) && (m0.dom().contains(k) ==> apply_writes_masked(
                m0,
                ws,
                ok,
            )[k] == m0[k])),
    decreases ws.len(),
{
    if ws.len() > 0 {
        let m1 = m0.insert(ws[0].0, ws[0].1);
        let tw = ws.skip(1);
        let to = ok.skip(1);
        assert(ok[0]);
        assert(apply_writes_masked(m0, ws, ok) == apply_writes_masked(m1, tw, to));
        assert(forall|x: int| 0 <= x < tw.len() ==> tw[x] == ws[x + 1]);
        assert forall|i: int, j: int| 0 <= i < j < tw.len() implies (#[trigger] tw[i]).0 != (
        #[trigger] tw[j]).0 by {
            assert(tw[i] == ws[i + 1]);
            assert(tw[j] == ws[j + 1]);
        }
        lemma_apply_all_accepted(m1, tw, to);
        let m = apply_writes_masked(m1, tw, to);
        assert forall|i: int| 0 <= i < ws.len() implies m.dom().contains((#[trigger] ws[i]).0)
            && m[ws[i].0] == ws[i].1 by {
            if i == 0 {
                assert(!writes_has_key(tw, ws[0].0)) by {
                    if writes_has_key(tw, ws[0].0) {
                        let x = choose|x: int| 0 <= x < tw.len() && (#[trigger] tw[x]).0 == ws[
                            0].0;
                        assert(ws[x + 1].0 == ws[0].0);
                    }
                }
                assert(m1.dom().contains(ws[0].0) && m1[ws[0].0] == ws[0].1);
            } else {
                assert(tw[i - 1] == ws[i]);
            }
        }
        assert forall|k: Seq<char>| !writes_has_key(ws, k) implies (
        #[trigger] m.dom().contains(k) == m0.dom().contains(k) && (m0.dom().contains(k)
            ==> m[k] == m0[k])) by {
            assert(ws[0].0 != k);
            assert(!writes_has_key(tw, k)) by {
                if writes_has_key(tw, k) {
                    let x = choose|x: int| 0 <= x < tw.len() && (#[trigger] tw[x]).0 == k;
                    assert(ws[x + 1].0 == k);
                }
            }
            assert(m1.dom().contains(k) == m0.dom().contains(k));
        }
    }
}

/// Round trip at the store: restoring a captured snapshot, with every write
/// accepted, stores every captured plain key verbatim, the marker in its
/// canonical form when its value was valid JSON, and touches no key the plan
/// does not name.
pub proof fn lemma_round_trip_restores_store(
    d: Seq<(Seq<char>, FieldV)>,
    store: Map<Seq<char>, Seq<char>>,
    cfg: CaptureConfigV,
    email: Seq<char>,
    t: Seq<char>,
    m0: Map<Seq<char>, Seq<char>>,
    ok: Seq<bool>,
)
    requires
        capture_characterizes(d, store, cfg, email, t),
        ok.len() == spec_plan_writes(d).len(),
        forall|i: int| 0 <= i < ok.len() ==> ok[i],
    ensures
        forall|k: Seq<char>|
            !is_reserved_name(k) && k != cfg.marker_key && store.dom().contains(k)
                && (cfg.well_known.contains(k) || has_prefix(k, cfg.notification_prefix)) ==> {
                let m = #[trigger] apply_writes_masked(m0, spec_plan_writes(d), ok).index(k);
                m == store[k] && apply_writes_masked(m0, spec_plan_writes(d), ok).dom().contains(
                    k,
                )
            },
        (!is_reserved_name(cfg.marker_key) && store.dom().contains(cfg.marker_key) && json_canon(
            store[cfg.marker_key],
        ) is Some) ==> apply_writes_masked(m0, spec_plan_writes(d), ok).dom().contains(
            cfg.marker_key,
        ) && apply_writes_masked(m0, spec_plan_writes(d), ok)[cfg.marker_key] == json_canon(
            store[cfg.marker_key],
        )->Some_0,
        forall|k: Seq<char>|
            !writes_has_key(spec_plan_writes(d), k) ==> (#[trigger] apply_writes_masked(
                m0,
                spec_plan_writes(d),
                ok,
            ).dom().contains(k) == m0.dom().contains(k) && (m0.dom().contains(k)
                ==> apply_writes_masked(m0, spec_plan_writes(d), ok)[k] == m0[k])),
{
    let ws = spec_plan_writes(d);
    lemma_wf_distinct(d);
    lemma_capture_restore_round_trip(d, store, cfg, email, t);
    // the plan's keys are pairwise distinct
    let pred = |p: (Seq<char>, FieldV)| is_writable_field(p);
    lemma_filter_distinct_keys(d, pred);
    let fs = d.filter(pred);
    assert forall|i: int, j: int| 0 <= i < j < ws.len() implies (#[trigger] ws[i]).0 != (
    #[trigger] ws[j]).0 by {
        assert(ws[i].0 == fs[i].0);
        assert(ws[j].0 == fs[j].0);
    }
    lemma_apply_all_accepted(m0, ws, ok);
    assert forall|k: Seq<char>|
        !is_reserved_name(k) && k != cfg.marker_key && store.dom().contains(k)
            && (cfg.well_known.contains(k) || has_prefix(k, cfg.notification_prefix)) implies {
        let m = #[trigger] apply_writes_masked(m0, ws, ok).index(k);
        m == store[k] && apply_writes_masked(m0, ws, ok).dom().contains(k)
    } by {
        assert(plan_has_write(ws, k, store[k]));
        let i = choose|i: int| 0 <= i < ws.len() && ws[i] == (k, store[k]);
        assert(ws[i].0 == k);
    }
    if !is_reserved_name(cfg.marker_key) && store.dom().contains(cfg.marker_key) && json_canon(
        store[cfg.marker_key],
    ) is Some {
        let c = json_canon(store[cfg.marker_key])->Some_0;
        assert(plan_has_write(ws, cfg.marker_key, c));
        let i = choose|i: int| 0 <= i < ws.len() && ws[i] == (cfg.marker_key, c);
        assert(ws[i].0 == cfg.marker_key);
    }
}

/// Best-effort restore: a document whose only malformed field is at `i`
/// plans exactly one skipped key — that field's — and still plans a write
/// for every other non-reserved field.
pub proof fn lemma_best_effort_plan(d: Seq<(Seq<char>, FieldV)>, i: int)
    requires
        doc_keys_distinct(d),
        0 <= i < d.len(),
        is_malformed_field(d[i]),
        forall|j: int| 0 <= j < d.len() && j != i ==> !is_malformed_field(#[trigger] d[j]),
    ensures
        spec_plan_skipped(d).len() == 1,
        spec_plan_skipped(d)[0] == d[i].0,
        forall|j: int|
            0 <= j < d.len() && j != i && !is_reserved_name((#[trigger] d[j]).0)
                ==> plan_has_write(spec_plan_writes(d), d[j].0, wire_of(d[j].1)->Some_0),
{
    let sk = spec_plan_skipped(d);
    lemma_skipped_complete(d, i);
    assert(sk.contains(d[i].0));
    assert(sk.len() >= 1);
    assert forall|x: int| 0 <= x < sk.len() implies #[trigger] sk[x] == d[i].0 by {
        lemma_skipped_sound(d, x);
        let j = choose|j: int|
            0 <= j < d.len() && (#[trigger] d[j]).0 == sk[x] && is_malformed_field(d[j]);
        assert(j == i);
    }
    if sk.len() >= 2 {
        let pred = |p: (Seq<char>, FieldV)| is_malformed_field(p);
        lemma_filter_distinct_keys(d, pred);
        let fs = d.filter(pred);
        assert(sk[0] == fs[0].0);
        assert(sk[1] == fs[1].0);
        assert(fs[0].0 != fs[1].0);
        assert(false);
    }
    let x0 = choose|x: int| 0 <= x < sk.len() && sk[x] == d[i].0;
    assert(x0 == 0);
    assert forall|j: int|
        0 <= j < d.len() && j != i && !is_reserved_name((#[trigger] d[j]).0) implies
        plan_has_write(spec_plan_writes(d), d[j].0, wire_of(d[j].1)->Some_0) by {
        assert(!is_malformed_field(d[j]));
        assert(is_writable_field(d[j]));
        lemma_plan_complete(d, j);
    }
}

/// Restore a parsed snapshot document into the store.
///
/// Every non-reserved field is written back in wire form; fields without a
/// wire form, and writes the store refuses, are counted as skipped.  The
/// result is an error exactly when the document held data fields and not one
/// was written.
pub fn restore_document(conn: &mut rusqlite::Connection, doc: &Document) -> (r: Result<
    RestoreSummary,
    AgentError,
>)
    ensures
        match r {
            Ok(s) => {
                &&& s.written + (s.skipped - spec_plan_skipped(doc@).len()) == spec_plan_writes(
                    doc@,
                ).len()
                &&& s.skipped >= spec_plan_skipped(doc@).len()
                &&& s.written > 0 || spec_plan_writes(doc@).len() + spec_plan_skipped(doc@).len()
                    == 0
                &&& exists|ok: Seq<bool>|
                    {
                        &&& ok.len() == spec_plan_writes(doc@).len()
                        &&& store_map(*final(conn)) == apply_writes_masked(
                            store_map(*old(conn)),
                            spec_plan_writes(doc@),
                            ok,
                        )
                        &&& s.written == count_true(ok)
                    }
            },
            Err(e) => {
                &&& e matches AgentError::PartialRestore { written: 0, skipped }
                &&& spec_plan_writes(doc@).len() + spec_plan_skipped(doc@).len() > 0
                &&& store_map(*final(conn)) == store_map(*old(conn))
            },
        },
{
    let total = doc.len();
    let plan = restore_plan(doc);
    let (written, failed) = apply_restore(conn, &plan);
    proof {
        assert(plan.writes@.len() == pairs_view(plan.writes@).len());
        assert(plan.skipped@.len() == plan.skipped.deep_view().len());
        lemma_plan_sizes(doc@);
        assert(plan.writes@.len() + plan.skipped@.len() <= total);
    }
    let n_skipped_fields = plan.skipped.len();
    if written == 0 && (plan.writes.len() > 0 || n_skipped_fields > 0) {
        proof {
            let ok = choose|ok: Seq<bool>|
                {
                    &&& ok.len() == plan.writes@.len()
                    &&& store_map(*conn) == apply_writes_masked(
                        store_map(*old(conn)),
                        pairs_view(plan.writes@),
                        ok,
                    )
                    &&& written == count_true(ok)
                };
            lemma_apply_none_accepted(store_map(*old(conn)), pairs_view(plan.writes@), ok);
        }
        return Err(AgentError::PartialRestore { written: 0, skipped: n_skipped_fields + failed });
    }
    Ok(RestoreSummary { written, skipped: n_skipped_fields + failed })
}

/// Restore a snapshot from its serialized text: parse the document, then
/// write it back.  Text that does not denote a document is a corrupt
/// snapshot.
pub fn restore_from_text(conn: &mut rusqlite::Connection, text: &str) -> (r: Result<
    RestoreSummary,
    AgentError,
>)
    ensures
        r matches Err(e) && e matches AgentError::CorruptSnapshot <==> flat_parse(text@) is None,
        match flat_parse(text@) {
            Some(d) => match r {
                Ok(s) => {
                    &&& s.written > 0 || spec_plan_writes(d).len() + spec_plan_skipped(d).len()
                        == 0
                    &&& exists|ok: Seq<bool>|
                        {
                            &&& ok.len() == spec_plan_writes(d).len()
                            &&& store_map(*final(conn)) == apply_writes_masked(
                                store_map(*old(conn)),
                                spec_plan_writes(d),
                                ok,
                            )
                            &&& s.written == count_true(ok)
                        }
                },
                Err(e) => e matches AgentError::PartialRestore { written: 0, skipped }
                    && store_map(*final(conn)) == store_map(*old(conn)),
            },
            None => store_map(*final(conn)) == store_map(*old(conn)),
        },
{
    match parse_document_text(text) {
        Some(d) => {
            let r = restore_document(conn, &d);
            proof {
                if r is Err {
                    assert(!(r->Err_0 matches AgentError::CorruptSnapshot));
                }
            }
            r
        },
        None => Err(AgentError::CorruptSnapshot),
    }
}

} // verus!
