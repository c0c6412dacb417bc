//! The snapshot engine: capturing one account's configuration-store entries
//! into a snapshot document.
//!
//! A capture reads the configured well-known keys, every key matching the
//! notification prefix (recording the matched key names under a reserved
//! field), the marker key kept in canonical structured form when its value is
//! valid JSON, and the account/timestamp metadata.  The resulting document is
//! characterised exactly, field by field, over the store's contents.

use vstd::prelude::*;
use vstd::string::StringExecFns;
use crate::doc::{
    doc_has_key, doc_lookup, doc_wf, lemma_doc_determined, lemma_sorted_keys_determined,
    strictly_sorted, Document, FieldV, FieldValue,
};
use crate::errors::AgentError;
use crate::store::{store_get, store_keys, store_map};
use crate::text::{has_prefix, lex_lt, str_eq, str_has_prefix};
use crate::wire::{canonical_json, json_canon};

verus! {

/// Which keys a capture extracts: the well-known list, the notification
/// prefix, and the marker key kept in structured form.
pub struct CaptureConfig {
    pub well_known_keys: Vec<String>,
    pub notification_prefix: String,
    pub marker_key: String,
}

/// The mathematical shape of a capture configuration.
pub struct CaptureConfigV {
    pub well_known: Seq<Seq<char>>,
    pub notification_prefix: Seq<char>,
    pub marker_key: Seq<char>,
}

impl View for CaptureConfig {
    type V = CaptureConfigV;

    open spec fn view(&self) -> CaptureConfigV {
        CaptureConfigV {
            well_known: self.well_known_keys.deep_view(),
            notification_prefix: self.notification_prefix@,
            marker_key: self.marker_key@,
        }
    }
}

impl CaptureConfig {
    /// A configuration from explicit parts.
    pub fn new(
        well_known_keys: Vec<String>,
        notification_prefix: String,
        marker_key: String,
    ) -> (r: CaptureConfig)
        ensures
            r@.well_known == well_known_keys.deep_view(),
            r@.notification_prefix == notification_prefix@,
            r@.marker_key == marker_key@,
    {
        CaptureConfig { well_known_keys, notification_prefix, marker_key }
    }
}

/// The capture configuration for the target application: the storage markers
/// as well-known keys, its notification-key prefix, and the storage marker as
/// the structured reference object.
pub fn antigravity_capture_config() -> (r: CaptureConfig)
    ensures
        r@.well_known == seq!["__$__targetStorageMarker"@, "__$__isNewStorageMarker"@],
        r@.notification_prefix == "antigravity.notification."@,
        r@.marker_key == "__$__targetStorageMarker"@,
{
    let mut wk: Vec<String> = Vec::new();
    wk.push(String::from_str("__$__targetStorageMarker"));
    wk.push(String::from_str("__$__isNewStorageMarker"));
    proof {
        assert(wk.deep_view() =~= seq!["__$__targetStorageMarker"@, "__$__isNewStorageMarker"@]);
    }
    CaptureConfig::new(
        wk,
        String::from_str("antigravity.notification."),
        String::from_str("__$__targetStorageMarker"),
    )
}

/// Field names that carry capture bookkeeping rather than store data; store
/// keys with these names are never captured under their own name.
pub open spec fn is_reserved_name(k: Seq<char>) -> bool {
    k == "account_email"@ || k == "backup_time"@ || k == "notification_keys"@
}

/// Executable test for the reserved field names.
pub fn is_reserved_key(k: &str) -> (r: bool)
    ensures
        r == is_reserved_name(k@),
{
    str_eq(k, "account_email") || str_eq(k, "backup_time") || str_eq(k, "notification_keys")
}

/// The three reserved names are pairwise distinct (their lengths differ).
pub proof fn lemma_reserved_names_distinct()
    ensures
        "account_email"@ != "backup_time"@,
        "account_email"@ != "notification_keys"@,
        "backup_time"@ != "notification_keys"@,
{
    reveal_strlit("account_email");
    reveal_strlit("backup_time");
    reveal_strlit("notification_keys");
    assert("account_email"@.len() == 13);
    assert("backup_time"@.len() == 11);
    assert("notification_keys"@.len() == 17);
}

/// Whether a non-reserved, non-marker key is captured, and as what: present
/// store keys that are well-known or match the notification prefix are kept
/// verbatim as text.
pub open spec fn plain_capture_field(
    store: Map<Seq<char>, Seq<char>>,
    cfg: CaptureConfigV,
    k: Seq<char>,
) -> Option<FieldV> {
    if store.dom().contains(k) && (cfg.well_known.contains(k) || has_prefix(
        k,
        cfg.notification_prefix,
    )) {
        Some(FieldV::Text(store[k]))
    } else {
        None
    }
}

/// What the marker key's field holds: its canonical structured form when its
/// stored value is valid JSON, otherwise whatever a plain capture would keep.
pub open spec fn marker_capture_field(
    store: Map<Seq<char>, Seq<char>>,
    cfg: CaptureConfigV,
) -> Option<FieldV> {
    if store.dom().contains(cfg.marker_key) {
        match json_canon(store[cfg.marker_key]) {
            Some(c) => Some(FieldV::Structured(c)),
            None => plain_capture_field(store, cfg, cfg.marker_key),
        }
    } else {
        None
    }
}

/// A store key whose name the captured notification-key list records.
pub open spec fn is_notification_data_key(
    store: Map<Seq<char>, Seq<char>>,
    cfg: CaptureConfigV,
    k: Seq<char>,
) -> bool {
    store.dom().contains(k) && has_prefix(k, cfg.notification_prefix) && !is_reserved_name(k)
        && k != cfg.marker_key
}

/// The captured notification-key list: sorted, and holding exactly the
/// notification data keys.
pub open spec fn notification_list_ok(
    ks: Seq<Seq<char>>,
    store: Map<Seq<char>, Seq<char>>,
    cfg: CaptureConfigV,
) -> bool {
    &&& strictly_sorted(ks)
    &&& forall|k: Seq<char>| #[trigger] ks.contains(k) <==> is_notification_data_key(store, cfg, k)
}

/// The exact, field-by-field characterisation of a captured snapshot
/// document for the given store contents, configuration, account and
/// timestamp.
pub open spec fn capture_characterizes(
    d: Seq<(Seq<char>, FieldV)>,
    store: Map<Seq<char>, Seq<char>>,
    cfg: CaptureConfigV,
    email: Seq<char>,
    time: Seq<char>,
) -> bool {
    &&& doc_wf(d)
    &&& forall|k: Seq<char>|
        !is_reserved_name(k) && k != cfg.marker_key ==> #[trigger] doc_lookup(d, k)
            == plain_capture_field(store, cfg, k)
    &&& (!is_reserved_name(cfg.marker_key) ==> doc_lookup(d, cfg.marker_key)
        == marker_capture_field(store, cfg))
    &&& doc_lookup(d, "account_email"@) == Some(FieldV::Text(email))
    &&& doc_lookup(d, "backup_time"@) == Some(FieldV::Text(time))
    &&& match doc_lookup(d, "notification_keys"@) {
        Some(v) => v matches FieldV::KeyList(ks) && notification_list_ok(ks, store, cfg)
            && ks.len() > 0,
        None => forall|k: Seq<char>| !#[trigger] is_notification_data_key(store, cfg, k),
    }
}

/// Does the well-known list contain `k`?
fn well_known_contains(cfg: &CaptureConfig, k: &str) -> (r: bool)
    ensures
        r == cfg@.well_known.contains(k@),
{
    let n = cfg.well_known_keys.len();
    let mut i: usize = 0;
    while i < n
        invariant
            n == cfg.well_known_keys@.len(),
            0 <= i <= n,
            forall|j: int| 0 <= j < i ==> cfg@.well_known[j] != k@,
        decreases n - i,
    {
        if str_eq(cfg.well_known_keys[i].as_str(), k) {
            assert(cfg@.well_known[i as int] == k@);
            return true;
        }
        i += 1;
    }
    false
}

/// Capture progress over the well-known list: what the document holds after
/// the first `seen` well-known keys were extracted.
spec fn wk_partial_field(
    store: Map<Seq<char>, Seq<char>>,
    seen: Seq<Seq<char>>,
    k: Seq<char>,
) -> Option<FieldV> {
    if store.dom().contains(k) && seen.contains(k) {
        Some(FieldV::Text(store[k]))
    } else {
        None
    }
}

/// Capture progress over the store's key list: what the document holds after
/// all well-known keys and the notification keys among `seen` were extracted.
spec fn notif_partial_field(
    store: Map<Seq<char>, Seq<char>>,
    cfg: CaptureConfigV,
    seen: Seq<Seq<char>>,
    k: Seq<char>,
) -> Option<FieldV> {
    if store.dom().contains(k) && (cfg.well_known.contains(k) || (has_prefix(
        k,
        cfg.notification_prefix,
    ) && seen.contains(k))) {
        Some(FieldV::Text(store[k]))
    } else {
        None
    }
}

/// Build the snapshot document for `account_email` from the store behind
/// `conn`, using the supplied timestamp.
///
/// On success the document is characterised exactly by
/// [`capture_characterizes`]; the call fails only when the store's key list
/// cannot be read.
#[verifier::rlimit(30)]
pub fn capture_snapshot(
    conn: &rusqlite::Connection,
    cfg: &CaptureConfig,
    account_email: &str,
    timestamp: &str,
) -> (r: Result<Document, AgentError>)
    ensures
        match r {
            Ok(d) => capture_characterizes(
                d@,
                store_map(*conn),
                cfg@,
                account_email@,
                timestamp@,
            ),
            Err(e) => e matches AgentError::StoreAccessDenied(_),
        },
{
    let ghost store = store_map(*conn);
    let ghost cfgv = cfg@;
    proof {
        lemma_reserved_names_distinct();
    }

    let mut d = Document::new();

    // 1. well-known keys, kept verbatim as text
    let nwk = cfg.well_known_keys.len();
    let mut i: usize = 0;
    while i < nwk
        invariant
            store == store_map(*conn),
            cfgv == cfg@,
            nwk == cfg.well_known_keys@.len(),
            0 <= i <= nwk,
            doc_wf(d@),
            forall|k: Seq<char>|
                !is_reserved_name(k) && k != cfgv.marker_key ==> #[trigger] doc_lookup(d@, k)
                    == wk_partial_field(store, cfgv.well_known.take(i as int), k),
            doc_lookup(d@, cfgv.marker_key) is None,
            doc_lookup(d@, "account_email"@) is None,
            doc_lookup(d@, "backup_time"@) is None,
            doc_lookup(d@, "notification_keys"@) is None,
        decreases nwk - i,
    {
        let ghost dpre = d@;
        let ghost seen = cfgv.well_known.take(i as int);
        let ghost seen1 = cfgv.well_known.take(i + 1 as int);
        proof {
            assert(seen1 =~= seen.push(cfgv.well_known[i as int]));
        }
        let key_ref = &cfg.well_known_keys[i];
        assert(key_ref@ == cfgv.well_known[i as int]);
        if !is_reserved_key(key_ref.as_str()) && !str_eq(
            key_ref.as_str(),
            cfg.marker_key.as_str(),
        ) {
            match store_get(conn, key_ref.as_str()) {
                Some(v) => {
                    let key = key_ref.clone();
                    d.insert(key, FieldValue::Text(v));
                },
                None => {},
            }
        }
        proof {
            assert forall|k: Seq<char>| !is_reserved_name(k) && k != cfgv.marker_key implies
                #[trigger] doc_lookup(d@, k) == wk_partial_field(store, seen1, k) by {
                let kw = cfgv.well_known[i as int];
                if k == kw {
                    assert(seen1[i as int] == kw);
                    assert(seen1.contains(kw));
                } else {
                    assert(seen1.contains(k) == seen.contains(k)) by {
                        if seen1.contains(k) {
                            let x = choose|x: int| 0 <= x < seen1.len() && seen1[x] == k;
                            assert(seen[x] == k);
                        }
                        if seen.contains(k) {
                            let x = choose|x: int| 0 <= x < seen.len() && seen[x] == k;
                            assert(seen1[x] == k);
                        }
                    }
                    assert(doc_lookup(d@, k) == doc_lookup(dpre, k));
                }
            }
        }
        i += 1;
    }
    proof {
        assert(cfgv.well_known.take(nwk as int) =~= cfgv.well_known);
    }

    // 2. notification keys: values into the document, names into a side list
    let all = match store_keys(conn) {
        Ok(v) => v,
        Err(e) => {
            return Err(e);
        },
    };
    let ghost kv = all.deep_view();
    let mut kd = Document::new();
    let nall = all.len();
    let mut j: usize = 0;
    while j < nall
        invariant
            store == store_map(*conn),
            cfgv == cfg@,
            nall == all@.len(),
            kv == all.deep_view(),
            forall|x: int| 0 <= x < kv.len() ==> store.dom().contains(#[trigger] kv[x]),
            0 <= j <= nall,
            doc_wf(d@),
            doc_wf(kd@),
            forall|k: Seq<char>|
                !is_reserved_name(k) && k != cfgv.marker_key ==> #[trigger] doc_lookup(d@, k)
                    == notif_partial_field(store, cfgv, kv.take(j as int), k),
            forall|k: Seq<char>|
                #[trigger] doc_has_key(kd@, k) <==> (is_notification_data_key(store, cfgv, k)
                    && kv.take(j as int).contains(k)),
            doc_lookup(d@, cfgv.marker_key) is None,
            doc_lookup(d@, "account_email"@) is None,
            doc_lookup(d@, "backup_time"@) is None,
            doc_lookup(d@, "notification_keys"@) is None,
        decreases nall - j,
    {
        let ghost dpre = d@;
        let ghost kdpre = kd@;
        let ghost seen = kv.take(j as int);
        let ghost seen1 = kv.take(j + 1 as int);
        proof {
            assert(seen1 =~= seen.push(kv[j as int]));
        }
        let key_ref = &all[j];
        assert(key_ref@ == kv[j as int]);
        if str_has_prefix(key_ref.as_str(), cfg.notification_prefix.as_str())
            && !is_reserved_key(key_ref.as_str()) && !str_eq(
            key_ref.as_str(),
            cfg.marker_key.as_str(),
        ) {
            match store_get(conn, key_ref.as_str()) {
                Some(v) => {
                    d.insert(key_ref.clone(), FieldValue::Text(v));
                    kd.insert(key_ref.clone(), FieldValue::Text(String::new()));
                },
                None => {
                    proof {
                        assert(store.dom().contains(kv[j as int]));
                        assert(false);
                    }
                },
            }
        }
        proof {
            let kw = kv[j as int];
            assert forall|k: Seq<char>| seen1.contains(k) == (seen.contains(k) || k == kw) by {
                if seen1.contains(k) && k != kw {
                    let x = choose|x: int| 0 <= x < seen1.len() && seen1[x] == k;
                    assert(seen[x] == k);
                }
                if seen.contains(k) {
                    let x = choose|x: int| 0 <= x < seen.len() && seen[x] == k;
                    assert(seen1[x] == k);
                }
                if k == kw {
                    assert(seen1[j as int] == k);
                }
            }
            assert forall|k: Seq<char>| !is_reserved_name(k) && k != cfgv.marker_key implies
                #[trigger] doc_lookup(d@, k) == notif_partial_field(store, cfgv, seen1, k) by {
                if k != kw {
                    assert(doc_lookup(d@, k) == doc_lookup(dpre, k));
                }
            }
            assert forall|k: Seq<char>| #[trigger] doc_has_key(kd@, k) <==> (
            is_notification_data_key(store, cfgv, k) && seen1.contains(k)) by {
                if doc_has_key(kd@, k) {
                    let x = choose|x: int| 0 <= x < kd@.len() && kd@[x].0 == k;
                    assert(doc_lookup(kd@, k) is Some);
                }
                if is_notification_data_key(store, cfgv, k) && seen1.contains(k) {
                    if k == kw && has_prefix(kw, cfgv.notification_prefix) && !is_reserved_name(kw)
                        && kw != cfgv.marker_key {
                        assert(doc_lookup(kd@, k) is Some);
                    } else {
                        assert(doc_has_key(kdpre, k));
                        assert(doc_lookup(kdpre, k) is Some);
                        assert(doc_lookup(kd@, k) == doc_lookup(kdpre, k));
                    }
                }
                if doc_has_key(kd@, k) && !doc_has_key(kdpre, k) {
                    assert(doc_lookup(kdpre, k) is None);
                }
            }
        }
        j += 1;
    }
    proof {
        assert(kv.take(nall as int) =~= kv);
        // every stored key was seen, so the partial characterisation closes
        assert forall|k: Seq<char>| !is_reserved_name(k) && k != cfgv.marker_key implies
            #[trigger] doc_lookup(d@, k) == plain_capture_field(store, cfgv, k) by {
            if store.dom().contains(k) {
                assert(kv.contains(k));
            }
        }
    }

    // 3. the captured notification-key names, as a reserved list field
    let m = kd.len();
    if m > 0 {
        let mut ks: Vec<String> = Vec::new();
        let mut t: usize = 0;
        while t < m
            invariant
                m == kd@.len(),
                0 <= t <= m,
                ks@.len() == t,
                forall|x: int| 0 <= x < t ==> (#[trigger] ks@[x])@ == kd@[x].0,
            decreases m - t,
        {
            let f = kd.field_at(t);
            let name = f.0.clone();
            ks.push(name);
            t += 1;
        }
        let ghost ksv = ks.deep_view();
        proof {
            assert(ksv.len() == ks@.len());
            assert forall|x: int| 0 <= x < ksv.len() implies #[trigger] ksv[x] == kd@[x].0 by {
                assert(ksv[x] == ks@[x]@);
            }
            assert forall|k: Seq<char>| #[trigger] ksv.contains(k) <==> is_notification_data_key(
                store,
                cfgv,
                k,
            ) by {
                if ksv.contains(k) {
                    let x = choose|x: int| 0 <= x < ksv.len() && ksv[x] == k;
                    assert(kd@[x].0 == k);
                    assert(doc_has_key(kd@, k));
                }
                if is_notification_data_key(store, cfgv, k) {
                    assert(kv.contains(k));
                    assert(doc_has_key(kd@, k));
                    let x = choose|x: int| 0 <= x < kd@.len() && kd@[x].0 == k;
                    assert(ksv[x] == k);
                }
            }
            assert(strictly_sorted(ksv)) by {
                assert forall|a: int, b: int| 0 <= a < b < ksv.len() implies lex_lt(
                    #[trigger] ksv[a],
                    #[trigger] ksv[b],
                ) by {
                    assert(ksv[a] == kd@[a].0);
                    assert(ksv[b] == kd@[b].0);
                }
            }
            assert(ksv.len() > 0);
            assert(ksv.contains(ksv[0]));
        }
        let ghost dpre = d@;
        d.insert(String::from_str("notification_keys"), FieldValue::KeyList(ks));
        proof {
            if !is_reserved_name(cfgv.marker_key) {
                assert(cfgv.marker_key != "notification_keys"@);
                assert(doc_lookup(d@, cfgv.marker_key) == doc_lookup(dpre, cfgv.marker_key));
            }
        }
    } else {
        proof {
            assert forall|k: Seq<char>| !#[trigger] is_notification_data_key(store, cfgv, k) by {
                if is_notification_data_key(store, cfgv, k) {
                    assert(kv.contains(k));
                    assert(doc_has_key(kd@, k));
                }
            }
        }
    }

    // 4. the marker, kept structured when its value is valid JSON
    if !is_reserved_key(cfg.marker_key.as_str()) {
        match store_get(conn, cfg.marker_key.as_str()) {
            Some(mv) => {
                match canonical_json(mv.as_str()) {
                    Some(c) => {
                        d.insert(cfg.marker_key.clone(), FieldValue::Structured(c));
                    },
                    None => {
                        if well_known_contains(cfg, cfg.marker_key.as_str()) || str_has_prefix(
                            cfg.marker_key.as_str(),
                            cfg.notification_prefix.as_str(),
                        ) {
                            d.insert(cfg.marker_key.clone(), FieldValue::Text(mv));
                        }
                    },
                }
            },
            None => {},
        }
    }

    // 5. metadata
    let ghost dmark = d@;
    d.insert(String::from_str("account_email"), FieldValue::Text(String::from_str(account_email)));
    d.insert(String::from_str("backup_time"), FieldValue::Text(String::from_str(timestamp)));

    proof {
        assert(capture_characterizes(d@, store, cfgv, account_email@, timestamp@)) by {
            assert(doc_lookup(d@, "notification_keys"@) == doc_lookup(
                dmark,
                "notification_keys"@,
            ));
            if !is_reserved_name(cfgv.marker_key) {
                assert(doc_lookup(d@, cfgv.marker_key) == doc_lookup(dmark, cfgv.marker_key));
            }
        }
    }
    Ok(d)
}

/// Capturing is deterministic up to the timestamp: two snapshots of the same
/// store, configuration and account agree on every field but `backup_time`,
/// and with equal timestamps they are the same document.
pub proof fn lemma_capture_deterministic(
    d1: Seq<(Seq<char>, FieldV)>,
    d2: Seq<(Seq<char>, FieldV)>,
    store: Map<Seq<char>, Seq<char>>,
    cfg: CaptureConfigV,
    email: Seq<char>,
    t1: Seq<char>,
    t2: Seq<char>,
)
    requires
        capture_characterizes(d1, store, cfg, email, t1),
        capture_characterizes(d2, store, cfg, email, t2),
    ensures
        forall|k: Seq<char>|
            k != "backup_time"@ ==> #[trigger] doc_lookup(d1, k) == doc_lookup(d2, k),
        t1 == t2 ==> d1 == d2,
{
    lemma_reserved_names_distinct();
    assert forall|k: Seq<char>| k != "backup_time"@ implies #[trigger] doc_lookup(d1, k)
        == doc_lookup(d2, k) by {
        if k == "account_email"@ {
        } else if k == "notification_keys"@ {
            match doc_lookup(d1, k) {
                Some(v1) => {
                    match doc_lookup(d2, k) {
                        Some(v2) => {
                            if let FieldV::KeyList(ks1) = v1 {
                                if let FieldV::KeyList(ks2) = v2 {
                                    assert forall|kk: Seq<char>| #[trigger] ks1.contains(kk)
                                        <==> ks2.contains(kk) by {
                                        assert(ks1.contains(kk) <==> is_notification_data_key(
                                            store,
                                            cfg,
                                            kk,
                                        ));
                                        assert(ks2.contains(kk) <==> is_notification_data_key(
                                            store,
                                            cfg,
                                            kk,
                                        ));
                                    }
                                    lemma_sorted_keys_determined(ks1, ks2);
                                }
                            }
                        },
                        None => {
                            if let FieldV::KeyList(ks1) = v1 {
                                assert(ks1.contains(ks1[0]));
                                assert(is_notification_data_key(store, cfg, ks1[0]));
                                assert(false);
                            }
                        },
                    }
                },
                None => {
                    match doc_lookup(d2, k) {
                        Some(v2) => {
                            if let FieldV::KeyList(ks2) = v2 {
                                assert(ks2.contains(ks2[0]));
                                assert(is_notification_data_key(store, cfg, ks2[0]));
                                assert(false);
                            }
                        },
                        None => {},
                    }
                },
            }
        } else if k == cfg.marker_key {
            assert(!is_reserved_name(cfg.marker_key));
        } else {
            assert(doc_lookup(d1, k) == plain_capture_field(store, cfg, k));
            assert(doc_lookup(d2, k) == plain_capture_field(store, cfg, k));
        }
    }
    if t1 == t2 {
        assert forall|k: Seq<char>| #[trigger] doc_lookup(d1, k) == doc_lookup(d2, k) by {
            if k == "backup_time"@ {
            } else {
                assert(doc_lookup(d1, k) == doc_lookup(d2, k));
            }
        }
        lemma_doc_determined(d1, d2);
    }
}

/// A well-known key is captured exactly when the store holds it, verbatim;
/// absent keys leave no field behind.
pub proof fn lemma_capture_well_known(
    d: Seq<(Seq<char>, FieldV)>,
    store: Map<Seq<char>, Seq<char>>,
    cfg: CaptureConfigV,
    email: Seq<char>,
    t: Seq<char>,
    k: Seq<char>,
)
    requires
        capture_characterizes(d, store, cfg, email, t),
        cfg.well_known.contains(k),
        !is_reserved_name(k),
        k != cfg.marker_key,
    ensures
        store.dom().contains(k) ==> doc_lookup(d, k) == Some(FieldV::Text(store[k])),
        !store.dom().contains(k) ==> doc_lookup(d, k) is None,
{
    assert(doc_lookup(d, k) == plain_capture_field(store, cfg, k));
}

/// When the marker key's stored value is valid JSON, the snapshot keeps it in
/// structured canonical form, not as a quoted string.
pub proof fn lemma_capture_marker_structured(
    d: Seq<(Seq<char>, FieldV)>,
    store: Map<Seq<char>, Seq<char>>,
    cfg: CaptureConfigV,
    email: Seq<char>,
    t: Seq<char>,
)
    requires
        capture_characterizes(d, store, cfg, email, t),
        !is_reserved_name(cfg.marker_key),
        store.dom().contains(cfg.marker_key),
        json_canon(store[cfg.marker_key]) is Some,
    ensures
        doc_lookup(d, cfg.marker_key) == Some(
            FieldV::Structured(json_canon(store[cfg.marker_key])->Some_0),
        ),
{
}

/// Relies on `chrono::Local::now().to_rfc3339()`; the result depends on the
/// clock, so nothing is assumed of it.
#[verifier::external_body]
fn now_rfc3339() -> (r: String) {
    chrono::Local::now().to_rfc3339()
}

/// Capture a snapshot stamped with the current local time.
///
/// The document is characterised exactly for some timestamp; which timestamp
/// depends on the clock.
pub fn capture_account_snapshot(
    conn: &rusqlite::Connection,
    cfg: &CaptureConfig,
    account_email: &str,
) -> (r: Result<Document, AgentError>)
    ensures
        match r {
            Ok(d) => exists|t: Seq<char>|
                capture_characterizes(d@, store_map(*conn), cfg@, account_email@, t),
            Err(e) => e matches AgentError::StoreAccessDenied(_),
        },
{
    let now = now_rfc3339();
    let r = capture_snapshot(conn, cfg, account_email, now.as_str());
    proof {
        if r is Ok {
            let d = r->Ok_0;
            assert(capture_characterizes(d@, store_map(*conn), cfg@, account_email@, now@));
        }
    }
    r
}

} // verus!
