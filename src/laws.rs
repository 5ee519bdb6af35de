use vstd::prelude::*;

use crate::db_store::{access_count, keys_of, KeyView, StoreView};
use crate::types::{MetaType, MetaView};

verus! {

/// Inserting a code that no active row holds keeps the store well formed.
pub proof fn lemma_inserted_wf(v: StoreView, code: Seq<char>, url: Seq<char>, meta: MetaView, now: u64)
    requires
        v.wf(),
    ensures
        v.inserted(code, url, meta, now).wf(),
{
    let w = v.inserted(code, url, meta, now);
    if !v.conflicts(code) {
        let id = v.mappings.len() as int;
        assert forall|i: int, j: int|
            #![trigger w.mappings[i], w.mappings[j]]
            0 <= i < w.mappings.len() && 0 <= j < w.mappings.len() && w.mappings[i].active
                && w.mappings[j].active && w.mappings[i].short_code == w.mappings[j].short_code implies i
            == j by {
            if i == id && j != id {
                assert(v.is_active_at(j, code));
            }
            if j == id && i != id {
                assert(v.is_active_at(i, code));
            }
        }
    }
}

/// In a well-formed store the active row of a code is the only one.
pub proof fn lemma_active_index_unique(v: StoreView, code: Seq<char>, i: int)
    requires
        v.wf(),
        v.is_active_at(i, code),
    ensures
        v.has_active(code),
        v.active_index(code) == i,
        v.resolve(code) == Some(v.mappings[i].long_url),
{
    let k = v.active_index(code);
    assert(v.is_active_at(k, code));
    assert(v.mappings[k].short_code == v.mappings[i].short_code);
}

/// A code that no active row holds can be inserted, and then resolves to the
/// inserted URL through an active row.
pub proof fn law_insert_then_resolve(v: StoreView, code: Seq<char>, url: Seq<char>, meta: MetaView, now: u64)
    requires
        v.wf(),
        !v.conflicts(code),
    ensures
        v.inserted(code, url, meta, now).mappings.len() == v.mappings.len() + 1,
        v.inserted(code, url, meta, now).resolve(code) == Some(url),
        v.inserted(code, url, meta, now).is_active_at(v.mappings.len() as int, code),
{
    let w = v.inserted(code, url, meta, now);
    lemma_inserted_wf(v, code, url, meta, now);
    lemma_active_index_unique(w, code, v.mappings.len() as int);
}

/// A second insert of a code refuses and changes nothing: the code still
/// resolves to the first URL.
pub proof fn law_duplicate_insert_conflicts(
    v: StoreView,
    code: Seq<char>,
    url1: Seq<char>,
    url2: Seq<char>,
    meta1: MetaView,
    meta2: MetaView,
    t1: u64,
    t2: u64,
)
    requires
        v.wf(),
        !v.conflicts(code),
    ensures
        v.inserted(code, url1, meta1, t1).conflicts(code),
        v.inserted(code, url1, meta1, t1).inserted(code, url2, meta2, t2) == v.inserted(
            code,
            url1,
            meta1,
            t1,
        ),
        v.inserted(code, url1, meta1, t1).inserted(code, url2, meta2, t2).resolve(code) == Some(url1),
{
    law_insert_then_resolve(v, code, url1, meta1, t1);
}

/// Removing a code deactivates its one row: the first removal after an
/// insert affects one row, a second affects none, and the code no longer
/// resolves.
pub proof fn law_remove_after_insert(v: StoreView, code: Seq<char>, url: Seq<char>, meta: MetaView, now: u64)
    requires
        v.wf(),
        !v.conflicts(code),
    ensures
        v.inserted(code, url, meta, now).removed_count(code) == 1,
        v.inserted(code, url, meta, now).removed(code).removed_count(code) == 0,
        v.inserted(code, url, meta, now).removed(code).removed(code) == v.inserted(code, url, meta, now).removed(
            code,
        ),
        v.inserted(code, url, meta, now).removed(code).resolve(code) is None,
{
    let w = v.inserted(code, url, meta, now);
    law_insert_then_resolve(v, code, url, meta, now);
    lemma_inserted_wf(v, code, url, meta, now);
    let x = w.removed(code);
    let k = w.active_index(code);
    assert(w.is_active_at(k, code));
    if x.has_active(code) {
        let j = choose|j: int| x.is_active_at(j, code);
        assert(j != k);
        assert(w.is_active_at(j, code));
        assert(w.mappings[j].short_code == w.mappings[k].short_code);
    }
}

/// Every lookup, hit or miss, appends exactly one access event for the code
/// looked up, so its access count rises by one and no other code's count moves.
pub proof fn law_resolve_counts_one_access(v: StoreView, code: Seq<char>, other: Seq<char>, meta: MetaView, now: u64)
    requires
        other != code,
    ensures
        v.resolved(code, meta, now).events.len() == v.events.len() + 1,
        v.resolved(code, meta, now).events.drop_last() == v.events,
        v.resolved(code, meta, now).events.last().meta_type == MetaType::Access,
        v.resolved(code, meta, now).events.last().short_code == code,
        access_count(v.resolved(code, meta, now).events, code) == access_count(v.events, code) + 1,
        access_count(v.resolved(code, meta, now).events, other) == access_count(v.events, other),
        v.resolved(code, meta, now).mappings == v.mappings,
{
    let w = v.resolved(code, meta, now);
    assert(w.events.drop_last() =~= v.events);
}

/// A fresh store has no key for any user; after a key is issued to a user,
/// that user has a key, the issued key checks, and no other string does.
pub proof fn law_api_key_issue(uid: i32, key: Seq<char>, other: Seq<char>)
    requires
        other != key,
    ensures
        !StoreView::empty().has_key(uid),
        !StoreView::empty().key_matches(uid, key),
        StoreView::empty().with_key(uid, key).has_key(uid),
        StoreView::empty().with_key(uid, key).key_matches(uid, key),
        !StoreView::empty().with_key(uid, key).key_matches(uid, other),
{
    let w = StoreView::empty().with_key(uid, key);
    assert(w.api_keys[0].uid == uid);
}

/// Issuing a key that the user does not hold yet keeps the store well formed.
pub proof fn lemma_with_key_wf(v: StoreView, uid: i32, key: Seq<char>)
    requires
        v.wf(),
        !v.key_matches(uid, key),
    ensures
        v.with_key(uid, key).wf(),
{
    let w = v.with_key(uid, key);
    let n = v.api_keys.len() as int;
    assert forall|i: int, j: int|
        #![trigger w.api_keys[i], w.api_keys[j]]
        0 <= i < w.api_keys.len() && 0 <= j < w.api_keys.len() && w.api_keys[i] == w.api_keys[j] implies i
        == j by {
        if i == n && j != n {
            assert(v.api_keys[j].uid == uid && v.api_keys[j].api_key == key);
        }
        if j == n && i != n {
            assert(v.api_keys[i].uid == uid && v.api_keys[i].api_key == key);
        }
    }
}

/// Two keys issued one after the other to a user, each new for that user,
/// differ, and both check afterwards.
pub proof fn law_issued_keys_distinct(v: StoreView, uid: i32, k1: Seq<char>, k2: Seq<char>)
    requires
        !v.key_matches(uid, k1),
        !v.with_key(uid, k1).key_matches(uid, k2),
    ensures
        k1 != k2,
        v.with_key(uid, k1).with_key(uid, k2).key_matches(uid, k1),
        v.with_key(uid, k1).with_key(uid, k2).key_matches(uid, k2),
{
    let w = v.with_key(uid, k1);
    law_api_keys_accumulate(v, uid, k1, uid, k1);
    law_api_keys_accumulate(w, uid, k2, uid, k1);
}

/// Every key listed for a user was issued to that user.
pub proof fn lemma_keys_of_member(keys: Seq<KeyView>, uid: i32, n: int)
    requires
        0 <= n < keys_of(keys, uid).len(),
    ensures
        exists|i: int|
            0 <= i < keys.len() && keys[i].uid == uid && #[trigger] keys[i].api_key == keys_of(keys, uid)[n],
    decreases keys.len(),
{
    let rest = keys_of(keys.drop_last(), uid);
    if n < rest.len() {
        lemma_keys_of_member(keys.drop_last(), uid, n);
        let i = choose|i: int|
            0 <= i < keys.drop_last().len() && keys.drop_last()[i].uid == uid && #[trigger] keys.drop_last()[i].api_key
                == rest[n];
        assert(keys[i] == keys.drop_last()[i]);
    } else {
        assert(keys[keys.len() - 1].api_key == keys_of(keys, uid)[n]);
    }
}

/// Where no key is issued twice to one user, the keys listed for a user are
/// distinct.
pub proof fn lemma_keys_of_unique(keys: Seq<KeyView>, uid: i32)
    requires
        forall|i: int, j: int|
            #![trigger keys[i], keys[j]]
            0 <= i < keys.len() && 0 <= j < keys.len() && keys[i] == keys[j] ==> i == j,
    ensures
        keys_of(keys, uid).no_duplicates(),
    decreases keys.len(),
{
    if keys.len() > 0 {
        let d = keys.drop_last();
        assert forall|i: int, j: int|
            #![trigger d[i], d[j]]
            0 <= i < d.len() && 0 <= j < d.len() && d[i] == d[j] implies i == j by {
            assert(keys[i] == d[i] && keys[j] == d[j]);
        }
        lemma_keys_of_unique(d, uid);
        let rest = keys_of(d, uid);
        let last = keys.last();
        if last.uid == uid {
            let out = rest.push(last.api_key);
            assert forall|a: int, b: int| 0 <= a < out.len() && 0 <= b < out.len() && a != b implies out[a]
                != out[b] by {
                if a == rest.len() || b == rest.len() {
                    let m = if a == rest.len() { b } else { a };
                    if out[a] == out[b] {
                        lemma_keys_of_member(d, uid, m);
                        let i = choose|i: int|
                            0 <= i < d.len() && d[i].uid == uid && #[trigger] d[i].api_key == rest[m];
                        assert(keys[i] == d[i]);
                        assert(keys[i] == keys[keys.len() - 1]);
                    }
                }
            }
        }
    }
}

/// Issuing a key never revokes another: every key that checked before still
/// checks, and the new one checks too.
pub proof fn law_api_keys_accumulate(v: StoreView, uid: i32, key: Seq<char>, u: i32, k: Seq<char>)
    ensures
        v.key_matches(u, k) ==> v.with_key(uid, key).key_matches(u, k),
        v.with_key(uid, key).key_matches(uid, key),
        v.with_key(uid, key).has_key(uid),
{
    let w = v.with_key(uid, key);
    assert(w.api_keys[v.api_keys.len() as int].uid == uid);
    if v.key_matches(u, k) {
        let i = choose|i: int|
            0 <= i < v.api_keys.len() && #[trigger] v.api_keys[i].uid == u && v.api_keys[i].api_key == k;
        assert(w.api_keys[i].uid == u);
    }
}

} // verus!
