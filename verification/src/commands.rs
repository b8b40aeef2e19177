use vstd::prelude::*;

use crate::arith::{parse_float_bits, parse_of};
use crate::bits::{is_finite_bits, is_finite_exec};
use crate::errors::StatsError;
use crate::stats::{identity_spec, InfoSnapshot, SummaryStatistics};
use crate::store::{Slot, Store};

verus! {

/// A command's answer, as the host protocol will carry it: an integer for
/// booleans and counts, a binary64 bit pattern for a statistic, the
/// four-field report, or null for "not found".
#[derive(Clone, Copy, Debug, PartialEq, Eq)]
pub enum Reply {
    Integer(i64),
    Float(u64),
    Info(InfoSnapshot),
    Null,
}

/// The byte strings of a list of keys.
pub open spec fn keys_view(ks: Seq<Vec<u8>>) -> Seq<Seq<u8>> {
    Seq::new(ks.len(), |i: int| ks[i]@)
}

/// What one source key contributes to a merge walk: a present summary is
/// absorbed, an absent key is skipped.
pub open spec fn merge_step(store: Store, acc: SummaryStatistics, k: Seq<u8>) -> SummaryStatistics {
    match store.spec_lookup(k) {
        Some(Slot::Stats(s)) => acc.merge_spec(s),
        _ => acc,
    }
}

/// The summary merged, starting from the identity, out of the first keys
/// of a source list.
pub open spec fn merged_prefix(store: Store, keys: Seq<Seq<u8>>, n: int) -> SummaryStatistics
    decreases n,
{
    if n <= 0 {
        identity_spec()
    } else {
        merge_step(store, merged_prefix(store, keys, n - 1), keys[n - 1])
    }
}

/// The summary merged out of a whole source list.
pub open spec fn merged_all(store: Store, keys: Seq<Seq<u8>>) -> SummaryStatistics {
    merged_prefix(store, keys, keys.len() as int)
}

/// The total observation count among the present summaries of the first
/// keys of a source list.
pub open spec fn merged_count(store: Store, keys: Seq<Seq<u8>>, n: int) -> int
    decreases n,
{
    if n <= 0 {
        0
    } else {
        merged_count(store, keys, n - 1) + (match store.spec_lookup(keys[n - 1]) {
            Some(Slot::Stats(s)) => s.count as int,
            _ => 0,
        })
    }
}

/// No key of the list holds a value of a different registered type.
pub open spec fn sources_ok(store: Store, keys: Seq<Seq<u8>>) -> bool {
    forall|i: int|
        0 <= i < keys.len() ==> !((#[trigger] store.spec_lookup(keys[i])) matches Some(
            Slot::Foreign,
        ))
}

/// Prefix counts only grow along a merge walk.
proof fn lemma_merged_count_mono(store: Store, keys: Seq<Seq<u8>>, n: int, m: int)
    requires
        store.wf(),
        0 <= n <= m,
    ensures
        merged_count(store, keys, n) <= merged_count(store, keys, m),
    decreases m - n,
{
    if n < m {
        lemma_merged_count_mono(store, keys, n, m - 1);
    }
}

/// A merge walk reads only the keys up to its bound.
proof fn lemma_merged_prefix_congruence(
    store: Store,
    keys1: Seq<Seq<u8>>,
    keys2: Seq<Seq<u8>>,
    n: int,
)
    requires
        forall|j: int| 0 <= j < n ==> keys1[j] == keys2[j],
    ensures
        merged_prefix(store, keys1, n) == merged_prefix(store, keys2, n),
    decreases n,
{
    if n > 0 {
        lemma_merged_prefix_congruence(store, keys1, keys2, n - 1);
    }
}

/// Law: a source key that resolves to nothing contributes nothing. Taking
/// it out of the source list changes neither the merged summary nor
/// whether some source holds a foreign value.
pub proof fn lemma_merge_skips_absent(store: Store, keys: Seq<Seq<u8>>, i: int)
    requires
        0 <= i < keys.len(),
        store.spec_lookup(keys[i]) is None,
    ensures
        merged_all(store, keys.remove(i)) == merged_all(store, keys),
        sources_ok(store, keys.remove(i)) == sources_ok(store, keys),
    decreases keys.len(),
{
    let l = keys.len() as int;
    let kr = keys.remove(i);
    assert(forall|j: int| 0 <= j < i ==> kr[j] == keys[j]);
    assert(forall|j: int| i <= j < l - 1 ==> kr[j] == keys[j + 1]);
    assert(sources_ok(store, kr) == sources_ok(store, keys)) by {
        if sources_ok(store, keys) {
            assert forall|j: int|
                0 <= j < kr.len() implies !((#[trigger] store.spec_lookup(kr[j])) matches Some(
                Slot::Foreign,
            )) by {
                if j < i {
                    assert(kr[j] == keys[j]);
                } else {
                    assert(kr[j] == keys[j + 1]);
                }
            }
        }
        if sources_ok(store, kr) {
            assert forall|j: int|
                0 <= j < keys.len() implies !((#[trigger] store.spec_lookup(keys[j])) matches Some(
                Slot::Foreign,
            )) by {
                if j < i {
                    assert(keys[j] == kr[j]);
                } else if j > i {
                    assert(keys[j] == kr[j - 1]);
                }
            }
        }
    }
    if i == l - 1 {
        assert(kr =~= keys.subrange(0, l - 1));
        lemma_merged_prefix_congruence(store, keys.subrange(0, l - 1), keys, l - 1);
    } else {
        let kt = keys.subrange(0, l - 1);
        assert(kt[i] == keys[i]);
        lemma_merge_skips_absent(store, kt, i);
        assert(kt.remove(i) =~= kr.subrange(0, l - 2));
        lemma_merged_prefix_congruence(store, kt, keys, l - 1);
        lemma_merged_prefix_congruence(store, kr.subrange(0, l - 2), kr, l - 2);
        assert(kr[l - 2] == keys[l - 1]);
    }
}

/// Create the key with a fresh, empty summary, replacing whatever the key
/// held, and answer the integer for true.
pub fn ns_create(store: &mut Store, key: &Vec<u8>) -> (r: Reply)
    requires
        old(store).wf(),
    ensures
        final(store).wf(),
        final(store).spec_lookup(key@) == Some(Slot::Stats(identity_spec())),
        forall|k2: Seq<u8>| k2 != key@ ==> final(store).spec_lookup(k2) == old(store).spec_lookup(
            k2,
        ),
        r == Reply::Integer(1),
{
    let ss = SummaryStatistics::identity();
    store.set_slot(key, Slot::Stats(ss));
    Reply::Integer(1)
}

/// Report the key's summary: the four fields, minimum and maximum absent
/// while the count is zero; null when the key is absent or holds a value
/// of a different registered type.
pub fn ns_info(store: &Store, key: &Vec<u8>) -> (r: Reply)
    requires
        store.wf(),
    ensures
        (match store.spec_lookup(key@) {
            Some(Slot::Stats(a)) => r == Reply::Info(a.snapshot_spec()),
            Some(Slot::Foreign) => r == Reply::Null,
            None => r == Reply::Null,
        }),
{
    match store.get_slot(key) {
        Some(Slot::Stats(a)) => Reply::Info(a.snapshot()),
        _ => Reply::Null,
    }
}

/// Record one observation under the key. A text that does not parse as a
/// finite number is an invalid argument; an absent key answers the
/// integer for false, with nothing created; a key of a different
/// registered type is a type mismatch. Only on success does the key's
/// summary change, and no other key ever does.
pub fn ns_accept(store: &mut Store, key: &Vec<u8>, raw: &str) -> (r: Result<Reply, StatsError>)
    requires
        old(store).wf(),
        (match old(store).spec_lookup(key@) {
            Some(Slot::Stats(a)) => a.count < i64::MAX,
            _ => true,
        }),
    ensures
        final(store).wf(),
        (match parse_of(raw@) {
            None => r == Err::<Reply, StatsError>(StatsError::InvalidArgument) && *final(store)
                == *old(store),
            Some(b) => if !is_finite_bits(b) {
                r == Err::<Reply, StatsError>(StatsError::InvalidArgument) && *final(store)
                    == *old(store)
            } else {
                match old(store).spec_lookup(key@) {
                    None => r == Ok::<Reply, StatsError>(Reply::Integer(0)) && *final(store)
                        == *old(store),
                    Some(Slot::Foreign) => r == Err::<Reply, StatsError>(StatsError::TypeMismatch)
                        && *final(store) == *old(store),
                    Some(Slot::Stats(a)) => {
                        &&& r == Ok::<Reply, StatsError>(Reply::Integer(1))
                        &&& final(store).spec_lookup(key@) == Some(Slot::Stats(a.accept_spec(b)))
                        &&& forall|k2: Seq<u8>|
                            k2 != key@ ==> final(store).spec_lookup(k2) == old(store).spec_lookup(
                                k2,
                            )
                    },
                }
            },
        }),
{
    let parsed = parse_float_bits(raw);
    match parsed {
        None => Err(StatsError::InvalidArgument),
        Some(b) => {
            if !is_finite_exec(b) {
                Err(StatsError::InvalidArgument)
            } else {
                match store.get_slot(key) {
                    None => Ok(Reply::Integer(0)),
                    Some(Slot::Foreign) => Err(StatsError::TypeMismatch),
                    Some(Slot::Stats(a)) => {
                        let mut acc = a;
                        acc.accept(b);
                        store.set_slot(key, Slot::Stats(acc));
                        Ok(Reply::Integer(1))
                    },
                }
            }
        },
    }
}

/// Report the key's average: the rounded quotient of sum and count, or
/// positive zero while the count is zero; null when the key is absent; a
/// key of a different registered type is a type mismatch.
pub fn ns_average(store: &Store, key: &Vec<u8>) -> (r: Result<Reply, StatsError>)
    requires
        store.wf(),
    ensures
        (match store.spec_lookup(key@) {
            None => r == Ok::<Reply, StatsError>(Reply::Null),
            Some(Slot::Foreign) => r == Err::<Reply, StatsError>(StatsError::TypeMismatch),
            Some(Slot::Stats(a)) => r == Ok::<Reply, StatsError>(Reply::Float(a.average_spec())),
        }),
{
    match store.get_slot(key) {
        None => Ok(Reply::Null),
        Some(Slot::Foreign) => Err(StatsError::TypeMismatch),
        Some(Slot::Stats(a)) => Ok(Reply::Float(a.average())),
    }
}

/// Merge the listed source keys into the target key. Each source is read
/// where it stands: an absent source is skipped; a source of a different
/// registered type is a type mismatch, reported before anything is
/// written. Otherwise a fresh summary merged out of all present sources
/// overwrites the target — the target's own prior value counts only if
/// the target is also listed as a source — and the answer is the number
/// of sources supplied, found or not.
pub fn ns_merge(store: &mut Store, target: &Vec<u8>, sources: &Vec<Vec<u8>>) -> (r: Result<
    Reply,
    StatsError,
>)
    requires
        old(store).wf(),
        merged_count(
            *old(store),
            keys_view(sources@),
            keys_view(sources@).len() as int,
        ) <= i64::MAX,
        sources@.len() <= i64::MAX,
    ensures
        final(store).wf(),
        sources_ok(*old(store), keys_view(sources@)) ==> r == Ok::<Reply, StatsError>(
            Reply::Integer(sources@.len() as i64),
        ) && final(store).spec_lookup(target@) == Some(
            Slot::Stats(merged_all(*old(store), keys_view(sources@))),
        ) && (forall|k2: Seq<u8>|
            k2 != target@ ==> final(store).spec_lookup(k2) == old(store).spec_lookup(k2)),
        !sources_ok(*old(store), keys_view(sources@)) ==> r == Err::<Reply, StatsError>(
            StatsError::TypeMismatch,
        ) && *final(store) == *old(store),
{
    let ghost kv = keys_view(sources@);
    let mut acc = SummaryStatistics::identity();
    let mut i: usize = 0;
    while i < sources.len()
        invariant
            i <= sources@.len(),
            kv == keys_view(sources@),
            *store == *old(store),
            store.wf(),
            merged_count(*store, kv, kv.len() as int) <= i64::MAX,
            acc.wf(),
            acc == merged_prefix(*store, kv, i as int),
            acc.count == merged_count(*store, kv, i as int),
            forall|j: int|
                0 <= j < i ==> !((#[trigger] store.spec_lookup(kv[j])) matches Some(Slot::Foreign)),
        decreases sources@.len() - i,
    {
        let src = &sources[i];
        proof {
            assert(kv[i as int] == src@);
        }
        match store.get_slot(src) {
            Some(Slot::Foreign) => {
                proof {
                    assert(!sources_ok(*old(store), kv));
                }
                return Err(StatsError::TypeMismatch);
            },
            Some(Slot::Stats(s)) => {
                proof {
                    lemma_merged_count_mono(*store, kv, i as int + 1, kv.len() as int);
                }
                acc.merge(&s);
            },
            None => {},
        }
        i = i + 1;
    }
    store.set_slot(target, Slot::Stats(acc));
    Ok(Reply::Integer(sources.len() as i64))
}

} // verus!
