//! The liveness sweeper: periodically probe every registered writer with a
//! fixed keep-alive payload and evict the ones whose probe write failed.
//!
//! Probing happens outside the registry lock, on a snapshot; only the final
//! batch removal takes the lock again, and it re-checks writer identity, so
//! a connection that reconnected between probe and removal is left alone.

use vstd::prelude::*;

use crate::addr::ConnKey;
use crate::registry::{RegEntry, Registry, WriterHandle};

verus! {

/// The fixed keep-alive probe payload.
pub open spec fn keepalive_text() -> Seq<char> {
    "{\"type\":\"keepalive\"}"@
}

/// The keep-alive probe payload; a write failure on it is the only
/// liveness signal there is.
pub fn keepalive_payload() -> (r: String)
    ensures
        r@ == keepalive_text(),
        crate::framing::line_free(r@),
{
    proof {
        reveal_strlit("{\"type\":\"keepalive\"}");
    }
    String::from_str("{\"type\":\"keepalive\"}")
}

/// The entries whose probe failed: `probes[i]` stays exactly when
/// `results[i]` is false.
pub open spec fn failed_of(probes: Seq<RegEntry>, results: Seq<bool>) -> Seq<RegEntry>
    decreases probes.len(),
{
    if probes.len() == 0 || probes.len() != results.len() {
        Seq::empty()
    } else if results.last() {
        failed_of(probes.drop_last(), results.drop_last())
    } else {
        failed_of(probes.drop_last(), results.drop_last()).push(probes.last())
    }
}

/// Collect the snapshot entries whose probe write failed.
pub fn failed_entries(probes: &Vec<RegEntry>, results: &Vec<bool>) -> (r: Vec<RegEntry>)
    requires
        probes@.len() == results@.len(),
    ensures
        r@ == failed_of(probes@, results@),
{
    let n = probes.len();
    let mut out: Vec<RegEntry> = Vec::new();
    let mut i: usize = 0;
    while i < n
        invariant
            n == probes@.len(),
            probes@.len() == results@.len(),
            i <= n,
            out@ == failed_of(probes@.subrange(0, i as int), results@.subrange(0, i as int)),
        decreases n - i,
    {
        if !results[i] {
            out.push(probes[i]);
        }
        proof {
            assert(probes@.subrange(0, i + 1 as int).drop_last() =~= probes@.subrange(0, i as int));
            assert(results@.subrange(0, i + 1 as int).drop_last() =~= results@.subrange(
                0,
                i as int,
            ));
            assert(probes@.subrange(0, i + 1 as int).last() == probes@[i as int]);
            assert(results@.subrange(0, i + 1 as int).last() == results@[i as int]);
        }
        i = i + 1;
    }
    proof {
        assert(probes@.subrange(0, n as int) =~= probes@);
        assert(results@.subrange(0, n as int) =~= results@);
    }
    out
}

/// Whether the batch `failed`, taken against the contents `m`, evicts `k`:
/// some failed entry names `k` and still matches the writer `m` holds.
pub open spec fn spec_evicted(
    failed: Seq<RegEntry>,
    m: Map<ConnKey, WriterHandle>,
    k: ConnKey,
) -> bool {
    exists|i: int|
        0 <= i < failed.len() && (#[trigger] failed[i]).key == k && m.contains_key(k) && m[k]
            == failed[i].writer
}

/// Remove every failed entry whose writer identity still matches — and no
/// other. An entry replaced since the probe (a reconnect) stays.
pub fn evict_failed(reg: &mut Registry, failed: &Vec<RegEntry>)
    requires
        old(reg).wf(),
    ensures
        final(reg).wf(),
        forall|k: ConnKey| #[trigger]
            final(reg).contents().contains_key(k) == (old(reg).contents().contains_key(k)
                && !spec_evicted(failed@, old(reg).contents(), k)),
        forall|k: ConnKey| #[trigger]
            final(reg).contents().contains_key(k) ==> final(reg).contents()[k] == old(
                reg,
            ).contents()[k],
{
    let ghost m0 = old(reg).contents();
    let n = failed.len();
    let mut i: usize = 0;
    while i < n
        invariant
            reg.wf(),
            n == failed@.len(),
            i <= n,
            forall|k: ConnKey| #[trigger]
                reg.contents().contains_key(k) == (m0.contains_key(k) && !spec_evicted(
                    failed@.subrange(0, i as int),
                    m0,
                    k,
                )),
            forall|k: ConnKey| #[trigger]
                reg.contents().contains_key(k) ==> reg.contents()[k] == m0[k],
        decreases n - i,
    {
        let e = failed[i];
        let ghost pre = reg.contents();
        let removed = reg.remove_if(e.key, e.writer);
        proof {
            assert(failed@.subrange(0, i + 1 as int).drop_last() =~= failed@.subrange(0, i as int));
            assert(failed@.subrange(0, i + 1 as int).last() == failed@[i as int]);
            assert forall|k: ConnKey| #[trigger]
                reg.contents().contains_key(k) == (m0.contains_key(k) && !spec_evicted(
                    failed@.subrange(0, i + 1 as int),
                    m0,
                    k,
                )) by {
                let s1 = failed@.subrange(0, i + 1 as int);
                let s0 = failed@.subrange(0, i as int);
                assert forall|j: int| 0 <= j < s0.len() implies s1[j] == s0[j] by {}
                if spec_evicted(s1, m0, k) {
                    let j = choose|j: int|
                        0 <= j < s1.len() && (#[trigger] s1[j]).key == k && m0.contains_key(k)
                            && m0[k] == s1[j].writer;
                    if j < i {
                        assert(s0[j] == s1[j]);
                        assert(spec_evicted(s0, m0, k));
                    } else {
                        assert(s1[j] == failed@[i as int]);
                        if pre.contains_key(k) {
                            assert(pre[k] == m0[k]);
                            assert(removed || k != e.key || pre[k] != e.writer);
                            assert(!reg.contents().contains_key(k) || k != e.key);
                            if k == e.key {
                                assert(removed);
                                assert(!reg.contents().contains_key(k));
                            }
                        } else {
                            assert(!reg.contents().contains_key(k));
                        }
                    }
                }
                if spec_evicted(s0, m0, k) {
                    let j = choose|j: int|
                        0 <= j < s0.len() && (#[trigger] s0[j]).key == k && m0.contains_key(k)
                            && m0[k] == s0[j].writer;
                    assert(s1[j] == s0[j]);
                    assert(spec_evicted(s1, m0, k));
                }
            }
        }
        i = i + 1;
    }
    proof {
        assert(failed@.subrange(0, n as int) =~= failed@);
    }
}

} // verus!
