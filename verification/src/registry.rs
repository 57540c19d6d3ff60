//! The connection registry: the single source of truth for which peers are
//! currently connected.
//!
//! The registry maps a [`ConnKey`] to the [`WriterHandle`] of that
//! connection's outbound writer. `register` overwrites unconditionally (last
//! writer for a key wins); removal is identity-checked, so a stale session can
//! never evict the entry of a newer session that reused its key.

use vstd::prelude::*;

use crate::addr::{format_key, key_text, ConnKey, Ipv4};

verus! {

/// Identity of one connection's outbound writer.
///
/// The writer itself (a socket write half behind a lock) lives outside the
/// registry; the registry tracks which writer a key currently points at, so
/// that removal can be identity-checked. Handles are assigned once per
/// accepted connection and never reused.
#[derive(Clone, Copy, PartialEq, Eq, Structural, Debug)]
pub struct WriterHandle {
    pub id: u64,
}

/// One registry entry: a key and the writer it currently points at.
#[derive(Clone, Copy, PartialEq, Eq, Structural, Debug)]
pub struct RegEntry {
    pub key: ConnKey,
    pub writer: WriterHandle,
}

/// The mathematical contents of a sequence of entries: later entries win.
pub open spec fn entries_map(s: Seq<RegEntry>) -> Map<ConnKey, WriterHandle>
    decreases s.len(),
{
    if s.len() == 0 {
        Map::empty()
    } else {
        entries_map(s.drop_last()).insert(s.last().key, s.last().writer)
    }
}

/// No two entries share a key.
pub open spec fn distinct_keys(s: Seq<RegEntry>) -> bool {
    forall|i: int, j: int| 0 <= i < j < s.len() ==> (#[trigger] s[i]).key != (#[trigger] s[j]).key
}

proof fn lemma_entries_map_contains(s: Seq<RegEntry>, k: ConnKey)
    ensures
        entries_map(s).contains_key(k) <==> exists|i: int| 0 <= i < s.len() && (#[trigger] s[i]).key == k,
    decreases s.len(),
{
    if s.len() > 0 {
        lemma_entries_map_contains(s.drop_last(), k);
        if s.last().key == k {
            assert(s[s.len() - 1].key == k);
        } else if entries_map(s).contains_key(k) {
            let i = choose|i: int| 0 <= i < s.drop_last().len() && (#[trigger] s.drop_last()[i]).key == k;
            assert(s[i].key == k);
        } else {
            assert forall|i: int| 0 <= i < s.len() implies (#[trigger] s[i]).key != k by {
                if i < s.len() - 1 {
                    assert(s.drop_last()[i].key == s[i].key);
                }
            }
        }
    }
}

proof fn lemma_entries_map_index(s: Seq<RegEntry>, i: int)
    requires
        distinct_keys(s),
        0 <= i < s.len(),
    ensures
        entries_map(s).contains_key(s[i].key),
        entries_map(s)[s[i].key] == s[i].writer,
    decreases s.len(),
{
    if i == s.len() - 1 {
    } else {
        assert(distinct_keys(s.drop_last()));
        assert(s.drop_last()[i] == s[i]);
        lemma_entries_map_index(s.drop_last(), i);
        assert(s[i].key != s.last().key);
    }
}

proof fn lemma_distinct_remove(s: Seq<RegEntry>, i: int)
    requires
        distinct_keys(s),
        0 <= i < s.len(),
    ensures
        distinct_keys(s.remove(i)),
{
    let t = s.remove(i);
    assert forall|p: int, q: int| 0 <= p < q < t.len() implies (#[trigger] t[p]).key != (#[trigger] t[q]).key by {
        let p0: int = if p < i { p } else { p + 1 };
        let q0: int = if q < i { q } else { q + 1 };
        assert(t[p] == s[p0]);
        assert(t[q] == s[q0]);
    }
}

proof fn lemma_entries_map_remove(s: Seq<RegEntry>, i: int)
    requires
        distinct_keys(s),
        0 <= i < s.len(),
    ensures
        entries_map(s.remove(i)) == entries_map(s).remove(s[i].key),
    decreases s.len(),
{
    if i == s.len() - 1 {
        assert(s.remove(i) =~= s.drop_last());
        lemma_entries_map_contains(s.drop_last(), s.last().key);
        assert forall|j: int| 0 <= j < s.drop_last().len() implies (#[trigger] s.drop_last()[j]).key != s.last().key by {
            assert(s.drop_last()[j] == s[j]);
        }
        assert(!entries_map(s.drop_last()).contains_key(s.last().key));
        assert(entries_map(s.remove(i)) =~= entries_map(s).remove(s[i].key));
    } else {
        assert(distinct_keys(s.drop_last()));
        assert(s.remove(i).drop_last() =~= s.drop_last().remove(i));
        assert(s.remove(i).last() == s.last());
        lemma_entries_map_remove(s.drop_last(), i);
        assert(s.drop_last()[i] == s[i]);
        assert(s[i].key != s.last().key);
        assert(entries_map(s.remove(i)) =~= entries_map(s).remove(s[i].key));
    }
}

/// The contents after a further sequence of registrations, one `register`
/// call per entry, in order.
pub open spec fn apply_registers(
    m: Map<ConnKey, WriterHandle>,
    ops: Seq<RegEntry>,
) -> Map<ConnKey, WriterHandle>
    decreases ops.len(),
{
    if ops.len() == 0 {
        m
    } else {
        apply_registers(m, ops.drop_last()).insert(ops.last().key, ops.last().writer)
    }
}

/// Law: after any sequence of registrations with distinct keys, each
/// registered key looks up to exactly the writer that was registered under
/// it, whatever the registry held before.
pub proof fn lemma_distinct_registrations_look_up(
    m0: Map<ConnKey, WriterHandle>,
    ops: Seq<RegEntry>,
    i: int,
)
    requires
        distinct_keys(ops),
        0 <= i < ops.len(),
    ensures
        apply_registers(m0, ops).contains_key(ops[i].key),
        apply_registers(m0, ops)[ops[i].key] == ops[i].writer,
    decreases ops.len(),
{
    if i == ops.len() - 1 {
    } else {
        assert(distinct_keys(ops.drop_last()));
        assert(ops.drop_last()[i] == ops[i]);
        lemma_distinct_registrations_look_up(m0, ops.drop_last(), i);
        assert(ops[i].key != ops.last().key);
    }
}

/// Law: an entry keeps looking up to its writer while other keys are
/// registered over or removed.
pub proof fn lemma_lookup_stable_under_other_keys(
    m: Map<ConnKey, WriterHandle>,
    k: ConnKey,
    k2: ConnKey,
    w2: WriterHandle,
)
    requires
        m.contains_key(k),
        k2 != k,
    ensures
        m.insert(k2, w2).contains_key(k) && m.insert(k2, w2)[k] == m[k],
        m.remove(k2).contains_key(k) && m.remove(k2)[k] == m[k],
{
}

/// Law: re-registering a key points it at the new writer — the last
/// registration for a key wins. The writer registered before keeps its own
/// identity untouched; only what the key resolves to changes.
pub proof fn lemma_reregister_wins(
    m: Map<ConnKey, WriterHandle>,
    k: ConnKey,
    w1: WriterHandle,
    w2: WriterHandle,
)
    ensures
        m.insert(k, w1).insert(k, w2).contains_key(k),
        m.insert(k, w1).insert(k, w2)[k] == w2,
{
}

/// Law: a key absent from the contents appears in no snapshot of the keys
/// — once a departure or eviction removed it, diagnostics no longer list
/// its text.
pub proof fn lemma_gone_key_not_in_snapshot(reg: Registry, k: ConnKey)
    requires
        !reg.contents().contains_key(k),
    ensures
        forall|i: int|
            0 <= i < reg.entry_seq().len() ==> key_text(
                (#[trigger] reg.entry_seq()[i]).key,
            ) != key_text(k),
{
    lemma_entries_map_contains(reg.entry_seq(), k);
    assert forall|i: int| 0 <= i < reg.entry_seq().len() implies key_text(
        (#[trigger] reg.entry_seq()[i]).key,
    ) != key_text(k) by {
        crate::addr::lemma_key_text_injective(reg.entry_seq()[i].key, k);
    }
}

/// The shared map of live connections.
///
/// All exec operations keep the internal invariant that keys are distinct, so
/// the entry sequence and the mathematical map agree.
pub struct Registry {
    entries: Vec<RegEntry>,
}

impl Registry {
    /// The raw entry sequence, in storage order.
    pub closed spec fn entry_seq(self) -> Seq<RegEntry> {
        self.entries@
    }

    /// The registry as a mathematical map.
    pub open spec fn contents(self) -> Map<ConnKey, WriterHandle> {
        entries_map(self.entry_seq())
    }

    /// Internal invariant: at most one live entry per key.
    pub open spec fn wf(self) -> bool {
        distinct_keys(self.entry_seq())
    }

    /// An empty registry.
    pub fn new() -> (r: Registry)
        ensures
            r.wf(),
            r.entry_seq() == Seq::<RegEntry>::empty(),
            r.contents() == Map::<ConnKey, WriterHandle>::empty(),
    {
        Registry { entries: Vec::new() }
    }

    /// Number of live entries.
    pub fn len(&self) -> (r: usize)
        ensures
            r == self.entry_seq().len(),
    {
        self.entries.len()
    }

    /// Index of the entry holding `key`, if any.
    fn idx_of_key(&self, key: ConnKey) -> (r: Option<usize>)
        ensures
            match r {
                Some(i) => i < self.entry_seq().len() && self.entry_seq()[i as int].key == key,
                None => forall|i: int|
                    0 <= i < self.entry_seq().len() ==> (#[trigger] self.entry_seq()[i]).key != key,
            },
    {
        let n = self.entries.len();
        let mut i: usize = 0;
        while i < n
            invariant
                n == self.entry_seq().len(),
                i <= n,
                forall|j: int| 0 <= j < i ==> (#[trigger] self.entry_seq()[j]).key != key,
            decreases n - i,
        {
            if self.entries[i].key == key {
                return Some(i);
            }
            i = i + 1;
        }
        None
    }

    /// Insert or overwrite: after the call the registry maps `key` to
    /// `writer`, whatever it held before. Last writer for a key wins.
    pub fn register(&mut self, key: ConnKey, writer: WriterHandle)
        requires
            old(self).wf(),
        ensures
            final(self).wf(),
            final(self).contents() == old(self).contents().insert(key, writer),
    {
        let entry = RegEntry { key, writer };
        match self.idx_of_key(key) {
            Some(i) => {
                proof {
                    lemma_distinct_remove(self.entry_seq(), i as int);
                    lemma_entries_map_remove(self.entry_seq(), i as int);
                    lemma_entries_map_contains(self.entry_seq().remove(i as int), key);
                }
                self.entries.remove(i);
                assert forall|j: int|
                    0 <= j < self.entry_seq().len() implies (#[trigger] self.entry_seq()[j]).key != key by {
                    lemma_entries_map_index(self.entry_seq(), j);
                }
                self.entries.push(entry);
                proof {
                    assert(self.entry_seq().drop_last() =~= old(self).entry_seq().remove(i as int));
                    assert(self.contents() =~= old(self).contents().insert(key, writer));
                }
            },
            None => {
                self.entries.push(entry);
                proof {
                    assert(self.entry_seq().drop_last() =~= old(self).entry_seq());
                    assert(self.contents() =~= old(self).contents().insert(key, writer));
                }
            },
        }
    }

    /// Look a key up; `Some` exactly when the key is live, returning the
    /// writer the registry currently points at.
    pub fn lookup(&self, key: ConnKey) -> (r: Option<WriterHandle>)
        requires
            self.wf(),
        ensures
            r == if self.contents().contains_key(key) {
                Some(self.contents()[key])
            } else {
                None::<WriterHandle>
            },
    {
        proof {
            lemma_entries_map_contains(self.entry_seq(), key);
        }
        match self.idx_of_key(key) {
            Some(i) => {
                proof {
                    lemma_entries_map_index(self.entry_seq(), i as int);
                }
                Some(self.entries[i].writer)
            },
            None => None,
        }
    }

    /// Scan for any live connection whose address half matches `ip`.
    ///
    /// Among several connections from the same address no particular one is
    /// promised: only one connection per physical address is the expected
    /// steady state.
    pub fn lookup_by_ip(&self, ip: Ipv4) -> (r: Option<(ConnKey, WriterHandle)>)
        requires
            self.wf(),
        ensures
            match r {
                Some(p) => self.contents().contains_key(p.0) && self.contents()[p.0] == p.1
                    && p.0.ip == ip,
                None => forall|k: ConnKey|
                    #[trigger] self.contents().contains_key(k) ==> k.ip != ip,
            },
    {
        let n = self.entries.len();
        let mut i: usize = 0;
        while i < n
            invariant
                self.wf(),
                n == self.entry_seq().len(),
                i <= n,
                forall|j: int| 0 <= j < i ==> (#[trigger] self.entry_seq()[j]).key.ip != ip,
            decreases n - i,
        {
            let e = self.entries[i];
            if e.key.ip == ip {
                proof {
                    lemma_entries_map_index(self.entry_seq(), i as int);
                }
                return Some((e.key, e.writer));
            }
            i = i + 1;
        }
        proof {
            assert forall|k: ConnKey| #[trigger] self.contents().contains_key(k) implies k.ip != ip by {
                lemma_entries_map_contains(self.entry_seq(), k);
            }
        }
        None
    }

    /// Identity-checked removal: the entry leaves only if the registry still
    /// points `key` at exactly `writer`. A stale caller whose writer was
    /// since replaced — or whose key is already gone — changes nothing and
    /// gets `false` back.
    pub fn remove_if(&mut self, key: ConnKey, writer: WriterHandle) -> (r: bool)
        requires
            old(self).wf(),
        ensures
            final(self).wf(),
            r == (old(self).contents().contains_key(key) && old(self).contents()[key] == writer),
            r ==> final(self).contents() == old(self).contents().remove(key),
            !r ==> *final(self) == *old(self),
    {
        proof {
            lemma_entries_map_contains(self.entry_seq(), key);
        }
        match self.idx_of_key(key) {
            Some(i) => {
                proof {
                    lemma_entries_map_index(self.entry_seq(), i as int);
                }
                if self.entries[i].writer.id == writer.id {
                    proof {
                        lemma_distinct_remove(self.entry_seq(), i as int);
                        lemma_entries_map_remove(self.entry_seq(), i as int);
                    }
                    self.entries.remove(i);
                    true
                } else {
                    false
                }
            },
            None => false,
        }
    }

    /// A copy of the current entries, for probing outside the lock.
    pub fn snapshot_entries(&self) -> (r: Vec<RegEntry>)
        ensures
            r@ == self.entry_seq(),
    {
        let n = self.entries.len();
        let mut out: Vec<RegEntry> = Vec::new();
        let mut i: usize = 0;
        while i < n
            invariant
                n == self.entry_seq().len(),
                i <= n,
                out@ == self.entry_seq().subrange(0, i as int),
            decreases n - i,
        {
            out.push(self.entries[i]);
            proof {
                assert(out@ =~= self.entry_seq().subrange(0, i + 1 as int));
            }
            i = i + 1;
        }
        proof {
            assert(out@ =~= self.entry_seq());
        }
        out
    }

    /// The textual keys of the current entries, for diagnostics: one
    /// canonical `"<ip>:<port>"` text per live connection.
    pub fn snapshot_keys(&self) -> (r: Vec<String>)
        ensures
            r@.len() == self.entry_seq().len(),
            forall|i: int|
                0 <= i < r@.len() ==> (#[trigger] r@[i])@ == key_text(self.entry_seq()[i].key),
    {
        let n = self.entries.len();
        let mut out: Vec<String> = Vec::new();
        let mut i: usize = 0;
        while i < n
            invariant
                n == self.entry_seq().len(),
                i <= n,
                out@.len() == i,
                forall|j: int|
                    0 <= j < i ==> (#[trigger] out@[j])@ == key_text(self.entry_seq()[j].key),
            decreases n - i,
        {
            out.push(format_key(self.entries[i].key));
            i = i + 1;
        }
        out
    }
}

} // verus!
