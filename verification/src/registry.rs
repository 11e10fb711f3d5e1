//! The broker's plug registry: a mapping from plug identity to the live
//! record for that plug. One session driver claims each record when the
//! handshake lands and is the only one that may update or release it; the
//! HTTP bridge reads records and snapshots the whole table.

use vstd::prelude::*;

use crate::msg::PlugId;
use crate::PowerState;

verus! {

/// What the registry holds per live plug: the believed relay state, the
/// moment of the last inbound event (milliseconds since the epoch), and the
/// token of the driver that claimed the record.
#[derive(Debug, Clone, Copy, PartialEq, Eq, Structural)]
pub struct PlugRecord {
    pub power_state: PowerState,
    pub last_seen: i64,
    /// The driver that created this record; the only one allowed to update
    /// or remove it.
    pub driver: u64,
}

/// One registry row.
#[derive(Debug, Clone, Copy, PartialEq, Eq, Structural)]
pub struct RegistryEntry {
    pub id: PlugId,
    pub record: PlugRecord,
}

/// No plug identity appears on two rows.
pub open spec fn distinct_ids(s: Seq<RegistryEntry>) -> bool {
    forall|i: int, j: int|
        0 <= i < j < s.len() ==> (#[trigger] s[i]).id != (#[trigger] s[j]).id
}

/// The mapping the rows spell, later rows winning (irrelevant once the ids
/// are distinct).
pub open spec fn entries_map(s: Seq<RegistryEntry>) -> Map<PlugId, PlugRecord>
    decreases s.len(),
{
    if s.len() == 0 {
        Map::empty()
    } else {
        entries_map(s.drop_last()).insert(s.last().id, s.last().record)
    }
}

/// An identity is in the mapping exactly when some row carries it.
pub proof fn lemma_map_domain(s: Seq<RegistryEntry>, id: PlugId)
    ensures
        entries_map(s).contains_key(id) <==> exists|j: int|
            0 <= j < s.len() && (#[trigger] s[j]).id == id,
    decreases s.len(),
{
    if s.len() > 0 {
        lemma_map_domain(s.drop_last(), id);
        if s.last().id == id {
            assert(s[s.len() - 1].id == id);
        } else {
            if exists|j: int| 0 <= j < s.len() && (#[trigger] s[j]).id == id {
                let j = choose|j: int| 0 <= j < s.len() && (#[trigger] s[j]).id == id;
                assert(s.drop_last()[j].id == id);
            }
        }
    }
}

/// With distinct ids, the row an identity sits on gives its mapped record.
pub proof fn lemma_map_index(s: Seq<RegistryEntry>, j: int)
    requires
        distinct_ids(s),
        0 <= j < s.len(),
    ensures
        entries_map(s).contains_key(s[j].id),
        entries_map(s)[s[j].id] == s[j].record,
    decreases s.len(),
{
    if j < s.len() - 1 {
        assert(distinct_ids(s.drop_last()));
        assert(s.drop_last()[j] == s[j]);
        lemma_map_index(s.drop_last(), j);
        assert(s.last().id != s[j].id);
    }
}

/// Replacing a row in place, keeping its identity, inserts over the old
/// record in the mapping.
pub proof fn lemma_map_update(s: Seq<RegistryEntry>, j: int, e: RegistryEntry)
    requires
        distinct_ids(s),
        0 <= j < s.len(),
        e.id == s[j].id,
    ensures
        entries_map(s.update(j, e)) == entries_map(s).insert(e.id, e.record),
    decreases s.len(),
{
    let t = s.update(j, e);
    if j == s.len() - 1 {
        assert(t.drop_last() =~= s.drop_last());
        assert(t.last() == e);
        assert(entries_map(t) =~= entries_map(s).insert(e.id, e.record));
    } else {
        assert(t.drop_last() =~= s.drop_last().update(j, e));
        assert(t.last() == s.last());
        assert(distinct_ids(s.drop_last()));
        assert(s.drop_last()[j] == s[j]);
        lemma_map_update(s.drop_last(), j, e);
        assert(s.last().id != e.id);
        assert(entries_map(t) =~= entries_map(s).insert(e.id, e.record));
    }
}

/// Removing a row removes exactly its identity from the mapping.
pub proof fn lemma_map_remove(s: Seq<RegistryEntry>, j: int)
    requires
        distinct_ids(s),
        0 <= j < s.len(),
    ensures
        entries_map(s.remove(j)) == entries_map(s).remove(s[j].id),
    decreases s.len(),
{
    let id = s[j].id;
    let t = s.remove(j);
    if j == s.len() - 1 {
        assert(t =~= s.drop_last());
        lemma_map_domain(s.drop_last(), id);
        assert(!entries_map(s.drop_last()).contains_key(id)) by {
            if entries_map(s.drop_last()).contains_key(id) {
                let k = choose|k: int|
                    0 <= k < s.drop_last().len() && (#[trigger] s.drop_last()[k]).id == id;
                assert(s[k].id == s[j].id);
            }
        }
        assert(entries_map(t) =~= entries_map(s).remove(id));
    } else {
        assert(t.drop_last() =~= s.drop_last().remove(j));
        assert(t.last() == s.last());
        assert(distinct_ids(s.drop_last()));
        assert(s.drop_last()[j] == s[j]);
        lemma_map_remove(s.drop_last(), j);
        assert(s.last().id != id);
        assert(entries_map(t) =~= entries_map(s).remove(id));
    }
}

/// For every registered plug there is exactly one driver behind the record:
/// any two tokens the registry answers for the same identity are the same.
pub proof fn lemma_one_driver_per_record(
    m: Map<PlugId, PlugRecord>,
    id: PlugId,
    d1: u64,
    d2: u64,
)
    requires
        m.contains_key(id),
        m[id].driver == d1,
        m[id].driver == d2,
    ensures
        d1 == d2,
{
}

/// Live driver `d` holds the claim on plug `id`. `claims` maps every live
/// driver to the identity it claimed, `None` before its handshake landed.
pub open spec fn claims_record(claims: Map<u64, Option<PlugId>>, d: u64, id: PlugId) -> bool {
    claims.contains_key(d) && claims[d] == Some(id)
}

/// The broker-wide tie between the registry and the set of live drivers: a
/// record exists for a plug exactly when some live driver — the one the
/// record names — holds the claim on it, and no other does.
pub open spec fn liveness_inv(
    reg: Map<PlugId, PlugRecord>,
    claims: Map<u64, Option<PlugId>>,
) -> bool {
    &&& forall|id: PlugId| #[trigger]
        reg.contains_key(id) ==> claims_record(claims, reg[id].driver, id)
    &&& forall|d: u64, id: PlugId| #[trigger]
        claims_record(claims, d, id) ==> reg.contains_key(id) && reg[id].driver == d
}

/// Under the invariant, a record exists for a plug exactly when exactly one
/// live driver claims it.
pub proof fn lemma_record_iff_unique_claimant(
    reg: Map<PlugId, PlugRecord>,
    claims: Map<u64, Option<PlugId>>,
    id: PlugId,
)
    requires
        liveness_inv(reg, claims),
    ensures
        reg.contains_key(id) <==> exists|d: u64| #[trigger] claims_record(claims, d, id),
        forall|d1: u64, d2: u64|
            claims_record(claims, d1, id) && claims_record(claims, d2, id) ==> d1 == d2,
{
    if reg.contains_key(id) {
        assert(claims_record(claims, reg[id].driver, id));
    }
}

/// A fresh driver is born with no claim; the invariant survives its birth.
pub proof fn lemma_inv_spawn(
    reg: Map<PlugId, PlugRecord>,
    claims: Map<u64, Option<PlugId>>,
    d: u64,
)
    requires
        liveness_inv(reg, claims),
        !claims.contains_key(d),
    ensures
        liveness_inv(reg, claims.insert(d, None)),
{
    let claims2 = claims.insert(d, None);
    assert forall|id: PlugId| #[trigger] reg.contains_key(id) implies claims_record(
        claims2,
        reg[id].driver,
        id,
    ) by {
        assert(claims_record(claims, reg[id].driver, id));
    }
    assert forall|d2: u64, id: PlugId| #[trigger] claims_record(claims2, d2, id) implies
        reg.contains_key(id) && reg[id].driver == d2 by {
        assert(claims_record(claims, d2, id));
    }
}

/// A successful claim — the identity was free and the driver had none —
/// keeps the invariant: the new record and the new claim point at each
/// other, and nothing else moved.
pub proof fn lemma_inv_claim(
    reg: Map<PlugId, PlugRecord>,
    claims: Map<u64, Option<PlugId>>,
    d: u64,
    id: PlugId,
    rec: PlugRecord,
)
    requires
        liveness_inv(reg, claims),
        !reg.contains_key(id),
        claims.contains_key(d),
        claims[d] is None,
        rec.driver == d,
    ensures
        liveness_inv(reg.insert(id, rec), claims.insert(d, Some(id))),
{
    let reg2 = reg.insert(id, rec);
    let claims2 = claims.insert(d, Some(id));
    assert forall|id2: PlugId| #[trigger] reg2.contains_key(id2) implies claims_record(
        claims2,
        reg2[id2].driver,
        id2,
    ) by {
        if id2 != id {
            assert(claims_record(claims, reg[id2].driver, id2));
        }
    }
    assert forall|d2: u64, id2: PlugId| #[trigger] claims_record(claims2, d2, id2) implies
        reg2.contains_key(id2) && reg2[id2].driver == d2 by {
        if d2 != d {
            assert(claims_record(claims, d2, id2));
        }
    }
}

/// Updating a record in place — a power report or a `last_seen` stamp —
/// keeps the invariant, as long as the record stays with its driver.
pub proof fn lemma_inv_update_record(
    reg: Map<PlugId, PlugRecord>,
    claims: Map<u64, Option<PlugId>>,
    id: PlugId,
    rec: PlugRecord,
)
    requires
        liveness_inv(reg, claims),
        reg.contains_key(id),
        rec.driver == reg[id].driver,
    ensures
        liveness_inv(reg.insert(id, rec), claims),
{
    let reg2 = reg.insert(id, rec);
    assert forall|id2: PlugId| #[trigger] reg2.contains_key(id2) implies claims_record(
        claims,
        reg2[id2].driver,
        id2,
    ) by {
        assert(claims_record(claims, reg[id2].driver, id2));
    }
    assert forall|d2: u64, id2: PlugId| #[trigger] claims_record(claims, d2, id2) implies
        reg2.contains_key(id2) && reg2[id2].driver == d2 by {
        assert(reg.contains_key(id2) && reg[id2].driver == d2);
    }
}

/// A driver's exit keeps the invariant: its own claim goes with its record,
/// and a driver that never claimed takes nothing with it.
pub proof fn lemma_inv_exit(
    reg: Map<PlugId, PlugRecord>,
    claims: Map<u64, Option<PlugId>>,
    d: u64,
)
    requires
        liveness_inv(reg, claims),
        claims.contains_key(d),
    ensures
        liveness_inv(
            match claims[d] {
                Some(id) => reg.remove(id),
                None => reg,
            },
            claims.remove(d),
        ),
{
    let reg2 = match claims[d] {
        Some(id) => reg.remove(id),
        None => reg,
    };
    let claims2 = claims.remove(d);
    assert forall|id2: PlugId| #[trigger] reg2.contains_key(id2) implies claims_record(
        claims2,
        reg2[id2].driver,
        id2,
    ) by {
        assert(claims_record(claims, reg[id2].driver, id2));
        if reg[id2].driver == d {
            assert(claims[d] == Some(id2));
        }
    }
    assert forall|d2: u64, id2: PlugId| #[trigger] claims_record(claims2, d2, id2) implies
        reg2.contains_key(id2) && reg2[id2].driver == d2 by {
        assert(claims_record(claims, d2, id2));
        match claims[d] {
            Some(idd) => if id2 == idd {
                assert(claims_record(claims, d, idd));
                assert(reg[id2].driver == d2 && reg[id2].driver == d);
            },
            None => {},
        }
    }
}

/// The registry itself: rows with distinct identities, read through its
/// mapping view.
pub struct Registry {
    pub entries: Vec<RegistryEntry>,
}

impl View for Registry {
    type V = Map<PlugId, PlugRecord>;

    open spec fn view(&self) -> Map<PlugId, PlugRecord> {
        entries_map(self.entries@)
    }
}

impl Registry {
    /// Every identity on one row at most.
    pub open spec fn wf(&self) -> bool {
        distinct_ids(self.entries@)
    }

    /// An empty registry.
    pub fn new() -> (r: Self)
        ensures
            r.wf(),
            r@ == Map::<PlugId, PlugRecord>::empty(),
            r.entries@ == Seq::<RegistryEntry>::empty(),
    {
        Registry { entries: Vec::new() }
    }

    /// The row an identity sits on, if any.
    fn find(&self, id: PlugId) -> (r: Option<usize>)
        ensures
            match r {
                Some(j) => j < self.entries@.len() && self.entries@[j as int].id == id,
                None => forall|k: int|
                    0 <= k < self.entries@.len() ==> (#[trigger] self.entries@[k]).id != id,
            },
    {
        let n = self.entries.len();
        let mut i: usize = 0;
        while i < n
            invariant
                i <= n,
                n == self.entries@.len(),
                forall|k: int| 0 <= k < i ==> (#[trigger] self.entries@[k]).id != id,
            decreases n - i,
        {
            if self.entries[i].id == id {
                return Some(i);
            }
            i += 1;
        }
        None
    }

    /// The number of live records.
    pub fn len(&self) -> (n: usize)
        ensures
            n == self.entries@.len(),
    {
        self.entries.len()
    }

    /// The record registered for an identity, if any.
    pub fn get(&self, id: PlugId) -> (r: Option<PlugRecord>)
        requires
            self.wf(),
        ensures
            r == (if self@.contains_key(id) {
                Some(self@[id])
            } else {
                None::<PlugRecord>
            }),
    {
        match self.find(id) {
            Some(j) => {
                proof {
                    lemma_map_index(self.entries@, j as int);
                }
                Some(self.entries[j].record)
            },
            None => {
                proof {
                    lemma_map_domain(self.entries@, id);
                }
                None
            },
        }
    }

    /// A driver claims the record for the plug it handshook with. The safe
    /// policy for a duplicate `Conn` while a session is live: the claim is
    /// refused and the newcomer is turned away, rather than the older
    /// session's record being stolen.
    pub fn claim(&mut self, id: PlugId, driver: u64, now: i64) -> (r: bool)
        requires
            old(self).wf(),
        ensures
            final(self).wf(),
            r == !old(self)@.contains_key(id),
            r ==> final(self)@ == old(self)@.insert(
                id,
                PlugRecord { power_state: PowerState::Unknown, last_seen: now, driver },
            ),
            !r ==> final(self)@ == old(self)@ && final(self).entries@ == old(self).entries@,
    {
        match self.find(id) {
            Some(j) => {
                proof {
                    lemma_map_index(self.entries@, j as int);
                }
                false
            },
            None => {
                proof {
                    lemma_map_domain(self.entries@, id);
                }
                let e = RegistryEntry {
                    id,
                    record: PlugRecord {
                        power_state: PowerState::Unknown,
                        last_seen: now,
                        driver,
                    },
                };
                let ghost pre = self.entries@;
                self.entries.push(e);
                proof {
                    assert(self.entries@.drop_last() =~= pre);
                    assert forall|a: int, b: int| 0 <= a < b < self.entries@.len() implies (
                    #[trigger] self.entries@[a]).id != (#[trigger] self.entries@[b]).id by {
                        if b == pre.len() {
                            assert(pre[a].id != id);
                        } else {
                            assert(pre[a].id != pre[b].id);
                        }
                    }
                }
                true
            },
        }
    }

    /// The claiming driver records what the plug reported its relay to be.
    /// Only the record's own driver may write it: any other token leaves the
    /// registry untouched.
    pub fn set_power(&mut self, id: PlugId, driver: u64, power: PowerState) -> (r: bool)
        requires
            old(self).wf(),
        ensures
            final(self).wf(),
            r == (old(self)@.contains_key(id) && old(self)@[id].driver == driver),
            r ==> final(self)@ == old(self)@.insert(
                id,
                PlugRecord { power_state: power, ..old(self)@[id] },
            ),
            !r ==> final(self)@ == old(self)@ && final(self).entries@ == old(self).entries@,
    {
        match self.find(id) {
            Some(j) => {
                proof {
                    lemma_map_index(self.entries@, j as int);
                }
                let mut e = self.entries[j];
                if e.record.driver != driver {
                    return false;
                }
                e.record.power_state = power;
                let ghost pre = self.entries@;
                self.entries.set(j, e);
                proof {
                    lemma_map_update(pre, j as int, e);
                    assert forall|a: int, b: int| 0 <= a < b < self.entries@.len() implies (
                    #[trigger] self.entries@[a]).id != (#[trigger] self.entries@[b]).id by {
                        assert(pre[a].id != pre[b].id);
                    }
                }
                true
            },
            None => {
                proof {
                    lemma_map_domain(self.entries@, id);
                }
                false
            },
        }
    }

    /// The claiming driver stamps the moment of the latest inbound event.
    /// Only the record's own driver may write it.
    pub fn touch(&mut self, id: PlugId, driver: u64, now: i64) -> (r: bool)
        requires
            old(self).wf(),
        ensures
            final(self).wf(),
            r == (old(self)@.contains_key(id) && old(self)@[id].driver == driver),
            r ==> final(self)@ == old(self)@.insert(
                id,
                PlugRecord { last_seen: now, ..old(self)@[id] },
            ),
            !r ==> final(self)@ == old(self)@ && final(self).entries@ == old(self).entries@,
    {
        match self.find(id) {
            Some(j) => {
                proof {
                    lemma_map_index(self.entries@, j as int);
                }
                let mut e = self.entries[j];
                if e.record.driver != driver {
                    return false;
                }
                e.record.last_seen = now;
                let ghost pre = self.entries@;
                self.entries.set(j, e);
                proof {
                    lemma_map_update(pre, j as int, e);
                    assert forall|a: int, b: int| 0 <= a < b < self.entries@.len() implies (
                    #[trigger] self.entries@[a]).id != (#[trigger] self.entries@[b]).id by {
                        assert(pre[a].id != pre[b].id);
                    }
                }
                true
            },
            None => {
                proof {
                    lemma_map_domain(self.entries@, id);
                }
                false
            },
        }
    }

    /// A driver releases its claim on exit. Only the claiming driver removes
    /// the record: a release under any other token leaves it standing, so a
    /// record exists exactly from its driver's claim to that same driver's
    /// release.
    pub fn release(&mut self, id: PlugId, driver: u64) -> (r: bool)
        requires
            old(self).wf(),
        ensures
            final(self).wf(),
            r == (old(self)@.contains_key(id) && old(self)@[id].driver == driver),
            r ==> final(self)@ == old(self)@.remove(id),
            !r ==> final(self)@ == old(self)@ && final(self).entries@ == old(self).entries@,
    {
        match self.find(id) {
            Some(j) => {
                proof {
                    lemma_map_index(self.entries@, j as int);
                }
                if self.entries[j].record.driver == driver {
                    let ghost pre = self.entries@;
                    self.entries.remove(j);
                    proof {
                        lemma_map_remove(pre, j as int);
                        pre.remove_ensures(j as int);
                        assert forall|a: int, b: int| 0 <= a < b < self.entries@.len() implies (
                        #[trigger] self.entries@[a]).id != (#[trigger] self.entries@[b]).id by {
                            let a0 = if a < j { a } else { a + 1 };
                            let b0 = if b < j { b } else { b + 1 };
                            assert(pre[a0].id != pre[b0].id);
                        }
                    }
                    true
                } else {
                    false
                }
            },
            None => {
                proof {
                    lemma_map_domain(self.entries@, id);
                }
                false
            },
        }
    }

    /// An atomic copy of every row, for the control plane's list view.
    pub fn snapshot(&self) -> (r: Vec<RegistryEntry>)
        ensures
            r@ == self.entries@,
    {
        let mut out: Vec<RegistryEntry> = Vec::new();
        let n = self.entries.len();
        let mut i: usize = 0;
        while i < n
            invariant
                i <= n,
                n == self.entries@.len(),
                out@ == self.entries@.take(i as int),
            decreases n - i,
        {
            out.push(self.entries[i]);
            proof {
                assert(out@ =~= self.entries@.take(i + 1));
            }
            i += 1;
        }
        proof {
            assert(self.entries@.take(n as int) =~= self.entries@);
        }
        out
    }
}

} // verus!
