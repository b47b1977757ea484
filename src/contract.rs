//! The registry itself: its stored values and its operations.
use vstd::prelude::*;

use crate::ident::{Address, Symbol};
use crate::record::{ContractError, EventRecord, EventRecordView};
use crate::state::{
    add_step, init_step, record_step, remove_step, saturating_inc, CoreState,
};

verus! {

/// No two slots hold records of the same category.
pub open spec fn unique_categories(s: Seq<EventRecord>) -> bool {
    forall|i: int, j: int|
        0 <= i < s.len() && 0 <= j < s.len() && i != j ==> s[i].event_type@ != s[j].event_type@
}

/// Whether some slot holds a record of category `k`.
pub open spec fn has_category(s: Seq<EventRecord>, k: Seq<u8>) -> bool {
    exists|i: int| 0 <= i < s.len() && s[i].event_type@ == k
}

/// The slots as a map from each category to its record.
pub open spec fn slot_map(s: Seq<EventRecord>) -> Map<Seq<u8>, EventRecordView> {
    Map::new(
        |k: Seq<u8>| has_category(s, k),
        |k: Seq<u8>| s[choose|i: int| 0 <= i < s.len() && s[i].event_type@ == k]@,
    )
}

proof fn lemma_slot_at(s: Seq<EventRecord>, i: int)
    requires
        unique_categories(s),
        0 <= i < s.len(),
    ensures
        slot_map(s).contains_key(s[i].event_type@),
        slot_map(s)[s[i].event_type@] == s[i]@,
{
    let k = s[i].event_type@;
    assert(has_category(s, k));
    let j = choose|j: int| 0 <= j < s.len() && s[j].event_type@ == k;
    assert(j == i);
}

proof fn lemma_slot_update(s: Seq<EventRecord>, i: int, r: EventRecord)
    requires
        unique_categories(s),
        0 <= i < s.len(),
        s[i].event_type@ == r.event_type@,
    ensures
        unique_categories(s.update(i, r)),
        slot_map(s.update(i, r)) =~= slot_map(s).insert(r.event_type@, r@),
{
    let t = s.update(i, r);
    assert(unique_categories(t));
    assert forall|k: Seq<u8>| has_category(t, k) <==> has_category(s, k) by {
        if has_category(t, k) {
            let j = choose|j: int| 0 <= j < t.len() && t[j].event_type@ == k;
            assert(s[j].event_type@ == k);
        }
        if has_category(s, k) {
            let j = choose|j: int| 0 <= j < s.len() && s[j].event_type@ == k;
            assert(t[j].event_type@ == k);
        }
    }
    assert forall|k: Seq<u8>| #[trigger] slot_map(t).contains_key(k) implies slot_map(t)[k]
        == slot_map(s).insert(r.event_type@, r@)[k] by {
        let j = choose|j: int| 0 <= j < t.len() && t[j].event_type@ == k;
        lemma_slot_at(t, j);
        lemma_slot_at(s, j);
    }
}

proof fn lemma_slot_push(s: Seq<EventRecord>, r: EventRecord)
    requires
        unique_categories(s),
        !has_category(s, r.event_type@),
    ensures
        unique_categories(s.push(r)),
        slot_map(s.push(r)) =~= slot_map(s).insert(r.event_type@, r@),
{
    let t = s.push(r);
    assert(unique_categories(t));
    assert forall|k: Seq<u8>| has_category(t, k) <==> (has_category(s, k) || k == r.event_type@) by {
        if has_category(t, k) {
            let j = choose|j: int| 0 <= j < t.len() && t[j].event_type@ == k;
            if j < s.len() {
                assert(s[j].event_type@ == k);
            }
        }
        if has_category(s, k) {
            let j = choose|j: int| 0 <= j < s.len() && s[j].event_type@ == k;
            assert(t[j].event_type@ == k);
        }
        if k == r.event_type@ {
            assert(t[s.len() as int].event_type@ == k);
        }
    }
    assert forall|k: Seq<u8>| #[trigger] slot_map(t).contains_key(k) implies slot_map(t)[k]
        == slot_map(s).insert(r.event_type@, r@)[k] by {
        let j = choose|j: int| 0 <= j < t.len() && t[j].event_type@ == k;
        lemma_slot_at(t, j);
        if j < s.len() {
            lemma_slot_at(s, j);
        }
    }
}

proof fn lemma_push_contains(s: Seq<Address>, x: Address, a: Address)
    ensures
        s.push(x).contains(a) <==> (s.contains(a) || a == x),
{
    let t = s.push(x);
    if s.contains(a) {
        let j = choose|j: int| 0 <= j < s.len() && s[j] == a;
        assert(t[j] == a);
    }
    if a == x {
        assert(t[s.len() as int] == a);
    }
    if t.contains(a) {
        let j = choose|j: int| 0 <= j < t.len() && t[j] == a;
        if j < s.len() {
            assert(s[j] == a);
        }
    }
}

/// Stored values from which a registry can be rebuilt.
pub open spec fn restorable(
    admin: Option<Address>,
    indexers: Seq<Address>,
    count: u64,
    latest: Seq<EventRecord>,
) -> bool {
    &&& unique_categories(latest)
    &&& admin is None ==> indexers.len() == 0 && count == 0 && latest.len() == 0
}

/// Whether no two records of `latest` share a category.
fn categories_unique(latest: &Vec<EventRecord>) -> (r: bool)
    ensures
        r == unique_categories(latest@),
{
    let n = latest.len();
    let mut i: usize = 0;
    while i < n
        invariant
            0 <= i <= n,
            n == latest@.len(),
            forall|p: int, q: int| 0 <= p < i && 0 <= q < n && p != q ==> latest@[p].event_type@ != latest@[q].event_type@,
        decreases n - i,
    {
        let mut j: usize = 0;
        while j < n
            invariant
                0 <= i < n,
                0 <= j <= n,
                n == latest@.len(),
                forall|p: int, q: int| 0 <= p < i && 0 <= q < n && p != q ==> latest@[p].event_type@ != latest@[q].event_type@,
                forall|q: int| 0 <= q < j && q != i ==> latest@[i as int].event_type@ != latest@[q].event_type@,
            decreases n - j,
        {
            if j != i && latest[i].event_type.same(&latest[j].event_type) {
                return false;
            }
            j = j + 1;
        }
        i = i + 1;
    }
    true
}

/// The registry of one deployment.
pub struct SoroScanCore {
    admin: Option<Address>,
    indexers: Vec<Address>,
    count: u64,
    latest: Vec<EventRecord>,
}

impl View for SoroScanCore {
    type V = CoreState;

    closed spec fn view(&self) -> CoreState {
        CoreState {
            admin: self.admin,
            indexers: Set::new(|a: Address| self.indexers@.contains(a)),
            count: self.count,
            latest: slot_map(self.latest@),
        }
    }
}

impl SoroScanCore {
    /// The stored values agree with each other.
    pub closed spec fn wf(&self) -> bool {
        &&& unique_categories(self.latest@)
        &&& self@.wf()
    }

    /// A deployment on which nothing has been done yet.
    pub fn new() -> (r: SoroScanCore)
        ensures
            r.wf(),
            r@ == CoreState::empty(),
    {
        let r = SoroScanCore { admin: None, indexers: Vec::new(), count: 0, latest: Vec::new() };
        assert(r@.indexers =~= Set::empty());
        assert(r@.latest =~= Map::empty());
        r
    }

    /// A registry holding the given stored values: `admin`, the members
    /// `indexers`, the counter `count` and the category slots `latest`.
    /// `None` when the values cannot stand together: two slots of one
    /// category, or anything stored beside a missing administrator.
    pub fn restore(
        admin: Option<Address>,
        indexers: Vec<Address>,
        count: u64,
        latest: Vec<EventRecord>,
    ) -> (r: Option<SoroScanCore>)
        ensures
            r is Some <==> restorable(admin, indexers@, count, latest@),
            r matches Some(c) ==> c.wf() && c@ == (CoreState {
                admin,
                indexers: Set::new(|a: Address| indexers@.contains(a)),
                count,
                latest: slot_map(latest@),
            }),
    {
        if admin.is_none() && (indexers.len() != 0 || count != 0 || latest.len() != 0) {
            return None;
        }
        if !categories_unique(&latest) {
            return None;
        }
        let r = SoroScanCore { admin, indexers, count, latest };
        proof {
            if admin is None {
                assert(r@.indexers =~= Set::empty());
                assert(r@.latest =~= Map::empty());
            }
        }
        Some(r)
    }

    /// The members of the indexer set.
    pub fn indexer_list(&self) -> (r: Vec<Address>)
        requires
            self.wf(),
        ensures
            forall|a: Address| r@.contains(a) <==> self@.is_indexer(a),
    {
        let mut r: Vec<Address> = Vec::new();
        let mut i: usize = 0;
        while i < self.indexers.len()
            invariant
                0 <= i <= self.indexers@.len(),
                r@ == self.indexers@.subrange(0, i as int),
            decreases self.indexers@.len() - i,
        {
            r.push(self.indexers[i]);
            assert(r@ =~= self.indexers@.subrange(0, i + 1));
            i = i + 1;
        }
        assert(r@ =~= self.indexers@);
        r
    }

    /// Stores `admin` as the administrator, with no indexers and a zero
    /// counter. Fails with `AlreadyInitialized` if an administrator is stored.
    pub fn init(&mut self, admin: Address) -> (r: Result<(), ContractError>)
        requires
            old(self).wf(),
        ensures
            final(self).wf(),
            (final(self)@, r) == init_step(old(self)@, admin),
    {
        if self.admin.is_some() {
            return Err(ContractError::AlreadyInitialized);
        }
        self.admin = Some(admin);
        self.indexers = Vec::new();
        self.count = 0;
        assert(self@.indexers =~= Set::empty());
        Ok(())
    }

    /// Whether `indexer` is in the indexer set; false before initialization.
    pub fn is_indexer(&self, indexer: &Address) -> (r: bool)
        requires
            self.wf(),
        ensures
            r == self@.is_indexer(*indexer),
    {
        let mut i: usize = 0;
        while i < self.indexers.len()
            invariant
                0 <= i <= self.indexers@.len(),
                forall|j: int| 0 <= j < i ==> self.indexers@[j] != *indexer,
            decreases self.indexers@.len() - i,
        {
            if self.indexers[i].same(indexer) {
                return true;
            }
            i = i + 1;
        }
        false
    }

    /// Checks that `admin` is the stored administrator.
    fn check_admin(&self, admin: &Address) -> (r: Result<(), ContractError>)
        requires
            self.wf(),
        ensures
            r == crate::state::admin_check(self@, *admin),
    {
        match &self.admin {
            None => Err(ContractError::NotInitialized),
            Some(a) => if a.same(admin) {
                Ok(())
            } else {
                Err(ContractError::Unauthorized)
            },
        }
    }

    /// The stored administrator adds `indexer` to the indexer set.
    /// Fails with `NotInitialized` before initialization and with
    /// `Unauthorized` when `admin` is not the stored administrator; the
    /// caller has proven that `admin` authorized the invocation.
    pub fn add_indexer(&mut self, admin: Address, indexer: Address) -> (r: Result<(), ContractError>)
        requires
            old(self).wf(),
        ensures
            final(self).wf(),
            (final(self)@, r) == add_step(old(self)@, admin, indexer),
    {
        match self.check_admin(&admin) {
            Err(e) => return Err(e),
            Ok(_) => {},
        }
        if !self.is_indexer(&indexer) {
            self.indexers.push(indexer);
            proof {
                assert forall|a: Address| self.indexers@.contains(a) <==> (old(self).indexers@.contains(a) || a == indexer) by {
                    lemma_push_contains(old(self).indexers@, indexer, a);
                }
            }
        }
        assert(self@.indexers =~= old(self)@.indexers.insert(indexer));
        Ok(())
    }

    /// The stored administrator removes `indexer` from the indexer set;
    /// removing a non-member succeeds. Fails as `add_indexer` does.
    pub fn remove_indexer(&mut self, admin: Address, indexer: Address) -> (r: Result<(), ContractError>)
        requires
            old(self).wf(),
        ensures
            final(self).wf(),
            (final(self)@, r) == remove_step(old(self)@, admin, indexer),
    {
        match self.check_admin(&admin) {
            Err(e) => return Err(e),
            Ok(_) => {},
        }
        let mut kept: Vec<Address> = Vec::new();
        let mut i: usize = 0;
        while i < self.indexers.len()
            invariant
                0 <= i <= self.indexers@.len(),
                forall|a: Address|
                    kept@.contains(a) <==> (a != indexer && self.indexers@.subrange(0, i as int).contains(a)),
            decreases self.indexers@.len() - i,
        {
            let a = self.indexers[i];
            let ghost before = kept@;
            if !a.same(&indexer) {
                kept.push(a);
            }
            proof {
                assert(self.indexers@.subrange(0, i + 1) =~= self.indexers@.subrange(0, i as int).push(a));
                assert forall|b: Address|
                    kept@.contains(b) <==> (b != indexer && self.indexers@.subrange(0, i + 1).contains(b)) by {
                    lemma_push_contains(self.indexers@.subrange(0, i as int), a, b);
                    lemma_push_contains(before, a, b);
                }
            }
            i = i + 1;
        }
        assert(self.indexers@.subrange(0, self.indexers@.len() as int) =~= self.indexers@);
        self.indexers = kept;
        assert(self@.indexers =~= old(self)@.indexers.remove(indexer));
        Ok(())
    }

    /// The index of the slot holding category `event_type`, if any.
    fn find_slot(&self, event_type: &Symbol) -> (r: Option<usize>)
        requires
            self.wf(),
        ensures
            match r {
                Some(i) => i < self.latest@.len() && self.latest@[i as int].event_type@ == event_type@,
                None => !has_category(self.latest@, event_type@),
            },
    {
        let mut i: usize = 0;
        while i < self.latest.len()
            invariant
                0 <= i <= self.latest@.len(),
                forall|j: int| 0 <= j < i ==> self.latest@[j].event_type@ != event_type@,
            decreases self.latest@.len() - i,
        {
            if self.latest[i].event_type.same(event_type) {
                return Some(i);
            }
            i = i + 1;
        }
        None
    }

    /// An indexer records an event of `contract_id` in category `event_type`
    /// with digest `payload_hash`, at ledger sequence `ledger` and time
    /// `timestamp`. The record replaces the category's previous one, the
    /// counter goes up by one (staying at the largest `u64` once there), and
    /// the new counter is returned. Fails with `NotInitialized` before
    /// initialization and with `IndexerNotFound` when `indexer` is not in the
    /// indexer set; the caller has proven that `indexer` authorized the
    /// invocation.
    pub fn record_event(
        &mut self,
        indexer: Address,
        contract_id: Address,
        event_type: Symbol,
        payload_hash: [u8; 32],
        ledger: u32,
        timestamp: u64,
    ) -> (r: Result<u64, ContractError>)
        requires
            old(self).wf(),
        ensures
            final(self).wf(),
            (final(self)@, r) == record_step(
                old(self)@,
                indexer,
                EventRecordView { contract_id, event_type: event_type@, payload_hash, ledger, timestamp },
            ),
    {
        if self.admin.is_none() {
            return Err(ContractError::NotInitialized);
        }
        if !self.is_indexer(&indexer) {
            return Err(ContractError::IndexerNotFound);
        }
        let slot = self.find_slot(&event_type);
        let record = EventRecord { contract_id, event_type, payload_hash, ledger, timestamp };
        let count = self.count.saturating_add(1);
        assert(count == saturating_inc(old(self).count));
        self.count = count;
        match slot {
            Some(i) => {
                proof {
                    lemma_slot_update(self.latest@, i as int, record);
                }
                self.latest.set(i, record);
            },
            None => {
                proof {
                    lemma_slot_push(self.latest@, record);
                }
                self.latest.push(record);
            },
        }
        Ok(count)
    }

    /// The latest record of category `event_type`, or `None` if no event of
    /// that category has been recorded.
    pub fn latest_by_type(&self, event_type: &Symbol) -> (r: Option<EventRecord>)
        requires
            self.wf(),
        ensures
            match r {
                Some(rec) => self@.latest.contains_key(event_type@) && rec@ == self@.latest[event_type@],
                None => !self@.latest.contains_key(event_type@),
            },
    {
        match self.find_slot(event_type) {
            Some(i) => {
                proof {
                    lemma_slot_at(self.latest@, i as int);
                }
                Some(self.latest[i].duplicate())
            },
            None => None,
        }
    }

    /// How many events have been recorded; zero before initialization.
    pub fn total_events(&self) -> (r: u64)
        requires
            self.wf(),
        ensures
            r == self@.count,
    {
        self.count
    }

    /// The stored administrator, or `None` before initialization.
    pub fn get_admin(&self) -> (r: Option<Address>)
        requires
            self.wf(),
        ensures
            r == self@.admin,
    {
        self.admin
    }
}

} // verus!
