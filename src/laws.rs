//! Properties of the registry that relate several operations, proved over
//! the model in `state`.
use vstd::prelude::*;

use crate::ident::Address;
use crate::record::{ContractError, EventRecordView};
use crate::state::{add_step, init_step, record_step, remove_step, CoreState};

verus! {

/// One call of a mutating operation.
pub enum Op {
    Init { admin: Address },
    AddIndexer { admin: Address, indexer: Address },
    RemoveIndexer { admin: Address, indexer: Address },
    RecordEvent { indexer: Address, rec: EventRecordView },
}

/// The state after `op`.
pub open spec fn apply(s: CoreState, op: Op) -> CoreState {
    match op {
        Op::Init { admin } => init_step(s, admin).0,
        Op::AddIndexer { admin, indexer } => add_step(s, admin, indexer).0,
        Op::RemoveIndexer { admin, indexer } => remove_step(s, admin, indexer).0,
        Op::RecordEvent { indexer, rec } => record_step(s, indexer, rec).0,
    }
}

/// Whether `op` is a `record_event` that succeeds on `s`.
pub open spec fn records(s: CoreState, op: Op) -> bool {
    match op {
        Op::RecordEvent { indexer, rec } => record_step(s, indexer, rec).1 is Ok,
        _ => false,
    }
}

/// Whether `op` is an `add_indexer` call that names `i`.
pub open spec fn adds(op: Op, i: Address) -> bool {
    op matches Op::AddIndexer { indexer, .. } && indexer == i
}

/// Whether `op` is a `record_event` call in category `category`.
pub open spec fn records_in(op: Op, category: Seq<u8>) -> bool {
    op matches Op::RecordEvent { rec, .. } && rec.event_type == category
}

/// The state after the calls `ops`, one after the other.
pub open spec fn run(s: CoreState, ops: Seq<Op>) -> CoreState
    decreases ops.len(),
{
    if ops.len() == 0 {
        s
    } else {
        run(apply(s, ops[0]), ops.drop_first())
    }
}

/// How many of the calls `ops` are successful `record_event` calls.
pub open spec fn successes(s: CoreState, ops: Seq<Op>) -> nat
    decreases ops.len(),
{
    if ops.len() == 0 {
        0
    } else {
        (if records(s, ops[0]) {
            1nat
        } else {
            0nat
        }) + successes(apply(s, ops[0]), ops.drop_first())
    }
}

/// Every operation keeps the state well formed.
pub proof fn lemma_apply_wf(s: CoreState, op: Op)
    requires
        s.wf(),
    ensures
        apply(s, op).wf(),
{
}

/// A second `init` fails with `AlreadyInitialized` and leaves the state,
/// the administrator included, as the first left it.
pub proof fn law_init_once(s: CoreState, first: Address, second: Address)
    ensures
        init_step(init_step(s, first).0, second) == (
            init_step(s, first).0,
            Err::<(), ContractError>(ContractError::AlreadyInitialized),
        ),
{
}

/// Right after a successful `init`, no identity is an indexer.
pub proof fn law_init_no_indexers(s: CoreState, admin: Address, i: Address)
    requires
        s.admin is None,
    ensures
        !init_step(s, admin).0.is_indexer(i),
{
}

/// The administrator's `add_indexer(admin, i)` makes `i` an indexer, and a
/// following `remove_indexer(admin, i)` makes it none again.
pub proof fn law_add_then_remove(s: CoreState, admin: Address, i: Address)
    requires
        s.admin == Some(admin),
    ensures
        add_step(s, admin, i).1 is Ok,
        add_step(s, admin, i).0.is_indexer(i),
        remove_step(add_step(s, admin, i).0, admin, i).1 is Ok,
        !remove_step(add_step(s, admin, i).0, admin, i).0.is_indexer(i),
{
}

/// An identity that is not an indexer stays none through any calls among
/// which no `add_indexer` names it.
pub proof fn law_not_indexer_until_added(s: CoreState, ops: Seq<Op>, i: Address)
    requires
        s.wf(),
        !s.is_indexer(i),
        forall|k: int| 0 <= k < ops.len() ==> !adds(#[trigger] ops[k], i),
    ensures
        !run(s, ops).is_indexer(i),
    decreases ops.len(),
{
    if ops.len() > 0 {
        let rest = ops.drop_first();
        assert forall|k: int| 0 <= k < rest.len() implies !adds(#[trigger] rest[k], i) by {
            assert(rest[k] == ops[k + 1]);
        }
        lemma_apply_wf(s, ops[0]);
        law_not_indexer_until_added(apply(s, ops[0]), rest, i);
    }
}

/// `add_indexer` and `remove_indexer` by an identity other than the stored
/// administrator fail with `Unauthorized` and change nothing.
pub proof fn law_only_admin_manages(s: CoreState, caller: Address, i: Address)
    requires
        s.admin is Some,
        s.admin != Some(caller),
    ensures
        add_step(s, caller, i) == (s, Err::<(), ContractError>(ContractError::Unauthorized)),
        remove_step(s, caller, i) == (s, Err::<(), ContractError>(ContractError::Unauthorized)),
{
}

/// `record_event` by an identity outside the indexer set fails with
/// `IndexerNotFound` and changes nothing, the counter included.
pub proof fn law_only_indexers_record(s: CoreState, caller: Address, rec: EventRecordView)
    requires
        s.admin is Some,
        !s.is_indexer(caller),
    ensures
        record_step(s, caller, rec) == (s, Err::<u64, ContractError>(ContractError::IndexerNotFound)),
{
}

/// Over any calls, the counter grows by the number of successful
/// `record_event` calls among them, up to the largest `u64`, and never
/// decreases; from a zero counter, as after `init`, it is that number.
pub proof fn law_count(s: CoreState, ops: Seq<Op>)
    requires
        s.wf(),
    ensures
        run(s, ops).count >= s.count,
        run(s, ops).count == if s.count + successes(s, ops) <= u64::MAX {
            s.count + successes(s, ops)
        } else {
            u64::MAX as int
        },
    decreases ops.len(),
{
    if ops.len() > 0 {
        let t = apply(s, ops[0]);
        lemma_apply_wf(s, ops[0]);
        law_count(t, ops.drop_first());
    }
}

/// After two records in the same category, the category's latest record is
/// the second one.
pub proof fn law_latest_is_second(
    s: CoreState,
    indexer: Address,
    first: EventRecordView,
    second: EventRecordView,
)
    requires
        s.admin is Some,
        s.is_indexer(indexer),
        first.event_type == second.event_type,
    ensures
        record_step(record_step(s, indexer, first).0, indexer, second).0.latest.contains_key(
            second.event_type,
        ),
        record_step(record_step(s, indexer, first).0, indexer, second).0.latest[second.event_type]
            == second,
{
}

/// A category that no successful call records has no latest record.
pub proof fn law_unused_category_absent(s: CoreState, ops: Seq<Op>, category: Seq<u8>)
    requires
        !s.latest.contains_key(category),
        forall|k: int| 0 <= k < ops.len() ==> !records_in(#[trigger] ops[k], category),
    ensures
        !run(s, ops).latest.contains_key(category),
    decreases ops.len(),
{
    if ops.len() > 0 {
        let rest = ops.drop_first();
        assert forall|k: int| 0 <= k < rest.len() implies !records_in(#[trigger] rest[k], category) by {
            assert(rest[k] == ops[k + 1]);
        }
        assert(!records_in(ops[0], category));
        law_unused_category_absent(apply(s, ops[0]), rest, category);
    }
}

} // verus!
