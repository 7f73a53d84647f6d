//! Laws of the sync run, proved over the machine's transition function
//! and the planner's specifications.

use vstd::prelude::*;
use crate::machine::{ActionModel, EventModel, OutcomeModel, PhaseModel, RunModel, next};
use crate::model::RetainedModel;
use crate::planner::{all_keys_present, inv_contains, path_key, plan_spec};

verus! {

/// The actions a run emits from state `r` while fed the events `evs`,
/// in order; a refused event aborts the run, so nothing follows it.
pub open spec fn actions_of(r: RunModel, evs: Seq<EventModel>) -> Seq<ActionModel>
    decreases evs.len(),
{
    if evs.len() == 0 {
        Seq::<ActionModel>::empty()
    } else {
        let stepped = next(r, evs.first());
        match stepped.1 {
            Ok(a) => seq![a] + actions_of(stepped.0, evs.drop_first()),
            Err(_) => Seq::<ActionModel>::empty(),
        }
    }
}

/// An action that mutates storage: an artifact upload or a marker write.
pub open spec fn is_storage_mutation(a: ActionModel) -> bool {
    a is Upload || a is PutState
}

/// An event that reports a build without a rojig artifact, or no build
/// metadata at all.
pub open spec fn no_rojig_event(ev: EventModel) -> bool {
    match ev {
        EventModel::Meta { meta } => meta.rojig is None,
        _ => true,
    }
}

/// A run that has seen no rojig build so far: nothing retained yet, or
/// already finished having found none.
pub open spec fn found_no_rojig(r: RunModel) -> bool {
    match r.phase {
        PhaseModel::AwaitInventory => true,
        PhaseModel::AwaitIndex { .. } => true,
        PhaseModel::Fetching { retained, .. } => retained.len() == 0,
        PhaseModel::Done { outcome } => outcome is NoRojigBuilds,
        _ => false,
    }
}

/// An action such a run is allowed to emit: anything but a storage
/// mutation, and a finish only with the no-rojig-builds report.
pub open spec fn harmless(a: ActionModel) -> bool {
    &&& !is_storage_mutation(a)
    &&& match a {
        ActionModel::Finish { outcome } => outcome is NoRojigBuilds,
        _ => true,
    }
}

/// When none of the inspected builds declares a rojig artifact, the run
/// performs no storage mutation — neither an upload nor a marker write —
/// and the only report it can emit is that no rojig builds were found.
pub proof fn lemma_no_rojig_no_mutation(r: RunModel, evs: Seq<EventModel>)
    requires
        found_no_rojig(r),
        forall|i: int| 0 <= i < evs.len() ==> no_rojig_event(#[trigger] evs[i]),
    ensures
        forall|i: int| 0 <= i < actions_of(r, evs).len() ==> harmless(
            #[trigger] actions_of(r, evs)[i],
        ),
    decreases evs.len(),
{
    if evs.len() > 0 {
        let ev = evs.first();
        let stepped = next(r, ev);
        assert(no_rojig_event(ev));
        match stepped.1 {
            Ok(a) => {
                assert(harmless(a) && found_no_rojig(stepped.0));
                let rest = evs.drop_first();
                assert(forall|i: int| 0 <= i < rest.len() ==> no_rojig_event(#[trigger] rest[i]));
                lemma_no_rojig_no_mutation(stepped.0, rest);
                let acts = actions_of(r, evs);
                assert forall|i: int| 0 <= i < acts.len() implies harmless(acts[i]) by {
                    if i > 0 {
                        assert(acts[i] == actions_of(stepped.0, rest)[i - 1]);
                    }
                }
            },
            Err(_) => {},
        }
    }
}

/// A run that owes no marker write: either it is past the decision with
/// a negative answer, or it is already over.
pub open spec fn marker_settled(r: RunModel) -> bool {
    match r.phase {
        PhaseModel::Uploading { needs, .. } => !needs,
        PhaseModel::Done { .. } => true,
        _ => false,
    }
}

/// Once the marker is known to be current, the rest of the run never
/// writes it, however many artifacts it still uploads.
pub proof fn lemma_settled_no_marker_write(r: RunModel, evs: Seq<EventModel>)
    requires
        marker_settled(r),
    ensures
        forall|i: int| 0 <= i < actions_of(r, evs).len() ==> !((
        #[trigger] actions_of(r, evs)[i]) is PutState),
    decreases evs.len(),
{
    if evs.len() > 0 {
        let ev = evs.first();
        let stepped = next(r, ev);
        match stepped.1 {
            Ok(a) => {
                assert(!(a is PutState) && marker_settled(stepped.0));
                let rest = evs.drop_first();
                lemma_settled_no_marker_write(stepped.0, rest);
                let acts = actions_of(r, evs);
                assert forall|i: int| 0 <= i < acts.len() implies !(acts[i] is PutState) by {
                    if i > 0 {
                        assert(acts[i] == actions_of(stepped.0, rest)[i - 1]);
                    }
                }
            },
            Err(_) => {},
        }
    }
}

/// When the persisted marker already names the last retained build, no
/// marker write occurs for the rest of the run — even if artifacts are
/// still uploaded.
pub proof fn lemma_current_marker_never_rewritten(
    arch: Seq<char>,
    history: u16,
    inv: Seq<Seq<u8>>,
    retained: Seq<RetainedModel>,
    latest: Seq<char>,
    evs: Seq<EventModel>,
)
    ensures
        ({
            let r = RunModel {
                arch,
                history,
                phase: PhaseModel::AwaitState { inv, retained, latest },
            };
            let ev = EventModel::State { marker: Option::Some(latest) };
            let stepped = next(r, ev);
            &&& (stepped.1 matches Ok(a) ==> !(a is PutState))
            &&& forall|i: int| 0 <= i < actions_of(stepped.0, evs).len() ==> !((
            #[trigger] actions_of(stepped.0, evs)[i]) is PutState)
        }),
{
    let r = RunModel { arch, history, phase: PhaseModel::AwaitState { inv, retained, latest } };
    let ev = EventModel::State { marker: Option::Some(latest) };
    let stepped = next(r, ev);
    assert(marker_settled(stepped.0));
    lemma_settled_no_marker_write(stepped.0, evs);
}

/// A history of zero inspects no build at all: whatever the index says,
/// the run finishes at once having found no rojig builds.
pub proof fn lemma_zero_history(r: RunModel, ids: Seq<Seq<char>>)
    requires
        r.history == 0,
        r.phase is AwaitIndex,
    ensures
        next(r, EventModel::Index { ids }).0.phase == (PhaseModel::Done {
            outcome: OutcomeModel::NoRojigBuilds,
        }),
        next(r, EventModel::Index { ids }).1 == Ok::<ActionModel, crate::planner::RunError>(
            ActionModel::Finish { outcome: OutcomeModel::NoRojigBuilds },
        ),
{
}

/// The stream index is fetched only once a complete inventory listing
/// has arrived: the one transition that asks for the index is the one
/// that consumed a listing in which every entry carried a key. A failed
/// or incomplete listing therefore aborts the run before any fetch of
/// the index is requested.
pub proof fn lemma_listing_precedes_index_fetch(r: RunModel, ev: EventModel)
    ensures
        next(r, ev).1 == Ok::<ActionModel, crate::planner::RunError>(ActionModel::FetchIndex)
            ==> (r.phase is AwaitInventory && (ev matches EventModel::Inventory { keys }
            && all_keys_present(keys))),
{
}

/// The plan holds exactly the retained builds whose artifact filename is
/// absent from the inventory.
pub proof fn lemma_plan_membership(
    retained: Seq<RetainedModel>,
    inv: Seq<Seq<u8>>,
    b: RetainedModel,
)
    ensures
        plan_spec(retained, inv).contains(b) <==> (retained.contains(b) && !inv_contains(
            inv,
            path_key(b),
        )),
    decreases retained.len(),
{
    if retained.len() > 0 {
        let rest = retained.drop_last();
        let last = retained.last();
        lemma_plan_membership(rest, inv, b);
        assert(retained.contains(b) <==> (rest.contains(b) || b == last)) by {
            if retained.contains(b) {
                let i = choose|i: int| 0 <= i < retained.len() && retained[i] == b;
                if i < rest.len() {
                    assert(rest[i] == b);
                }
            }
            if rest.contains(b) {
                let i = choose|i: int| 0 <= i < rest.len() && rest[i] == b;
                assert(retained[i] == b);
            }
            if b == last {
                assert(retained[retained.len() - 1] == b);
            }
        }
        let planned = plan_spec(retained, inv);
        let planned_rest = plan_spec(rest, inv);
        assert(planned.contains(b) <==> (planned_rest.contains(b) || (b == last && !inv_contains(
            inv,
            path_key(last),
        )))) by {
            if !inv_contains(inv, path_key(last)) {
                assert(planned == planned_rest.push(last));
                if planned.contains(b) {
                    let i = choose|i: int| 0 <= i < planned.len() && planned[i] == b;
                    if i < planned_rest.len() {
                        assert(planned_rest[i] == b);
                    }
                }
                if planned_rest.contains(b) {
                    let i = choose|i: int| 0 <= i < planned_rest.len() && planned_rest[i] == b;
                    assert(planned[i] == b);
                }
                if b == last {
                    assert(planned[planned.len() - 1] == b);
                }
            }
        }
    }
}

/// Uploading everything the plan names makes a re-run idempotent: any
/// inventory that has grown by at least the planned artifact filenames
/// yields an empty plan for the same retained builds.
pub proof fn lemma_plan_idempotent(
    retained: Seq<RetainedModel>,
    inv: Seq<Seq<u8>>,
    inv2: Seq<Seq<u8>>,
)
    requires
        forall|p: Seq<u8>| inv_contains(inv, p) ==> inv_contains(inv2, p),
        forall|b: RetainedModel| #[trigger] plan_spec(retained, inv).contains(b) ==> inv_contains(
            inv2,
            path_key(b),
        ),
    ensures
        plan_spec(retained, inv2).len() == 0,
    decreases retained.len(),
{
    if retained.len() > 0 {
        let rest = retained.drop_last();
        let last = retained.last();
        let planned = plan_spec(retained, inv);
        let planned_rest = plan_spec(rest, inv);
        assert forall|b: RetainedModel| #[trigger] planned_rest.contains(b) implies inv_contains(
            inv2,
            path_key(b),
        ) by {
            let i = choose|i: int| 0 <= i < planned_rest.len() && planned_rest[i] == b;
            if !inv_contains(inv, path_key(last)) {
                assert(planned == planned_rest.push(last));
            }
            assert(planned[i] == b);
            assert(planned.contains(b));
        }
        lemma_plan_idempotent(rest, inv, inv2);
        if !inv_contains(inv2, path_key(last)) {
            assert(!inv_contains(inv, path_key(last)));
            assert(planned == planned_rest.push(last));
            assert(planned[planned.len() - 1] == last);
            assert(planned.contains(last));
        }
    }
}

} // verus!
