//! How a whole model command goes: what it replays, when its success or failure is recorded and
//! reported, and what recovery takes up again.

use vstd::prelude::*;

use crate::entity::{ModelServiceDesiredState, OperationState, OperationTarget, OperationView};
use crate::identity::{law_sorted_ids, sorted_ids, ModelServiceId, OperationId, PlacementGroupId};
use crate::node_model_compensation::compensated;
use crate::node_model_compensation_outcomes::{
    elsewhere, law_install_reversal_clears_every_group,
    law_replacement_reversal_spares_other_groups, lemma_lifecycle_reversal_only,
    lemma_replacement_reversal_only, rebuilds_of, rebuilds_one, resettles_of, restorations,
    reversing_install, reversing_replacement,
};
use crate::node_model_contract::{
    NodeModelAction, NodeModelCommandIdentityView, NodeModelCommandResultView, NodeModelError,
    NodeModelInstallRequestView, NodeModelJournalState, NodeModelJournalView,
    NodeModelRemovalSelectionView, NodeModelRemoveRequestView, NodeModelUpdateDisposition,
    NodeModelUpdateRequestView, VersionedNodeModelJournalView,
};
use crate::node_model_coordinator::{
    already_succeeded, claimed_resumed, claimed_retried, compensation_retried, executed,
    execution_resumed, failure_settled, journal_advanced, operation_ensured, operation_failed,
    pending_recovered, resulted, resumed, rollback_previewed, rolled_back, succeeded,
    success_unreported, updated,
};
use crate::node_model_execution::{
    all_retained_released, existing_executed, install_executed, intent_stopped,
    replacement_executed, rollback_group_read, rollbacks_read, updates_resolved,
};
use crate::node_model_groups::{all_stopped_reversed, redacted};
use crate::node_model_journal_outcomes::{
    commits, law_rollback_journal_records_the_pairs, law_rollback_spares_other_targets,
    law_rollback_touches_only_its_groups, of_command, reads_are_named,
};
use crate::node_model_laws::{
    join, law_preview_changes_nothing, law_rollback_commits_first, only, reads, reads_or_creation,
};
use crate::node_model_outcomes::{
    every_stopped_reversed, law_pause_stops_every_group, lemma_brought_back, starts_of, stops_of,
};
use crate::node_model_placement_outcomes::{frame_install, frame_rollback_nodes};
use crate::node_model_plan_outcomes::node_bag;
use crate::node_model_planning::{
    existing_prepared, install_prepared, remove_prepared, rollback_planned, rollback_prepared,
    update_planned, update_prepared, RollbackPlanView,
};
use crate::node_model_removal_outcomes::{law_removal_withdraws_exactly_its_groups, removing};
use crate::node_model_replacement_outcomes::{
    every_released, frame_updates, releases_of, replaced_groups,
    stopped_again, stopping_again,
};
use crate::node_model_rules::{assigned_nodes, failure_text};
use crate::node_model_traces::{
    any_call, lemma_store_kept, lemma_widened, moves, store_keeps, Calls,
};
use crate::node_model_world::{NodeModelCall, NodeModelWorld};

verus! {

// ---------------------------------------------------------------------------
// Replays
// ---------------------------------------------------------------------------

/// The journal that a command finds under its operation.
pub open spec fn finds(world: NodeModelWorld, existing: VersionedNodeModelJournalView) -> bool {
    (world.script.read_journal)(world.calls.len()) == Ok::<
        Option<VersionedNodeModelJournalView>,
        NodeModelError,
    >(Some(existing))
}

/// A command that found a journal reads nothing more: it goes on from the journal when this is of
/// the same command, and is in conflict with it otherwise.
pub open spec fn replays(
    world: NodeModelWorld,
    prepared: (NodeModelWorld, Result<VersionedNodeModelJournalView, NodeModelError>),
    operation_id: OperationId,
    existing: VersionedNodeModelJournalView,
    same: bool,
) -> bool {
    &&& prepared.0 == world.after(NodeModelCall::ReadJournal { operation_id })
    &&& prepared.1 == if same {
        Ok(existing)
    } else {
        Err(NodeModelError::JournalConflict)
    }
}

/// An installation is replayed exactly when its journal installs the same groups of the same model
/// for the same service under the same identity.
pub proof fn law_install_replays_itself_only(
    world: NodeModelWorld,
    request: NodeModelInstallRequestView,
    existing: VersionedNodeModelJournalView,
)
    requires
        finds(world, existing),
    ensures
        replays(
            world,
            install_prepared(world, request),
            request.identity.operation_id,
            existing,
            existing.journal.action == NodeModelAction::Install && existing.journal.operation_id
                == request.identity.operation_id && existing.journal.idempotency_key
                == request.identity.idempotency_key && existing.journal.service_id
                == request.service_id && existing.journal.logical_model == request.logical_model
                && existing.journal.install_groups == request.groups,
        ),
{
}

/// An update is replayed exactly when its journal updates the same service under the same identity,
/// every group to the same candidate.
pub proof fn law_update_replays_itself_only(
    world: NodeModelWorld,
    request: NodeModelUpdateRequestView,
    plan: crate::node_model_planning::UpdatePlanView,
    existing: VersionedNodeModelJournalView,
)
    requires
        finds(world, existing),
    ensures
        replays(
            world,
            update_prepared(world, request, plan),
            request.identity.operation_id,
            existing,
            existing.journal.action == NodeModelAction::Update && existing.journal.operation_id
                == request.identity.operation_id && existing.journal.idempotency_key
                == request.identity.idempotency_key && existing.journal.service_id
                == request.service_id && (forall|i: int|
                0 <= i < existing.journal.install_groups.len() ==> (
                #[trigger] existing.journal.install_groups[i]).explicit_candidate_id
                    == request.explicit_candidate_id),
        ),
{
}

/// A removal is replayed exactly when its journal removes the same selection of the same service
/// with the same retention under the same key.
pub proof fn law_removal_replays_itself_only(
    world: NodeModelWorld,
    request: NodeModelRemoveRequestView,
    existing: VersionedNodeModelJournalView,
)
    requires
        finds(world, existing),
    ensures
        replays(
            world,
            remove_prepared(world, request),
            request.identity.operation_id,
            existing,
            existing.journal.action == NodeModelAction::Remove && existing.journal.service_id
                == request.service_id && existing.journal.idempotency_key
                == request.identity.idempotency_key && existing.journal.removal_runtime_retention
                == request.runtime_retention && existing.journal.removal_node_ids
                == match request.selection {
                NodeModelRemovalSelectionView::All => Seq::empty(),
                NodeModelRemovalSelectionView::Nodes(nodes) => nodes,
            },
        ),
{
}

/// A lifecycle command is replayed exactly when its journal takes the same action on the same
/// service under the same key.
pub proof fn law_lifecycle_replays_itself_only(
    world: NodeModelWorld,
    identity: NodeModelCommandIdentityView,
    service_id: ModelServiceId,
    action: NodeModelAction,
    existing: VersionedNodeModelJournalView,
)
    requires
        finds(world, existing),
    ensures
        replays(
            world,
            existing_prepared(world, identity, service_id, action),
            identity.operation_id,
            existing,
            existing.journal.action == action && existing.journal.service_id == service_id
                && existing.journal.idempotency_key == identity.idempotency_key,
        ),
{
}

/// A rollback that finds a journal goes on from it exactly when this rolls the same service back to
/// the same target under the same identity, and is otherwise in conflict with it.
pub proof fn law_rollback_replays_itself_only(
    world: NodeModelWorld,
    claims: Set<OperationId>,
    identity: NodeModelCommandIdentityView,
    service_id: ModelServiceId,
    target_id: Option<Seq<char>>,
    existing: VersionedNodeModelJournalView,
)
    requires
        finds(world, existing),
    ensures
        ({
            let read = world.after(
                NodeModelCall::ReadJournal { operation_id: identity.operation_id },
            );
            rolled_back(world, claims, identity, service_id, target_id) == if {
                &&& existing.journal.action == NodeModelAction::Rollback
                &&& existing.journal.operation_id == identity.operation_id
                &&& existing.journal.idempotency_key == identity.idempotency_key
                &&& existing.journal.service_id == service_id
                &&& existing.journal.rollback_target_id == target_id
            } {
                resumed(read, claims, existing, true)
            } else {
                (read, Err(NodeModelError::JournalConflict))
            }
        }),
{
}

// ---------------------------------------------------------------------------
// What execution does not do
// ---------------------------------------------------------------------------

/// The calls that report on no operation and create no journal.
pub open spec fn working() -> Calls {
    |call: NodeModelCall|
        {
            &&& !(call is BeginOperation)
            &&& !(call is StartOperation)
            &&& !(call is CompleteOperation)
            &&& !(call is CreateJournal)
        }
}

proof fn replacement_works(world: NodeModelWorld, journal: VersionedNodeModelJournalView)
    ensures
        only(world, replacement_executed(world, journal).0, working()),
{
    let after = replacement_executed(world, journal).0;
    let model = journal.journal;
    let a = redacted(world.service(model.service_id));
    every_released(a.0, model, 0);
    let b = all_retained_released(a.0, model, 0);
    lemma_widened(a.0, b.0, releases_of(replaced_groups(model)), working());
    join(world, a.0, b.0, working());
    frame_install(b.0, journal, working());
    let c = install_executed(b.0, journal);
    join(world, b.0, c.0, working());
    if let Ok(done) = c.1 {
        stopped_again(c.0, done);
        let d = intent_stopped(c.0, done);
        lemma_widened(c.0, d.0, stopping_again(done.journal), working());
        join(world, c.0, d.0, working());
    }
}

proof fn existing_works(world: NodeModelWorld, journal: NodeModelJournalView)
    ensures
        only(world, existing_executed(world, journal).0, working()),
{
    let after = existing_executed(world, journal).0;
    let groups = journal.placement_group_ids;
    let sorted = sorted_ids(groups);
    let service = journal.service_id;
    let running = ModelServiceDesiredState::Running;
    if journal.action == NodeModelAction::Pause {
        law_pause_stops_every_group(world, journal);
        lemma_widened(
            world,
            after,
            |call: NodeModelCall|
                stops_of(groups)(call) || moves(call, service, ModelServiceDesiredState::Stopped),
            working(),
        );
    } else if journal.action == NodeModelAction::Resume || journal.action
        == NodeModelAction::Recover {
        let acknowledge = journal.action == NodeModelAction::Recover;
        lemma_brought_back(world, journal, acknowledge);
        lemma_widened(
            world,
            after,
            |call: NodeModelCall|
                starts_of(groups, acknowledge)(call) || moves(call, service, running),
            working(),
        );
    } else if journal.action == NodeModelAction::Restart {
        every_stopped_reversed(world, sorted, sorted.len() as int);
        let a = all_stopped_reversed(world, sorted, sorted.len() as int);
        lemma_widened(world, a.0, stops_of(sorted), working());
        if a.1 is Ok {
            lemma_brought_back(a.0, journal, false);
            lemma_widened(
                a.0,
                after,
                |call: NodeModelCall|
                    starts_of(groups, false)(call) || moves(call, service, running),
                working(),
            );
            join(world, a.0, after, working());
        }
    } else if journal.action == NodeModelAction::Remove {
        law_removal_withdraws_exactly_its_groups(world, journal);
        lemma_widened(world, after, removing(journal), working());
    }
}

proof fn rollback_reads_work(world: NodeModelWorld, journal: NodeModelJournalView, at: int)
    ensures
        only(world, rollbacks_read(world, journal, at).0, working()),
    decreases journal.install_groups.len() - at,
{
    if 0 <= at < journal.install_groups.len() {
        let index = at as usize;
        if index < journal.install_groups.len() {
            frame_rollback_nodes(
                world,
                journal,
                index,
                journal.install_groups[index as int],
                0,
                Seq::empty(),
                working(),
            );
        }
        let a = rollback_group_read(world, journal, index);
        if a.1 is Ok {
            rollback_reads_work(a.0, journal, at + 1);
            join(world, a.0, rollbacks_read(a.0, journal, at + 1).0, working());
        }
    }
}

/// Executing a command reports on no operation and creates no journal.
pub proof fn law_execution_reports_nothing(
    world: NodeModelWorld,
    journal: VersionedNodeModelJournalView,
)
    ensures
        only(world, executed(world, journal).0, working()),
{
    let after = executed(world, journal).0;
    match journal.journal.action {
        NodeModelAction::Install => {
            frame_install(world, journal, working());
        },
        NodeModelAction::Update => {
            let count = journal.journal.install_groups.len() as int;
            frame_updates(world, journal, 0, count, working());
            let a = updates_resolved(world, journal, 0, count);
            if let Ok(resolved) = a.1 {
                replacement_works(a.0, resolved);
                join(world, a.0, after, working());
            }
        },
        NodeModelAction::Rollback => {
            rollback_reads_work(world, journal.journal, 0);
            let a = rollbacks_read(world, journal.journal, 0);
            if a.1 is Ok {
                replacement_works(a.0, journal);
                join(world, a.0, after, working());
            }
        },
        _ => {
            existing_works(world, journal.journal);
        },
    }
}

// ---------------------------------------------------------------------------
// Success and failure
// ---------------------------------------------------------------------------

/// One journal is another that reached a state, perhaps later, and is the same in all else.
pub open spec fn reaches(
    before: NodeModelJournalView,
    after: NodeModelJournalView,
    state: NodeModelJournalState,
    failure_code: Option<Seq<char>>,
) -> bool {
    &&& after.state == state
    &&& after.failure_code == failure_code
    &&& after == NodeModelJournalView {
        state: after.state,
        failure_code: after.failure_code,
        updated_at: after.updated_at,
        ..before
    }
}

/// One call writes the journal of a command in a state.
pub open spec fn writes(
    call: NodeModelCall,
    before: VersionedNodeModelJournalView,
    state: NodeModelJournalState,
    failure_code: Option<Seq<char>>,
) -> bool {
    call matches NodeModelCall::ReplaceJournal { journal, expected_revision } && expected_revision
        == before.revision && reaches(before.journal, journal, state, failure_code)
}

/// One call reports how an operation ended.
pub open spec fn reports(call: NodeModelCall, operation_id: OperationId, success: bool) -> bool {
    call matches NodeModelCall::CompleteOperation { operation_id: reported, completion, .. }
        && reported == operation_id && (if success {
        completion is Succeeded
    } else {
        completion is Failed
    })
}

/// The calls that record an end in the journal and report it, beside those that change nothing.
pub open spec fn closing(
    before: VersionedNodeModelJournalView,
    state: NodeModelJournalState,
    failure_code: Option<Seq<char>>,
    success: bool,
) -> Calls {
    |call: NodeModelCall|
        {
            ||| !call.mutates()
            ||| writes(call, before, state, failure_code)
            ||| reports(call, before.journal.operation_id, success)
        }
}

/// Nothing is reported from one position on unless the journal says so: it did before, or was
/// written in between.
pub open spec fn recorded_before_reported(
    world: NodeModelWorld,
    from: nat,
    before: VersionedNodeModelJournalView,
    state: NodeModelJournalState,
    failure_code: Option<Seq<char>>,
) -> bool {
    forall|at: int|
        from <= at < world.calls.len() && (#[trigger] world.calls[at]) is CompleteOperation ==> {
            ||| before.journal.state == state && before.journal.failure_code == failure_code
            ||| exists|i: int|
                from <= i < at && writes(#[trigger] world.calls[i], before, state, failure_code)
                    && (world.script.replace_journal)(i as nat) is Ok
        }
}

/// The operation as one call shows it to have succeeded: it is read so, or reported so.
pub open spec fn shown_succeeded(
    world: NodeModelWorld,
    at: int,
    operation_id: OperationId,
    operation: OperationView,
) -> bool {
    ||| {
        &&& world.calls[at] == (NodeModelCall::Operation { operation_id })
        &&& (world.script.operation)(at as nat) matches Ok(Some(read))
        &&& read.operation == operation
        &&& operation.state == OperationState::Succeeded
    }
    ||| {
        &&& reports(world.calls[at], operation_id, true)
        &&& (world.script.complete_operation)(at as nat) matches Ok(completed)
        &&& completed.operation == operation
    }
}

/// Closing a command that was executed records its success in the journal before it is reported,
/// changes nothing else, and answers with the journal so recorded, the operation as it was shown to
/// have succeeded, and the service as it was read at the end.
pub proof fn law_success_is_recorded_before_it_is_reported(
    world: NodeModelWorld,
    journal: VersionedNodeModelJournalView,
)
    requires
        store_keeps(succeeded(world, journal).0),
    ensures
        ({
            let (after, result) = succeeded(world, journal);
            let from = world.calls.len();
            let state = NodeModelJournalState::Succeeded;
            let operation_id = journal.journal.operation_id;
            &&& only(world, after, closing(journal, state, None, true))
            &&& recorded_before_reported(after, from, journal, state, None)
            &&& result matches Ok(result) ==> {
                &&& reaches(journal.journal, result.journal.journal, state, None)
                &&& exists|at: int|
                    from <= at < after.calls.len() && #[trigger] shown_succeeded(
                        after,
                        at,
                        operation_id,
                        result.operation,
                    )
                &&& after.calls.last() == (NodeModelCall::Service {
                    service_id: journal.journal.service_id,
                })
                &&& (after.script.service)((after.calls.len() - 1) as nat) matches Ok(read)
                &&& read.service == result.service
            }
        }),
{
    let (after, result) = succeeded(world, journal);
    let from = world.calls.len() as int;
    let state = NodeModelJournalState::Succeeded;
    let operation_id = journal.journal.operation_id;
    let a = journal_advanced(world, journal, state, None);
    let told = journal.journal.state == state && journal.journal.failure_code is None;
    if !told && a.0.calls.len() > from + 1 {
        assert(writes(a.0.calls[from + 1], journal, state, None));
        assert(after.calls[from + 1] == a.0.calls[from + 1]);
        assert(store_keeps(after));
        if a.1 is Ok {
            assert(reaches(journal.journal, a.1->Ok_0.journal, state, None));
        }
    }
    if let Ok(recorded) = a.1 {
        assert(recorded.journal.operation_id == operation_id);
        let start = a.0.calls.len() as int;
        if let Ok(result) = result {
            if after.calls.len() == start + 2 {
                assert(shown_succeeded(after, start, operation_id, result.operation));
            } else {
                assert(shown_succeeded(after, start + 2, operation_id, result.operation));
            }
        }
    }
}

/// A command succeeds, or is reported to have, only when it was executed to the end.
pub proof fn law_success_needs_execution(
    world: NodeModelWorld,
    journal: VersionedNodeModelJournalView,
    compensate_on_failure: bool,
)
    requires
        store_keeps(execution_resumed(world, journal, compensate_on_failure).0),
    ensures
        ({
            let (after, result) = execution_resumed(world, journal, compensate_on_failure);
            let from = world.calls.len();
            let begun = journal_advanced(world, journal, NodeModelJournalState::Executing, None);
            (result is Ok || exists|at: int|
                from <= at < after.calls.len() && #[trigger] reports_success(after.calls[at])) ==> {
                &&& begun.1 matches Ok(running)
                &&& running.journal.state == NodeModelJournalState::Executing
                &&& executed(begun.0, running).1 is Ok
            }
        }),
{
    let (after, result) = execution_resumed(world, journal, compensate_on_failure);
    let from = world.calls.len();
    let state = NodeModelJournalState::Executing;
    let a = journal_advanced(world, journal, state, None);
    if let Ok(running) = a.1 {
        lemma_execution_extends(world, journal, compensate_on_failure);
        let at = a.0.calls.len() as int - 1;
        if a.0.calls.len() > from {
            assert(after.calls[at] == a.0.calls[at]);
        }
        assert(reaches(journal.journal, running.journal, state, None));
        law_execution_reports_nothing(a.0, running);
        let b = executed(a.0, running);
        if b.1 is Err {
            let failure = b.1->Err_0;
            join(world, a.0, b.0, working());
            assert forall|i: int| from <= i < after.calls.len() implies !(
            #[trigger] reports_success(after.calls[i])) by {
                if compensate_on_failure {
                    lemma_failure_reports_no_success(b.0, running.journal.operation_id, failure);
                    if i < b.0.calls.len() {
                        assert(after.calls[i] == b.0.calls[i]);
                        assert(working()(b.0.calls[i]));
                    }
                } else {
                    assert(working()(b.0.calls[i]));
                }
            }
        }
    } else {
        assert forall|i: int| from <= i < after.calls.len() implies !(
        #[trigger] reports_success(after.calls[i])) by {}
    }
}

/// One call reports that an operation succeeded.
pub open spec fn reports_success(call: NodeModelCall) -> bool {
    call matches NodeModelCall::CompleteOperation { completion, .. } && completion is Succeeded
}

/// The calls that report no success.
pub open spec fn unsuccessful() -> Calls {
    |call: NodeModelCall| !reports_success(call)
}

proof fn lemma_failure_reports_no_success(
    world: NodeModelWorld,
    operation_id: OperationId,
    failure: NodeModelError,
)
    ensures
        only(world, failure_settled(world, operation_id, failure).0, unsuccessful()),
{
    let after = failure_settled(world, operation_id, failure).0;
    let a = world.read_journal(operation_id);
    if let Ok(Some(latest)) = a.1 {
        lemma_compensation_works(a.0, latest.journal);
        let b = compensated(a.0, latest.journal);
        lemma_widened(a.0, b.0, working(), unsuccessful());
        join(world, a.0, b.0, unsuccessful());
        let state = if b.1 is Ok {
            NodeModelJournalState::Failed
        } else {
            NodeModelJournalState::CleanupPending
        };
        let c = journal_advanced(b.0, latest, state, Some(failure_text(failure)));
        assert(only(b.0, c.0, unsuccessful()));
        join(world, b.0, c.0, unsuccessful());
        if let Ok(failed) = c.1 {
            let d = operation_failed(c.0, failed.journal);
            assert(only(c.0, d.0, unsuccessful()));
            join(world, c.0, d.0, unsuccessful());
        }
    }
}

proof fn lemma_execution_extends(
    world: NodeModelWorld,
    journal: VersionedNodeModelJournalView,
    compensate_on_failure: bool,
)
    ensures
        ({
            let after = execution_resumed(world, journal, compensate_on_failure).0;
            let a = journal_advanced(world, journal, NodeModelJournalState::Executing, None);
            &&& only(world, after, any_call())
            &&& only(a.0, after, any_call())
        }),
{
    let after = execution_resumed(world, journal, compensate_on_failure).0;
    let a = journal_advanced(world, journal, NodeModelJournalState::Executing, None);
    assert(only(world, a.0, any_call()));
    if let Ok(running) = a.1 {
        law_execution_reports_nothing(a.0, running);
        let b = executed(a.0, running);
        lemma_widened(a.0, b.0, working(), any_call());
        match b.1 {
            Ok(done) => {
                let c = succeeded(b.0, done);
                assert(only(b.0, c.0, any_call()));
                join(a.0, b.0, after, any_call());
            },
            Err(failure) => {
                if compensate_on_failure {
                    lemma_failure_reports_no_success(b.0, running.journal.operation_id, failure);
                    lemma_widened(b.0, after, unsuccessful(), any_call());
                    join(a.0, b.0, after, any_call());
                }
            },
        }
        join(world, a.0, after, any_call());
    }
}

proof fn lemma_compensation_works(world: NodeModelWorld, journal: NodeModelJournalView)
    ensures
        only(world, compensated(world, journal).0, working()),
{
    let after = compensated(world, journal).0;
    match journal.action {
        NodeModelAction::Install => {
            law_install_reversal_clears_every_group(world, journal);
            lemma_widened(world, after, reversing_install(journal), working());
        },
        NodeModelAction::Update => {
            lemma_replacement_reversal_only(world, journal);
            lemma_reversing_works(journal);
            lemma_widened(world, after, reversing_replacement(journal), working());
        },
        NodeModelAction::Rollback => {
            lemma_replacement_reversal_only(world, journal);
            lemma_reversing_works(journal);
            lemma_widened(world, after, reversing_replacement(journal), working());
        },
        NodeModelAction::Remove => {},
        _ => {
            lemma_lifecycle_reversal_only(world, journal);
            lemma_widened(
                world,
                after,
                |call: NodeModelCall|
                    resettles_of(journal.initial_group_states)(call) || call is TransitionService,
                working(),
            );
        },
    }
}

proof fn lemma_reversing_works(journal: NodeModelJournalView)
    ensures
        forall|call: NodeModelCall| #[trigger]
            reversing_replacement(journal)(call) ==> working()(call),
{
    assert forall|call: NodeModelCall| #[trigger]
        reversing_replacement(journal)(call) implies working()(call) by {
        if call.mutates() && rebuilds_of(journal)(call) {
            let j = choose|j: int|
                0 <= j < journal.retained_groups.len() && #[trigger] rebuilds_one(
                    journal.service_id,
                    journal.retained_groups[j],
                )(call);
        }
    }
}

/// The end of a command whose execution failed: it failed cleanly when it could be reversed, and
/// otherwise needs a cleanup.
pub open spec fn failed_state(reversed: bool) -> NodeModelJournalState {
    if reversed {
        NodeModelJournalState::Failed
    } else {
        NodeModelJournalState::CleanupPending
    }
}

/// A failed command is reversed as its journal stands, and nothing but that journal's end and the
/// failed operation is written afterwards: the journal says whether the reversal succeeded, and with
/// which failure, before anything is reported. The failure itself is answered only when the command
/// was reversed; when it was not, the answer is that a recovery is required.
pub proof fn law_failure_is_reversed_and_recorded(
    world: NodeModelWorld,
    operation_id: OperationId,
    failure: NodeModelError,
    latest: VersionedNodeModelJournalView,
)
    requires
        finds(world, latest),
        store_keeps(failure_settled(world, operation_id, failure).0),
    ensures
        ({
            let (after, result) = failure_settled(world, operation_id, failure);
            let (undone, reversed) = compensated(
                world.after(NodeModelCall::ReadJournal { operation_id }),
                latest.journal,
            );
            let state = failed_state(reversed is Ok);
            let code = Some(failure_text(failure));
            let (recorded, stored) = journal_advanced(undone, latest, state, code);
            &&& only(undone, after, closing(latest, state, code, false))
            &&& recorded_before_reported(after, undone.calls.len(), latest, state, code)
            &&& stored matches Ok(stored) ==> {
                &&& reaches(latest.journal, stored.journal, state, code)
                &&& operation_failed(recorded, stored.journal).1 is Ok ==> result == Err::<
                    NodeModelCommandResultView,
                    NodeModelError,
                >(
                    if reversed is Ok {
                        failure
                    } else {
                        NodeModelError::RecoveryRequired
                    },
                )
            }
        }),
{
    let (after, result) = failure_settled(world, operation_id, failure);
    let a = world.after(NodeModelCall::ReadJournal { operation_id });
    let b = compensated(a, latest.journal);
    let state = failed_state(b.1 is Ok);
    let code = Some(failure_text(failure));
    lemma_closed(b.0, latest, state, code, after);
}

proof fn lemma_closed(
    world: NodeModelWorld,
    before: VersionedNodeModelJournalView,
    state: NodeModelJournalState,
    code: Option<Seq<char>>,
    after: NodeModelWorld,
)
    requires
        ({
            let a = journal_advanced(world, before, state, code);
            after == match a.1 {
                Err(_) => a.0,
                Ok(recorded) => operation_failed(a.0, recorded.journal).0,
            }
        }),
        store_keeps(after),
    ensures
        only(world, after, closing(before, state, code, false)),
        recorded_before_reported(after, world.calls.len(), before, state, code),
        journal_advanced(world, before, state, code).1 matches Ok(stored) ==> reaches(
            before.journal,
            stored.journal,
            state,
            code,
        ),
{
    let from = world.calls.len() as int;
    let a = journal_advanced(world, before, state, code);
    let told = before.journal.state == state && before.journal.failure_code == code;
    if !told && a.0.calls.len() > from + 1 {
        assert(writes(a.0.calls[from + 1], before, state, code));
        assert(after.calls[from + 1] == a.0.calls[from + 1]);
        if a.1 is Ok {
            assert(reaches(before.journal, a.1->Ok_0.journal, state, code));
        }
    }
    if let Ok(recorded) = a.1 {
        assert(reaches(before.journal, recorded.journal, state, code));
        assert(recorded.journal.operation_id == before.journal.operation_id);
    }
}

// ---------------------------------------------------------------------------
// Cleanups
// ---------------------------------------------------------------------------

/// A cleanup that is pending reverses its command as the journal stands; the command is recorded as
/// rolled back, and its operation reported as failed, only when the reversal succeeded. A command
/// that needs no cleanup is only read.
pub proof fn law_cleanup_rolls_back(
    world: NodeModelWorld,
    operation_id: OperationId,
    current: VersionedNodeModelJournalView,
)
    requires
        finds(world, current),
        store_keeps(claimed_retried(world, operation_id).0),
    ensures
        ({
            let (after, result) = claimed_retried(world, operation_id);
            let read = world.after(NodeModelCall::ReadJournal { operation_id });
            let (undone, reversed) = compensated(read, current.journal);
            let state = NodeModelJournalState::RolledBack;
            if current.journal.state != NodeModelJournalState::CleanupPending {
                &&& only(world, after, |call: NodeModelCall| !call.mutates())
                &&& result matches Ok(result) ==> result.journal == current
            } else if reversed is Err {
                after == undone && result is Err
            } else {
                &&& only(undone, after, closing(current, state, None, false))
                &&& recorded_before_reported(after, undone.calls.len(), current, state, None)
                &&& result matches Ok(result) ==> reaches(
                    current.journal,
                    result.journal.journal,
                    state,
                    None,
                )
            }
        }),
{
    let (after, result) = claimed_retried(world, operation_id);
    let read = world.after(NodeModelCall::ReadJournal { operation_id });
    let state = NodeModelJournalState::RolledBack;
    if current.journal.state == NodeModelJournalState::CleanupPending {
        let b = compensated(read, current.journal);
        if b.1 is Ok {
            let c = journal_advanced(b.0, current, state, None);
            if let Ok(recorded) = c.1 {
                let d = operation_failed(c.0, recorded.journal);
                let quiet = |call: NodeModelCall| !call.mutates();
                assert(only(d.0, after, quiet));
                assert(store_keeps(d.0)) by {
                    lemma_widened(d.0, after, quiet, any_call());
                    lemma_store_kept(d.0, after);
                }
                lemma_closed(b.0, current, state, None, d.0);
                let closes = closing(current, state, None, false);
                lemma_widened(d.0, after, quiet, closes);
                join(b.0, d.0, after, closes);
                assert forall|at: int|
                    b.0.calls.len() <= at < after.calls.len() && (
                    #[trigger] after.calls[at]) is CompleteOperation implies {
                    ||| current.journal.state == state && current.journal.failure_code is None
                    ||| exists|i: int|
                        b.0.calls.len() <= i < at && writes(
                            #[trigger] after.calls[i],
                            current,
                            state,
                            None,
                        ) && (after.script.replace_journal)(i as nat) is Ok
                } by {
                    if at < d.0.calls.len() {
                        assert(after.calls[at] == d.0.calls[at]);
                        let i = choose|i: int|
                            b.0.calls.len() <= i < at && writes(
                                #[trigger] d.0.calls[i],
                                current,
                                state,
                                None,
                            ) && (d.0.script.replace_journal)(i as nat) is Ok;
                        assert(after.calls[i] == d.0.calls[i]);
                    } else {
                        assert(quiet(after.calls[at]));
                    }
                }
            } else {
                lemma_closed(b.0, current, state, None, after);
            }
        }
    }
}

// ---------------------------------------------------------------------------
// Summaries
// ---------------------------------------------------------------------------

/// An update that changes nothing says why: no group is outdated, or only a preview was asked for.
/// It counts the outdated groups, and one that has outdated groups and is no preview is executed.
pub proof fn law_update_summary_counts_the_plan(
    world: NodeModelWorld,
    claims: Set<OperationId>,
    request: NodeModelUpdateRequestView,
)
    requires
        (world.script.read_journal)(world.calls.len()) == Ok::<
            Option<VersionedNodeModelJournalView>,
            NodeModelError,
        >(None),
    ensures
        updated(world, claims, request).1 matches Ok(summary) ==> {
            let read = world.after(
                NodeModelCall::ReadJournal { operation_id: request.identity.operation_id },
            );
            let (planned, plan) = update_planned(
                read,
                request.service_id,
                request.explicit_candidate_id,
            );
            &&& plan matches Ok(plan)
            &&& summary.service_id == plan.service.service_id
            &&& summary.logical_model == plan.service.logical_model
            &&& summary.placement_group_count == plan.groups.len()
            &&& (summary.disposition == NodeModelUpdateDisposition::Current) == (plan.groups.len()
                == 0)
            &&& (summary.disposition == NodeModelUpdateDisposition::UpdateAvailable) == (
            plan.groups.len() > 0 && request.dry_run)
            &&& (summary.disposition == NodeModelUpdateDisposition::Updated) == (plan.groups.len()
                > 0 && !request.dry_run)
            &&& summary.command is Some <==> summary.disposition
                == NodeModelUpdateDisposition::Updated
            &&& summary.command is None ==> updated(world, claims, request).0 == planned
        },
{
}

/// A rollback preview shows the pairs of the plan, in order: the current group and its predecessor
/// with their runtimes, on the nodes of the current one.
pub proof fn law_rollback_preview_shows_the_pairs(
    world: NodeModelWorld,
    service_id: ModelServiceId,
    target_id: Option<Seq<char>>,
)
    ensures
        rollback_previewed(world, service_id, target_id).0 == rollback_planned(
            world,
            service_id,
            target_id,
        ).0,
        rollback_previewed(world, service_id, target_id).1 is Ok <==> rollback_planned(
            world,
            service_id,
            target_id,
        ).1 is Ok,
        rollback_previewed(world, service_id, target_id).1 matches Ok(preview) ==> {
            let plan = rollback_planned(world, service_id, target_id).1->Ok_0;
            &&& preview.service_id == plan.service.service_id
            &&& preview.logical_model == plan.service.logical_model
            &&& preview.target_id == plan.target_id
            &&& preview.groups.len() == plan.pairs.len()
            &&& forall|i: int|
                0 <= i < preview.groups.len() ==> {
                    let pair = plan.pairs[i];
                    let shown = #[trigger] preview.groups[i];
                    &&& shown.current_group_id == pair.current.group.placement_group_id
                    &&& shown.previous_group_id == pair.previous.group.placement_group_id
                    &&& shown.node_ids.to_multiset() == node_bag(pair.current.placements)
                    &&& shown.current.candidate_id == pair.current.group.runtime.candidate_id
                    &&& shown.current.version == pair.current.group.runtime.version
                    &&& shown.current.target_id == pair.current.group.runtime.target_id
                    &&& shown.previous.candidate_id == pair.previous.group.runtime.candidate_id
                    &&& shown.previous.version == pair.previous.group.runtime.version
                    &&& shown.previous.target_id == pair.previous.group.runtime.target_id
                }
        },
{
    if let Ok(preview) = rollback_previewed(world, service_id, target_id).1 {
        let plan = rollback_planned(world, service_id, target_id).1->Ok_0;
        assert forall|i: int| 0 <= i < preview.groups.len() implies (
        #[trigger] preview.groups[i]).node_ids.to_multiset() == node_bag(
            plan.pairs[i].current.placements,
        ) by {
            let placements = plan.pairs[i].current.placements;
            law_sorted_ids(assigned_nodes(placements));
            assert(assigned_nodes(placements) =~= Seq::new(
                placements.len(),
                |p: int| placements[p].node_id,
            ));
        }
    }
}

// ---------------------------------------------------------------------------
// Operations
// ---------------------------------------------------------------------------

/// One call shows that the operation of a command is under way: it is read so for the same kind of
/// command on the same service, is begun so, or is started.
pub open spec fn under_way_at(
    world: NodeModelWorld,
    at: int,
    journal: NodeModelJournalView,
) -> bool {
    let operation_id = journal.operation_id;
    ||| {
        &&& world.calls[at] == (NodeModelCall::Operation { operation_id })
        &&& (world.script.operation)(at as nat) matches Ok(Some(read))
        &&& read.operation.kind == journal.action.kind()
        &&& read.operation.target == OperationTarget::ModelService(journal.service_id)
        &&& read.operation.state == OperationState::Running || read.operation.state
            == OperationState::Succeeded
    }
    ||| {
        &&& world.calls[at] is BeginOperation
        &&& (world.script.begin_operation)(at as nat) matches Ok(begun)
        &&& begun.operation.state == OperationState::Running || begun.operation.state
            == OperationState::Succeeded
    }
    ||| world.calls[at] is StartOperation && (world.script.start_operation)(at as nat) is Ok
}

/// The calls that announce the operation of a command, beside those that change nothing.
pub open spec fn announcing(journal: NodeModelJournalView) -> Calls {
    |call: NodeModelCall|
        match call {
            NodeModelCall::BeginOperation { operation_id, kind, target, created_at, .. } => {
                &&& operation_id == journal.operation_id
                &&& kind == journal.action.kind()
                &&& target == OperationTarget::ModelService(journal.service_id)
                &&& created_at == journal.created_at
            },
            NodeModelCall::StartOperation { operation_id, .. } => operation_id
                == journal.operation_id,
            _ => !call.mutates(),
        }
}

/// Announcing a command begins and starts no operation but its own, of its kind and on its service,
/// and succeeds only when the operation was shown to be under way.
pub proof fn law_operation_is_announced(world: NodeModelWorld, journal: NodeModelJournalView)
    ensures
        ({
            let (after, result) = operation_ensured(world, journal);
            &&& only(world, after, announcing(journal))
            &&& result is Ok ==> exists|at: int|
                world.calls.len() <= at < after.calls.len() && #[trigger] under_way_at(
                    after,
                    at,
                    journal,
                )
        }),
{
    let (after, result) = operation_ensured(world, journal);
    let first = world.calls.len() as int;
    if result is Ok {
        if after.calls.len() == first + 1 {
            assert(under_way_at(after, first, journal));
        } else if after.calls.last() is BeginOperation {
            assert(under_way_at(after, after.calls.len() as int - 1, journal));
        } else {
            assert(after.calls.last() is StartOperation);
            assert(under_way_at(after, after.calls.len() as int - 1, journal));
        }
    }
}

/// A command changes nothing before its operation was shown to be under way: every change but the
/// announcement itself comes later.
pub proof fn law_nothing_changes_unannounced(
    world: NodeModelWorld,
    operation_id: OperationId,
    compensate_on_failure: bool,
    journal: VersionedNodeModelJournalView,
)
    requires
        finds(world, journal),
        journal.journal.state != NodeModelJournalState::Succeeded,
    ensures
        ({
            let after = claimed_resumed(world, operation_id, compensate_on_failure).0;
            forall|at: int|
                world.calls.len() <= at < after.calls.len() && (
                #[trigger] after.calls[at]).mutates() ==> announcing(journal.journal)(
                    after.calls[at],
                ) || exists|i: int|
                    world.calls.len() <= i < at && #[trigger] under_way_at(
                        after,
                        i,
                        journal.journal,
                    )
        }),
{
    let after = claimed_resumed(world, operation_id, compensate_on_failure).0;
    let model = journal.journal;
    let from = world.calls.len();
    let a = world.read_journal(operation_id);
    law_operation_is_announced(a.0, model);
    let b = operation_ensured(a.0, model);
    join(world, a.0, b.0, announcing(model));
    if let Ok(operation) = b.1 {
        let i = choose|i: int|
            a.0.calls.len() <= i < b.0.calls.len() && #[trigger] under_way_at(b.0, i, model);
        lemma_execution_extends(b.0, journal, compensate_on_failure);
        assert(only(b.0, resulted(b.0, journal).0, any_call()));
        assert(only(b.0, after, any_call()));
        assert(after.calls[i] == b.0.calls[i]);
        assert(under_way_at(after, i, model));
    }
    assert forall|at: int|
        from <= at < after.calls.len() && (#[trigger] after.calls[at]).mutates() implies announcing(
        model,
    )(after.calls[at]) || exists|i: int|
        from <= i < at && #[trigger] under_way_at(after, i, model) by {
        if at < b.0.calls.len() {
            assert(after.calls[at] == b.0.calls[at]);
            assert(announcing(model)(b.0.calls[at]));
        }
    }
}

// ---------------------------------------------------------------------------
// Recovery
// ---------------------------------------------------------------------------

proof fn lemma_resumed_extends(
    world: NodeModelWorld,
    operation_id: OperationId,
    compensate_on_failure: bool,
)
    ensures
        only(
            world,
            claimed_resumed(world, operation_id, compensate_on_failure).0,
            any_call(),
        ),
        claimed_resumed(world, operation_id, compensate_on_failure).0.calls.len()
            > world.calls.len(),
        claimed_resumed(world, operation_id, compensate_on_failure).0.calls[world.calls.len() as int]
            == (NodeModelCall::ReadJournal { operation_id }),
{
    let after = claimed_resumed(world, operation_id, compensate_on_failure).0;
    let a = world.read_journal(operation_id);
    if let Ok(Some(journal)) = a.1 {
        if journal.journal.state == NodeModelJournalState::Succeeded {
            assert(only(a.0, succeeded(a.0, journal).0, any_call()));
        } else {
            let b = operation_ensured(a.0, journal.journal);
            assert(only(a.0, b.0, any_call()));
            if b.1 is Ok {
                lemma_execution_extends(b.0, journal, compensate_on_failure);
                assert(only(b.0, resulted(b.0, journal).0, any_call()));
                join(a.0, b.0, after, any_call());
            }
        }
        join(world, a.0, after, any_call());
    }
}

proof fn lemma_retried_extends(world: NodeModelWorld, operation_id: OperationId)
    ensures
        only(world, claimed_retried(world, operation_id).0, any_call()),
        claimed_retried(world, operation_id).0.calls.len() > world.calls.len(),
        claimed_retried(world, operation_id).0.calls[world.calls.len() as int] == (
        NodeModelCall::ReadJournal { operation_id }),
{
    let after = claimed_retried(world, operation_id).0;
    let a = world.read_journal(operation_id);
    if let Ok(Some(current)) = a.1 {
        if current.journal.state != NodeModelJournalState::CleanupPending {
            assert(only(a.0, resulted(a.0, current).0, any_call()));
        } else {
            lemma_compensation_works(a.0, current.journal);
            let b = compensated(a.0, current.journal);
            lemma_widened(a.0, b.0, working(), any_call());
            if b.1 is Ok {
                let c = journal_advanced(b.0, current, NodeModelJournalState::RolledBack, None);
                assert(only(b.0, c.0, any_call()));
                join(a.0, b.0, c.0, any_call());
                if let Ok(recovered) = c.1 {
                    let d = operation_failed(c.0, recovered.journal);
                    assert(only(c.0, d.0, any_call()));
                    join(a.0, c.0, d.0, any_call());
                    assert(only(d.0, resulted(d.0, recovered).0, any_call()));
                    if d.1 is Ok {
                        join(a.0, d.0, after, any_call());
                    }
                }
            }
        }
        join(world, a.0, after, any_call());
    }
}

/// From one position on a command is taken up again: its journal is read.
pub open spec fn taken_up(world: NodeModelWorld, from: nat, operation_id: OperationId) -> bool {
    exists|at: int|
        from <= at < world.calls.len() && #[trigger] world.calls[at] == (
        NodeModelCall::ReadJournal { operation_id })
}

/// From one position on an operation is read to have succeeded.
pub open spec fn read_succeeded(
    world: NodeModelWorld,
    from: nat,
    operation_id: OperationId,
) -> bool {
    exists|at: int|
        from <= at < world.calls.len() && #[trigger] world.calls[at] == (
        NodeModelCall::Operation { operation_id }) && operation_succeeded_at(world, at)
}

/// The operation that one call reads has succeeded.
pub open spec fn operation_succeeded_at(world: NodeModelWorld, at: int) -> bool {
    (world.script.operation)(at as nat) matches Ok(Some(read)) && read.operation.state
        == OperationState::Succeeded
}

/// A journal is dealt with: a command that has not ended, or awaits a cleanup, is taken up again,
/// and one that succeeded too unless its operation is read to have succeeded.
pub open spec fn dealt_with(
    world: NodeModelWorld,
    from: nat,
    journal: NodeModelJournalView,
) -> bool {
    match journal.state {
        NodeModelJournalState::Failed => true,
        NodeModelJournalState::RolledBack => true,
        NodeModelJournalState::Succeeded => taken_up(world, from, journal.operation_id)
            || read_succeeded(world, from, journal.operation_id),
        _ => taken_up(world, from, journal.operation_id),
    }
}

proof fn carry_dealt(
    earlier: NodeModelWorld,
    later: NodeModelWorld,
    late: nat,
    early: nat,
    journal: NodeModelJournalView,
)
    requires
        dealt_with(earlier, late, journal),
        only(earlier, later, any_call()),
        early <= late,
    ensures
        dealt_with(later, early, journal),
{
    let id = journal.operation_id;
    if taken_up(earlier, late, id) {
        let at = choose|at: int|
            late <= at < earlier.calls.len() && #[trigger] earlier.calls[at] == (
            NodeModelCall::ReadJournal { operation_id: id });
        assert(later.calls[at] == earlier.calls[at]);
    }
    if read_succeeded(earlier, late, id) {
        let at = choose|at: int|
            late <= at < earlier.calls.len() && #[trigger] earlier.calls[at] == (
            NodeModelCall::Operation { operation_id: id }) && operation_succeeded_at(earlier, at);
        assert(later.calls[at] == earlier.calls[at]);
        assert(operation_succeeded_at(later, at));
    }
}

/// A recovery that succeeded has dealt with every journal that it was given.
pub proof fn law_recovery_deals_with_every_journal(
    world: NodeModelWorld,
    claims: Set<OperationId>,
    journals: Seq<VersionedNodeModelJournalView>,
    at: int,
    results: Seq<NodeModelCommandResultView>,
)
    requires
        0 <= at <= journals.len(),
    ensures
        ({
            let (after, recovered) = pending_recovered(world, claims, journals, at, results);
            &&& only(world, after, any_call())
            &&& recovered is Ok ==> forall|k: int|
                at <= k < journals.len() ==> dealt_with(
                    after,
                    world.calls.len(),
                    (#[trigger] journals[k]).journal,
                )
        }),
    decreases journals.len() - at, 1int,
{
    let (after, recovered) = pending_recovered(world, claims, journals, at, results);
    let from = world.calls.len();
    if at < journals.len() {
        let journal = journals[at];
        let id = journal.journal.operation_id;
        if journal.journal.state == NodeModelJournalState::CleanupPending {
            lemma_retried_extends(world, id);
            let a = compensation_retried(world, claims, journal);
            if let Ok(result) = a.1 {
                assert(a.0.calls[from as int] == (NodeModelCall::ReadJournal { operation_id: id }));
                assert(dealt_with(a.0, from, journal.journal));
                recovery_goes_on(world, a.0, claims, journals, at, results.push(result));
            }
        } else {
            let a = success_unreported(world, journal.journal);
            assert(only(world, a.0, any_call()));
            if let Ok(unreported) = a.1 {
                if !journal.journal.state.ended() || unreported {
                    let b = already_succeeded(a.0, journal.journal);
                    assert(only(a.0, b.0, any_call()));
                    lemma_resumed_extends(b.0, id, false);
                    assert(only(b.0, resulted(b.0, journal).0, any_call()));
                    let c = resumed(a.0, claims, journal, false);
                    assert(only(b.0, c.0, any_call()));
                    join(a.0, b.0, c.0, any_call());
                    join(world, a.0, c.0, any_call());
                    if let Ok(result) = c.1 {
                        if b.1 == Ok::<bool, NodeModelError>(true) {
                            let read = a.0.calls.len() as int;
                            assert(b.0.calls[read] == (NodeModelCall::Operation {
                                operation_id: id,
                            }));
                            assert(c.0.calls[read] == b.0.calls[read]);
                            assert(operation_succeeded_at(c.0, read));
                            assert(read_succeeded(c.0, from, id));
                        } else {
                            let read = b.0.calls.len() as int;
                            assert(c.0.calls[read] == (NodeModelCall::ReadJournal {
                                operation_id: id,
                            }));
                            assert(taken_up(c.0, from, id));
                        }
                        assert(dealt_with(c.0, from, journal.journal));
                        recovery_goes_on(world, c.0, claims, journals, at, results.push(result));
                    }
                } else {
                    if journal.journal.state == NodeModelJournalState::Succeeded {
                        assert(a.0.calls[from as int] == (NodeModelCall::Operation {
                            operation_id: id,
                        }));
                        assert(operation_succeeded_at(a.0, from as int));
                    }
                    assert(dealt_with(a.0, from, journal.journal));
                    recovery_goes_on(world, a.0, claims, journals, at, results);
                }
            }
        }
    }
}

proof fn recovery_goes_on(
    world: NodeModelWorld,
    next: NodeModelWorld,
    claims: Set<OperationId>,
    journals: Seq<VersionedNodeModelJournalView>,
    at: int,
    results: Seq<NodeModelCommandResultView>,
)
    requires
        0 <= at < journals.len(),
        only(world, next, any_call()),
        dealt_with(next, world.calls.len(), journals[at].journal),
    ensures
        ({
            let (after, recovered) = pending_recovered(next, claims, journals, at + 1, results);
            &&& only(world, after, any_call())
            &&& recovered is Ok ==> forall|k: int|
                at <= k < journals.len() ==> dealt_with(
                    after,
                    world.calls.len(),
                    (#[trigger] journals[k]).journal,
                )
        }),
    decreases journals.len() - at, 0int,
{
    let (after, recovered) = pending_recovered(next, claims, journals, at + 1, results);
    law_recovery_deals_with_every_journal(next, claims, journals, at + 1, results);
    join(world, next, after, any_call());
    if recovered is Ok {
        assert forall|k: int| at <= k < journals.len() implies dealt_with(
            after,
            world.calls.len(),
            (#[trigger] journals[k]).journal,
        ) by {
            if k == at {
                let from = world.calls.len();
                carry_dealt(next, after, from, from, journals[k].journal);
            } else {
                assert(only(after, after, any_call()));
                carry_dealt(
                    after,
                    after,
                    next.calls.len(),
                    world.calls.len(),
                    journals[k].journal,
                );
            }
        }
    }
}

// ---------------------------------------------------------------------------
// A whole rollback
// ---------------------------------------------------------------------------

/// From one position on the journal store hands out journals of one command only.
pub open spec fn hands_out(
    world: NodeModelWorld,
    from: nat,
    created: NodeModelJournalView,
) -> bool {
    forall|at: int|
        from <= at < world.calls.len() && (#[trigger] world.calls[at]) is ReadJournal ==> match (
        world.script.read_journal)(at as nat) {
            Ok(Some(read)) => of_command(read.journal, created),
            _ => true,
        }
}

proof fn lemma_advanced_of_command(
    world: NodeModelWorld,
    after: NodeModelWorld,
    journal: VersionedNodeModelJournalView,
    created: NodeModelJournalView,
    state: NodeModelJournalState,
    code: Option<Seq<char>>,
)
    requires
        of_command(journal.journal, created),
        only(journal_advanced(world, journal, state, code).0, after, any_call()),
        store_keeps(after),
    ensures
        journal_advanced(world, journal, state, code).1 matches Ok(done) ==> of_command(
            done.journal,
            created,
        ),
{
    let a = journal_advanced(world, journal, state, code);
    if a.0.calls.len() > world.calls.len() + 1 {
        let at = world.calls.len() as int + 1;
        assert(after.calls[at] == a.0.calls[at]);
    }
}

proof fn failure_spares(
    world: NodeModelWorld,
    operation_id: OperationId,
    failure: NodeModelError,
    created: NodeModelJournalView,
    group: PlacementGroupId,
)
    requires
        created.action == NodeModelAction::Rollback,
        !created.planned_group_ids.contains(group),
        !restorations(created).contains(group),
        !replaced_groups(created).contains(group),
        hands_out(
            failure_settled(world, operation_id, failure).0,
            world.calls.len(),
            created,
        ),
    ensures
        only(world, failure_settled(world, operation_id, failure).0, elsewhere(group)),
{
    let after = failure_settled(world, operation_id, failure).0;
    let wide = elsewhere(group);
    let a = world.read_journal(operation_id);
    lemma_failure_reports_no_success(world, operation_id, failure);
    if let Ok(Some(latest)) = a.1 {
        let first = world.calls.len() as int;
        let b = compensated(a.0, latest.journal);
        let state = failed_state(b.1 is Ok);
        let code = Some(failure_text(failure));
        let c = journal_advanced(b.0, latest, state, code);
        lemma_compensation_works(a.0, latest.journal);
        assert(b.0.calls[first] == a.0.calls[first]);
        assert(after.calls[first] == (NodeModelCall::ReadJournal { operation_id }));
        assert(of_command(latest.journal, created));
        lemma_spared(latest.journal, created, group);
        law_replacement_reversal_spares_other_groups(a.0, latest.journal, group);
        join(world, a.0, b.0, wide);
        assert(only(b.0, c.0, wide));
        join(world, b.0, c.0, wide);
        if let Ok(failed) = c.1 {
            let d = operation_failed(c.0, failed.journal);
            assert(only(c.0, d.0, wide));
            join(world, c.0, d.0, wide);
        }
    }
}

proof fn lemma_spared(
    journal: NodeModelJournalView,
    created: NodeModelJournalView,
    group: PlacementGroupId,
)
    requires
        of_command(journal, created),
        !created.planned_group_ids.contains(group),
        !restorations(created).contains(group),
        !replaced_groups(created).contains(group),
    ensures
        !journal.planned_group_ids.contains(group),
        !journal.placement_group_ids.contains(group),
        !restorations(journal).contains(group),
        !replaced_groups(journal).contains(group),
{
    assert(replaced_groups(journal) == replaced_groups(created));
    assert(restorations(journal) == restorations(created));
    if journal.placement_group_ids.contains(group) {
        let i = choose|i: int|
            0 <= i < journal.placement_group_ids.len() && journal.placement_group_ids[i] == group;
        assert(created.planned_group_ids.contains(journal.placement_group_ids[i]));
    }
}

proof fn execution_spares(
    world: NodeModelWorld,
    journal: VersionedNodeModelJournalView,
    created: NodeModelJournalView,
    group: PlacementGroupId,
)
    requires
        created.action == NodeModelAction::Rollback,
        created.install_groups.len() <= usize::MAX,
        !created.planned_group_ids.contains(group),
        !restorations(created).contains(group),
        !replaced_groups(created).contains(group),
        of_command(journal.journal, created),
        hands_out(execution_resumed(world, journal, true).0, world.calls.len(), created),
        store_keeps(execution_resumed(world, journal, true).0),
    ensures
        only(world, execution_resumed(world, journal, true).0, elsewhere(group)),
{
    let after = execution_resumed(world, journal, true).0;
    let wide = elsewhere(group);
    let executing = NodeModelJournalState::Executing;
    let a = journal_advanced(world, journal, executing, None);
    assert(only(world, a.0, wide));
    lemma_execution_extends(world, journal, true);
    lemma_advanced_of_command(world, after, journal, created, executing, None);
    if let Ok(running) = a.1 {
        let b = executed(a.0, running);
        law_execution_reports_nothing(a.0, running);
        lemma_spared(running.journal, created, group);
        match b.1 {
            Ok(done) => {
                assert(only(b.0, after, any_call()));
                lemma_store_kept(b.0, after);
                law_rollback_touches_only_its_groups(a.0, running, group);
                join(world, a.0, b.0, wide);
                assert(only(b.0, after, wide));
                join(world, b.0, after, wide);
            },
            Err(failure) => {
                let id = running.journal.operation_id;
                lemma_failure_reports_no_success(b.0, id, failure);
                lemma_widened(b.0, after, unsuccessful(), any_call());
                lemma_store_kept(b.0, after);
                law_rollback_touches_only_its_groups(a.0, running, group);
                join(world, a.0, b.0, wide);
                assert(world.calls.len() <= b.0.calls.len());
                assert(hands_out(after, b.0.calls.len(), created));
                failure_spares(b.0, id, failure, created, group);
                join(world, b.0, after, wide);
            },
        }
    }
}

proof fn resumption_spares(
    world: NodeModelWorld,
    operation_id: OperationId,
    created: NodeModelJournalView,
    group: PlacementGroupId,
)
    requires
        created.action == NodeModelAction::Rollback,
        created.install_groups.len() <= usize::MAX,
        !created.planned_group_ids.contains(group),
        !restorations(created).contains(group),
        !replaced_groups(created).contains(group),
        hands_out(claimed_resumed(world, operation_id, true).0, world.calls.len(), created),
        store_keeps(claimed_resumed(world, operation_id, true).0),
    ensures
        only(world, claimed_resumed(world, operation_id, true).0, elsewhere(group)),
{
    let after = claimed_resumed(world, operation_id, true).0;
    let wide = elsewhere(group);
    let first = world.calls.len() as int;
    let a = world.read_journal(operation_id);
    lemma_resumed_extends(world, operation_id, true);
    if let Ok(Some(journal)) = a.1 {
        assert(after.calls[first] == (NodeModelCall::ReadJournal { operation_id }));
        assert(of_command(journal.journal, created));
        if journal.journal.state == NodeModelJournalState::Succeeded {
            assert(only(a.0, after, wide));
        } else {
            let b = operation_ensured(a.0, journal.journal);
            assert(only(a.0, b.0, wide));
            if let Ok(operation) = b.1 {
                if operation.operation.state == OperationState::Succeeded {
                    assert(only(b.0, after, wide));
                } else {
                    assert(hands_out(after, b.0.calls.len(), created));
                    execution_spares(b.0, journal, created, group);
                }
                join(a.0, b.0, after, wide);
            }
        }
        join(world, a.0, after, wide);
    }
}

/// A whole rollback command of one target, from its plan to its end, changes no group of the
/// service with another target: it neither stages, starts, stops, recovers nor removes it, and
/// neither attaches nor detaches it.
pub proof fn law_rollback_command_spares_other_targets(
    world: NodeModelWorld,
    claims: Set<OperationId>,
    identity: NodeModelCommandIdentityView,
    service_id: ModelServiceId,
    target: Seq<char>,
    plan: RollbackPlanView,
    k: int,
    created: NodeModelJournalView,
)
    requires
        (world.script.read_journal)(world.calls.len()) == Ok::<
            Option<VersionedNodeModelJournalView>,
            NodeModelError,
        >(None),
        ({
            let read = world.after(
                NodeModelCall::ReadJournal { operation_id: identity.operation_id },
            );
            let (planned, chosen) = rollback_planned(read, service_id, Some(target));
            let committed = rollback_prepared(planned, identity, plan).0;
            let after = rolled_back(world, claims, identity, service_id, Some(target)).0;
            &&& chosen == Ok::<RollbackPlanView, NodeModelError>(plan)
            &&& reads_are_named(planned, read.calls.len())
            &&& commits(planned, committed, created)
            &&& store_keeps(after)
            &&& hands_out(after, committed.calls.len(), created)
        }),
        plan.service.placement_group_ids.no_duplicates(),
        plan.pairs.len() <= usize::MAX,
        0 <= k < plan.service.placement_group_ids.len(),
        (world.script.group_record)((world.calls.len() + 2 + k) as nat) matches Ok(Some(record))
            && record.group.runtime.target_id != target,
        !created.planned_group_ids.contains(plan.service.placement_group_ids[k]),
        !restorations(created).contains(plan.service.placement_group_ids[k]),
    ensures
        only(
            world,
            rolled_back(world, claims, identity, service_id, Some(target)).0,
            elsewhere(plan.service.placement_group_ids[k]),
        ),
{
    let group = plan.service.placement_group_ids[k];
    let wide = elsewhere(group);
    let after = rolled_back(world, claims, identity, service_id, Some(target)).0;
    let read = world.after(NodeModelCall::ReadJournal { operation_id: identity.operation_id });
    let a = rollback_planned(read, service_id, Some(target));
    law_preview_changes_nothing(read, service_id, Some(target));
    lemma_widened(read, a.0, reads(), wide);
    join(world, read, a.0, wide);
    let b = rollback_prepared(a.0, identity, plan);
    law_rollback_commits_first(a.0, identity, plan);
    lemma_widened(a.0, b.0, reads_or_creation(), wide);
    join(world, a.0, b.0, wide);
    law_rollback_journal_records_the_pairs(a.0, identity, plan, created);
    if let Ok(journal) = b.1 {
        let c = resumed(b.0, claims, journal, true);
        let id = journal.journal.operation_id;
        let d = already_succeeded(b.0, journal.journal);
        assert(only(b.0, d.0, wide));
        assert(only(b.0, d.0, any_call()));
        lemma_resumed_extends(d.0, id, true);
        assert(only(d.0, resulted(d.0, journal).0, wide));
        assert(only(d.0, after, any_call()));
        law_rollback_spares_other_targets(
            read,
            service_id,
            target,
            plan,
            k,
            a.0,
            identity,
            created,
            b.0,
            VersionedNodeModelJournalView { journal: created, ..journal },
        );
        if d.1 == Ok::<bool, NodeModelError>(false) && journal.journal.state
            != NodeModelJournalState::CleanupPending && !claims.contains(id) {
            resumption_spares(d.0, id, created, group);
        }
        assert(only(d.0, after, wide));
        join(b.0, d.0, after, wide);
        join(world, b.0, after, wide);
    }
}

} // verus!
