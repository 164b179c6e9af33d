//! The coordinator of model commands: claims, replays, terminal states and projections.

use vstd::prelude::*;

use crate::entity::{
    FailureDescription, FailureDescriptionView, ModelService, ModelServiceView, Operation,
    OperationState, OperationTarget, OperationView, PlacementLogReadRequest,
    PlacementLogReadRequestView, PlacementRecord, PlacementRecordView, RuntimeInstallation,
    RuntimeInstallationView,
};
use crate::identity::{
    contains_id, sort_ids, sorted_ids, unique_ids, ModelServiceId, OperationId, PlacementGroupId,
    RuntimeInstallationId, TargetId, TechnicalName,
};
use crate::node_model_compensation::{compensate, compensated};
use crate::node_model_contract::{
    NodeModelAction, NodeModelCommandIdentity, NodeModelCommandIdentityView,
    NodeModelCommandResult, NodeModelCommandResultView, NodeModelError, NodeModelInstallRequest,
    NodeModelJournal, NodeModelJournalState, NodeModelJournalView, NodeModelLogProjection,
    NodeModelLogProjectionView, NodeModelLogSummary, NodeModelRemoveRequest,
    NodeModelRollbackPreview, NodeModelRollbackPreviewView, NodeModelRuntimeLogBatch,
    NodeModelRuntimeLogBatchView, NodeModelRuntimeLogRequest, NodeModelRuntimeLogRequestView,
    NodeModelServiceProjection, NodeModelServiceProjectionView, NodeModelServiceSummary,
    NodeModelUpdateDisposition, NodeModelUpdateRequest, NodeModelUpdateRequestView,
    NodeModelUpdateSummary, NodeModelUpdateSummaryView, VersionedNodeModelJournal,
    VersionedNodeModelJournalView, VersionedNodeModelOperation, VersionedNodeModelOperationView,
};
use crate::node_model_execution::{
    execute_existing, execute_install, execute_rollback, execute_update, existing_executed,
    install_executed, rollback_executed, update_executed,
};
use crate::node_model_groups::{
    completed, from_placement, from_runtime, known_group, known_installation, known_operation,
    known_service, redacted, required, NodeModelOrchestrationPorts, Step,
};
use crate::node_model_planning::{
    existing_prepared, install_prepared, plan_preview, prepare_existing, prepare_install,
    prepare_remove, prepare_rollback, prepare_update, preview_plan, remove_prepared, rollback_plan,
    rollback_planned, rollback_prepared, update_plan, update_planned, update_prepared,
};
use crate::node_model_rules::{
    command_summary, command_summary_of, failure_code, failure_text, log_summary, log_summary_of,
    phase, phase_key, rollback_matches, rollback_request_matches, service_summary,
    service_summary_of, update_matches, update_request_matches,
};
use crate::node_model_world::{
    NodeModelClock, NodeModelJournalStore, NodeModelStatePort, NodeModelWorld, OperationCompletion,
    OperationCompletionView,
};
use crate::sequence::{
    distinct, lemma_selected_step, listed, outcome, same_optional, selected, viewed, views, Valued,
};

verus! {

// ---------------------------------------------------------------------------
// Claims
// ---------------------------------------------------------------------------

/// Owns the bounded in-process claim for each executing durable operation.
pub struct NodeModelExecutionClaims {
    pub operation_ids: Vec<OperationId>,
}

impl View for NodeModelExecutionClaims {
    type V = Set<OperationId>;

    open spec fn view(&self) -> Set<OperationId> {
        self.operation_ids@.to_set()
    }
}

impl NodeModelExecutionClaims {
    /// No operation is claimed twice.
    pub open spec fn wf(&self) -> bool {
        self.operation_ids@.no_duplicates()
    }

    /// Creates one empty claim set for a single resident composition.
    pub fn new() -> (claims: Self)
        ensures
            claims.wf(),
            claims@ == Set::<OperationId>::empty(),
    {
        let claims = NodeModelExecutionClaims { operation_ids: Vec::new() };
        assert(claims@ =~= Set::<OperationId>::empty());
        claims
    }

    /// Claims one operation until its execution scope completes.
    pub fn acquire(&mut self, operation_id: &OperationId) -> (result: Result<(), NodeModelError>)
        requires
            old(self).wf(),
        ensures
            final(self).wf(),
            old(self)@.contains(*operation_id) ==> result == Err::<(), NodeModelError>(
                NodeModelError::JournalConflict,
            ) && final(self)@ == old(self)@,
            !old(self)@.contains(*operation_id) ==> result == Ok::<(), NodeModelError>(())
                && final(self)@ == old(self)@.insert(*operation_id),
    {
        if contains_id(&self.operation_ids, operation_id) {
            return Err(NodeModelError::JournalConflict);
        }
        let ghost before = self.operation_ids@;
        self.operation_ids.push(*operation_id);
        proof {
            let after = self.operation_ids@;
            assert forall|id: OperationId| #[trigger] after.to_set().contains(id) <==> before.to_set()
                .insert(*operation_id)
                .contains(id) by {
                if before.contains(id) {
                    let k = choose|k: int| 0 <= k < before.len() && before[k] == id;
                    assert(after[k] == id);
                }
                if id == *operation_id {
                    assert(after[after.len() - 1] == id);
                }
            }
            assert(self@ =~= before.to_set().insert(*operation_id));
        }
        Ok(())
    }

    /// Releases one exact operation claim without retaining a failed execution owner.
    pub fn release(&mut self, operation_id: &OperationId)
        requires
            old(self).wf(),
        ensures
            final(self).wf(),
            final(self)@ == old(self)@.remove(*operation_id),
    {
        let ghost before = self.operation_ids@;
        let mut i: usize = 0;
        while i < self.operation_ids.len()
            invariant
                i <= self.operation_ids@.len(),
                self.operation_ids@ == before,
                before.no_duplicates(),
                before == old(self).operation_ids@,
                forall|k: int| 0 <= k < i ==> before[k] != *operation_id,
            decreases self.operation_ids@.len() - i,
        {
            if self.operation_ids[i] == *operation_id {
                self.operation_ids.remove(i);
                proof {
                    let after = self.operation_ids@;
                    assert(after =~= before.remove(i as int));
                    assert forall|id: OperationId| #[trigger] after.to_set().contains(id)
                        <==> before.to_set().remove(*operation_id).contains(id) by {
                        if after.contains(id) {
                            let k = choose|k: int| 0 <= k < after.len() && after[k] == id;
                            if k < i {
                                assert(before[k] == id);
                            } else {
                                assert(before[k + 1] == id);
                            }
                        }
                        if before.contains(id) && id != *operation_id {
                            let k = choose|k: int| 0 <= k < before.len() && before[k] == id;
                            if k < i {
                                assert(after[k] == id);
                            } else {
                                assert(after[k - 1] == id);
                            }
                        }
                    }
                    assert(self@ =~= before.to_set().remove(*operation_id));
                }
                return;
            }
            i += 1;
        }
        proof {
            assert(self@ =~= before.to_set().remove(*operation_id));
        }
    }
}

/// Releasing a claim undoes its acquisition.
pub proof fn law_claim_release_undoes_acquire(claims: Set<OperationId>, operation_id: OperationId)
    requires
        !claims.contains(operation_id),
    ensures
        claims.insert(operation_id).remove(operation_id) == claims,
{
    assert(claims.insert(operation_id).remove(operation_id) =~= claims);
}

// ---------------------------------------------------------------------------
// Journal and operation steps
// ---------------------------------------------------------------------------

/// One journal in the given state, replaced only when something changes.
pub open spec fn journal_advanced(
    world: NodeModelWorld,
    journal: VersionedNodeModelJournalView,
    state: NodeModelJournalState,
    failure_code: Option<Seq<char>>,
) -> Step<VersionedNodeModelJournalView> {
    if journal.journal.state == state && journal.journal.failure_code == failure_code {
        (world, Ok(journal))
    } else {
        let (world, now) = world.now();
        match now {
            Err(error) => (world, Err(error)),
            Ok(now) => world.replace_journal(
                NodeModelJournalView { state, failure_code, updated_at: now, ..journal.journal },
                journal.revision,
            ),
        }
    }
}

/// Advances one journal state with optimistic persistence and explicit time.
pub fn advance<P: NodeModelOrchestrationPorts>(
    ports: &mut P,
    journal: VersionedNodeModelJournal,
    state: NodeModelJournalState,
    failure_code: Option<TechnicalName>,
) -> (advanced: Result<VersionedNodeModelJournal, NodeModelError>)
    ensures
        (final(ports).world(), outcome(advanced)) == journal_advanced(
            old(ports).world(),
            journal@,
            state,
            viewed(failure_code),
        ),
{
    if journal.journal.state == state && same_optional(
        &journal.journal.failure_code,
        &failure_code,
    ) {
        return Ok(journal);
    }
    let revision = journal.revision;
    let mut updated = journal.journal;
    updated.state = state;
    updated.failure_code = failure_code;
    updated.updated_at = ports.now()?;
    ports.replace(updated, revision)
}

/// The operation of one command: begun when missing, started when pending.
pub open spec fn operation_ensured(
    world: NodeModelWorld,
    journal: NodeModelJournalView,
) -> Step<VersionedNodeModelOperationView> {
    let (world, existing) = redacted(world.operation(journal.operation_id));
    match existing {
        Err(error) => (world, Err(error)),
        Ok(Some(operation)) => if operation.operation.kind != journal.action.kind()
            || operation.operation.target != OperationTarget::ModelService(journal.service_id) {
            (world, Err(NodeModelError::JournalConflict))
        } else {
            operation_started(world, journal, operation)
        },
        Ok(None) => {
            let (world, begun) = redacted(
                world.begin_operation(
                    phase(journal, "operation.begin"@),
                    journal.operation_id,
                    journal.action.kind(),
                    OperationTarget::ModelService(journal.service_id),
                    journal.created_at,
                ),
            );
            match begun {
                Err(error) => (world, Err(error)),
                Ok(operation) => operation_started(world, journal, operation),
            }
        },
    }
}

/// A pending operation is started; one that failed or was cancelled cannot go on.
pub open spec fn operation_started(
    world: NodeModelWorld,
    journal: NodeModelJournalView,
    operation: VersionedNodeModelOperationView,
) -> Step<VersionedNodeModelOperationView> {
    match operation.operation.state {
        OperationState::Pending => {
            let (world, now) = world.now();
            match now {
                Err(error) => (world, Err(error)),
                Ok(now) => redacted(
                    world.start_operation(
                        phase(journal, "operation.start"@),
                        journal.operation_id,
                        operation.revision,
                        now,
                    ),
                ),
            }
        },
        OperationState::Running => (world, Ok(operation)),
        OperationState::Succeeded => (world, Ok(operation)),
        _ => (world, Err(NodeModelError::RecoveryRequired)),
    }
}

/// Creates or resumes the user-visible operation without using it as the phase journal.
pub fn ensure_operation<P: NodeModelOrchestrationPorts>(
    ports: &mut P,
    journal: &NodeModelJournal,
) -> (operation: Result<VersionedNodeModelOperation, NodeModelError>)
    ensures
        (final(ports).world(), outcome(operation)) == operation_ensured(
            old(ports).world(),
            journal@,
        ),
{
    let operation = match known_operation(ports, &journal.operation_id)? {
        Some(operation) => {
            if operation.operation.kind != journal.action.operation_kind()
                || operation.operation.target != OperationTarget::ModelService(
                journal.service_id,
            ) {
                return Err(NodeModelError::JournalConflict);
            }
            operation
        },
        None => {
            let key = phase_key(journal, "operation.begin");
            match ports.begin_operation(
                key.as_str(),
                journal.operation_id,
                journal.action.operation_kind(),
                OperationTarget::ModelService(journal.service_id),
                journal.created_at,
            ) {
                Ok(operation) => operation,
                Err(_) => {
                    return Err(NodeModelError::StateUnavailable);
                },
            }
        },
    };
    match operation.operation.state {
        OperationState::Pending => {
            let now = ports.now()?;
            let key = phase_key(journal, "operation.start");
            match ports.start_operation(
                key.as_str(),
                &journal.operation_id,
                operation.revision,
                now,
            ) {
                Ok(operation) => Ok(operation),
                Err(_) => Err(NodeModelError::StateUnavailable),
            }
        },
        OperationState::Running | OperationState::Succeeded => Ok(operation),
        OperationState::Failed | OperationState::Cancelled => Err(NodeModelError::RecoveryRequired),
    }
}

/// The operation of one command that must exist.
pub open spec fn operation_known(
    world: NodeModelWorld,
    operation_id: OperationId,
) -> Step<VersionedNodeModelOperationView> {
    let (world, operation) = redacted(world.operation(operation_id));
    (
        world,
        match operation {
            Err(error) => Err(error),
            Ok(None) => Err(NodeModelError::StateUnavailable),
            Ok(Some(operation)) => Ok(operation),
        },
    )
}

/// What one journal returned, read from durable state.
pub open spec fn resulted(
    world: NodeModelWorld,
    journal: VersionedNodeModelJournalView,
) -> Step<NodeModelCommandResultView> {
    let (world, service) = redacted(world.service(journal.journal.service_id));
    match service {
        Err(error) => (world, Err(error)),
        Ok(service) => {
            let (world, operation) = operation_known(world, journal.journal.operation_id);
            match operation {
                Err(error) => (world, Err(error)),
                Ok(operation) => (
                    world,
                    Ok(
                        NodeModelCommandResultView {
                            journal,
                            service: service.service,
                            operation: operation.operation,
                        },
                    ),
                ),
            }
        },
    }
}

/// Returns one terminal replay result from durable state only.
pub fn result_of<P: NodeModelOrchestrationPorts>(
    ports: &mut P,
    journal: VersionedNodeModelJournal,
) -> (result: Result<NodeModelCommandResult, NodeModelError>)
    ensures
        (final(ports).world(), outcome(result)) == resulted(old(ports).world(), journal@),
{
    let service = known_service(ports, &journal.journal.service_id)?.service;
    match known_operation(ports, &journal.journal.operation_id)? {
        Some(operation) => Ok(
            NodeModelCommandResult { journal, service, operation: operation.operation },
        ),
        None => Err(NodeModelError::StateUnavailable),
    }
}

/// Success is committed to the journal first, then to the operation.
pub open spec fn succeeded(
    world: NodeModelWorld,
    journal: VersionedNodeModelJournalView,
) -> Step<NodeModelCommandResultView> {
    let (world, journal) = journal_advanced(
        world,
        journal,
        NodeModelJournalState::Succeeded,
        None,
    );
    match journal {
        Err(error) => (world, Err(error)),
        Ok(journal) => {
            let (world, operation) = operation_succeeded(world, journal.journal);
            match operation {
                Err(error) => (world, Err(error)),
                Ok(operation) => {
                    let (world, service) = redacted(world.service(journal.journal.service_id));
                    match service {
                        Err(error) => (world, Err(error)),
                        Ok(service) => (
                            world,
                            Ok(
                                NodeModelCommandResultView {
                                    journal,
                                    service: service.service,
                                    operation,
                                },
                            ),
                        ),
                    }
                },
            }
        },
    }
}

/// The operation of one succeeded journal, completed unless it already is.
pub open spec fn operation_succeeded(
    world: NodeModelWorld,
    journal: NodeModelJournalView,
) -> Step<OperationView> {
    let (world, operation) = operation_known(world, journal.operation_id);
    match operation {
        Err(error) => (world, Err(error)),
        Ok(operation) => if operation.operation.state == OperationState::Succeeded {
            (world, Ok(operation.operation))
        } else {
            let (world, now) = world.now();
            match now {
                Err(error) => (world, Err(error)),
                Ok(now) => {
                    let (world, completed) = redacted(
                        world.complete_operation(
                            phase(journal, "operation.succeed"@),
                            journal.operation_id,
                            operation.revision,
                            OperationCompletionView::Succeeded,
                            now,
                        ),
                    );
                    match completed {
                        Err(error) => (world, Err(error)),
                        Ok(completed) => (world, Ok(completed.operation)),
                    }
                },
            }
        },
    }
}

/// Commits terminal success to the journal before its user-visible operation projection.
pub fn succeed<P: NodeModelOrchestrationPorts>(
    ports: &mut P,
    journal: VersionedNodeModelJournal,
) -> (result: Result<NodeModelCommandResult, NodeModelError>)
    ensures
        (final(ports).world(), outcome(result)) == succeeded(old(ports).world(), journal@),
{
    let journal = advance(ports, journal, NodeModelJournalState::Succeeded, None)?;
    let operation = match known_operation(ports, &journal.journal.operation_id)? {
        Some(operation) => operation,
        None => {
            return Err(NodeModelError::StateUnavailable);
        },
    };
    let operation = if operation.operation.state == OperationState::Succeeded {
        operation.operation
    } else {
        let now = ports.now()?;
        let key = phase_key(&journal.journal, "operation.succeed");
        match ports.complete_operation(
            key.as_str(),
            &journal.journal.operation_id,
            operation.revision,
            OperationCompletion::Succeeded,
            now,
        ) {
            Ok(completed) => completed.operation,
            Err(_) => {
                return Err(NodeModelError::StateUnavailable);
            },
        }
    };
    let service = known_service(ports, &journal.journal.service_id)?.service;
    Ok(NodeModelCommandResult { journal, service, operation })
}

/// The redacted failure that one journal reports.
pub open spec fn failure_of(journal: NodeModelJournalView) -> FailureDescriptionView {
    FailureDescriptionView {
        code: match journal.failure_code {
            Some(code) => code,
            None => "model_lifecycle_failed"@,
        },
        message: "Model lifecycle failed"@,
    }
}

/// An operation that has not ended is completed as failed.
pub open spec fn operation_failed(
    world: NodeModelWorld,
    journal: NodeModelJournalView,
) -> Step<()> {
    let (world, operation) = redacted(world.operation(journal.operation_id));
    match operation {
        Err(error) => (world, Err(error)),
        Ok(None) => (world, Ok(())),
        Ok(Some(operation)) => if operation.operation.state == OperationState::Pending
            || operation.operation.state == OperationState::Running {
            let (world, now) = world.now();
            match now {
                Err(error) => (world, Err(error)),
                Ok(now) => completed(
                    redacted(
                        world.complete_operation(
                            phase(journal, "operation.fail"@),
                            journal.operation_id,
                            operation.revision,
                            OperationCompletionView::Failed(failure_of(journal)),
                            now,
                        ),
                    ),
                ),
            }
        } else {
            (world, Ok(()))
        },
    }
}

fn failure_description(journal: &NodeModelJournal) -> (failure: Result<
    FailureDescription,
    NodeModelError,
>)
    ensures
        outcome(failure) == Ok::<FailureDescriptionView, NodeModelError>(failure_of(journal@)),
{
    let code = match &journal.failure_code {
        Some(code) => code.copy(),
        None => {
            proof {
                reveal_strlit("model_lifecycle_failed");
            }
            match TechnicalName::parse("model_lifecycle_failed") {
                Ok(code) => code,
                Err(_) => {
                    return Err(NodeModelError::StateUnavailable);
                },
            }
        },
    };
    Ok(FailureDescription { code, message: "Model lifecycle failed".to_owned() })
}

/// Records one stable failed user-visible operation without leaking provider details.
pub fn fail_operation<P: NodeModelOrchestrationPorts>(
    ports: &mut P,
    journal: &NodeModelJournal,
) -> (result: Result<(), NodeModelError>)
    ensures
        (final(ports).world(), result) == operation_failed(old(ports).world(), journal@),
{
    let operation = match known_operation(ports, &journal.operation_id)? {
        Some(operation) => operation,
        None => {
            return Ok(());
        },
    };
    if matches!(
        operation.operation.state,
        OperationState::Failed | OperationState::Cancelled | OperationState::Succeeded
    ) {
        return Ok(());
    }
    let failure = failure_description(journal)?;
    let now = ports.now()?;
    let key = phase_key(journal, "operation.fail");
    match ports.complete_operation(
        key.as_str(),
        &journal.operation_id,
        operation.revision,
        OperationCompletion::Failed(failure),
        now,
    ) {
        Ok(_) => Ok(()),
        Err(_) => Err(NodeModelError::StateUnavailable),
    }
}

// ---------------------------------------------------------------------------
// Resumption
// ---------------------------------------------------------------------------

/// One journal that must exist.
pub open spec fn journal_known(
    world: NodeModelWorld,
    operation_id: OperationId,
) -> Step<VersionedNodeModelJournalView> {
    let (world, journal) = world.read_journal(operation_id);
    (
        world,
        match journal {
            Err(error) => Err(error),
            Ok(None) => Err(NodeModelError::JournalCorrupt),
            Ok(Some(journal)) => Ok(journal),
        },
    )
}

fn known_journal<P: NodeModelOrchestrationPorts>(
    ports: &mut P,
    operation_id: &OperationId,
) -> (journal: Result<VersionedNodeModelJournal, NodeModelError>)
    ensures
        (final(ports).world(), outcome(journal)) == journal_known(
            old(ports).world(),
            *operation_id,
        ),
{
    match ports.read(operation_id)? {
        Some(journal) => Ok(journal),
        None => Err(NodeModelError::JournalCorrupt),
    }
}

/// The execution that one command's action asks for.
pub open spec fn executed(
    world: NodeModelWorld,
    journal: VersionedNodeModelJournalView,
) -> Step<VersionedNodeModelJournalView> {
    match journal.journal.action {
        NodeModelAction::Install => install_executed(world, journal),
        NodeModelAction::Update => update_executed(world, journal),
        NodeModelAction::Rollback => rollback_executed(world, journal),
        _ => {
            let (world, done) = existing_executed(world, journal.journal);
            match done {
                Err(error) => (world, Err(error)),
                Ok(_) => (world, Ok(journal)),
            }
        },
    }
}

fn execute<P: NodeModelOrchestrationPorts>(
    ports: &mut P,
    journal: VersionedNodeModelJournal,
) -> (result: Result<VersionedNodeModelJournal, NodeModelError>)
    ensures
        (final(ports).world(), outcome(result)) == executed(old(ports).world(), journal@),
{
    match journal.journal.action {
        NodeModelAction::Install => execute_install(ports, journal),
        NodeModelAction::Update => execute_update(ports, journal),
        NodeModelAction::Rollback => execute_rollback(ports, journal),
        _ => {
            execute_existing(ports, &journal.journal)?;
            Ok(journal)
        },
    }
}

/// One failed execution is compensated, recorded and reported. Where the compensation fails too,
/// cleanup stays pending and recovery is required.
pub open spec fn failure_settled(
    world: NodeModelWorld,
    operation_id: OperationId,
    failure: NodeModelError,
) -> Step<NodeModelCommandResultView> {
    let (world, latest) = journal_known(world, operation_id);
    match latest {
        Err(error) => (world, Err(error)),
        Ok(latest) => {
            let (world, undone) = compensated(world, latest.journal);
            let (world, failed) = journal_advanced(
                world,
                latest,
                if undone is Ok {
                    NodeModelJournalState::Failed
                } else {
                    NodeModelJournalState::CleanupPending
                },
                Some(failure_text(failure)),
            );
            match failed {
                Err(error) => (world, Err(error)),
                Ok(failed) => {
                    let (world, reported) = operation_failed(world, failed.journal);
                    match reported {
                        Err(error) => (world, Err(error)),
                        Ok(_) => (
                            world,
                            Err(
                                if undone is Ok {
                                    failure
                                } else {
                                    NodeModelError::RecoveryRequired
                                },
                            ),
                        ),
                    }
                },
            }
        },
    }
}

fn settle_failure<P: NodeModelOrchestrationPorts>(
    ports: &mut P,
    operation_id: &OperationId,
    failure: NodeModelError,
) -> (result: Result<NodeModelCommandResult, NodeModelError>)
    ensures
        (final(ports).world(), outcome(result)) == failure_settled(
            old(ports).world(),
            *operation_id,
            failure,
        ),
{
    let latest = known_journal(ports, operation_id)?;
    let undone = compensate(ports, &latest.journal);
    let state = match &undone {
        Ok(_) => NodeModelJournalState::Failed,
        Err(_) => NodeModelJournalState::CleanupPending,
    };
    let code = failure_code(&failure)?;
    let failed = advance(ports, latest, state, Some(code))?;
    fail_operation(ports, &failed.journal)?;
    match undone {
        Ok(_) => Err(failure),
        Err(_) => Err(NodeModelError::RecoveryRequired),
    }
}

/// One claimed command goes on from its durable journal.
pub open spec fn claimed_resumed(
    world: NodeModelWorld,
    operation_id: OperationId,
    compensate_on_failure: bool,
) -> Step<NodeModelCommandResultView> {
    let (world, journal) = journal_known(world, operation_id);
    match journal {
        Err(error) => (world, Err(error)),
        Ok(journal) => if journal.journal.state == NodeModelJournalState::Succeeded {
            succeeded(world, journal)
        } else {
            let (world, operation) = operation_ensured(world, journal.journal);
            match operation {
                Err(error) => (world, Err(error)),
                Ok(operation) => if operation.operation.state == OperationState::Succeeded {
                    resulted(world, journal)
                } else {
                    execution_resumed(world, journal, compensate_on_failure)
                },
            }
        },
    }
}

/// One command is marked executing and executed.
pub open spec fn execution_resumed(
    world: NodeModelWorld,
    journal: VersionedNodeModelJournalView,
    compensate_on_failure: bool,
) -> Step<NodeModelCommandResultView> {
    let (world, journal) = journal_advanced(
        world,
        journal,
        NodeModelJournalState::Executing,
        None,
    );
    match journal {
        Err(error) => (world, Err(error)),
        Ok(journal) => {
            let (world, done) = executed(world, journal);
            match done {
                Ok(journal) => succeeded(world, journal),
                Err(failure) => if compensate_on_failure {
                    failure_settled(world, journal.journal.operation_id, failure)
                } else {
                    (world, Err(failure))
                },
            }
        },
    }
}

fn resume_claimed<P: NodeModelOrchestrationPorts>(
    ports: &mut P,
    operation_id: &OperationId,
    compensate_on_failure: bool,
) -> (result: Result<NodeModelCommandResult, NodeModelError>)
    ensures
        (final(ports).world(), outcome(result)) == claimed_resumed(
            old(ports).world(),
            *operation_id,
            compensate_on_failure,
        ),
{
    let journal = known_journal(ports, operation_id)?;
    if journal.journal.state == NodeModelJournalState::Succeeded {
        return succeed(ports, journal);
    }
    let operation = ensure_operation(ports, &journal.journal)?;
    if operation.operation.state == OperationState::Succeeded {
        return result_of(ports, journal);
    }
    let journal = advance(ports, journal, NodeModelJournalState::Executing, None)?;
    let executing = journal.journal.operation_id;
    match execute(ports, journal) {
        Ok(journal) => succeed(ports, journal),
        Err(failure) => {
            if compensate_on_failure {
                settle_failure(ports, &executing, failure)
            } else {
                Err(failure)
            }
        },
    }
}

/// Whether one succeeded journal only needs to be reported again.
pub open spec fn already_succeeded(
    world: NodeModelWorld,
    journal: NodeModelJournalView,
) -> Step<bool> {
    if journal.state == NodeModelJournalState::Succeeded {
        let (world, operation) = redacted(world.operation(journal.operation_id));
        match operation {
            Err(error) => (world, Err(error)),
            Ok(None) => (world, Ok(false)),
            Ok(Some(operation)) => (
                world,
                Ok(operation.operation.state == OperationState::Succeeded),
            ),
        }
    } else {
        (world, Ok(false))
    }
}

fn has_succeeded<P: NodeModelOrchestrationPorts>(
    ports: &mut P,
    journal: &NodeModelJournal,
) -> (succeeded: Result<bool, NodeModelError>)
    ensures
        (final(ports).world(), succeeded) == already_succeeded(old(ports).world(), journal@),
{
    if journal.state != NodeModelJournalState::Succeeded {
        return Ok(false);
    }
    match known_operation(ports, &journal.operation_id)? {
        Some(operation) => Ok(operation.operation.state == OperationState::Succeeded),
        None => Ok(false),
    }
}

/// One durable command goes on: a reported success is replayed, pending cleanup is refused, and
/// anything else is executed under its claim.
pub open spec fn resumed(
    world: NodeModelWorld,
    claims: Set<OperationId>,
    journal: VersionedNodeModelJournalView,
    compensate_on_failure: bool,
) -> Step<NodeModelCommandResultView> {
    let (world, replayed) = already_succeeded(world, journal.journal);
    match replayed {
        Err(error) => (world, Err(error)),
        Ok(true) => resulted(world, journal),
        Ok(false) => if journal.journal.state == NodeModelJournalState::CleanupPending {
            (world, Err(NodeModelError::RecoveryRequired))
        } else if claims.contains(journal.journal.operation_id) {
            (world, Err(NodeModelError::JournalConflict))
        } else {
            claimed_resumed(world, journal.journal.operation_id, compensate_on_failure)
        },
    }
}

/// One pending cleanup is retried under its claim.
pub open spec fn compensation_retried(
    world: NodeModelWorld,
    claims: Set<OperationId>,
    journal: VersionedNodeModelJournalView,
) -> Step<NodeModelCommandResultView> {
    if claims.contains(journal.journal.operation_id) {
        (world, Err(NodeModelError::JournalConflict))
    } else {
        claimed_retried(world, journal.journal.operation_id)
    }
}

/// One claimed cleanup is retried, recorded as rolled back and reported as failed.
pub open spec fn claimed_retried(
    world: NodeModelWorld,
    operation_id: OperationId,
) -> Step<NodeModelCommandResultView> {
    let (world, current) = journal_known(world, operation_id);
    match current {
        Err(error) => (world, Err(error)),
        Ok(current) => if current.journal.state != NodeModelJournalState::CleanupPending {
            resulted(world, current)
        } else {
            let (world, undone) = compensated(world, current.journal);
            match undone {
                Err(error) => (world, Err(error)),
                Ok(_) => {
                    let (world, recovered) = journal_advanced(
                        world,
                        current,
                        NodeModelJournalState::RolledBack,
                        None,
                    );
                    match recovered {
                        Err(error) => (world, Err(error)),
                        Ok(recovered) => {
                            let (world, reported) = operation_failed(world, recovered.journal);
                            match reported {
                                Err(error) => (world, Err(error)),
                                Ok(_) => resulted(world, recovered),
                            }
                        },
                    }
                },
            }
        },
    }
}

fn retry_claimed<P: NodeModelOrchestrationPorts>(
    ports: &mut P,
    operation_id: &OperationId,
) -> (result: Result<NodeModelCommandResult, NodeModelError>)
    ensures
        (final(ports).world(), outcome(result)) == claimed_retried(
            old(ports).world(),
            *operation_id,
        ),
{
    let current = known_journal(ports, operation_id)?;
    if current.journal.state != NodeModelJournalState::CleanupPending {
        return result_of(ports, current);
    }
    compensate(ports, &current.journal)?;
    let recovered = advance(ports, current, NodeModelJournalState::RolledBack, None)?;
    fail_operation(ports, &recovered.journal)?;
    result_of(ports, recovered)
}

/// Whether one journal that succeeded is not yet reported as succeeded.
pub open spec fn success_unreported(
    world: NodeModelWorld,
    journal: NodeModelJournalView,
) -> Step<bool> {
    if journal.state == NodeModelJournalState::Succeeded {
        let (world, operation) = redacted(world.operation(journal.operation_id));
        match operation {
            Err(error) => (world, Err(error)),
            Ok(None) => (world, Ok(true)),
            Ok(Some(operation)) => (
                world,
                Ok(operation.operation.state != OperationState::Succeeded),
            ),
        }
    } else {
        (world, Ok(false))
    }
}

fn is_success_unreported<P: NodeModelOrchestrationPorts>(
    ports: &mut P,
    journal: &NodeModelJournal,
) -> (unreported: Result<bool, NodeModelError>)
    ensures
        (final(ports).world(), unreported) == success_unreported(old(ports).world(), journal@),
{
    if journal.state != NodeModelJournalState::Succeeded {
        return Ok(false);
    }
    match known_operation(ports, &journal.operation_id)? {
        Some(operation) => Ok(operation.operation.state != OperationState::Succeeded),
        None => Ok(true),
    }
}

/// Every journal from one position on that is not finished goes on, in order.
pub open spec fn pending_recovered(
    world: NodeModelWorld,
    claims: Set<OperationId>,
    journals: Seq<VersionedNodeModelJournalView>,
    at: int,
    results: Seq<NodeModelCommandResultView>,
) -> Step<Seq<NodeModelCommandResultView>>
    decreases journals.len() - at,
{
    if at < 0 || at >= journals.len() {
        (world, Ok(results))
    } else {
        let journal = journals[at];
        if journal.journal.state == NodeModelJournalState::CleanupPending {
            let (world, retried) = compensation_retried(world, claims, journal);
            match retried {
                Err(error) => (world, Err(error)),
                Ok(result) => pending_recovered(
                    world,
                    claims,
                    journals,
                    at + 1,
                    results.push(result),
                ),
            }
        } else {
            let (world, unreported) = success_unreported(world, journal.journal);
            match unreported {
                Err(error) => (world, Err(error)),
                Ok(unreported) => if !journal.journal.state.ended() || unreported {
                    let (world, resumed) = resumed(world, claims, journal, false);
                    match resumed {
                        Err(error) => (world, Err(error)),
                        Ok(result) => pending_recovered(
                            world,
                            claims,
                            journals,
                            at + 1,
                            results.push(result),
                        ),
                    }
                } else {
                    pending_recovered(world, claims, journals, at + 1, results)
                },
            }
        }
    }
}

// ---------------------------------------------------------------------------
// Projections
// ---------------------------------------------------------------------------

/// The aggregates of one service's groups from one position on, with their installations.
pub open spec fn service_groups_read(
    world: NodeModelWorld,
    service: ModelServiceView,
    at: int,
    records: Seq<PlacementRecordView>,
    installations: Seq<RuntimeInstallationId>,
) -> Step<(Seq<PlacementRecordView>, Seq<RuntimeInstallationId>)>
    decreases service.placement_group_ids.len() - at,
{
    if at < 0 || at >= service.placement_group_ids.len() {
        (world, Ok((records, installations)))
    } else {
        let (world, record) = required(
            from_placement(world.group_record(service.placement_group_ids[at])),
        );
        match record {
            Err(error) => (world, Err(error)),
            Ok(record) => if record.group.service_id != service.service_id {
                (world, Err(NodeModelError::RecoveryRequired))
            } else {
                service_groups_read(
                    world,
                    service,
                    at + 1,
                    records.push(record),
                    installations + assigned_installations(record),
                )
            },
        }
    }
}

/// The installations that one record assigns.
pub open spec fn assigned_installations(record: PlacementRecordView) -> Seq<RuntimeInstallationId> {
    Seq::new(record.placements.len(), |i: int| record.placements[i].runtime_installation_id)
}

#[verifier::loop_isolation(false)]
fn append_assigned(installations: &mut Vec<RuntimeInstallationId>, record: &PlacementRecord)
    ensures
        final(installations)@ == old(installations)@ + assigned_installations(record@),
{
    let ghost before = installations@;
    let ghost added = assigned_installations(record@);
    let mut i: usize = 0;
    proof {
        assert(installations@ =~= before + added.take(0));
    }
    while i < record.placements.len()
        invariant
            i <= record.placements@.len(),
            installations@ == before + added.take(i as int),
        decreases record.placements@.len() - i,
    {
        installations.push(record.placements[i].runtime_installation_id);
        proof {
            assert(added.take(i + 1) =~= added.take(i as int).push(added[i as int]));
            assert(installations@ =~= before + added.take(i + 1));
        }
        i += 1;
    }
    proof {
        assert(added.take(added.len() as int) =~= added);
    }
}

/// The installations from one position on, each of the service's model.
pub open spec fn service_installations_read(
    world: NodeModelWorld,
    logical_model: Seq<char>,
    ids: Seq<RuntimeInstallationId>,
    at: int,
    installations: Seq<RuntimeInstallationView>,
) -> Step<Seq<RuntimeInstallationView>>
    decreases ids.len() - at,
{
    if at < 0 || at >= ids.len() {
        (world, Ok(installations))
    } else {
        let (world, installation) = required(from_runtime(world.installation(ids[at])));
        match installation {
            Err(error) => (world, Err(error)),
            Ok(installation) => if installation.logical_model != logical_model {
                (world, Err(NodeModelError::RecoveryRequired))
            } else {
                service_installations_read(
                    world,
                    logical_model,
                    ids,
                    at + 1,
                    installations.push(installation),
                )
            },
        }
    }
}

/// One service with its groups and, in identity order, each installation once.
pub open spec fn service_projected(
    world: NodeModelWorld,
    service: ModelServiceView,
) -> Step<NodeModelServiceProjectionView> {
    let (world, groups) = service_groups_read(world, service, 0, Seq::empty(), Seq::empty());
    match groups {
        Err(error) => (world, Err(error)),
        Ok(groups) => {
            let (world, installations) = service_installations_read(
                world,
                service.logical_model,
                sorted_ids(distinct(groups.1)),
                0,
                Seq::empty(),
            );
            match installations {
                Err(error) => (world, Err(error)),
                Ok(installations) => (
                    world,
                    Ok(
                        NodeModelServiceProjectionView {
                            service,
                            placement_groups: groups.0,
                            installations,
                        },
                    ),
                ),
            }
        },
    }
}

#[verifier::loop_isolation(false)]
fn project_service<P: NodeModelOrchestrationPorts>(
    ports: &mut P,
    service: ModelService,
) -> (projection: Result<NodeModelServiceProjection, NodeModelError>)
    ensures
        (final(ports).world(), outcome(projection)) == service_projected(
            old(ports).world(),
            service@,
        ),
{
    let ghost start = ports.world();
    let mut records: Vec<PlacementRecord> = Vec::new();
    let mut ids: Vec<RuntimeInstallationId> = Vec::new();
    let mut i: usize = 0;
    proof {
        assert(views(records@) =~= Seq::<PlacementRecordView>::empty());
        assert(ids@ =~= Seq::<RuntimeInstallationId>::empty());
    }
    while i < service.placement_group_ids.len()
        invariant
            i <= service.placement_group_ids@.len(),
            service_groups_read(ports.world(), service@, i as int, views(records@), ids@)
                == service_groups_read(start, service@, 0, Seq::empty(), Seq::empty()),
        decreases service.placement_group_ids@.len() - i,
    {
        let ghost before = views(records@);
        let group_id = service.placement_group_ids[i];
        let record = known_group(ports, &group_id)?;
        if record.group.service_id != service.service_id {
            return Err(NodeModelError::RecoveryRequired);
        }
        append_assigned(&mut ids, &record);
        records.push(record);
        assert(views(records@) =~= before.push(record@));
        i += 1;
    }
    let sorted = sort_ids(unique_ids(&ids));
    let ghost middle = ports.world();
    let mut installations: Vec<RuntimeInstallation> = Vec::new();
    let mut j: usize = 0;
    proof {
        assert(views(installations@) =~= Seq::<RuntimeInstallationView>::empty());
    }
    while j < sorted.len()
        invariant
            j <= sorted@.len(),
            service_installations_read(
                ports.world(),
                service@.logical_model,
                sorted@,
                j as int,
                views(installations@),
            ) == service_installations_read(
                middle,
                service@.logical_model,
                sorted@,
                0,
                Seq::empty(),
            ),
        decreases sorted@.len() - j,
    {
        let ghost before = views(installations@);
        let installation = known_installation(ports, &sorted[j])?;
        if !installation.logical_model.same(&service.logical_model) {
            return Err(NodeModelError::RecoveryRequired);
        }
        installations.push(installation);
        assert(views(installations@) =~= before.push(installation@));
        j += 1;
    }
    Ok(NodeModelServiceProjection { service, placement_groups: records, installations })
}

/// Every service from one position on, projected in order.
pub open spec fn services_projected(
    world: NodeModelWorld,
    services: Seq<ModelServiceView>,
    at: int,
    projections: Seq<NodeModelServiceProjectionView>,
) -> Step<Seq<NodeModelServiceProjectionView>>
    decreases services.len() - at,
{
    if at < 0 || at >= services.len() {
        (world, Ok(projections))
    } else {
        let (world, projection) = service_projected(world, services[at]);
        match projection {
            Err(error) => (world, Err(error)),
            Ok(projection) => services_projected(
                world,
                services,
                at + 1,
                projections.push(projection),
            ),
        }
    }
}

/// Every durable service, projected.
pub open spec fn services_listed(world: NodeModelWorld) -> Step<
    Seq<NodeModelServiceProjectionView>,
> {
    let (world, services) = redacted(world.services());
    match services {
        Err(error) => (world, Err(error)),
        Ok(services) => services_projected(world, services, 0, Seq::empty()),
    }
}

/// Operations of one service.
pub open spec fn of_service(operation: OperationView, service_id: ModelServiceId) -> bool {
    operation.target == OperationTarget::ModelService(service_id)
}

/// Every operation and journal of one service, in stored order.
pub open spec fn logs_projected(
    world: NodeModelWorld,
    service_id: ModelServiceId,
) -> Step<NodeModelLogProjectionView> {
    let (world, operations) = redacted(world.operations());
    match operations {
        Err(error) => (world, Err(error)),
        Ok(operations) => {
            let (world, journals) = world.all_journals();
            match journals {
                Err(error) => (world, Err(error)),
                Ok(journals) => (
                    world,
                    Ok(
                        NodeModelLogProjectionView {
                            operations: selected(
                                operations,
                                |operation: OperationView| of_service(operation, service_id),
                            ),
                            journals: selected(
                                journals,
                                |journal: VersionedNodeModelJournalView|
                                    journal.journal.service_id == service_id,
                            ),
                        },
                    ),
                ),
            }
        },
    }
}

#[verifier::loop_isolation(false)]
fn keep_operations(
    operations: &Vec<Operation>,
    service_id: &ModelServiceId,
) -> (kept: Vec<Operation>)
    ensures
        views(kept@) == selected(
            views(operations@),
            |operation: OperationView| of_service(operation, *service_id),
        ),
{
    let ghost all = views(operations@);
    let ghost keep = |operation: OperationView| of_service(operation, *service_id);
    let mut kept: Vec<Operation> = Vec::new();
    let mut i: usize = 0;
    proof {
        assert(views(kept@) =~= selected(all.take(0), keep));
    }
    while i < operations.len()
        invariant
            i <= operations@.len(),
            views(kept@) == selected(all.take(i as int), keep),
        decreases operations@.len() - i,
    {
        let operation = &operations[i];
        let ghost before = views(kept@);
        proof {
            assert(all[i as int] == operation@);
            lemma_selected_step(all, keep, i as int);
        }
        if operation.target == OperationTarget::ModelService(*service_id) {
            kept.push(operation.copy());
            assert(views(kept@) =~= before.push(operation@));
        }
        i += 1;
    }
    proof {
        assert(all.take(all.len() as int) =~= all);
    }
    kept
}

#[verifier::loop_isolation(false)]
fn keep_journals(
    journals: &Vec<VersionedNodeModelJournal>,
    service_id: &ModelServiceId,
) -> (kept: Vec<VersionedNodeModelJournal>)
    ensures
        views(kept@) == selected(
            views(journals@),
            |journal: VersionedNodeModelJournalView| journal.journal.service_id == *service_id,
        ),
{
    let ghost all = views(journals@);
    let ghost keep = |journal: VersionedNodeModelJournalView|
        journal.journal.service_id == *service_id;
    let mut kept: Vec<VersionedNodeModelJournal> = Vec::new();
    let mut i: usize = 0;
    proof {
        assert(views(kept@) =~= selected(all.take(0), keep));
    }
    while i < journals.len()
        invariant
            i <= journals@.len(),
            views(kept@) == selected(all.take(i as int), keep),
        decreases journals@.len() - i,
    {
        let journal = &journals[i];
        let ghost before = views(kept@);
        proof {
            assert(all[i as int] == journal@);
            lemma_selected_step(all, keep, i as int);
        }
        if journal.journal.service_id == *service_id {
            kept.push(journal.copy());
            assert(views(kept@) =~= before.push(journal@));
        }
        i += 1;
    }
    proof {
        assert(all.take(all.len() as int) =~= all);
    }
    kept
}

/// The group whose logs one request reads: the named one when the service owns it, or the only
/// one that the service owns.
pub open spec fn log_group(
    request: NodeModelRuntimeLogRequestView,
    groups: Seq<PlacementGroupId>,
) -> Result<PlacementGroupId, NodeModelError> {
    match request.placement_group_id {
        Some(group) => if groups.contains(group) {
            Ok(group)
        } else {
            Err(
                NodeModelError::InvalidRequest {
                    reason: "placement group does not belong to the selected model service",
                },
            )
        },
        None => if groups.len() == 1 {
            Ok(groups[0])
        } else {
            Err(
                NodeModelError::InvalidRequest {
                    reason: "model runtime logs require one unambiguous placement group",
                },
            )
        },
    }
}

/// Selects the exact group whose logs one request reads.
pub fn select_log_group(
    request: &NodeModelRuntimeLogRequest,
    groups: &Vec<PlacementGroupId>,
) -> (group: Result<PlacementGroupId, NodeModelError>)
    ensures
        group == log_group(request@, groups@),
{
    match request.placement_group_id {
        Some(group) => {
            if contains_id(groups, &group) {
                Ok(group)
            } else {
                Err(
                    NodeModelError::InvalidRequest {
                        reason: "placement group does not belong to the selected model service",
                    },
                )
            }
        },
        None => {
            if groups.len() == 1 {
                Ok(groups[0])
            } else {
                Err(
                    NodeModelError::InvalidRequest {
                        reason: "model runtime logs require one unambiguous placement group",
                    },
                )
            }
        },
    }
}

/// One bounded batch of the selected group's logs.
pub open spec fn runtime_logs_read(
    world: NodeModelWorld,
    request: NodeModelRuntimeLogRequestView,
) -> Step<NodeModelRuntimeLogBatchView> {
    let (world, service) = redacted(world.service(request.service_id));
    match service {
        Err(error) => (world, Err(error)),
        Ok(service) => match log_group(request, service.service.placement_group_ids) {
            Err(error) => (world, Err(error)),
            Ok(group) => {
                let (world, record) = required(from_placement(world.group_record(group)));
                match record {
                    Err(error) => (world, Err(error)),
                    Ok(record) => if record.group.service_id != request.service_id {
                        (world, Err(NodeModelError::RecoveryRequired))
                    } else {
                        let (world, batch) = from_placement(
                            world.read_logs(
                                PlacementLogReadRequestView {
                                    placement_group_id: group,
                                    cursor: request.cursor,
                                    maximum_lines: request.maximum_lines,
                                    maximum_bytes: request.maximum_bytes,
                                    wait: request.wait,
                                },
                            ),
                        );
                        match batch {
                            Err(error) => (world, Err(error)),
                            Ok(batch) => (
                                world,
                                Ok(
                                    NodeModelRuntimeLogBatchView {
                                        service_id: request.service_id,
                                        placement: batch,
                                    },
                                ),
                            ),
                        }
                    },
                }
            },
        },
    }
}

// ---------------------------------------------------------------------------
// Commands
// ---------------------------------------------------------------------------

/// A prepared command that goes on, with compensation when it fails.
pub open spec fn prepared_resumed(
    prepared: Step<VersionedNodeModelJournalView>,
    claims: Set<OperationId>,
) -> Step<NodeModelCommandResultView> {
    match prepared.1 {
        Err(error) => (prepared.0, Err(error)),
        Ok(journal) => resumed(prepared.0, claims, journal, true),
    }
}

/// One rollback command is replayed from its journal, or planned, committed and executed.
pub open spec fn rolled_back(
    world: NodeModelWorld,
    claims: Set<OperationId>,
    identity: NodeModelCommandIdentityView,
    service_id: ModelServiceId,
    target_id: Option<Seq<char>>,
) -> Step<NodeModelCommandResultView> {
    let (world, existing) = world.read_journal(identity.operation_id);
    match existing {
        Err(error) => (world, Err(error)),
        Ok(Some(existing)) => if rollback_matches(
            existing.journal,
            identity,
            service_id,
            target_id,
        ) {
            resumed(world, claims, existing, true)
        } else {
            (world, Err(NodeModelError::JournalConflict))
        },
        Ok(None) => {
            let (world, plan) = rollback_planned(world, service_id, target_id);
            match plan {
                Err(error) => (world, Err(error)),
                Ok(plan) => prepared_resumed(rollback_prepared(world, identity, plan), claims),
            }
        },
    }
}

/// The preview of one rollback.
pub open spec fn rollback_previewed(
    world: NodeModelWorld,
    service_id: ModelServiceId,
    target_id: Option<Seq<char>>,
) -> Step<NodeModelRollbackPreviewView> {
    let (world, plan) = rollback_planned(world, service_id, target_id);
    match plan {
        Err(error) => (world, Err(error)),
        Ok(plan) => (world, Ok(plan_preview(plan))),
    }
}

/// The summary of one executed update.
pub open spec fn updated_summary(
    service: ModelServiceView,
    count: nat,
    result: NodeModelCommandResultView,
) -> NodeModelUpdateSummaryView {
    NodeModelUpdateSummaryView {
        service_id: service.service_id,
        logical_model: service.logical_model,
        disposition: NodeModelUpdateDisposition::Updated,
        placement_group_count: count,
        command: Some(command_summary_of(result)),
    }
}

/// One update command: replayed from its journal, only planned when nothing changes or nothing
/// may change, and otherwise committed and executed.
pub open spec fn updated(
    world: NodeModelWorld,
    claims: Set<OperationId>,
    request: NodeModelUpdateRequestView,
) -> Step<NodeModelUpdateSummaryView> {
    let (world, existing) = world.read_journal(request.identity.operation_id);
    match existing {
        Err(error) => (world, Err(error)),
        Ok(Some(existing)) => if !update_matches(existing.journal, request) || request.dry_run {
            (world, Err(NodeModelError::JournalConflict))
        } else {
            let (world, result) = resumed(world, claims, existing, true);
            match result {
                Err(error) => (world, Err(error)),
                Ok(result) => (
                    world,
                    Ok(
                        updated_summary(
                            result.service,
                            existing.journal.install_groups.len(),
                            result,
                        ),
                    ),
                ),
            }
        },
        Ok(None) => {
            let (world, plan) = update_planned(
                world,
                request.service_id,
                request.explicit_candidate_id,
            );
            match plan {
                Err(error) => (world, Err(error)),
                Ok(plan) => if plan.groups.len() == 0 || request.dry_run {
                    (
                        world,
                        Ok(
                            NodeModelUpdateSummaryView {
                                service_id: plan.service.service_id,
                                logical_model: plan.service.logical_model,
                                disposition: if plan.groups.len() == 0 {
                                    NodeModelUpdateDisposition::Current
                                } else {
                                    NodeModelUpdateDisposition::UpdateAvailable
                                },
                                placement_group_count: plan.groups.len(),
                                command: None,
                            },
                        ),
                    )
                } else {
                    let (world, result) = prepared_resumed(
                        update_prepared(world, request, plan),
                        claims,
                    );
                    match result {
                        Err(error) => (world, Err(error)),
                        Ok(result) => (
                            world,
                            Ok(updated_summary(plan.service, plan.groups.len(), result)),
                        ),
                    }
                },
            }
        },
    }
}

/// Owns explicit cross-manager model-service ordering without merging manager responsibilities.
pub struct NodeModelCoordinator<P> {
    pub ports: P,
    pub claims: NodeModelExecutionClaims,
}

impl<P: NodeModelOrchestrationPorts> NodeModelCoordinator<P> {
    /// Creates one coordinator over its ports with no claimed operation.
    pub fn new(ports: P) -> (coordinator: Self)
        ensures
            coordinator.ports == ports,
            coordinator.claims.wf(),
            coordinator.claims@ == Set::<OperationId>::empty(),
    {
        NodeModelCoordinator { ports, claims: NodeModelExecutionClaims::new() }
    }

    /// Lists every durable model service with exact group and installation bindings.
    #[verifier::loop_isolation(false)]
    pub fn list(&mut self) -> (projections: Result<Vec<NodeModelServiceProjection>, NodeModelError>)
        ensures
            (final(self).ports.world(), listed(projections)) == services_listed(
                old(self).ports.world(),
            ),
            final(self).claims == old(self).claims,
    {
        let services = match self.ports.services() {
            Ok(services) => services,
            Err(_) => {
                return Err(NodeModelError::StateUnavailable);
            },
        };
        let ghost start = self.ports.world();
        let ghost all = views(services@);
        let mut projections: Vec<NodeModelServiceProjection> = Vec::new();
        let mut i: usize = 0;
        proof {
            assert(views(projections@) =~= Seq::<NodeModelServiceProjectionView>::empty());
        }
        while i < services.len()
            invariant
                i <= services@.len(),
                self.claims == old(self).claims,
                services_projected(self.ports.world(), all, i as int, views(projections@))
                    == services_projected(start, all, 0, Seq::empty()),
            decreases services@.len() - i,
        {
            let ghost before = views(projections@);
            assert(all[i as int] == services@[i as int]@);
            let projection = project_service(&mut self.ports, services[i].copy())?;
            projections.push(projection);
            assert(views(projections@) =~= before.push(projection@));
            i += 1;
        }
        Ok(projections)
    }

    /// Projects every operation and journal owned by one exact model service.
    pub fn logs(&mut self, service_id: &ModelServiceId) -> (logs: Result<
        NodeModelLogProjection,
        NodeModelError,
    >)
        ensures
            (final(self).ports.world(), outcome(logs)) == logs_projected(
                old(self).ports.world(),
                *service_id,
            ),
            final(self).claims == old(self).claims,
    {
        let operations = match self.ports.operations() {
            Ok(operations) => operations,
            Err(_) => {
                return Err(NodeModelError::StateUnavailable);
            },
        };
        let journals = self.ports.all()?;
        Ok(
            NodeModelLogProjection {
                operations: keep_operations(&operations, service_id),
                journals: keep_journals(&journals, service_id),
            },
        )
    }

    /// Resolves one exact service group before delegating opaque runtime bytes to its owner.
    pub fn runtime_logs(&mut self, request: NodeModelRuntimeLogRequest) -> (batch: Result<
        NodeModelRuntimeLogBatch,
        NodeModelError,
    >)
        ensures
            (final(self).ports.world(), outcome(batch)) == runtime_logs_read(
                old(self).ports.world(),
                request@,
            ),
            final(self).claims == old(self).claims,
    {
        let service = known_service(&mut self.ports, &request.service_id)?.service;
        let group = select_log_group(&request, &service.placement_group_ids)?;
        let record = known_group(&mut self.ports, &group)?;
        if record.group.service_id != request.service_id {
            return Err(NodeModelError::RecoveryRequired);
        }
        let read = PlacementLogReadRequest {
            placement_group_id: group,
            cursor: request.cursor,
            maximum_lines: request.maximum_lines,
            maximum_bytes: request.maximum_bytes,
            wait: request.wait,
        };
        match self.ports.read_logs(read) {
            Ok(batch) => Ok(NodeModelRuntimeLogBatch::new(request.service_id, batch)),
            Err(error) => Err(NodeModelError::Placement(error)),
        }
    }

    /// Dispatches one durable journal through its ordinary lifecycle or compensation path.
    pub fn resume_journal(
        &mut self,
        journal: VersionedNodeModelJournal,
        compensate_on_failure: bool,
    ) -> (result: Result<NodeModelCommandResult, NodeModelError>)
        requires
            old(self).claims.wf(),
        ensures
            (final(self).ports.world(), outcome(result)) == resumed(
                old(self).ports.world(),
                old(self).claims@,
                journal@,
                compensate_on_failure,
            ),
            final(self).claims.wf(),
            final(self).claims@ == old(self).claims@,
    {
        if has_succeeded(&mut self.ports, &journal.journal)? {
            return result_of(&mut self.ports, journal);
        }
        if journal.journal.state == NodeModelJournalState::CleanupPending {
            return Err(NodeModelError::RecoveryRequired);
        }
        let operation_id = journal.journal.operation_id;
        let ghost before = self.claims@;
        self.claims.acquire(&operation_id)?;
        let result = resume_claimed(&mut self.ports, &operation_id, compensate_on_failure);
        self.claims.release(&operation_id);
        proof {
            law_claim_release_undoes_acquire(before, operation_id);
        }
        result
    }

    /// Retries one persisted compensation plan during resident recovery without a user command.
    pub fn retry_compensation(&mut self, journal: VersionedNodeModelJournal) -> (result: Result<
        NodeModelCommandResult,
        NodeModelError,
    >)
        requires
            old(self).claims.wf(),
        ensures
            (final(self).ports.world(), outcome(result)) == compensation_retried(
                old(self).ports.world(),
                old(self).claims@,
                journal@,
            ),
            final(self).claims.wf(),
            final(self).claims@ == old(self).claims@,
    {
        let operation_id = journal.journal.operation_id;
        let ghost before = self.claims@;
        self.claims.acquire(&operation_id)?;
        let result = retry_claimed(&mut self.ports, &operation_id);
        self.claims.release(&operation_id);
        proof {
            law_claim_release_undoes_acquire(before, operation_id);
        }
        result
    }

    /// Resumes every non-terminal journal without caller-supplied hidden lifecycle state.
    #[verifier::loop_isolation(false)]
    pub fn recover_pending(&mut self) -> (results: Result<
        Vec<NodeModelCommandResult>,
        NodeModelError,
    >)
        requires
            old(self).claims.wf(),
        ensures
            ({
                let (world, journals) = old(self).ports.world().all_journals();
                (final(self).ports.world(), listed(results)) == match journals {
                    Err(error) => (world, Err(error)),
                    Ok(journals) => pending_recovered(
                        world,
                        old(self).claims@,
                        journals,
                        0,
                        Seq::empty(),
                    ),
                }
            }),
            final(self).claims.wf(),
            final(self).claims@ == old(self).claims@,
    {
        let journals = self.ports.all()?;
        let ghost start = self.ports.world();
        let ghost claims = self.claims@;
        let ghost all = views(journals@);
        let mut results: Vec<NodeModelCommandResult> = Vec::new();
        let mut i: usize = 0;
        proof {
            assert(views(results@) =~= Seq::<NodeModelCommandResultView>::empty());
        }
        while i < journals.len()
            invariant
                i <= journals@.len(),
                self.claims.wf(),
                self.claims@ == claims,
                pending_recovered(self.ports.world(), claims, all, i as int, views(results@))
                    == pending_recovered(start, claims, all, 0, Seq::empty()),
            decreases journals@.len() - i,
        {
            let ghost before = views(results@);
            let journal = journals[i].copy();
            assert(all[i as int] == journal@);
            if journal.journal.state == NodeModelJournalState::CleanupPending {
                let result = self.retry_compensation(journal)?;
                results.push(result);
                assert(views(results@) =~= before.push(result@));
            } else {
                let unreported = is_success_unreported(&mut self.ports, &journal.journal)?;
                if !journal.journal.state.is_terminal() || unreported {
                    let result = self.resume_journal(journal, false)?;
                    results.push(result);
                    assert(views(results@) =~= before.push(result@));
                }
            }
            i += 1;
        }
        Ok(results)
    }

    /// Installs runtimes, stages groups, and activates one logical service in explicit order.
    pub fn install(&mut self, request: NodeModelInstallRequest) -> (result: Result<
        NodeModelCommandResult,
        NodeModelError,
    >)
        requires
            old(self).claims.wf(),
        ensures
            (final(self).ports.world(), outcome(result)) == prepared_resumed(
                install_prepared(old(self).ports.world(), request@),
                old(self).claims@,
            ),
            final(self).claims.wf(),
            final(self).claims@ == old(self).claims@,
    {
        let journal = prepare_install(&mut self.ports, request)?;
        self.resume_journal(journal, true)
    }

    /// Checks or applies signed runtime replacements through this coordinator's journal.
    pub fn update(&mut self, request: NodeModelUpdateRequest) -> (summary: Result<
        NodeModelUpdateSummary,
        NodeModelError,
    >)
        requires
            old(self).claims.wf(),
        ensures
            (final(self).ports.world(), outcome(summary)) == updated(
                old(self).ports.world(),
                old(self).claims@,
                request@,
            ),
            final(self).claims.wf(),
            final(self).claims@ == old(self).claims@,
    {
        match self.ports.read(&request.identity.operation_id)? {
            Some(existing) => {
                if !update_request_matches(&existing.journal, &request) || request.dry_run {
                    return Err(NodeModelError::JournalConflict);
                }
                let count: usize = existing.journal.install_groups.len();
                let result = self.resume_journal(existing, true)?;
                Ok(
                    NodeModelUpdateSummary::new(
                        result.service.service_id,
                        result.service.logical_model.copy(),
                        NodeModelUpdateDisposition::Updated,
                        count,
                        Some(command_summary(&result)),
                    ),
                )
            },
            None => {
                let plan = update_plan(
                    &mut self.ports,
                    &request.service_id,
                    &request.explicit_candidate_id,
                )?;
                let count: usize = plan.groups.len();
                let service_id = plan.service.service_id;
                let logical_model = plan.service.logical_model.copy();
                if count == 0 || request.dry_run {
                    let disposition = if count == 0 {
                        NodeModelUpdateDisposition::Current
                    } else {
                        NodeModelUpdateDisposition::UpdateAvailable
                    };
                    return Ok(
                        NodeModelUpdateSummary::new(
                            service_id,
                            logical_model,
                            disposition,
                            count,
                            None,
                        ),
                    );
                }
                let journal = prepare_update(&mut self.ports, request, plan)?;
                let result = self.resume_journal(journal, true)?;
                Ok(
                    NodeModelUpdateSummary::new(
                        service_id,
                        logical_model,
                        NodeModelUpdateDisposition::Updated,
                        count,
                        Some(command_summary(&result)),
                    ),
                )
            },
        }
    }

    /// Creates and starts one existing-service lifecycle journal.
    pub fn begin_existing(
        &mut self,
        identity: NodeModelCommandIdentity,
        service_id: ModelServiceId,
        action: NodeModelAction,
    ) -> (result: Result<NodeModelCommandResult, NodeModelError>)
        requires
            old(self).claims.wf(),
        ensures
            (final(self).ports.world(), outcome(result)) == prepared_resumed(
                existing_prepared(old(self).ports.world(), identity@, service_id, action),
                old(self).claims@,
            ),
            final(self).claims.wf(),
            final(self).claims@ == old(self).claims@,
    {
        let journal = prepare_existing(&mut self.ports, identity, &service_id, action)?;
        self.resume_journal(journal, true)
    }

    /// Stops every service group while retaining its exact assignments.
    pub fn pause(
        &mut self,
        identity: NodeModelCommandIdentity,
        service_id: ModelServiceId,
    ) -> (result: Result<NodeModelCommandResult, NodeModelError>)
        requires
            old(self).claims.wf(),
        ensures
            (final(self).ports.world(), outcome(result)) == prepared_resumed(
                existing_prepared(
                    old(self).ports.world(),
                    identity@,
                    service_id,
                    NodeModelAction::Pause,
                ),
                old(self).claims@,
            ),
            final(self).claims.wf(),
            final(self).claims@ == old(self).claims@,
    {
        self.begin_existing(identity, service_id, NodeModelAction::Pause)
    }

    /// Starts every stopped service group without changing runtime installations.
    pub fn resume(
        &mut self,
        identity: NodeModelCommandIdentity,
        service_id: ModelServiceId,
    ) -> (result: Result<NodeModelCommandResult, NodeModelError>)
        requires
            old(self).claims.wf(),
        ensures
            (final(self).ports.world(), outcome(result)) == prepared_resumed(
                existing_prepared(
                    old(self).ports.world(),
                    identity@,
                    service_id,
                    NodeModelAction::Resume,
                ),
                old(self).claims@,
            ),
            final(self).claims.wf(),
            final(self).claims@ == old(self).claims@,
    {
        self.begin_existing(identity, service_id, NodeModelAction::Resume)
    }

    /// Restarts every exact group through stop and start ordering.
    pub fn restart(
        &mut self,
        identity: NodeModelCommandIdentity,
        service_id: ModelServiceId,
    ) -> (result: Result<NodeModelCommandResult, NodeModelError>)
        requires
            old(self).claims.wf(),
        ensures
            (final(self).ports.world(), outcome(result)) == prepared_resumed(
                existing_prepared(
                    old(self).ports.world(),
                    identity@,
                    service_id,
                    NodeModelAction::Restart,
                ),
                old(self).claims@,
            ),
            final(self).claims.wf(),
            final(self).claims@ == old(self).claims@,
    {
        self.begin_existing(identity, service_id, NodeModelAction::Restart)
    }

    /// Recovers every failed or degraded group with explicit protection acknowledgement.
    pub fn recover(
        &mut self,
        identity: NodeModelCommandIdentity,
        service_id: ModelServiceId,
    ) -> (result: Result<NodeModelCommandResult, NodeModelError>)
        requires
            old(self).claims.wf(),
        ensures
            (final(self).ports.world(), outcome(result)) == prepared_resumed(
                existing_prepared(
                    old(self).ports.world(),
                    identity@,
                    service_id,
                    NodeModelAction::Recover,
                ),
                old(self).claims@,
            ),
            final(self).claims.wf(),
            final(self).claims@ == old(self).claims@,
    {
        self.begin_existing(identity, service_id, NodeModelAction::Recover)
    }

    /// Removes every group before deleting only command-created unreferenced runtimes.
    pub fn remove(&mut self, request: NodeModelRemoveRequest) -> (result: Result<
        NodeModelCommandResult,
        NodeModelError,
    >)
        requires
            old(self).claims.wf(),
        ensures
            (final(self).ports.world(), outcome(result)) == prepared_resumed(
                remove_prepared(old(self).ports.world(), request@),
                old(self).claims@,
            ),
            final(self).claims.wf(),
            final(self).claims@ == old(self).claims@,
    {
        let journal = prepare_remove(&mut self.ports, request)?;
        self.resume_journal(journal, true)
    }

    /// Restores the latest retained prior runtime for one service and optional target.
    pub fn rollback(
        &mut self,
        identity: NodeModelCommandIdentity,
        service_id: ModelServiceId,
        target_id: Option<TargetId>,
    ) -> (result: Result<NodeModelCommandResult, NodeModelError>)
        requires
            old(self).claims.wf(),
        ensures
            (final(self).ports.world(), outcome(result)) == rolled_back(
                old(self).ports.world(),
                old(self).claims@,
                identity@,
                service_id,
                viewed(target_id),
            ),
            final(self).claims.wf(),
            final(self).claims@ == old(self).claims@,
    {
        match self.ports.read(&identity.operation_id)? {
            Some(existing) => {
                if rollback_request_matches(&existing.journal, &identity, &service_id, &target_id) {
                    self.resume_journal(existing, true)
                } else {
                    Err(NodeModelError::JournalConflict)
                }
            },
            None => {
                let plan = rollback_plan(&mut self.ports, &service_id, &target_id)?;
                let journal = prepare_rollback(&mut self.ports, identity, plan)?;
                self.resume_journal(journal, true)
            },
        }
    }

    /// Projects one retained-runtime rollback plan without creating state or calling providers.
    pub fn preview_rollback(
        &mut self,
        service_id: &ModelServiceId,
        target_id: &Option<TargetId>,
    ) -> (preview: Result<NodeModelRollbackPreview, NodeModelError>)
        ensures
            (final(self).ports.world(), outcome(preview)) == rollback_previewed(
                old(self).ports.world(),
                *service_id,
                viewed(*target_id),
            ),
            final(self).claims == old(self).claims,
    {
        let plan = rollback_plan(&mut self.ports, service_id, target_id)?;
        Ok(preview_plan(plan))
    }

    /// Returns the closed private summary of every listed service.
    #[verifier::loop_isolation(false)]
    pub fn list_summaries(&mut self) -> (summaries: Result<
        Vec<NodeModelServiceSummary>,
        NodeModelError,
    >)
        ensures
            ({
                let (world, projections) = services_listed(old(self).ports.world());
                (final(self).ports.world(), listed(summaries)) == match projections {
                    Err(error) => (world, Err(error)),
                    Ok(projections) => (
                        world,
                        Ok(
                            projections.map_values(
                                |projection: NodeModelServiceProjectionView|
                                    service_summary_of(projection),
                            ),
                        ),
                    ),
                }
            }),
            final(self).claims == old(self).claims,
    {
        let projections = self.list()?;
        let ghost expected = views(projections@).map_values(
            |projection: NodeModelServiceProjectionView| service_summary_of(projection),
        );
        let mut summaries: Vec<NodeModelServiceSummary> = Vec::new();
        let mut i: usize = 0;
        while i < projections.len()
            invariant
                i <= projections@.len(),
                summaries@.len() == i,
                forall|k: int| 0 <= k < i ==> (#[trigger] summaries@[k])@ == expected[k],
            decreases projections@.len() - i,
        {
            summaries.push(service_summary(&projections[i]));
            i += 1;
        }
        assert(views(summaries@) =~= expected);
        Ok(summaries)
    }

    /// Returns the bounded redacted identities of one service's log projection.
    pub fn log_summaries(&mut self, service_id: &ModelServiceId) -> (summary: Result<
        NodeModelLogSummary,
        NodeModelError,
    >)
        ensures
            ({
                let (world, logs) = logs_projected(old(self).ports.world(), *service_id);
                (final(self).ports.world(), outcome(summary)) == match logs {
                    Err(error) => (world, Err(error)),
                    Ok(logs) => (world, Ok(log_summary_of(*service_id, logs))),
                }
            }),
            final(self).claims == old(self).claims,
    {
        let logs = self.logs(service_id)?;
        Ok(log_summary(service_id, &logs))
    }
}

} // verus!
