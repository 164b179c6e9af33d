//! The execution of one durable model command, phase by phase.

use vstd::prelude::*;

use crate::entity::{
    HardwareObservation, HardwareObservationView, ModelService, ModelServiceDesiredState,
    ModelServiceView, PlacementGroupState, PlacementRequest, PlacementRequestView,
    RuntimeCandidate, RuntimeCandidateView, RuntimeError, RuntimeInstallation,
    RuntimeInstallationState, RuntimeInstallationView,
};
use crate::identity::{
    clone_ids, sort_ids, sorted_ids, unique_ids, EntityTimestamps, ModelServiceId, NodeId,
    PlacementGroupId, RuntimeCandidateId, RuntimeInstallationId,
};
use crate::node_model_contract::{
    receipt_key, NodeModelAction, NodeModelError, NodeModelInstallGroupView, NodeModelJournal,
    NodeModelJournalView, NodeModelRemovalRetention, NodeModelRuntimeDisposition,
    NodeModelRuntimeReceipt, NodeModelRuntimeReceiptView, VersionedNodeModelJournal,
    VersionedNodeModelJournalView,
};
use crate::node_model_groups::{
    all_recovered, all_stopped, all_stopped_reversed, completed, created_installation,
    ensure_attached, ensure_detached, ensure_group_running, ensure_group_stopped,
    ensure_service_state, from_placement, from_runtime, group_attached, group_detached,
    group_released, group_running, group_stopped, known_group, known_installation, known_service,
    move_service, recover_all, redacted, release_group, required, retire_runtime, runtime_retired,
    service_in_state, stop_all, stop_all_reversed, NodeModelOrchestrationPorts, Step,
};
use crate::node_model_rules::{
    attach_phase, attach_phase_name, candidate_installed, candidate_matches_installation,
    group_phase, group_phase_name, group_runtime, phase, phase_key, placement_record_matches,
    placement_request_checked, record_matches, require_group_runtime_identity,
    validate_placement_request,
};
use crate::node_model_world::{NodeModelPlacementPort, NodeModelRuntimePort, NodeModelWorld};
use crate::sequence::{
    distinct, lemma_selected_step, outcome, selected, sort_stable, stable_sort, viewed, views,
    Keyed, Valued,
};

verus! {

// ---------------------------------------------------------------------------
// Receipts
// ---------------------------------------------------------------------------

/// The receipt of one planned position and node, from one position of the list on.
pub open spec fn receipt_from(
    receipts: Seq<NodeModelRuntimeReceiptView>,
    group_index: usize,
    node_id: NodeId,
    at: int,
) -> Option<NodeModelRuntimeReceiptView>
    decreases receipts.len() - at,
{
    if at < 0 || at >= receipts.len() {
        None
    } else if receipts[at].group_index == group_index && receipts[at].node_id == node_id {
        Some(receipts[at])
    } else {
        receipt_from(receipts, group_index, node_id, at + 1)
    }
}

#[verifier::loop_isolation(false)]
fn find_receipt(
    journal: &NodeModelJournal,
    group_index: usize,
    node_id: &NodeId,
) -> (receipt: Option<NodeModelRuntimeReceipt>)
    ensures
        viewed(receipt) == receipt_from(journal@.runtime_receipts, group_index, *node_id, 0),
{
    let ghost receipts = journal@.runtime_receipts;
    let mut i: usize = 0;
    while i < journal.runtime_receipts.len()
        invariant
            i <= journal.runtime_receipts@.len(),
            receipt_from(receipts, group_index, *node_id, i as int) == receipt_from(
                receipts,
                group_index,
                *node_id,
                0,
            ),
        decreases journal.runtime_receipts@.len() - i,
    {
        let receipt = &journal.runtime_receipts[i];
        assert(receipts[i as int] == receipt@);
        if receipt.group_index == group_index && receipt.node_id == *node_id {
            return Some(receipt.copy());
        }
        i += 1;
    }
    None
}

/// Receipts that one new receipt does not replace.
pub open spec fn other_receipts(
    receipts: Seq<NodeModelRuntimeReceiptView>,
    receipt: NodeModelRuntimeReceiptView,
) -> Seq<NodeModelRuntimeReceiptView> {
    selected(
        receipts,
        |existing: NodeModelRuntimeReceiptView|
            existing.group_index != receipt.group_index || existing.node_id != receipt.node_id,
    )
}

/// The receipts after one receipt was recorded: it replaces the receipt of its group and node,
/// and all are ordered by group and node.
pub open spec fn receipts_with(
    receipts: Seq<NodeModelRuntimeReceiptView>,
    receipt: NodeModelRuntimeReceiptView,
) -> Seq<NodeModelRuntimeReceiptView> {
    stable_sort(
        other_receipts(receipts, receipt).push(receipt),
        |receipt: NodeModelRuntimeReceiptView| receipt_key(receipt),
    )
}

#[verifier::loop_isolation(false)]
fn record_receipt(
    receipts: &Vec<NodeModelRuntimeReceipt>,
    receipt: NodeModelRuntimeReceipt,
) -> (recorded: Vec<NodeModelRuntimeReceipt>)
    ensures
        views(recorded@) == receipts_with(views(receipts@), receipt@),
{
    let ghost all = views(receipts@);
    let ghost keep = |existing: NodeModelRuntimeReceiptView|
        existing.group_index != receipt@.group_index || existing.node_id != receipt@.node_id;
    let mut kept: Vec<NodeModelRuntimeReceipt> = Vec::new();
    let mut i: usize = 0;
    proof {
        assert(views(kept@) =~= selected(all.take(0), keep));
    }
    while i < receipts.len()
        invariant
            i <= receipts@.len(),
            views(kept@) == selected(all.take(i as int), keep),
        decreases receipts@.len() - i,
    {
        let existing = &receipts[i];
        let ghost before = views(kept@);
        proof {
            assert(all[i as int] == existing@);
            lemma_selected_step(all, keep, i as int);
        }
        if existing.group_index != receipt.group_index || existing.node_id != receipt.node_id {
            kept.push(existing.copy());
            assert(views(kept@) =~= before.push(existing@));
        }
        i += 1;
    }
    let ghost others = views(kept@);
    proof {
        assert(all.take(all.len() as int) =~= all);
    }
    kept.push(receipt);
    proof {
        assert(views(kept@) =~= others.push(receipt@));
        let by_trait = |model: NodeModelRuntimeReceiptView| NodeModelRuntimeReceipt::key(model);
        let by_key = |receipt: NodeModelRuntimeReceiptView| receipt_key(receipt);
        assert(by_trait =~= by_key);
    }
    sort_stable(kept)
}

/// One journal that records one more receipt.
pub open spec fn receipt_saved(
    world: NodeModelWorld,
    journal: VersionedNodeModelJournalView,
    receipt: NodeModelRuntimeReceiptView,
) -> Step<VersionedNodeModelJournalView> {
    let (world, now) = world.now();
    match now {
        Err(error) => (world, Err(error)),
        Ok(now) => world.replace_journal(
            NodeModelJournalView {
                runtime_receipts: receipts_with(journal.journal.runtime_receipts, receipt),
                updated_at: now,
                ..journal.journal
            },
            journal.revision,
        ),
    }
}

/// Records one selected, pending, created, or reused runtime binding optimistically.
pub fn save_runtime_receipt<P: NodeModelOrchestrationPorts>(
    ports: &mut P,
    journal: VersionedNodeModelJournal,
    receipt: NodeModelRuntimeReceipt,
) -> (saved: Result<VersionedNodeModelJournal, NodeModelError>)
    ensures
        (final(ports).world(), outcome(saved)) == receipt_saved(
            old(ports).world(),
            journal@,
            receipt@,
        ),
{
    let revision = journal.revision;
    let mut updated = journal.journal;
    updated.runtime_receipts = record_receipt(&updated.runtime_receipts, receipt);
    updated.updated_at = ports.now()?;
    ports.replace(updated, revision)
}

// ---------------------------------------------------------------------------
// Acquisition
// ---------------------------------------------------------------------------

/// An available installation of the candidate on one node.
pub open spec fn installation_matches(
    installation: RuntimeInstallationView,
    node_id: NodeId,
    candidate: RuntimeCandidateView,
) -> bool {
    &&& installation.node_id == node_id
    &&& installation.state == RuntimeInstallationState::Available
    &&& candidate_installed(candidate, installation)
}

impl Keyed for RuntimeInstallation {
    open spec fn key(model: RuntimeInstallationView) -> (int, int) {
        (0, model.installation_id.value as int)
    }

    fn key_at_most(&self, other: &Self) -> (at_most: bool) {
        self.installation_id.value <= other.installation_id.value
    }
}

/// The matching installations of one list in the order of their identities.
pub open spec fn matching_of(
    installations: Seq<RuntimeInstallationView>,
    node_id: NodeId,
    candidate: RuntimeCandidateView,
) -> Seq<RuntimeInstallationView> {
    stable_sort(
        selected(
            installations,
            |installation: RuntimeInstallationView|
                installation_matches(installation, node_id, candidate),
        ),
        |installation: RuntimeInstallationView| RuntimeInstallation::key(installation),
    )
}

/// Every installation that matches the candidate on one node.
pub open spec fn matching_listed(
    world: NodeModelWorld,
    node_id: NodeId,
    candidate: RuntimeCandidateView,
) -> Step<Seq<RuntimeInstallationView>> {
    let (world, installations) = from_runtime(world.installations());
    match installations {
        Err(error) => (world, Err(error)),
        Ok(installations) => (world, Ok(matching_of(installations, node_id, candidate))),
    }
}

/// Returns exact compatible available installations in stable identity order.
#[verifier::loop_isolation(false)]
pub fn matching_installations<P: NodeModelOrchestrationPorts>(
    ports: &mut P,
    node_id: &NodeId,
    candidate: &RuntimeCandidate,
) -> (matching: Result<Vec<RuntimeInstallation>, NodeModelError>)
    ensures
        (final(ports).world(), crate::sequence::listed(matching)) == matching_listed(
            old(ports).world(),
            *node_id,
            candidate@,
        ),
{
    let installations = match ports.installations() {
        Ok(installations) => installations,
        Err(error) => {
            return Err(NodeModelError::Runtime(error));
        },
    };
    let ghost all = views(installations@);
    let ghost keep = |installation: RuntimeInstallationView|
        installation_matches(installation, *node_id, candidate@);
    let mut matching: Vec<RuntimeInstallation> = Vec::new();
    let mut i: usize = 0;
    proof {
        assert(views(matching@) =~= selected(all.take(0), keep));
    }
    while i < installations.len()
        invariant
            i <= installations@.len(),
            views(matching@) == selected(all.take(i as int), keep),
        decreases installations@.len() - i,
    {
        let installation = &installations[i];
        let ghost before = views(matching@);
        proof {
            assert(all[i as int] == installation@);
            lemma_selected_step(all, keep, i as int);
        }
        if installation.node_id == *node_id && installation.state
            == RuntimeInstallationState::Available && candidate_matches_installation(
            candidate,
            installation,
        ) {
            matching.push(installation.copy());
            assert(views(matching@) =~= before.push(installation@));
        }
        i += 1;
    }
    proof {
        assert(all.take(all.len() as int) =~= all);
    }
    Ok(sort_stable(matching))
}

/// One acquired installation and how it was acquired.
pub type Acquired = (RuntimeInstallationId, NodeModelRuntimeDisposition);

/// One installation of a pinned candidate. A success that does not match is unavailable; a
/// failure is resolved by what is then installed.
pub open spec fn installed_or_reread(
    world: NodeModelWorld,
    node_id: NodeId,
    candidate: RuntimeCandidateView,
    hardware: HardwareObservationView,
    fail_on_multiple: bool,
) -> Step<Acquired> {
    let (world, reply) = world.install_runtime(
        node_id,
        candidate.logical_model,
        candidate.runtime.candidate_id,
        hardware,
    );
    match reply {
        Ok(installation) => if installation.state == RuntimeInstallationState::Available
            && candidate_installed(candidate, installation) {
            (world, Ok((installation.installation_id, NodeModelRuntimeDisposition::Created)))
        } else {
            (world, Err(NodeModelError::Runtime(RuntimeError::InstallationUnavailable)))
        },
        Err(error) => {
            let (world, matching) = matching_listed(world, node_id, candidate);
            match matching {
                Err(failure) => (world, Err(failure)),
                Ok(matching) => if matching.len() == 1 || (!fail_on_multiple && matching.len()
                    > 0) {
                    (
                        world,
                        Ok(
                            (
                                matching[0].installation_id,
                                NodeModelRuntimeDisposition::OwnershipUnknown,
                            ),
                        ),
                    )
                } else {
                    (world, Err(NodeModelError::Runtime(error)))
                },
            }
        },
    }
}

/// Installs one pinned candidate and resolves an ambiguous success by authoritative reread.
pub fn install_with_authoritative_reread<P: NodeModelOrchestrationPorts>(
    ports: &mut P,
    node_id: &NodeId,
    candidate: &RuntimeCandidate,
    hardware: &HardwareObservation,
    fail_on_multiple: bool,
) -> (acquired: Result<Acquired, NodeModelError>)
    ensures
        (final(ports).world(), acquired) == installed_or_reread(
            old(ports).world(),
            *node_id,
            candidate@,
            hardware@,
            fail_on_multiple,
        ),
{
    let reply = ports.install(
        *node_id,
        &candidate.logical_model,
        &candidate.runtime.candidate_id,
        hardware,
    );
    match reply {
        Ok(installation) => {
            if installation.state == RuntimeInstallationState::Available
                && candidate_matches_installation(candidate, &installation) {
                Ok((installation.installation_id, NodeModelRuntimeDisposition::Created))
            } else {
                Err(NodeModelError::Runtime(RuntimeError::InstallationUnavailable))
            }
        },
        Err(error) => {
            let matching = matching_installations(ports, node_id, candidate)?;
            if matching.len() == 1 || (!fail_on_multiple && matching.len() > 0) {
                Ok((matching[0].installation_id, NodeModelRuntimeDisposition::OwnershipUnknown))
            } else {
                Err(NodeModelError::Runtime(error))
            }
        },
    }
}

/// The candidate that current hardware selects for one node.
pub open spec fn candidate_selected(
    world: NodeModelWorld,
    logical_model: Seq<char>,
    explicit_candidate_id: Option<Seq<char>>,
    node_id: NodeId,
) -> Step<(RuntimeCandidateView, HardwareObservationView)> {
    let (world, hardware) = world.observation(node_id);
    match hardware {
        Err(error) => (world, Err(error)),
        Ok(hardware) => {
            let (world, candidate) = from_runtime(
                world.select_runtime(logical_model, explicit_candidate_id, hardware),
            );
            match candidate {
                Err(error) => (world, Err(error)),
                Ok(candidate) => (world, Ok((candidate, hardware))),
            }
        },
    }
}

/// One selected candidate with the observation that it was selected for.
pub fn select_candidate<P: NodeModelOrchestrationPorts>(
    ports: &mut P,
    logical_model: &crate::identity::LogicalModelName,
    explicit_candidate_id: &Option<RuntimeCandidateId>,
    node_id: &NodeId,
) -> (selected: Result<(RuntimeCandidate, HardwareObservation), NodeModelError>)
    ensures
        (final(ports).world(), pair_outcome(selected)) == candidate_selected(
            old(ports).world(),
            logical_model@,
            viewed(*explicit_candidate_id),
            *node_id,
        ),
{
    let hardware = ports.observation(node_id)?;
    match ports.select(logical_model, explicit_candidate_id, &hardware) {
        Ok(candidate) => Ok((candidate, hardware)),
        Err(error) => Err(NodeModelError::Runtime(error)),
    }
}

/// One outcome with both parts of its success by view.
pub open spec fn pair_outcome<A: View, B: View>(result: Result<(A, B), NodeModelError>) -> Result<
    (A::V, B::V),
    NodeModelError,
> {
    match result {
        Ok(pair) => Ok((pair.0@, pair.1@)),
        Err(error) => Err(error),
    }
}

/// One outcome of a journal and a list, by view.
pub open spec fn journal_list_outcome<A: View, B: View>(
    result: Result<(A, Vec<B>), NodeModelError>,
) -> Result<(A::V, Seq<B::V>), NodeModelError> {
    match result {
        Ok(pair) => Ok((pair.0@, views(pair.1@))),
        Err(error) => Err(error),
    }
}

/// The receipt of one node after its runtime was reused, resolved or installed.
///
/// A settled receipt stays. A pending receipt is resolved by the only matching installation, or
/// by installing. Without a receipt, a matching installation is reused; otherwise a pending
/// receipt is recorded before installing.
pub open spec fn runtime_acquired(
    world: NodeModelWorld,
    journal: VersionedNodeModelJournalView,
    group_index: usize,
    node_id: NodeId,
    receipt: Option<NodeModelRuntimeReceiptView>,
    candidate_id: Seq<char>,
    candidate: RuntimeCandidateView,
    hardware: HardwareObservationView,
    matching: Seq<RuntimeInstallationView>,
) -> Step<(VersionedNodeModelJournalView, NodeModelRuntimeReceiptView)> {
    match receipt {
        Some(receipt) => if receipt.disposition != NodeModelRuntimeDisposition::InstallPending {
            (world, Ok((journal, receipt)))
        } else if matching.len() > 1 {
            (world, Err(NodeModelError::RecoveryRequired))
        } else {
            let (world, acquired) = if matching.len() == 1 {
                (
                    world,
                    Ok(
                        (
                            matching[0].installation_id,
                            NodeModelRuntimeDisposition::OwnershipUnknown,
                        ),
                    ),
                )
            } else {
                installed_or_reread(world, node_id, candidate, hardware, true)
            };
            match acquired {
                Err(error) => (world, Err(error)),
                Ok(acquired) => recorded(
                    world,
                    journal,
                    NodeModelRuntimeReceiptView {
                        installation_id: Some(acquired.0),
                        disposition: acquired.1,
                        ..receipt
                    },
                ),
            }
        },
        None => if matching.len() > 0 {
            recorded(
                world,
                journal,
                NodeModelRuntimeReceiptView {
                    group_index,
                    node_id,
                    candidate_id,
                    installation_id: Some(matching[0].installation_id),
                    disposition: NodeModelRuntimeDisposition::Reused,
                },
            )
        } else {
            let pending = NodeModelRuntimeReceiptView {
                group_index,
                node_id,
                candidate_id,
                installation_id: None,
                disposition: NodeModelRuntimeDisposition::InstallPending,
            };
            let (world, journal) = receipt_saved(world, journal, pending);
            match journal {
                Err(error) => (world, Err(error)),
                Ok(journal) => {
                    let (world, acquired) = installed_or_reread(
                        world,
                        node_id,
                        candidate,
                        hardware,
                        true,
                    );
                    match acquired {
                        Err(error) => (world, Err(error)),
                        Ok(acquired) => recorded(
                            world,
                            journal,
                            NodeModelRuntimeReceiptView {
                                installation_id: Some(acquired.0),
                                disposition: acquired.1,
                                ..pending
                            },
                        ),
                    }
                },
            }
        },
    }
}

/// One receipt is recorded and handed back with its journal.
pub open spec fn recorded(
    world: NodeModelWorld,
    journal: VersionedNodeModelJournalView,
    receipt: NodeModelRuntimeReceiptView,
) -> Step<(VersionedNodeModelJournalView, NodeModelRuntimeReceiptView)> {
    let (world, journal) = receipt_saved(world, journal, receipt);
    match journal {
        Err(error) => (world, Err(error)),
        Ok(journal) => (world, Ok((journal, receipt))),
    }
}

fn record_and_keep<P: NodeModelOrchestrationPorts>(
    ports: &mut P,
    journal: VersionedNodeModelJournal,
    receipt: NodeModelRuntimeReceipt,
) -> (kept: Result<(VersionedNodeModelJournal, NodeModelRuntimeReceipt), NodeModelError>)
    ensures
        (final(ports).world(), pair_outcome(kept)) == recorded(
            old(ports).world(),
            journal@,
            receipt@,
        ),
{
    let saved = save_runtime_receipt(ports, journal, receipt.copy())?;
    Ok((saved, receipt))
}

fn acquire_runtime<P: NodeModelOrchestrationPorts>(
    ports: &mut P,
    journal: VersionedNodeModelJournal,
    group_index: usize,
    node_id: &NodeId,
    receipt: Option<NodeModelRuntimeReceipt>,
    candidate_id: RuntimeCandidateId,
    candidate: &RuntimeCandidate,
    hardware: &HardwareObservation,
    matching: &Vec<RuntimeInstallation>,
) -> (acquired: Result<(VersionedNodeModelJournal, NodeModelRuntimeReceipt), NodeModelError>)
    ensures
        (final(ports).world(), pair_outcome(acquired)) == runtime_acquired(
            old(ports).world(),
            journal@,
            group_index,
            *node_id,
            viewed(receipt),
            candidate_id@,
            candidate@,
            hardware@,
            views(matching@),
        ),
{
    match receipt {
        Some(receipt) => {
            if receipt.disposition != NodeModelRuntimeDisposition::InstallPending {
                return Ok((journal, receipt));
            }
            if matching.len() > 1 {
                return Err(NodeModelError::RecoveryRequired);
            }
            let (installation_id, disposition) = if matching.len() == 1 {
                (matching[0].installation_id, NodeModelRuntimeDisposition::OwnershipUnknown)
            } else {
                install_with_authoritative_reread(ports, node_id, candidate, hardware, true)?
            };
            let mut resolved = receipt;
            resolved.installation_id = Some(installation_id);
            resolved.disposition = disposition;
            record_and_keep(ports, journal, resolved)
        },
        None => {
            if matching.len() > 0 {
                let reused = NodeModelRuntimeReceipt {
                    group_index,
                    node_id: *node_id,
                    candidate_id,
                    installation_id: Some(matching[0].installation_id),
                    disposition: NodeModelRuntimeDisposition::Reused,
                };
                return record_and_keep(ports, journal, reused);
            }
            let pending = NodeModelRuntimeReceipt {
                group_index,
                node_id: *node_id,
                candidate_id,
                installation_id: None,
                disposition: NodeModelRuntimeDisposition::InstallPending,
            };
            let saved = save_runtime_receipt(ports, journal, pending.copy())?;
            let (installation_id, disposition) = install_with_authoritative_reread(
                ports,
                node_id,
                candidate,
                hardware,
                true,
            )?;
            let mut resolved = pending;
            resolved.installation_id = Some(installation_id);
            resolved.disposition = disposition;
            record_and_keep(ports, saved, resolved)
        },
    }
}

/// The installation of one planned node: its candidate is fixed by its receipt or selected once,
/// and the acquired installation is read back and checked.
pub open spec fn node_resolved(
    world: NodeModelWorld,
    journal: VersionedNodeModelJournalView,
    group_index: usize,
    explicit_candidate_id: Option<Seq<char>>,
    node_id: NodeId,
) -> Step<(VersionedNodeModelJournalView, RuntimeInstallationView)> {
    let receipt = receipt_from(journal.journal.runtime_receipts, group_index, node_id, 0);
    let (world, candidate_id) = match receipt {
        Some(receipt) => (world, Ok(receipt.candidate_id)),
        None => {
            let (world, chosen) = candidate_selected(
                world,
                journal.journal.logical_model,
                explicit_candidate_id,
                node_id,
            );
            match chosen {
                Err(error) => (world, Err(error)),
                Ok(chosen) => (world, Ok(chosen.0.runtime.candidate_id)),
            }
        },
    };
    match candidate_id {
        Err(error) => (world, Err(error)),
        Ok(candidate_id) => {
            let (world, pinned) = candidate_selected(
                world,
                journal.journal.logical_model,
                Some(candidate_id),
                node_id,
            );
            match pinned {
                Err(error) => (world, Err(error)),
                Ok(pinned) => {
                    let (world, matching) = matching_listed(world, node_id, pinned.0);
                    match matching {
                        Err(error) => (world, Err(error)),
                        Ok(matching) => {
                            let (world, acquired) = runtime_acquired(
                                world,
                                journal,
                                group_index,
                                node_id,
                                receipt,
                                candidate_id,
                                pinned.0,
                                pinned.1,
                                matching,
                            );
                            match acquired {
                                Err(error) => (world, Err(error)),
                                Ok(acquired) => node_checked(world, acquired, node_id, pinned.0),
                            }
                        },
                    }
                },
            }
        },
    }
}

/// The acquired installation is read back and must match the candidate on the node.
pub open spec fn node_checked(
    world: NodeModelWorld,
    acquired: (VersionedNodeModelJournalView, NodeModelRuntimeReceiptView),
    node_id: NodeId,
    candidate: RuntimeCandidateView,
) -> Step<(VersionedNodeModelJournalView, RuntimeInstallationView)> {
    match acquired.1.installation_id {
        None => (world, Err(NodeModelError::JournalCorrupt)),
        Some(installation_id) => {
            let (world, installation) = required(
                from_runtime(world.installation(installation_id)),
            );
            match installation {
                Err(error) => (world, Err(error)),
                Ok(installation) => if installation_matches(installation, node_id, candidate) {
                    (world, Ok((acquired.0, installation)))
                } else {
                    (world, Err(NodeModelError::RecoveryRequired))
                },
            }
        },
    }
}

fn resolve_node<P: NodeModelOrchestrationPorts>(
    ports: &mut P,
    journal: VersionedNodeModelJournal,
    group_index: usize,
    explicit_candidate_id: &Option<RuntimeCandidateId>,
    node_id: &NodeId,
) -> (resolved: Result<(VersionedNodeModelJournal, RuntimeInstallation), NodeModelError>)
    ensures
        (final(ports).world(), pair_outcome(resolved)) == node_resolved(
            old(ports).world(),
            journal@,
            group_index,
            viewed(*explicit_candidate_id),
            *node_id,
        ),
{
    let receipt = find_receipt(&journal.journal, group_index, node_id);
    let candidate_id = match &receipt {
        Some(receipt) => receipt.candidate_id.copy(),
        None => {
            let (chosen, _) = select_candidate(
                ports,
                &journal.journal.logical_model,
                explicit_candidate_id,
                node_id,
            )?;
            chosen.runtime.candidate_id.copy()
        },
    };
    let pinned_id = Some(candidate_id.copy());
    let (candidate, hardware) = select_candidate(
        ports,
        &journal.journal.logical_model,
        &pinned_id,
        node_id,
    )?;
    let matching = matching_installations(ports, node_id, &candidate)?;
    let (journal, receipt) = acquire_runtime(
        ports,
        journal,
        group_index,
        node_id,
        receipt,
        candidate_id,
        &candidate,
        &hardware,
        &matching,
    )?;
    let installation_id = match receipt.installation_id {
        Some(installation_id) => installation_id,
        None => {
            return Err(NodeModelError::JournalCorrupt);
        },
    };
    let installation = known_installation(ports, &installation_id)?;
    if installation.node_id != *node_id || installation.state
        != RuntimeInstallationState::Available || !candidate_matches_installation(
        &candidate,
        &installation,
    ) {
        return Err(NodeModelError::RecoveryRequired);
    }
    Ok((journal, installation))
}

/// The installations of the nodes from one position on, resolved in order.
pub open spec fn nodes_resolved(
    world: NodeModelWorld,
    journal: VersionedNodeModelJournalView,
    group_index: usize,
    group: NodeModelInstallGroupView,
    at: int,
    installations: Seq<RuntimeInstallationView>,
) -> Step<(VersionedNodeModelJournalView, Seq<RuntimeInstallationView>)>
    decreases group.node_ids.len() - at,
{
    if at < 0 || at >= group.node_ids.len() {
        (world, Ok((journal, installations)))
    } else {
        let (world, resolved) = node_resolved(
            world,
            journal,
            group_index,
            group.explicit_candidate_id,
            group.node_ids[at],
        );
        match resolved {
            Err(error) => (world, Err(error)),
            Ok(resolved) => nodes_resolved(
                world,
                resolved.0,
                group_index,
                group,
                at + 1,
                installations.push(resolved.1),
            ),
        }
    }
}

/// The installations of one planned group.
pub open spec fn group_resolved(
    world: NodeModelWorld,
    journal: VersionedNodeModelJournalView,
    group_index: usize,
) -> Step<(VersionedNodeModelJournalView, Seq<RuntimeInstallationView>)> {
    if group_index >= journal.journal.install_groups.len() {
        (world, Err(NodeModelError::JournalCorrupt))
    } else {
        nodes_resolved(
            world,
            journal,
            group_index,
            journal.journal.install_groups[group_index as int],
            0,
            Seq::empty(),
        )
    }
}

/// Resolves every exact group installation, recovering ambiguous provider returns by reread.
#[verifier::loop_isolation(false)]
pub fn resolve_group_installations<P: NodeModelOrchestrationPorts>(
    ports: &mut P,
    journal: VersionedNodeModelJournal,
    group_index: usize,
) -> (resolved: Result<(VersionedNodeModelJournal, Vec<RuntimeInstallation>), NodeModelError>)
    ensures
        (final(ports).world(), journal_list_outcome(resolved)) == group_resolved(
            old(ports).world(),
            journal@,
            group_index,
        ),
{
    if group_index >= journal.journal.install_groups.len() {
        return Err(NodeModelError::JournalCorrupt);
    }
    let group = journal.journal.install_groups[group_index].copy();
    let ghost start = ports.world();
    let ghost first = journal@;
    let mut current = journal;
    let mut installations: Vec<RuntimeInstallation> = Vec::new();
    let mut i: usize = 0;
    proof {
        assert(views(installations@) =~= Seq::<RuntimeInstallationView>::empty());
        assert(group@ == first.journal.install_groups[group_index as int]);
    }
    while i < group.node_ids.len()
        invariant
            i <= group.node_ids@.len(),
            nodes_resolved(
                ports.world(),
                current@,
                group_index,
                group@,
                i as int,
                views(installations@),
            ) == nodes_resolved(start, first, group_index, group@, 0, Seq::empty()),
        decreases group.node_ids@.len() - i,
    {
        let ghost before = views(installations@);
        let (journal, installation) = resolve_node(
            ports,
            current,
            group_index,
            &group.explicit_candidate_id,
            &group.node_ids[i],
        )?;
        installations.push(installation);
        assert(views(installations@) =~= before.push(installation@));
        current = journal;
        i += 1;
    }
    Ok((current, installations))
}

/// The retained installations of the nodes from one position on.
pub open spec fn rollback_nodes_read(
    world: NodeModelWorld,
    journal: NodeModelJournalView,
    group_index: usize,
    group: NodeModelInstallGroupView,
    at: int,
    installations: Seq<RuntimeInstallationView>,
) -> Step<Seq<RuntimeInstallationView>>
    decreases group.node_ids.len() - at,
{
    if at < 0 || at >= group.node_ids.len() {
        (world, Ok(installations))
    } else {
        let node_id = group.node_ids[at];
        match receipt_from(journal.runtime_receipts, group_index, node_id, 0) {
            None => (world, Err(NodeModelError::JournalCorrupt)),
            Some(receipt) => if receipt.disposition != NodeModelRuntimeDisposition::Reused || (
            group.explicit_candidate_id matches Some(pinned) && pinned != receipt.candidate_id) {
                (world, Err(NodeModelError::JournalCorrupt))
            } else {
                match receipt.installation_id {
                    None => (world, Err(NodeModelError::JournalCorrupt)),
                    Some(installation_id) => {
                        let (world, installation) = required(
                            from_runtime(world.installation(installation_id)),
                        );
                        match installation {
                            Err(error) => (world, Err(error)),
                            Ok(installation) => if installation.node_id != node_id
                                || installation.state != RuntimeInstallationState::Available
                                || installation.runtime.candidate_id != receipt.candidate_id {
                                (world, Err(NodeModelError::RecoveryRequired))
                            } else {
                                rollback_nodes_read(
                                    world,
                                    journal,
                                    group_index,
                                    group,
                                    at + 1,
                                    installations.push(installation),
                                )
                            },
                        }
                    },
                }
            },
        }
    }
}

/// A group of installations that shares one runtime.
pub open spec fn same_runtime(step: Step<Seq<RuntimeInstallationView>>) -> Step<
    Seq<RuntimeInstallationView>,
> {
    match step.1 {
        Err(error) => step,
        Ok(installations) => match group_runtime(installations) {
            Err(error) => (step.0, Err(error)),
            Ok(_) => step,
        },
    }
}

/// The retained installations of one rollback group.
pub open spec fn rollback_group_read(
    world: NodeModelWorld,
    journal: NodeModelJournalView,
    group_index: usize,
) -> Step<Seq<RuntimeInstallationView>> {
    if group_index >= journal.install_groups.len() {
        (world, Err(NodeModelError::JournalCorrupt))
    } else {
        same_runtime(
            rollback_nodes_read(
                world,
                journal,
                group_index,
                journal.install_groups[group_index as int],
                0,
                Seq::empty(),
            ),
        )
    }
}

/// Reads exact retained rollback installations without consulting mutable catalog selection.
#[verifier::loop_isolation(false)]
pub fn rollback_group_installations<P: NodeModelOrchestrationPorts>(
    ports: &mut P,
    journal: &NodeModelJournal,
    group_index: usize,
) -> (installations: Result<Vec<RuntimeInstallation>, NodeModelError>)
    ensures
        (final(ports).world(), crate::sequence::listed(installations)) == rollback_group_read(
            old(ports).world(),
            journal@,
            group_index,
        ),
{
    if group_index >= journal.install_groups.len() {
        return Err(NodeModelError::JournalCorrupt);
    }
    let group = &journal.install_groups[group_index];
    let ghost start = ports.world();
    let mut installations: Vec<RuntimeInstallation> = Vec::new();
    let mut i: usize = 0;
    proof {
        assert(views(installations@) =~= Seq::<RuntimeInstallationView>::empty());
        assert(group@ == journal@.install_groups[group_index as int]);
    }
    while i < group.node_ids.len()
        invariant
            i <= group.node_ids@.len(),
            rollback_nodes_read(
                ports.world(),
                journal@,
                group_index,
                group@,
                i as int,
                views(installations@),
            ) == rollback_nodes_read(start, journal@, group_index, group@, 0, Seq::empty()),
        decreases group.node_ids@.len() - i,
    {
        let ghost before = views(installations@);
        let node_id = group.node_ids[i];
        let receipt = match find_receipt(journal, group_index, &node_id) {
            Some(receipt) => receipt,
            None => {
                return Err(NodeModelError::JournalCorrupt);
            },
        };
        let differs = match &group.explicit_candidate_id {
            Some(pinned) => !pinned.same(&receipt.candidate_id),
            None => false,
        };
        if receipt.disposition != NodeModelRuntimeDisposition::Reused || differs {
            return Err(NodeModelError::JournalCorrupt);
        }
        let installation_id = match receipt.installation_id {
            Some(installation_id) => installation_id,
            None => {
                return Err(NodeModelError::JournalCorrupt);
            },
        };
        let installation = known_installation(ports, &installation_id)?;
        if installation.node_id != node_id || installation.state
            != RuntimeInstallationState::Available || !installation.runtime.candidate_id.same(
            &receipt.candidate_id,
        ) {
            return Err(NodeModelError::RecoveryRequired);
        }
        installations.push(installation);
        assert(views(installations@) =~= before.push(installation@));
        i += 1;
    }
    require_group_runtime_identity(&installations)?;
    Ok(installations)
}

// ---------------------------------------------------------------------------
// Staging
// ---------------------------------------------------------------------------

/// One staged group: recorded before, staged now under its planned identity, or found staged
/// after a failed call.
pub open spec fn group_staged(
    world: NodeModelWorld,
    journal: VersionedNodeModelJournalView,
    group_index: usize,
    planned: PlacementGroupId,
    request: PlacementRequestView,
) -> Step<VersionedNodeModelJournalView> {
    if group_index < journal.journal.placement_group_ids.len() {
        if journal.journal.placement_group_ids[group_index as int] != planned {
            (world, Err(NodeModelError::JournalCorrupt))
        } else {
            let (world, record) = required(from_placement(world.group_record(planned)));
            match record {
                Err(error) => (world, Err(error)),
                Ok(record) => if record_matches(record, request) {
                    (world, Ok(journal))
                } else {
                    (world, Err(NodeModelError::RecoveryRequired))
                },
            }
        }
    } else {
        let (world, staged) = staged_or_reread(world, planned, request);
        match staged {
            Err(error) => (world, Err(error)),
            Ok(_) => if journal.journal.placement_group_ids.len() != group_index {
                (world, Err(NodeModelError::JournalCorrupt))
            } else {
                let (world, now) = world.now();
                match now {
                    Err(error) => (world, Err(error)),
                    Ok(now) => world.replace_journal(
                        NodeModelJournalView {
                            placement_group_ids: journal.journal.placement_group_ids.push(planned),
                            updated_at: now,
                            ..journal.journal
                        },
                        journal.revision,
                    ),
                }
            },
        }
    }
}

/// One group is staged under its identity, or a failed call is resolved by what is then staged.
pub open spec fn staged_or_reread(
    world: NodeModelWorld,
    planned: PlacementGroupId,
    request: PlacementRequestView,
) -> Step<()> {
    let (world, reply) = world.stage_group(request);
    match reply {
        Ok(record) => if record.group.placement_group_id == planned {
            (world, Ok(()))
        } else {
            (world, Err(NodeModelError::RecoveryRequired))
        },
        Err(error) => {
            let (world, observed) = from_placement(world.group_record(planned));
            match observed {
                Err(failure) => (world, Err(failure)),
                Ok(Some(record)) => if record_matches(record, request) {
                    (world, Ok(()))
                } else {
                    (world, Err(NodeModelError::Placement(error)))
                },
                Ok(None) => (world, Err(NodeModelError::Placement(error))),
            }
        },
    }
}

/// Stages one group or accepts an authoritative staged reread after ambiguous failure.
pub fn stage_or_reread<P: NodeModelOrchestrationPorts>(
    ports: &mut P,
    planned_group_id: &PlacementGroupId,
    request: PlacementRequest,
) -> (result: Result<(), NodeModelError>)
    ensures
        (final(ports).world(), result) == staged_or_reread(
            old(ports).world(),
            *planned_group_id,
            request@,
        ),
{
    let asked = request.copy();
    match ports.stage(request) {
        Ok(record) => {
            if record.group.placement_group_id == *planned_group_id {
                Ok(())
            } else {
                Err(NodeModelError::RecoveryRequired)
            }
        },
        Err(error) => match ports.record(planned_group_id) {
            Err(failure) => Err(NodeModelError::Placement(failure)),
            Ok(Some(record)) => {
                if placement_record_matches(&record, &asked) {
                    Ok(())
                } else {
                    Err(NodeModelError::Placement(error))
                }
            },
            Ok(None) => Err(NodeModelError::Placement(error)),
        },
    }
}

/// Resolves one staged group, including provider success followed by transport failure.
pub fn resolve_group<P: NodeModelOrchestrationPorts>(
    ports: &mut P,
    journal: VersionedNodeModelJournal,
    group_index: usize,
    planned_group_id: &PlacementGroupId,
    request: PlacementRequest,
) -> (resolved: Result<VersionedNodeModelJournal, NodeModelError>)
    ensures
        (final(ports).world(), outcome(resolved)) == group_staged(
            old(ports).world(),
            journal@,
            group_index,
            *planned_group_id,
            request@,
        ),
{
    if group_index < journal.journal.placement_group_ids.len() {
        if journal.journal.placement_group_ids[group_index] != *planned_group_id {
            return Err(NodeModelError::JournalCorrupt);
        }
        let record = known_group(ports, planned_group_id)?;
        if !placement_record_matches(&record, &request) {
            return Err(NodeModelError::RecoveryRequired);
        }
        return Ok(journal);
    }
    stage_or_reread(ports, planned_group_id, request)?;
    let revision = journal.revision;
    let mut updated = journal.journal;
    if updated.placement_group_ids.len() != group_index {
        return Err(NodeModelError::JournalCorrupt);
    }
    updated.placement_group_ids.push(*planned_group_id);
    updated.updated_at = ports.now()?;
    ports.replace(updated, revision)
}

// ---------------------------------------------------------------------------
// Installation
// ---------------------------------------------------------------------------

/// The service of one install command, created empty and stopped when it cannot be read.
pub open spec fn service_created(
    world: NodeModelWorld,
    journal: NodeModelJournalView,
) -> Step<ModelServiceView> {
    let (world, service) = world.service(journal.service_id);
    match service {
        Ok(service) => (world, Ok(service.service)),
        Err(_) => {
            let (world, now) = world.now();
            match now {
                Err(error) => (world, Err(error)),
                Ok(now) => {
                    let (world, created) = redacted(
                        world.create_service(
                            phase(journal, "service.create"@),
                            ModelServiceView {
                                service_id: journal.service_id,
                                logical_model: journal.logical_model,
                                desired_state: ModelServiceDesiredState::Stopped,
                                placement_group_ids: Seq::empty(),
                                timestamps: EntityTimestamps { created_at: now, updated_at: now },
                            },
                        ),
                    );
                    match created {
                        Err(error) => (world, Err(error)),
                        Ok(created) => (world, Ok(created.service)),
                    }
                },
            }
        },
    }
}

fn ensure_service<P: NodeModelOrchestrationPorts>(
    ports: &mut P,
    journal: &NodeModelJournal,
) -> (service: Result<ModelService, NodeModelError>)
    ensures
        (final(ports).world(), outcome(service)) == service_created(old(ports).world(), journal@),
{
    match ports.service(&journal.service_id) {
        Ok(service) => Ok(service.service),
        Err(_) => {
            let now = ports.now()?;
            let timestamps = match EntityTimestamps::new(now, now) {
                Ok(timestamps) => timestamps,
                Err(_) => {
                    return Err(NodeModelError::StateUnavailable);
                },
            };
            let groups: Vec<PlacementGroupId> = Vec::new();
            assert(groups@ =~= Seq::<PlacementGroupId>::empty());
            let service = match ModelService::new(
                journal.service_id,
                journal.logical_model.copy(),
                ModelServiceDesiredState::Stopped,
                groups,
                timestamps,
            ) {
                Ok(service) => service,
                Err(_) => {
                    return Err(NodeModelError::StateUnavailable);
                },
            };
            let key = phase_key(journal, "service.create");
            match ports.create_service(key.as_str(), service) {
                Ok(created) => Ok(created.service),
                Err(_) => Err(NodeModelError::StateUnavailable),
            }
        },
    }
}

/// The installations that one planned group runs: retained for a rollback, resolved otherwise.
pub open spec fn group_installations(
    world: NodeModelWorld,
    journal: VersionedNodeModelJournalView,
    group_index: usize,
) -> Step<(VersionedNodeModelJournalView, Seq<RuntimeInstallationView>)> {
    if journal.journal.action == NodeModelAction::Rollback {
        let (world, installations) = rollback_group_read(world, journal.journal, group_index);
        match installations {
            Err(error) => (world, Err(error)),
            Ok(installations) => (world, Ok((journal, installations))),
        }
    } else {
        group_resolved(world, journal, group_index)
    }
}

/// One planned group is staged, attached and running.
pub open spec fn group_installed(
    world: NodeModelWorld,
    journal: VersionedNodeModelJournalView,
    group_index: usize,
) -> Step<VersionedNodeModelJournalView> {
    let (world, ready) = group_installations(world, journal, group_index);
    match ready {
        Err(error) => (world, Err(error)),
        Ok(ready) => {
            let journal = ready.0;
            match group_runtime(ready.1) {
                Err(error) => (world, Err(error)),
                Ok(_) => if group_index >= journal.journal.planned_group_ids.len() {
                    (world, Err(NodeModelError::JournalCorrupt))
                } else {
                    group_placed(
                        world,
                        journal,
                        group_index,
                        journal.journal.planned_group_ids[group_index as int],
                        ready.1,
                    )
                },
            }
        },
    }
}

/// One group with known installations is requested, staged, attached and started.
pub open spec fn group_placed(
    world: NodeModelWorld,
    journal: VersionedNodeModelJournalView,
    group_index: usize,
    planned: PlacementGroupId,
    installations: Seq<RuntimeInstallationView>,
) -> Step<VersionedNodeModelJournalView> {
    let service_id = journal.journal.service_id;
    let (world, request) = world.placement_request_for(
        service_id,
        group_index,
        planned,
        installations,
    );
    match request {
        Err(error) => (world, Err(error)),
        Ok(request) => match placement_request_checked(
            request,
            planned,
            service_id,
            installations,
        ) {
            Err(error) => (world, Err(error)),
            Ok(_) => {
                let (world, journal) = group_staged(world, journal, group_index, planned, request);
                match journal {
                    Err(error) => (world, Err(error)),
                    Ok(journal) => {
                        let (world, attached) = group_attached(
                            world,
                            journal.journal,
                            planned,
                            attach_phase(group_index),
                        );
                        match attached {
                            Err(error) => (world, Err(error)),
                            Ok(_) => {
                                let (world, running) = group_running(world, planned);
                                match running {
                                    Err(error) => (world, Err(error)),
                                    Ok(_) => (world, Ok(journal)),
                                }
                            },
                        }
                    },
                }
            },
        },
    }
}

fn install_group<P: NodeModelOrchestrationPorts>(
    ports: &mut P,
    journal: VersionedNodeModelJournal,
    group_index: usize,
) -> (installed: Result<VersionedNodeModelJournal, NodeModelError>)
    ensures
        (final(ports).world(), outcome(installed)) == group_installed(
            old(ports).world(),
            journal@,
            group_index,
        ),
{
    let (journal, installations) = if journal.journal.action == NodeModelAction::Rollback {
        let installations = rollback_group_installations(ports, &journal.journal, group_index)?;
        (journal, installations)
    } else {
        resolve_group_installations(ports, journal, group_index)?
    };
    require_group_runtime_identity(&installations)?;
    if group_index >= journal.journal.planned_group_ids.len() {
        return Err(NodeModelError::JournalCorrupt);
    }
    let planned = journal.journal.planned_group_ids[group_index];
    let request = ports.request(
        &journal.journal.service_id,
        group_index,
        &planned,
        &installations,
    )?;
    validate_placement_request(&request, &planned, &journal.journal.service_id, &installations)?;
    let journal = resolve_group(ports, journal, group_index, &planned, request)?;
    let name = attach_phase_name(group_index);
    ensure_attached(ports, &journal.journal, &planned, name.as_str())?;
    ensure_group_running(ports, &planned)?;
    Ok(journal)
}

/// Every planned group from one position on is installed, in order.
pub open spec fn groups_installed(
    world: NodeModelWorld,
    journal: VersionedNodeModelJournalView,
    at: int,
    count: int,
) -> Step<VersionedNodeModelJournalView>
    decreases count - at,
{
    if at < 0 || at >= count {
        (world, Ok(journal))
    } else {
        let (world, installed) = group_installed(world, journal, at as usize);
        match installed {
            Err(error) => (world, Err(error)),
            Ok(journal) => groups_installed(world, journal, at + 1, count),
        }
    }
}

/// Every phase of one installation: the service, each planned group, and the running intent.
pub open spec fn install_executed(
    world: NodeModelWorld,
    journal: VersionedNodeModelJournalView,
) -> Step<VersionedNodeModelJournalView> {
    let (world, service) = service_created(world, journal.journal);
    match service {
        Err(error) => (world, Err(error)),
        Ok(service) => if service.logical_model != journal.journal.logical_model {
            (world, Err(NodeModelError::JournalConflict))
        } else {
            let (world, installed) = groups_installed(
                world,
                journal,
                0,
                journal.journal.install_groups.len() as int,
            );
            match installed {
                Err(error) => (world, Err(error)),
                Ok(journal) => {
                    let (world, moved) = service_in_state(
                        world,
                        journal.journal,
                        "service.running"@,
                        ModelServiceDesiredState::Running,
                    );
                    match moved {
                        Err(error) => (world, Err(error)),
                        Ok(_) => (world, Ok(journal)),
                    }
                },
            }
        },
    }
}

/// Executes every restart-safe install phase and records each exact receipt.
#[verifier::loop_isolation(false)]
pub fn execute_install<P: NodeModelOrchestrationPorts>(
    ports: &mut P,
    journal: VersionedNodeModelJournal,
) -> (executed: Result<VersionedNodeModelJournal, NodeModelError>)
    ensures
        (final(ports).world(), outcome(executed)) == install_executed(old(ports).world(), journal@),
{
    let service = ensure_service(ports, &journal.journal)?;
    if !service.logical_model.same(&journal.journal.logical_model) {
        return Err(NodeModelError::JournalConflict);
    }
    let count: usize = journal.journal.install_groups.len();
    let ghost start = ports.world();
    let ghost first = journal@;
    let mut current = journal;
    let mut i: usize = 0;
    while i < count
        invariant
            i <= count,
            groups_installed(ports.world(), current@, i as int, count as int) == groups_installed(
                start,
                first,
                0,
                count as int,
            ),
        decreases count - i,
    {
        current = install_group(ports, current, i)?;
        i += 1;
    }
    move_service(
        ports,
        &current.journal,
        "service.running",
        ModelServiceDesiredState::Running,
    )?;
    Ok(current)
}

// ---------------------------------------------------------------------------
// Replacement
// ---------------------------------------------------------------------------

/// One retained group is stopped, removed and detached.
pub open spec fn retained_released(
    world: NodeModelWorld,
    journal: NodeModelJournalView,
    source: PlacementGroupId,
) -> Step<()> {
    let (world, record) = required(from_placement(world.group_record(source)));
    match record {
        Err(error) => (world, Err(error)),
        Ok(record) => {
            let (world, released) = if record.group.state == PlacementGroupState::Removed {
                (world, Ok(()))
            } else {
                let (world, stopped) = group_stopped(world, source);
                match stopped {
                    Err(error) => (world, Err(error)),
                    Ok(_) => completed(from_placement(world.remove_group(source))),
                }
            };
            match released {
                Err(error) => (world, Err(error)),
                Ok(_) => group_detached(
                    world,
                    journal,
                    source,
                    group_phase("group."@, source, ".replace"@),
                    false,
                ),
            }
        },
    }
}

fn release_retained<P: NodeModelOrchestrationPorts>(
    ports: &mut P,
    journal: &NodeModelJournal,
    source: &PlacementGroupId,
) -> (result: Result<(), NodeModelError>)
    ensures
        (final(ports).world(), result) == retained_released(old(ports).world(), journal@, *source),
{
    let record = known_group(ports, source)?;
    if record.group.state != PlacementGroupState::Removed {
        ensure_group_stopped(ports, source)?;
        match NodeModelPlacementPort::remove(ports, source) {
            Ok(_) => {},
            Err(error) => {
                return Err(NodeModelError::Placement(error));
            },
        }
    }
    let name = group_phase_name("group.", source, ".replace");
    ensure_detached(ports, journal, source, name.as_str(), false)
}

/// Every retained group from one position on is released, in order.
pub open spec fn all_retained_released(
    world: NodeModelWorld,
    journal: NodeModelJournalView,
    at: int,
) -> Step<()>
    decreases journal.retained_groups.len() - at,
{
    if at < 0 || at >= journal.retained_groups.len() {
        (world, Ok(()))
    } else {
        let (world, released) = retained_released(
            world,
            journal,
            journal.retained_groups[at].source_group_id,
        );
        match released {
            Err(error) => (world, Err(error)),
            Ok(_) => all_retained_released(world, journal, at + 1),
        }
    }
}

/// Retained groups are released, replacements are installed, and a stopped intent is restored.
pub open spec fn replacement_executed(
    world: NodeModelWorld,
    journal: VersionedNodeModelJournalView,
) -> Step<VersionedNodeModelJournalView> {
    let (world, service) = redacted(world.service(journal.journal.service_id));
    match service {
        Err(error) => (world, Err(error)),
        Ok(service) => {
            let (world, released) = all_retained_released(world, journal.journal, 0);
            match released {
                Err(error) => (world, Err(error)),
                Ok(_) => {
                    let (world, installed) = install_executed(world, journal);
                    match installed {
                        Err(error) => (world, Err(error)),
                        Ok(journal) => if service.service.desired_state
                            == ModelServiceDesiredState::Stopped {
                            intent_stopped(world, journal)
                        } else {
                            (world, Ok(journal))
                        },
                    }
                },
            }
        },
    }
}

/// Every replacement is stopped, last first, and so is the service.
pub open spec fn intent_stopped(
    world: NodeModelWorld,
    journal: VersionedNodeModelJournalView,
) -> Step<VersionedNodeModelJournalView> {
    let groups = journal.journal.placement_group_ids;
    let (world, stopped) = all_stopped_reversed(world, groups, groups.len() as int);
    match stopped {
        Err(error) => (world, Err(error)),
        Ok(_) => {
            let (world, moved) = service_in_state(
                world,
                journal.journal,
                "service.transition"@,
                ModelServiceDesiredState::Stopped,
            );
            match moved {
                Err(error) => (world, Err(error)),
                Ok(_) => (world, Ok(journal)),
            }
        },
    }
}

/// Releases retained current groups, activates replacements, and preserves stopped intent.
#[verifier::loop_isolation(false)]
pub fn execute_replacement<P: NodeModelOrchestrationPorts>(
    ports: &mut P,
    journal: VersionedNodeModelJournal,
) -> (executed: Result<VersionedNodeModelJournal, NodeModelError>)
    ensures
        (final(ports).world(), outcome(executed)) == replacement_executed(
            old(ports).world(),
            journal@,
        ),
{
    let service = known_service(ports, &journal.journal.service_id)?;
    let desired_state = service.service.desired_state;
    let ghost start = ports.world();
    let ghost model = journal@.journal;
    let mut i: usize = 0;
    while i < journal.journal.retained_groups.len()
        invariant
            i <= journal.journal.retained_groups@.len(),
            all_retained_released(ports.world(), model, i as int) == all_retained_released(
                start,
                model,
                0,
            ),
        decreases journal.journal.retained_groups@.len() - i,
    {
        let source = journal.journal.retained_groups[i].source_group_id;
        assert(model.retained_groups[i as int].source_group_id == source);
        release_retained(ports, &journal.journal, &source)?;
        i += 1;
    }
    let journal = execute_install(ports, journal)?;
    if desired_state == ModelServiceDesiredState::Stopped {
        stop_all_reversed(ports, &journal.journal.placement_group_ids)?;
        ensure_service_state(ports, &journal.journal, ModelServiceDesiredState::Stopped)?;
    }
    Ok(journal)
}

/// Every planned group from one position on has its installations resolved, in order.
pub open spec fn updates_resolved(
    world: NodeModelWorld,
    journal: VersionedNodeModelJournalView,
    at: int,
    count: int,
) -> Step<VersionedNodeModelJournalView>
    decreases count - at,
{
    if at < 0 || at >= count {
        (world, Ok(journal))
    } else {
        let (world, resolved) = group_resolved(world, journal, at as usize);
        match resolved {
            Err(error) => (world, Err(error)),
            Ok(resolved) => match group_runtime(resolved.1) {
                Err(error) => (world, Err(error)),
                Ok(_) => updates_resolved(world, resolved.0, at + 1, count),
            },
        }
    }
}

/// Replacements are acquired before any current resource is released.
pub open spec fn update_executed(
    world: NodeModelWorld,
    journal: VersionedNodeModelJournalView,
) -> Step<VersionedNodeModelJournalView> {
    let (world, resolved) = updates_resolved(
        world,
        journal,
        0,
        journal.journal.install_groups.len() as int,
    );
    match resolved {
        Err(error) => (world, Err(error)),
        Ok(journal) => replacement_executed(world, journal),
    }
}

/// Acquires immutable replacements before releasing old resources and preserves service intent.
#[verifier::loop_isolation(false)]
pub fn execute_update<P: NodeModelOrchestrationPorts>(
    ports: &mut P,
    journal: VersionedNodeModelJournal,
) -> (executed: Result<VersionedNodeModelJournal, NodeModelError>)
    ensures
        (final(ports).world(), outcome(executed)) == update_executed(old(ports).world(), journal@),
{
    let count: usize = journal.journal.install_groups.len();
    let ghost start = ports.world();
    let ghost first = journal@;
    let mut current = journal;
    let mut i: usize = 0;
    while i < count
        invariant
            i <= count,
            updates_resolved(ports.world(), current@, i as int, count as int) == updates_resolved(
                start,
                first,
                0,
                count as int,
            ),
        decreases count - i,
    {
        let (journal, installations) = resolve_group_installations(ports, current, i)?;
        require_group_runtime_identity(&installations)?;
        current = journal;
        i += 1;
    }
    execute_replacement(ports, current)
}

/// Every rollback group from one position on has its retained installations.
pub open spec fn rollbacks_read(
    world: NodeModelWorld,
    journal: NodeModelJournalView,
    at: int,
) -> Step<()>
    decreases journal.install_groups.len() - at,
{
    if at < 0 || at >= journal.install_groups.len() {
        (world, Ok(()))
    } else {
        let (world, read) = rollback_group_read(world, journal, at as usize);
        match read {
            Err(error) => (world, Err(error)),
            Ok(_) => rollbacks_read(world, journal, at + 1),
        }
    }
}

/// Retained installations are read for every group before any current resource is released.
pub open spec fn rollback_executed(
    world: NodeModelWorld,
    journal: VersionedNodeModelJournalView,
) -> Step<VersionedNodeModelJournalView> {
    let (world, read) = rollbacks_read(world, journal.journal, 0);
    match read {
        Err(error) => (world, Err(error)),
        Ok(_) => replacement_executed(world, journal),
    }
}

/// Activates exact retained prior installations without catalog re-resolution.
#[verifier::loop_isolation(false)]
pub fn execute_rollback<P: NodeModelOrchestrationPorts>(
    ports: &mut P,
    journal: VersionedNodeModelJournal,
) -> (executed: Result<VersionedNodeModelJournal, NodeModelError>)
    ensures
        (final(ports).world(), outcome(executed)) == rollback_executed(
            old(ports).world(),
            journal@,
        ),
{
    let ghost start = ports.world();
    let ghost model = journal@.journal;
    let mut i: usize = 0;
    while i < journal.journal.install_groups.len()
        invariant
            i <= journal.journal.install_groups@.len(),
            rollbacks_read(ports.world(), model, i as int) == rollbacks_read(start, model, 0),
        decreases journal.journal.install_groups@.len() - i,
    {
        rollback_group_installations(ports, &journal.journal, i)?;
        i += 1;
    }
    execute_replacement(ports, journal)
}

// ---------------------------------------------------------------------------
// Existing services
// ---------------------------------------------------------------------------

/// One group of a removed service is released and detached.
pub open spec fn group_withdrawn(
    world: NodeModelWorld,
    journal: NodeModelJournalView,
    placement_group_id: PlacementGroupId,
) -> Step<()> {
    let (world, record) = required(from_placement(world.group_record(placement_group_id)));
    match record {
        Err(error) => (world, Err(error)),
        Ok(record) => {
            let (world, released) = group_released(world, placement_group_id, record.group.state);
            match released {
                Err(error) => (world, Err(error)),
                Ok(_) => group_detached(
                    world,
                    journal,
                    placement_group_id,
                    group_phase("group."@, placement_group_id, ".detach"@),
                    false,
                ),
            }
        },
    }
}

/// Every group from one position on is withdrawn, in order.
pub open spec fn all_withdrawn(
    world: NodeModelWorld,
    journal: NodeModelJournalView,
    groups: Seq<PlacementGroupId>,
    at: int,
) -> Step<()>
    decreases groups.len() - at,
{
    if at < 0 || at >= groups.len() {
        (world, Ok(()))
    } else {
        let (world, withdrawn) = group_withdrawn(world, journal, groups[at]);
        match withdrawn {
            Err(error) => (world, Err(error)),
            Ok(_) => all_withdrawn(world, journal, groups, at + 1),
        }
    }
}

/// The installations that one journal's receipts created.
pub open spec fn created_by(receipts: Seq<NodeModelRuntimeReceiptView>) -> Seq<
    RuntimeInstallationId,
>
    decreases receipts.len(),
{
    if receipts.len() == 0 {
        Seq::empty()
    } else {
        match created_installation(receipts.last()) {
            Some(installation_id) => created_by(receipts.drop_last()).push(installation_id),
            None => created_by(receipts.drop_last()),
        }
    }
}

/// The installations that a service's install and update commands created.
pub open spec fn created_for(
    journals: Seq<VersionedNodeModelJournalView>,
    service_id: ModelServiceId,
) -> Seq<RuntimeInstallationId>
    decreases journals.len(),
{
    if journals.len() == 0 {
        Seq::empty()
    } else {
        let journal = journals.last().journal;
        let earlier = created_for(journals.drop_last(), service_id);
        if journal.service_id == service_id && (journal.action == NodeModelAction::Install
            || journal.action == NodeModelAction::Update) {
            earlier + created_by(journal.runtime_receipts)
        } else {
            earlier
        }
    }
}

#[verifier::loop_isolation(false)]
fn append_created(created: &mut Vec<RuntimeInstallationId>, journal: &NodeModelJournal)
    ensures
        final(created)@ == old(created)@ + created_by(journal@.runtime_receipts),
{
    let ghost receipts = journal@.runtime_receipts;
    let mut i: usize = 0;
    proof {
        assert(created@ =~= old(created)@ + created_by(receipts.take(0)));
    }
    while i < journal.runtime_receipts.len()
        invariant
            i <= journal.runtime_receipts@.len(),
            created@ == old(created)@ + created_by(receipts.take(i as int)),
        decreases journal.runtime_receipts@.len() - i,
    {
        let receipt = &journal.runtime_receipts[i];
        proof {
            assert(receipts[i as int] == receipt@);
            assert(receipts.take(i + 1).drop_last() =~= receipts.take(i as int));
            assert(receipts.take(i + 1).last() == receipts[i as int]);
        }
        if receipt.disposition == NodeModelRuntimeDisposition::Created {
            match receipt.installation_id {
                Some(installation_id) => {
                    created.push(installation_id);
                },
                None => {},
            }
        }
        assert(created@ =~= old(created)@ + created_by(receipts.take(i + 1)));
        i += 1;
    }
    proof {
        assert(receipts.take(receipts.len() as int) =~= receipts);
    }
}

/// Every installation from one position on is retired, in order.
pub open spec fn all_retired(
    world: NodeModelWorld,
    installations: Seq<RuntimeInstallationId>,
    retention: NodeModelRemovalRetention,
    at: int,
) -> Step<()>
    decreases installations.len() - at,
{
    if at < 0 || at >= installations.len() {
        (world, Ok(()))
    } else {
        let (world, retired) = runtime_retired(world, installations[at], retention);
        match retired {
            Err(error) => (world, Err(error)),
            Ok(_) => all_retired(world, installations, retention, at + 1),
        }
    }
}

/// Every installation that a service created is retired once.
pub open spec fn owned_retired(
    world: NodeModelWorld,
    service_id: ModelServiceId,
    retention: NodeModelRemovalRetention,
) -> Step<()> {
    let (world, journals) = world.all_journals();
    match journals {
        Err(error) => (world, Err(error)),
        Ok(journals) => all_retired(
            world,
            distinct(created_for(journals, service_id)),
            retention,
            0,
        ),
    }
}

/// Removes only installations created by this service and no longer referenced by any group.
#[verifier::loop_isolation(false)]
pub fn remove_owned_runtimes<P: NodeModelOrchestrationPorts>(
    ports: &mut P,
    service_id: &ModelServiceId,
    retention: NodeModelRemovalRetention,
) -> (result: Result<(), NodeModelError>)
    ensures
        (final(ports).world(), result) == owned_retired(
            old(ports).world(),
            *service_id,
            retention,
        ),
{
    let journals = ports.all()?;
    let ghost all = views(journals@);
    let mut created: Vec<RuntimeInstallationId> = Vec::new();
    let mut i: usize = 0;
    proof {
        assert(created@ =~= created_for(all.take(0), *service_id));
    }
    while i < journals.len()
        invariant
            i <= journals@.len(),
            created@ == created_for(all.take(i as int), *service_id),
        decreases journals@.len() - i,
    {
        let journal = &journals[i].journal;
        proof {
            assert(all[i as int].journal == journal@);
            assert(all.take(i + 1).drop_last() =~= all.take(i as int));
            assert(all.take(i + 1).last() == all[i as int]);
        }
        if journal.service_id == *service_id && matches!(
            journal.action,
            NodeModelAction::Install | NodeModelAction::Update
        ) {
            append_created(&mut created, journal);
        }
        i += 1;
    }
    proof {
        assert(all.take(all.len() as int) =~= all);
    }
    let unique = unique_ids(&created);
    let ghost start = ports.world();
    let mut j: usize = 0;
    while j < unique.len()
        invariant
            j <= unique@.len(),
            all_retired(ports.world(), unique@, retention, j as int) == all_retired(
                start,
                unique@,
                retention,
                0,
            ),
        decreases unique@.len() - j,
    {
        retire_runtime(ports, &unique[j], retention)?;
        j += 1;
    }
    Ok(())
}

/// Selected groups are withdrawn, an empty service is removed, and owned runtimes are retired.
pub open spec fn service_removed(
    world: NodeModelWorld,
    journal: NodeModelJournalView,
) -> Step<()> {
    let (world, withdrawn) = all_withdrawn(
        world,
        journal,
        sorted_ids(journal.placement_group_ids),
        0,
    );
    match withdrawn {
        Err(error) => (world, Err(error)),
        Ok(_) => {
            let (world, service) = redacted(world.service(journal.service_id));
            match service {
                Err(error) => (world, Err(error)),
                Ok(service) => {
                    let (world, moved) = if service.service.placement_group_ids.len() == 0 {
                        service_in_state(
                            world,
                            journal,
                            "service.transition"@,
                            ModelServiceDesiredState::Removed,
                        )
                    } else {
                        (world, Ok(()))
                    };
                    match moved {
                        Err(error) => (world, Err(error)),
                        Ok(_) => owned_retired(
                            world,
                            journal.service_id,
                            journal.removal_runtime_retention,
                        ),
                    }
                },
            }
        },
    }
}

/// Removes exact selected groups and marks the service removed only when none remain.
#[verifier::loop_isolation(false)]
pub fn remove_service<P: NodeModelOrchestrationPorts>(
    ports: &mut P,
    journal: &NodeModelJournal,
) -> (result: Result<(), NodeModelError>)
    ensures
        (final(ports).world(), result) == service_removed(old(ports).world(), journal@),
{
    let groups = sort_ids(clone_ids(&journal.placement_group_ids));
    let ghost start = ports.world();
    let mut i: usize = 0;
    while i < groups.len()
        invariant
            i <= groups@.len(),
            all_withdrawn(ports.world(), journal@, groups@, i as int) == all_withdrawn(
                start,
                journal@,
                groups@,
                0,
            ),
        decreases groups@.len() - i,
    {
        let group = groups[i];
        let record = known_group(ports, &group)?;
        release_group(ports, &group, record.group.state)?;
        let name = group_phase_name("group.", &group, ".detach");
        ensure_detached(ports, journal, &group, name.as_str(), false)?;
        i += 1;
    }
    let service = known_service(ports, &journal.service_id)?;
    if service.service.placement_group_ids.len() == 0 {
        ensure_service_state(ports, journal, ModelServiceDesiredState::Removed)?;
    }
    remove_owned_runtimes(ports, &journal.service_id, journal.removal_runtime_retention)
}

/// One lifecycle action over every group of a service, in the order of the group identities.
pub open spec fn existing_executed(
    world: NodeModelWorld,
    journal: NodeModelJournalView,
) -> Step<()> {
    let groups = sorted_ids(journal.placement_group_ids);
    match journal.action {
        NodeModelAction::Pause => {
            let (world, stopped) = all_stopped(world, groups, 0);
            match stopped {
                Err(error) => (world, Err(error)),
                Ok(_) => service_in_state(
                    world,
                    journal,
                    "service.transition"@,
                    ModelServiceDesiredState::Stopped,
                ),
            }
        },
        NodeModelAction::Resume => recovered_and_running(world, journal, groups, false),
        NodeModelAction::Restart => {
            let (world, stopped) = all_stopped_reversed(world, groups, groups.len() as int);
            match stopped {
                Err(error) => (world, Err(error)),
                Ok(_) => recovered_and_running(world, journal, groups, false),
            }
        },
        NodeModelAction::Recover => recovered_and_running(world, journal, groups, true),
        NodeModelAction::Remove => service_removed(world, journal),
        _ => (world, Err(NodeModelError::JournalCorrupt)),
    }
}

/// Every group is running or recovered, and then the service runs.
pub open spec fn recovered_and_running(
    world: NodeModelWorld,
    journal: NodeModelJournalView,
    groups: Seq<PlacementGroupId>,
    acknowledge_protection_trips: bool,
) -> Step<()> {
    let (world, recovered) = all_recovered(world, groups, acknowledge_protection_trips, 0);
    match recovered {
        Err(error) => (world, Err(error)),
        Ok(_) => service_in_state(
            world,
            journal,
            "service.transition"@,
            ModelServiceDesiredState::Running,
        ),
    }
}

/// Executes a complete existing-service action in stable group identity order.
pub fn execute_existing<P: NodeModelOrchestrationPorts>(
    ports: &mut P,
    journal: &NodeModelJournal,
) -> (result: Result<(), NodeModelError>)
    ensures
        (final(ports).world(), result) == existing_executed(old(ports).world(), journal@),
{
    let groups = sort_ids(clone_ids(&journal.placement_group_ids));
    match journal.action {
        NodeModelAction::Pause => {
            stop_all(ports, &groups)?;
            ensure_service_state(ports, journal, ModelServiceDesiredState::Stopped)
        },
        NodeModelAction::Resume => {
            recover_all(ports, &groups, false)?;
            ensure_service_state(ports, journal, ModelServiceDesiredState::Running)
        },
        NodeModelAction::Restart => {
            stop_all_reversed(ports, &groups)?;
            recover_all(ports, &groups, false)?;
            ensure_service_state(ports, journal, ModelServiceDesiredState::Running)
        },
        NodeModelAction::Recover => {
            recover_all(ports, &groups, true)?;
            ensure_service_state(ports, journal, ModelServiceDesiredState::Running)
        },
        NodeModelAction::Remove => remove_service(ports, journal),
        NodeModelAction::Install | NodeModelAction::Update | NodeModelAction::Rollback => {
            Err(NodeModelError::JournalCorrupt)
        },
    }
}

} // verus!
