//! What an install, update or rollback that succeeded has brought about, as its calls and their
//! replies show it.

use vstd::prelude::*;

use crate::entity::{
    HardwareObservationView, ModelServiceDesiredState, PlacementNodeResourcesView,
    PlacementRequestView, RuntimeCandidateView, RuntimeInstallationState, RuntimeInstallationView,
};
use crate::identity::{ModelServiceId, NodeId, PlacementGroupId};
use crate::node_model_contract::{
    NodeModelAction, NodeModelInstallGroupView, NodeModelJournalView, NodeModelRuntimeReceiptView,
    VersionedNodeModelJournalView,
};
use crate::node_model_execution::{
    candidate_selected, group_installations, group_installed, group_placed, group_resolved,
    group_staged, groups_installed, install_executed, installed_or_reread, matching_listed,
    node_checked, node_resolved, nodes_resolved, receipt_from, receipt_saved, rollback_group_read,
    rollback_nodes_read, runtime_acquired, service_created, staged_or_reread,
};
use crate::node_model_groups::{
    from_runtime, group_attached, group_running, required, service_in_state,
};
use crate::node_model_laws::{join, only};
use crate::node_model_rules::{attach_phase, group_runtime, placement_request_checked};
use crate::node_model_traces::{
    admits_reads, any_call, carry_bound, carry_running, ends_bound, ends_intending, ends_running,
    lemma_store_kept, lemma_widened, stages, step_bound, step_intending, step_running, store_keeps,
    Calls,
};
use crate::node_model_world::{NodeModelCall, NodeModelWorld};

verus! {

// ---------------------------------------------------------------------------
// Which calls are made
// ---------------------------------------------------------------------------

/// The set holds every call that acquires runtimes: it changes nothing, replaces the journal or
/// installs a runtime.
pub open spec fn admits_acquiring(allowed: Calls) -> bool {
    &&& admits_reads(allowed)
    &&& forall|call: NodeModelCall|
        call is ReplaceJournal || call is InstallRuntime ==> #[trigger] allowed(call)
}

/// The set holds every call that places groups: it acquires runtimes, or creates a service, stages,
/// attaches or starts a group, or moves a service to running.
pub open spec fn admits_placing(allowed: Calls) -> bool {
    &&& admits_acquiring(allowed)
    &&& forall|call: NodeModelCall|
        call is CreateService || call is StageGroup || call is AttachGroup || call is StartGroup
            || (call is TransitionService && call->TransitionService_desired_state
            == ModelServiceDesiredState::Running) ==> #[trigger] allowed(call)
}

/// The set holds every call that places one group: it acquires runtimes, or stages, attaches or
/// starts this group.
pub open spec fn admits_placing_of(allowed: Calls, group: PlacementGroupId) -> bool {
    &&& admits_acquiring(allowed)
    &&& forall|call: NodeModelCall|
        stages(call, group) || (call is AttachGroup && call->AttachGroup_placement_group_id
            == group) || call == (NodeModelCall::StartGroup { placement_group_id: group })
            ==> #[trigger] allowed(call)
}

/// The calls of a placement: runtimes are acquired, groups staged, attached and started, and the
/// service is created or moved to running. Nothing is stopped, removed or detached.
pub open spec fn placing() -> Calls {
    |call: NodeModelCall|
        {
            ||| !call.mutates()
            ||| call is ReplaceJournal
            ||| call is InstallRuntime
            ||| call is CreateService
            ||| call is StageGroup
            ||| call is AttachGroup
            ||| call is StartGroup
            ||| call is TransitionService && call->TransitionService_desired_state
                == ModelServiceDesiredState::Running
        }
}

proof fn frame_candidate(
    world: NodeModelWorld,
    logical_model: Seq<char>,
    explicit: Option<Seq<char>>,
    node_id: NodeId,
    allowed: Calls,
)
    requires
        admits_reads(allowed),
    ensures
        only(world, candidate_selected(world, logical_model, explicit, node_id).0, allowed),
{
}

proof fn frame_receipt(
    world: NodeModelWorld,
    journal: VersionedNodeModelJournalView,
    receipt: NodeModelRuntimeReceiptView,
    allowed: Calls,
)
    requires
        admits_acquiring(allowed),
    ensures
        only(world, receipt_saved(world, journal, receipt).0, allowed),
{
}

proof fn frame_installed(
    world: NodeModelWorld,
    node_id: NodeId,
    candidate: RuntimeCandidateView,
    hardware: HardwareObservationView,
    allowed: Calls,
)
    requires
        admits_acquiring(allowed),
    ensures
        only(world, installed_or_reread(world, node_id, candidate, hardware, true).0, allowed),
{
}

proof fn frame_acquired(
    world: NodeModelWorld,
    journal: VersionedNodeModelJournalView,
    group_index: usize,
    node_id: NodeId,
    receipt: Option<NodeModelRuntimeReceiptView>,
    candidate_id: Seq<char>,
    candidate: RuntimeCandidateView,
    hardware: HardwareObservationView,
    matching: Seq<RuntimeInstallationView>,
    allowed: Calls,
)
    requires
        admits_acquiring(allowed),
    ensures
        only(
            world,
            runtime_acquired(
                world,
                journal,
                group_index,
                node_id,
                receipt,
                candidate_id,
                candidate,
                hardware,
                matching,
            ).0,
            allowed,
        ),
{
    let pending = NodeModelRuntimeReceiptView {
        group_index,
        node_id,
        candidate_id,
        installation_id: None,
        disposition: crate::node_model_contract::NodeModelRuntimeDisposition::InstallPending,
    };
    frame_installed(world, node_id, candidate, hardware, allowed);
    let a = installed_or_reread(world, node_id, candidate, hardware, true);
    if let Ok(acquired) = a.1 {
        if let Some(receipt) = receipt {
            let settled = NodeModelRuntimeReceiptView {
                installation_id: Some(acquired.0),
                disposition: acquired.1,
                ..receipt
            };
            frame_receipt(a.0, journal, settled, allowed);
            join(world, a.0, receipt_saved(a.0, journal, settled).0, allowed);
        }
    }
    frame_receipt(world, journal, pending, allowed);
    let b = receipt_saved(world, journal, pending);
    frame_installed(b.0, node_id, candidate, hardware, allowed);
    let c = installed_or_reread(b.0, node_id, candidate, hardware, true);
    join(world, b.0, c.0, allowed);
    if let (Ok(saved), Ok(acquired)) = (b.1, c.1) {
        let settled = NodeModelRuntimeReceiptView {
            installation_id: Some(acquired.0),
            disposition: acquired.1,
            ..pending
        };
        frame_receipt(c.0, saved, settled, allowed);
        join(world, c.0, receipt_saved(c.0, saved, settled).0, allowed);
    }
}

pub(crate) proof fn frame_node(
    world: NodeModelWorld,
    journal: VersionedNodeModelJournalView,
    group_index: usize,
    explicit: Option<Seq<char>>,
    node_id: NodeId,
    allowed: Calls,
)
    requires
        admits_acquiring(allowed),
    ensures
        only(
            world,
            node_resolved(world, journal, group_index, explicit, node_id).0,
            allowed,
        ),
{
    let model = journal.journal.logical_model;
    let receipt = receipt_from(journal.journal.runtime_receipts, group_index, node_id, 0);
    frame_candidate(world, model, explicit, node_id, allowed);
    let a = candidate_selected(world, model, explicit, node_id);
    let (first, candidate_id) = match receipt {
        Some(receipt) => (world, Some(receipt.candidate_id)),
        None => (
            a.0,
            match a.1 {
                Ok(chosen) => Some(chosen.0.runtime.candidate_id),
                Err(_) => None,
            },
        ),
    };
    if let Some(candidate_id) = candidate_id {
        frame_candidate(first, model, Some(candidate_id), node_id, allowed);
        let b = candidate_selected(first, model, Some(candidate_id), node_id);
        join(world, first, b.0, allowed);
        if let Ok(pinned) = b.1 {
            let c = matching_listed(b.0, node_id, pinned.0);
            join(world, b.0, c.0, allowed);
            if let Ok(matching) = c.1 {
                frame_acquired(
                    c.0,
                    journal,
                    group_index,
                    node_id,
                    receipt,
                    candidate_id,
                    pinned.0,
                    pinned.1,
                    matching,
                    allowed,
                );
                let d = runtime_acquired(
                    c.0,
                    journal,
                    group_index,
                    node_id,
                    receipt,
                    candidate_id,
                    pinned.0,
                    pinned.1,
                    matching,
                );
                join(world, c.0, d.0, allowed);
                if let Ok(acquired) = d.1 {
                    join(world, d.0, node_checked(d.0, acquired, node_id, pinned.0).0, allowed);
                }
            }
        }
    }
}

pub(crate) proof fn frame_nodes(
    world: NodeModelWorld,
    journal: VersionedNodeModelJournalView,
    group_index: usize,
    group: NodeModelInstallGroupView,
    at: int,
    installations: Seq<RuntimeInstallationView>,
    allowed: Calls,
)
    requires
        admits_acquiring(allowed),
    ensures
        only(
            world,
            nodes_resolved(world, journal, group_index, group, at, installations).0,
            allowed,
        ),
    decreases group.node_ids.len() - at,
{
    if 0 <= at < group.node_ids.len() {
        let explicit = group.explicit_candidate_id;
        frame_node(world, journal, group_index, explicit, group.node_ids[at], allowed);
        let a = node_resolved(world, journal, group_index, explicit, group.node_ids[at]);
        if let Ok(resolved) = a.1 {
            let more = installations.push(resolved.1);
            frame_nodes(a.0, resolved.0, group_index, group, at + 1, more, allowed);
            join(
                world,
                a.0,
                nodes_resolved(a.0, resolved.0, group_index, group, at + 1, more).0,
                allowed,
            );
        }
    }
}

pub(crate) proof fn frame_rollback_nodes(
    world: NodeModelWorld,
    journal: NodeModelJournalView,
    group_index: usize,
    group: NodeModelInstallGroupView,
    at: int,
    installations: Seq<RuntimeInstallationView>,
    allowed: Calls,
)
    requires
        admits_reads(allowed),
    ensures
        only(
            world,
            rollback_nodes_read(world, journal, group_index, group, at, installations).0,
            allowed,
        ),
    decreases group.node_ids.len() - at,
{
    if 0 <= at < group.node_ids.len() {
        let receipt = receipt_from(journal.runtime_receipts, group_index, group.node_ids[at], 0);
        if let Some(receipt) = receipt {
            if let Some(installation_id) = receipt.installation_id {
                let a = required(from_runtime(world.installation(installation_id)));
                if let Ok(installation) = a.1 {
                    let more = installations.push(installation);
                    frame_rollback_nodes(a.0, journal, group_index, group, at + 1, more, allowed);
                    join(
                        world,
                        a.0,
                        rollback_nodes_read(a.0, journal, group_index, group, at + 1, more).0,
                        allowed,
                    );
                }
            }
        }
    }
}

pub(crate) proof fn frame_installations(
    world: NodeModelWorld,
    journal: VersionedNodeModelJournalView,
    group_index: usize,
    allowed: Calls,
)
    requires
        admits_acquiring(allowed),
    ensures
        only(world, group_installations(world, journal, group_index).0, allowed),
        only(world, group_resolved(world, journal, group_index).0, allowed),
        only(world, rollback_group_read(world, journal.journal, group_index).0, allowed),
{
    if group_index < journal.journal.install_groups.len() {
        let group = journal.journal.install_groups[group_index as int];
        frame_nodes(world, journal, group_index, group, 0, Seq::empty(), allowed);
        frame_rollback_nodes(
            world,
            journal.journal,
            group_index,
            group,
            0,
            Seq::empty(),
            allowed,
        );
    }
}

proof fn frame_staged(
    world: NodeModelWorld,
    journal: VersionedNodeModelJournalView,
    group_index: usize,
    planned: PlacementGroupId,
    request: PlacementRequestView,
    allowed: Calls,
)
    requires
        admits_placing_of(allowed, planned),
        request.placement_group_id == planned,
    ensures
        only(world, staged_or_reread(world, planned, request).0, allowed),
        only(world, group_staged(world, journal, group_index, planned, request).0, allowed),
{
    let a = staged_or_reread(world, planned, request);
    assert(only(world, a.0, allowed));
    let b = a.0.now();
    join(world, a.0, b.0, allowed);
    let after = group_staged(world, journal, group_index, planned, request).0;
    if after.calls.len() > b.0.calls.len() {
        join(world, b.0, after, allowed);
    }
}

proof fn frame_placed(
    world: NodeModelWorld,
    journal: VersionedNodeModelJournalView,
    group_index: usize,
    planned: PlacementGroupId,
    installations: Seq<RuntimeInstallationView>,
    allowed: Calls,
)
    requires
        admits_placing_of(allowed, planned),
    ensures
        only(
            world,
            group_placed(world, journal, group_index, planned, installations).0,
            allowed,
        ),
{
    let service_id = journal.journal.service_id;
    let a = world.placement_request_for(service_id, group_index, planned, installations);
    if let Ok(request) = a.1 {
        if placement_request_checked(request, planned, service_id, installations) is Ok {
            frame_staged(a.0, journal, group_index, planned, request, allowed);
            let b = group_staged(a.0, journal, group_index, planned, request);
            join(world, a.0, b.0, allowed);
            if let Ok(staged) = b.1 {
                let name = attach_phase(group_index);
                step_bound(b.0, staged.journal, planned, name, allowed);
                let c = group_attached(b.0, staged.journal, planned, name);
                join(world, b.0, c.0, allowed);
                step_running(c.0, planned, allowed);
                join(world, c.0, group_running(c.0, planned).0, allowed);
            }
        }
    }
}

proof fn frame_group(
    world: NodeModelWorld,
    journal: VersionedNodeModelJournalView,
    group_index: usize,
    allowed: Calls,
)
    requires
        admits_placing(allowed),
    ensures
        only(world, group_installed(world, journal, group_index).0, allowed),
{
    frame_installations(world, journal, group_index, allowed);
    let a = group_installations(world, journal, group_index);
    if let Ok(ready) = a.1 {
        if group_index < ready.0.journal.planned_group_ids.len() {
            let planned = ready.0.journal.planned_group_ids[group_index as int];
            frame_placed(a.0, ready.0, group_index, planned, ready.1, allowed);
            join(
                world,
                a.0,
                group_placed(a.0, ready.0, group_index, planned, ready.1).0,
                allowed,
            );
        }
    }
}

proof fn frame_groups(
    world: NodeModelWorld,
    journal: VersionedNodeModelJournalView,
    at: int,
    count: int,
    allowed: Calls,
)
    requires
        admits_placing(allowed),
    ensures
        only(world, groups_installed(world, journal, at, count).0, allowed),
    decreases count - at,
{
    if 0 <= at < count {
        frame_group(world, journal, at as usize, allowed);
        let a = group_installed(world, journal, at as usize);
        if let Ok(next) = a.1 {
            frame_groups(a.0, next, at + 1, count, allowed);
            join(world, a.0, groups_installed(a.0, next, at + 1, count).0, allowed);
        }
    }
}

pub(crate) proof fn frame_install(
    world: NodeModelWorld,
    journal: VersionedNodeModelJournalView,
    allowed: Calls,
)
    requires
        admits_placing(allowed),
    ensures
        only(world, install_executed(world, journal).0, allowed),
{
    let a = service_created(world, journal.journal);
    assert(only(world, a.0, allowed));
    let count = journal.journal.install_groups.len() as int;
    frame_groups(a.0, journal, 0, count, allowed);
    let b = groups_installed(a.0, journal, 0, count);
    join(world, a.0, b.0, allowed);
    if let Ok(done) = b.1 {
        let name = "service.running"@;
        let state = ModelServiceDesiredState::Running;
        step_intending(b.0, done.journal, name, state, allowed);
        join(world, b.0, service_in_state(b.0, done.journal, name, state).0, allowed);
    }
}

/// An install stops, removes and detaches no group, removes no runtime, and moves the service
/// nowhere but to running, whatever comes of it.
pub proof fn law_install_takes_nothing_away(
    world: NodeModelWorld,
    journal: VersionedNodeModelJournalView,
)
    ensures
        only(world, install_executed(world, journal).0, placing()),
{
    frame_install(world, journal, placing());
}

// ---------------------------------------------------------------------------
// What the store keeps
// ---------------------------------------------------------------------------

/// Two journals of one command, which differ at most in the receipts, the committed groups and the
/// time of the last change.
pub open spec fn same_command(before: NodeModelJournalView, after: NodeModelJournalView) -> bool {
    after == (NodeModelJournalView {
        runtime_receipts: after.runtime_receipts,
        placement_group_ids: after.placement_group_ids,
        updated_at: after.updated_at,
        ..before
    })
}

/// Two journals of one command with the same committed groups.
pub open spec fn same_groups(before: NodeModelJournalView, after: NodeModelJournalView) -> bool {
    same_command(before, after) && after.placement_group_ids == before.placement_group_ids
}

proof fn keep_receipt(
    world: NodeModelWorld,
    journal: VersionedNodeModelJournalView,
    receipt: NodeModelRuntimeReceiptView,
)
    requires
        store_keeps(receipt_saved(world, journal, receipt).0),
    ensures
        receipt_saved(world, journal, receipt).1 matches Ok(saved) ==> same_groups(
            journal.journal,
            saved.journal,
        ),
{
    let (after, saved) = receipt_saved(world, journal, receipt);
    if saved is Ok {
        let at = world.calls.len() as int + 1;
        assert(after.calls[at] is ReplaceJournal);
    }
}

proof fn keep_acquired(
    world: NodeModelWorld,
    journal: VersionedNodeModelJournalView,
    group_index: usize,
    node_id: NodeId,
    receipt: Option<NodeModelRuntimeReceiptView>,
    candidate_id: Seq<char>,
    candidate: RuntimeCandidateView,
    hardware: HardwareObservationView,
    matching: Seq<RuntimeInstallationView>,
)
    requires
        store_keeps(
            runtime_acquired(
                world,
                journal,
                group_index,
                node_id,
                receipt,
                candidate_id,
                candidate,
                hardware,
                matching,
            ).0,
        ),
    ensures
        runtime_acquired(
            world,
            journal,
            group_index,
            node_id,
            receipt,
            candidate_id,
            candidate,
            hardware,
            matching,
        ).1 matches Ok(acquired) ==> same_groups(journal.journal, acquired.0.journal),
{
    let (after, acquired) = runtime_acquired(
        world,
        journal,
        group_index,
        node_id,
        receipt,
        candidate_id,
        candidate,
        hardware,
        matching,
    );
    if let Ok(acquired) = acquired {
        let pending = NodeModelRuntimeReceiptView {
            group_index,
            node_id,
            candidate_id,
            installation_id: None,
            disposition: crate::node_model_contract::NodeModelRuntimeDisposition::InstallPending,
        };
        match receipt {
            Some(receipt) => {
                if acquired.0 != journal {
                    let a = if matching.len() == 1 {
                        world
                    } else {
                        installed_or_reread(world, node_id, candidate, hardware, true).0
                    };
                    keep_receipt(a, journal, acquired.1);
                }
            },
            None => {
                if matching.len() > 0 {
                    keep_receipt(world, journal, acquired.1);
                } else {
                    let b = receipt_saved(world, journal, pending);
                    frame_installed(b.0, node_id, candidate, hardware, any_call());
                    let c = installed_or_reread(b.0, node_id, candidate, hardware, true);
                    frame_receipt(c.0, b.1->Ok_0, acquired.1, any_call());
                    join(b.0, c.0, after, any_call());
                    lemma_store_kept(b.0, after);
                    keep_receipt(world, journal, pending);
                    keep_receipt(c.0, b.1->Ok_0, acquired.1);
                }
            },
        }
    }
}

// ---------------------------------------------------------------------------
// Resolution
// ---------------------------------------------------------------------------

/// One call selects a candidate for a node from what was just observed of its hardware.
pub open spec fn selects_at(
    world: NodeModelWorld,
    at: int,
    node_id: NodeId,
    logical_model: Seq<char>,
    explicit: Option<Seq<char>>,
    candidate: RuntimeCandidateView,
) -> bool {
    &&& 0 < at
    &&& world.calls[at - 1] == (NodeModelCall::Observation { node_id })
    &&& (world.script.observation)((at - 1) as nat) matches Ok(hardware)
    &&& world.calls[at] == (NodeModelCall::SelectRuntime {
        model: logical_model,
        explicit_candidate_id: explicit,
        hardware,
    })
    &&& (world.script.select_runtime)(at as nat) == Ok::<
        RuntimeCandidateView,
        crate::entity::RuntimeError,
    >(candidate)
}

/// One installation is available on a node and is exactly one candidate.
pub open spec fn available_as(
    installation: RuntimeInstallationView,
    node_id: NodeId,
    candidate: RuntimeCandidateView,
) -> bool {
    &&& installation.node_id == node_id
    &&& installation.state == RuntimeInstallationState::Available
    &&& installation.runtime == candidate.runtime
    &&& installation.logical_model == candidate.logical_model
    &&& installation.artifacts == candidate.artifacts
}

/// A node runs what the catalog selects for it: from one position on a candidate is selected under
/// an exact identity, and the installation is that candidate. The identity is the receipt's where
/// the journal has one; else it is what was selected before under the command's own choice.
pub open spec fn runs_selected(
    world: NodeModelWorld,
    from: nat,
    logical_model: Seq<char>,
    explicit: Option<Seq<char>>,
    receipt: Option<NodeModelRuntimeReceiptView>,
    node_id: NodeId,
    installation: RuntimeInstallationView,
) -> bool {
    exists|at: int, candidate_id: Seq<char>, candidate: RuntimeCandidateView|
        {
            &&& from <= at < world.calls.len()
            &&& #[trigger] selects_at(
                world,
                at,
                node_id,
                logical_model,
                Some(candidate_id),
                candidate,
            )
            &&& available_as(installation, node_id, candidate)
            &&& match receipt {
                Some(receipt) => candidate_id == receipt.candidate_id,
                None => chosen_before(
                    world,
                    from,
                    at,
                    logical_model,
                    explicit,
                    node_id,
                    candidate_id,
                ),
            }
        }
}

/// Between two positions the command's own choice selected a candidate with the identity.
pub open spec fn chosen_before(
    world: NodeModelWorld,
    from: nat,
    to: int,
    logical_model: Seq<char>,
    explicit: Option<Seq<char>>,
    node_id: NodeId,
    candidate_id: Seq<char>,
) -> bool {
    exists|at: int, candidate: RuntimeCandidateView|
        from <= at < to && #[trigger] selects_at(
            world,
            at,
            node_id,
            logical_model,
            explicit,
            candidate,
        ) && candidate.runtime.candidate_id == candidate_id
}

/// Resolving one node gives an available installation on that node of exactly the candidate that
/// the catalog selects, and a journal that differs in receipts alone.
pub proof fn law_resolved_node_runs_the_selected_candidate(
    world: NodeModelWorld,
    journal: VersionedNodeModelJournalView,
    group_index: usize,
    explicit: Option<Seq<char>>,
    node_id: NodeId,
)
    requires
        store_keeps(node_resolved(world, journal, group_index, explicit, node_id).0),
    ensures
        ({
            let (after, resolved) = node_resolved(world, journal, group_index, explicit, node_id);
            resolved matches Ok(resolved) ==> {
                &&& same_groups(journal.journal, resolved.0.journal)
                &&& runs_selected(
                    after,
                    world.calls.len(),
                    journal.journal.logical_model,
                    explicit,
                    receipt_from(journal.journal.runtime_receipts, group_index, node_id, 0),
                    node_id,
                    resolved.1,
                )
            }
        }),
{
    let (after, resolved) = node_resolved(world, journal, group_index, explicit, node_id);
    let model = journal.journal.logical_model;
    let from = world.calls.len();
    if let Ok(resolved) = resolved {
        let receipt = receipt_from(journal.journal.runtime_receipts, group_index, node_id, 0);
        let a = candidate_selected(world, model, explicit, node_id);
        let first = match receipt {
            Some(_) => world,
            None => a.0,
        };
        let candidate_id = match receipt {
            Some(receipt) => receipt.candidate_id,
            None => a.1->Ok_0.0.runtime.candidate_id,
        };
        let b = candidate_selected(first, model, Some(candidate_id), node_id);
        let pinned = b.1->Ok_0;
        let c = matching_listed(b.0, node_id, pinned.0);
        let matching = c.1->Ok_0;
        let d = runtime_acquired(
            c.0,
            journal,
            group_index,
            node_id,
            receipt,
            candidate_id,
            pinned.0,
            pinned.1,
            matching,
        );
        frame_acquired(
            c.0,
            journal,
            group_index,
            node_id,
            receipt,
            candidate_id,
            pinned.0,
            pinned.1,
            matching,
            any_call(),
        );
        assert(only(d.0, after, any_call()));
        lemma_store_kept(d.0, after);
        keep_acquired(
            c.0,
            journal,
            group_index,
            node_id,
            receipt,
            candidate_id,
            pinned.0,
            pinned.1,
            matching,
        );
        join(b.0, c.0, d.0, any_call());
        join(b.0, d.0, after, any_call());
        frame_candidate(world, model, explicit, node_id, any_call());
        frame_candidate(first, model, Some(candidate_id), node_id, any_call());
        let at = first.calls.len() as int + 1;
        assert(b.0.calls[at] == after.calls[at]);
        assert(b.0.calls[at - 1] == after.calls[at - 1]);
        assert(selects_at(after, at, node_id, model, Some(candidate_id), pinned.0));
        if receipt is None {
            join(a.0, b.0, after, any_call());
            let earlier = from as int + 1;
            assert(a.0.calls[earlier] == after.calls[earlier]);
            assert(a.0.calls[earlier - 1] == after.calls[earlier - 1]);
            assert(selects_at(after, earlier, node_id, model, explicit, a.1->Ok_0.0));
            assert(chosen_before(after, from, at, model, explicit, node_id, candidate_id));
        }
        assert(available_as(resolved.1, node_id, pinned.0));
    }
}

/// The installations stand for the nodes, one for one, and each is available on its node.
pub open spec fn cover_nodes(
    installations: Seq<RuntimeInstallationView>,
    nodes: Seq<NodeId>,
) -> bool {
    &&& installations.len() == nodes.len()
    &&& forall|k: int|
        0 <= k < nodes.len() ==> (#[trigger] installations[k]).node_id == nodes[k]
            && installations[k].state == RuntimeInstallationState::Available
}

pub(crate) proof fn nodes_covered(
    world: NodeModelWorld,
    journal: VersionedNodeModelJournalView,
    group_index: usize,
    group: NodeModelInstallGroupView,
    at: int,
    installations: Seq<RuntimeInstallationView>,
)
    requires
        store_keeps(nodes_resolved(world, journal, group_index, group, at, installations).0),
        0 <= at <= group.node_ids.len(),
        cover_nodes(installations, group.node_ids.take(at)),
    ensures
        nodes_resolved(world, journal, group_index, group, at, installations).1 matches Ok(resolved)
            ==> same_groups(journal.journal, resolved.0.journal) && cover_nodes(
            resolved.1,
            group.node_ids,
        ),
    decreases group.node_ids.len() - at,
{
    let after = nodes_resolved(world, journal, group_index, group, at, installations).0;
    if at < group.node_ids.len() {
        let explicit = group.explicit_candidate_id;
        let node_id = group.node_ids[at];
        let a = node_resolved(world, journal, group_index, explicit, node_id);
        if let Ok(resolved) = a.1 {
            let more = installations.push(resolved.1);
            frame_nodes(a.0, resolved.0, group_index, group, at + 1, more, any_call());
            lemma_store_kept(a.0, after);
            law_resolved_node_runs_the_selected_candidate(
                world,
                journal,
                group_index,
                explicit,
                node_id,
            );
            assert forall|k: int| 0 <= k < at + 1 implies (#[trigger] more[k]).node_id
                == group.node_ids.take(at + 1)[k] && more[k].state
                == RuntimeInstallationState::Available by {
                if k < at {
                    assert(installations[k].node_id == group.node_ids.take(at)[k]);
                }
            }
            nodes_covered(a.0, resolved.0, group_index, group, at + 1, more);
        }
    } else {
        assert(group.node_ids.take(at) =~= group.node_ids);
    }
}

proof fn rollback_nodes_covered(
    world: NodeModelWorld,
    journal: NodeModelJournalView,
    group_index: usize,
    group: NodeModelInstallGroupView,
    at: int,
    installations: Seq<RuntimeInstallationView>,
)
    requires
        0 <= at <= group.node_ids.len(),
        cover_nodes(installations, group.node_ids.take(at)),
    ensures
        rollback_nodes_read(world, journal, group_index, group, at, installations).1 matches Ok(
            read,
        ) ==> cover_nodes(read, group.node_ids),
    decreases group.node_ids.len() - at,
{
    if at < group.node_ids.len() {
        let receipt = receipt_from(journal.runtime_receipts, group_index, group.node_ids[at], 0);
        if let Some(receipt) = receipt {
            if let Some(installation_id) = receipt.installation_id {
                let a = required(from_runtime(world.installation(installation_id)));
                if let Ok(installation) = a.1 {
                    let more = installations.push(installation);
                    if installation.node_id == group.node_ids[at] && installation.state
                        == RuntimeInstallationState::Available {
                        assert forall|k: int| 0 <= k < at + 1 implies (#[trigger] more[k]).node_id
                            == group.node_ids.take(at + 1)[k] && more[k].state
                            == RuntimeInstallationState::Available by {
                            if k < at {
                                assert(installations[k].node_id == group.node_ids.take(at)[k]);
                            }
                        }
                        rollback_nodes_covered(a.0, journal, group_index, group, at + 1, more);
                    }
                }
            }
        }
    } else {
        assert(group.node_ids.take(at) =~= group.node_ids);
    }
}

proof fn installations_covered(
    world: NodeModelWorld,
    journal: VersionedNodeModelJournalView,
    group_index: usize,
)
    requires
        store_keeps(group_installations(world, journal, group_index).0),
    ensures
        group_installations(world, journal, group_index).1 matches Ok(ready) ==> {
            &&& group_index < journal.journal.install_groups.len()
            &&& same_groups(journal.journal, ready.0.journal)
            &&& cover_nodes(
                ready.1,
                journal.journal.install_groups[group_index as int].node_ids,
            )
        },
{
    if group_index < journal.journal.install_groups.len() {
        let group = journal.journal.install_groups[group_index as int];
        assert(cover_nodes(Seq::empty(), group.node_ids.take(0)));
        if journal.journal.action == NodeModelAction::Rollback {
            rollback_nodes_covered(world, journal.journal, group_index, group, 0, Seq::empty());
        } else {
            nodes_covered(world, journal, group_index, group, 0, Seq::empty());
        }
    }
}

// ---------------------------------------------------------------------------
// Placement
// ---------------------------------------------------------------------------

/// One call asks for the placement of a group with available installations on exactly the nodes,
/// and the request that comes back is for this group and service and binds nothing else.
pub open spec fn requests_at(
    world: NodeModelWorld,
    at: int,
    service: ModelServiceId,
    group_index: usize,
    group: PlacementGroupId,
    nodes: Seq<NodeId>,
) -> bool {
    &&& world.calls[at] matches NodeModelCall::PlacementRequestFor {
        service_id,
        group_index: index,
        placement_group_id,
        installations,
    }
    &&& service_id == service
    &&& index == group_index
    &&& placement_group_id == group
    &&& cover_nodes(installations, nodes)
    &&& (world.script.placement_request_for)(at as nat) matches Ok(request)
    &&& request.placement_group_id == group
    &&& request.service_id == service
    &&& forall|k: int|
        0 <= k < installations.len() ==> request.runtime == (#[trigger] installations[k]).runtime
    &&& forall|i: int|
        0 <= i < request.nodes.len() ==> bound_to_one(installations, #[trigger] request.nodes[i])
}

/// A requested node is bound to one of the installations, on that installation's node.
pub open spec fn bound_to_one(
    installations: Seq<RuntimeInstallationView>,
    node: PlacementNodeResourcesView,
) -> bool {
    exists|k: int|
        0 <= k < installations.len() && (#[trigger] installations[k]).node_id == node.node_id
            && installations[k].installation_id == node.runtime_installation_id
}

/// One call shows that a request was carried out: it stages exactly the request, or reads the group
/// back with the request's service and runtime.
pub open spec fn carries_out(
    world: NodeModelWorld,
    asked: int,
    at: int,
    group: PlacementGroupId,
) -> bool {
    &&& (world.script.placement_request_for)(asked as nat) matches Ok(request)
    &&& {
        ||| world.calls[at] == (NodeModelCall::StageGroup { request }) && ((
        world.script.stage_group)(at as nat) matches Ok(record)
            && record.group.placement_group_id == group)
        ||| world.calls[at] == (NodeModelCall::GroupRecord { placement_group_id: group }) && ((
        world.script.group_record)(at as nat) matches Ok(Some(record)) && record.group.service_id
            == request.service_id && record.group.runtime == request.runtime
            && record.placements.len() == request.nodes.len())
    }
}

/// From one position on a group is requested for exactly the nodes, and the request carried out.
pub open spec fn placed(
    world: NodeModelWorld,
    from: nat,
    service: ModelServiceId,
    group_index: usize,
    group: PlacementGroupId,
    nodes: Seq<NodeId>,
) -> bool {
    exists|asked: int, at: int|
        from <= asked < at < world.calls.len() && #[trigger] requests_at(
            world,
            asked,
            service,
            group_index,
            group,
            nodes,
        ) && #[trigger] carries_out(world, asked, at, group)
}

pub(crate) proof fn carry_placed(
    earlier: NodeModelWorld,
    later: NodeModelWorld,
    late: nat,
    early: nat,
    service: ModelServiceId,
    group_index: usize,
    group: PlacementGroupId,
    nodes: Seq<NodeId>,
)
    requires
        placed(earlier, late, service, group_index, group, nodes),
        only(earlier, later, any_call()),
        early <= late,
    ensures
        placed(later, early, service, group_index, group, nodes),
{
    let (asked, at) = choose|asked: int, at: int|
        late <= asked < at < earlier.calls.len() && #[trigger] requests_at(
            earlier,
            asked,
            service,
            group_index,
            group,
            nodes,
        ) && #[trigger] carries_out(earlier, asked, at, group);
    assert(later.calls[asked] == earlier.calls[asked]);
    assert(later.calls[at] == earlier.calls[at]);
    assert(requests_at(later, asked, service, group_index, group, nodes));
    assert(carries_out(later, asked, at, group));
}

proof fn lemma_bound_installation(
    installations: Seq<RuntimeInstallationView>,
    node_id: NodeId,
)
    ensures
        crate::node_model_rules::bound_installation(
            crate::node_model_rules::installation_bindings(installations),
            node_id,
        ) matches Some(bound) ==> exists|k: int|
            0 <= k < installations.len() && (#[trigger] installations[k]).node_id == node_id
                && installations[k].installation_id == bound,
    decreases installations.len(),
{
    let bindings = crate::node_model_rules::installation_bindings(installations);
    if installations.len() > 0 {
        let shorter = installations.drop_last();
        assert(bindings.drop_last() =~= crate::node_model_rules::installation_bindings(shorter));
        lemma_bound_installation(shorter, node_id);
        if bindings.last().node_id == node_id {
            assert(installations[installations.len() - 1].node_id == node_id);
        } else if let Some(bound) = crate::node_model_rules::bound_installation(
            bindings.drop_last(),
            node_id,
        ) {
            let k = choose|k: int|
                0 <= k < shorter.len() && (#[trigger] shorter[k]).node_id == node_id
                    && shorter[k].installation_id == bound;
            assert(installations[k] == shorter[k]);
        }
    }
}

/// A placement request that is accepted is for the group and the service, runs the runtime of every
/// installation, and binds each of its nodes to one of the installations on that node.
pub proof fn law_accepted_request_binds_its_installations(
    request: PlacementRequestView,
    group: PlacementGroupId,
    service: ModelServiceId,
    installations: Seq<RuntimeInstallationView>,
)
    requires
        placement_request_checked(request, group, service, installations) is Ok,
    ensures
        request.placement_group_id == group,
        request.service_id == service,
        forall|k: int|
            0 <= k < installations.len() ==> request.runtime == (
            #[trigger] installations[k]).runtime,
        forall|i: int|
            0 <= i < request.nodes.len() ==> bound_to_one(
                installations,
                #[trigger] request.nodes[i],
            ),
        installations.len() > 0,
        request.nodes.len() > 0,
{
    let bindings = crate::node_model_rules::request_bindings(request);
    assert forall|i: int| 0 <= i < request.nodes.len() implies bound_to_one(
        installations,
        #[trigger] request.nodes[i],
    ) by {
        let binding = bindings[i];
        lemma_bound_installation(installations, binding.node_id);
        let k = choose|k: int|
            0 <= k < installations.len() && (#[trigger] installations[k]).node_id == binding.node_id
                && installations[k].installation_id == binding.runtime_installation_id;
        assert(installations[k].node_id == request.nodes[i].node_id);
    }
    let nodes = crate::node_model_rules::assigned_nodes(
        crate::node_model_rules::installation_bindings(installations),
    );
    crate::sequence::lemma_distinct(nodes);
    assert(nodes.contains(nodes[0]));
    assert(crate::sequence::distinct(nodes).contains(nodes[0]));
}

proof fn group_is_placed(
    world: NodeModelWorld,
    journal: VersionedNodeModelJournalView,
    group_index: usize,
    group: PlacementGroupId,
    installations: Seq<RuntimeInstallationView>,
    nodes: Seq<NodeId>,
)
    requires
        store_keeps(group_placed(world, journal, group_index, group, installations).0),
        cover_nodes(installations, nodes),
    ensures
        ({
            let (after, done) = group_placed(world, journal, group_index, group, installations);
            let from = world.calls.len();
            let service = journal.journal.service_id;
            done matches Ok(done) ==> {
                &&& same_command(journal.journal, done.journal)
                &&& done.journal.placement_group_ids.len() > group_index
                &&& done.journal.placement_group_ids[group_index as int] == group
                &&& done.journal.placement_group_ids == if group_index
                    < journal.journal.placement_group_ids.len() {
                    journal.journal.placement_group_ids
                } else {
                    journal.journal.placement_group_ids.push(group)
                }
                &&& placed(after, from, service, group_index, group, nodes)
                &&& ends_bound(after, from, service, group)
                &&& ends_running(after, from, group)
            }
        }),
{
    let (after, done) = group_placed(world, journal, group_index, group, installations);
    let from = world.calls.len();
    let service = journal.journal.service_id;
    if let Ok(done) = done {
        let a = world.placement_request_for(service, group_index, group, installations);
        let request = a.1->Ok_0;
        law_accepted_request_binds_its_installations(request, group, service, installations);
        let b = group_staged(a.0, journal, group_index, group, request);
        frame_staged(a.0, journal, group_index, group, request, placing());
        let name = attach_phase(group_index);
        let c = group_attached(b.0, done.journal, group, name);
        step_bound(b.0, done.journal, group, name, placing());
        step_running(c.0, group, placing());
        join(b.0, c.0, after, placing());
        join(a.0, b.0, after, placing());
        lemma_widened(b.0, after, placing(), any_call());
        lemma_widened(a.0, after, placing(), any_call());
        lemma_store_kept(b.0, after);
        if group_index >= journal.journal.placement_group_ids.len() {
            let write = b.0.calls.len() as int - 1;
            assert(b.0.calls[write] is ReplaceJournal);
        }
        assert(same_command(journal.journal, done.journal));
        carry_bound(c.0, after, b.0.calls.len(), service, group, placing());
        crate::node_model_outcomes::lemma_running_from(after, c.0.calls.len(), from, group);
        let at = from as int;
        assert(a.0.calls[at] == after.calls[at]);
        assert(requests_at(after, at, service, group_index, group, nodes));
        let staged = at + 1;
        if group_index < journal.journal.placement_group_ids.len() {
            assert(b.0.calls[staged] == after.calls[staged]);
            assert(carries_out(after, at, staged, group));
        } else {
            let d = staged_or_reread(a.0, group, request);
            assert(only(d.0, b.0, any_call()));
            join(d.0, b.0, after, any_call());
            let (e, reply) = a.0.stage_group(request);
            assert(d.0.calls[staged] == after.calls[staged]);
            if reply is Ok {
                assert(carries_out(after, at, staged, group));
            } else {
                assert(d.0.calls[staged + 1] == after.calls[staged + 1]);
                assert(carries_out(after, at, staged + 1, group));
            }
        }
        lemma_bound_from(after, b.0.calls.len(), from, service, group);
    }
}

pub(crate) proof fn lemma_bound_from(
    world: NodeModelWorld,
    late: nat,
    early: nat,
    service: ModelServiceId,
    group: PlacementGroupId,
)
    requires
        ends_bound(world, late, service, group),
        early <= late,
    ensures
        ends_bound(world, early, service, group),
{
    let at = choose|at: int|
        late <= at < world.calls.len() && #[trigger] crate::node_model_traces::holds_at(
            world,
            at,
            service,
            group,
        ) && forall|next: int|
            at < next < world.calls.len() ==> !crate::node_model_traces::detaches(
                #[trigger] world.calls[next],
                service,
                group,
            );
    assert(crate::node_model_traces::holds_at(world, at, service, group));
}

/// One planned group of a command stands: it was requested for exactly its nodes and placed, the
/// service holds it, and it runs.
pub open spec fn stands(
    world: NodeModelWorld,
    from: nat,
    journal: NodeModelJournalView,
    index: int,
) -> bool {
    let group = journal.planned_group_ids[index];
    &&& placed(
        world,
        from,
        journal.service_id,
        index as usize,
        group,
        journal.install_groups[index].node_ids,
    )
    &&& ends_bound(world, from, journal.service_id, group)
    &&& ends_running(world, from, group)
}

pub(crate) proof fn carry_stands(
    earlier: NodeModelWorld,
    later: NodeModelWorld,
    late: nat,
    early: nat,
    journal: NodeModelJournalView,
    index: int,
)
    requires
        stands(earlier, late, journal, index),
        only(earlier, later, placing()),
        early <= late,
    ensures
        stands(later, early, journal, index),
{
    let group = journal.planned_group_ids[index];
    let service = journal.service_id;
    lemma_widened(earlier, later, placing(), any_call());
    carry_placed(
        earlier,
        later,
        late,
        early,
        service,
        index as usize,
        group,
        journal.install_groups[index].node_ids,
    );
    carry_bound(earlier, later, late, service, group, placing());
    carry_running(earlier, later, late, group, placing());
    lemma_bound_from(later, late, early, service, group);
    crate::node_model_outcomes::lemma_running_from(later, late, early, group);
}

proof fn group_stands(
    world: NodeModelWorld,
    journal: VersionedNodeModelJournalView,
    group_index: usize,
)
    requires
        store_keeps(group_installed(world, journal, group_index).0),
    ensures
        ({
            let (after, done) = group_installed(world, journal, group_index);
            let index = group_index as int;
            done matches Ok(done) ==> {
                &&& group_index < journal.journal.planned_group_ids.len()
                &&& group_index < journal.journal.install_groups.len()
                &&& same_command(journal.journal, done.journal)
                &&& done.journal.placement_group_ids.len() > group_index
                &&& done.journal.placement_group_ids[index]
                    == journal.journal.planned_group_ids[index]
                &&& done.journal.placement_group_ids == if group_index
                    < journal.journal.placement_group_ids.len() {
                    journal.journal.placement_group_ids
                } else {
                    journal.journal.placement_group_ids.push(
                        journal.journal.planned_group_ids[index],
                    )
                }
                &&& stands(after, world.calls.len(), journal.journal, index)
            }
        }),
{
    let (after, done) = group_installed(world, journal, group_index);
    let from = world.calls.len();
    if let Ok(done) = done {
        let a = group_installations(world, journal, group_index);
        frame_installations(world, journal, group_index, placing());
        let ready = a.1->Ok_0;
        let group = ready.0.journal.planned_group_ids[group_index as int];
        frame_placed(a.0, ready.0, group_index, group, ready.1, placing());
        lemma_widened(a.0, after, placing(), any_call());
        lemma_store_kept(a.0, after);
        installations_covered(world, journal, group_index);
        let nodes = journal.journal.install_groups[group_index as int].node_ids;
        group_is_placed(a.0, ready.0, group_index, group, ready.1, nodes);
        assert(stands(after, a.0.calls.len(), journal.journal, group_index as int));
        assert(only(after, after, placing()));
        carry_stands(
            after,
            after,
            a.0.calls.len(),
            from,
            journal.journal,
            group_index as int,
        );
    }
}

proof fn groups_stand(
    world: NodeModelWorld,
    journal: VersionedNodeModelJournalView,
    at: int,
    count: int,
)
    requires
        store_keeps(groups_installed(world, journal, at, count).0),
        0 <= at <= count <= usize::MAX,
    ensures
        ({
            let (after, done) = groups_installed(world, journal, at, count);
            done matches Ok(done) ==> {
                &&& same_command(journal.journal, done.journal)
                &&& journal.journal.placement_group_ids.is_prefix_of(
                    done.journal.placement_group_ids,
                )
                &&& done.journal.placement_group_ids.len() <= if count
                    > journal.journal.placement_group_ids.len() {
                    count as nat
                } else {
                    journal.journal.placement_group_ids.len()
                }
                &&& at < count ==> count <= journal.journal.planned_group_ids.len()
                &&& at < count ==> count <= journal.journal.install_groups.len()
                &&& at < count ==> count <= done.journal.placement_group_ids.len()
                &&& forall|k: int|
                    at <= k < count ==> (#[trigger] done.journal.placement_group_ids[k])
                        == journal.journal.planned_group_ids[k]
                &&& forall|k: int|
                    at <= k < count ==> #[trigger] stands(
                        after,
                        world.calls.len(),
                        journal.journal,
                        k,
                    )
            }
        }),
    decreases count - at,
{
    let (after, done) = groups_installed(world, journal, at, count);
    let first = journal.journal;
    if at < count {
        let a = group_installed(world, journal, at as usize);
        if let Ok(next) = a.1 {
            frame_groups(a.0, next, at + 1, count, placing());
            lemma_widened(a.0, after, placing(), any_call());
            lemma_store_kept(a.0, after);
            group_stands(world, journal, at as usize);
            groups_stand(a.0, next, at + 1, count);
            if let Ok(done) = done {
                carry_stands(a.0, after, world.calls.len(), world.calls.len(), first, at);
                assert(first.placement_group_ids.is_prefix_of(next.journal.placement_group_ids));
                assert(done.journal.placement_group_ids[at]
                    == next.journal.placement_group_ids[at]);
                assert(first.placement_group_ids.is_prefix_of(done.journal.placement_group_ids)) by {
                    assert forall|k: int| 0 <= k < first.placement_group_ids.len() implies (
                    #[trigger] first.placement_group_ids[k])
                        == done.journal.placement_group_ids[k] by {
                        assert(first.placement_group_ids[k] == next.journal.placement_group_ids[k]);
                    }
                }
                assert(same_command(first, done.journal));
                assert(count <= first.planned_group_ids.len());
                assert(count <= first.install_groups.len());
                assert forall|k: int| at <= k < count implies (
                #[trigger] done.journal.placement_group_ids[k]) == first.planned_group_ids[k] by {
                    if k > at {
                        assert(done.journal.placement_group_ids[k]
                            == next.journal.planned_group_ids[k]);
                    } else {
                        assert(next.journal.placement_group_ids[at] == first.planned_group_ids[at]);
                    }
                }
                assert forall|k: int| at <= k < count implies #[trigger] stands(
                    after,
                    world.calls.len(),
                    first,
                    k,
                ) by {
                    if k > at {
                        assert(stands(after, a.0.calls.len(), next.journal, k));
                        assert(stands(after, a.0.calls.len(), first, k));
                        assert(only(after, after, placing()));
                        carry_stands(
                            after,
                            after,
                            a.0.calls.len(),
                            world.calls.len(),
                            first,
                            k,
                        );
                    }
                }
            }
        }
    } else {
        assert(first.placement_group_ids.is_prefix_of(first.placement_group_ids));
    }
}

/// The calls that place the groups of a list and no other: runtimes are acquired, the service is
/// created or moved to running, and the listed groups are staged, attached and started.
pub open spec fn placing_only(groups: Seq<PlacementGroupId>) -> Calls {
    |call: NodeModelCall|
        placing()(call) && match call {
            NodeModelCall::StageGroup { request } => groups.contains(request.placement_group_id),
            NodeModelCall::AttachGroup { placement_group_id, .. } => groups.contains(
                placement_group_id,
            ),
            NodeModelCall::StartGroup { placement_group_id } => groups.contains(
                placement_group_id,
            ),
            _ => true,
        }
}

proof fn groups_placed_within(
    world: NodeModelWorld,
    journal: VersionedNodeModelJournalView,
    at: int,
    count: int,
)
    requires
        store_keeps(groups_installed(world, journal, at, count).0),
        0 <= at <= count <= usize::MAX,
    ensures
        only(
            world,
            groups_installed(world, journal, at, count).0,
            placing_only(journal.journal.planned_group_ids),
        ),
        groups_installed(world, journal, at, count).1 matches Ok(done) ==> same_command(
            journal.journal,
            done.journal,
        ),
    decreases count - at,
{
    let after = groups_installed(world, journal, at, count).0;
    let allowed = placing_only(journal.journal.planned_group_ids);
    if at < count {
        let a = group_installed(world, journal, at as usize);
        let b = group_installations(world, journal, at as usize);
        frame_installations(world, journal, at as usize, allowed);
        frame_group(world, journal, at as usize, any_call());
        if let Ok(next) = a.1 {
            frame_groups(a.0, next, at + 1, count, any_call());
            lemma_store_kept(a.0, after);
        }
        if let Ok(ready) = b.1 {
            if (at as usize) < ready.0.journal.planned_group_ids.len() {
                let group = ready.0.journal.planned_group_ids[at];
                frame_placed(b.0, ready.0, at as usize, group, ready.1, any_call());
                if group_runtime(ready.1) is Ok {
                    lemma_store_kept(b.0, a.0);
                    installations_covered(world, journal, at as usize);
                    assert(journal.journal.planned_group_ids.contains(group));
                    frame_placed(b.0, ready.0, at as usize, group, ready.1, allowed);
                    join(world, b.0, a.0, allowed);
                }
            }
        }
        assert(only(world, a.0, allowed));
        if let Ok(next) = a.1 {
            group_stands(world, journal, at as usize);
            groups_placed_within(a.0, next, at + 1, count);
            join(world, a.0, after, allowed);
        }
    }
}

/// An install places no group but those that it planned.
pub proof fn law_install_places_only_planned_groups(
    world: NodeModelWorld,
    journal: VersionedNodeModelJournalView,
)
    requires
        store_keeps(install_executed(world, journal).0),
        journal.journal.install_groups.len() <= usize::MAX,
    ensures
        only(
            world,
            install_executed(world, journal).0,
            placing_only(journal.journal.planned_group_ids),
        ),
{
    let (after, done) = install_executed(world, journal);
    let allowed = placing_only(journal.journal.planned_group_ids);
    let count = journal.journal.install_groups.len() as int;
    let a = service_created(world, journal.journal);
    assert(only(world, a.0, allowed));
    if a.1 is Ok && a.1->Ok_0.logical_model == journal.journal.logical_model {
        let b = groups_installed(a.0, journal, 0, count);
        if let Ok(done) = b.1 {
            let name = "service.running"@;
            let state = ModelServiceDesiredState::Running;
            step_intending(b.0, done.journal, name, state, allowed);
            lemma_widened(b.0, after, allowed, any_call());
            lemma_store_kept(b.0, after);
            groups_placed_within(a.0, journal, 0, count);
            join(world, a.0, b.0, allowed);
            join(world, b.0, after, allowed);
        } else {
            groups_placed_within(a.0, journal, 0, count);
            join(world, a.0, b.0, allowed);
        }
    }
}

/// An install that succeeded has placed, bound and started every requested group under its planned
/// identity on exactly its nodes, has committed all of them and no other, and the service runs.
pub proof fn law_install_places_every_group(
    world: NodeModelWorld,
    journal: VersionedNodeModelJournalView,
)
    requires
        store_keeps(install_executed(world, journal).0),
        journal.journal.install_groups.len() <= usize::MAX,
    ensures
        ({
            let (after, done) = install_executed(world, journal);
            let count = journal.journal.install_groups.len();
            done matches Ok(done) ==> {
                &&& same_command(journal.journal, done.journal)
                &&& forall|k: int|
                    0 <= k < count ==> #[trigger] stands(
                        after,
                        world.calls.len(),
                        journal.journal,
                        k,
                    )
                &&& count <= done.journal.placement_group_ids.len()
                &&& forall|k: int|
                    0 <= k < count ==> (#[trigger] done.journal.placement_group_ids[k])
                        == journal.journal.planned_group_ids[k]
                &&& journal.journal.placement_group_ids.is_prefix_of(
                    done.journal.placement_group_ids,
                )
                &&& done.journal.placement_group_ids.len() == if count
                    > journal.journal.placement_group_ids.len() {
                    count
                } else {
                    journal.journal.placement_group_ids.len()
                }
                &&& ends_intending(
                    after,
                    world.calls.len(),
                    journal.journal.service_id,
                    ModelServiceDesiredState::Running,
                )
            }
        }),
{
    let (after, done) = install_executed(world, journal);
    let count = journal.journal.install_groups.len() as int;
    let from = world.calls.len();
    if let Ok(done) = done {
        let a = service_created(world, journal.journal);
        let b = groups_installed(a.0, journal, 0, count);
        frame_groups(a.0, journal, 0, count, placing());
        let name = "service.running"@;
        let state = ModelServiceDesiredState::Running;
        let allowed = crate::node_model_outcomes::moves_to(done.journal.service_id, state);
        step_intending(b.0, done.journal, name, state, allowed);
        lemma_widened(b.0, after, allowed, placing());
        lemma_widened(b.0, after, placing(), any_call());
        lemma_store_kept(b.0, after);
        groups_stand(a.0, journal, 0, count);
        assert forall|k: int| 0 <= k < count implies #[trigger] stands(
            after,
            from,
            journal.journal,
            k,
        ) by {
            assert(stands(b.0, a.0.calls.len(), journal.journal, k));
            carry_stands(b.0, after, a.0.calls.len(), from, journal.journal, k);
        }
        crate::node_model_outcomes::lemma_intending_from(
            after,
            b.0.calls.len(),
            from,
            journal.journal.service_id,
            state,
        );
    }
}

pub(crate) proof fn lemma_planned_covers(
    world: NodeModelWorld,
    journal: VersionedNodeModelJournalView,
)
    requires
        store_keeps(install_executed(world, journal).0),
        install_executed(world, journal).1 is Ok,
        journal.journal.install_groups.len() <= usize::MAX,
    ensures
        journal.journal.install_groups.len() <= journal.journal.planned_group_ids.len(),
{
    let after = install_executed(world, journal).0;
    let count = journal.journal.install_groups.len() as int;
    let a = service_created(world, journal.journal);
    let b = groups_installed(a.0, journal, 0, count);
    let done = b.1->Ok_0;
    let state = ModelServiceDesiredState::Running;
    step_intending(b.0, done.journal, "service.running"@, state, any_call());
    lemma_store_kept(b.0, after);
    groups_stand(a.0, journal, 0, count);
}

} // verus!
