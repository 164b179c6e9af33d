//! Local authority changes: enrollment of children, becoming a child or a main, and their
//! paired forms inside a caller's transaction.

use vstd::prelude::*;

use crate::database::{
    DatabaseCollection, DatabaseCommit, DatabaseCommitView, DatabaseError, DatabaseRevision,
    DatabaseTransactionResult, NodeManagerError, Stored, StoredView,
};
use crate::entity::{Node, NodeRole, NodeState, NodeView};
use crate::identity::{entity_timestamps, EntityTimestamps, NodeId, UnixMilliseconds};
use crate::node_manager::{
    active_main_with_revision, committed_change, observed_change, outbox_write, sole_active_main,
    NodeCommit, NodeCommitView, NodeManager, NodeManagerChange, NodeManagerChangeView, NodeWrite,
    NodeWriteView,
};
use crate::node_outbox::{event_if_applied, pending_outbox_event, NodeManagerEvent};
use crate::sequence::{found, listed, outcome, views, Valued};
use crate::text::text_is;

verus! {

/// Every node with its revision, or why the topology could not be read.
pub type Topology = Result<Vec<Stored<Node>>, NodeManagerError>;

/// One node with its revision when it exists, or why it could not be read.
pub type Lookup = Result<Option<Stored<Node>>, NodeManagerError>;

// ---------------------------------------------------------------------------
// Authorities
// ---------------------------------------------------------------------------

/// Two snapshots of the same active control authority.
pub open spec fn same_authority(first: NodeView, second: NodeView) -> bool {
    &&& first.identity == second.identity
    &&& first.is_active_main()
    &&& second.is_active_main()
    &&& first.control_address == second.control_address
}

/// Returns whether two snapshots identify the same active control authority.
pub fn same_node_authority(first: &Node, second: &Node) -> (same: bool)
    ensures
        same == same_authority(first@, second@),
{
    first.identity == second.identity && first.is_active_main() && second.is_active_main()
        && first.control_address.same(&second.control_address)
}

/// Why one known node prevents a candidate from joining, if it does.
pub open spec fn identity_clash(
    node: NodeView,
    candidate: NodeView,
    excluded: NodeId,
) -> Option<&'static str> {
    if node.identity.node_id == excluded {
        None
    } else if node.identity.node_id == candidate.identity.node_id {
        Some("node identity is already enrolled")
    } else if node.identity.machine_id == candidate.identity.machine_id {
        Some("machine identity is already enrolled")
    } else if node.identity.installation_id == candidate.identity.installation_id {
        Some("Core installation identity is already enrolled")
    } else if node.control_address == candidate.control_address {
        Some("control address is already enrolled")
    } else {
        None
    }
}

/// The first clash of one topology from one position on.
pub open spec fn unique_from(
    nodes: Seq<StoredView<NodeView>>,
    candidate: NodeView,
    excluded: NodeId,
    at: int,
) -> Result<(), NodeManagerError>
    decreases nodes.len() - at,
{
    if at < 0 || at >= nodes.len() {
        Ok(())
    } else {
        match identity_clash(nodes[at].value, candidate, excluded) {
            Some(reason) => Err(NodeManagerError::NodeIdentityConflict { reason }),
            None => unique_from(nodes, candidate, excluded, at + 1),
        }
    }
}

/// Requires candidate identity fields to be unique outside one existing record.
#[verifier::loop_isolation(false)]
pub fn require_unique_node_identity_except(
    nodes: &Vec<Stored<Node>>,
    candidate: &Node,
    excluded: &NodeId,
) -> (result: Result<(), NodeManagerError>)
    ensures
        result == unique_from(views(nodes@), candidate@, *excluded, 0),
{
    let ghost all = views(nodes@);
    let mut i: usize = 0;
    while i < nodes.len()
        invariant
            i <= nodes@.len(),
            unique_from(all, candidate@, *excluded, i as int) == unique_from(
                all,
                candidate@,
                *excluded,
                0,
            ),
        decreases nodes@.len() - i,
    {
        let node = &nodes[i].value;
        assert(all[i as int].value == node@);
        if node.identity.node_id != *excluded {
            if node.identity.node_id == candidate.identity.node_id {
                return Err(
                    NodeManagerError::NodeIdentityConflict {
                        reason: "node identity is already enrolled",
                    },
                );
            }
            if node.identity.machine_id == candidate.identity.machine_id {
                return Err(
                    NodeManagerError::NodeIdentityConflict {
                        reason: "machine identity is already enrolled",
                    },
                );
            }
            if node.identity.installation_id == candidate.identity.installation_id {
                return Err(
                    NodeManagerError::NodeIdentityConflict {
                        reason: "Core installation identity is already enrolled",
                    },
                );
            }
            if node.control_address.same(&candidate.control_address) {
                return Err(
                    NodeManagerError::NodeIdentityConflict {
                        reason: "control address is already enrolled",
                    },
                );
            }
        }
        i += 1;
    }
    Ok(())
}

/// A candidate that joins clashes with no other node of the topology.
pub proof fn law_unique_candidate_clashes_with_none(
    nodes: Seq<StoredView<NodeView>>,
    candidate: NodeView,
    at: int,
    index: int,
)
    requires
        0 <= at <= index < nodes.len(),
        unique_from(nodes, candidate, candidate.identity.node_id, at) is Ok,
        nodes[index].value.identity.node_id != candidate.identity.node_id,
    ensures
        nodes[index].value.identity.machine_id != candidate.identity.machine_id,
        nodes[index].value.identity.installation_id != candidate.identity.installation_id,
        nodes[index].value.control_address != candidate.control_address,
    decreases index - at,
{
    if at < index {
        law_unique_candidate_clashes_with_none(nodes, candidate, at + 1, index);
    }
}

/// The record of one destination authority and the revision that its save expects.
pub struct AuthorityView {
    pub node: NodeView,
    pub revision: DatabaseRevision,
}

/// One destination authority: the known record when it is the same authority, else the candidate.
pub open spec fn authority_of(
    candidate: NodeView,
    existing: Result<Option<StoredView<NodeView>>, NodeManagerError>,
    topology: Result<Seq<StoredView<NodeView>>, NodeManagerError>,
) -> Result<AuthorityView, NodeManagerError> {
    match existing {
        Err(error) => Err(error),
        Ok(Some(existing)) => if !same_authority(existing.value, candidate) {
            Err(
                NodeManagerError::NodeIdentityConflict {
                    reason: "destination main conflicts with committed authority",
                },
            )
        } else {
            match candidate_unique(candidate, topology) {
                Err(error) => Err(error),
                Ok(_) => Ok(
                    AuthorityView {
                        node: existing.value,
                        revision: DatabaseRevision::Exact(existing.revision),
                    },
                ),
            }
        },
        Ok(None) => match candidate_unique(candidate, topology) {
            Err(error) => Err(error),
            Ok(_) => Ok(AuthorityView { node: candidate, revision: DatabaseRevision::Missing }),
        },
    }
}

/// A candidate that is unique in a readable topology.
pub open spec fn candidate_unique(
    candidate: NodeView,
    topology: Result<Seq<StoredView<NodeView>>, NodeManagerError>,
) -> Result<(), NodeManagerError> {
    match topology {
        Err(error) => Err(error),
        Ok(nodes) => unique_from(nodes, candidate, candidate.identity.node_id, 0),
    }
}

/// Requires node, machine, installation, and control address to remain globally unique.
pub fn require_unique_node_identity(candidate: &Node, topology: &Topology) -> (result: Result<
    (),
    NodeManagerError,
>)
    ensures
        result == candidate_unique(candidate@, listed(*topology)),
{
    match topology {
        Err(error) => Err(*error),
        Ok(nodes) => require_unique_node_identity_except(
            nodes,
            candidate,
            &candidate.identity.node_id,
        ),
    }
}

/// Resolves and validates the destination authority's optimistic revision.
pub fn authority_record(
    candidate: &Node,
    existing: &Lookup,
    topology: &Topology,
) -> (record: Result<
    (Node, DatabaseRevision),
    NodeManagerError,
>)
    ensures
        authority_of(candidate@, found(*existing), listed(*topology)) == match record {
            Ok(record) => Ok::<AuthorityView, NodeManagerError>(
                AuthorityView { node: record.0@, revision: record.1 },
            ),
            Err(error) => Err(error),
        },
{
    match existing {
        Err(error) => Err(*error),
        Ok(Some(existing)) => {
            if !same_node_authority(&existing.value, candidate) {
                return Err(
                    NodeManagerError::NodeIdentityConflict {
                        reason: "destination main conflicts with committed authority",
                    },
                );
            }
            require_unique_node_identity(candidate, topology)?;
            Ok((existing.value.copy(), DatabaseRevision::Exact(existing.revision)))
        },
        Ok(None) => {
            require_unique_node_identity(candidate, topology)?;
            Ok((candidate.copy(), DatabaseRevision::Missing))
        },
    }
}

/// The one active main of a readable topology.
pub open spec fn main_of(topology: Result<Seq<StoredView<NodeView>>, NodeManagerError>) -> Result<
    StoredView<NodeView>,
    NodeManagerError,
> {
    match topology {
        Err(error) => Err(error),
        Ok(nodes) => sole_active_main(nodes),
    }
}

fn current_main(topology: &Topology) -> (main: Result<Stored<Node>, NodeManagerError>)
    ensures
        outcome(main) == main_of(listed(*topology)),
{
    match topology {
        Err(error) => Err(*error),
        Ok(nodes) => active_main_with_revision(nodes),
    }
}

// ---------------------------------------------------------------------------
// Role changes
// ---------------------------------------------------------------------------

/// Selects the local authority change.
#[derive(Debug)]
pub enum LocalNodeRoleTransition {
    BecomeChild { main: Node },
    BecomeMain,
}

/// What one [`LocalNodeRoleTransition`] holds.
pub enum LocalNodeRoleTransitionView {
    BecomeChild { main: NodeView },
    BecomeMain,
}

impl View for LocalNodeRoleTransition {
    type V = LocalNodeRoleTransitionView;

    open spec fn view(&self) -> LocalNodeRoleTransitionView {
        match self {
            LocalNodeRoleTransition::BecomeChild { main } => {
                LocalNodeRoleTransitionView::BecomeChild { main: main@ }
            },
            LocalNodeRoleTransition::BecomeMain => LocalNodeRoleTransitionView::BecomeMain,
        }
    }
}

impl LocalNodeRoleTransitionView {
    /// The role that the change ends in.
    pub open spec fn target(self) -> NodeRole {
        match self {
            LocalNodeRoleTransitionView::BecomeChild { .. } => NodeRole::Child,
            LocalNodeRoleTransitionView::BecomeMain => NodeRole::Main,
        }
    }
}

impl LocalNodeRoleTransition {
    /// Returns the role that the change ends in.
    pub fn target_role(&self) -> (role: NodeRole)
        ensures
            role == self@.target(),
    {
        match self {
            LocalNodeRoleTransition::BecomeChild { .. } => NodeRole::Child,
            LocalNodeRoleTransition::BecomeMain => NodeRole::Main,
        }
    }
}

/// One failure of a local role change.
pub open spec fn role_refused<T>(reason: &'static str) -> Result<T, NodeManagerError> {
    Err(NodeManagerError::InvalidLocalRoleTransition { reason })
}

/// The existing authority is what the change asks for.
pub open spec fn authority_matches(
    main: NodeView,
    local: NodeView,
    transition: LocalNodeRoleTransitionView,
) -> bool {
    match transition {
        LocalNodeRoleTransitionView::BecomeMain => main.identity.node_id
            == local.identity.node_id,
        LocalNodeRoleTransitionView::BecomeChild { main: requested } => same_authority(
            main,
            requested,
        ),
    }
}

/// A role that is already there is observed when the authority is the requested one.
pub open spec fn role_observed(
    local: StoredView<NodeView>,
    topology: Result<Seq<StoredView<NodeView>>, NodeManagerError>,
    transition: LocalNodeRoleTransitionView,
) -> Result<Option<NodeManagerChangeView<NodeView>>, NodeManagerError> {
    if local.value.role != transition.target() {
        Ok(None)
    } else if local.value.state != NodeState::Active {
        role_refused("the existing target role is not active")
    } else {
        match main_of(topology) {
            Err(error) => Err(error),
            Ok(main) => if authority_matches(main.value, local.value, transition) {
                Ok(Some(observed_change(local.value, local.revision)))
            } else {
                role_refused("the existing authority does not match the requested role")
            },
        }
    }
}

/// Returns an existing target-role snapshot without repeating external mutation.
pub fn observed_local_role_transition(
    local: &Stored<Node>,
    topology: &Topology,
    transition: &LocalNodeRoleTransition,
) -> (observed: Result<Option<NodeManagerChange<Node>>, NodeManagerError>)
    ensures
        found(observed) == role_observed(local@, listed(*topology), transition@),
{
    if local.value.role != transition.target_role() {
        return Ok(None);
    }
    if local.value.state != NodeState::Active {
        return Err(
            NodeManagerError::InvalidLocalRoleTransition {
                reason: "the existing target role is not active",
            },
        );
    }
    let main = current_main(topology)?.value;
    let matches = match transition {
        LocalNodeRoleTransition::BecomeMain => main.identity.node_id
            == local.value.identity.node_id,
        LocalNodeRoleTransition::BecomeChild { main: requested } => same_node_authority(
            &main,
            requested,
        ),
    };
    if !matches {
        return Err(
            NodeManagerError::InvalidLocalRoleTransition {
                reason: "the existing authority does not match the requested role",
            },
        );
    }
    Ok(Some(NodeManagerChange::observed(local.value.copy(), local.revision)))
}

/// What happens to the counterpart of one role change.
#[derive(Clone, Copy, Debug, PartialEq, Eq, Structural)]
pub enum Counterpart {
    /// Its record is saved as it is.
    Saved,
    /// Its record is saved as removed.
    Retired,
    /// Its record is deleted.
    Deleted,
}

/// One role change that waits for proof of readiness.
#[derive(Debug)]
pub struct RoleChange {
    pub local: Node,
    pub target: NodeRole,
    pub authority: Node,
    pub authority_revision: DatabaseRevision,
    pub counterpart: Counterpart,
}

/// What one [`RoleChange`] holds.
pub struct RoleChangeView {
    pub local: NodeView,
    pub target: NodeRole,
    pub authority: NodeView,
    pub authority_revision: DatabaseRevision,
    pub counterpart: Counterpart,
}

impl View for RoleChange {
    type V = RoleChangeView;

    open spec fn view(&self) -> RoleChangeView {
        RoleChangeView {
            local: self.local@,
            target: self.target,
            authority: self.authority@,
            authority_revision: self.authority_revision,
            counterpart: self.counterpart,
        }
    }
}

/// What one role change does: nothing because it is already there, or a change that needs proof.
#[derive(Debug)]
pub enum RoleStep {
    Observed(NodeManagerChange<Node>),
    Change(RoleChange),
}

/// What one [`RoleStep`] holds.
pub enum RoleStepView {
    Observed(NodeManagerChangeView<NodeView>),
    Change(RoleChangeView),
}

impl View for RoleStep {
    type V = RoleStepView;

    open spec fn view(&self) -> RoleStepView {
        match self {
            RoleStep::Observed(change) => RoleStepView::Observed(change@),
            RoleStep::Change(change) => RoleStepView::Change(change@),
        }
    }
}

/// The local main moves beneath a destination main.
pub open spec fn child_change(
    local: NodeView,
    main: NodeView,
    existing: Result<Option<StoredView<NodeView>>, NodeManagerError>,
    topology: Result<Seq<StoredView<NodeView>>, NodeManagerError>,
) -> Result<RoleStepView, NodeManagerError> {
    match main_of(topology) {
        Err(error) => Err(error),
        Ok(current) => if current.value.identity.node_id != local.identity.node_id {
            role_refused("the local node does not own current main authority")
        } else {
            match authority_of(main, existing, topology) {
                Err(error) => Err(error),
                Ok(authority) => Ok(
                    RoleStepView::Change(
                        RoleChangeView {
                            local,
                            target: NodeRole::Child,
                            authority: authority.node,
                            authority_revision: authority.revision,
                            counterpart: Counterpart::Saved,
                        },
                    ),
                ),
            }
        },
    }
}

pub fn change_to_child(
    local: Node,
    main: &Node,
    existing: &Lookup,
    topology: &Topology,
) -> (step: Result<
    RoleStep,
    NodeManagerError,
>)
    ensures
        outcome(step) == child_change(local@, main@, found(*existing), listed(*topology)),
{
    let current = current_main(topology)?;
    if current.value.identity.node_id != local.identity.node_id {
        return Err(
            NodeManagerError::InvalidLocalRoleTransition {
                reason: "the local node does not own current main authority",
            },
        );
    }
    let (authority, authority_revision) = authority_record(main, existing, topology)?;
    Ok(
        RoleStep::Change(
            RoleChange {
                local,
                target: NodeRole::Child,
                authority,
                authority_revision,
                counterpart: Counterpart::Saved,
            },
        ),
    )
}

/// What becoming a child needs.
pub open spec fn child_step(
    local: NodeView,
    main: NodeView,
    existing: Result<Option<StoredView<NodeView>>, NodeManagerError>,
    topology: Result<Seq<StoredView<NodeView>>, NodeManagerError>,
) -> Result<RoleStepView, NodeManagerError> {
    if local.role != NodeRole::Main || !main.is_active_main() || main.identity.node_id
        == local.identity.node_id {
        role_refused("becoming a child requires a distinct active destination main")
    } else {
        child_change(local, main, existing, topology)
    }
}

/// Moves the local active main beneath one exact active destination main.
pub fn become_child(
    local: Node,
    main: &Node,
    existing: &Lookup,
    topology: &Topology,
) -> (step: Result<
    RoleStep,
    NodeManagerError,
>)
    ensures
        outcome(step) == child_step(local@, main@, found(*existing), listed(*topology)),
{
    if local.role != NodeRole::Main || !main.is_active_main() || main.identity.node_id
        == local.identity.node_id {
        return Err(
            NodeManagerError::InvalidLocalRoleTransition {
                reason: "becoming a child requires a distinct active destination main",
            },
        );
    }
    change_to_child(local, main, existing, topology)
}

/// What becoming the main needs.
pub open spec fn main_step(
    local: NodeView,
    topology: Result<Seq<StoredView<NodeView>>, NodeManagerError>,
) -> Result<RoleStepView, NodeManagerError> {
    if local.role != NodeRole::Child {
        role_refused("becoming main requires an active local child")
    } else {
        match main_of(topology) {
            Err(error) => Err(error),
            Ok(authority) => if authority.value.identity.node_id == local.identity.node_id {
                role_refused("becoming main requires a distinct current authority")
            } else {
                Ok(
                    RoleStepView::Change(
                        RoleChangeView {
                            local,
                            target: NodeRole::Main,
                            authority: authority.value,
                            authority_revision: DatabaseRevision::Exact(authority.revision),
                            counterpart: Counterpart::Retired,
                        },
                    ),
                )
            },
        }
    }
}

/// Promotes the local active child and retires its previous main atomically.
pub fn become_main(local: Node, topology: &Topology) -> (step: Result<RoleStep, NodeManagerError>)
    ensures
        outcome(step) == main_step(local@, listed(*topology)),
{
    if local.role != NodeRole::Child {
        return Err(
            NodeManagerError::InvalidLocalRoleTransition {
                reason: "becoming main requires an active local child",
            },
        );
    }
    let authority = current_main(topology)?;
    if authority.value.identity.node_id == local.identity.node_id {
        return Err(
            NodeManagerError::InvalidLocalRoleTransition {
                reason: "becoming main requires a distinct current authority",
            },
        );
    }
    Ok(
        RoleStep::Change(
            RoleChange {
                local,
                target: NodeRole::Main,
                authority: authority.value,
                authority_revision: DatabaseRevision::Exact(authority.revision),
                counterpart: Counterpart::Retired,
            },
        ),
    )
}

/// What one local role change needs.
pub open spec fn local_role_step(
    local: StoredView<NodeView>,
    transition: LocalNodeRoleTransitionView,
    existing: Result<Option<StoredView<NodeView>>, NodeManagerError>,
    topology: Result<Seq<StoredView<NodeView>>, NodeManagerError>,
) -> Result<RoleStepView, NodeManagerError> {
    match role_observed(local, topology, transition) {
        Err(error) => Err(error),
        Ok(Some(observed)) => Ok(RoleStepView::Observed(observed)),
        Ok(None) => if local.value.state != NodeState::Active {
            role_refused("local role changes require an active node")
        } else {
            match transition {
                LocalNodeRoleTransitionView::BecomeChild { main } => child_step(
                    local.value,
                    main,
                    existing,
                    topology,
                ),
                LocalNodeRoleTransitionView::BecomeMain => main_step(local.value, topology),
            }
        },
    }
}

impl NodeManager {
    /// Decides the change of local main or child authority before external readiness is proved.
    pub fn transition_local_role(
        local: Stored<Node>,
        transition: &LocalNodeRoleTransition,
        existing: &Lookup,
        topology: &Topology,
    ) -> (step: Result<RoleStep, NodeManagerError>)
        ensures
            outcome(step) == local_role_step(
                local@,
                transition@,
                found(*existing),
                listed(*topology),
            ),
    {
        match observed_local_role_transition(&local, topology, transition)? {
            Some(observed) => {
                return Ok(RoleStep::Observed(observed));
            },
            None => {},
        }
        if local.value.state != NodeState::Active {
            return Err(
                NodeManagerError::InvalidLocalRoleTransition {
                    reason: "local role changes require an active node",
                },
            );
        }
        match transition {
            LocalNodeRoleTransition::BecomeChild { main } => become_child(
                local.value,
                main,
                existing,
                topology,
            ),
            LocalNodeRoleTransition::BecomeMain => become_main(local.value, topology),
        }
    }
}

/// One node with another role, another state and a later update.
pub open spec fn with_role(
    node: NodeView,
    role: NodeRole,
    state: NodeState,
    updated_at: UnixMilliseconds,
) -> Result<NodeView, NodeManagerError> {
    if updated_at.value < node.timestamps.updated_at.value {
        role_refused("role transition time precedes committed node state")
    } else {
        match entity_timestamps(node.timestamps.created_at, updated_at) {
            Err(error) => Err(NodeManagerError::Interface(error)),
            Ok(timestamps) => Ok(NodeView { role, state, timestamps, ..node }),
        }
    }
}

/// Returns one node snapshot with only role, state, and update time changed.
pub fn node_with_role(
    node: &Node,
    role: NodeRole,
    state: NodeState,
    updated_at: UnixMilliseconds,
) -> (changed: Result<Node, NodeManagerError>)
    ensures
        outcome(changed) == with_role(node@, role, state, updated_at),
{
    if updated_at.value < node.timestamps.updated_at.value {
        return Err(
            NodeManagerError::InvalidLocalRoleTransition {
                reason: "role transition time precedes committed node state",
            },
        );
    }
    let timestamps = match EntityTimestamps::new(node.timestamps.created_at, updated_at) {
        Ok(timestamps) => timestamps,
        Err(error) => {
            return Err(NodeManagerError::Interface(error));
        },
    };
    let mut changed = node.copy();
    changed.role = role;
    changed.state = state;
    changed.timestamps = timestamps;
    Ok(changed)
}

/// The write of one role change's counterpart.
pub open spec fn counterpart_write(
    change: RoleChangeView,
    changed_at: UnixMilliseconds,
) -> Result<NodeWriteView, NodeManagerError> {
    match change.counterpart {
        Counterpart::Saved => Ok(
            NodeWriteView::SaveNode { node: change.authority, expected: change.authority_revision },
        ),
        Counterpart::Retired => match with_role(
            change.authority,
            NodeRole::Main,
            NodeState::Removed,
            changed_at,
        ) {
            Err(error) => Err(error),
            Ok(node) => Ok(NodeWriteView::SaveNode { node, expected: change.authority_revision }),
        },
        Counterpart::Deleted => Ok(
            NodeWriteView::DeleteNode {
                node_id: change.authority.identity.node_id,
                expected: change.authority_revision,
            },
        ),
    }
}

/// The commit of one proved role change: the local node, its counterpart and the event.
pub open spec fn role_commit(
    change: RoleChangeView,
    proof_result: Result<(), NodeManagerError>,
    idempotency_key: Seq<char>,
    expected_local_revision: u64,
    changed_at: UnixMilliseconds,
) -> Result<NodeCommitView<NodeView>, NodeManagerError> {
    match proof_result {
        Err(error) => Err(error),
        Ok(_) => match with_role(change.local, change.target, NodeState::Active, changed_at) {
            Err(error) => Err(error),
            Ok(node) => match counterpart_write(change, changed_at) {
                Err(error) => Err(error),
                Ok(counterpart) => {
                    let event = NodeManagerEvent::LocalRoleChanged {
                        node_id: change.local.identity.node_id,
                        role: change.target,
                    };
                    Ok(
                        NodeCommitView {
                            value: node,
                            event,
                            writes: seq![
                                NodeWriteView::SaveNode {
                                    node,
                                    expected: DatabaseRevision::Exact(expected_local_revision),
                                },
                                counterpart,
                                outbox_write(idempotency_key, event, changed_at),
                            ],
                        },
                    )
                },
            },
        },
    }
}

/// Prepares one role change for its atomic commit after readiness was proved.
pub fn commit_role_change(
    change: RoleChange,
    proof_result: Result<(), NodeManagerError>,
    idempotency_key: &str,
    expected_local_revision: u64,
    changed_at: UnixMilliseconds,
) -> (commit: Result<NodeCommit<Node>, NodeManagerError>)
    ensures
        outcome(commit) == role_commit(
            change@,
            proof_result,
            idempotency_key@,
            expected_local_revision,
            changed_at,
        ),
{
    proof_result?;
    let ghost model = change@;
    let node = node_with_role(&change.local, change.target, NodeState::Active, changed_at)?;
    let event = NodeManagerEvent::LocalRoleChanged {
        node_id: change.local.identity.node_id,
        role: change.target,
    };
    let counterpart = match change.counterpart {
        Counterpart::Saved => NodeWrite::SaveNode {
            node: change.authority,
            expected: change.authority_revision,
        },
        Counterpart::Retired => NodeWrite::SaveNode {
            node: node_with_role(
                &change.authority,
                NodeRole::Main,
                NodeState::Removed,
                changed_at,
            )?,
            expected: change.authority_revision,
        },
        Counterpart::Deleted => NodeWrite::DeleteNode {
            node_id: change.authority.identity.node_id,
            expected: change.authority_revision,
        },
    };
    let outbox = pending_outbox_event(idempotency_key, &event, changed_at)?;
    let ghost counterpart_model = counterpart@;
    let mut writes: Vec<NodeWrite> = Vec::new();
    writes.push(
        NodeWrite::SaveNode {
            node: node.copy(),
            expected: DatabaseRevision::Exact(expected_local_revision),
        },
    );
    writes.push(counterpart);
    writes.push(NodeWrite::SaveOutbox { outbox, expected: DatabaseRevision::Missing });
    proof {
        assert(counterpart_write(model, changed_at) == Ok::<NodeWriteView, NodeManagerError>(
            counterpart_model,
        ));
        let expected = role_commit(
            model,
            proof_result,
            idempotency_key@,
            expected_local_revision,
            changed_at,
        );
        assert(views(writes@) =~= expected->Ok_0.writes);
    }
    Ok(NodeCommit { value: node, event, writes })
}

/// A topology with exactly one active main still has exactly one after a committed change of the
/// local node to main: the former main is retired in the same commit.
pub proof fn law_promotion_retires_former_main(
    local: StoredView<NodeView>,
    topology: Result<Seq<StoredView<NodeView>>, NodeManagerError>,
    existing: Result<Option<StoredView<NodeView>>, NodeManagerError>,
    idempotency_key: Seq<char>,
    expected_local_revision: u64,
    changed_at: UnixMilliseconds,
)
    ensures
        local_role_step(
            local,
            LocalNodeRoleTransitionView::BecomeMain,
            existing,
            topology,
        ) matches Ok(RoleStepView::Change(change)) ==> (role_commit(
            change,
            Ok(()),
            idempotency_key,
            expected_local_revision,
            changed_at,
        ) matches Ok(commit) ==> {
            &&& commit.value.is_active_main()
            &&& commit.writes[1] matches NodeWriteView::SaveNode { node, .. } && {
                &&& node.identity == main_of(topology)->Ok_0.value.identity
                &&& node.state == NodeState::Removed
            }
        }),
{
}

/// A committed change of the local node to child keeps a destination main that is active and
/// distinct from the local node.
pub proof fn law_demotion_keeps_active_main(
    local: StoredView<NodeView>,
    main: NodeView,
    topology: Result<Seq<StoredView<NodeView>>, NodeManagerError>,
    existing: Result<Option<StoredView<NodeView>>, NodeManagerError>,
    idempotency_key: Seq<char>,
    expected_local_revision: u64,
    changed_at: UnixMilliseconds,
)
    ensures
        local_role_step(
            local,
            LocalNodeRoleTransitionView::BecomeChild { main },
            existing,
            topology,
        ) matches Ok(RoleStepView::Change(change)) ==> (role_commit(
            change,
            Ok(()),
            idempotency_key,
            expected_local_revision,
            changed_at,
        ) matches Ok(commit) ==> {
            &&& commit.value.role == NodeRole::Child
            &&& commit.value.state == NodeState::Active
            &&& commit.writes[1] matches NodeWriteView::SaveNode { node, .. } && {
                &&& node.is_active_main()
                &&& node.identity == main.identity
                &&& node.identity.node_id != local.value.identity.node_id
            }
        }),
{
}

// ---------------------------------------------------------------------------
// Role commits
// ---------------------------------------------------------------------------

/// The local revision of one local, authority and outbox transaction.
pub open spec fn role_revision(
    commits: Seq<DatabaseCommitView>,
    local_node_id: NodeId,
    authority_node_id: NodeId,
) -> Result<u64, NodeManagerError> {
    if commits.len() == 3 && authority_commits(
        commits,
        local_node_id.text(),
        authority_node_id.text(),
    ) {
        Ok(commits[0].revision)
    } else {
        Err(
            NodeManagerError::CorruptState {
                reason: "local role transaction commit is inconsistent",
            },
        )
    }
}

/// The last three commits are the local node, its authority and the event, in order.
pub open spec fn authority_commits(
    commits: Seq<DatabaseCommitView>,
    local: Seq<char>,
    authority: Seq<char>,
) -> bool {
    let from = commits.len() - 3;
    &&& commits[from].collection == DatabaseCollection::Nodes
    &&& commits[from].identifier == local
    &&& commits[from + 1].collection == DatabaseCollection::Nodes
    &&& commits[from + 1].identifier == authority
    &&& commits[from + 2].collection == DatabaseCollection::Outbox
}

pub fn are_authority_commits(
    commits: &Vec<DatabaseCommit>,
    local: &NodeId,
    authority: &NodeId,
) -> (are: bool)
    requires
        commits@.len() >= 3,
    ensures
        are == authority_commits(views(commits@), local.text(), authority.text()),
{
    let from: usize = commits.len() - 3;
    commits[from].collection == DatabaseCollection::Nodes && text_is(
        commits[from].identifier.as_str(),
        local.to_text().as_str(),
    ) && commits[from + 1].collection == DatabaseCollection::Nodes && text_is(
        commits[from + 1].identifier.as_str(),
        authority.to_text().as_str(),
    ) && commits[from + 2].collection == DatabaseCollection::Outbox
}

/// Returns the local revision from one exact local/authority/outbox transaction.
pub fn local_role_transaction_revision(
    commits: &Vec<DatabaseCommit>,
    local_node_id: &NodeId,
    authority_node_id: &NodeId,
) -> (revision: Result<u64, NodeManagerError>)
    ensures
        revision == role_revision(views(commits@), *local_node_id, *authority_node_id),
{
    if commits.len() != 3 || !are_authority_commits(commits, local_node_id, authority_node_id) {
        return Err(
            NodeManagerError::CorruptState {
                reason: "local role transaction commit is inconsistent",
            },
        );
    }
    Ok(commits[0].revision)
}

/// Returns one committed role change from the answer to its transaction.
pub fn local_role_committed(
    commit: NodeCommit<Node>,
    authority_node_id: &NodeId,
    result: Result<DatabaseTransactionResult, DatabaseError>,
) -> (change: Result<NodeManagerChange<Node>, NodeManagerError>)
    ensures
        outcome(change) == match outcome(result) {
            Err(error) => Err(NodeManagerError::Database(error)),
            Ok(result) => committed_change(
                commit@,
                result.disposition,
                role_revision(
                    result.commits,
                    commit@.value.identity.node_id,
                    *authority_node_id,
                ),
            ),
        },
{
    match result {
        Err(error) => Err(NodeManagerError::Database(error)),
        Ok(result) => {
            let revision = local_role_transaction_revision(
                &result.commits,
                &commit.value.identity.node_id,
                authority_node_id,
            )?;
            Ok(
                NodeManagerChange::committed(
                    commit.value,
                    revision,
                    event_if_applied(result.disposition, commit.event),
                ),
            )
        },
    }
}

} // verus!
