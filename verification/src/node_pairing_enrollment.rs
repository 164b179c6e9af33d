//! Pairing inside a caller's transaction: child enrollment, child activation and main restoration.

use vstd::prelude::*;

use crate::database::{
    DatabaseCollection, DatabaseCommit, DatabaseCommitView, DatabaseError, DatabaseRevision,
    DatabaseTransactionResult, NodeManagerError, Stored, StoredView,
};
use crate::entity::{Node, NodeRole, NodeState, NodeView};
use crate::identity::NodeId;
use crate::node_manager::{
    committed_change, main_required, node_commit, observed_change, require_active_main, save_node,
    NodeCommit, NodeCommitView, NodeManager, NodeManagerChange,
};
use crate::node_outbox::{event_if_applied, NodeManagerEvent};
use crate::node_role::{
    authority_commits, candidate_unique, observed_local_role_transition,
    require_unique_node_identity, role_observed, role_refused, same_authority, same_node_authority,
    Counterpart, LocalNodeRoleTransition, LocalNodeRoleTransitionView, Lookup, RoleChange,
    RoleChangeView, RoleStep, RoleStepView, Topology,
};
use crate::sequence::{found, listed, outcome, views, Valued};
use crate::text::text_is;

verus! {

// ---------------------------------------------------------------------------
// Enrollment
// ---------------------------------------------------------------------------

/// One failure of an enrollment.
pub open spec fn enrollment_refused<T>(reason: &'static str) -> Result<T, NodeManagerError> {
    Err(NodeManagerError::InvalidNodeEnrollment { reason })
}

/// What enrolling one child does: a known equal child is saved again, a new one must be unique.
pub open spec fn child_enrollment(
    local: NodeView,
    local_node_id: NodeId,
    idempotency_key: Seq<char>,
    transaction_key: Seq<char>,
    child: NodeView,
    existing: Result<Option<StoredView<NodeView>>, NodeManagerError>,
    topology: Result<Seq<StoredView<NodeView>>, NodeManagerError>,
) -> Result<NodeCommitView<NodeView>, NodeManagerError> {
    main_required(
        local,
        if transaction_key != idempotency_key {
            enrollment_refused("enrollment transaction identity differs from its replay identity")
        } else if child.role != NodeRole::Child || child.state != NodeState::Pending
            || child.identity.node_id == local_node_id {
            enrollment_refused("enrollment requires one distinct pending child")
        } else {
            match enrollment_known(child, existing, topology) {
                Err(error) => Err(error),
                Ok(_) => Ok(
                    node_commit(
                        idempotency_key,
                        child,
                        DatabaseRevision::Missing,
                        NodeManagerEvent::NodeEnrolled { node_id: child.identity.node_id },
                    ),
                ),
            }
        },
    )
}

/// A child that is already enrolled equally, or that clashes with no node.
pub open spec fn enrollment_known(
    child: NodeView,
    existing: Result<Option<StoredView<NodeView>>, NodeManagerError>,
    topology: Result<Seq<StoredView<NodeView>>, NodeManagerError>,
) -> Result<(), NodeManagerError> {
    match existing {
        Err(error) => Err(error),
        Ok(Some(existing)) => if existing.value == child {
            Ok(())
        } else {
            Err(
                NodeManagerError::NodeIdentityConflict {
                    reason: "node identity is already enrolled with different state",
                },
            )
        },
        Ok(None) => candidate_unique(child, topology),
    }
}

impl NodeManager {
    /// Prepares one validated child enrollment and its event for a caller-owned transaction.
    pub fn enroll_child_with_transaction(
        local: &Node,
        local_node_id: &NodeId,
        idempotency_key: &str,
        transaction_key: &str,
        child: Node,
        existing: &Lookup,
        topology: &Topology,
    ) -> (commit: Result<NodeCommit<Node>, NodeManagerError>)
        ensures
            outcome(commit) == child_enrollment(
                local@,
                *local_node_id,
                idempotency_key@,
                transaction_key@,
                child@,
                found(*existing),
                listed(*topology),
            ),
    {
        require_active_main(local)?;
        if !text_is(transaction_key, idempotency_key) {
            return Err(
                NodeManagerError::InvalidNodeEnrollment {
                    reason: "enrollment transaction identity differs from its replay identity",
                },
            );
        }
        if child.role != NodeRole::Child || child.state != NodeState::Pending || child.identity.node_id
            == *local_node_id {
            return Err(
                NodeManagerError::InvalidNodeEnrollment {
                    reason: "enrollment requires one distinct pending child",
                },
            );
        }
        match existing {
            Err(error) => {
                return Err(*error);
            },
            Ok(Some(existing)) => {
                if !existing.value.same(&child) {
                    return Err(
                        NodeManagerError::NodeIdentityConflict {
                            reason: "node identity is already enrolled with different state",
                        },
                    );
                }
            },
            Ok(None) => {
                require_unique_node_identity(&child, topology)?;
            },
        }
        let node_id = child.identity.node_id;
        save_node(
            idempotency_key,
            child,
            DatabaseRevision::Missing,
            NodeManagerEvent::NodeEnrolled { node_id },
        )
    }
}

impl NodeManager {
    /// Enrolls one distinct pending child under the active local main authority.
    pub fn enroll_child(
        local: &Node,
        local_node_id: &NodeId,
        idempotency_key: &str,
        child: Node,
        existing: &Lookup,
        topology: &Topology,
    ) -> (commit: Result<NodeCommit<Node>, NodeManagerError>)
        ensures
            outcome(commit) == child_enrollment(
                local@,
                *local_node_id,
                idempotency_key@,
                idempotency_key@,
                child@,
                found(*existing),
                listed(*topology),
            ),
    {
        NodeManager::enroll_child_with_transaction(
            local,
            local_node_id,
            idempotency_key,
            idempotency_key,
            child,
            existing,
            topology,
        )
    }
}

/// The first commit of one node from one position on.
pub open spec fn node_commit_from(
    commits: Seq<DatabaseCommitView>,
    identifier: Seq<char>,
    at: int,
) -> Option<DatabaseCommitView>
    decreases commits.len() - at,
{
    if at < 0 || at >= commits.len() {
        None
    } else if commits[at].collection == DatabaseCollection::Nodes && commits[at].identifier
        == identifier {
        Some(commits[at])
    } else {
        node_commit_from(commits, identifier, at + 1)
    }
}

/// The number of events among the first commits.
pub open spec fn outbox_count(commits: Seq<DatabaseCommitView>) -> nat
    decreases commits.len(),
{
    if commits.len() == 0 {
        0
    } else {
        let earlier = outbox_count(commits.drop_last());
        if commits.last().collection == DatabaseCollection::Outbox {
            earlier + 1
        } else {
            earlier
        }
    }
}

/// The child revision of one enrollment transaction with exactly one event.
pub open spec fn enrollment_revision(
    commits: Seq<DatabaseCommitView>,
    node_id: NodeId,
) -> Result<u64, NodeManagerError> {
    match node_commit_from(commits, node_id.text(), 0) {
        None => Err(
            NodeManagerError::CorruptState {
                reason: "pairing enrollment transaction omitted the child node commit",
            },
        ),
        Some(commit) => if outbox_count(commits) != 1 {
            Err(
                NodeManagerError::CorruptState {
                    reason: "pairing enrollment transaction has an invalid outbox commit",
                },
            )
        } else {
            Ok(commit.revision)
        },
    }
}

#[verifier::loop_isolation(false)]
fn find_node_revision(commits: &Vec<DatabaseCommit>, node_id: &NodeId) -> (revision: Option<u64>)
    ensures
        revision == match node_commit_from(views(commits@), node_id.text(), 0) {
            Some(commit) => Some(commit.revision),
            None => None,
        },
{
    let ghost all = views(commits@);
    let identifier = node_id.to_text();
    let mut i: usize = 0;
    while i < commits.len()
        invariant
            i <= commits@.len(),
            node_commit_from(all, node_id.text(), i as int) == node_commit_from(
                all,
                node_id.text(),
                0,
            ),
        decreases commits@.len() - i,
    {
        assert(all[i as int] == commits@[i as int]@);
        if commits[i].collection == DatabaseCollection::Nodes && text_is(
            commits[i].identifier.as_str(),
            identifier.as_str(),
        ) {
            return Some(commits[i].revision);
        }
        i += 1;
    }
    None
}

#[verifier::loop_isolation(false)]
fn count_outbox(commits: &Vec<DatabaseCommit>) -> (count: usize)
    ensures
        count == outbox_count(views(commits@)),
{
    let ghost all = views(commits@);
    let mut count: usize = 0;
    let mut i: usize = 0;
    while i < commits.len()
        invariant
            i <= commits@.len(),
            count <= i,
            count == outbox_count(all.take(i as int)),
        decreases commits@.len() - i,
    {
        proof {
            assert(all[i as int] == commits@[i as int]@);
            assert(all.take(i + 1).drop_last() =~= all.take(i as int));
            assert(all.take(i + 1).last() == all[i as int]);
        }
        if commits[i].collection == DatabaseCollection::Outbox {
            count += 1;
        }
        i += 1;
    }
    proof {
        assert(all.take(all.len() as int) =~= all);
    }
    count
}

/// Returns one committed enrollment from the answer to its transaction.
pub fn enrollment_committed(
    commit: NodeCommit<Node>,
    result: Result<DatabaseTransactionResult, DatabaseError>,
) -> (change: Result<NodeManagerChange<Node>, NodeManagerError>)
    ensures
        outcome(change) == match outcome(result) {
            Err(error) => Err(NodeManagerError::Database(error)),
            Ok(result) => committed_change(
                commit@,
                result.disposition,
                enrollment_revision(result.commits, commit@.value.identity.node_id),
            ),
        },
{
    match result {
        Err(error) => Err(NodeManagerError::Database(error)),
        Ok(result) => {
            let revision = match find_node_revision(
                &result.commits,
                &commit.value.identity.node_id,
            ) {
                Some(revision) => revision,
                None => {
                    return Err(
                        NodeManagerError::CorruptState {
                            reason: "pairing enrollment transaction omitted the child node commit",
                        },
                    );
                },
            };
            if count_outbox(&result.commits) != 1 {
                return Err(
                    NodeManagerError::CorruptState {
                        reason: "pairing enrollment transaction has an invalid outbox commit",
                    },
                );
            }
            Ok(
                NodeManagerChange::committed(
                    commit.value,
                    revision,
                    event_if_applied(result.disposition, commit.event),
                ),
            )
        },
    }
}

// ---------------------------------------------------------------------------
// Activation
// ---------------------------------------------------------------------------

/// What activating one paired child needs.
pub open spec fn activation_step(
    local: StoredView<NodeView>,
    idempotency_key: Seq<char>,
    transaction_key: Seq<char>,
    main: NodeView,
    existing: Result<Option<StoredView<NodeView>>, NodeManagerError>,
    topology: Result<Seq<StoredView<NodeView>>, NodeManagerError>,
) -> Result<RoleStepView, NodeManagerError> {
    if transaction_key != idempotency_key {
        role_refused("pairing transaction identity differs from its replay identity")
    } else {
        match role_observed(local, topology, LocalNodeRoleTransitionView::BecomeChild { main }) {
            Err(error) => Err(error),
            Ok(Some(observed)) => Ok(RoleStepView::Observed(observed)),
            Ok(None) => if !local.value.is_active_main() || !main.is_active_main()
                || main.identity.node_id == local.value.identity.node_id {
                role_refused("paired child activation requires distinct active main authority")
            } else {
                crate::node_role::child_change(local.value, main, existing, topology)
            },
        }
    }
}

impl NodeManager {
    /// Decides the activation of one paired child before external readiness is proved.
    pub fn activate_paired_child_with_transaction(
        local: Stored<Node>,
        idempotency_key: &str,
        transaction_key: &str,
        main: &Node,
        existing: &Lookup,
        topology: &Topology,
    ) -> (step: Result<RoleStep, NodeManagerError>)
        ensures
            outcome(step) == activation_step(
                local@,
                idempotency_key@,
                transaction_key@,
                main@,
                found(*existing),
                listed(*topology),
            ),
    {
        if !text_is(transaction_key, idempotency_key) {
            return Err(
                NodeManagerError::InvalidLocalRoleTransition {
                    reason: "pairing transaction identity differs from its replay identity",
                },
            );
        }
        let transition = LocalNodeRoleTransition::BecomeChild { main: main.copy() };
        match observed_local_role_transition(&local, topology, &transition)? {
            Some(observed) => {
                return Ok(RoleStep::Observed(observed));
            },
            None => {},
        }
        if !local.value.is_active_main() || !main.is_active_main() || main.identity.node_id
            == local.value.identity.node_id {
            return Err(
                NodeManagerError::InvalidLocalRoleTransition {
                    reason: "paired child activation requires distinct active main authority",
                },
            );
        }
        crate::node_role::change_to_child(local.value, main, existing, topology)
    }
}

/// The local revision of one activation: the last three commits, which must be there, are the local
/// node, its authority and the event.
pub open spec fn activation_revision(
    commits: Seq<DatabaseCommitView>,
    local_node_id: Seq<char>,
    authority_node_id: Seq<char>,
) -> Result<u64, NodeManagerError> {
    if commits.len() < 3 {
        Err(
            NodeManagerError::CorruptState {
                reason: "paired child transaction omitted authority commits",
            },
        )
    } else if authority_commits(commits, local_node_id, authority_node_id) {
        Ok(commits[commits.len() - 3].revision)
    } else {
        Err(
            NodeManagerError::CorruptState {
                reason: "paired child transaction authority commits are inconsistent",
            },
        )
    }
}

/// Returns the local revision from one caller-prefixed pairing activation transaction.
pub fn paired_child_transaction_revision(
    commits: &Vec<DatabaseCommit>,
    local_node_id: &NodeId,
    authority_node_id: &NodeId,
) -> (revision: Result<u64, NodeManagerError>)
    ensures
        revision == activation_revision(
            views(commits@),
            local_node_id.text(),
            authority_node_id.text(),
        ),
{
    if commits.len() < 3 {
        return Err(
            NodeManagerError::CorruptState {
                reason: "paired child transaction omitted authority commits",
            },
        );
    }
    if !crate::node_role::are_authority_commits(commits, local_node_id, authority_node_id) {
        return Err(
            NodeManagerError::CorruptState {
                reason: "paired child transaction authority commits are inconsistent",
            },
        );
    }
    Ok(commits[commits.len() - 3].revision)
}

// ---------------------------------------------------------------------------
// Restoration
// ---------------------------------------------------------------------------

/// What restoring one paired main needs.
pub open spec fn restoration_step(
    local: StoredView<NodeView>,
    idempotency_key: Seq<char>,
    transaction_key: Seq<char>,
    paired_main: NodeView,
    authority: Result<Option<StoredView<NodeView>>, NodeManagerError>,
) -> Result<RoleStepView, NodeManagerError> {
    if transaction_key != idempotency_key {
        role_refused("pairing rollback transaction identity differs from its replay identity")
    } else {
        match authority {
            Err(error) => Err(error),
            Ok(None) => if local.value.is_active_main() {
                Ok(RoleStepView::Observed(observed_change(local.value, local.revision)))
            } else {
                role_refused("pairing rollback is missing its exact main authority")
            },
            Ok(Some(authority)) => if local.value.role != NodeRole::Child || local.value.state
                != NodeState::Active || !same_authority(authority.value, paired_main) {
                role_refused("pairing rollback authority differs from committed child state")
            } else {
                Ok(
                    RoleStepView::Change(
                        RoleChangeView {
                            local: local.value,
                            target: NodeRole::Main,
                            authority: authority.value,
                            authority_revision: DatabaseRevision::Exact(authority.revision),
                            counterpart: Counterpart::Deleted,
                        },
                    ),
                )
            },
        }
    }
}

impl NodeManager {
    /// Decides the restoration of local main authority before external readiness is proved.
    pub fn restore_paired_main_with_transaction(
        local: Stored<Node>,
        idempotency_key: &str,
        transaction_key: &str,
        paired_main: &Node,
        authority: Lookup,
    ) -> (step: Result<RoleStep, NodeManagerError>)
        ensures
            outcome(step) == restoration_step(
                local@,
                idempotency_key@,
                transaction_key@,
                paired_main@,
                found(authority),
            ),
    {
        if !text_is(transaction_key, idempotency_key) {
            return Err(
                NodeManagerError::InvalidLocalRoleTransition {
                    reason: "pairing rollback transaction identity differs from its replay identity",
                },
            );
        }
        match authority? {
            None => {
                if local.value.is_active_main() {
                    return Ok(
                        RoleStep::Observed(NodeManagerChange::observed(local.value, local.revision)),
                    );
                }
                Err(
                    NodeManagerError::InvalidLocalRoleTransition {
                        reason: "pairing rollback is missing its exact main authority",
                    },
                )
            },
            Some(authority) => {
                if local.value.role != NodeRole::Child || local.value.state != NodeState::Active
                    || !same_node_authority(&authority.value, paired_main) {
                    return Err(
                        NodeManagerError::InvalidLocalRoleTransition {
                            reason: "pairing rollback authority differs from committed child state",
                        },
                    );
                }
                Ok(
                    RoleStep::Change(
                        RoleChange {
                            local: local.value,
                            target: NodeRole::Main,
                            authority: authority.value,
                            authority_revision: DatabaseRevision::Exact(authority.revision),
                            counterpart: Counterpart::Deleted,
                        },
                    ),
                )
            },
        }
    }
}

/// The local revision of one restoration: the last three commits, which must be there, are the
/// local node, its former authority and the event.
pub open spec fn restoration_revision(
    commits: Seq<DatabaseCommitView>,
    local_node_id: Seq<char>,
    authority_node_id: Seq<char>,
) -> Result<u64, NodeManagerError> {
    if commits.len() < 3 {
        Err(
            NodeManagerError::CorruptState {
                reason: "pairing rollback transaction omitted authority commits",
            },
        )
    } else if authority_commits(commits, local_node_id, authority_node_id) {
        Ok(commits[commits.len() - 3].revision)
    } else {
        Err(
            NodeManagerError::CorruptState {
                reason: "pairing rollback transaction authority commits are inconsistent",
            },
        )
    }
}

/// Returns the local revision from one caller-prefixed pairing rollback transaction.
pub fn paired_main_restoration_revision(
    commits: &Vec<DatabaseCommit>,
    local_node_id: &NodeId,
    authority_node_id: &NodeId,
) -> (revision: Result<u64, NodeManagerError>)
    ensures
        revision == restoration_revision(
            views(commits@),
            local_node_id.text(),
            authority_node_id.text(),
        ),
{
    if commits.len() < 3 {
        return Err(
            NodeManagerError::CorruptState {
                reason: "pairing rollback transaction omitted authority commits",
            },
        );
    }
    if !crate::node_role::are_authority_commits(commits, local_node_id, authority_node_id) {
        return Err(
            NodeManagerError::CorruptState {
                reason: "pairing rollback transaction authority commits are inconsistent",
            },
        );
    }
    Ok(commits[commits.len() - 3].revision)
}

/// Returns one committed activation or restoration from the answer to its transaction.
pub fn paired_role_committed(
    commit: NodeCommit<Node>,
    authority_node_id: &NodeId,
    restores: bool,
    result: Result<DatabaseTransactionResult, DatabaseError>,
) -> (change: Result<NodeManagerChange<Node>, NodeManagerError>)
    ensures
        outcome(change) == match outcome(result) {
            Err(error) => Err(NodeManagerError::Database(error)),
            Ok(result) => {
                let local = commit@.value.identity.node_id.text();
                committed_change(
                    commit@,
                    result.disposition,
                    if restores {
                        restoration_revision(result.commits, local, authority_node_id.text())
                    } else {
                        activation_revision(result.commits, local, authority_node_id.text())
                    },
                )
            },
        },
{
    match result {
        Err(error) => Err(NodeManagerError::Database(error)),
        Ok(result) => {
            let local = commit.value.identity.node_id;
            let revision = if restores {
                paired_main_restoration_revision(&result.commits, &local, authority_node_id)?
            } else {
                paired_child_transaction_revision(&result.commits, &local, authority_node_id)?
            };
            Ok(
                NodeManagerChange::committed(
                    commit.value,
                    revision,
                    event_if_applied(result.disposition, commit.event),
                ),
            )
        },
    }
}

} // verus!
