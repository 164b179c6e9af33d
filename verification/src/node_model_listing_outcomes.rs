//! What listings and logs show of model services.

use vstd::prelude::*;

use crate::entity::{
    ModelServiceView, OperationTarget, OperationView, PlacementRecordView, RuntimeInstallationView,
};
use crate::identity::{sorted_ids, ModelServiceId, PlacementGroupId, RuntimeInstallationId};
use crate::node_model_contract::{NodeModelServiceProjectionView, VersionedNodeModelJournalView};
use crate::node_model_coordinator::{
    assigned_installations, logs_projected, of_service, service_groups_read,
    service_installations_read, service_projected, services_listed, services_projected,
};
use crate::node_model_groups::{from_placement, from_runtime, redacted, required};
use crate::node_model_laws::{join, only};
use crate::node_model_plan_outcomes::{lemma_selected_picks, picks, reads_record};
use crate::node_model_traces::any_call;
use crate::node_model_world::NodeModelWorld;
use crate::sequence::{distinct, selected};

verus! {

/// A projection shows its service with every group of it, in order and as some call read it, each
/// bound to the service.
pub open spec fn shows_service(
    world: NodeModelWorld,
    from: nat,
    service: ModelServiceView,
    projection: NodeModelServiceProjectionView,
) -> bool {
    let groups = service.placement_group_ids;
    &&& projection.service == service
    &&& projection.placement_groups.len() == groups.len()
    &&& forall|k: int|
        0 <= k < groups.len() ==> is_read(
            world,
            from,
            groups[k],
            #[trigger] projection.placement_groups[k],
        ) && projection.placement_groups[k].group.service_id == service.service_id
    &&& forall|i: int|
        0 <= i < projection.installations.len() ==> (
        #[trigger] projection.installations[i]).logical_model == service.logical_model
}

/// From one position on a group is read, with the record.
pub open spec fn is_read(
    world: NodeModelWorld,
    from: nat,
    group: PlacementGroupId,
    record: PlacementRecordView,
) -> bool {
    exists|at: int|
        from <= at < world.calls.len() && #[trigger] reads_record(world, at, group, record)
}

proof fn carry_read(
    earlier: NodeModelWorld,
    later: NodeModelWorld,
    late: nat,
    early: nat,
    group: PlacementGroupId,
    record: PlacementRecordView,
)
    requires
        is_read(earlier, late, group, record),
        only(earlier, later, any_call()),
        early <= late,
    ensures
        is_read(later, early, group, record),
{
    let at = choose|at: int|
        late <= at < earlier.calls.len() && #[trigger] reads_record(earlier, at, group, record);
    assert(later.calls[at] == earlier.calls[at]);
    assert(reads_record(later, at, group, record));
}

proof fn carry_shown(
    earlier: NodeModelWorld,
    later: NodeModelWorld,
    late: nat,
    early: nat,
    service: ModelServiceView,
    projection: NodeModelServiceProjectionView,
)
    requires
        shows_service(earlier, late, service, projection),
        only(earlier, later, any_call()),
        early <= late,
    ensures
        shows_service(later, early, service, projection),
{
    let groups = service.placement_group_ids;
    assert forall|k: int| 0 <= k < groups.len() implies is_read(
        later,
        early,
        groups[k],
        #[trigger] projection.placement_groups[k],
    ) && projection.placement_groups[k].group.service_id == service.service_id by {
        carry_read(earlier, later, late, early, groups[k], projection.placement_groups[k]);
    }
}

proof fn service_groups_are_read(
    world: NodeModelWorld,
    from: nat,
    service: ModelServiceView,
    at: int,
    records: Seq<PlacementRecordView>,
    installations: Seq<RuntimeInstallationId>,
)
    requires
        0 <= at <= service.placement_group_ids.len(),
        records.len() == at,
        from <= world.calls.len(),
        forall|k: int|
            0 <= k < at ==> is_read(
                world,
                from,
                service.placement_group_ids[k],
                #[trigger] records[k],
            ) && records[k].group.service_id == service.service_id,
    ensures
        ({
            let (after, read) = service_groups_read(world, service, at, records, installations);
            &&& only(world, after, any_call())
            &&& read matches Ok(read) ==> read.0.len() == service.placement_group_ids.len()
                && forall|k: int|
                0 <= k < read.0.len() ==> is_read(
                    after,
                    from,
                    service.placement_group_ids[k],
                    #[trigger] read.0[k],
                ) && read.0[k].group.service_id == service.service_id
        }),
    decreases service.placement_group_ids.len() - at,
{
    let groups = service.placement_group_ids;
    if at < groups.len() {
        let a = required(from_placement(world.group_record(groups[at])));
        if let Ok(record) = a.1 {
            if record.group.service_id == service.service_id {
                let more = records.push(record);
                let bound = installations + assigned_installations(record);
                let first = world.calls.len() as int;
                assert(reads_record(a.0, first, groups[at], record));
                assert forall|k: int| 0 <= k < at + 1 implies is_read(
                    a.0,
                    from,
                    groups[k],
                    #[trigger] more[k],
                ) && more[k].group.service_id == service.service_id by {
                    if k < at {
                        assert(more[k] == records[k]);
                        carry_read(world, a.0, from, from, groups[k], records[k]);
                    }
                }
                service_groups_are_read(a.0, from, service, at + 1, more, bound);
                join(
                    world,
                    a.0,
                    service_groups_read(a.0, service, at + 1, more, bound).0,
                    any_call(),
                );
            }
        }
    }
}

proof fn service_installations_are_read(
    world: NodeModelWorld,
    logical_model: Seq<char>,
    ids: Seq<RuntimeInstallationId>,
    at: int,
    installations: Seq<RuntimeInstallationView>,
)
    requires
        forall|i: int|
            0 <= i < installations.len() ==> (#[trigger] installations[i]).logical_model
                == logical_model,
    ensures
        ({
            let (after, read) = service_installations_read(
                world,
                logical_model,
                ids,
                at,
                installations,
            );
            &&& only(world, after, any_call())
            &&& read matches Ok(read) ==> forall|i: int|
                0 <= i < read.len() ==> (#[trigger] read[i]).logical_model == logical_model
        }),
    decreases ids.len() - at,
{
    if 0 <= at < ids.len() {
        let a = required(from_runtime(world.installation(ids[at])));
        if let Ok(installation) = a.1 {
            if installation.logical_model == logical_model {
                let more = installations.push(installation);
                service_installations_are_read(a.0, logical_model, ids, at + 1, more);
                join(
                    world,
                    a.0,
                    service_installations_read(a.0, logical_model, ids, at + 1, more).0,
                    any_call(),
                );
            }
        }
    }
}

proof fn service_is_shown(world: NodeModelWorld, service: ModelServiceView)
    ensures
        ({
            let (after, shown) = service_projected(world, service);
            &&& only(world, after, any_call())
            &&& shown matches Ok(shown) ==> shows_service(
                after,
                world.calls.len(),
                service,
                shown,
            )
        }),
{
    let from = world.calls.len();
    let (after, shown) = service_projected(world, service);
    service_groups_are_read(world, from, service, 0, Seq::empty(), Seq::empty());
    let a = service_groups_read(world, service, 0, Seq::empty(), Seq::empty());
    if let Ok(read) = a.1 {
        let ids = sorted_ids(distinct(read.1));
        service_installations_are_read(a.0, service.logical_model, ids, 0, Seq::empty());
        join(world, a.0, after, any_call());
        if let Ok(shown) = shown {
            let groups = service.placement_group_ids;
            assert forall|k: int| 0 <= k < groups.len() implies is_read(
                after,
                from,
                groups[k],
                #[trigger] shown.placement_groups[k],
            ) && shown.placement_groups[k].group.service_id == service.service_id by {
                carry_read(a.0, after, from, from, groups[k], read.0[k]);
            }
        }
    }
}

proof fn services_are_shown(
    world: NodeModelWorld,
    from: nat,
    services: Seq<ModelServiceView>,
    at: int,
    projections: Seq<NodeModelServiceProjectionView>,
)
    requires
        0 <= at <= services.len(),
        projections.len() == at,
        from <= world.calls.len(),
        forall|k: int|
            0 <= k < at ==> shows_service(world, from, services[k], #[trigger] projections[k]),
    ensures
        ({
            let (after, shown) = services_projected(world, services, at, projections);
            &&& only(world, after, any_call())
            &&& shown matches Ok(shown) ==> shown.len() == services.len() && forall|k: int|
                0 <= k < shown.len() ==> shows_service(
                    after,
                    from,
                    services[k],
                    #[trigger] shown[k],
                )
        }),
    decreases services.len() - at,
{
    if at < services.len() {
        service_is_shown(world, services[at]);
        let a = service_projected(world, services[at]);
        if let Ok(projection) = a.1 {
            let more = projections.push(projection);
            assert forall|k: int| 0 <= k < at + 1 implies shows_service(
                a.0,
                from,
                services[k],
                #[trigger] more[k],
            ) by {
                if k < at {
                    assert(more[k] == projections[k]);
                    carry_shown(world, a.0, from, from, services[k], projections[k]);
                } else {
                    assert(only(a.0, a.0, any_call()));
                    carry_shown(a.0, a.0, world.calls.len(), from, services[k], projection);
                }
            }
            services_are_shown(a.0, from, services, at + 1, more);
            join(world, a.0, services_projected(a.0, services, at + 1, more).0, any_call());
        }
    }
}

/// A listing shows every service that is stored, in order, each with all its groups.
pub proof fn law_listing_shows_every_service(world: NodeModelWorld)
    ensures
        services_listed(world).1 matches Ok(shown) ==> {
            let after = services_listed(world).0;
            &&& after.calls[world.calls.len() as int] is Services
            &&& (world.script.services)(world.calls.len()) matches Ok(services)
            &&& shown.len() == services.len()
            &&& forall|k: int|
                0 <= k < shown.len() ==> shows_service(
                    after,
                    world.calls.len(),
                    services[k],
                    #[trigger] shown[k],
                )
        },
{
    let (after, shown) = services_listed(world);
    if let Ok(shown) = shown {
        let a = redacted(world.services());
        let services = a.1->Ok_0;
        let first = world.calls.len();
        services_are_shown(a.0, first, services, 0, Seq::empty());
        assert(after.calls[first as int] == a.0.calls[first as int]);
    }
}

/// Logs hold exactly the operations on the service and the journals of the service, in order.
pub proof fn law_logs_hold_what_concerns_the_service(
    world: NodeModelWorld,
    service_id: ModelServiceId,
)
    ensures
        logs_projected(world, service_id).1 matches Ok(logs) ==> {
            let from = world.calls.len();
            &&& (world.script.operations)(from) matches Ok(operations)
            &&& (world.script.all_journals)(from + 1) matches Ok(journals)
            &&& exists|positions: Seq<int>| #[trigger]
                picks(operations, logs.operations, positions, on_service(service_id))
            &&& exists|positions: Seq<int>| #[trigger]
                picks(journals, logs.journals, positions, written_for(service_id))
        },
{
    if let Ok(logs) = logs_projected(world, service_id).1 {
        let operations = redacted(world.operations()).1->Ok_0;
        let journals = redacted(world.operations()).0.all_journals().1->Ok_0;
        let keep = |operation: OperationView| of_service(operation, service_id);
        let first = lemma_selected_picks(operations, keep);
        assert forall|operation: OperationView| #[trigger]
            keep(operation) == on_service(service_id)(operation) by {}
        assert(picks(operations, logs.operations, first, on_service(service_id)));
        let keep = |journal: VersionedNodeModelJournalView|
            journal.journal.service_id == service_id;
        let second = lemma_selected_picks(journals, keep);
        assert forall|journal: VersionedNodeModelJournalView| #[trigger]
            keep(journal) == written_for(service_id)(journal) by {}
        assert(logs.journals =~= selected(journals, keep));
        assert(picks(journals, logs.journals, second, written_for(service_id)));
    }
}

/// The operations whose target is the service.
pub open spec fn on_service(service_id: ModelServiceId) -> spec_fn(OperationView) -> bool {
    |operation: OperationView| operation.target == OperationTarget::ModelService(service_id)
}

/// The journals that name the service.
pub open spec fn written_for(service_id: ModelServiceId) -> spec_fn(
    VersionedNodeModelJournalView,
) -> bool {
    |journal: VersionedNodeModelJournalView| journal.journal.service_id == service_id
}

} // verus!
