//! The manager as mathematics: the registry, the subscriptions and the
//! workloads as one value, and what each event makes of it.

use crate::manager::{Action, MAX_WORKERS};
use crate::proto::{
    InstanceSchedulingView, StatusPayloadView, WorkerStatusView, WorkloadRequestKind,
};
use crate::scheduler::{
    Channel, Controller, ControllerView, EventView, SchedulerErrorView, WorkerState, WorkerView,
};
use crate::state_manager::model::{
    ingest, locate, remove_instance, schedule_request, schedule_response, well_formed, WorkloadView,
};
use vstd::prelude::*;

verus! {

/// An action as a value.
pub enum ActionView {
    Schedule(u64, Seq<char>, InstanceSchedulingView),
    Notify(u64, WorkerStatusView),
    Refuse(u64, SchedulerErrorView),
    Failed(SchedulerErrorView),
    Close(u64),
}

/// The views of a run of actions, in order.
pub open spec fn action_views(actions: Seq<Action>) -> Seq<ActionView> {
    actions.map_values(|a: Action| a@)
}

/// The views of the controllers, in order.
pub open spec fn controller_views(controllers: Seq<Controller>) -> Seq<ControllerView> {
    controllers.map_values(|c: Controller| c@)
}

/// The manager as a value: the workers in the order in which they first
/// registered, the subscriptions in the order in which they came, the number
/// of worker ids given out, the workloads, and whether the loop still runs.
pub struct ManagerView {
    pub workers: Seq<WorkerView>,
    pub controllers: Seq<ControllerView>,
    pub worker_increment: u8,
    pub state: Seq<WorkloadView>,
    pub running: bool,
}

/// Where the worker `hostname` stands in the registry, if it is there.
pub open spec fn worker_position(workers: Seq<WorkerView>, hostname: Seq<char>) -> Option<int> {
    if exists|i: int| 0 <= i < workers.len() && workers[i].hostname == hostname {
        Some(choose|i: int| 0 <= i < workers.len() && workers[i].hostname == hostname)
    } else {
        None
    }
}

/// What the registry keeps true: no two workers share a hostname, no hostname
/// is empty, a worker that is ready has an open channel, and the worker that
/// registered as the `n`-th has the id `n`.
pub open spec fn registry_ok(workers: Seq<WorkerView>, worker_increment: u8) -> bool {
    &&& workers.len() == worker_increment
    &&& forall|i: int, j: int|
        0 <= i < j < workers.len() ==> workers[i].hostname != workers[j].hostname
    &&& forall|i: int|
        0 <= i < workers.len() ==> {
            &&& (#[trigger] workers[i]).hostname.len() > 0
            &&& workers[i].consistent()
            &&& workers[i].id == i + 1
        }
}

/// Every instance runs on a worker that the registry knows.
pub open spec fn workers_known(state: Seq<WorkloadView>, workers: Seq<WorkerView>) -> bool {
    forall|i: int, k: int|
        0 <= i < state.len() && 0 <= k < state[i].instances.len() ==> worker_position(
            workers,
            (#[trigger] state[i].instances[k]).worker_id->0,
        ) is Some
}

/// The invariant of the manager.
pub open spec fn manager_ok(m: ManagerView) -> bool {
    &&& well_formed(m.state)
    &&& registry_ok(m.workers, m.worker_increment)
    &&& workers_known(m.state, m.workers)
}

/// The manager after a registration. A hostname that is not there yet gets a
/// new worker with the next id, not ready until its first metrics, unless
/// all ids are given out or the hostname is empty. A hostname that is there
/// with a closed channel gets the new channel swapped in, and is ready if that
/// channel is open. A hostname that is there with an open channel keeps it:
/// the registration is refused.
pub open spec fn register(m: ManagerView, channel: Channel, addr: Seq<char>, hostname: Seq<char>) -> ManagerView {
    match worker_position(m.workers, hostname) {
        Some(i) => if m.workers[i].channel.closed {
            ManagerView {
                workers: m.workers.update(
                    i,
                    (WorkerView { channel, ..m.workers[i] }).settled(),
                ),
                ..m
            }
        } else {
            m
        },
        None => if hostname.len() == 0 || m.worker_increment == MAX_WORKERS {
            m
        } else {
            ManagerView {
                workers: m.workers.push(
                    WorkerView {
                        id: (m.worker_increment + 1) as u8,
                        channel,
                        addr,
                        hostname,
                        state: WorkerState::NotReady,
                        metric: None,
                    },
                ),
                worker_increment: (m.worker_increment + 1) as u8,
                ..m
            }
        },
    }
}

/// What a registration is answered with.
pub open spec fn register_response(m: ManagerView, hostname: Seq<char>) -> Result<
    (),
    SchedulerErrorView,
> {
    match worker_position(m.workers, hostname) {
        Some(i) => if m.workers[i].channel.closed {
            Ok(())
        } else {
            Err(SchedulerErrorView::RegistrationFailed(hostname))
        },
        None => if hostname.len() == 0 {
            Err(SchedulerErrorView::RegistrationFailed(hostname))
        } else if m.worker_increment == MAX_WORKERS {
            Err(SchedulerErrorView::ClusterFull)
        } else {
            Ok(())
        },
    }
}

/// The workers after the worker `hostname` sent metrics that could be read:
/// the metrics are stored, and the worker is ready exactly if its channel is
/// open. Metrics of a worker that is not there change nothing.
pub open spec fn set_metric(workers: Seq<WorkerView>, hostname: Seq<char>, document: Seq<char>) -> Seq<
    WorkerView,
> {
    match worker_position(workers, hostname) {
        Some(i) => workers.update(
            i,
            (WorkerView { metric: Some(document), ..workers[i] }).settled(),
        ),
        None => workers,
    }
}

/// The workers after the channel of number `channel` was found closed: every
/// worker that holds it is not ready, and its channel is known to be closed.
pub open spec fn close_worker_channel(workers: Seq<WorkerView>, channel: u64) -> Seq<WorkerView> {
    Seq::new(
        workers.len(),
        |i: int|
            if workers[i].channel.id == channel {
                WorkerView {
                    channel: Channel { closed: true, ..workers[i].channel },
                    state: WorkerState::NotReady,
                    ..workers[i]
                }
            } else {
                workers[i]
            },
    )
}

/// The subscriptions without those on the channel of number `channel`, the
/// others in their order.
pub open spec fn drop_subscription(controllers: Seq<ControllerView>, channel: u64) -> Seq<
    ControllerView,
>
    decreases controllers.len(),
{
    if controllers.len() == 0 {
        Seq::empty()
    } else if controllers.last().channel.id != channel {
        drop_subscription(controllers.drop_last(), channel).push(controllers.last())
    } else {
        drop_subscription(controllers.drop_last(), channel)
    }
}

/// The manager after the channel of number `channel` was found closed.
pub open spec fn disconnect(m: ManagerView, channel: u64) -> ManagerView {
    ManagerView {
        workers: close_worker_channel(m.workers, channel),
        controllers: drop_subscription(m.controllers, channel),
        ..m
    }
}

/// The manager after the caller tried to carry out `action` and the queue
/// refused: what `send_failure` says, and if the queue was found closed
/// (`closed`) rather than full, what `disconnect` says of its channel.
pub open spec fn send_refusal(m: ManagerView, action: ActionView, closed: bool) -> ManagerView {
    let failed = send_failure(m, action);
    match action {
        ActionView::Schedule(channel, hostname, command) => if closed {
            disconnect(failed, channel)
        } else {
            failed
        },
        ActionView::Notify(channel, status) => if closed {
            disconnect(failed, channel)
        } else {
            failed
        },
        _ => failed,
    }
}

/// Whether `action` may still be carried out. A command that creates an
/// instance may be sent only while its worker takes new instances: a
/// worker that stopped being ready since the command was made gets none of
/// the instances that were meant for it. Everything else may be carried
/// out.
pub open spec fn may_send(m: ManagerView, action: ActionView) -> bool {
    match action {
        ActionView::Schedule(channel, hostname, command) => command.action
            != WorkloadRequestKind::Create || (worker_position(m.workers, hostname) matches Some(i)
            && m.workers[i].state == WorkerState::Ready),
        _ => true,
    }
}

/// The manager after the caller could not carry out `action`. A command that
/// did not reach its worker leaves that worker not ready, and if it was to
/// create an instance, that instance is taken away again. A notification
/// that did not reach its controller ends that subscription.
pub open spec fn send_failure(m: ManagerView, action: ActionView) -> ManagerView {
    match action {
        ActionView::Schedule(channel, hostname, command) => ManagerView {
            workers: demote(m.workers, hostname),
            state: if command.action == WorkloadRequestKind::Create {
                remove_instance(m.state, command.instance_id)
            } else {
                m.state
            },
            ..m
        },
        ActionView::Notify(channel, status) => ManagerView {
            controllers: drop_subscription(m.controllers, channel),
            ..m
        },
        _ => m,
    }
}

/// The workers after a command could not be delivered to `hostname`: that
/// worker is not ready.
pub open spec fn demote(workers: Seq<WorkerView>, hostname: Seq<char>) -> Seq<WorkerView> {
    match worker_position(workers, hostname) {
        Some(i) => workers.update(i, WorkerView { state: WorkerState::NotReady, ..workers[i] }),
        None => workers,
    }
}

/// One notification for each subscription, in their order, all with the same
/// status update.
pub open spec fn relay(controllers: Seq<ControllerView>, status: WorkerStatusView) -> Seq<ActionView> {
    Seq::new(controllers.len(), |k: int| ActionView::Notify(controllers[k].channel.id, status))
}

/// The send of a command to the worker `hostname`, on its channel; nothing if
/// the worker is not there.
pub open spec fn deliver(workers: Seq<WorkerView>, hostname: Seq<char>, command: InstanceSchedulingView) -> Seq<
    ActionView,
> {
    match worker_position(workers, hostname) {
        Some(i) => seq![ActionView::Schedule(workers[i].channel.id, hostname, command)],
        None => Seq::empty(),
    }
}

/// What the manager does about one event of the state manager: a command is
/// delivered to its worker, a report is relayed to every subscription.
pub open spec fn dispatch_one(m: ManagerView, event: EventView) -> Seq<ActionView> {
    match event {
        EventView::Schedule(hostname, command) => deliver(m.workers, hostname, command),
        EventView::InstanceMetric(identifier, metric) => relay(
            m.controllers,
            WorkerStatusView { identifier, payload: StatusPayloadView::Instance(metric) },
        ),
        _ => Seq::empty(),
    }
}

/// What the manager does about the first `n` of a run of events, in order.
pub open spec fn dispatch(m: ManagerView, events: Seq<EventView>, n: int) -> Seq<ActionView>
    decreases n,
{
    if n <= 0 {
        Seq::empty()
    } else {
        dispatch(m, events, n - 1) + dispatch_one(m, events[n - 1])
    }
}

/// A close for the channel of every worker, then one for every subscription.
pub open spec fn close_all(m: ManagerView) -> Seq<ActionView> {
    Seq::new(m.workers.len(), |k: int| ActionView::Close(m.workers[k].channel.id)) + Seq::new(
        m.controllers.len(),
        |k: int| ActionView::Close(m.controllers[k].channel.id),
    )
}

/// The manager after it took an event in, before reconciliation.
pub open spec fn apply(m: ManagerView, event: EventView) -> ManagerView {
    match event {
        EventView::Register(channel, addr, hostname) => register(m, channel, addr, hostname),
        EventView::ScheduleRequest(request) => ManagerView {
            state: schedule_request(m.state, request),
            ..m
        },
        EventView::Subscribe(channel, addr) => ManagerView {
            controllers: m.controllers.push(ControllerView { channel, addr }),
            ..m
        },
        EventView::WorkerMetric(hostname, metric, document) => match document {
            Some(d) => ManagerView { workers: set_metric(m.workers, hostname, d), ..m },
            None => m,
        },
        EventView::InstanceMetric(hostname, metric) => ManagerView {
            state: ingest(m.state, metric.instance_id, metric.status),
            ..m
        },
        EventView::Schedule(hostname, command) => m,
        EventView::Shutdown => ManagerView { running: false, ..m },
    }
}

/// What the caller is to do about an event, before reconciliation. A refused
/// registration is answered on the channel it came with. A request that
/// fails is reported. A report on an instance that is there is relayed, as it
/// came, to every subscription. A command is sent to its worker. A shutdown
/// closes every channel.
pub open spec fn apply_actions(m: ManagerView, event: EventView) -> Seq<ActionView> {
    match event {
        EventView::Register(channel, addr, hostname) => match register_response(m, hostname) {
            Ok(_) => Seq::empty(),
            Err(e) => seq![ActionView::Refuse(channel.id, e)],
        },
        EventView::ScheduleRequest(request) => match schedule_response(m.state, request) {
            Ok(_) => Seq::empty(),
            Err(e) => seq![ActionView::Failed(e)],
        },
        EventView::InstanceMetric(hostname, metric) => if locate(m.state, metric.instance_id) is Some {
            relay(
                m.controllers,
                WorkerStatusView {
                    identifier: hostname,
                    payload: StatusPayloadView::Instance(metric),
                },
            )
        } else {
            Seq::empty()
        },
        EventView::Schedule(hostname, command) => deliver(m.workers, hostname, command),
        EventView::Shutdown => close_all(m),
        _ => Seq::empty(),
    }
}

} // verus!
