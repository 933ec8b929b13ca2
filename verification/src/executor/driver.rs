//! The idle side of an executor: what to wait for, and what an event wakes.

use vstd::prelude::*;

use crate::executor::counters::SchedulerCounters;
use crate::executor::io_interest::{
    contains_fd, interest_ids, interest_wakers, on_any, on_none, reported_fds_are_those_waited_on,
    unique_fds, IoInterest,
};
use crate::executor::scheduler::Scheduler;
use crate::executor::timer::is_next_deadline;
use crate::os::event::OsEvent;
use crate::time::{elapsed, Duration, Instant};

verus! {

/// Descriptors that a wait found ready.
pub struct ReadinessEvent {
    /// Readable descriptors.
    pub readable: Vec<i32>,
    /// Writable descriptors.
    pub writable: Vec<i32>,
}

/// What an idle executor waited for and got.
pub struct DriverEvent {
    /// Readiness, where the driver reports it.
    pub readiness: Option<ReadinessEvent>,
    /// Whether completions came.
    pub completion: bool,
}

/// What an idle executor waits for.
pub struct WaitRequest {
    /// Descriptors whose readability ends the wait.
    pub read_fds: Vec<i32>,
    /// Descriptors whose writability ends the wait.
    pub write_fds: Vec<i32>,
    /// When the wait ends anyway.
    pub timeout: Option<Duration>,
}

/// The read descriptors of a wait: those that readers wait on, and that of the
/// completion ring, once.
pub open spec fn wait_read_fds(fds: Seq<i32>, completion_fd: Option<i32>) -> Seq<i32> {
    match completion_fd {
        Some(fd) => if fds.contains(fd) {
            fds
        } else {
            fds.push(fd)
        },
        None => fds,
    }
}

/// What an idle executor has to wait for. `completion_fd` is the descriptor of
/// the completion ring, where completions are outstanding.
pub fn prepare_wait<W>(scheduler: &Scheduler<W>, completion_fd: Option<i32>, now: Instant) -> (request:
    WaitRequest)
    ensures
        request.read_fds@ == wait_read_fds(
            unique_fds(scheduler.io_interests.reads.interests@),
            completion_fd,
        ),
        forall|fd: i32| #[trigger]
            request.read_fds@.contains(fd) <==> (exists|i: int|
                0 <= i < scheduler.io_interests.reads.interests@.len() && (
                #[trigger] scheduler.io_interests.reads.interests@[i]).fd == fd) || completion_fd
                == Some(fd),
        request.write_fds@ == unique_fds(scheduler.io_interests.writes.interests@),
        forall|fd: i32| #[trigger]
            request.write_fds@.contains(fd) <==> exists|i: int|
                0 <= i < scheduler.io_interests.writes.interests@.len() && (
                #[trigger] scheduler.io_interests.writes.interests@[i]).fd == fd,
        request.timeout is None <==> scheduler.timers.timers@.len() == 0,
        forall|next: Instant|
            #![trigger is_next_deadline(scheduler.timers.timers@, Some(next))]
            is_next_deadline(scheduler.timers.timers@, Some(next)) ==> request.timeout == Some(
                elapsed(next, now),
            ),
{
    let mut read_fds = scheduler.read_interest_fds();
    let write_fds = scheduler.write_interest_fds();
    match completion_fd {
        Some(fd) => {
            if !contains_fd(read_fds.as_slice(), fd) {
                read_fds.push(fd);
            }
        },
        None => {},
    }
    let timeout = scheduler.time_until_next_timer(now);
    proof {
        let readers = scheduler.io_interests.reads.interests@;
        let writers = scheduler.io_interests.writes.interests@;
        assert forall|fd: i32| #[trigger] read_fds@.contains(fd) <==> (exists|i: int|
            0 <= i < readers.len() && (#[trigger] readers[i]).fd == fd) || completion_fd == Some(
            fd,
        ) by {
            wait_watches_readers_and_the_ring(readers, completion_fd, fd);
        }
        assert forall|fd: i32| #[trigger] write_fds@.contains(fd) <==> exists|i: int|
            0 <= i < writers.len() && (#[trigger] writers[i]).fd == fd by {
            reported_fds_are_those_waited_on(writers, fd);
        }
    }
    WaitRequest { read_fds, write_fds, timeout }
}

impl DriverEvent {
    /// The driver event of a readiness event.
    pub fn from_os_event(event: OsEvent) -> (driver_event: DriverEvent)
        ensures
            !driver_event.completion,
            driver_event.readiness is Some,
            driver_event.readiness->0.readable == event.readable,
            driver_event.readiness->0.writable == event.writable,
    {
        DriverEvent {
            readiness: Some(
                ReadinessEvent { readable: event.readable, writable: event.writable },
            ),
            completion: false,
        }
    }

    /// Takes the completion ring's descriptor out of the readable ones, the
    /// first time it is there, and notes that completions came instead.
    pub fn take_completion(&mut self, fd: i32)
        ensures
            final(self).readiness is Some <==> old(self).readiness is Some,
            old(self).readiness matches Some(before) ==> {
                let after = final(self).readiness->0;
                &&& after.writable == before.writable
                &&& before.readable@.contains(fd) ==> final(self).completion && forall|i: int|
                    #![trigger before.readable@[i]]
                    0 <= i < before.readable@.len() && before.readable@[i] == fd && (forall|
                        j: int,
                    |
                        0 <= j < i ==> before.readable@[j] != fd) ==> after.readable@
                        == before.readable@.remove(i)
                &&& !before.readable@.contains(fd)
                    ==> final(self).completion == old(self).completion
                    && after.readable == before.readable
            },
            old(self).readiness is None ==> final(self).completion == old(self).completion,
    {
        match self.readiness.take() {
            None => {},
            Some(readiness) => {
                let mut readable = readiness.readable;
                let ghost before = readable@;
                let mut i: usize = 0;
                while i < readable.len() && readable[i] != fd
                    invariant
                        i <= readable.len(),
                        readable@ == before,
                        readable == readiness.readable,
                        forall|j: int| 0 <= j < i ==> before[j] != fd,
                    decreases readable.len() - i,
                {
                    i = i + 1;
                }
                if i < readable.len() {
                    assert(before[i as int] == fd);
                    let _ = readable.remove(i);
                    self.completion = true;
                }
                self.readiness = Some(ReadinessEvent { readable, writable: readiness.writable });
            },
        }
    }
}

/// Whether an event can be counted.
pub open spec fn counters_have_room(counters: SchedulerCounters, event: DriverEvent) -> bool {
    match event.readiness {
        Some(readiness) => counters.has_event_room(
            true,
            readiness.readable@.len() > 0,
            readiness.writable@.len() > 0,
            event.completion,
        ),
        None => counters.has_event_room(false, false, false, event.completion),
    }
}

/// The counters after an event: which kinds of progress it brought.
pub open spec fn counters_after(counters: SchedulerCounters, event: DriverEvent) -> SchedulerCounters {
    match event.readiness {
        Some(readiness) => counters.after_driver_event(
            true,
            readiness.readable@.len() > 0,
            readiness.writable@.len() > 0,
            event.completion,
        ),
        None => counters.after_driver_event(false, false, false, event.completion),
    }
}

/// Counts an event and takes out the waiters that it wakes. Returns their
/// wakers: those of readers first, then those of writers. Without an event
/// nothing changes.
pub fn apply_event<W>(scheduler: &mut Scheduler<W>, event: Option<DriverEvent>) -> (woken: Vec<W>)
    requires
        old(scheduler).wf(),
        event matches Some(e) ==> counters_have_room(old(scheduler).counters, e),
    ensures
        final(scheduler).wf(),
        final(scheduler).tasks == old(scheduler).tasks,
        final(scheduler).timers == old(scheduler).timers,
        final(scheduler).id == old(scheduler).id,
        final(scheduler).io_uring == old(scheduler).io_uring,
        event is None ==> *final(scheduler) == *old(scheduler) && woken@ == Seq::<W>::empty(),
        event matches Some(e) ==> final(scheduler).counters == counters_after(
            old(scheduler).counters,
            e,
        ),
        event matches Some(e) ==> (e.readiness is None ==> woken@ == Seq::<W>::empty()
            && final(scheduler).io_interests == old(scheduler).io_interests),
        event matches Some(e) ==> (e.readiness matches Some(ready) ==> {
            let reads = old(scheduler).io_interests.reads;
            let writes = old(scheduler).io_interests.writes;
            let after = final(scheduler).io_interests;
            let read_woken = reads.interests@.filter(on_any(ready.readable@));
            let write_woken = writes.interests@.filter(on_any(ready.writable@));
            &&& woken@ == interest_wakers(read_woken) + interest_wakers(write_woken)
            &&& after.reads.interests@ == reads.interests@.filter(on_none(ready.readable@))
            &&& after.reads.ready@ == reads.ready@ + interest_ids(read_woken)
            &&& after.writes.interests@ == writes.interests@.filter(on_none(ready.writable@))
            &&& after.writes.ready@ == writes.ready@ + interest_ids(write_woken)
            &&& after.reads.next_id == reads.next_id
            &&& after.writes.next_id == writes.next_id
        }),
{
    match event {
        None => Vec::new(),
        Some(event) => {
            match event.readiness {
                None => {
                    scheduler.record_driver_event(false, false, false, event.completion);
                    Vec::new()
                },
                Some(readiness) => {
                    scheduler.record_driver_event(
                        true,
                        readiness.readable.len() > 0,
                        readiness.writable.len() > 0,
                        event.completion,
                    );
                    let mut woken = scheduler.wake_readable_fds(readiness.readable.as_slice());
                    let mut writers = scheduler.wake_writable_fds(readiness.writable.as_slice());
                    woken.append(&mut writers);
                    woken
                },
            }
        },
    }
}

/// An idle executor waits for the readability of every descriptor that a reader
/// waits on and of the completion ring where it has one, of no other, and of each
/// once.
pub proof fn wait_watches_readers_and_the_ring<W>(
    interests: Seq<IoInterest<W>>,
    completion_fd: Option<i32>,
    fd: i32,
)
    ensures
        wait_read_fds(unique_fds(interests), completion_fd).contains(fd) <==> ((exists|i: int|
            0 <= i < interests.len() && (#[trigger] interests[i]).fd == fd) || completion_fd
            == Some(fd)),
        wait_read_fds(unique_fds(interests), completion_fd).no_duplicates(),
{
    let fds = unique_fds(interests);
    reported_fds_are_those_waited_on(interests, fd);
    let watched = wait_read_fds(fds, completion_fd);
    if completion_fd is Some && !fds.contains(completion_fd->0) {
        assert(watched == fds.push(completion_fd->0));
        if fds.contains(fd) {
            let i = choose|i: int| 0 <= i < fds.len() && fds[i] == fd;
            assert(watched[i] == fd);
        }
        if completion_fd == Some(fd) {
            assert(watched[fds.len() as int] == fd);
        }
        if watched.contains(fd) && completion_fd != Some(fd) {
            let i = choose|i: int| 0 <= i < watched.len() && watched[i] == fd;
            assert(fds[i] == fd);
        }
    }
}

/// The descriptors are watched in the order in which their first readers came, and
/// the ring's last: the request does not depend on the ring but at its end.
pub proof fn ring_is_watched_behind_the_readers<W>(
    interests: Seq<IoInterest<W>>,
    ring: i32,
)
    ensures
        wait_read_fds(unique_fds(interests), None) == unique_fds(interests),
        unique_fds(interests).is_prefix_of(wait_read_fds(unique_fds(interests), Some(ring))),
{
}

/// An event is counted once as an event, once for each kind of progress that it
/// brought, and not for any that it did not bring. Tasks and polls are not counted
/// by it.
pub proof fn event_is_counted_by_what_it_brought(counters: SchedulerCounters, event: DriverEvent)
    requires
        counters_have_room(counters, event),
    ensures
        ({
            let after = counters_after(counters, event);
            let readable = event.readiness is Some && event.readiness->0.readable@.len() > 0;
            let writable = event.readiness is Some && event.readiness->0.writable@.len() > 0;
            &&& after.total_driver_events == counters.total_driver_events + 1
            &&& event.readiness is Some ==> after.total_readiness_events
                == counters.total_readiness_events + 1
            &&& event.readiness is None ==> after.total_readiness_events
                == counters.total_readiness_events
            &&& readable ==> after.total_readable_events == counters.total_readable_events + 1
            &&& !readable ==> after.total_readable_events == counters.total_readable_events
            &&& writable ==> after.total_writable_events == counters.total_writable_events + 1
            &&& !writable ==> after.total_writable_events == counters.total_writable_events
            &&& event.completion ==> after.total_completion_events
                == counters.total_completion_events + 1
            &&& !event.completion ==> after.total_completion_events
                == counters.total_completion_events
            &&& after.total_spawned_tasks == counters.total_spawned_tasks
            &&& after.total_completed_tasks == counters.total_completed_tasks
            &&& after.total_task_polls == counters.total_task_polls
            &&& after.ready_poll_budget_exhaustions == counters.ready_poll_budget_exhaustions
            &&& after.total_completion_dispatch_batches
                == counters.total_completion_dispatch_batches
            &&& after.total_dispatched_completions == counters.total_dispatched_completions
            &&& after.completion_dispatch_budget_exhaustions
                == counters.completion_dispatch_budget_exhaustions
        }),
{
}

/// An event that can be counted is one whose counters are not at their ends; the
/// counters of what it did not bring do not matter.
pub proof fn only_the_counters_concerned_need_room(
    counters: SchedulerCounters,
    event: DriverEvent,
)
    requires
        counters.total_driver_events < u64::MAX,
        counters.total_readiness_events < u64::MAX || event.readiness is None,
        counters.total_readable_events < u64::MAX || event.readiness is None
            || event.readiness->0.readable@.len() == 0,
        counters.total_writable_events < u64::MAX || event.readiness is None
            || event.readiness->0.writable@.len() == 0,
        counters.total_completion_events < u64::MAX || !event.completion,
    ensures
        counters_have_room(counters, event),
{
}

} // verus!
