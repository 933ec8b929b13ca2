//! Whole executor runs, on one thread with a clock that the run moves forward.

use std::collections::HashMap;
use std::future::Future;
use std::pin::Pin;
use std::sync::{Arc, Mutex};
use std::task::{Context, Poll, Wake, Waker};

use sitas::executor::driver::{apply_event, prepare_wait, DriverEvent};
use sitas::executor::future::{RaceOutput, SleepPoll, TimeoutError, TimeoutPoll};
use sitas::executor::join::JoinError;
use sitas::executor::root::RootWaker;
use sitas::executor::run::{ReadyBatch, RunAction, RunLoop, RunMode};
use sitas::executor::scheduler::Scheduler;
use sitas::executor::scheduling_group::ExecutorId;
use sitas::executor::scope::{scope_child_joined, ChildOutcome, JoinStep, TaskScope, TaskScopeError};
use sitas::executor::snapshot::{ExecutorSnapshot, READY_POLL_BUDGET};
use sitas::executor::spawn_error::SpawnError;
use sitas::executor::spawner;
use sitas::executor::sync::{self, StopSource, StopToken};
use sitas::executor::task::{PollOutcome, Task};
use sitas::executor::types::{TaskId, TaskWait};
use sitas::os::event::OsEvent;

// A small executor around the library.

enum Body {
    Run(Pin<Box<dyn Future<Output = ()> + Send>>),
    Panics(&'static str),
}

type Handler = Box<dyn FnOnce(&'static str) + Send>;

type Join<T> = sitas::executor::join::JoinHandle<T, &'static str, Waker>;

struct Inner {
    scheduler: Scheduler<Waker>,
    now: u64,
    current: Option<Arc<Cell>>,
    tasks: HashMap<usize, Arc<Cell>>,
    ready_fds: Vec<i32>,
}

struct Cell {
    inner: Arc<Mutex<Inner>>,
    task: Mutex<Task<Body, Handler>>,
}

impl Wake for Cell {
    fn wake(self: Arc<Self>) {
        let mut task = self.task.lock().unwrap();
        let mut inner = self.inner.lock().unwrap();
        let now = inner.now;
        let _ = inner.scheduler.schedule_existing(&mut *task, now);
    }
}

struct Root {
    ready: Mutex<RootWaker>,
}

impl Wake for Root {
    fn wake(self: Arc<Self>) {
        self.ready.lock().unwrap().mark_ready();
    }
}

#[derive(Clone)]
struct Ex {
    inner: Arc<Mutex<Inner>>,
}

fn ms(n: u64) -> u64 {
    n * 1_000_000
}

impl Ex {
    fn new() -> Ex {
        let scheduler = Scheduler::new(ExecutorId(0));
        Ex {
            inner: Arc::new(Mutex::new(Inner {
                scheduler,
                now: 0,
                current: None,
                tasks: HashMap::new(),
                ready_fds: Vec::new(),
            })),
        }
    }

    fn now(&self) -> u64 {
        self.inner.lock().unwrap().now
    }

    fn add(&self, body: Body, handler: Option<Handler>) -> Result<Arc<Cell>, SpawnError> {
        let mut inner = self.inner.lock().unwrap();
        let now = inner.now;
        let group = sitas::executor::types::SchedulingGroupId(0);
        let task = spawner::spawn_with_panic_handler(
            &mut inner.scheduler,
            None,
            group,
            body,
            handler,
            now,
        )?;
        let id = task.id;
        let cell = Arc::new(Cell { inner: Arc::clone(&self.inner), task: Mutex::new(task) });
        inner.tasks.insert(id.0, Arc::clone(&cell));
        Ok(cell)
    }

    fn spawn<F>(&self, future: F) -> Result<Arc<Cell>, SpawnError>
    where
        F: Future<Output = ()> + Send + 'static,
    {
        self.add(Body::Run(Box::pin(future)), None)
    }

    fn spawn_with_handle<F>(&self, future: F) -> Result<Handle<F::Output>, SpawnError>
    where
        F: Future + Send + 'static,
        F::Output: Send + 'static,
    {
        let join = Arc::new(Mutex::new(Join::<F::Output>::new()));
        let completes = Arc::clone(&join);
        let body = async move {
            let output = future.await;
            let woken = completes.lock().unwrap().complete(Ok(output));
            if let Some(waker) = woken {
                waker.wake();
            }
        };
        let cell = self.add(Body::Run(Box::pin(body)), None)?;
        Ok(Handle { cell, join })
    }

    fn spawn_panicking<T: Send + 'static>(
        &self,
        message: &'static str,
    ) -> Result<Handle<T>, SpawnError> {
        let join = Arc::new(Mutex::new(Join::<T>::new()));
        let fails = Arc::clone(&join);
        let handler: Handler = Box::new(move |payload| {
            let woken = fails.lock().unwrap().complete(Err(JoinError::Panic(payload)));
            if let Some(waker) = woken {
                waker.wake();
            }
        });
        let cell = self.add(Body::Panics(message), Some(handler))?;
        Ok(Handle { cell, join })
    }

    fn drop_spawner(&self) {
        self.inner.lock().unwrap().scheduler.remove_spawner();
    }

    fn add_spawner(&self) {
        self.inner.lock().unwrap().scheduler.add_spawner();
    }

    fn snapshot(&self) -> ExecutorSnapshot {
        let inner = self.inner.lock().unwrap();
        let live = inner
            .tasks
            .values()
            .map(|cell| cell.task.try_lock().ok().map(|task| task.snapshot()))
            .collect::<Vec<_>>();
        inner.scheduler.snapshot(live)
    }

    fn finished(&self, id: TaskId) {
        let mut inner = self.inner.lock().unwrap();
        inner.scheduler.finish_task();
        inner.scheduler.forget_task(id);
        inner.tasks.remove(&id.0);
    }

    fn poll_task(&self, id: TaskId) -> Option<(sitas::executor::types::SchedulingGroupId, u64)> {
        let cell = Arc::clone(self.inner.lock().unwrap().tasks.get(&id.0)?);
        let started = self.now();
        let body = cell.task.lock().unwrap().begin_poll(started)?;
        let waker = Waker::from(Arc::clone(&cell));
        self.inner.lock().unwrap().current = Some(Arc::clone(&cell));
        let mut payload = "";
        let outcome = match body {
            Body::Run(mut future) => match future.as_mut().poll(&mut Context::from_waker(&waker)) {
                Poll::Ready(()) => PollOutcome::Ready,
                Poll::Pending => PollOutcome::Pending(Body::Run(future)),
            },
            Body::Panics(message) => {
                payload = message;
                PollOutcome::Panicked
            }
        };
        let finished = {
            let mut inner = self.inner.lock().unwrap();
            inner.current = None;
            inner.now += 1_000;
            inner.now
        };
        let report = cell.task.lock().unwrap().finish_poll(outcome, started, finished);
        if report.finished {
            self.finished(id);
        }
        if let Some(handler) = report.panic_handler {
            handler(payload);
        }
        Some((report.scheduling_group_id, report.poll_duration))
    }

    fn poll_ready_tasks(&self) {
        let mut batch = ReadyBatch::new();
        loop {
            let next = batch.next(&mut self.inner.lock().unwrap().scheduler);
            let Some(id) = next else { break };
            if let Some((group, duration)) = self.poll_task(id) {
                batch.record_poll(&mut self.inner.lock().unwrap().scheduler, group, duration);
            }
        }
        batch.finish(&mut self.inner.lock().unwrap().scheduler);
    }

    fn wake_expired(&self) {
        let woken = {
            let mut inner = self.inner.lock().unwrap();
            let now = inner.now;
            inner.scheduler.wake_expired_timers(now)
        };
        for waker in woken {
            waker.wake();
        }
    }

    fn wait(&self) {
        let woken = {
            let mut inner = self.inner.lock().unwrap();
            let request = prepare_wait(&inner.scheduler, None, inner.now);
            let readable = request
                .read_fds
                .iter()
                .copied()
                .filter(|fd| inner.ready_fds.contains(fd))
                .collect::<Vec<_>>();
            if readable.is_empty() {
                let timeout = request.timeout.expect("nothing would ever wake the executor");
                inner.now += timeout;
            }
            let event = OsEvent { woke: false, readable, writable: Vec::new() };
            apply_event(&mut inner.scheduler, Some(DriverEvent::from_os_event(event)))
        };
        for waker in woken {
            waker.wake();
        }
        self.wake_expired();
    }

    fn run(&self) {
        let mut root = RootWaker::new();
        let mut run = RunLoop::new(RunMode::UntilDrained);
        loop {
            let action = run.next_action(&mut root, &self.inner.lock().unwrap().scheduler);
            match action {
                RunAction::PollRoot => unreachable!(),
                RunAction::DriveReadyWork => {
                    self.poll_ready_tasks();
                    self.wake_expired();
                }
                RunAction::WaitForEvent => self.wait(),
                RunAction::Stop => return,
            }
        }
    }

    fn run_until<F: Future>(&self, future: F) -> F::Output {
        let root = Arc::new(Root { ready: Mutex::new(RootWaker::new()) });
        let waker = Waker::from(Arc::clone(&root));
        let mut future = Box::pin(future);
        let mut run = RunLoop::new(RunMode::UntilRoot);
        loop {
            let action = {
                let mut ready = root.ready.lock().unwrap();
                run.next_action(&mut ready, &self.inner.lock().unwrap().scheduler)
            };
            match action {
                RunAction::PollRoot => {
                    if let Poll::Ready(output) =
                        future.as_mut().poll(&mut Context::from_waker(&waker))
                    {
                        return output;
                    }
                }
                RunAction::DriveReadyWork => {
                    self.poll_ready_tasks();
                    self.wake_expired();
                }
                RunAction::WaitForEvent => self.wait(),
                RunAction::Stop => unreachable!(),
            }
        }
    }

    fn close(&self) {
        let cells = {
            let mut inner = self.inner.lock().unwrap();
            let ids = inner.scheduler.close();
            ids.iter().filter_map(|id| inner.tasks.remove(&id.0)).collect::<Vec<_>>()
        };
        for cell in cells {
            cell.task.lock().unwrap().drop_future();
        }
    }

    fn note_wait(&self, inner: &Inner, wait: TaskWait) {
        if let Some(cell) = &inner.current {
            cell.task.lock().unwrap().set_waiting_for(wait);
        }
    }

    fn sleep(&self, duration: u64) -> Sleep {
        let ex = self.clone();
        let sleep = sitas::executor::future::sleep(self.now(), duration);
        Sleep { ex, sleep }
    }

    fn timeout<F: Future>(&self, duration: u64, future: F) -> Timeout<F> {
        let ex = self.clone();
        let timeout = sitas::executor::future::timeout(self.now(), duration, Box::pin(future));
        Timeout { ex, timeout }
    }

    fn readable(&self, fd: i32) -> Readable {
        Readable { ex: self.clone(), readable: sitas::executor::unix_io::readable(fd) }
    }
}

fn block_on<F: Future>(ex: &Ex, future: F) -> F::Output {
    ex.drop_spawner();
    ex.run_until(future)
}

struct Handle<T> {
    cell: Arc<Cell>,
    join: Arc<Mutex<Join<T>>>,
}

impl<T> Handle<T> {
    fn abort(&self) -> bool {
        let report = {
            let mut task = self.cell.task.lock().unwrap();
            self.join.lock().unwrap().abort(&mut *task)
        };
        if report.cancel.finished {
            let id = self.cell.task.lock().unwrap().id;
            let ex = Ex { inner: Arc::clone(&self.cell.inner) };
            ex.finished(id);
        }
        if let Some(waker) = report.woken {
            waker.wake();
        }
        report.cancel.accepted
    }
}

impl<T> Future for Handle<T> {
    type Output = Result<T, JoinError<&'static str>>;

    fn poll(self: Pin<&mut Self>, context: &mut Context<'_>) -> Poll<Self::Output> {
        match self.join.lock().unwrap().poll(context.waker().clone()) {
            Some(result) => Poll::Ready(result),
            None => Poll::Pending,
        }
    }
}

struct Sleep {
    ex: Ex,
    sleep: sitas::executor::future::Sleep,
}

impl Future for Sleep {
    type Output = ();

    fn poll(mut self: Pin<&mut Self>, context: &mut Context<'_>) -> Poll<()> {
        let ex = self.ex.clone();
        let mut inner = ex.inner.lock().unwrap();
        let now = inner.now;
        match self.sleep.poll(&mut inner.scheduler, now, context.waker().clone()) {
            SleepPoll::Ready => Poll::Ready(()),
            SleepPoll::Pending(registered) => {
                ex.note_wait(&inner, registered.wait);
                Poll::Pending
            }
        }
    }
}

impl Drop for Sleep {
    fn drop(&mut self) {
        self.sleep.release(&mut self.ex.inner.lock().unwrap().scheduler);
    }
}

struct Timeout<F> {
    ex: Ex,
    timeout: sitas::executor::future::Timeout<Pin<Box<F>>>,
}

impl<F: Future> Future for Timeout<F> {
    type Output = Result<F::Output, TimeoutError>;

    fn poll(mut self: Pin<&mut Self>, context: &mut Context<'_>) -> Poll<Self::Output> {
        let output = match self.timeout.future.as_mut().poll(context) {
            Poll::Ready(output) => Some(output),
            Poll::Pending => None,
        };
        let ex = self.ex.clone();
        let mut inner = ex.inner.lock().unwrap();
        let now = inner.now;
        match self.timeout.poll(output, &mut inner.scheduler, now, context.waker().clone()) {
            TimeoutPoll::Ready(result) => Poll::Ready(result),
            TimeoutPoll::Pending(registered) => {
                ex.note_wait(&inner, registered.wait);
                Poll::Pending
            }
        }
    }
}

impl<F> Drop for Timeout<F> {
    fn drop(&mut self) {
        self.timeout.sleep.release(&mut self.ex.inner.lock().unwrap().scheduler);
    }
}

struct Race<A: Future, B: Future> {
    race: sitas::executor::future::Race<Pin<Box<A>>, Pin<Box<B>>>,
}

fn race<A: Future, B: Future>(first: A, second: B) -> Race<A, B> {
    Race { race: sitas::executor::future::race(Box::pin(first), Box::pin(second)) }
}

impl<A: Future, B: Future> Future for Race<A, B> {
    type Output = RaceOutput<A::Output, B::Output>;

    fn poll(mut self: Pin<&mut Self>, context: &mut Context<'_>) -> Poll<Self::Output> {
        let output = match self.race.first.as_mut().unwrap().as_mut().poll(context) {
            Poll::Ready(output) => Some(output),
            Poll::Pending => None,
        };
        if let Some(won) = self.race.first_polled(output) {
            return Poll::Ready(won);
        }
        let output = match self.race.second.as_mut().unwrap().as_mut().poll(context) {
            Poll::Ready(output) => Some(output),
            Poll::Pending => None,
        };
        match self.race.second_polled(output) {
            Some(won) => Poll::Ready(won),
            None => Poll::Pending,
        }
    }
}

struct YieldNow(sitas::executor::future::YieldNow);

fn yield_now() -> YieldNow {
    YieldNow(sitas::executor::future::yield_now())
}

impl Future for YieldNow {
    type Output = ();

    fn poll(mut self: Pin<&mut Self>, context: &mut Context<'_>) -> Poll<()> {
        let poll = self.0.poll(context.waker());
        if let Some(waker) = poll.woken {
            waker.wake_by_ref();
        }
        if poll.ready {
            Poll::Ready(())
        } else {
            Poll::Pending
        }
    }
}

struct Readable {
    ex: Ex,
    readable: sitas::executor::unix_io::Readable,
}

impl Future for Readable {
    type Output = ();

    fn poll(mut self: Pin<&mut Self>, context: &mut Context<'_>) -> Poll<()> {
        let ex = self.ex.clone();
        let mut inner = ex.inner.lock().unwrap();
        match self.readable.poll(&mut inner.scheduler, context.waker().clone()) {
            None => Poll::Ready(()),
            Some(registered) => {
                ex.note_wait(&inner, registered.wait);
                Poll::Pending
            }
        }
    }
}

impl Drop for Readable {
    fn drop(&mut self) {
        self.readable.release(&mut self.ex.inner.lock().unwrap().scheduler);
    }
}

#[derive(Clone)]
struct Stop(Arc<Mutex<StopSource<Waker>>>, StopToken);

fn stop_pair() -> Stop {
    let (source, token) = sync::stop_pair();
    Stop(Arc::new(Mutex::new(source)), token)
}

impl Stop {
    fn stop(&self) -> bool {
        let woken = self.0.lock().unwrap().stop();
        match woken {
            Some(wakers) => {
                for waker in wakers {
                    waker.wake();
                }
                true
            }
            None => false,
        }
    }
}

impl Future for Stop {
    type Output = ();

    fn poll(self: Pin<&mut Self>, context: &mut Context<'_>) -> Poll<()> {
        let mut source = self.0.lock().unwrap();
        if self.1.poll(&mut source, context.waker().clone(), |a, b| a.will_wake(b)) {
            Poll::Ready(())
        } else {
            Poll::Pending
        }
    }
}

#[derive(Clone)]
struct Notify(Arc<Mutex<sync::Notify<Waker>>>);

impl Notify {
    fn new() -> Notify {
        Notify(Arc::new(Mutex::new(sync::Notify::new())))
    }

    fn is_notified(&self) -> bool {
        self.0.lock().unwrap().is_notified()
    }

    fn notify_waiters(&self) -> bool {
        let woken = self.0.lock().unwrap().notify_waiters();
        match woken {
            Some(wakers) => {
                for waker in wakers {
                    waker.wake();
                }
                true
            }
            None => false,
        }
    }

    fn notified(&self) -> Notified {
        let notified = self.0.lock().unwrap().notified();
        Notified(self.clone(), notified)
    }
}

struct Notified(Notify, sync::Notified);

impl Future for Notified {
    type Output = ();

    fn poll(self: Pin<&mut Self>, context: &mut Context<'_>) -> Poll<()> {
        let mut notify = self.0 .0.lock().unwrap();
        if self.1.poll(&mut notify, context.waker().clone(), |a, b| a.will_wake(b)) {
            Poll::Ready(())
        } else {
            Poll::Pending
        }
    }
}

type SharedScope = Arc<Mutex<TaskScope<Handle<()>, Waker>>>;

struct Scope {
    ex: Ex,
    scope: SharedScope,
}

struct ScopeStop(SharedScope, StopToken);

impl Future for ScopeStop {
    type Output = ();

    fn poll(self: Pin<&mut Self>, context: &mut Context<'_>) -> Poll<()> {
        let mut scope = self.0.lock().unwrap();
        let waker = context.waker().clone();
        if self.1.poll(&mut scope.stop_source, waker, |a, b| a.will_wake(b)) {
            Poll::Ready(())
        } else {
            Poll::Pending
        }
    }
}

impl Scope {
    fn new(ex: &Ex) -> Scope {
        Scope { ex: ex.clone(), scope: Arc::new(Mutex::new(TaskScope::new())) }
    }

    fn spawn<F>(&mut self, future: F) -> Result<(), SpawnError>
    where
        F: Future<Output = ()> + Send + 'static,
    {
        let handle = self.ex.spawn_with_handle(future)?;
        self.scope.lock().unwrap().adopt(handle);
        Ok(())
    }

    fn spawn_with_stop<F, Fut>(&mut self, make: F) -> Result<(), SpawnError>
    where
        F: FnOnce(ScopeStop) -> Fut,
        Fut: Future<Output = ()> + Send + 'static,
    {
        let token = self.scope.lock().unwrap().stop_token();
        let stop = ScopeStop(Arc::clone(&self.scope), token);
        self.spawn(make(stop))
    }

    async fn wait(self) -> Result<(), JoinError<&'static str>> {
        let handles = std::mem::take(&mut self.scope.lock().unwrap().handles);
        let mut results = Vec::new();
        for handle in handles {
            results.push(handle.await);
        }
        sitas::executor::scope::join_in_order(results)
    }

    async fn shutdown_timeout(
        self,
        duration: u64,
    ) -> Result<(), TaskScopeError<&'static str>> {
        let now = self.ex.now();
        let (woken, mut join) = self.scope.lock().unwrap().shutdown_timeout(now, duration);
        for waker in woken {
            waker.wake();
        }
        loop {
            let remaining = match join.next(self.ex.now()) {
                JoinStep::Finished => return Ok(()),
                JoinStep::TimedOut { abort } => {
                    for handle in abort {
                        handle.abort();
                    }
                    return Err(TaskScopeError::TimedOut);
                }
                JoinStep::Await { remaining } => remaining,
            };
            let outcome = {
                let child = join.current.as_mut().unwrap();
                match self.ex.timeout(remaining, child).await {
                    Ok(Ok(())) => ChildOutcome::Finished,
                    Ok(Err(error)) => ChildOutcome::Failed(error),
                    Err(_) => ChildOutcome::TimedOut,
                }
            };
            if let Some(end) = scope_child_joined(&mut join, outcome) {
                for handle in end.abort {
                    handle.abort();
                }
                return end.result;
            }
        }
    }

    fn close(self) -> usize {
        let (woken, children) = self.scope.lock().unwrap().close();
        for waker in woken {
            waker.wake();
        }
        children.iter().filter(|child| child.abort()).count()
    }
}

// Root futures.

#[test]
fn block_on_returns_future_output() {
    assert_eq!(block_on(&Ex::new(), async { 42 }), 42);
}

#[test]
fn block_on_accepts_stack_borrowing_future() {
    let value = 42;
    let borrowed = block_on(&Ex::new(), async { &value });

    assert_eq!(*borrowed, 42);
}

#[test]
fn stop_token_completes_after_source_stops() {
    let (mut source, token) = sync::stop_pair::<Waker>();
    assert!(!source.is_stopped());
    assert!(source.stop().is_some());
    assert!(source.stop().is_none());
    assert!(token.is_stopped(&source));

    block_on(&Ex::new(), Stop(Arc::new(Mutex::new(source)), token));
}

#[test]
fn cloned_stop_tokens_wake_multiple_waiters() {
    let ex = Ex::new();
    let stop = stop_pair();

    let first = ex.spawn_with_handle(stop.clone()).unwrap();
    let second = ex.spawn_with_handle(stop.clone()).unwrap();

    ex.run_until(async {
        yield_now().await;
        assert!(stop.stop());

        first.await.unwrap();
        second.await.unwrap();
    });
}

#[test]
fn notify_waiters_completes_after_notification() {
    let notify = Notify::new();
    assert!(!notify.is_notified());
    assert!(notify.notify_waiters());
    assert!(!notify.notify_waiters());
    assert!(notify.is_notified());

    block_on(&Ex::new(), notify.notified());
}

#[test]
fn cloned_notify_wakes_multiple_waiters() {
    let ex = Ex::new();
    let notify = Notify::new();

    let first = ex.spawn_with_handle(notify.notified()).unwrap();
    let second = ex.spawn_with_handle(notify.notified()).unwrap();
    let notify_for_task = notify.clone();

    ex.run_until(async {
        yield_now().await;
        assert!(notify_for_task.notify_waiters());

        first.await.unwrap();
        second.await.unwrap();
    });
}

#[test]
fn notify_completes_future_created_after_notification() {
    let ex = Ex::new();
    let notify = Notify::new();
    assert!(notify.notify_waiters());

    ex.run_until(async {
        ex.timeout(ms(1), notify.notified()).await.unwrap();
    });
}

// Scopes.

#[test]
fn task_scope_waits_for_children() {
    let ex = Ex::new();
    let mut scope = Scope::new(&ex);
    let values = Arc::new(Mutex::new(Vec::new()));

    for value in [1, 2] {
        let values = Arc::clone(&values);
        scope
            .spawn(async move {
                yield_now().await;
                values.lock().unwrap().push(value);
            })
            .unwrap();
    }

    ex.run_until(async move {
        scope.wait().await.unwrap();
    });

    let mut values = values.lock().unwrap().clone();
    values.sort();
    assert_eq!(values, [1, 2]);
}

#[test]
fn task_scope_shutdown_wakes_stop_token_children() {
    let ex = Ex::new();
    let mut scope = Scope::new(&ex);
    let stopped = Arc::new(Mutex::new(false));
    let stopped_for_task = Arc::clone(&stopped);

    scope
        .spawn_with_stop(move |stop| async move {
            stop.await;
            *stopped_for_task.lock().unwrap() = true;
        })
        .unwrap();

    ex.run_until(async move {
        yield_now().await;
        let woken = scope.scope.lock().unwrap().stop();
        for waker in woken.unwrap() {
            waker.wake();
        }
        scope.wait().await.unwrap();
    });

    assert!(*stopped.lock().unwrap());
}

#[test]
fn task_scope_shutdown_timeout_waits_for_cooperative_children() {
    let ex = Ex::new();
    let mut scope = Scope::new(&ex);
    let stopped = Arc::new(Mutex::new(false));
    let stopped_for_task = Arc::clone(&stopped);

    scope
        .spawn_with_stop(move |stop| async move {
            stop.await;
            *stopped_for_task.lock().unwrap() = true;
        })
        .unwrap();

    let result = ex.run_until(async move { scope.shutdown_timeout(ms(1000)).await });

    assert!(result.is_ok());
    assert!(*stopped.lock().unwrap());
}

#[test]
fn task_scope_shutdown_timeout_aborts_uncooperative_children() {
    let ex = Ex::new();
    let mut scope = Scope::new(&ex);
    let completed = Arc::new(Mutex::new(false));
    let completed_for_task = Arc::clone(&completed);

    let sleeper = ex.clone();
    scope
        .spawn(async move {
            sleeper.sleep(ms(1000)).await;
            *completed_for_task.lock().unwrap() = true;
        })
        .unwrap();

    let result = ex.run_until(async move { scope.shutdown_timeout(ms(5)).await });

    ex.run_until(async {
        yield_now().await;
    });

    assert!(matches!(result, Err(TaskScopeError::TimedOut)));
    assert!(!*completed.lock().unwrap());
}

#[test]
fn dropping_task_scope_aborts_children() {
    let ex = Ex::new();
    let mut scope = Scope::new(&ex);
    let completed = Arc::new(Mutex::new(false));
    let completed_for_task = Arc::clone(&completed);

    let sleeper = ex.clone();
    scope
        .spawn(async move {
            sleeper.sleep(ms(1000)).await;
            *completed_for_task.lock().unwrap() = true;
        })
        .unwrap();

    assert_eq!(scope.close(), 1);

    ex.run_until(async {
        yield_now().await;
    });

    assert!(!*completed.lock().unwrap());
    assert_eq!(ex.snapshot().task_count, 0);
}

// Running.

#[test]
fn run_until_drives_spawned_tasks() {
    let ex = Ex::new();

    let output = ex.run_until(async {
        let worker = ex
            .spawn_with_handle(async {
                yield_now().await;
                7
            })
            .unwrap();

        worker.await.unwrap()
    });

    assert_eq!(output, 7);
}

#[test]
fn run_until_timer_completes_while_task_keeps_waking() {
    let ex = Ex::new();

    ex.spawn(AlwaysWake).unwrap();
    ex.drop_spawner();

    let started = ex.now();
    ex.run_until(async {
        ex.sleep(ms(5)).await;
    });

    assert!(ex.now() - started < ms(1000));

    let snapshot = ex.snapshot();
    assert_eq!(snapshot.ready_poll_budget, READY_POLL_BUDGET);
    assert!(snapshot.total_task_polls >= READY_POLL_BUDGET as u64);
    assert!(snapshot.ready_poll_budget_exhaustions > 0);
}

#[test]
fn yield_now_yields_once_before_completion() {
    let events = Arc::new(Mutex::new(Vec::new()));
    let events_for_task = Arc::clone(&events);

    block_on(&Ex::new(), async move {
        events_for_task.lock().unwrap().push("before");
        yield_now().await;
        events_for_task.lock().unwrap().push("after");
    });

    assert_eq!(&*events.lock().unwrap(), &["before", "after"]);
}

#[test]
fn sleep_delays_future_completion() {
    let ex = Ex::new();
    let started = ex.now();

    block_on(&ex, async {
        ex.sleep(ms(10)).await;
    });

    assert!(ex.now() - started >= ms(10));
}

#[test]
fn timeout_returns_future_output_before_deadline() {
    let ex = Ex::new();
    let output = block_on(&ex, async { ex.timeout(ms(1000), async { 7 }).await });

    assert_eq!(output, Ok(7));
}

#[test]
fn timeout_expires_before_slow_future() {
    let ex = Ex::new();
    let started = ex.now();

    let output = block_on(&ex, async {
        ex.timeout(ms(5), async {
            ex.sleep(ms(60_000)).await;
            7
        })
        .await
    });

    assert_eq!(output, Err(TimeoutError {}));
    assert!(ex.now() - started < ms(1000));
}

#[test]
fn timeout_drops_inner_sleep_timer() {
    let ex = Ex::new();
    let output = Arc::new(Mutex::new(None));
    let output_for_task = Arc::clone(&output);

    let sleeper = ex.clone();
    ex.spawn(async move {
        let result = sleeper
            .timeout(ms(5), async {
                sleeper.sleep(ms(60_000)).await;
                7
            })
            .await;
        *output_for_task.lock().unwrap() = Some(result);
    })
    .unwrap();

    ex.drop_spawner();
    ex.run();

    assert_eq!(*output.lock().unwrap(), Some(Err(TimeoutError {})));
    assert_eq!(ex.snapshot().timer_count, 0);
}

#[test]
fn race_returns_first_future_output() {
    let ex = Ex::new();
    let output = block_on(&ex, async {
        race(
            async {
                yield_now().await;
                "first"
            },
            async {
                ex.sleep(ms(60_000)).await;
                "second"
            },
        )
        .await
    });

    assert_eq!(output, RaceOutput::First("first"));
}

#[test]
fn race_returns_second_future_output() {
    let ex = Ex::new();
    let output = block_on(&ex, async {
        race(
            async {
                ex.sleep(ms(60_000)).await;
                "first"
            },
            async {
                yield_now().await;
                "second"
            },
        )
        .await
    });

    assert_eq!(output, RaceOutput::Second("second"));
}

#[test]
fn race_drops_losing_sleep_timer() {
    let ex = Ex::new();
    let output = Arc::new(Mutex::new(None));
    let output_for_task = Arc::clone(&output);

    let sleeper = ex.clone();
    ex.spawn(async move {
        let result = race(
            async {
                sleeper.sleep(ms(5)).await;
                "fast"
            },
            async {
                sleeper.sleep(ms(60_000)).await;
                "slow"
            },
        )
        .await;
        *output_for_task.lock().unwrap() = Some(result);
    })
    .unwrap();

    ex.drop_spawner();
    ex.run();

    assert_eq!(*output.lock().unwrap(), Some(RaceOutput::First("fast")));
    assert_eq!(ex.snapshot().timer_count, 0);
}

#[test]
fn timers_wake_in_deadline_order() {
    let ex = Ex::new();
    let events = Arc::new(Mutex::new(Vec::new()));

    let slow_events = Arc::clone(&events);
    let slow = ex.clone();
    ex.spawn(async move {
        slow.sleep(ms(20)).await;
        slow_events.lock().unwrap().push("slow");
    })
    .unwrap();

    let fast_events = Arc::clone(&events);
    let fast = ex.clone();
    ex.spawn(async move {
        fast.sleep(ms(5)).await;
        fast_events.lock().unwrap().push("fast");
    })
    .unwrap();

    ex.drop_spawner();
    ex.run();

    assert_eq!(&*events.lock().unwrap(), &["fast", "slow"]);
}

#[test]
fn executor_runs_multiple_spawned_tasks() {
    let ex = Ex::new();
    let values = Arc::new(Mutex::new(Vec::new()));

    for value in 0..3 {
        let values_for_task = Arc::clone(&values);
        ex.spawn(async move {
            yield_now().await;
            values_for_task.lock().unwrap().push(value);
        })
        .unwrap();
    }

    ex.drop_spawner();
    ex.run();

    let mut values = values.lock().unwrap().clone();
    values.sort();
    assert_eq!(values, vec![0, 1, 2]);
}

#[test]
fn repeated_wakes_share_one_ready_queue_entry() {
    let ex = Ex::new();
    ex.spawn(WakeTwiceThenPending).unwrap();

    let task = ex.inner.lock().unwrap().scheduler.next_task().unwrap();
    ex.poll_task(task);

    assert_eq!(ex.snapshot().ready_queue_len, 1);
}

#[test]
fn executor_snapshot_reports_cumulative_scheduler_counters() {
    let ex = Ex::new();

    for _ in 0..3 {
        ex.spawn(async {
            yield_now().await;
        })
        .unwrap();
    }

    ex.drop_spawner();
    ex.run();

    let snapshot = ex.snapshot();
    assert_eq!(snapshot.ready_poll_budget, READY_POLL_BUDGET);
    assert_eq!(snapshot.total_spawned_tasks, 3);
    assert_eq!(snapshot.total_completed_tasks, 3);
    assert_eq!(snapshot.total_task_polls, 6);
    assert_eq!(snapshot.ready_poll_budget_exhaustions, 0);
    assert_eq!(snapshot.total_driver_events, 0);
    assert_eq!(snapshot.total_readiness_events, 0);
    assert_eq!(snapshot.total_readable_events, 0);
    assert_eq!(snapshot.total_writable_events, 0);
    assert_eq!(snapshot.total_completion_events, 0);
}

#[test]
fn panicking_task_does_not_stop_executor() {
    let ex = Ex::new();
    let completed = Arc::new(Mutex::new(false));
    let completed_for_task = Arc::clone(&completed);

    ex.add(Body::Panics("task panic"), None).unwrap();
    ex.spawn(async move {
        *completed_for_task.lock().unwrap() = true;
    })
    .unwrap();

    ex.drop_spawner();
    ex.run();

    assert!(*completed.lock().unwrap());
}

// Join handles.

#[test]
fn spawn_with_handle_returns_task_output() {
    let ex = Ex::new();
    let result = Arc::new(Mutex::new(None));
    let result_for_task = Arc::clone(&result);

    let worker = ex
        .spawn_with_handle(async {
            yield_now().await;
            7
        })
        .unwrap();

    ex.spawn(async move {
        let output = worker.await.unwrap();
        *result_for_task.lock().unwrap() = Some(output);
    })
    .unwrap();

    ex.drop_spawner();
    ex.run();

    assert_eq!(*result.lock().unwrap(), Some(7));
}

#[test]
fn tasks_can_await_multiple_join_handles() {
    let ex = Ex::new();
    let result = Arc::new(Mutex::new(None));
    let result_for_task = Arc::clone(&result);

    let first = ex
        .spawn_with_handle(async {
            yield_now().await;
            2
        })
        .unwrap();
    let second = ex
        .spawn_with_handle(async {
            yield_now().await;
            yield_now().await;
            5
        })
        .unwrap();

    ex.spawn(async move {
        *result_for_task.lock().unwrap() = Some(first.await.unwrap() + second.await.unwrap());
    })
    .unwrap();

    ex.drop_spawner();
    ex.run();

    assert_eq!(*result.lock().unwrap(), Some(7));
}

#[test]
fn panicking_join_handle_wakes_waiter() {
    let ex = Ex::new();
    let observed = Arc::new(Mutex::new(false));
    let observed_for_task = Arc::clone(&observed);

    let worker = ex.spawn_panicking::<()>("join panic").unwrap();

    ex.spawn(async move {
        let error = worker.await.unwrap_err();
        assert!(error.is_panic());
        assert_eq!(error.into_panic(), Some("join panic"));
        *observed_for_task.lock().unwrap() = true;
    })
    .unwrap();

    ex.drop_spawner();
    ex.run();

    assert!(*observed.lock().unwrap());
}

#[test]
fn aborted_join_handle_returns_cancelled() {
    let ex = Ex::new();
    let result = Arc::new(Mutex::new(None));
    let result_for_task = Arc::clone(&result);

    let sleeper = ex.clone();
    let worker = ex
        .spawn_with_handle(async move {
            sleeper.sleep(ms(60_000)).await;
            7
        })
        .unwrap();

    ex.spawn(async move {
        yield_now().await;
        let aborted = worker.abort();
        let cancelled = worker.await.unwrap_err().is_cancelled();
        *result_for_task.lock().unwrap() = Some((aborted, cancelled));
    })
    .unwrap();

    ex.drop_spawner();
    ex.run();

    assert_eq!(*result.lock().unwrap(), Some((true, true)));
    assert_eq!(ex.snapshot().timer_count, 0);
}

#[test]
fn aborting_completed_join_handle_returns_false() {
    let ex = Ex::new();
    let result = Arc::new(Mutex::new(None));
    let result_for_task = Arc::clone(&result);

    let worker = ex
        .spawn_with_handle(async {
            yield_now().await;
            7
        })
        .unwrap();

    ex.spawn(async move {
        yield_now().await;
        yield_now().await;
        let aborted = worker.abort();
        let output = worker.await.unwrap();
        *result_for_task.lock().unwrap() = Some((aborted, output));
    })
    .unwrap();

    ex.drop_spawner();
    ex.run();

    assert_eq!(*result.lock().unwrap(), Some((false, 7)));
}

#[test]
fn spawned_tasks_can_sleep_before_joining() {
    let ex = Ex::new();
    let result = Arc::new(Mutex::new(None));
    let result_for_task = Arc::clone(&result);

    let sleeper = ex.clone();
    let worker = ex
        .spawn_with_handle(async move {
            sleeper.sleep(ms(5)).await;
            11
        })
        .unwrap();

    ex.spawn(async move {
        *result_for_task.lock().unwrap() = Some(worker.await.unwrap());
    })
    .unwrap();

    ex.drop_spawner();
    ex.run();

    assert_eq!(*result.lock().unwrap(), Some(11));
}

#[test]
fn block_on_can_await_spawned_task_output() {
    let ex = Ex::new();
    let output = Arc::new(Mutex::new(None));
    let output_for_task = Arc::clone(&output);

    ex.add_spawner();
    let spawner_for_root = ex.clone();
    ex.spawn(async move {
        let worker = spawner_for_root
            .spawn_with_handle(async {
                yield_now().await;
                "done"
            })
            .unwrap();

        *output_for_task.lock().unwrap() = Some(worker.await.unwrap());
        spawner_for_root.drop_spawner();
    })
    .unwrap();

    ex.drop_spawner();
    ex.run();

    assert_eq!(*output.lock().unwrap(), Some("done"));
}

#[test]
fn spawner_reports_closed_executor() {
    let ex = Ex::new();
    ex.close();

    assert!(matches!(ex.spawn(async {}), Err(SpawnError::Closed)));
}

#[test]
fn dropping_executor_cancels_pending_sleep_task() {
    let ex = Ex::new();
    let sleeper = ex.clone();
    let worker = ex
        .spawn_with_handle(async move {
            sleeper.sleep(ms(60_000)).await;
            7
        })
        .unwrap();

    ex.poll_ready_tasks();
    assert!(ex.snapshot().timer_count > 0);

    ex.close();

    assert!(!worker.abort());
    assert_eq!(ex.snapshot().timer_count, 0);
}

#[test]
fn dropping_executor_cancels_pending_readable_task() {
    let ex = Ex::new();
    let reader = ex.clone();
    let worker = ex
        .spawn_with_handle(async move {
            reader.readable(9).await;
            7
        })
        .unwrap();

    ex.poll_ready_tasks();
    assert!(ex.snapshot().read_interest_count > 0);

    ex.close();

    assert!(!worker.abort());
    assert_eq!(ex.snapshot().read_interest_count, 0);
}

#[test]
fn multiple_tasks_can_wait_for_same_readable_fd() {
    let ex = Ex::new();
    let values = Arc::new(Mutex::new(Vec::new()));
    for value in [1, 2] {
        let reader = ex.clone();
        let values = Arc::clone(&values);
        ex.spawn(async move {
            reader.readable(9).await;
            values.lock().unwrap().push(value);
        })
        .unwrap();
    }
    ex.poll_ready_tasks();
    assert_eq!(ex.snapshot().read_interest_count, 2);
    ex.inner.lock().unwrap().ready_fds.push(9);
    ex.drop_spawner();
    ex.run();

    let mut values = values.lock().unwrap().clone();
    values.sort();
    assert_eq!(values, [1, 2]);
    let snapshot = ex.snapshot();
    assert_eq!(snapshot.total_driver_events, 1);
    assert_eq!(snapshot.total_readable_events, 1);
    assert_eq!(snapshot.read_interest_count, 0);
}

struct WakeTwiceThenPending;

impl Future for WakeTwiceThenPending {
    type Output = ();

    fn poll(self: Pin<&mut Self>, context: &mut Context<'_>) -> Poll<()> {
        context.waker().wake_by_ref();
        context.waker().wake_by_ref();
        Poll::Pending
    }
}

struct AlwaysWake;

impl Future for AlwaysWake {
    type Output = ();

    fn poll(self: Pin<&mut Self>, context: &mut Context<'_>) -> Poll<()> {
        context.waker().wake_by_ref();
        Poll::Pending
    }
}
