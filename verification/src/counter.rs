//! The decision logic of a grow-only counter kept in a linearizable
//! external key-value store: a thin optimistic-retry loop over get and
//! compare-and-swap.
//!
//! The store calls themselves are the runtime's work. It starts a request
//! with [`counter_start`], performs the returned [`CounterAction`], and
//! feeds each outcome back through [`counter_step`] until no task is left:
//! every state change and every retry decision is taken here.

use vstd::prelude::*;

verus! {

/// A decoded counter request.
#[derive(Clone, Copy, PartialEq, Eq, Structural, Debug)]
pub enum CounterRequest {
    /// Cluster initialization: the counter key is seeded with 0.
    Init,
    /// A client adds `delta` to the counter.
    Add { delta: u64 },
    /// A client reads the counter.
    Read,
}

/// What the runtime must do next against the store or the client.
#[derive(Clone, Copy, PartialEq, Eq, Structural, Debug)]
pub enum CounterAction {
    /// Write `value` under the counter key.
    Put { value: u64 },
    /// Read the counter key.
    Get,
    /// Compare-and-swap the counter key from `from` to `to`, creating the
    /// key when it is missing.
    Cas { from: u64, to: u64, create_if_missing: bool },
    /// Reply to the client with the counter value read.
    ReplyValue { value: u64 },
    /// Acknowledge the client's addition.
    ReplyOk,
    /// Surface the store's error to the runtime's error path.
    Fail,
}

/// The operation a pending task is carrying out.
#[derive(Clone, Copy, PartialEq, Eq, Structural, Debug)]
pub enum CounterOp {
    /// Raise the counter by `delta`.
    Add { delta: u64 },
    /// Read the counter; the compare-and-swap from the read value to itself
    /// confirms the read against concurrent writers.
    Read,
}

/// What outcome a pending task is waiting for.
#[derive(Clone, Copy, PartialEq, Eq, Structural, Debug)]
pub enum CounterAwait {
    /// The first read of the key, whose failure is taken as value 0 (the
    /// key may not exist yet).
    FirstGet,
    /// The compare-and-swap from `value` to the operation's target.
    Cas { value: u64 },
    /// A re-read after a lost compare-and-swap race, whose failure is
    /// surfaced as an error.
    RetryGet,
}

/// One client request in flight against the store.
#[derive(Clone, Copy, PartialEq, Eq, Structural, Debug)]
pub struct CounterTask {
    pub op: CounterOp,
    pub awaiting: CounterAwait,
}

/// The outcome of the store call a task was waiting for.
#[derive(Clone, Copy, PartialEq, Eq, Structural, Debug)]
pub enum CounterEvent {
    GetOk { value: u64 },
    GetFailed,
    CasOk,
    CasFailed,
}

/// The value the operation wants the key swapped to, from base value `value`.
pub open spec fn counter_target(op: CounterOp, value: u64) -> int {
    match op {
        CounterOp::Add { delta } => value + delta,
        CounterOp::Read => value as int,
    }
}

/// Whether an event is one the task can be waiting for.
pub open spec fn counter_accepts(task: CounterTask, event: CounterEvent) -> bool {
    match task.awaiting {
        CounterAwait::FirstGet => event is GetOk || event is GetFailed,
        CounterAwait::RetryGet => event is GetOk || event is GetFailed,
        CounterAwait::Cas { .. } => event is CasOk || event is CasFailed,
    }
}

/// Whether the target of the operation on this base value fits the counter
/// width. A sum beyond it has no defined counter value; the runtime refuses
/// the event before stepping.
pub open spec fn counter_fits(op: CounterOp, value: u64) -> bool {
    counter_target(op, value) <= u64::MAX
}

fn counter_cas_action(op: CounterOp, value: u64) -> (r: (CounterTask, CounterAction))
    requires
        counter_fits(op, value),
    ensures
        r.0.op == op,
        r.0.awaiting == (CounterAwait::Cas { value }),
        r.1 == (CounterAction::Cas {
            from: value,
            to: counter_target(op, value) as u64,
            create_if_missing: true,
        }),
{
    let to = match op {
        CounterOp::Add { delta } => value + delta,
        CounterOp::Read => value,
    };
    (
        CounterTask { op, awaiting: CounterAwait::Cas { value } },
        CounterAction::Cas { from: value, to, create_if_missing: true },
    )
}

/// Begin serving one counter request: initialization seeds the key with 0
/// and is done; an addition or a read first reads the key.
pub fn counter_start(req: CounterRequest) -> (r: (Option<CounterTask>, CounterAction))
    ensures
        match req {
            CounterRequest::Init => {
                &&& r.0 is None
                &&& r.1 == (CounterAction::Put { value: 0 })
            },
            CounterRequest::Add { delta } => {
                &&& r.0 matches Some(t) && t.op == (CounterOp::Add { delta })
                    && t.awaiting is FirstGet
                &&& r.1 is Get
            },
            CounterRequest::Read => {
                &&& r.0 matches Some(t) && t.op is Read && t.awaiting is FirstGet
                &&& r.1 is Get
            },
        },
{
    match req {
        CounterRequest::Init => (None, CounterAction::Put { value: 0 }),
        CounterRequest::Add { delta } => (
            Some(CounterTask { op: CounterOp::Add { delta }, awaiting: CounterAwait::FirstGet }),
            CounterAction::Get,
        ),
        CounterRequest::Read => (
            Some(CounterTask { op: CounterOp::Read, awaiting: CounterAwait::FirstGet }),
            CounterAction::Get,
        ),
    }
}

/// Advance one pending task by the outcome it was waiting for.
///
/// A read value (or a missing key, taken as 0 on the first read) leads to a
/// compare-and-swap toward the operation's target; a lost swap leads to a
/// re-read and another attempt, so a concurrent writer only delays the
/// operation; a won swap ends the task with the client's reply. A failed
/// re-read is surfaced as an error, as is a first read only through its
/// value 0 fallback.
pub fn counter_step(task: CounterTask, event: CounterEvent) -> (r: (Option<CounterTask>, CounterAction))
    requires
        counter_accepts(task, event),
        event matches CounterEvent::GetOk { value } ==> counter_fits(task.op, value),
        task.awaiting is FirstGet && event is GetFailed ==> counter_fits(task.op, 0),
    ensures
        match task.awaiting {
            CounterAwait::FirstGet => match event {
                CounterEvent::GetOk { value } => {
                    &&& r.0 matches Some(t) && t.op == task.op
                        && t.awaiting == (CounterAwait::Cas { value })
                    &&& r.1 == (CounterAction::Cas {
                        from: value,
                        to: counter_target(task.op, value) as u64,
                        create_if_missing: true,
                    })
                },
                _ => {
                    &&& r.0 matches Some(t) && t.op == task.op
                        && t.awaiting == (CounterAwait::Cas { value: 0u64 })
                    &&& r.1 == (CounterAction::Cas {
                        from: 0u64,
                        to: counter_target(task.op, 0u64) as u64,
                        create_if_missing: true,
                    })
                },
            },
            CounterAwait::RetryGet => match event {
                CounterEvent::GetOk { value } => {
                    &&& r.0 matches Some(t) && t.op == task.op
                        && t.awaiting == (CounterAwait::Cas { value })
                    &&& r.1 == (CounterAction::Cas {
                        from: value,
                        to: counter_target(task.op, value) as u64,
                        create_if_missing: true,
                    })
                },
                _ => {
                    &&& r.0 is None
                    &&& r.1 is Fail
                },
            },
            CounterAwait::Cas { value } => match event {
                CounterEvent::CasOk => {
                    &&& r.0 is None
                    &&& r.1 == match task.op {
                        CounterOp::Add { .. } => CounterAction::ReplyOk,
                        CounterOp::Read => CounterAction::ReplyValue { value },
                    }
                },
                _ => {
                    &&& r.0 matches Some(t) && t.op == task.op && t.awaiting is RetryGet
                    &&& r.1 is Get
                },
            },
        },
{
    match task.awaiting {
        CounterAwait::FirstGet => match event {
            CounterEvent::GetOk { value } => {
                let (t, a) = counter_cas_action(task.op, value);
                (Some(t), a)
            },
            _ => {
                let (t, a) = counter_cas_action(task.op, 0);
                (Some(t), a)
            },
        },
        CounterAwait::RetryGet => match event {
            CounterEvent::GetOk { value } => {
                let (t, a) = counter_cas_action(task.op, value);
                (Some(t), a)
            },
            _ => (None, CounterAction::Fail),
        },
        CounterAwait::Cas { value } => match event {
            CounterEvent::CasOk => match task.op {
                CounterOp::Add { .. } => (None, CounterAction::ReplyOk),
                CounterOp::Read => (None, CounterAction::ReplyValue { value }),
            },
            _ => (
                Some(CounterTask { op: task.op, awaiting: CounterAwait::RetryGet }),
                CounterAction::Get,
            ),
        },
    }
}

} // verus!
