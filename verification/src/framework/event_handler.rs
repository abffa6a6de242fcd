//! Event dispatching: which handlers an event reaches, and what becomes of
//! their failures.
//!
//! Handlers are kept by event type, in registration order. Dispatching an
//! event yields the handlers to start, all of them and each once; the list is
//! fixed before any handler runs, so no handler's failure can keep another
//! from being started.

use vstd::prelude::*;
use vstd::hash_map::StringHashMap;

verus! {

/// A trait for event handlers.
///
/// The dispatcher reads the event type once, at registration: the handler is
/// filed under what the method ensures of its result.
pub trait EventHandler {
    /// The event type this handler responds to.
    fn event_type(&self) -> &'static str;
}

/// Dispatches events to registered handlers.
pub struct EventDispatcher<H> {
    /// Maps event types to the number of their slot.
    types: StringHashMap<usize>,
    /// The handlers of each slot, in registration order.
    slots: Vec<Vec<H>>,
}

impl<H> EventDispatcher<H> {
    /// The invariant of the registry: every event type has a slot of its own.
    pub closed spec fn wf(&self) -> bool {
        &&& forall|t: Seq<char>| #[trigger]
            self.types@.contains_key(t) ==> self.types@[t] < self.slots@.len()
        &&& forall|t: Seq<char>, u: Seq<char>|
            self.types@.contains_key(t) && self.types@.contains_key(u) && #[trigger] self.types@[t]
                == #[trigger] self.types@[u] ==> t == u
    }

    /// The handlers registered for `event_type`, in registration order; none
    /// for an event type that nothing was registered for.
    pub closed spec fn handlers(&self, event_type: Seq<char>) -> Seq<H> {
        if self.types@.contains_key(event_type) {
            self.slots@[self.types@[event_type] as int]@
        } else {
            Seq::empty()
        }
    }

    /// Creates a new EventDispatcher without handlers.
    pub fn new() -> (dispatcher: Self)
        ensures
            dispatcher.wf(),
            forall|t: Seq<char>| (#[trigger] dispatcher.handlers(t)).len() == 0,
    {
        Self { types: StringHashMap::new(), slots: Vec::new() }
    }

    /// Appends `handler` to the handlers of `event_type`. The handlers of
    /// every other event type stay as they are.
    pub fn register(&mut self, event_type: &str, handler: H)
        requires
            old(self).wf(),
        ensures
            final(self).wf(),
            final(self).handlers(event_type@) == old(self).handlers(event_type@).push(handler),
            forall|t: Seq<char>|
                t != event_type@ ==> #[trigger] final(self).handlers(t) == old(self).handlers(t),
    {
        match self.types.get(event_type) {
            Some(slot) => {
                let slot: usize = *slot;
                self.slots[slot].push(handler);
            },
            None => {
                let slot: usize = self.slots.len();
                let mut bucket: Vec<H> = Vec::new();
                bucket.push(handler);
                self.slots.push(bucket);
                self.types.insert(event_type.to_string(), slot);
                proof {
                    assert(Seq::<H>::empty().push(handler) =~= bucket@);
                }
            },
        }
    }

    /// Registers an event handler for the event type it reports of itself:
    /// the handler is appended to the handlers of the type that its
    /// `event_type` returns, and the handlers of every other event type stay
    /// as they are.
    pub fn register_handler(&mut self, handler: H) where H: EventHandler
        requires
            old(self).wf(),
        ensures
            final(self).wf(),
            exists|event_type: &'static str|
                {
                    &&& H::event_type.ensures((&handler,), event_type)
                    &&& #[trigger] final(self).handlers(event_type@) == old(self).handlers(
                        event_type@,
                    ).push(handler)
                    &&& forall|t: Seq<char>|
                        t != event_type@ ==> #[trigger] final(self).handlers(t) == old(
                            self,
                        ).handlers(t)
                },
    {
        let event_type = handler.event_type();
        self.register(event_type, handler);
        proof {
            assert(H::event_type.ensures((&handler,), event_type));
            assert(final(self).handlers(event_type@) == old(self).handlers(event_type@).push(
                handler,
            ));
        }
    }

    /// The handlers that an event of type `event_type` reaches: all that were
    /// registered for it, each once, in registration order. They are to be
    /// started in that order. For an event type without handlers the list is
    /// empty and dispatching does nothing.
    pub fn dispatch(&self, event_type: &str) -> (handlers: Vec<&H>)
        requires
            self.wf(),
        ensures
            handlers@.len() == self.handlers(event_type@).len(),
            forall|i: int|
                0 <= i < handlers@.len() ==> *(#[trigger] handlers@[i]) == self.handlers(
                    event_type@,
                )[i],
    {
        let mut handlers: Vec<&H> = Vec::new();
        match self.types.get(event_type) {
            Some(slot) => {
                let bucket = &self.slots[*slot];
                let mut i: usize = 0;
                while i < bucket.len()
                    invariant
                        i <= bucket.len(),
                        handlers@.len() == i,
                        forall|k: int| 0 <= k < i ==> *(#[trigger] handlers@[k]) == bucket@[k],
                    decreases bucket.len() - i,
                {
                    handlers.push(&bucket[i]);
                    i += 1;
                }
            },
            None => {},
        }
        handlers
    }

    /// Dispatches the ready event: the handlers registered for `"ready"`.
    pub fn dispatch_ready(&self) -> (handlers: Vec<&H>)
        requires
            self.wf(),
        ensures
            handlers@.len() == self.handlers("ready"@).len(),
            forall|i: int|
                0 <= i < handlers@.len() ==> *(#[trigger] handlers@[i]) == self.handlers(
                    "ready"@,
                )[i],
    {
        self.dispatch("ready")
    }

    /// Dispatches a message event: the handlers registered for `"message"`.
    pub fn dispatch_message(&self) -> (handlers: Vec<&H>)
        requires
            self.wf(),
        ensures
            handlers@.len() == self.handlers("message"@).len(),
            forall|i: int|
                0 <= i < handlers@.len() ==> *(#[trigger] handlers@[i]) == self.handlers(
                    "message"@,
                )[i],
    {
        self.dispatch("message")
    }

    /// Dispatches a reaction event: the handlers registered for
    /// `"reaction_add"`.
    pub fn dispatch_reaction_add(&self) -> (handlers: Vec<&H>)
        requires
            self.wf(),
        ensures
            handlers@.len() == self.handlers("reaction_add"@).len(),
            forall|i: int|
                0 <= i < handlers@.len() ==> *(#[trigger] handlers@[i]) == self.handlers(
                    "reaction_add"@,
                )[i],
    {
        self.dispatch("reaction_add")
    }

    /// Dispatches a member-join event: the handlers registered for
    /// `"guild_member_add"`.
    pub fn dispatch_guild_member_add(&self) -> (handlers: Vec<&H>)
        requires
            self.wf(),
        ensures
            handlers@.len() == self.handlers("guild_member_add"@).len(),
            forall|i: int|
                0 <= i < handlers@.len() ==> *(#[trigger] handlers@[i]) == self.handlers(
                    "guild_member_add"@,
                )[i],
    {
        self.dispatch("guild_member_add")
    }

    /// Dispatches an interaction event: the handlers registered for
    /// `"interaction"`.
    pub fn dispatch_interaction(&self) -> (handlers: Vec<&H>)
        requires
            self.wf(),
        ensures
            handlers@.len() == self.handlers("interaction"@).len(),
            forall|i: int|
                0 <= i < handlers@.len() ==> *(#[trigger] handlers@[i]) == self.handlers(
                    "interaction"@,
                )[i],
    {
        self.dispatch("interaction")
    }
}

/// How the execution of one handler ended.
#[derive(Debug)]
pub enum HandlerOutcome {
    /// The handler ran to its end.
    Completed,
    /// The handler terminated abnormally; the text says how.
    Panicked(String),
}

/// The record of a handler that terminated abnormally, for the log.
#[derive(Debug)]
pub struct HandlerFailure {
    /// The type of the event that was dispatched.
    pub event_type: String,
    /// The position of the handler among the handlers of that event type.
    pub handler: usize,
    /// How the handler terminated.
    pub reason: String,
}

/// The boundary around one handler execution: an abnormal termination becomes
/// a record for the log and goes no further; a handler that ran to its end
/// leaves nothing.
pub fn contain(event_type: &str, handler: usize, outcome: HandlerOutcome) -> (failure: Option<
    HandlerFailure,
>)
    ensures
        match outcome {
            HandlerOutcome::Completed => failure is None,
            HandlerOutcome::Panicked(reason) => {
                &&& failure matches Some(f)
                &&& f.event_type@ == event_type@
                &&& f.handler == handler
                &&& f.reason@ == reason@
            },
        },
{
    match outcome {
        HandlerOutcome::Completed => None,
        HandlerOutcome::Panicked(reason) => Some(
            HandlerFailure { event_type: event_type.to_string(), handler, reason },
        ),
    }
}

/// The number of handlers among `outcomes` that ran to their end.
pub open spec fn completed_count(outcomes: Seq<HandlerOutcome>) -> nat
    decreases outcomes.len(),
{
    if outcomes.len() == 0 {
        0
    } else {
        completed_count(outcomes.drop_last()) + if outcomes.last() is Completed {
            1nat
        } else {
            0nat
        }
    }
}

/// The bookkeeping of one dispatch.
#[derive(Clone, Copy, Debug, PartialEq, Eq, Structural)]
pub struct DispatchReport {
    /// How many handlers were started.
    pub started: usize,
    /// How many of them ran to their end.
    pub completed: usize,
    /// How many of them terminated abnormally.
    pub failed: usize,
}

/// Sums up one dispatch from the outcome of each handler that was started.
/// Every handler counts once, as completed or as failed.
pub fn summarize(outcomes: &Vec<HandlerOutcome>) -> (report: DispatchReport)
    ensures
        report.started == outcomes@.len(),
        report.completed == completed_count(outcomes@),
        report.completed + report.failed == report.started,
{
    let mut completed: usize = 0;
    let mut failed: usize = 0;
    let mut i: usize = 0;
    assert(outcomes@.take(0) =~= Seq::<HandlerOutcome>::empty());
    while i < outcomes.len()
        invariant
            i <= outcomes.len(),
            completed == completed_count(outcomes@.take(i as int)),
            completed + failed == i,
        decreases outcomes.len() - i,
    {
        proof {
            let next = outcomes@.take(i + 1);
            assert(next.drop_last() =~= outcomes@.take(i as int));
            assert(next.last() == outcomes@[i as int]);
        }
        match &outcomes[i] {
            HandlerOutcome::Completed => {
                completed += 1;
            },
            HandlerOutcome::Panicked(_) => {
                failed += 1;
            },
        }
        i += 1;
    }
    assert(outcomes@.take(outcomes@.len() as int) =~= outcomes@);
    DispatchReport { started: outcomes.len(), completed, failed }
}

} // verus!
