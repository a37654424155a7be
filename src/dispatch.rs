//! The decisions of the dispatch loop.
//!
//! The loop takes inbound messages one at a time, in arrival order. A
//! response goes to the completion pending under its id; a notification or
//! a request goes to the handler, and a request's outcome goes back under
//! its id. Running the handler and the completions is left to the caller of
//! `Dispatcher::step`, outside any lock.
use vstd::prelude::*;

use crate::correlator::{allocation, Correlator, CorrelatorView};
use crate::json::{self, str_in};
use crate::message::{Message, MessageView, Outcome};
use serde_json::Value;

verus! {

/// What a handler asks of the loop after a notification.
#[derive(Debug, Clone, Copy, PartialEq, Eq)]
pub enum ControlFlow {
    Continue,
    Exit,
}

/// What the loop does with one inbound message.
#[derive(Debug)]
pub enum Action<C> {
    /// Hand the outcome to the completion that was pending under its id.
    Complete(C, Outcome),
    /// A response that no pending request waits for: it is dropped.
    Ignore,
    /// Hand the notification's method and params to the handler.
    Notify(String, Value),
    /// Hand the request's method and params to the handler, and send back
    /// its outcome under the id.
    Answer(u64, String, Value),
    /// The loop has ended: the message is not processed.
    Halt,
}

/// What one step does, given whether the loop had stopped, the table
/// before and after, and the message.
pub open spec fn routed<C>(
    stopped: bool,
    before: CorrelatorView<C>,
    after: CorrelatorView<C>,
    msg: MessageView,
    r: Action<C>,
) -> bool {
    if stopped {
        r is Halt && after == before
    } else {
        match msg {
            MessageView::Response { id, outcome } => {
                &&& after.pending == before.pending.remove(id)
                &&& after.next_id == before.next_id
                &&& after.closed == before.closed
                &&& if before.pending.contains_key(id) {
                    r == Action::Complete(before.pending[id], outcome)
                } else {
                    r is Ignore
                }
            },
            MessageView::Notification { method, params } => {
                &&& after == before
                &&& r matches Action::Notify(m, p)
                &&& m@ == method
                &&& p == params
            },
            MessageView::Request { id, method, params } => {
                &&& after == before
                &&& r matches Action::Answer(i, m, p)
                &&& i == id
                &&& m@ == method
                &&& p == params
            },
        }
    }
}

/// The state of the dispatch loop: whether a handler has asked it to stop.
pub struct Dispatcher {
    stopped: bool,
}

impl View for Dispatcher {
    type V = bool;

    closed spec fn view(&self) -> bool {
        self.stopped
    }
}

impl Dispatcher {
    /// A loop that is running.
    pub fn new() -> (r: Self)
        ensures
            !r@,
    {
        Dispatcher { stopped: false }
    }

    /// Whether the loop has stopped.
    pub fn is_stopped(&self) -> (r: bool)
        ensures
            r == self@,
    {
        self.stopped
    }

    /// Decides what to do with one inbound message. A response takes its
    /// completion out of the table; nothing else touches the table.
    pub fn step<C>(&self, table: &mut Correlator<C>, msg: Message) -> (r: Action<C>)
        requires
            old(table).wf(),
        ensures
            final(table).wf(),
            routed(self@, old(table)@, final(table)@, msg@, r),
    {
        if self.stopped {
            return Action::Halt;
        }
        match msg {
            Message::Response { id, outcome } => match table.resolve(id) {
                Some(c) => Action::Complete(c, outcome),
                None => Action::Ignore,
            },
            Message::Notification { method, params } => Action::Notify(method, params),
            Message::Request { id, method, params } => Action::Answer(id, method, params),
        }
    }

    /// Takes in what the handler returned for a notification: `Exit` stops
    /// the loop for good.
    pub fn notified(&mut self, flow: ControlFlow)
        ensures
            final(self)@ == (old(self)@ || flow == ControlFlow::Exit),
    {
        match flow {
            ControlFlow::Exit => self.stopped = true,
            ControlFlow::Continue => {},
        }
    }
}

/// The text of the error outcome that a request gets when the transport
/// cannot carry it or its response.
pub const IO_ERROR: &'static str = "io error";

/// The error outcome of a request that the transport failed.
pub fn io_error() -> (r: Outcome)
    ensures
        r matches Err(v) && str_in(v) == Some(IO_ERROR@),
{
    Err(json::string_value(IO_ERROR))
}

/// Leaves `c` pending under a fresh id and builds the request to send,
/// handing out the id with it.
/// When no id can be had, because the table is closed or every id is used,
/// nothing changes and `c` comes back, to be failed at once.
pub fn start_request<C>(table: &mut Correlator<C>, method: String, params: Value, c: C) -> (r:
    Result<(u64, Message), C>)
    requires
        old(table).wf(),
    ensures
        final(table).wf(),
        match r {
            Ok((id, m)) => {
                &&& id == old(table)@.next_id
                &&& m@ == (MessageView::Request { id, method: method@, params })
                &&& allocation(old(table)@, final(table)@, id)
                &&& !old(table)@.pending.contains_key(id)
                &&& final(table)@.pending == old(table)@.pending.insert(id, c)
                &&& final(table)@.closed == old(table)@.closed
            },
            Err(back) => {
                &&& back == c
                &&& final(table)@ == old(table)@
                &&& (old(table)@.closed || old(table)@.next_id == u64::MAX)
            },
        },
{
    match table.register(c) {
        Ok(id) => Ok((id, Message::Request { id, method, params })),
        Err(back) => Err(back),
    }
}

/// The response that answers request `id` with the handler's outcome.
pub fn answer(id: u64, outcome: Outcome) -> (r: Message)
    ensures
        r@ == (MessageView::Response { id, outcome }),
{
    Message::Response { id, outcome }
}

/// A completion left by a registration is what the response carrying its
/// id hands out, with that response's outcome, after which it is no longer
/// pending; a response with any other id leaves it pending as it was.
pub proof fn lemma_outcome_reaches_its_request<C>(
    t0: CorrelatorView<C>,
    t1: CorrelatorView<C>,
    t2: CorrelatorView<C>,
    id: u64,
    c: C,
    response_id: u64,
    outcome: Outcome,
    r: Action<C>,
)
    requires
        allocation(t0, t1, id),
        t1.pending == t0.pending.insert(id, c),
        routed(false, t1, t2, MessageView::Response { id: response_id, outcome }, r),
    ensures
        response_id == id ==> r == Action::Complete(c, outcome) && !t2.pending.contains_key(id),
        response_id != id ==> t2.pending.contains_key(id) && t2.pending[id] == c,
{
}

/// A completion is handed out at most once: a second response with the same
/// id, after the first has been routed, is ignored.
pub proof fn lemma_completed_once<C>(
    t0: CorrelatorView<C>,
    t1: CorrelatorView<C>,
    t2: CorrelatorView<C>,
    id: u64,
    first: Outcome,
    second: Outcome,
    r1: Action<C>,
    r2: Action<C>,
)
    requires
        routed(false, t0, t1, MessageView::Response { id, outcome: first }, r1),
        routed(false, t1, t2, MessageView::Response { id, outcome: second }, r2),
    ensures
        r2 is Ignore,
        t2.pending == t1.pending,
{
    assert(t2.pending =~= t1.pending);
}

/// Once a handler has answered a notification with `Exit`, no message that
/// is still queued is processed: every later step halts and leaves the
/// table as it was.
pub proof fn lemma_exit_ends_loop<C>(
    stopped: bool,
    flow: ControlFlow,
    before: CorrelatorView<C>,
    after: CorrelatorView<C>,
    msg: MessageView,
    r: Action<C>,
)
    requires
        flow == ControlFlow::Exit,
        routed(stopped || flow == ControlFlow::Exit, before, after, msg, r),
    ensures
        r is Halt,
        after == before,
{
}

/// `id` is carried by one of the first `j` responses.
pub open spec fn answered_before(ids: Seq<u64>, j: int, id: u64) -> bool {
    exists|k: int| 0 <= k < j && ids[k] == id
}

/// A running loop routed the responses `(ids[j], outcomes[j])` one after
/// another, taking the table from `tables[j]` to `tables[j + 1]` with
/// action `actions[j]`.
pub open spec fn routes_responses<C>(
    tables: Seq<CorrelatorView<C>>,
    ids: Seq<u64>,
    outcomes: Seq<Outcome>,
    actions: Seq<Action<C>>,
) -> bool {
    &&& tables.len() == ids.len() + 1
    &&& outcomes.len() == ids.len()
    &&& actions.len() == ids.len()
    &&& forall|j: int|
        0 <= j < ids.len() ==> #[trigger] routed(
            false,
            tables[j],
            tables[j + 1],
            MessageView::Response { id: ids[j], outcome: outcomes[j] },
            actions[j],
        )
}

proof fn lemma_table_after<C>(
    tables: Seq<CorrelatorView<C>>,
    ids: Seq<u64>,
    outcomes: Seq<Outcome>,
    actions: Seq<Action<C>>,
    j: int,
)
    requires
        routes_responses(tables, ids, outcomes, actions),
        0 <= j <= ids.len(),
    ensures
        forall|id: u64| #[trigger]
            tables[j].pending.contains_key(id) <==> (tables[0].pending.contains_key(id)
                && !answered_before(ids, j, id)),
        forall|id: u64| #[trigger]
            tables[j].pending.contains_key(id) ==> tables[j].pending[id] == tables[0].pending[id],
    decreases j,
{
    if j > 0 {
        let p = j - 1;
        lemma_table_after(tables, ids, outcomes, actions, p);
        assert(routed(
            false,
            tables[p],
            tables[p + 1],
            MessageView::Response { id: ids[p], outcome: outcomes[p] },
            actions[p],
        ));
        assert forall|id: u64| #[trigger]
            answered_before(ids, j, id) <==> (answered_before(ids, p, id) || ids[p] == id) by {
            if answered_before(ids, j, id) && !(ids[p] == id) {
                let k = choose|k: int| 0 <= k < j && ids[k] == id;
                assert(k < p);
            }
            if ids[p] == id {
                assert(0 <= p < j && ids[p] == id);
            }
            if answered_before(ids, p, id) {
                let k = choose|k: int| 0 <= k < p && ids[k] == id;
                assert(0 <= k < j && ids[k] == id);
            }
        }
    }
}

/// Responses routed one after another, in any order, each reach the caller
/// whose request carried their id: for callers `i` whose completions
/// `completions[i]` were pending under `request_ids[i]`, the first response
/// carrying `request_ids[i]` hands exactly `completions[i]` its own outcome.
/// A later response with the same id, or one with an id that was not
/// pending, is ignored, so each completion is handed out at most once.
pub proof fn lemma_each_caller_gets_its_outcome<C>(
    tables: Seq<CorrelatorView<C>>,
    ids: Seq<u64>,
    outcomes: Seq<Outcome>,
    actions: Seq<Action<C>>,
    request_ids: Seq<u64>,
    completions: Seq<C>,
)
    requires
        routes_responses(tables, ids, outcomes, actions),
        request_ids.len() == completions.len(),
        forall|i: int|
            0 <= i < request_ids.len() ==> tables[0].pending.contains_key(#[trigger] request_ids[i])
                && tables[0].pending[request_ids[i]] == completions[i],
    ensures
        forall|j: int, i: int|
            0 <= j < ids.len() && 0 <= i < request_ids.len() && ids[j] == request_ids[i]
                && !answered_before(ids, j, ids[j]) ==> actions[j] == Action::Complete(
                completions[i],
                outcomes[j],
            ),
        forall|j: int|
            0 <= j < ids.len() && (answered_before(ids, j, ids[j])
                || !tables[0].pending.contains_key(ids[j])) ==> actions[j] is Ignore,
{
    assert forall|j: int, i: int|
        0 <= j < ids.len() && 0 <= i < request_ids.len() && ids[j] == request_ids[i]
            && !answered_before(ids, j, ids[j]) implies actions[j] == Action::Complete(
        completions[i],
        outcomes[j],
    ) by {
        lemma_table_after(tables, ids, outcomes, actions, j);
        assert(tables[j].pending.contains_key(ids[j]));
        assert(routed(
            false,
            tables[j],
            tables[j + 1],
            MessageView::Response { id: ids[j], outcome: outcomes[j] },
            actions[j],
        ));
    }
    assert forall|j: int|
        0 <= j < ids.len() && (answered_before(ids, j, ids[j])
            || !tables[0].pending.contains_key(ids[j])) implies actions[j] is Ignore by {
        lemma_table_after(tables, ids, outcomes, actions, j);
        assert(!tables[j].pending.contains_key(ids[j]));
        assert(routed(
            false,
            tables[j],
            tables[j + 1],
            MessageView::Response { id: ids[j], outcome: outcomes[j] },
            actions[j],
        ));
    }
}

} // verus!
