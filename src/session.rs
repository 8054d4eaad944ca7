//! The session engine: it numbers commands, keeps the callbacks that wait for
//! replies, answers the server's greeting and routes each inbound message.
//!
//! It does no I/O. The program around it reads lines and hands them to
//! `Session::on_line`, and performs what the returned `Dispatch` says: send a
//! message, invoke a callback, or report an event or a failure. Callbacks are
//! invoked by the caller after `on_line` returns, so a callback may submit a
//! new command without the registry being held.
use crate::json::{Json, JsonView};
use crate::messages::client::{capabilities, capabilities_view, Message};
use crate::messages::server::{
    decoded, parse, Event, ParseError, ReceivedMessage, ReceivedView, Return, ReturnView,
};
use std::collections::HashMap;
use vstd::prelude::*;

verus! {

broadcast use vstd::std_specs::hash::group_hash_axioms;

/// The state of a session: the callback registered for each id that awaits
/// its reply, and the next id to issue.
pub struct Session<C> {
    callbacks: HashMap<usize, C>,
    next_id: usize,
}

pub struct SessionView<C> {
    pub callbacks: Map<usize, C>,
    pub next_id: usize,
}

impl<C> SessionView<C> {
    /// Ids start at 1, and every registered id has been issued.
    pub open spec fn wf(self) -> bool {
        &&& 1 <= self.next_id
        &&& forall|id: usize| #[trigger] self.callbacks.contains_key(id) ==> 1 <= id < self.next_id
    }

    /// A session that has issued no id.
    pub open spec fn fresh() -> SessionView<C> {
        SessionView { callbacks: Map::empty(), next_id: 1 }
    }

    /// Whether another id can be issued.
    pub open spec fn can_issue(self) -> bool {
        self.next_id < usize::MAX
    }

    /// The session after it issued an id.
    pub open spec fn issued(self) -> SessionView<C> {
        SessionView { callbacks: self.callbacks, next_id: (self.next_id + 1) as usize }
    }

    /// The session after a call: the next id is issued and `callback` waits
    /// under it.
    pub open spec fn called(self, callback: C) -> SessionView<C> {
        SessionView {
            callbacks: self.callbacks.insert(self.next_id, callback),
            next_id: (self.next_id + 1) as usize,
        }
    }

    /// The callback that message `m` fires: the one registered under the id
    /// of a reply.
    pub open spec fn fires(self, m: ReceivedView) -> Option<C> {
        match m {
            ReceivedView::Return(ReturnView { id: Some(n), .. }) => if self.callbacks.contains_key(n) {
                Some(self.callbacks[n])
            } else {
                None
            },
            _ => None,
        }
    }

    /// The session after it dispatched message `m`.
    pub open spec fn after(self, m: ReceivedView) -> SessionView<C> {
        match m {
            ReceivedView::Greeting(_) => if self.can_issue() {
                self.issued()
            } else {
                self
            },
            ReceivedView::Return(ReturnView { id: Some(n), .. }) => SessionView {
                callbacks: self.callbacks.remove(n),
                next_id: self.next_id,
            },
            _ => self,
        }
    }

    /// The session after it received the line `line`; a line that is not a
    /// message leaves it as it was.
    pub open spec fn after_line(self, line: Seq<char>) -> SessionView<C> {
        match decoded(line) {
            Ok(m) => self.after(m),
            Err(_) => self,
        }
    }

    /// The callback that the line `line` fires.
    pub open spec fn line_fires(self, line: Seq<char>) -> Option<C> {
        match decoded(line) {
            Ok(m) => self.fires(m),
            Err(_) => None,
        }
    }
}

impl<C> View for Session<C> {
    type V = SessionView<C>;

    closed spec fn view(&self) -> SessionView<C> {
        SessionView { callbacks: self.callbacks@, next_id: self.next_id }
    }
}

/// What the caller is to do with an inbound line.
pub enum Dispatch<C> {
    /// Enqueue this message: the answer to the server's greeting.
    Send(Message),
    /// Invoke this callback with this reply.
    Resolve(C, Return),
    /// Drop this reply: it has no id, or no callback waits for its id.
    Unmatched(Return),
    /// Hand this event to the notification sink.
    Notify(Event),
    /// The message could not be routed.
    Failed(DispatchError),
    /// The line is not a message.
    Malformed(ParseError),
}

/// Why a message could not be routed.
#[derive(Debug)]
pub enum DispatchError {
    /// The greeting needs an answer, and no id is left to issue for it.
    IdsExhausted,
}

/// Why a command could not be submitted.
#[derive(Debug)]
pub enum CallError {
    /// Every id has been issued.
    IdsExhausted,
}

/// Whether `r` is what a session in state `s` does with message `m`.
pub open spec fn outcome<C>(s: SessionView<C>, m: ReceivedView, r: Dispatch<C>) -> bool {
    match m {
        ReceivedView::Greeting(_) => if s.can_issue() {
            r is Send && r->Send_0@ == capabilities_view(s.next_id)
        } else {
            r matches Dispatch::Failed(DispatchError::IdsExhausted)
        },
        ReceivedView::Return(rv) => match s.fires(m) {
            Some(cb) => r matches Dispatch::Resolve(c, ret) && c == cb && ret@ == rv,
            None => r matches Dispatch::Unmatched(ret) && ret@ == rv,
        },
        ReceivedView::Event(ev) => r matches Dispatch::Notify(e) && e@ == ev,
    }
}

impl<C> Session<C> {
    /// A session that has issued no id and holds no callback.
    pub fn new() -> (r: Session<C>)
        ensures
            r@ == SessionView::<C>::fresh(),
    {
        let r = Session { callbacks: HashMap::new(), next_id: 1 };
        assert(r@.callbacks =~= Map::empty());
        r
    }

    /// Issues the next id: ids increase by one from 1 and none is issued twice.
    pub fn next_id(&mut self) -> (r: Option<usize>)
        ensures
            old(self)@.can_issue() ==> r == Some(old(self)@.next_id) && final(self)@ == old(
                self,
            )@.issued(),
            !old(self)@.can_issue() ==> r is None && final(self)@ == old(self)@,
    {
        if self.next_id == usize::MAX {
            return None;
        }
        let id = self.next_id;
        self.next_id = id + 1;
        Some(id)
    }

    /// Submits a command: issues the next id, registers `callback` under it,
    /// and hands back the message to enqueue. Should the enqueue fail, the
    /// caller withdraws the registration with `cancel`.
    pub fn call(&mut self, command: String, arguments: Vec<(String, Json)>, callback: C) -> (r:
        Result<Message, CallError>)
        ensures
            old(self)@.can_issue() ==> (r matches Ok(m) && m.id == old(self)@.next_id
                && m.execute == command && m.arguments == arguments),
            old(self)@.can_issue() ==> final(self)@ == old(self)@.called(callback),
            !old(self)@.can_issue() ==> (r matches Err(CallError::IdsExhausted)),
            !old(self)@.can_issue() ==> final(self)@ == old(self)@,
    {
        if self.next_id == usize::MAX {
            return Err(CallError::IdsExhausted);
        }
        let id = self.next_id;
        self.callbacks.insert(id, callback);
        self.next_id = id + 1;
        Ok(Message::new(command, arguments, id))
    }

    /// Withdraws the callback registered under `id`, and hands it back.
    pub fn cancel(&mut self, id: usize) -> (r: Option<C>)
        ensures
            r == (if old(self)@.callbacks.contains_key(id) {
                Some(old(self)@.callbacks[id])
            } else {
                None
            }),
            final(self)@ == (SessionView {
                callbacks: old(self)@.callbacks.remove(id),
                next_id: old(self)@.next_id,
            }),
    {
        self.callbacks.remove(&id)
    }

    /// Whether a callback waits under `id`.
    pub fn is_pending(&self, id: usize) -> (r: bool)
        ensures
            r == self@.callbacks.contains_key(id),
    {
        self.callbacks.contains_key(&id)
    }

    /// Routes a decoded message: a greeting is answered with the capability
    /// negotiation command under the next id; a reply takes the callback that
    /// waits under its id out of the registry; an event goes to the sink.
    pub fn dispatch(&mut self, msg: ReceivedMessage) -> (r: Dispatch<C>)
        ensures
            final(self)@ == old(self)@.after(msg@),
            outcome(old(self)@, msg@, r),
    {
        match msg {
            ReceivedMessage::Greeting(_) => match self.next_id() {
                Some(id) => Dispatch::Send(capabilities(id)),
                None => Dispatch::Failed(DispatchError::IdsExhausted),
            },
            ReceivedMessage::Return(reply) => {
                let reply = *reply;
                match reply.id {
                    Some(n) => match self.callbacks.remove(&n) {
                        Some(cb) => Dispatch::Resolve(cb, reply),
                        None => Dispatch::Unmatched(reply),
                    },
                    None => Dispatch::Unmatched(reply),
                }
            },
            ReceivedMessage::Event(event) => Dispatch::Notify(*event),
        }
    }

    /// Decodes one inbound line and routes the message it holds. A line that
    /// is not a message is reported and changes nothing.
    pub fn on_line(&mut self, line: String) -> (r: Dispatch<C>)
        ensures
            final(self)@ == old(self)@.after_line(line@),
            match decoded(line@) {
                Ok(m) => outcome(old(self)@, m, r),
                Err(cause) => r matches Dispatch::Malformed(e) && e.line == line && e.cause
                    == cause,
            },
    {
        match parse(line) {
            Ok(m) => self.dispatch(m),
            Err(e) => Dispatch::Malformed(e),
        }
    }
}


/// The session after a call with each of `callbacks`, in order, where no
/// reply arrived in between.
pub open spec fn call_all<C>(s: SessionView<C>, callbacks: Seq<C>) -> SessionView<C>
    decreases callbacks.len(),
{
    if callbacks.len() == 0 {
        s
    } else {
        call_all(s, callbacks.drop_last()).called(callbacks.last())
    }
}

/// Calls issued one after another from a fresh session, before any reply
/// arrives, get the ids 1, 2, 3, ...: the call at position `i` is issued id
/// `i + 1`, so ids increase by one and none repeats, and each callback waits
/// under its own id.
pub proof fn lemma_call_ids<C>(callbacks: Seq<C>)
    requires
        callbacks.len() < usize::MAX,
    ensures
        forall|i: int|
            0 <= i < callbacks.len() ==> (#[trigger] call_all(
                SessionView::<C>::fresh(),
                callbacks.take(i),
            )).next_id == i + 1 && call_all(SessionView::<C>::fresh(), callbacks.take(i)).can_issue(),
        call_all(SessionView::<C>::fresh(), callbacks).next_id == callbacks.len() + 1,
        forall|id: usize|
            #[trigger] call_all(SessionView::<C>::fresh(), callbacks).callbacks.contains_key(id)
                <==> 1 <= id <= callbacks.len(),
        forall|i: int|
            0 <= i < callbacks.len() ==> call_all(SessionView::<C>::fresh(), callbacks).callbacks[(i
                + 1) as usize] == #[trigger] callbacks[i],
    decreases callbacks.len(),
{
    if callbacks.len() > 0 {
        let rest = callbacks.drop_last();
        lemma_call_ids(rest);
        assert forall|i: int| 0 <= i < callbacks.len() implies (#[trigger] call_all(
            SessionView::<C>::fresh(),
            callbacks.take(i),
        )).next_id == i + 1 && call_all(SessionView::<C>::fresh(), callbacks.take(i)).can_issue() by {
            if i < rest.len() {
                assert(callbacks.take(i) =~= rest.take(i));
            } else {
                assert(callbacks.take(i) =~= rest);
            }
        }
        assert forall|i: int| 0 <= i < callbacks.len() implies call_all(
            SessionView::<C>::fresh(),
            callbacks,
        ).callbacks[(i + 1) as usize] == #[trigger] callbacks[i] by {
            if i < rest.len() {
                assert(rest[i] == callbacks[i]);
            }
        }
    }
}

/// A call never overwrites a registration: the id it issues is not registered
/// yet. Every step of a session keeps it well formed.
pub proof fn lemma_wf_kept<C>(s: SessionView<C>, m: ReceivedView, callback: C)
    requires
        s.wf(),
    ensures
        s.can_issue() ==> !s.callbacks.contains_key(s.next_id),
        s.can_issue() ==> s.called(callback).wf(),
        s.after(m).wf(),
{
}

/// A reply whose id has a waiting callback fires that callback, and only
/// once: afterwards the id is no longer registered, and the same reply
/// arriving again fires nothing.
pub proof fn lemma_reply_fires_once<C>(s: SessionView<C>, ret: JsonView, n: usize)
    requires
        s.callbacks.contains_key(n),
    ensures
        s.fires(ReceivedView::Return(ReturnView { ret, id: Some(n) })) == Some(s.callbacks[n]),
        !s.after(ReceivedView::Return(ReturnView { ret, id: Some(n) })).callbacks.contains_key(n),
        s.after(ReceivedView::Return(ReturnView { ret, id: Some(n) })).fires(
            ReceivedView::Return(ReturnView { ret, id: Some(n) }),
        ) is None,
{
}

/// A reply without an id, or whose id has no waiting callback (never
/// registered, or already resolved), fires nothing and leaves the session as
/// it was, so the lines after it are processed as if it had not come.
pub proof fn lemma_unmatched_reply<C>(s: SessionView<C>, ret: JsonView, id: Option<usize>)
    requires
        id is None || !s.callbacks.contains_key(id->0),
    ensures
        s.fires(ReceivedView::Return(ReturnView { ret, id })) is None,
        s.after(ReceivedView::Return(ReturnView { ret, id })) == s,
{
    if id is Some {
        assert(s.callbacks.remove(id->0) =~= s.callbacks);
    }
}

/// A line that is not a message, standing between two lines, changes nothing:
/// the line after it is dispatched as it would be without it.
pub proof fn lemma_malformed_line_skipped<C>(
    s: SessionView<C>,
    first: Seq<char>,
    bad: Seq<char>,
    second: Seq<char>,
)
    requires
        decoded(bad) is Err,
    ensures
        s.after_line(first).after_line(bad) == s.after_line(first),
        s.after_line(first).after_line(bad).after_line(second) == s.after_line(first).after_line(
            second,
        ),
        s.after_line(first).after_line(bad).line_fires(second) == s.after_line(first).line_fires(
            second,
        ),
{
}

} // verus!
