//! The decisions of a server connection, and the traits that a handler of
//! calls implements.
//!
//! The program around the library accepts connections and reads bytes. For
//! each connection it keeps a `Connection`, hands it what `Message::unpack`
//! made of the bytes, and does what the step says: a call or a
//! notification goes to the dispatcher on a task of its own, so that a slow
//! handler holds up nothing. When a handler is done, `respond` gives the
//! bytes to write back, or nothing if the connection has ended meanwhile.

use vstd::prelude::*;
use rmpv::Value;
use crate::client::{Client, ClientView, Reaction, ReactionView};
use crate::message::{
    encode, frame_of, lemma_parse_inverts_frame, outcome_model, parse_frame, read_view,
    DecodeError, Message, MessageView, Notification, NotificationView, Request, RequestView,
    Response, ResponseView,
};
use crate::pending::{AllocateError, Delivery, DeliveryView, PendingView};
use crate::value::{models_of, string, ValueModel};

verus! {

/// A target of calls.
///
/// An implementor looks at the method and answers with a result or with
/// an error; both go back to the caller as they are.
pub trait Dispatch {
    /// Answers a call.
    fn dispatch(&mut self, method: &str, args: Vec<Value>) -> Result<Value, Value>;

    /// Takes a notification. Nothing goes back; unless an implementor
    /// says otherwise, nothing is done and the target stays as it is.
    fn notify(&mut self, method: &str, args: Vec<Value>)
        default_ensures
            &*final(self) == &*old(self),
    {
    }
}

/// A target of calls that may call back: it is handed `peer`, a handle on
/// the connection that the call came over.
pub trait BidirectionalDispatch<P>: Sized {
    /// What the target does with a call: whether, handed `peer`, it may
    /// answer with `outcome`. `target` is the reference that the call
    /// holds on the target. Each implementor says this of itself. A body
    /// cannot read from `target` what the target is after the call: it
    /// says so through `call_ensures` of the function that does the work,
    /// handing it `target`, as the implementation for every `Dispatch`
    /// below does.
    spec fn answers(
        target: &mut Self,
        peer: P,
        method: &str,
        args: Vec<Value>,
        outcome: Result<Value, Value>,
    ) -> bool;

    /// What the target does with a notification: whether, handed `peer`,
    /// it may take it so. `target` is the reference that the call holds
    /// on the target; what was said of `answers` holds here too.
    spec fn takes(target: &mut Self, peer: P, method: &str, args: Vec<Value>) -> bool;

    /// Answers a call, as `answers` says of a reference to the target as
    /// it was before the call and as it is after.
    fn dispatch(&mut self, peer: P, method: &str, args: Vec<Value>) -> (outcome: Result<
        Value,
        Value,
    >)
        ensures
            exists|target: &mut Self| #[trigger]
                Self::answers(target, peer, method, args, outcome) && mut_ref_current(target)
                    == *old(self) && mut_ref_future(target) == *final(self),
    ;

    /// Takes a notification, as `takes` says of a reference to the target
    /// as it was before the call and as it is after.
    fn notify(&mut self, peer: P, method: &str, args: Vec<Value>)
        ensures
            exists|target: &mut Self| #[trigger]
                Self::takes(target, peer, method, args) && mut_ref_current(target) == *old(self)
                    && mut_ref_future(target) == *final(self),
    ;
}

/// A target that never calls back serves where one that may is asked for:
/// it leaves the handle unused and does what it does as a `Dispatch`.
impl<P, D: Dispatch> BidirectionalDispatch<P> for D {
    /// The answer is one that `Dispatch::dispatch` gives to the same
    /// method and arguments, with the same change of the target. The
    /// handle plays no part.
    open spec fn answers(
        target: &mut Self,
        peer: P,
        method: &str,
        args: Vec<Value>,
        outcome: Result<Value, Value>,
    ) -> bool {
        call_ensures(<D as Dispatch>::dispatch, (target, method, args), outcome)
    }

    /// The notification is taken as `Dispatch::notify` takes the same
    /// method and arguments, with the same change of the target.
    open spec fn takes(target: &mut Self, peer: P, method: &str, args: Vec<Value>) -> bool {
        call_ensures(<D as Dispatch>::notify, (target, method, args), ())
    }

    fn dispatch(&mut self, peer: P, method: &str, args: Vec<Value>) -> Result<Value, Value> {
        let outcome = Dispatch::dispatch(self, method, args);
        proof {
            let target = choose|target: &mut D| #[trigger]
                call_ensures(<D as Dispatch>::dispatch, (target, method, args), outcome)
                    && mut_ref_current(target) == *old(self) && mut_ref_future(target) == *self;
            assert(Self::answers(target, peer, method, args, outcome));
        }
        outcome
    }

    fn notify(&mut self, peer: P, method: &str, args: Vec<Value>) {
        Dispatch::notify(self, method, args);
        proof {
            let target = choose|target: &mut D| #[trigger]
                call_ensures(<D as Dispatch>::notify, (target, method, args), ())
                    && mut_ref_current(target) == *old(self) && mut_ref_future(target) == *self;
            assert(Self::takes(target, peer, method, args));
        }
    }
}

/// How a handler ended.
#[derive(PartialEq, Debug)]
pub enum Completion {
    /// It returned this outcome.
    Returned(Result<Value, Value>),
    /// It panicked, with this message.
    Panicked(String),
}

pub enum CompletionView {
    Returned(Result<ValueModel, ValueModel>),
    Panicked(Seq<char>),
}

impl View for Completion {
    type V = CompletionView;

    open spec fn view(&self) -> CompletionView {
        match *self {
            Completion::Returned(outcome) => CompletionView::Returned(outcome_model(outcome)),
            Completion::Panicked(message) => CompletionView::Panicked(message@),
        }
    }
}

/// The outcome that the caller is sent: what the handler returned, or, for
/// a handler that panicked, the error "internal error: " with the message
/// of the panic.
pub open spec fn outcome_of(completion: CompletionView) -> Result<ValueModel, ValueModel> {
    match completion {
        CompletionView::Returned(outcome) => outcome,
        CompletionView::Panicked(message) => Err(ValueModel::Str("internal error: "@ + message)),
    }
}

/// The response to the call `id` whose handler ended with `completion`.
pub open spec fn answer(id: u32, completion: CompletionView) -> MessageView {
    MessageView::Response(ResponseView { id, result: outcome_of(completion) })
}

/// What the program has to do after a read.
#[derive(PartialEq, Debug)]
pub enum Step {
    /// Run the dispatcher on this call, on a fresh task, and hand how it
    /// ended to `respond`.
    Call(Request),
    /// Run the dispatcher on this notification, on a fresh task.
    Notify(Notification),
    /// A response to a call that this side made went to its slot: wake
    /// the caller.
    Delivered(u32),
    /// A response that no call of this side waits for: warn, and go on.
    Dropped(u32),
    /// The connection has ended: stop reading and close the transport.
    Close,
}

pub enum StepView {
    Call(RequestView),
    Notify(NotificationView),
    Delivered(u32),
    Dropped(u32),
    Close,
}

impl View for Step {
    type V = StepView;

    open spec fn view(&self) -> StepView {
        match *self {
            Step::Call(r) => StepView::Call(r@),
            Step::Notify(n) => StepView::Notify(n@),
            Step::Delivered(id) => StepView::Delivered(id),
            Step::Dropped(id) => StepView::Dropped(id),
            Step::Close => StepView::Close,
        }
    }
}

/// A connection as mathematics: whether it still reads, and the calls
/// that this side has made to the peer.
pub struct ConnectionView {
    pub open: bool,
    pub pending: PendingView,
}

impl ConnectionView {
    /// The step after a read. A connection that has ended stays ended. A
    /// read that failed, or bytes that are no message, end it: after a
    /// codec error the stream cannot be picked up again.
    pub open spec fn step(self, read: Result<MessageView, DecodeError>) -> StepView {
        if !self.open {
            StepView::Close
        } else {
            match read {
                Err(_) => StepView::Close,
                Ok(MessageView::Request(r)) => StepView::Call(r),
                Ok(MessageView::Notification(n)) => StepView::Notify(n),
                Ok(MessageView::Response(r)) => if self.pending.waiting(r.id) {
                    StepView::Delivered(r.id)
                } else {
                    StepView::Dropped(r.id)
                },
            }
        }
    }

    /// The connection after a read.
    pub open spec fn after(self, read: Result<MessageView, DecodeError>) -> ConnectionView {
        if !self.open {
            self
        } else {
            match read {
                Err(_) => self.closed(),
                Ok(MessageView::Response(r)) => ConnectionView {
                    open: true,
                    pending: self.pending.resolved(r.id, r.result),
                },
                Ok(_) => self,
            }
        }
    }

    /// The connection after it ended: it reads no more, and every call of
    /// this side that waits receives `Closed`.
    pub open spec fn closed(self) -> ConnectionView {
        ConnectionView { open: false, pending: self.pending.failed() }
    }

    /// The bytes to write when a handler is done: the response, while the
    /// connection is open, and nothing once it has ended.
    pub open spec fn response(self, id: u32, completion: CompletionView) -> Option<Seq<u8>> {
        if self.open {
            Some(encode(answer(id, completion)))
        } else {
            None
        }
    }
}

/// The state of one connection of a server.
pub struct Connection {
    peer: Client,
}

impl View for Connection {
    type V = ConnectionView;

    closed spec fn view(&self) -> ConnectionView {
        ConnectionView { open: !self.peer@.pending.closed, pending: self.peer@.pending }
    }
}

impl Connection {
    #[verifier::type_invariant]
    spec fn serves(self) -> bool {
        &&& self.peer@.dispatches
        &&& self.peer@.listens
    }

    /// A connection that was just accepted.
    pub fn new() -> (connection: Self)
        ensures
            connection@ == (ConnectionView {
                open: true,
                pending: PendingView { next_id: 0, closed: false, slots: Map::empty() },
            }),
    {
        Connection { peer: Client::new(true, true) }
    }

    /// Whether the connection still reads.
    pub fn is_open(&self) -> (open: bool)
        ensures
            open == self@.open,
    {
        !self.peer.is_closed()
    }

    /// Takes in what a read gave and says what to do next.
    pub fn on_read(&mut self, read: Result<Message, DecodeError>) -> (step: Step)
        ensures
            step@ == old(self)@.step(read_view(read)),
            final(self)@ == old(self)@.after(read_view(read)),
    {
        proof {
            use_type_invariant(&*self);
        }
        if self.peer.is_closed() {
            return Step::Close;
        }
        match read {
            Err(_) => {
                self.close();
                Step::Close
            },
            Ok(message) => {
                let mut peer = Client::new(true, true);
                core::mem::swap(&mut peer, &mut self.peer);
                let reaction = peer.receive(message);
                self.peer = peer;
                match reaction {
                    Reaction::Dispatch(request) => Step::Call(request),
                    Reaction::Notify(notification) => Step::Notify(notification),
                    Reaction::Delivered(id) => Step::Delivered(id),
                    Reaction::Dropped(id) => Step::Dropped(id),
                    Reaction::Refuse(_) => Step::Close,
                    Reaction::Ignored => Step::Close,
                    Reaction::Closed => Step::Close,
                }
            },
        }
    }

    /// The bytes to write back for the call `id`, whose handler ended
    /// with `completion`; `None` once the connection has ended, when the
    /// response is discarded.
    pub fn respond(&self, id: u32, completion: Completion) -> (bytes: Option<Vec<u8>>)
        ensures
            match bytes {
                Some(b) => self@.response(id, completion@) == Some(b@),
                None => self@.response(id, completion@) is None,
            },
    {
        if self.peer.is_closed() {
            return None;
        }
        let result = match completion {
            Completion::Returned(outcome) => outcome,
            Completion::Panicked(message) => {
                let mut text = "internal error: ".to_owned();
                text.append(message.as_str());
                Err(string(text.as_str()))
            },
        };
        Some(Message::Response(Response { id, result }).pack())
    }

    /// Ends the connection: on a read error, when the peer has gone, or
    /// when the server shuts down.
    pub fn close(&mut self)
        ensures
            final(self)@ == old(self)@.closed(),
    {
        proof {
            use_type_invariant(&*self);
        }
        let mut peer = Client::new(true, true);
        core::mem::swap(&mut peer, &mut self.peer);
        peer.close();
        self.peer = peer;
    }

    /// Starts a call to the peer of this connection, for a handler that
    /// calls back: reserves an id and gives the bytes of the request to
    /// write. Fails, and changes nothing, once the connection has ended
    /// or while every id is outstanding.
    pub fn call(&mut self, method: &str, params: Vec<Value>) -> (r: Result<
        (u32, Vec<u8>),
        AllocateError,
    >)
        ensures
            final(self)@.open == old(self)@.open,
            match r {
                Ok((id, bytes)) => {
                    &&& old(self)@.open
                    &&& old(self)@.pending.is_next_free(id)
                    &&& final(self)@.pending == old(self)@.pending.allocated(id)
                    &&& bytes@ == encode(
                        MessageView::Request(
                            RequestView { id, method: method@, params: models_of(params@) },
                        ),
                    )
                },
                Err(AllocateError::Closed) => !old(self)@.open && final(self)@ == old(self)@,
                Err(AllocateError::Exhausted) => old(self)@.open && (forall|id: u32|
                    old(self)@.pending.outstanding(id)) && final(self)@ == old(self)@,
            },
    {
        proof {
            use_type_invariant(&*self);
        }
        let mut peer = Client::new(true, true);
        core::mem::swap(&mut peer, &mut self.peer);
        let r = peer.call(method, params);
        self.peer = peer;
        r
    }

    /// The caller's end of a call to the peer: takes its delivery, once
    /// there is one.
    pub fn take(&mut self, id: u32) -> (r: Option<Delivery>)
        ensures
            final(self)@.open == old(self)@.open,
            match r {
                Some(d) => old(self)@.pending.outstanding(id) && old(self)@.pending.slots[id]
                    == Some(d@) && final(self)@.pending == old(self)@.pending.taken(id),
                None => !(old(self)@.pending.outstanding(id) && old(self)@.pending.slots[id]
                    is Some) && final(self)@ == old(self)@,
            },
    {
        proof {
            use_type_invariant(&*self);
        }
        let mut peer = Client::new(true, true);
        core::mem::swap(&mut peer, &mut self.peer);
        let r = peer.take(id);
        self.peer = peer;
        r
    }
}

/// A call comes back with what its handler returned. Let a client start
/// the call `id` of `method` with `params`. An open connection that reads
/// the frame of that request hands the same method and parameters to the
/// dispatcher. Let the handler return `outcome`. The client that reads the
/// frame of the response delivers `outcome` to the slot of `id`, and the
/// caller takes just that.
///
/// An error that is nil is left out: the wire cannot tell it from a
/// success.
pub proof fn lemma_call_returns_the_outcome_of_its_handler(
    client: ClientView,
    server: ConnectionView,
    id: u32,
    method: Seq<char>,
    params: Seq<ValueModel>,
    outcome: Result<ValueModel, ValueModel>,
)
    requires
        client.pending.is_next_free(id),
        server.open,
        outcome != Err::<ValueModel, ValueModel>(ValueModel::Nil),
    ensures
        ({
            let request = MessageView::Request(RequestView { id, method, params });
            let calling = ClientView {
                pending: client.pending.allocated(id),
                dispatches: client.dispatches,
                listens: client.listens,
            };
            let response = answer(id, CompletionView::Returned(outcome));
            let done = calling.received(response);
            &&& parse_frame(frame_of(request)) == Some(request)
            &&& server.step(Ok(request)) == StepView::Call(RequestView { id, method, params })
            &&& server.after(Ok(request)).response(id, CompletionView::Returned(outcome)) == Some(
                encode(response),
            )
            &&& parse_frame(frame_of(response)) == Some(response)
            &&& calling.reaction(response) == ReactionView::Delivered(id)
            &&& done.pending.slots[id] == Some(DeliveryView::Outcome(outcome))
            &&& done.pending.taken(id).slots == client.pending.slots.remove(id)
        }),
{
    let request = MessageView::Request(RequestView { id, method, params });
    let response = answer(id, CompletionView::Returned(outcome));
    lemma_parse_inverts_frame(request);
    lemma_parse_inverts_frame(response);
    let calling = ClientView {
        pending: client.pending.allocated(id),
        dispatches: client.dispatches,
        listens: client.listens,
    };
    let done = calling.received(response);
    assert(done.pending.taken(id).slots =~= client.pending.slots.remove(id));
}

} // verus!
