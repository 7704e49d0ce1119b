//! The decisions of a client: which bytes to send for a call or a
//! notification, and what to do with each message that arrives.
//!
//! The program around the library owns the transport. It writes the bytes
//! that `call` and `notify` return, reads with `Message::unpack`, hands
//! what each read gave to `on_read` and does what the reaction says. A
//! caller waits until `take` gives the delivery of its call.

use vstd::prelude::*;
use rmpv::Value;
use crate::message::{
    encode, read_view, DecodeError, Message, MessageView, Notification, NotificationView, Request,
    RequestView, Response, ResponseView,
};
use crate::pending::{AllocateError, Delivery, PendingTable, PendingView};
use crate::value::{models_of, string, ValueModel};

verus! {

/// The text of the error that answers a request which nobody is there to
/// handle.
pub open spec fn unexpected_request() -> Seq<char> {
    "unexpected request"@
}

/// The response that tells a peer that its request was not expected.
pub open spec fn refusal(id: u32) -> MessageView {
    MessageView::Response(
        ResponseView { id, result: Err(ValueModel::Str(unexpected_request())) },
    )
}

/// What the program has to do with a message that arrived.
#[derive(PartialEq, Debug)]
pub enum Reaction {
    /// The response went to the slot of the call with this id: wake its
    /// caller.
    Delivered(u32),
    /// No call waits for a response with this id: warn, and go on.
    Dropped(u32),
    /// The peer calls back: hand the request to the dispatcher.
    Dispatch(Request),
    /// The peer calls back and nobody handles requests: write these bytes,
    /// the response that says so.
    Refuse(Vec<u8>),
    /// Hand the notification to the sink.
    Notify(Notification),
    /// A notification without a sink: nothing to do.
    Ignored,
    /// Reading failed and the client is closed: wake every caller, stop
    /// reading and close the transport.
    Closed,
}

pub enum ReactionView {
    Delivered(u32),
    Dropped(u32),
    Dispatch(RequestView),
    Refuse(Seq<u8>),
    Notify(NotificationView),
    Ignored,
    Closed,
}

impl View for Reaction {
    type V = ReactionView;

    open spec fn view(&self) -> ReactionView {
        match *self {
            Reaction::Delivered(id) => ReactionView::Delivered(id),
            Reaction::Dropped(id) => ReactionView::Dropped(id),
            Reaction::Dispatch(r) => ReactionView::Dispatch(r@),
            Reaction::Refuse(bytes) => ReactionView::Refuse(bytes@),
            Reaction::Notify(n) => ReactionView::Notify(n@),
            Reaction::Ignored => ReactionView::Ignored,
            Reaction::Closed => ReactionView::Closed,
        }
    }
}

/// The client as mathematics.
pub struct ClientView {
    pub pending: PendingView,
    /// Whether a dispatcher handles the requests of the peer.
    pub dispatches: bool,
    /// Whether a sink takes the notifications of the peer.
    pub listens: bool,
}

impl ClientView {
    /// The reaction to a message.
    pub open spec fn reaction(self, message: MessageView) -> ReactionView {
        match message {
            MessageView::Response(r) => if self.pending.waiting(r.id) {
                ReactionView::Delivered(r.id)
            } else {
                ReactionView::Dropped(r.id)
            },
            MessageView::Request(r) => if self.dispatches {
                ReactionView::Dispatch(r)
            } else {
                ReactionView::Refuse(encode(refusal(r.id)))
            },
            MessageView::Notification(n) => if self.listens {
                ReactionView::Notify(n)
            } else {
                ReactionView::Ignored
            },
        }
    }

    /// The client after a message arrived: a response is delivered to the
    /// slot that waits for it, and nothing else changes.
    pub open spec fn received(self, message: MessageView) -> ClientView {
        match message {
            MessageView::Response(r) => ClientView {
                pending: self.pending.resolved(r.id, r.result),
                dispatches: self.dispatches,
                listens: self.listens,
            },
            _ => self,
        }
    }

    /// The client after it was closed: no call can be started, and every
    /// call that waits receives `Closed`.
    pub open spec fn closed(self) -> ClientView {
        ClientView {
            pending: self.pending.failed(),
            dispatches: self.dispatches,
            listens: self.listens,
        }
    }

    /// The reaction to what a read gave: to a message as `reaction` says;
    /// a read that failed, or bytes that are no message, close the client.
    pub open spec fn reaction_to_read(self, read: Result<MessageView, DecodeError>) -> ReactionView {
        match read {
            Ok(message) => self.reaction(message),
            Err(_) => ReactionView::Closed,
        }
    }

    /// The client after a read.
    pub open spec fn after_read(self, read: Result<MessageView, DecodeError>) -> ClientView {
        match read {
            Ok(message) => self.received(message),
            Err(_) => self.closed(),
        }
    }
}

/// The state of one client.
pub struct Client {
    pending: PendingTable,
    dispatches: bool,
    listens: bool,
}

impl View for Client {
    type V = ClientView;

    closed spec fn view(&self) -> ClientView {
        ClientView { pending: self.pending@, dispatches: self.dispatches, listens: self.listens }
    }
}

impl Client {
    /// A client without outstanding calls. `dispatches` says whether a
    /// dispatcher is installed for requests of the peer, `listens` whether
    /// a sink is installed for its notifications.
    pub fn new(dispatches: bool, listens: bool) -> (client: Self)
        ensures
            client@ == (ClientView {
                pending: PendingView { next_id: 0, closed: false, slots: Map::empty() },
                dispatches,
                listens,
            }),
    {
        Client { pending: PendingTable::new(), dispatches, listens }
    }

    /// Starts a call: reserves an id, opens its slot and gives the bytes
    /// of the request to write. Fails, and changes nothing, once the
    /// client is closed or while every id is outstanding.
    pub fn call(&mut self, method: &str, params: Vec<Value>) -> (r: Result<
        (u32, Vec<u8>),
        AllocateError,
    >)
        ensures
            final(self)@.dispatches == old(self)@.dispatches,
            final(self)@.listens == old(self)@.listens,
            match r {
                Ok((id, bytes)) => {
                    &&& !old(self)@.pending.closed
                    &&& old(self)@.pending.is_next_free(id)
                    &&& final(self)@.pending == old(self)@.pending.allocated(id)
                    &&& bytes@ == encode(
                        MessageView::Request(
                            RequestView { id, method: method@, params: models_of(params@) },
                        ),
                    )
                },
                Err(AllocateError::Closed) => {
                    &&& old(self)@.pending.closed
                    &&& final(self)@ == old(self)@
                },
                Err(AllocateError::Exhausted) => !old(self)@.pending.closed && (forall|id: u32|
                    old(self)@.pending.outstanding(id)) && final(self)@ == old(self)@,
            },
    {
        match self.pending.allocate() {
            Ok(id) => {
                let request = Message::Request(Request { id, method: method.to_owned(), params });
                Ok((id, request.pack()))
            },
            Err(e) => Err(e),
        }
    }

    /// The bytes of a notification to write. Nothing is reserved and no
    /// response will come.
    pub fn notify(&self, method: &str, params: Vec<Value>) -> (bytes: Vec<u8>)
        ensures
            bytes@ == encode(
                MessageView::Notification(
                    NotificationView { method: method@, params: models_of(params@) },
                ),
            ),
    {
        Message::Notification(Notification { method: method.to_owned(), params }).pack()
    }

    /// Takes in a message that arrived and says what to do with it.
    pub fn receive(&mut self, message: Message) -> (reaction: Reaction)
        ensures
            reaction@ == old(self)@.reaction(message@),
            final(self)@ == old(self)@.received(message@),
    {
        match message {
            Message::Response(Response { id, result }) => {
                if self.pending.resolve(id, result) {
                    Reaction::Delivered(id)
                } else {
                    Reaction::Dropped(id)
                }
            },
            Message::Request(request) => {
                if self.dispatches {
                    Reaction::Dispatch(request)
                } else {
                    let answer = Message::Response(
                        Response { id: request.id, result: Err(string("unexpected request")) },
                    );
                    Reaction::Refuse(answer.pack())
                }
            },
            Message::Notification(notification) => {
                if self.listens {
                    Reaction::Notify(notification)
                } else {
                    Reaction::Ignored
                }
            },
        }
    }

    /// Takes in what a read gave and says what to do next. A read that
    /// failed closes the client, whatever the failure: after a codec
    /// error the stream cannot be picked up again.
    pub fn on_read(&mut self, read: Result<Message, DecodeError>) -> (reaction: Reaction)
        ensures
            reaction@ == old(self)@.reaction_to_read(read_view(read)),
            final(self)@ == old(self)@.after_read(read_view(read)),
    {
        match read {
            Ok(message) => self.receive(message),
            Err(_) => {
                self.close();
                Reaction::Closed
            },
        }
    }

    /// Closes the client, after `close` of the user or when reading
    /// failed: every call that waits receives `Closed`, and no call can be
    /// started any more.
    pub fn close(&mut self)
        ensures
            final(self)@ == old(self)@.closed(),
    {
        self.pending.fail_all();
    }

    /// The caller's end of a call: takes its delivery, once there is one.
    pub fn take(&mut self, id: u32) -> (r: Option<Delivery>)
        ensures
            final(self)@.dispatches == old(self)@.dispatches,
            final(self)@.listens == old(self)@.listens,
            match r {
                Some(d) => old(self)@.pending.outstanding(id) && old(self)@.pending.slots[id]
                    == Some(d@) && final(self)@.pending == old(self)@.pending.taken(id),
                None => !(old(self)@.pending.outstanding(id) && old(self)@.pending.slots[id]
                    is Some) && final(self)@ == old(self)@,
            },
    {
        self.pending.take(id)
    }

    /// Whether the client is closed.
    pub fn is_closed(&self) -> (closed: bool)
        ensures
            closed == self@.pending.closed,
    {
        self.pending.is_closed()
    }

    /// Whether the call with this id still waits for its delivery.
    pub fn is_waiting(&self, id: u32) -> (waiting: bool)
        ensures
            waiting == self@.pending.waiting(id),
    {
        self.pending.is_waiting(id)
    }
}

} // verus!
