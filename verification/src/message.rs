//! The three messages of msgpack-RPC and their codec.
//!
//! A message goes over the wire as one msgpack array, its frame:
//!
//! - a request as `[0, id, method, params]`,
//! - a response as `[1, id, error, result]`, one of the two being nil,
//! - a notification as `[2, method, params]`.
//!
//! `frame_of` and `parse_frame` say what the frame of a message is and
//! which values are frames; `Message::to_value` and `Message::from_value`
//! compute them. `Message::pack` and `Message::unpack` add the msgpack
//! layer, which is `rmpv`'s.

use vstd::prelude::*;
use rmpv::Value;
use crate::value::{
    array, into_array, model_of, models_of, msgpack_bytes, msgpack_read, nil, read_value, string,
    uint, write_value, ReadError, ValueModel,
};

verus! {

/// A call that expects a response.
#[derive(PartialEq, Debug)]
pub struct Request {
    pub id: u32,
    pub method: String,
    pub params: Vec<Value>,
}

/// The answer to the request with the same id: `Ok` holds its result,
/// `Err` the error that the peer reports.
#[derive(PartialEq, Debug)]
pub struct Response {
    pub id: u32,
    pub result: Result<Value, Value>,
}

/// A call that expects no response.
#[derive(PartialEq, Debug)]
pub struct Notification {
    pub method: String,
    pub params: Vec<Value>,
}

#[derive(PartialEq, Debug)]
pub enum Message {
    Request(Request),
    Response(Response),
    Notification(Notification),
}

pub struct RequestView {
    pub id: u32,
    pub method: Seq<char>,
    pub params: Seq<ValueModel>,
}

pub struct ResponseView {
    pub id: u32,
    pub result: Result<ValueModel, ValueModel>,
}

pub struct NotificationView {
    pub method: Seq<char>,
    pub params: Seq<ValueModel>,
}

pub enum MessageView {
    Request(RequestView),
    Response(ResponseView),
    Notification(NotificationView),
}

/// The model of an outcome: of its result, or of its error.
pub open spec fn outcome_model(result: Result<Value, Value>) -> Result<ValueModel, ValueModel> {
    match result {
        Ok(v) => Ok(model_of(v)),
        Err(e) => Err(model_of(e)),
    }
}

impl View for Request {
    type V = RequestView;

    open spec fn view(&self) -> RequestView {
        RequestView { id: self.id, method: self.method@, params: models_of(self.params@) }
    }
}

impl View for Response {
    type V = ResponseView;

    open spec fn view(&self) -> ResponseView {
        ResponseView { id: self.id, result: outcome_model(self.result) }
    }
}

impl View for Notification {
    type V = NotificationView;

    open spec fn view(&self) -> NotificationView {
        NotificationView { method: self.method@, params: models_of(self.params@) }
    }
}

impl View for Message {
    type V = MessageView;

    open spec fn view(&self) -> MessageView {
        match *self {
            Message::Request(r) => MessageView::Request(r@),
            Message::Response(r) => MessageView::Response(r@),
            Message::Notification(n) => MessageView::Notification(n@),
        }
    }
}

impl MessageView {
    /// The type tag, the first element of the frame.
    pub open spec fn msgtype(self) -> int {
        match self {
            MessageView::Request(_) => 0,
            MessageView::Response(_) => 1,
            MessageView::Notification(_) => 2,
        }
    }

    /// A message is well formed unless it is a response whose error is
    /// nil: on the wire a nil error slot means that the call succeeded.
    pub open spec fn well_formed(self) -> bool {
        match self {
            MessageView::Response(r) => r.result != Err::<ValueModel, ValueModel>(ValueModel::Nil),
            _ => true,
        }
    }
}

/// The frame of a message.
pub open spec fn frame_of(m: MessageView) -> ValueModel {
    match m {
        MessageView::Request(r) => ValueModel::Array(
            seq![
                ValueModel::Int(0),
                ValueModel::Int(r.id as int),
                ValueModel::Str(r.method),
                ValueModel::Array(r.params),
            ],
        ),
        MessageView::Response(r) => ValueModel::Array(
            seq![
                ValueModel::Int(1),
                ValueModel::Int(r.id as int),
                match r.result {
                    Ok(_) => ValueModel::Nil,
                    Err(e) => e,
                },
                match r.result {
                    Ok(v) => v,
                    Err(_) => ValueModel::Nil,
                },
            ],
        ),
        MessageView::Notification(n) => ValueModel::Array(
            seq![ValueModel::Int(2), ValueModel::Str(n.method), ValueModel::Array(n.params)],
        ),
    }
}

/// Whether a value is an id: an integer that fits 32 bits unsigned.
pub open spec fn is_id(v: ValueModel) -> bool {
    v matches ValueModel::Int(n) && 0 <= n <= u32::MAX
}

/// The message that a value is the frame of, if it is one.
///
/// The value must be an array of four elements that starts with 0 or 1,
/// or of three that starts with 2. An id must fit 32 bits, a method must
/// be a string, and parameters an array. In a response a nil error slot
/// means success; an error that is not nil wins over whatever stands in
/// the result slot, which is then dropped.
pub open spec fn parse_frame(v: ValueModel) -> Option<MessageView> {
    match v {
        ValueModel::Array(a) => if a.len() == 4 && a[0] == ValueModel::Int(0) && is_id(a[1])
            && a[2] is Str && a[3] is Array {
            Some(
                MessageView::Request(
                    RequestView {
                        id: a[1]->Int_0 as u32,
                        method: a[2]->Str_0,
                        params: a[3]->Array_0,
                    },
                ),
            )
        } else if a.len() == 4 && a[0] == ValueModel::Int(1) && is_id(a[1]) {
            Some(
                MessageView::Response(
                    ResponseView {
                        id: a[1]->Int_0 as u32,
                        result: if a[2] is Nil {
                            Ok(a[3])
                        } else {
                            Err(a[2])
                        },
                    },
                ),
            )
        } else if a.len() == 3 && a[0] == ValueModel::Int(2) && a[1] is Str && a[2] is Array {
            Some(
                MessageView::Notification(
                    NotificationView { method: a[1]->Str_0, params: a[2]->Array_0 },
                ),
            )
        } else {
            None
        },
        _ => None,
    }
}

/// Why bytes could not be decoded as a message.
#[derive(Clone, Copy, Debug, PartialEq, Eq, Structural)]
pub enum DecodeError {
    /// The bytes end inside the message.
    Truncated,
    /// The bytes hold a msgpack value that is no message, or one that
    /// nests too deep to be read.
    Malformed,
    /// The reader failed.
    IoError,
}

/// The decoding error that stands for a failure to read a value.
pub open spec fn decode_error_of(e: ReadError) -> DecodeError {
    match e {
        ReadError::Truncated => DecodeError::Truncated,
        ReadError::TooDeep => DecodeError::Malformed,
        ReadError::Io => DecodeError::IoError,
    }
}

/// The bytes of a message: the msgpack encoding of its frame.
pub open spec fn encode(m: MessageView) -> Seq<u8> {
    msgpack_bytes(frame_of(m))
}

/// The message at the start of a byte string and the number of bytes it
/// takes, or the reason why there is none.
pub open spec fn decode(bytes: Seq<u8>) -> Result<(MessageView, nat), DecodeError> {
    match msgpack_read(bytes) {
        Ok((v, n)) => match parse_frame(v) {
            Some(m) => Ok((m, n)),
            None => Err(DecodeError::Malformed),
        },
        Err(e) => Err(decode_error_of(e)),
    }
}

/// Whether `v` is a frame of `m`: the frame that `frame_of` gives, or, for
/// a response that reports an error, that frame with anything in its
/// result slot.
pub open spec fn is_frame_of(v: ValueModel, m: MessageView) -> bool {
    ||| v == frame_of(m)
    ||| {
        &&& m matches MessageView::Response(r)
        &&& r.result is Err
        &&& v matches ValueModel::Array(a)
        &&& a.len() == 4
        &&& ValueModel::Array(a.update(3, ValueModel::Nil)) == frame_of(m)
    }
}

/// Decoding inverts encoding at the level of values: the frame of a well
/// formed message parses as that message.
pub proof fn lemma_parse_inverts_frame(m: MessageView)
    requires
        m.well_formed(),
    ensures
        parse_frame(frame_of(m)) == Some(m),
{
    match m {
        MessageView::Request(r) => {
            assert(r.id as int as u32 == r.id);
        },
        MessageView::Response(r) => {
            assert(r.id as int as u32 == r.id);
        },
        MessageView::Notification(_) => {},
    }
}

/// No value parses as a message unless it is a frame of that message, and
/// every message that comes out of parsing is well formed.
pub proof fn lemma_parse_accepts_frames_only(v: ValueModel)
    ensures
        parse_frame(v) matches Some(m) ==> m.well_formed() && is_frame_of(v, m),
{
    if let Some(m) = parse_frame(v) {
        let a = v->Array_0;
        match m {
            MessageView::Request(r) => {
                assert(a =~= frame_of(m)->Array_0);
            },
            MessageView::Response(r) => {
                if a[2] is Nil {
                    assert(a =~= frame_of(m)->Array_0);
                } else {
                    assert(a.update(3, ValueModel::Nil) =~= frame_of(m)->Array_0);
                }
            },
            MessageView::Notification(n) => {
                assert(a =~= frame_of(m)->Array_0);
            },
        }
    }
}

/// A response that was decoded is a success exactly if the error slot of
/// its frame is nil.
pub proof fn lemma_response_ok_iff_error_slot_nil(v: ValueModel)
    ensures
        parse_frame(v) matches Some(MessageView::Response(r)) ==> (r.result is Ok
            <==> v->Array_0[2] is Nil),
{
}

/// Bytes decode as a message only if they start with the msgpack encoding
/// of a value that is a frame of that message; the count returned is the
/// length of that encoding. Whatever else the bytes hold gives an error.
pub proof fn lemma_decode_accepts_frames_only(bytes: Seq<u8>)
    ensures
        decode(bytes) matches Ok((m, n)) ==> m.well_formed() && (msgpack_read(bytes) matches Ok(
            (v, k),
        ) && k == n && is_frame_of(v, m)),
        decode(bytes) is Err ==> !(msgpack_read(bytes) matches Ok((v, k)) && parse_frame(v) is Some),
{
    if let Ok((v, k)) = msgpack_read(bytes) {
        lemma_parse_accepts_frames_only(v);
    }
}

/// Decoding inverts encoding, as far as the msgpack layer does: if the
/// bytes written for the frame of a well formed message `m`, followed by
/// `rest`, read back as that frame and as all of those bytes, then they
/// decode as `m`, and the count returned is where `rest` begins.
pub proof fn lemma_decode_inverts_encode(m: MessageView, rest: Seq<u8>)
    requires
        m.well_formed(),
    ensures
        msgpack_read(encode(m) + rest) == Ok::<(ValueModel, nat), ReadError>(
            (frame_of(m), encode(m).len()),
        ) ==> decode(encode(m) + rest) == Ok::<(MessageView, nat), DecodeError>(
            (m, encode(m).len()),
        ),
{
    lemma_parse_inverts_frame(m);
}

/// The view of what a read gave: of the message, or the error as it is.
pub open spec fn read_view(read: Result<Message, DecodeError>) -> Result<MessageView, DecodeError> {
    match read {
        Ok(m) => Ok(m@),
        Err(e) => Err(e),
    }
}

/// A copy of each value, in the same order.
pub fn clone_values(items: &Vec<Value>) -> (copy: Vec<Value>)
    ensures
        models_of(copy@) == models_of(items@),
{
    let mut copy: Vec<Value> = Vec::new();
    let mut i: usize = 0;
    while i < items.len()
        invariant
            i <= items.len(),
            copy.len() == i,
            forall|j: int| 0 <= j < i ==> model_of(copy@[j]) == model_of(items@[j]),
        decreases items.len() - i,
    {
        copy.push(items[i].clone());
        i += 1;
    }
    assert(models_of(copy@) =~= models_of(items@));
    copy
}

impl Clone for Request {
    fn clone(&self) -> (copy: Self)
        ensures
            copy@ == self@,
    {
        Request { id: self.id, method: self.method.clone(), params: clone_values(&self.params) }
    }
}

impl Clone for Response {
    fn clone(&self) -> (copy: Self)
        ensures
            copy@ == self@,
    {
        match &self.result {
            Ok(v) => Response { id: self.id, result: Ok(v.clone()) },
            Err(e) => Response { id: self.id, result: Err(e.clone()) },
        }
    }
}

impl Clone for Notification {
    fn clone(&self) -> (copy: Self)
        ensures
            copy@ == self@,
    {
        Notification { method: self.method.clone(), params: clone_values(&self.params) }
    }
}

impl Clone for Message {
    fn clone(&self) -> (copy: Self)
        ensures
            copy@ == self@,
    {
        match self {
            Message::Request(r) => Message::Request(r.clone()),
            Message::Response(r) => Message::Response(r.clone()),
            Message::Notification(n) => Message::Notification(n.clone()),
        }
    }
}

impl Message {
    /// The type tag of the message: 0 for a request, 1 for a response, 2
    /// for a notification.
    pub fn msgtype(&self) -> (tag: i32)
        ensures
            tag == self@.msgtype(),
    {
        match self {
            Message::Request(_) => 0,
            Message::Response(_) => 1,
            Message::Notification(_) => 2,
        }
    }

    /// The frame of the message, as a value.
    pub fn to_value(&self) -> (v: Value)
        ensures
            model_of(v) == frame_of(self@),
    {
        let mut items: Vec<Value> = Vec::new();
        match self {
            Message::Request(r) => {
                items.push(uint(0));
                items.push(uint(r.id as u64));
                items.push(string(r.method.as_str()));
                items.push(array(clone_values(&r.params)));
                assert(models_of(items@) =~= frame_of(self@)->Array_0);
            },
            Message::Response(r) => {
                items.push(uint(1));
                items.push(uint(r.id as u64));
                match &r.result {
                    Ok(v) => {
                        items.push(nil());
                        items.push(v.clone());
                    },
                    Err(e) => {
                        items.push(e.clone());
                        items.push(nil());
                    },
                }
                assert(models_of(items@) =~= frame_of(self@)->Array_0);
            },
            Message::Notification(n) => {
                items.push(uint(2));
                items.push(string(n.method.as_str()));
                items.push(array(clone_values(&n.params)));
                assert(models_of(items@) =~= frame_of(self@)->Array_0);
            },
        }
        array(items)
    }

    /// The message that `v` is the frame of. Every other value is
    /// `Malformed`.
    pub fn from_value(v: Value) -> (r: Result<Message, DecodeError>)
        ensures
            match r {
                Ok(m) => parse_frame(model_of(v)) == Some(m@),
                Err(e) => e == DecodeError::Malformed && parse_frame(model_of(v)) is None,
            },
    {
        let mut items = match into_array(v) {
            Some(items) => items,
            None => { return Err(DecodeError::Malformed); },
        };
        let n = items.len();
        if n != 3 && n != 4 {
            return Err(DecodeError::Malformed);
        }
        let tag = match items[0].as_u64() {
            Some(tag) => tag,
            None => { return Err(DecodeError::Malformed); },
        };
        if n == 4 && tag <= 1 {
            let id = match items[1].as_u64() {
                Some(id) if id <= u32::MAX as u64 => id as u32,
                _ => { return Err(DecodeError::Malformed); },
            };
            if tag == 0 {
                let method = match items[2].as_str() {
                    Some(s) => s.to_owned(),
                    None => { return Err(DecodeError::Malformed); },
                };
                let last = match items.pop() {
                    Some(last) => last,
                    None => { return Err(DecodeError::Malformed); },
                };
                match into_array(last) {
                    Some(params) => Ok(Message::Request(Request { id, method, params })),
                    None => Err(DecodeError::Malformed),
                }
            } else {
                let result = match items.pop() {
                    Some(result) => result,
                    None => { return Err(DecodeError::Malformed); },
                };
                let error = match items.pop() {
                    Some(error) => error,
                    None => { return Err(DecodeError::Malformed); },
                };
                if error.is_nil() {
                    Ok(Message::Response(Response { id, result: Ok(result) }))
                } else {
                    Ok(Message::Response(Response { id, result: Err(error) }))
                }
            }
        } else if n == 3 && tag == 2 {
            let method = match items[1].as_str() {
                Some(s) => s.to_owned(),
                None => { return Err(DecodeError::Malformed); },
            };
            let last = match items.pop() {
                Some(last) => last,
                None => { return Err(DecodeError::Malformed); },
            };
            match into_array(last) {
                Some(params) => Ok(Message::Notification(Notification { method, params })),
                None => Err(DecodeError::Malformed),
            }
        } else {
            Err(DecodeError::Malformed)
        }
    }

    /// The bytes of the message.
    pub fn pack(&self) -> (bytes: Vec<u8>)
        ensures
            bytes@ == encode(self@),
    {
        let v = self.to_value();
        write_value(&v)
    }

    /// Decodes the message at the start of `bytes` and says how many
    /// bytes it took: the next message, if any, starts right after them.
    pub fn unpack(bytes: &[u8]) -> (r: Result<(Message, usize), DecodeError>)
        ensures
            match r {
                Ok((m, n)) => decode(bytes@) == Ok::<(MessageView, nat), DecodeError>(
                    (m@, n as nat),
                ) && n <= bytes@.len(),
                Err(e) => decode(bytes@) == Err::<(MessageView, nat), DecodeError>(e),
            },
    {
        match read_value(bytes) {
            Ok((v, n)) => match Message::from_value(v) {
                Ok(m) => Ok((m, n)),
                Err(e) => Err(e),
            },
            Err(ReadError::Truncated) => Err(DecodeError::Truncated),
            Err(ReadError::TooDeep) => Err(DecodeError::Malformed),
            Err(ReadError::Io) => Err(DecodeError::IoError),
        }
    }
}

} // verus!
