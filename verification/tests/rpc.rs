use msgpack_rpc::{
    AllocateError, BidirectionalDispatch, Client, Completion, Connection, DecodeError, Delivery,
    Dispatch, Message, Notification, Reaction, Request, Response, Step,
};
use rmpv::Value;

#[derive(Clone, Default)]
struct EchoServer {
    notified: Vec<(String, Vec<Value>)>,
}

impl Dispatch for EchoServer {
    fn dispatch(&mut self, method: &str, args: Vec<Value>) -> Result<Value, Value> {
        match method {
            "echo" => Ok(Value::Array(args.to_owned())),
            _ => Err(Value::from("Invalid method name.".to_owned())),
        }
    }

    fn notify(&mut self, method: &str, args: Vec<Value>) {
        self.notified.push((method.to_owned(), args));
    }
}

#[derive(Clone, Default)]
struct SleepServer;

impl Dispatch for SleepServer {
    fn dispatch(&mut self, method: &str, args: Vec<Value>) -> Result<Value, Value> {
        match method {
            "sleep" => match args.first().and_then(|secs| secs.as_u64()) {
                Some(secs) => Ok(Value::from(secs)),
                None => Err(Value::from(format!("Invalid parameters: {:?}", args))),
            },
            _ => Err(Value::from(format!("Invalid method: {}", method))),
        }
    }
}

#[derive(Debug, PartialEq)]
struct Quiet {
    calls: u32,
}

impl Dispatch for Quiet {
    fn dispatch(&mut self, _method: &str, _args: Vec<Value>) -> Result<Value, Value> {
        self.calls += 1;
        Ok(Value::Nil)
    }
}

/// Reads one message from `wire` and takes it off.
fn read(wire: &mut Vec<u8>) -> Message {
    let (message, taken) = Message::unpack(wire).unwrap();
    wire.drain(..taken);
    message
}

/// Lets the server read a request from `wire` and run `dispatcher` on it;
/// gives the id and how the handler ended.
fn serve<D: Dispatch>(
    connection: &mut Connection,
    dispatcher: &mut D,
    wire: &mut Vec<u8>,
) -> (u32, Completion) {
    match connection.on_read(Ok(read(wire))) {
        Step::Call(Request { id, method, params }) => {
            let outcome = BidirectionalDispatch::dispatch(dispatcher, (), &method, params);
            (id, Completion::Returned(outcome))
        }
        step => panic!("not a call: {:?}", step),
    }
}

/// Hands the response for a call to the client and gives what the caller
/// takes.
fn deliver(
    connection: &Connection,
    client: &mut Client,
    id: u32,
    completion: Completion,
) -> Option<Delivery> {
    let mut back = connection.respond(id, completion).unwrap();
    assert_eq!(client.receive(read(&mut back)), Reaction::Delivered(id));
    assert!(back.is_empty());
    client.take(id)
}

#[test]
fn echo() {
    let mut connection = Connection::new();
    let mut client = Client::new(false, false);
    let mut dispatcher = EchoServer::default();

    let (id, mut wire) =
        client.call("echo", vec![Value::from("Hello, world!".to_owned())]).unwrap();
    assert_eq!(id, 0);
    let (served, completion) = serve(&mut connection, &mut dispatcher, &mut wire);
    assert_eq!(served, id);
    let result = deliver(&connection, &mut client, id, completion);
    assert_eq!(
        result,
        Some(Delivery::Outcome(Ok(Value::Array(vec![Value::from("Hello, world!".to_owned())]))))
    );
}

#[test]
fn invalid_method_name() {
    let mut connection = Connection::new();
    let mut client = Client::new(false, false);
    let mut dispatcher = EchoServer::default();

    let (id, mut wire) = client.call("bad_method", vec![]).unwrap();
    let (_, completion) = serve(&mut connection, &mut dispatcher, &mut wire);
    let result = deliver(&connection, &mut client, id, completion);
    assert_eq!(
        result,
        Some(Delivery::Outcome(Err(Value::from("Invalid method name.".to_owned()))))
    );
}

#[test]
fn unknown_method() {
    let mut connection = Connection::new();
    let mut client = Client::new(false, false);
    let mut dispatcher = EchoServer::default();

    let (id, mut wire) = client.call("bad", vec![]).unwrap();
    let (_, completion) = serve(&mut connection, &mut dispatcher, &mut wire);
    let result = deliver(&connection, &mut client, id, completion);
    assert_eq!(result, Some(Delivery::Outcome(Err(Value::from("Invalid method name.")))));
}

#[test]
fn short_call_returns_before_long_call() {
    let mut connection = Connection::new();
    let mut client = Client::new(false, false);
    let mut dispatcher = SleepServer;

    let (long, long_bytes) = client.call("sleep", vec![Value::from(10_000)]).unwrap();
    let (short, short_bytes) = client.call("sleep", vec![Value::from(1)]).unwrap();
    assert_ne!(long, short);
    let mut wire = long_bytes;
    wire.extend(short_bytes);

    let (first, long_done) = serve(&mut connection, &mut dispatcher, &mut wire);
    let (second, short_done) = serve(&mut connection, &mut dispatcher, &mut wire);
    assert_eq!((first, second), (long, short));
    assert!(wire.is_empty());

    // the short call is done first
    let short_result = deliver(&connection, &mut client, short, short_done);
    assert_eq!(short_result, Some(Delivery::Outcome(Ok(Value::from(1u64)))));
    assert!(client.is_waiting(long));
    assert_eq!(client.take(long), None);

    let long_result = deliver(&connection, &mut client, long, long_done);
    assert_eq!(long_result, Some(Delivery::Outcome(Ok(Value::from(10_000u64)))));
}

#[test]
fn sleep() {
    let mut connection = Connection::new();
    let mut client = Client::new(false, false);
    let mut dispatcher = SleepServer;

    let (long, mut wire) = client.call("sleep", vec![Value::from(2)]).unwrap();
    let (short, short_bytes) = client.call("sleep", vec![Value::from(1)]).unwrap();
    wire.extend(short_bytes);
    let (_, long_done) = serve(&mut connection, &mut dispatcher, &mut wire);
    let (_, short_done) = serve(&mut connection, &mut dispatcher, &mut wire);

    let short_result = deliver(&connection, &mut client, short, short_done);
    assert!(match short_result {
        Some(Delivery::Outcome(Ok(Value::Integer(_)))) => true,
        _ => false,
    });
    let long_result = deliver(&connection, &mut client, long, long_done);
    assert!(match long_result {
        Some(Delivery::Outcome(Ok(Value::Integer(_)))) => true,
        _ => false,
    });
}

#[test]
fn calls_completed_in_reverse_order() {
    let mut connection = Connection::new();
    let mut client = Client::new(false, false);
    let mut dispatcher = EchoServer::default();
    let n = 20u64;

    let mut wire = Vec::new();
    let mut ids = Vec::new();
    for i in 0..n {
        let (id, bytes) = client.call("echo", vec![Value::from(i)]).unwrap();
        ids.push(id);
        wire.extend(bytes);
    }
    let mut done = Vec::new();
    for _ in 0..n {
        done.push(serve(&mut connection, &mut dispatcher, &mut wire));
    }
    done.reverse();
    for (id, completion) in done {
        let mut back = connection.respond(id, completion).unwrap();
        assert_eq!(client.receive(read(&mut back)), Reaction::Delivered(id));
    }
    for (i, id) in ids.into_iter().enumerate() {
        assert_eq!(
            client.take(id),
            Some(Delivery::Outcome(Ok(Value::Array(vec![Value::from(i as u64)]))))
        );
    }
}

#[test]
fn notification() {
    let mut connection = Connection::new();
    let client = Client::new(false, false);
    let mut dispatcher = EchoServer::default();

    let mut wire = client.notify("ping", vec![Value::from("hi")]);
    assert_eq!(wire, vec![0x93, 0x02, 0xa4, b'p', b'i', b'n', b'g', 0x91, 0xa2, b'h', b'i']);
    assert!(!client.is_waiting(0));
    match connection.on_read(Ok(read(&mut wire))) {
        Step::Notify(Notification { method, params }) => {
            BidirectionalDispatch::notify(&mut dispatcher, (), &method, params);
        }
        step => panic!("not a notification: {:?}", step),
    }
    assert!(wire.is_empty());
    assert_eq!(dispatcher.notified, vec![("ping".to_owned(), vec![Value::from("hi")])]);
    assert!(connection.is_open());
}

#[test]
fn notification_is_ignored_by_default() {
    let mut quiet = Quiet { calls: 3 };
    Dispatch::notify(&mut quiet, "ping", vec![Value::from(1u64)]);
    assert_eq!(quiet, Quiet { calls: 3 });
    BidirectionalDispatch::notify(&mut quiet, 7u8, "ping", vec![]);
    assert_eq!(quiet, Quiet { calls: 3 });
    assert_eq!(BidirectionalDispatch::dispatch(&mut quiet, "peer", "m", vec![]), Ok(Value::Nil));
    assert_eq!(quiet, Quiet { calls: 4 });
}

#[test]
fn failed_read_closes_the_client() {
    for error in [DecodeError::Truncated, DecodeError::Malformed, DecodeError::IoError] {
        let mut client = Client::new(false, false);
        let (a, _) = client.call("m", vec![]).unwrap();
        let (b, _) = client.call("m", vec![]).unwrap();
        assert_eq!(client.on_read(Err(error)), Reaction::Closed);
        assert!(client.is_closed());
        assert_eq!(client.take(a), Some(Delivery::Closed));
        assert_eq!(client.take(b), Some(Delivery::Closed));
        assert_eq!(client.call("m", vec![]), Err(AllocateError::Closed));
    }
}

#[test]
fn read_of_a_message_is_received() {
    let mut client = Client::new(false, true);
    let (id, _) = client.call("m", vec![]).unwrap();
    let answer = Message::Response(Response { id, result: Ok(Value::from(2u64)) });
    assert_eq!(client.on_read(Ok(answer)), Reaction::Delivered(id));
    assert!(!client.is_closed());
    assert_eq!(client.take(id), Some(Delivery::Outcome(Ok(Value::from(2u64)))));
    let tick = Notification { method: "tick".to_owned(), params: vec![] };
    assert_eq!(client.on_read(Ok(Message::Notification(tick.clone()))), Reaction::Notify(tick));
    let stray = Message::Response(Response { id: 9, result: Ok(Value::Nil) });
    assert_eq!(client.on_read(Ok(stray)), Reaction::Dropped(9));
}

#[test]
fn call_bytes_are_the_request() {
    let mut client = Client::new(false, false);
    let (id, bytes) = client.call("add", vec![Value::from(1u64), Value::from(2u64)]).unwrap();
    assert_eq!(id, 0);
    assert_eq!(bytes, vec![0x94, 0x00, 0x00, 0xa3, b'a', b'd', b'd', 0x92, 0x01, 0x02]);
    let (id, bytes) = client.call("m", vec![]).unwrap();
    assert_eq!(id, 1);
    assert_eq!(
        Message::unpack(&bytes),
        Ok((Message::Request(Request { id: 1, method: "m".to_owned(), params: vec![] }), bytes.len()))
    );
}

#[test]
fn closing_the_client_fails_outstanding_calls() {
    let mut client = Client::new(false, false);
    let mut ids = Vec::new();
    for _ in 0..5 {
        ids.push(client.call("slow", vec![]).unwrap().0);
    }
    assert!(!client.is_closed());
    client.close();
    assert!(client.is_closed());
    let mut closed = 0;
    for id in ids {
        assert_eq!(client.take(id), Some(Delivery::Closed));
        assert_eq!(client.take(id), None);
        closed += 1;
    }
    assert_eq!(closed, 5);
    assert_eq!(client.call("more", vec![]), Err(AllocateError::Closed));
    // a response that comes late is dropped
    let late = Message::Response(Response { id: 0, result: Ok(Value::Nil) });
    assert_eq!(client.receive(late), Reaction::Dropped(0));
}

#[test]
fn response_for_no_call_is_dropped() {
    let mut client = Client::new(false, false);
    let stray = Message::Response(Response { id: 9, result: Ok(Value::Nil) });
    assert_eq!(client.receive(stray), Reaction::Dropped(9));
    let (id, _) = client.call("m", vec![]).unwrap();
    let answer = Message::Response(Response { id, result: Ok(Value::from(1u64)) });
    assert_eq!(client.receive(answer.clone()), Reaction::Delivered(id));
    // the server answers twice
    assert_eq!(client.receive(answer), Reaction::Dropped(id));
    assert_eq!(client.take(id), Some(Delivery::Outcome(Ok(Value::from(1u64)))));
}

#[test]
fn client_refuses_requests_without_a_dispatcher() {
    let mut client = Client::new(false, false);
    let request = Message::Request(Request { id: 3, method: "m".to_owned(), params: vec![] });
    match client.receive(request) {
        Reaction::Refuse(bytes) => {
            assert_eq!(
                Message::unpack(&bytes),
                Ok((
                    Message::Response(Response {
                        id: 3,
                        result: Err(Value::from("unexpected request")),
                    }),
                    bytes.len()
                ))
            );
        }
        reaction => panic!("not refused: {:?}", reaction),
    }
}

#[test]
fn client_hands_requests_to_its_dispatcher() {
    let mut client = Client::new(true, false);
    let request = Request { id: 3, method: "m".to_owned(), params: vec![Value::Nil] };
    assert_eq!(
        client.receive(Message::Request(request.clone())),
        Reaction::Dispatch(request)
    );
}

#[test]
fn client_notifications_go_to_the_sink() {
    let notification = Notification { method: "tick".to_owned(), params: vec![] };
    let mut deaf = Client::new(false, false);
    assert_eq!(deaf.receive(Message::Notification(notification.clone())), Reaction::Ignored);
    let mut listening = Client::new(false, true);
    assert_eq!(
        listening.receive(Message::Notification(notification.clone())),
        Reaction::Notify(notification)
    );
}

#[test]
fn malformed_message_closes_the_connection() {
    let mut connection = Connection::new();
    assert!(connection.is_open());
    let read = Message::unpack(&[0x94, 0x03, 0x00, 0xa1, b'x', 0x90]).map(|(m, _)| m);
    assert_eq!(read, Err(DecodeError::Malformed));
    assert_eq!(connection.on_read(read), Step::Close);
    assert!(!connection.is_open());
    // once closed it stays closed, whatever is read
    let request = Message::Request(Request { id: 1, method: "m".to_owned(), params: vec![] });
    assert_eq!(connection.on_read(Ok(request)), Step::Close);
    assert!(!connection.is_open());
}

#[test]
fn read_errors_close_the_connection() {
    for error in [DecodeError::Truncated, DecodeError::IoError, DecodeError::Malformed] {
        let mut connection = Connection::new();
        assert_eq!(connection.on_read(Err(error)), Step::Close);
        assert!(!connection.is_open());
    }
}

#[test]
fn responses_are_discarded_after_close() {
    let mut connection = Connection::new();
    let request = Message::Request(Request { id: 4, method: "m".to_owned(), params: vec![] });
    assert!(match connection.on_read(Ok(request)) {
        Step::Call(_) => true,
        _ => false,
    });
    connection.close();
    assert_eq!(connection.respond(4, Completion::Returned(Ok(Value::Nil))), None);
    assert_eq!(connection.respond(4, Completion::Panicked("late".to_owned())), None);
}

#[test]
fn handler_error_is_a_response() {
    let connection = Connection::new();
    let bytes = connection.respond(2, Completion::Returned(Err(Value::from("no")))).unwrap();
    assert_eq!(bytes, vec![0x94, 0x01, 0x02, 0xa2, b'n', b'o', 0xc0]);
    assert!(connection.is_open());
}

#[test]
fn handler_panic_is_an_internal_error() {
    let connection = Connection::new();
    let bytes = connection.respond(6, Completion::Panicked("boom".to_owned())).unwrap();
    assert_eq!(
        Message::unpack(&bytes),
        Ok((
            Message::Response(Response {
                id: 6,
                result: Err(Value::from("internal error: boom")),
            }),
            bytes.len()
        ))
    );
}

#[test]
fn server_calls_back_its_peer() {
    let mut connection = Connection::new();
    let mut client = Client::new(true, false);

    let (id, mut wire) = connection.call("whoami", vec![]).unwrap();
    let request = match client.receive(read(&mut wire)) {
        Reaction::Dispatch(request) => request,
        reaction => panic!("not dispatched: {:?}", reaction),
    };
    assert_eq!(request, Request { id, method: "whoami".to_owned(), params: vec![] });
    let answer = Message::Response(Response { id: request.id, result: Ok(Value::from("me")) });
    assert_eq!(connection.take(id), None);
    assert_eq!(connection.on_read(Ok(answer.clone())), Step::Delivered(id));
    assert_eq!(connection.on_read(Ok(answer)), Step::Dropped(id));
    assert_eq!(connection.take(id), Some(Delivery::Outcome(Ok(Value::from("me")))));
}

#[test]
fn closing_the_connection_fails_its_calls() {
    let mut connection = Connection::new();
    let (a, _) = connection.call("m", vec![]).unwrap();
    let (b, _) = connection.call("m", vec![]).unwrap();
    connection.close();
    assert_eq!(connection.take(a), Some(Delivery::Closed));
    assert_eq!(connection.take(b), Some(Delivery::Closed));
    assert_eq!(connection.call("m", vec![]), Err(AllocateError::Closed));
}
