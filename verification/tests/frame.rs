use greetd_ipc::{write_msg, ByteOrder, ReadStep, Request, Response};

fn payload_of(step: ReadStep<'_>) -> Vec<u8> {
    match step {
        ReadStep::Parse(payload) => payload.to_vec(),
        ReadStep::Fill(n) => panic!("{} more bytes are asked for", n),
    }
}

fn fill_of(step: ReadStep<'_>) -> usize {
    match step {
        ReadStep::Fill(n) => n,
        ReadStep::Parse(_) => panic!("nothing more is asked for"),
    }
}

#[test]
fn message_is_length_and_text() {
    let message = write_msg(ByteOrder::native(), &Request::CancelSession);
    let text = "{\"type\":\"cancel_session\"}";
    let mut expected = (text.len() as u32).to_ne_bytes().to_vec();
    expected.extend_from_slice(text.as_bytes());
    assert_eq!(message, expected);
}

#[test]
fn long_message_has_its_length() {
    let username = "x".repeat(70_000);
    let message = write_msg(ByteOrder::native(), &Request::CreateSession {
        username: &username,
    });
    let header = [message[0], message[1], message[2], message[3]];
    assert_eq!(u32::from_ne_bytes(header), 70_039);
    assert_eq!(message.len(), 70_043);
}

#[test]
fn length_is_in_the_given_order() {
    let little = write_msg(ByteOrder::Little, &Request::CancelSession);
    let big = write_msg(ByteOrder::Big, &Request::CancelSession);
    assert_eq!(little[..4], [25, 0, 0, 0]);
    assert_eq!(big[..4], [0, 0, 0, 25]);
    assert_eq!(little[4..], big[4..]);
}

#[test]
fn bytes_of_numbers() {
    for n in [0, 1, 255, 256, 0x0102_0304, 0x8000_0000, u32::MAX] {
        assert_eq!(ByteOrder::Little.bytes(n), n.to_le_bytes());
        assert_eq!(ByteOrder::Big.bytes(n), n.to_be_bytes());
        assert_eq!(ByteOrder::native().bytes(n), n.to_ne_bytes());
        assert_eq!(ByteOrder::Little.value(n.to_le_bytes()), n);
        assert_eq!(ByteOrder::Big.value(n.to_be_bytes()), n);
        assert_eq!(ByteOrder::native().value(n.to_ne_bytes()), n);
    }
    assert_eq!(ByteOrder::of_one([1, 0, 0, 0]), ByteOrder::Little);
    assert_eq!(ByteOrder::of_one([0, 0, 0, 1]), ByteOrder::Big);
}

#[test]
fn request_is_read_back() {
    let request = Request::StartSession {
        cmd: &["sway", "--unsupported-gpu"],
    };
    let mut stream = write_msg(ByteOrder::native(), &request);
    let payload = payload_of(Response::read_from(ByteOrder::native(), &stream));
    assert_eq!(payload, request.to_string().into_bytes());
    stream.extend_from_slice(b"the next message");
    assert_eq!(payload_of(Response::read_from(ByteOrder::native(), &stream)), request.to_string().into_bytes());
}

#[test]
fn reading_asks_for_the_rest() {
    let message = write_msg(ByteOrder::native(), &Request::CancelSession);
    assert_eq!(fill_of(Response::read_from(ByteOrder::native(), &[])), 4);
    assert_eq!(fill_of(Response::read_from(ByteOrder::native(), &message[..3])), 1);
    assert_eq!(fill_of(Response::read_from(ByteOrder::native(), &message[..4])), message.len() - 4);
    assert_eq!(fill_of(Response::read_from(ByteOrder::native(), &message[..9])), message.len() - 9);
    assert_eq!(fill_of(Response::read_from(ByteOrder::native(), &message[..message.len() - 1])), 1);
}

#[test]
fn empty_payload_is_read() {
    assert_eq!(payload_of(Response::read_from(ByteOrder::native(), &[0, 0, 0, 0])), Vec::<u8>::new());
    assert_eq!(payload_of(Response::read_from(ByteOrder::native(), &[0, 0, 0, 0, 9])), Vec::<u8>::new());
}

#[test]
fn payload_has_the_announced_length() {
    let received = [2, 0, 0, 0, 1, 2, 3];
    assert_eq!(payload_of(Response::read_from(ByteOrder::Little, &received)), vec![1, 2]);
    assert_eq!(fill_of(Response::read_from(ByteOrder::Big, &received)), 0x0200_0000 - 3);
    let received = [0, 0, 0, 3, 1, 2, 3];
    assert_eq!(payload_of(Response::read_from(ByteOrder::Big, &received)), vec![1, 2, 3]);
    let received = [255, 255, 255, 255];
    assert_eq!(fill_of(Response::read_from(ByteOrder::Big, &received)), u32::MAX as usize);
}

#[test]
fn messages_are_read_one_by_one() {
    let requests = [
        Request::CreateSession { username: "bob" },
        Request::PostAuthMessageResponse { response: None },
        Request::CancelSession,
    ];
    let mut stream = Vec::new();
    for request in &requests {
        stream.extend_from_slice(&write_msg(ByteOrder::native(), request));
    }
    let mut at = 0;
    for request in &requests {
        let mut received = Vec::new();
        let payload = loop {
            match Response::read_from(ByteOrder::native(), &received) {
                ReadStep::Fill(n) => {
                    let end = at + n;
                    received.extend_from_slice(&stream[at..end]);
                    at = end;
                }
                ReadStep::Parse(payload) => break payload.to_vec(),
            }
        };
        assert_eq!(payload, request.to_string().into_bytes());
    }
    assert_eq!(at, stream.len());
}
