use greetd_ipc::{
    write_msg, AuthMessageType, ByteOrder, ErrorType, Greetd, GreetdError, GreetdSource, PostAction, Reaction,
    Registration, Request, Response,
};

fn auth_error() -> Response {
    Response::Error {
        error_type: ErrorType::AuthError,
        description: String::from("pam_authenticate: AUTH_ERR"),
    }
}

fn deliver(source: &GreetdSource<u32>, greetd: &mut Greetd, response: Response) -> (Response, PostAction) {
    match source.process_events(greetd, response) {
        Reaction::Deliver { response, delivery } => (response, delivery.delivered(greetd)),
        Reaction::Cancel { .. } => panic!("the session is cancelled"),
    }
}

#[test]
fn login_runs_through() {
    let mut greetd = Greetd::new();
    let source: GreetdSource<u32> = greetd.event_source();
    assert!(greetd.closing_message().is_none());
    assert_eq!(
        greetd.create_session("bob"),
        Ok(write_msg(ByteOrder::native(), &Request::CreateSession { username: "bob" }))
    );
    let question = Response::AuthMessage {
        auth_message_type: AuthMessageType::Secret,
        auth_message: String::from("Password:"),
    };
    let (passed, post) = deliver(&source, &mut greetd, question);
    assert!(matches!(
        passed,
        Response::AuthMessage { auth_message_type: AuthMessageType::Secret, auth_message }
            if auth_message == "Password:"
    ));
    assert_eq!(post, PostAction::Continue);
    assert_eq!(
        greetd.authentication_response(Some("hunter2")),
        Ok(write_msg(ByteOrder::native(), &Request::PostAuthMessageResponse { response: Some("hunter2") }))
    );
    let (passed, post) = deliver(&source, &mut greetd, Response::Success);
    assert!(matches!(passed, Response::Success));
    assert_eq!(post, PostAction::Continue);
    assert_eq!(
        greetd.start_session(&["sway"]),
        Ok(write_msg(ByteOrder::native(), &Request::StartSession { cmd: &["sway"] }))
    );
    let (passed, post) = deliver(&source, &mut greetd, Response::Success);
    assert!(matches!(passed, Response::Finish));
    assert_eq!(post, PostAction::Remove);
    assert!(greetd.closing_message().is_none());
}

#[test]
fn one_request_at_a_time() {
    let mut greetd = Greetd::new();
    assert!(greetd.authentication_response(None).is_ok());
    assert_eq!(greetd.authentication_response(None), Err(GreetdError::RequestInQueue));
    assert_eq!(greetd.create_session("bob"), Err(GreetdError::RequestInQueue));
    assert_eq!(greetd.start_session(&["sway"]), Err(GreetdError::RequestInQueue));
    let source: GreetdSource<u32> = greetd.event_source();
    deliver(&source, &mut greetd, Response::Success);
    assert!(greetd.authentication_response(None).is_ok());
}

#[test]
fn refused_calls_leave_their_mark() {
    let mut greetd = Greetd::new();
    assert!(greetd.authentication_response(None).is_ok());
    assert_eq!(greetd.create_session("bob"), Err(GreetdError::RequestInQueue));
    assert_eq!(greetd.create_session("bob"), Err(GreetdError::MultipleSessions));
    assert!(greetd.closing_message().is_some());
    assert_eq!(greetd.start_session(&[]), Err(GreetdError::RequestInQueue));
    assert_eq!(greetd.start_session(&[]), Err(GreetdError::AlreadyStarted));
    assert!(greetd.closing_message().is_none());
}

#[test]
fn one_session_only() {
    let mut greetd = Greetd::new();
    let source: GreetdSource<u32> = greetd.event_source();
    assert!(greetd.create_session("bob").is_ok());
    assert_eq!(greetd.create_session("eve"), Err(GreetdError::MultipleSessions));
    deliver(&source, &mut greetd, Response::Success);
    assert_eq!(greetd.create_session("eve"), Err(GreetdError::MultipleSessions));
    assert_eq!(
        greetd.closing_message(),
        Some(write_msg(ByteOrder::native(), &Request::CancelSession))
    );
}

#[test]
fn auth_error_starts_over() {
    let mut greetd = Greetd::new();
    let mut source: GreetdSource<u32> = greetd.event_source();
    assert!(greetd.create_session("bob").is_ok());
    let cancelled = match source.process_events(&mut greetd, auth_error()) {
        Reaction::Cancel { message, cancelled } => {
            assert_eq!(message, write_msg(ByteOrder::native(), &Request::CancelSession));
            cancelled
        }
        Reaction::Deliver { .. } => panic!("the session is kept"),
    };
    assert!(greetd.closing_message().is_none());
    assert_eq!(greetd.authentication_response(None), Err(GreetdError::RequestInQueue));
    let (response, delivery) = source.reconnected(&mut greetd, cancelled, 7);
    assert!(matches!(
        response,
        Response::Error { error_type: ErrorType::AuthError, description }
            if description == "pam_authenticate: AUTH_ERR"
    ));
    assert!(greetd.create_session("bob").is_ok());
    assert_eq!(delivery.delivered(&mut greetd), PostAction::Reregister);
    assert_eq!(greetd.authentication_response(None), Err(GreetdError::RequestInQueue));
    assert!(matches!(source.reregister(), Registration::Replace { old_fd: 7 }));
    assert!(matches!(source.reregister(), Registration::Update));
}

#[test]
fn other_errors_are_handed_on() {
    let mut greetd = Greetd::new();
    let source: GreetdSource<u32> = greetd.event_source();
    assert!(greetd.create_session("bob").is_ok());
    let error = Response::Error {
        error_type: ErrorType::Error,
        description: String::from("no such user"),
    };
    let (passed, post) = deliver(&source, &mut greetd, error);
    assert!(matches!(passed, Response::Error { error_type: ErrorType::Error, .. }));
    assert_eq!(post, PostAction::Continue);
    assert!(greetd.closing_message().is_some());
}

#[test]
fn queue_is_free_only_after_delivery() {
    let mut greetd = Greetd::new();
    let source: GreetdSource<u32> = greetd.event_source();
    assert!(greetd.create_session("bob").is_ok());
    let delivery = match source.process_events(&mut greetd, Response::Success) {
        Reaction::Deliver { delivery, .. } => delivery,
        Reaction::Cancel { .. } => panic!("the session is cancelled"),
    };
    assert_eq!(greetd.start_session(&["sway"]), Err(GreetdError::RequestInQueue));
    assert_eq!(delivery.delivered(&mut greetd), PostAction::Continue);
    assert_eq!(greetd.start_session(&["sway"]), Err(GreetdError::AlreadyStarted));
}

#[test]
fn unreplaced_socket_is_updated() {
    let greetd = Greetd::new();
    let mut source: GreetdSource<u32> = greetd.event_source();
    assert!(matches!(source.reregister(), Registration::Update));
}

#[test]
fn error_texts() {
    assert_eq!(GreetdError::MultipleSessions.message(), "Cannot start multiple sessions");
    assert_eq!(
        GreetdError::RequestInQueue.message(),
        "greetd cannot process multiple events at once"
    );
    assert_eq!(GreetdError::AlreadyStarted.message(), "Already started a session");
}

#[test]
fn nothing_is_cancelled_without_a_session() {
    let mut greetd = Greetd::new();
    let source: GreetdSource<u32> = greetd.event_source();
    assert!(greetd.authentication_response(Some("hunter2")).is_ok());
    assert!(greetd.closing_message().is_none());
    let (passed, post) = deliver(&source, &mut greetd, Response::Success);
    assert!(matches!(passed, Response::Success));
    assert_eq!(post, PostAction::Continue);
    assert!(greetd.closing_message().is_none());
}

#[test]
fn messages_share_one_byte_order() {
    assert_eq!(Greetd::new().byte_order(), ByteOrder::native());
    for order in [ByteOrder::Little, ByteOrder::Big] {
        let mut greetd = Greetd::with_order(order);
        let mut source: GreetdSource<u32> = greetd.event_source();
        let request = Request::CreateSession { username: "bob" };
        let first = greetd.create_session("bob").unwrap();
        assert_eq!(first, write_msg(order, &request));
        assert_eq!(greetd.closing_message(), Some(write_msg(order, &Request::CancelSession)));
        match source.process_events(&mut greetd, auth_error()) {
            Reaction::Cancel { message, cancelled } => {
                assert_eq!(message, write_msg(order, &Request::CancelSession));
                source.reconnected(&mut greetd, cancelled, 1);
            }
            Reaction::Deliver { .. } => panic!("the session is kept"),
        }
        assert_eq!(greetd.create_session("bob"), Ok(first));
        assert_eq!(greetd.byte_order(), order);
    }
}
