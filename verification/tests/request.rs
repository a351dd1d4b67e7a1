use greetd_ipc::json::escaped_len;
use greetd_ipc::Request;

#[test]
fn create_session() {
    let username = "isaacm";
    let wtr = Request::CreateSession {
        username: &username,
    };
    let result = "{\"type\":\"create_session\",\"username\":\"isaacm\"}";
    let mut written = String::with_capacity(wtr.write_len().0);
    wtr.write_to(&mut written).unwrap();

    assert_eq!(result, written);
    assert_eq!(result.len(), wtr.write_len().0);
}

#[test]
fn start_session() {
    let session = &["/etc/ly/wsetup.sh", "dwl"];
    let wtr = Request::StartSession { cmd: session };
    let result = "{\"type\":\"start_session\",\"cmd\":[\"/etc/ly/wsetup.sh\",\"dwl\"]}";
    let mut written = String::with_capacity(wtr.write_len().0);
    wtr.write_to(&mut written).unwrap();
    assert_eq!(result, written);
    assert_eq!(wtr.write_len().0, result.len());
}

fn check(request: &Request, expected: &str) {
    let mut written = String::from("before ");
    request.write_to(&mut written).unwrap();
    assert_eq!(written, format!("before {}", expected));
    assert_eq!(request.to_string(), expected);
    assert_eq!(request.write_len().0, expected.len());
    assert_eq!(request.write_len().1, Some(expected.len()));
}

#[test]
fn cancel_session_text() {
    check(&Request::CancelSession, "{\"type\":\"cancel_session\"}");
}

#[test]
fn auth_response_text() {
    check(
        &Request::PostAuthMessageResponse {
            response: Some("hunter2"),
        },
        "{\"type\":\"post_auth_message_response\",\"response\":\"hunter2\"}",
    );
    check(
        &Request::PostAuthMessageResponse { response: Some("") },
        "{\"type\":\"post_auth_message_response\",\"response\":\"\"}",
    );
}

#[test]
fn no_auth_response_text() {
    check(
        &Request::PostAuthMessageResponse { response: None },
        "{\"type\":\"post_auth_message_response\"}",
    );
}

#[test]
fn documented_create_session_text() {
    check(
        &Request::CreateSession { username: "bob" },
        "{\"type\":\"create_session\",\"username\":\"bob\"}",
    );
}

#[test]
fn command_lists_text() {
    check(
        &Request::StartSession { cmd: &[] },
        "{\"type\":\"start_session\",\"cmd\":[]}",
    );
    check(
        &Request::StartSession { cmd: &["sway"] },
        "{\"type\":\"start_session\",\"cmd\":[\"sway\"]}",
    );
    check(
        &Request::StartSession {
            cmd: &["a", "", "bc", "d"],
        },
        "{\"type\":\"start_session\",\"cmd\":[\"a\",\"\",\"bc\",\"d\"]}",
    );
}

#[test]
fn length_counts_bytes() {
    let request = Request::CreateSession {
        username: "Zo\u{eb} \u{1f980}",
    };
    let text = request.to_string();
    assert!(text.len() > text.chars().count());
    assert_eq!(request.write_len().0, text.len());
    let request = Request::StartSession {
        cmd: &["\u{e9}", "\u{20ac}", "\u{1f980}"],
    };
    assert_eq!(request.write_len().0, request.to_string().len());
}

#[test]
fn plain_text_is_json() {
    let text = Request::StartSession {
        cmd: &["/bin/sh", "-c", "echo caf\u{e9}"],
    }
    .to_string();
    let value: serde_json::Value = serde_json::from_str(&text).unwrap();
    assert_eq!(value["type"], "start_session");
    assert_eq!(value["cmd"][0], "/bin/sh");
    assert_eq!(value["cmd"][1], "-c");
    assert_eq!(value["cmd"][2], "echo caf\u{e9}");
    assert_eq!(value["cmd"].as_array().unwrap().len(), 3);
    let text = Request::PostAuthMessageResponse { response: None }.to_string();
    let value: serde_json::Value = serde_json::from_str(&text).unwrap();
    assert_eq!(value.as_object().unwrap().len(), 1);
}

#[test]
fn strings_are_escaped() {
    check(
        &Request::CreateSession { username: "a\"b\\" },
        "{\"type\":\"create_session\",\"username\":\"a\\\"b\\\\\"}",
    );
    check(
        &Request::PostAuthMessageResponse {
            response: Some("\u{0}p\tq\n\u{1f}\u{7f}\u{e9}"),
        },
        "{\"type\":\"post_auth_message_response\",\"response\":\"\\u0000p\\tq\\n\\u001f\u{7f}\u{e9}\"}",
    );
    check(
        &Request::StartSession {
            cmd: &["\"", "sh -c \"ls\"", "\\"],
        },
        "{\"type\":\"start_session\",\"cmd\":[\"\\\"\",\"sh -c \\\"ls\\\"\",\"\\\\\"]}",
    );
}

#[test]
fn quoted_username_is_json() {
    let request = Request::CreateSession { username: "a\"b" };
    let mut text = String::new();
    request.write_to(&mut text).unwrap();
    let value: serde_json::Value = serde_json::from_str(&text).unwrap();
    assert_eq!(value["type"], "create_session");
    assert_eq!(value["username"], "a\"b");
    assert_eq!(value.as_object().unwrap().len(), 2);
}

#[test]
fn injected_fields_stay_text() {
    let username = "bob\",\"admin\":\"yes";
    let text = Request::CreateSession { username }.to_string();
    let value: serde_json::Value = serde_json::from_str(&text).unwrap();
    assert_eq!(value["username"], username);
    assert_eq!(value.as_object().unwrap().len(), 2);
}

#[test]
fn every_character_is_escaped_as_in_json() {
    let chars: Vec<char> = (0u32..0x300)
        .chain([0x2028, 0xd7ff, 0xe000, 0xffff, 0x10000, 0x10ffff])
        .filter_map(char::from_u32)
        .collect();
    for c in &chars {
        let s = format!("a{}b", c);
        let json = serde_json::to_string(&s).unwrap();
        assert_eq!(
            Request::CreateSession { username: &s }.to_string(),
            format!("{{\"type\":\"create_session\",\"username\":{}}}", json)
        );
        assert_eq!(escaped_len(&s).0, json.len() - 2);
        assert_eq!(escaped_len(&s).1, Some(json.len() - 2));
    }
    let all: String = chars.into_iter().collect();
    let text = Request::CreateSession { username: &all }.to_string();
    let value: serde_json::Value = serde_json::from_str(&text).unwrap();
    assert_eq!(value["username"].as_str(), Some(all.as_str()));
}

#[test]
fn quotes_keep_commands_apart() {
    let one = Request::StartSession {
        cmd: &["a\",\"b"],
    };
    let two = Request::StartSession { cmd: &["a", "b"] };
    assert_eq!(
        one.to_string(),
        "{\"type\":\"start_session\",\"cmd\":[\"a\\\",\\\"b\"]}"
    );
    assert_ne!(one.to_string(), two.to_string());
    let other = Request::StartSession { cmd: &["a,b"] };
    assert_ne!(other.to_string(), two.to_string());
}

#[test]
fn pieces_make_up_the_text() {
    let request = Request::StartSession {
        cmd: &["a\"b", "", "c\u{1}"],
    };
    let pieces = request.pieces();
    assert_eq!(pieces[0], "{\"type\":\"");
    assert_eq!(pieces[1], "start_session");
    assert_eq!(pieces.concat(), request.to_string());
    for k in 0..pieces.len() {
        assert!(request.to_string().starts_with(&pieces[..k].concat()));
    }
}
