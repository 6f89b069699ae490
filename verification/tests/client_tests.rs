use foggychat::cli_client;
use foggychat::cli_client::fctp::CliAction;
use foggychat::cli_client::input::{input_packet, parse_input};
use foggychat::crypt::symmetric;
use foggychat::gui_client;
use foggychat::gui_client::fctp::GuiAction;
use foggychat::gui_client::session::{gui_glue_line, gui_handle_text, send_message, GuiStreamOutcome};
use foggychat::protocol_utils::connection::{pong_watch, FrameReader, PongWatch};
use foggychat::protocol_utils::fctp::{
    decapsulate_fctp_message, encapsulate_to_fctp, get_server_id, parse_fctp_message, set_server_id, FctpCode,
    FctpError, FctpMessage,
};
use foggychat::protocol_utils::fctp_me;
use foggychat::protocol_utils::fctp_secure::{
    fingerprint_wait_step, handle_non_existent_e2ee_key, key_wait_step, WaitStep, get_pk_from_e2ee_key_table, has_pk_in_e2ee_key_table, insert_pk_in_e2ee_key_table, remove_pk_from_e2ee_key_table,
    remove_pk_if_matches,
};
use foggychat::protocol_utils::session::ClientState;

#[test]
fn lib_regex_userinput_parser() {
    let input = "user:input";
    match parse_input(input) {
        Ok((left, right)) => {
            assert_eq!(left, "user");
            assert_eq!(right, "input");
        }
        Err(e) => panic!("Parsing failed: {}", e),
    }

    let invalid_input = "invalid_input";
    assert!(parse_input(invalid_input).is_err());
}

#[test]
fn lib_test_parse_input_edge_cases() {
    assert!(parse_input("a:b:c").is_err());
    assert!(parse_input("").is_err());
    assert!(parse_input(" : ").is_ok());
}

#[test]
fn main_regex_userinput_parser() {
    let input = "user:input";
    match parse_input(input) {
        Ok((left, right)) => {
            assert_eq!(left, "user");
            assert_eq!(right, "input");
        }
        Err(e) => panic!("Parsing failed: {}", e),
    }

    let invalid_input = "invalid_input";
    assert!(parse_input(invalid_input).is_err());
}

#[test]
fn main_test_parse_input_edge_cases() {
    assert!(parse_input("a:b:c").is_err());
    assert!(parse_input("").is_err());
    assert!(parse_input(" : ").is_ok());
}

#[test]
fn parse_input_edges_and_error_text() {
    assert_eq!(parse_input(":x").unwrap_err(), "Wrong input format, expected 'key:value'");
    assert!(parse_input("x:").is_err());
    let (k, v) = parse_input("bob: hello there ").unwrap();
    assert_eq!(k, "bob");
    assert_eq!(v, " hello there ");
    let (k, v) = parse_input("a\nb:c").unwrap();
    assert_eq!(k, "a\nb");
    assert_eq!(v, "c");
}

#[test]
fn main_test_fctp_encapsulation_and_decapsulation() {
    let code = 200;
    let from = "user123";
    let body = "Hello, world!";
    let to = "user456";

    let message = cli_client::fctp::encapsulate_to_fctp(code, from, body, to);
    let decoded = cli_client::fctp::decapsulate_fctp_message(&message).expect("Failed to parse FCTP message");

    assert_eq!(decoded.code, code);
    assert_eq!(decoded.from, from);
    assert_eq!(decoded.body, body);
    assert_eq!(decoded.to, to);

    let key = symmetric::keygen();
    let packet = foggychat::server::fctp::encapsulate_to_fctp(code, from, body, to, key);
    let text = packet.strip_suffix("\r\n\r\n").expect("a packet ends with a blank line");
    let decoded =
        foggychat::server::fctp::decapsulate_fctp_message(text, key).expect("Failed to parse FCTP message");

    assert_eq!(decoded.code, code);
    assert_eq!(decoded.from, from);
    assert_eq!(decoded.body, body);
    assert_eq!(decoded.to, to);
}

#[test]
fn main_test_fctp_decapsulation_invalid() {
    let bad_message = "This is not a valid FCTP message";
    assert!(cli_client::fctp::decapsulate_fctp_message(bad_message).is_none());

    let bad_code = "FoggyChat Transfer Protocol 0.1\r\nabc\r\nFrom: a\r\nBody: b\r\nTo: c\r\n\r\n";
    assert!(cli_client::fctp::decapsulate_fctp_message(bad_code).is_none());

    let missing_lines = "FoggyChat Transfer Protocol 0.1\r\n200\r\nFrom: user\r\nBody: test\r\n\r\n";
    assert!(cli_client::fctp::decapsulate_fctp_message(missing_lines).is_none());

    let key = symmetric::keygen();
    assert!(foggychat::server::fctp::decapsulate_fctp_message(bad_message, key).is_none());
    assert!(foggychat::server::fctp::decapsulate_fctp_message(bad_code, key).is_none());
    assert!(foggychat::server::fctp::decapsulate_fctp_message(missing_lines, key).is_none());
    let sealed = symmetric::encrypt(missing_lines, &key).unwrap();
    assert!(foggychat::server::fctp::decapsulate_fctp_message(&sealed, key).is_none());
}

#[test]
fn cli_message_text_is_exact() {
    let message = cli_client::fctp::encapsulate_to_fctp(-5, "a", "b", "c");
    assert_eq!(message, "FoggyChat Transfer Protocol 0.1\r\n-5\r\nFrom: a\r\nBody: b\r\nTo: c\r\n\r\n");
}

#[test]
fn main_test_id_management() {
    let mut state = ClientState::new();
    fctp_me::set_id(&mut state, "test_id");
    assert_eq!(fctp_me::get_id(&state), "test_id");

    cli_client::fctp::set_server_id(&mut state, "srv_id");
    assert_eq!(cli_client::fctp::get_server_id(&state), "srv_id");
}

#[test]
fn cli_stream_actions() {
    let mut state = ClientState::new();
    let chat = cli_client::fctp::encapsulate_to_fctp(200, "alice", "hi", "me");
    match cli_client::fctp::process_fctp_stream(&mut state, &chat) {
        CliAction::Print(s) => assert_eq!(s, "[Message received] <alice> hi"),
        _ => panic!("expected a line"),
    }
    let server = cli_client::fctp::encapsulate_to_fctp(201, "srv", "motd", "me");
    match cli_client::fctp::process_fctp_stream(&mut state, &server) {
        CliAction::Print(s) => assert_eq!(s, "SERVER: motd"),
        _ => panic!("expected a line"),
    }
    let ids = cli_client::fctp::encapsulate_to_fctp(900, "srv-1", "id", "me-7");
    match cli_client::fctp::process_fctp_stream(&mut state, &ids) {
        CliAction::Print(s) => assert_eq!(s, "DEBUG: ID: me-7"),
        _ => panic!("expected a line"),
    }
    assert_eq!(fctp_me::get_id(&state), "me-7");
    assert_eq!(get_server_id(&state), "srv-1");
    let pong = cli_client::fctp::encapsulate_to_fctp(11, "srv", "pong", "me");
    assert!(matches!(cli_client::fctp::process_fctp_stream(&mut state, &pong), CliAction::Pong));
    let odd = cli_client::fctp::encapsulate_to_fctp(777, "srv", "x", "me");
    match cli_client::fctp::process_fctp_stream(&mut state, &odd) {
        CliAction::Print(s) => assert_eq!(
            s,
            "[!Unsupported code!]: 777\n !Update your client software or ask server administrator to update his server software!"
        ),
        _ => panic!("expected a line"),
    }
    match cli_client::fctp::process_fctp_stream(&mut state, "garbage") {
        CliAction::PrintError(s) => assert_eq!(s, "[!Malformed header!]: garbage"),
        _ => panic!("expected an error line"),
    }
}

#[test]
fn cli_glue_rebuilds_a_message() {
    let mut state = ClientState::new();
    let mut message = String::new();
    let lines = [
        "FoggyChat Transfer Protocol 0.1",
        "505",
        "From: srv",
        "Body: oops",
        "To: me",
    ];
    for line in lines.iter() {
        assert!(cli_client::fctp::glue_line(&mut message, line).is_none());
    }
    let done = cli_client::fctp::glue_line(&mut message, "").expect("a blank line ends the message");
    assert_eq!(message, "");
    assert!(done.ends_with("To: me\r\n\r\n"));
    match cli_client::fctp::process_fctp_stream(&mut state, &done) {
        CliAction::Print(s) => assert_eq!(s, "[!sv!] oops"),
        _ => panic!("expected a line"),
    }
}

#[test]
fn cli_input_packets() {
    let mut state = ClientState::new();
    fctp_me::set_id(&mut state, "me");
    set_server_id(&mut state, "srv");
    assert_eq!(
        input_packet(&state, "//help  ").unwrap(),
        "FoggyChat Transfer Protocol 0.1\r\n201\r\nFrom: me\r\nBody: help\r\nTo: srv\r\n\r\n\n"
    );
    assert_eq!(
        input_packet(&state, " bob : hi there ").unwrap(),
        "FoggyChat Transfer Protocol 0.1\r\n200\r\nFrom: me\r\nBody: hi there\r\nTo: bob\r\n\r\n\n"
    );
    assert_eq!(
        input_packet(&state, "no colon").unwrap_err(),
        "Parse error: Wrong input format, expected 'key:value'"
    );
    assert_eq!(
        cli_client::fctp::ping_packet(&state),
        "FoggyChat Transfer Protocol 0.1\r\n10\r\nFrom: me\r\nBody: ping\r\nTo: srv\r\n\r\n"
    );
}

#[test]
fn lib_test_fctp_encapsulation_and_decapsulation() {
    let code = 200;
    let from = "user123";
    let body = "Hello, world!";
    let to = "user456";

    let message = gui_client::fctp::encapsulate_to_fctp(code, from, body, to, [0u8; 32]);
    let decoded =
        gui_client::fctp::decapsulate_fctp_message(&message, [0u8; 32]).expect("Failed to parse FCTP message");

    assert_eq!(decoded.code, code);
    assert_eq!(decoded.from, from);
    assert_eq!(decoded.body, body);
    assert_eq!(decoded.to, to);
}

#[test]
fn lib_test_fctp_decapsulation_invalid() {
    let bad_message = "This is not a valid FCTP message";
    assert!(gui_client::fctp::decapsulate_fctp_message(bad_message.as_bytes(), [0u8; 32]).is_none());

    let bad_code = "FoggyChat Transfer Protocol 0.1\r\nabc\r\nFrom: a\r\nBody: b\r\nTo: c\r\n\r\n";
    assert!(gui_client::fctp::decapsulate_fctp_message(bad_code.as_bytes(), [0u8; 32]).is_none());

    let missing_lines = "FoggyChat Transfer Protocol 0.1\r\n200\r\nFrom: user\r\nBody: test\r\n\r\n";
    assert!(gui_client::fctp::decapsulate_fctp_message(missing_lines.as_bytes(), [0u8; 32]).is_none());
}

#[test]
fn lib_test_id_management() {
    let mut state = ClientState::new();
    fctp_me::set_id(&mut state, "test_id");
    assert_eq!(fctp_me::get_id(&state), "test_id");

    gui_client::fctp::set_server_id(&mut state, "srv_id");
    assert_eq!(gui_client::fctp::get_server_id(&state), "srv_id");

    fctp_me::set_id(&mut state, "test_client_id");
    assert_eq!(fctp_me::get_id(&state), "test_client_id");

    set_server_id(&mut state, "test_server_id");
    assert_eq!(get_server_id(&state), "test_server_id");
}

#[test]
fn test_fctp_binary_encapsulation_and_decapsulation() {
    let code = 200;
    let from = "user123";
    let body = "Hello, world!";
    let to = "user456";

    let real_key = symmetric::keygen();
    let encrypted_message = gui_client::fctp::encapsulate_to_fctp(code, from, body, to, real_key);

    assert!(!encrypted_message.is_empty());

    let decoded =
        gui_client::fctp::decapsulate_fctp_message(&encrypted_message, real_key).expect("Failed to parse FCTP message");

    assert_eq!(decoded.code, code);
    assert_eq!(decoded.from, from);
    assert_eq!(decoded.body, body);
    assert_eq!(decoded.to, to);
}

#[test]
fn test_fctp_default_key() {
    let code = 900;
    let from = "server";
    let body = "id";
    let to = "client";

    let default_key = [0u8; 32];
    let message = gui_client::fctp::encapsulate_to_fctp(code, from, body, to, default_key);

    let decoded = gui_client::fctp::decapsulate_fctp_message(&message, default_key)
        .expect("Failed to parse unencrypted FCTP message");

    assert_eq!(decoded.code, code);
    assert_eq!(decoded.from, from);
    assert_eq!(decoded.body, body);
    assert_eq!(decoded.to, to);
}

#[test]
fn fctp_test_parse_fctp_message_direct() {
    let valid_message = "FoggyChat Transfer Protocol 0.1\r\n200\r\nFrom: test\r\nBody: hello world\r\nTo: user\r\n\r\n";
    let parsed = gui_client::fctp::parse_fctp_message(valid_message).expect("Should parse valid message");

    assert_eq!(parsed.code, 200);
    assert_eq!(parsed.from, "test");
    assert_eq!(parsed.body, "hello world");
    assert_eq!(parsed.to, "user");

    let parsed = parse_fctp_message(valid_message).expect("Should parse valid message");

    assert_eq!(parsed.code, FctpCode::Message);
    assert_eq!(parsed.from, "test");
    assert_eq!(parsed.body, "hello world");
    assert_eq!(parsed.to, "user");
}

#[test]
fn fctp_test_server_id_management() {
    let mut state = ClientState::new();
    gui_client::fctp::set_server_id(&mut state, "test_server_123");
    assert_eq!(gui_client::fctp::get_server_id(&state), "test_server_123");

    gui_client::fctp::set_server_id(&mut state, "another_server");
    assert_eq!(gui_client::fctp::get_server_id(&state), "another_server");

    set_server_id(&mut state, "test_server_123");
    assert_eq!(get_server_id(&state), "test_server_123");

    set_server_id(&mut state, "another_server");
    assert_eq!(get_server_id(&state), "another_server");
}

#[test]
fn test_invalid_messages() {
    let real_key = symmetric::keygen();

    let empty_message = b"";
    assert!(gui_client::fctp::decapsulate_fctp_message(empty_message, real_key).is_none());

    let bad_binary = b"This is not valid encrypted data";
    assert!(gui_client::fctp::decapsulate_fctp_message(bad_binary, real_key).is_none());
}

#[test]
fn fctp_test_fctp_encapsulation_and_decapsulation() {
    let msg = FctpMessage::new(FctpCode::Message, "alice", "hello world", "bob");
    let key = symmetric::keygen();

    let encrypted = encapsulate_to_fctp(&msg, &key).expect("Should encrypt");
    assert!(!encrypted.is_empty());

    let decrypted = decapsulate_fctp_message(&encrypted, &key).expect("Should decrypt");
    assert_eq!(decrypted, msg);
}

#[test]
fn test_parse_fctp_message() {
    let message_str = format!(
        "{}\r\n{}\r\nFrom: {}\r\nBody: {}\r\nTo: {}\r\n\r\n",
        foggychat::fctp_text::PROTOCOL_VERSION,
        200,
        "alice",
        "hello",
        "bob"
    );

    let parsed = parse_fctp_message(&message_str).expect("Should parse");
    assert_eq!(parsed.code, FctpCode::Message);
    assert_eq!(parsed.from, "alice");
    assert_eq!(parsed.body, "hello");
    assert_eq!(parsed.to, "bob");
}

#[test]
fn code_numbers_round_trip() {
    for value in [10, 11, 200, 201, 400, 405, 500, 505, 900, 901, 902] {
        let code = FctpCode::from_i32(value).expect("known code");
        assert_eq!(code.as_i32(), value);
    }
    assert!(FctpCode::from_i32(12345).is_none());
}

#[test]
fn gui_stream_shows_messages() {
    let mut state = ClientState::new();
    let chat = gui_client::fctp::encapsulate_to_fctp(200, "alice", "hi", "me", [0u8; 32]);
    match gui_client::fctp::process_fctp_stream(&mut state, &chat) {
        GuiAction::Chat { line, notification } => {
            assert_eq!(line, "<alice> hi");
            assert_eq!(notification, "alice: hi");
        }
        _ => panic!("expected a chat line"),
    }
}

#[test]
fn gui_send_message_packets() {
    let mut state = ClientState::new();
    fctp_me::set_id(&mut state, "me");
    set_server_id(&mut state, "srv");
    let packet = send_message(&state, "/whoami").unwrap();
    assert_eq!(packet, b"FoggyChat Transfer Protocol 0.1\r\n201\r\nFrom: me\r\nBody: whoami\r\nTo: srv\r\n\r\n".to_vec());
    let packet = send_message(&state, "bob: yo").unwrap();
    let decoded = gui_client::fctp::decapsulate_fctp_message(&packet, [0u8; 32]).unwrap();
    assert_eq!(decoded.body, "yo");
    assert_eq!(decoded.to, "bob");
    assert_eq!(send_message(&state, "nothing").unwrap_err(), "Parse error Wrong input format, expected 'key:value'");
}

#[test]
fn gui_glue_keeps_last_line() {
    let mut message = String::new();
    assert!(gui_glue_line(&mut message, "first").is_none());
    assert!(gui_glue_line(&mut message, "second").is_none());
    assert_eq!(message, "second\n");
    let done = gui_glue_line(&mut message, "  ").unwrap();
    assert_eq!(done, "second\r\n\r\n");
    assert_eq!(message, "");
    assert_eq!(gui_glue_line(&mut message, "").unwrap(), "\r\n\r\n");
}

#[test]
fn gui_handshake_errors() {
    let mut state = ClientState::new();
    match gui_handle_text(&mut state, "%%%\r\n\r\n") {
        GuiStreamOutcome::Report(s) => assert!(s.starts_with("Decoding error: ")),
        _ => panic!("expected a report"),
    }
    match gui_handle_text(&mut state, "AAAA\r\n\r\n") {
        GuiStreamOutcome::Report(s) => assert_eq!(s, "Error: Key must be 32 bytes long"),
        _ => panic!("expected a report"),
    }
}

#[test]
fn frames_split_across_reads() {
    let key = symmetric::keygen();
    let frame = symmetric::encrypt_binary("split me", &key).unwrap();
    let mut reader = FrameReader::new();
    let first = reader.read(&frame[..7]);
    assert!(first.frames.is_empty());
    assert!(first.reports.is_empty());
    let second = reader.read(&frame[7..]);
    assert_eq!(second.frames.len(), 1);
    assert_eq!(second.frames[0], frame);
    let mut both = frame.clone();
    both.extend_from_slice(&frame);
    let third = reader.read(&both);
    assert_eq!(third.frames.len(), 2);
}

#[test]
fn key_table_operations() {
    let mut state = ClientState::new();
    assert!(!has_pk_in_e2ee_key_table(&state, "bob"));
    insert_pk_in_e2ee_key_table(&mut state, "bob", [1u8; 32]);
    insert_pk_in_e2ee_key_table(&mut state, "eve", [2u8; 32]);
    assert_eq!(get_pk_from_e2ee_key_table(&state, "bob"), Some([1u8; 32]));
    insert_pk_in_e2ee_key_table(&mut state, "bob", [3u8; 32]);
    assert_eq!(get_pk_from_e2ee_key_table(&state, "bob"), Some([3u8; 32]));
    assert!(!remove_pk_if_matches(&mut state, "bob", [1u8; 32]));
    assert!(remove_pk_if_matches(&mut state, "bob", [3u8; 32]));
    assert!(!has_pk_in_e2ee_key_table(&state, "bob"));
    assert!(remove_pk_from_e2ee_key_table(&mut state, "eve"));
    assert!(!remove_pk_from_e2ee_key_table(&mut state, "eve"));
}

#[test]
fn waits_end_on_ack_or_timeout() {
    let mut state = ClientState::new();
    assert!(matches!(key_wait_step(&state, 5), WaitStep::Waiting));
    match key_wait_step(&state, 10_001) {
        WaitStep::TimedOut(e) => assert_eq!(e, "Timeout waiting for recipient's public key"),
        _ => panic!("the wait times out"),
    }
    state.last_ack = true;
    assert!(matches!(key_wait_step(&state, 10_001), WaitStep::Done));
    assert!(matches!(fingerprint_wait_step(false, 30_000), WaitStep::Waiting));
    match fingerprint_wait_step(false, 30_001) {
        WaitStep::TimedOut(e) => assert_eq!(e, "Fingerprint verification timeout"),
        _ => panic!("the wait times out"),
    }
    assert!(matches!(fingerprint_wait_step(true, 99_999), WaitStep::Done));
}

#[test]
fn key_request_for_trimmed_name() {
    let mut state = ClientState::new();
    fctp_me::set_id(&mut state, "me");
    set_server_id(&mut state, "srv");
    state.session_key = symmetric::keygen();
    let packet = handle_non_existent_e2ee_key(&state, "  bob ").unwrap();
    let m = decapsulate_fctp_message(&packet, &state.session_key).unwrap();
    assert_eq!(m.code, FctpCode::KeyRequest);
    assert_eq!(m.body, "bob");
    assert_eq!(m.to, "srv");
}

#[test]
fn parse_errors_say_what_went_wrong() {
    let text = |m: &str| parse_fctp_message(m).unwrap_err().to_string();
    assert_eq!(text(""), "Malformed message: Missing protocol line");
    assert_eq!(text("FoggyChat Transfer Protocol 0.2\r\n"), "Invalid protocol version: FoggyChat Transfer Protocol 0.2");
    assert_eq!(text("FoggyChat Transfer Protocol 0.1\r\n"), "Malformed message: Missing code line");
    assert_eq!(text("FoggyChat Transfer Protocol 0.1\r\n abc \r\n"), "Malformed message: Invalid code: abc");
    assert_eq!(text("FoggyChat Transfer Protocol 0.1\r\n123\r\n"), "Malformed message: Unknown code: 123");
    assert_eq!(text("FoggyChat Transfer Protocol 0.1\r\n200\r\n"), "Malformed message: Missing From line");
    assert_eq!(
        text("FoggyChat Transfer Protocol 0.1\r\n200\r\nFrom: a\r\nbody: b\r\n"),
        "Malformed message: Invalid Body format: body: b"
    );
    match parse_fctp_message("FoggyChat Transfer Protocol 0.1\r\n200\r\nFrom: a\r\nBody: b\r\n") {
        Err(FctpError::MalformedMessage(s)) => assert_eq!(s, "Missing To line"),
        _ => panic!("the To line is missing"),
    }
    let key = symmetric::keygen();
    match decapsulate_fctp_message(b"short", &key) {
        Err(FctpError::DecryptionFailed(s)) => assert_eq!(s, "\"Data too short\""),
        _ => panic!("a short frame does not decrypt"),
    }
    assert!(matches!(decapsulate_fctp_message(&[0xff, 0xfe], &[0u8; 32]), Err(FctpError::DecryptionFailed(_))));
}

#[test]
fn pong_monitors() {
    let mut state = ClientState::new();
    assert!(matches!(pong_watch(&state, 999_999), PongWatch::Reset));
    state.session_key = [1u8; 32];
    assert!(matches!(pong_watch(&state, 240_999), PongWatch::Fine));
    match pong_watch(&state, 241_000) {
        PongWatch::Late(line) => assert_eq!(line, "Server not responding, last pong: 241000 ms ago"),
        _ => panic!("the server is late"),
    }
    assert!(cli_client::fctp::pong_watch(5000).is_none());
    assert_eq!(
        cli_client::fctp::pong_watch(5001).unwrap(),
        "server is not responding, last pong was sent 5001 ms ago"
    );
}

#[test]
fn text_after_a_complete_message_is_ignored() {
    let message = "FoggyChat Transfer Protocol 0.1\r\n200\r\nFrom: test\r\nBody: hello world\r\nTo: user\r\n\r\n";
    for tail in ["", "garbage", "FoggyChat Transfer Protocol 0.1\r\n10\r\n", "\n\n\n"] {
        let longer = format!("{}{}", message, tail);
        assert_eq!(parse_fctp_message(&longer).unwrap(), parse_fctp_message(message).unwrap());
        assert_eq!(
            gui_client::fctp::parse_fctp_message(&longer).unwrap(),
            gui_client::fctp::parse_fctp_message(message).unwrap()
        );
    }
    let short = "FoggyChat Transfer Protocol 0.1\r\n200\r\nFrom: test\r\nBody: hello world\r\nTo: us";
    let parsed = parse_fctp_message(&format!("{}er\r\n", short)).unwrap();
    assert_eq!(parsed.to, "user");
}

#[test]
fn chat_message_is_sent_when_the_key_is_known() {
    let mut state = ClientState::new();
    fctp_me::set_id(&mut state, "alice");
    set_server_id(&mut state, "srv");
    state.session_key = [7u8; 32];
    let (_bob_sec, bob_pub) = foggychat::crypt::asymmetric::generate_keypair();
    insert_pk_in_e2ee_key_table(&mut state, "bob", bob_pub);
    let outgoing = foggychat::protocol_utils::connection::ui_command_send_fctp_message(&mut state, "  hi bob ", " bob ");
    match outgoing {
        Ok(foggychat::protocol_utils::connection::Outgoing::Chat(chat)) => {
            let m = decapsulate_fctp_message(&chat.packet, &[7u8; 32]).unwrap();
            assert_eq!(m.code, FctpCode::Message);
            assert_eq!(m.from, "alice");
            assert_eq!(m.to, "bob");
        }
        _ => panic!("a message to a known key is sent"),
    }
    assert_eq!(state.current_recipient, "bob");
    assert!(!state.last_ack);
}
