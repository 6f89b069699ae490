use foggychat::crypt::asymmetric::generate_keypair;
use foggychat::crypt::symmetric;
use foggychat::fctp_text::FctpMessage;
use foggychat::gui_client;
use foggychat::gui_client::session::{gui_handle_text, GuiStreamOutcome};
use foggychat::protocol_utils::connection::{handle_server_message, handshake_line, ServerMessage};
use foggychat::crypt::utils::base64_encode;
use foggychat::protocol_utils::fctp::{decapsulate_fctp_message as open_frame, FctpCode};
use foggychat::protocol_utils::fctp_secure::{
    establish_session_key, handle_certificate_exchange, handle_session_key_exchange, try_handle_session_key_exchange, HandshakeStep,
};
use foggychat::protocol_utils::session::ClientState;
use foggychat::server::connection::{accept_client, disconnect_client, greeting, handle_chunk, ServerAction};
use foggychat::server::fctp::{command_handler, decapsulate_fctp_message, encapsulate_to_fctp, is_nick_taken};
use foggychat::server::fctp_client::{ClientInfo, Clients};
use foggychat::server::fctp_secure::{get_cert_pub, get_cert_sec, set_cert, CertState};
use foggychat::server::identity::{generate_id, get_id, set_id, ServerIdentity};

#[test]
fn test_generate_id() {
    let id = generate_id();
    assert!(id != "00000000-0000-0000-0000-000000000000", "Generated ID should not be nil");
    println!("Generated ID: {}", id);
}

#[test]
fn test_set_and_get_id() {
    let mut ident = ServerIdentity::new();
    let _ = set_id(&mut ident, "test-server-id");
    assert_eq!(get_id(&ident), "test-server-id");

    let result = set_id(&mut ident, "should-fail");
    assert!(result.is_err(), "ID should not be set twice");
    assert_eq!(result.unwrap_err(), "Unauthorized action: Cannot reregister server!");
    assert_eq!(get_id(&ident), "test-server-id");
}

#[test]
fn generated_ids_are_version_4_uuids() {
    let a = generate_id();
    let b = generate_id();
    assert_ne!(a, b);
    assert_eq!(a.len(), 36);
    assert_eq!(&a[14..15], "4");
    assert!(a.chars().all(|c| c == '-' || c.is_ascii_hexdigit() && !c.is_ascii_uppercase()));
}

#[test]
fn certificate_is_kept() {
    let mut cert = CertState::new();
    assert_eq!(get_cert_pub(&cert), [0u8; 32]);
    let (sec, public) = generate_keypair();
    set_cert(&mut cert, public, sec);
    assert_eq!(get_cert_pub(&cert), public);
    assert_eq!(get_cert_sec(&cert), sec);
}

fn command(body: &str) -> FctpMessage {
    FctpMessage { code: 201, from: "c1".to_string(), body: body.to_string(), to: "srv".to_string() }
}

#[test]
fn server_commands() {
    let mut clients = Clients::new();
    clients.insert("c1", ClientInfo::new());
    clients.insert("c2", ClientInfo::new());
    let mut info = ClientInfo::new();

    let (code, text) = command_handler(&command("  help "), "c1", &mut info, &clients, "srv", 3);
    assert_eq!(code, 201);
    assert_eq!(text, "Welcome to server! ServerID: srv / Available commands: help, whoami, setnick <name>");

    let (code, text) = command_handler(&command("whoami extra"), "c1", &mut info, &clients, "srv", 42);
    assert_eq!(code, 201);
    assert_eq!(text, "You are connected as: c1 / Your session nick:  / ServerID: srv / Connected for: 42 seconds");

    let (code, text) = command_handler(&command("setnick"), "c1", &mut info, &clients, "srv", 0);
    assert_eq!((code, text.as_str()), (400, "Usage: setnick <new_name>"));

    let (code, text) = command_handler(&command("setnick ab"), "c1", &mut info, &clients, "srv", 0);
    assert_eq!((code, text.as_str()), (405, "Nick must be between 3 and 20 characters long."));

    let (code, text) = command_handler(&command("setnick bad!name"), "c1", &mut info, &clients, "srv", 0);
    assert_eq!((code, text.as_str()), (405, "Nick can only contain letters, numbers, underscores and hyphens."));

    let (code, text) = command_handler(&command("setnick zażółć"), "c1", &mut info, &clients, "srv", 0);
    assert_eq!((code, text.as_str()), (201, "Nick changed to: zażółć / ServerID: srv"));
    assert_eq!(info.ext_session_username, "zażółć");

    let (code, text) = command_handler(&command("setnick   good_nick-1  more"), "c1", &mut info, &clients, "srv", 0);
    assert_eq!((code, text.as_str()), (201, "Nick changed to: good_nick-1 / ServerID: srv"));
    clients.insert("c1", info.copy());

    let mut other = ClientInfo::new();
    let (code, text) = command_handler(&command("setnick good_nick-1"), "c2", &mut other, &clients, "srv", 0);
    assert_eq!((code, text.as_str()), (405, "Nick 'good_nick-1' is already taken. Choose a different one."));
    assert_eq!(other.ext_session_username, "");
    assert!(is_nick_taken(&clients, "good_nick-1", "c2"));
    assert!(!is_nick_taken(&clients, "good_nick-1", "c1"));

    let (code, text) = command_handler(&command("  dance  "), "c1", &mut info, &clients, "srv", 0);
    assert_eq!((code, text.as_str()), (405, "Unknown command: dance. Type 'help' for available commands."));
    let (code, text) = command_handler(&command(""), "c1", &mut info, &clients, "srv", 0);
    assert_eq!((code, text.as_str()), (405, "Unknown command: . Type 'help' for available commands."));
}

/// The text form that a client writes for the server: the packet without its
/// closing blank line.
fn client_text(code: i32, from: &str, body: &str, to: &str, key: [u8; 32]) -> String {
    let packet = encapsulate_to_fctp(code, from, body, to, key);
    packet.strip_suffix("\r\n\r\n").unwrap().to_string()
}

#[test]
fn key_exchange_agrees_and_messages_are_routed() {
    let mut clients = Clients::new();
    let mut cert = CertState::new();
    let (sec, public) = generate_keypair();
    set_cert(&mut cert, public, sec);

    let mut conn_a = accept_client(&mut clients, "alice-id");
    let mut conn_b = accept_client(&mut clients, "bob-id");
    assert!(clients.contains("alice-id") && clients.contains("bob-id"));

    // alice's key exchange, as the graphical client does it
    let mut alice = ClientState::new();
    let greet = greeting(&conn_a, &cert).expect("a greeting before the key exchange");
    let reply = match gui_handle_text(&mut alice, &greet) {
        GuiStreamOutcome::Send(bytes) => bytes,
        _ => panic!("the client answers the certificate"),
    };
    let session_reply = match handle_chunk(&mut conn_a, &mut clients, &cert, "srv", 0, &reply) {
        ServerAction::Reply(text) => text,
        _ => panic!("the server sends the session key"),
    };
    assert_ne!(conn_a.session_key, [0u8; 32]);
    match gui_handle_text(&mut alice, &session_reply) {
        GuiStreamOutcome::Send(packet) => {
            let hello = gui_client::fctp::decapsulate_fctp_message(&packet, alice.session_key).unwrap();
            assert_eq!(hello.code, 900);
            assert_eq!(hello.body, "id");
        }
        _ => panic!("the client asks for its identifier"),
    }
    assert_eq!(alice.session_key, conn_a.session_key);
    assert!(greeting(&conn_a, &cert).is_none());

    // a message from alice to bob
    conn_b.session_key = symmetric::keygen();
    let text = client_text(200, "whoever", "  hello bob ", " bob-id ", conn_a.session_key);
    match handle_chunk(&mut conn_a, &mut clients, &cert, "srv", 0, text.as_bytes()) {
        ServerAction::Forward { to, packet } => {
            assert_eq!(to, "bob-id");
            let key = clients.get("bob-id").unwrap().conn_session_key;
            let inner = packet.strip_suffix("\r\n\r\n").unwrap();
            let m = decapsulate_fctp_message(inner, key).unwrap();
            assert_eq!((m.code, m.from.as_str(), m.body.as_str(), m.to.as_str()), (200, "alice-id", "hello bob", "bob-id"));
        }
        _ => panic!("the message goes to bob"),
    }

    // to nobody: back to the sender
    let text = client_text(200, "x", "hi", "nobody", conn_a.session_key);
    match handle_chunk(&mut conn_a, &mut clients, &cert, "srv", 0, text.as_bytes()) {
        ServerAction::Forward { to, packet } => {
            assert_eq!(to, "alice-id");
            let key = clients.get("alice-id").unwrap().conn_session_key;
            let m = decapsulate_fctp_message(packet.strip_suffix("\r\n\r\n").unwrap(), key).unwrap();
            assert_eq!((m.code, m.from.as_str(), m.body.as_str()), (405, "srv", "Not found"));
        }
        _ => panic!("the sender hears that nobody has that identifier"),
    }

    // a ping
    let text = client_text(10, "x", "ping", "srv", conn_a.session_key);
    match handle_chunk(&mut conn_a, &mut clients, &cert, "srv", 0, text.as_bytes()) {
        ServerAction::Forward { to, packet } => {
            assert_eq!(to, "alice-id");
            let key = clients.get("alice-id").unwrap().conn_session_key;
            let m = decapsulate_fctp_message(packet.strip_suffix("\r\n\r\n").unwrap(), key).unwrap();
            assert_eq!((m.code, m.body.as_str()), (11, "pong"));
        }
        _ => panic!("a ping gets a pong"),
    }

    // a command changes the registry
    let text = client_text(201, "x", "setnick alice", "srv", conn_a.session_key);
    match handle_chunk(&mut conn_a, &mut clients, &cert, "srv", 0, text.as_bytes()) {
        ServerAction::Forward { to, .. } => assert_eq!(to, "alice-id"),
        _ => panic!("a command is answered"),
    }
    assert_eq!(clients.get("alice-id").unwrap().ext_session_username, "alice");

    // an unknown code, and a text that does not decrypt
    let text = client_text(777, "x", "?", "srv", conn_a.session_key);
    match handle_chunk(&mut conn_a, &mut clients, &cert, "srv", 0, text.as_bytes()) {
        ServerAction::Forward { packet, .. } => {
            let key = clients.get("alice-id").unwrap().conn_session_key;
            let m = decapsulate_fctp_message(packet.strip_suffix("\r\n\r\n").unwrap(), key).unwrap();
            assert_eq!((m.code, m.body.as_str()), (405, "Unsupported header code, error!"));
        }
        _ => panic!("an unknown code is refused"),
    }
    match handle_chunk(&mut conn_a, &mut clients, &cert, "srv", 0, b"garbage") {
        ServerAction::Forward { packet, .. } => {
            let key = clients.get("alice-id").unwrap().conn_session_key;
            let m = decapsulate_fctp_message(packet.strip_suffix("\r\n\r\n").unwrap(), key).unwrap();
            assert_eq!((m.code, m.body.as_str()), (505, "Malformed header, error!"));
        }
        _ => panic!("a malformed text is refused"),
    }
    let short_nonce = format!("{}::{}", "AAAA", "AAAA");
    assert!(matches!(
        handle_chunk(&mut conn_a, &mut clients, &cert, "srv", 0, short_nonce.as_bytes()),
        ServerAction::Stop(_)
    ));
    assert!(matches!(handle_chunk(&mut conn_a, &mut clients, &cert, "srv", 0, &[0xff, 0xfe]), ServerAction::Nothing));

    disconnect_client(&mut clients, "bob-id");
    assert!(!clients.contains("bob-id"));
}

#[test]
fn handshake_errors_are_reported() {
    let mut clients = Clients::new();
    let mut cert = CertState::new();
    let (sec, public) = generate_keypair();
    set_cert(&mut cert, public, sec);
    let mut conn = accept_client(&mut clients, "c");
    match handle_chunk(&mut conn, &mut clients, &cert, "srv", 0, b"%%%") {
        ServerAction::Report(s) => assert!(s.starts_with("Decoding error: ")),
        _ => panic!("a bad Base64 text is reported"),
    }
    match handle_chunk(&mut conn, &mut clients, &cert, "srv", 0, b"AAAA") {
        ServerAction::Report(s) => assert_eq!(s, "Decryption error: Message too short"),
        _ => panic!("a short message is reported"),
    }
    assert_eq!(conn.session_key, [0u8; 32]);
}

#[test]
fn desktop_client_key_exchange_agrees() {

    let mut clients = Clients::new();
    let mut cert = CertState::new();
    let (sec, public) = generate_keypair();
    set_cert(&mut cert, public, sec);
    let mut conn = accept_client(&mut clients, "desk");

    let mut client = ClientState::new();
    let greet = greeting(&conn, &cert).unwrap();
    let line = handshake_line(greet.as_bytes()).expect("the greeting holds a line");
    let cert_pub = match handle_server_message(&mut client, line.as_bytes()) {
        ServerMessage::Handshake(Ok(HandshakeStep::Certificate(k))) => k,
        _ => panic!("the client reads the certificate"),
    };
    assert_eq!(cert_pub, public);
    let reply = handle_certificate_exchange(&mut client, &cert_pub).unwrap();
    let session_text = match handle_chunk(&mut conn, &mut clients, &cert, "srv", 0, &reply) {
        ServerAction::Reply(text) => text,
        _ => panic!("the server sends the session key"),
    };
    let line = handshake_line(session_text.as_bytes()).unwrap();
    let decoded = match handle_server_message(&mut client, line.as_bytes()) {
        ServerMessage::Handshake(Ok(HandshakeStep::SessionKey(d))) => d,
        _ => panic!("the client reads the session key"),
    };
    let hello = establish_session_key(&mut client, &decoded).unwrap();
    assert!(!hello.is_empty());
    assert_eq!(client.session_key, conn.session_key);
}

#[test]
fn desktop_client_announces_its_public_key_after_the_exchange() {
    let mut clients = Clients::new();
    let mut cert = CertState::new();
    let (sec, public) = generate_keypair();
    set_cert(&mut cert, public, sec);
    let mut conn = accept_client(&mut clients, "desk");

    let mut client = ClientState::new();
    let greet = greeting(&conn, &cert).unwrap();
    let line = handshake_line(greet.as_bytes()).unwrap();
    let cert_pub = match handle_server_message(&mut client, line.as_bytes()) {
        ServerMessage::Handshake(Ok(HandshakeStep::Certificate(k))) => k,
        _ => panic!("the client reads the certificate"),
    };
    let reply = handle_certificate_exchange(&mut client, &cert_pub).unwrap();
    let session_text = match handle_chunk(&mut conn, &mut clients, &cert, "srv", 0, &reply) {
        ServerAction::Reply(text) => text,
        _ => panic!("the server sends the session key"),
    };
    let line = handshake_line(session_text.as_bytes()).unwrap();
    let decoded = match handle_server_message(&mut client, line.as_bytes()) {
        ServerMessage::Handshake(Ok(HandshakeStep::SessionKey(d))) => d,
        _ => panic!("the client reads the session key"),
    };
    let before = client.e2ee_pub;
    let step = try_handle_session_key_exchange(&mut client, &decoded).expect("a short message cannot run the counter out");
    assert!(step.result.is_ok());
    assert_eq!(step.packets.len(), 2);
    let key = client.session_key;
    assert_eq!(key, conn.session_key);
    let hello = open_frame(&step.packets[0], &key).unwrap();
    assert_eq!(hello.code, FctpCode::Hello);
    assert_eq!(hello.from, client.id);
    assert_eq!(hello.body, "id");
    assert_eq!(hello.to, client.server_id);

    assert_ne!(client.e2ee_pub, before);
    let announce = open_frame(&step.packets[1], &key).unwrap();
    assert_eq!(announce.code, FctpCode::PublicKeyExchange);
    assert_eq!(announce.from, client.id);
    assert_eq!(announce.body, base64_encode(&client.e2ee_pub));
    assert_eq!(announce.body.len(), 44);
    assert_eq!(announce.to, client.server_id);
}

#[test]
fn session_key_step_reports_a_bad_key_and_sends_nothing() {
    let mut client = ClientState::new();
    let step = handle_session_key_exchange(&mut client, b"too short to be a message");
    assert!(step.packets.is_empty());
    assert!(step.result.unwrap_err().starts_with("Session key decryption error: "));
    assert_eq!(client.session_key, [0u8; 32]);
}
