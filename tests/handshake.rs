use beammp_client::handshake::{
    parse_player_id, Action, AuthResult, Event, HandshakeError, HandshakeSession, Phase,
};
use std::collections::VecDeque;

/// What the client put on the wire, in order.
#[derive(Debug, PartialEq)]
enum Out {
    Raw(Vec<u8>),
    Frame(Vec<u8>),
}

fn auth(key: &str) -> AuthResult {
    AuthResult {
        success: true,
        message: "ok".to_string(),
        public_key: key.to_string(),
        username: "guest".to_string(),
    }
}

struct Run {
    sent: Vec<Out>,
    auth_requests: usize,
    delivered: Vec<String>,
    error: Option<HandshakeError>,
    session: HandshakeSession,
}

/// Drives a session against a scripted peer until the peer runs out of
/// frames or the session fails.
fn drive(frames: Vec<&[u8]>, key: &str) -> Run {
    let mut peer: VecDeque<Vec<u8>> = frames.into_iter().map(|f| f.to_vec()).collect();
    let mut session = HandshakeSession::new();
    let mut sent = Vec::new();
    let mut auth_requests = 0;
    let mut delivered = Vec::new();
    let mut error = None;
    loop {
        let event = match session.next_action() {
            Action::SendRaw(b) => {
                sent.push(Out::Raw(b));
                Event::Sent
            }
            Action::SendFrame(b) => {
                sent.push(Out::Frame(b));
                Event::Sent
            }
            Action::ReceiveFrame => match peer.pop_front() {
                Some(f) => Event::Frame(f),
                None => break,
            },
            Action::Authenticate => {
                auth_requests += 1;
                Event::AuthCompleted(auth(key))
            }
            Action::Halt => break,
        };
        match session.handle(event) {
            Ok(Some(text)) => delivered.push(text),
            Ok(None) => {}
            Err(e) => {
                error = Some(e);
                break;
            }
        }
    }
    Run { sent, auth_requests, delivered, error, session }
}

fn frame(b: &[u8]) -> Out {
    Out::Frame(b.to_vec())
}

#[test]
fn end_to_end_without_mods() {
    let run = drive(vec![b"S", b"P7", b"-"], "KEY123");
    assert_eq!(
        run.sent,
        vec![Out::Raw(b"C".to_vec()), frame(b"VC2.0"), frame(b"KEY123"), frame(b"SR")]
    );
    assert_eq!(run.auth_requests, 1);
    assert_eq!(run.error, None);
    assert_eq!(run.session.phase(), Phase::MessageLoop);
    assert_eq!(run.session.player_id(), Some(7));
    assert!(run.session.mods().is_empty());
}

#[test]
fn kick_after_version_stops_before_auth() {
    let run = drive(vec![b"K", b"P7", b"-"], "KEY");
    assert_eq!(run.error, Some(HandshakeError::Rejected));
    assert_eq!(run.auth_requests, 0);
    assert_eq!(run.sent, vec![Out::Raw(b"C".to_vec()), frame(b"VC2.0")]);
    assert_eq!(run.session.phase(), Phase::Closed);
    let mut session = run.session;
    assert!(matches!(session.next_action(), Action::Halt));
    assert_eq!(session.handle(Event::AuthCompleted(auth("KEY"))), Err(HandshakeError::OutOfOrder));
    assert!(matches!(session.next_action(), Action::Halt));
}

#[test]
fn error_status_is_a_rejection() {
    let run = drive(vec![b"Error: full"], "KEY");
    assert_eq!(run.error, Some(HandshakeError::Rejected));
    assert_eq!(run.auth_requests, 0);
}

#[test]
fn other_or_empty_status_is_a_violation() {
    assert_eq!(drive(vec![b"A"], "K").error, Some(HandshakeError::UnexpectedStatus));
    assert_eq!(drive(vec![b""], "K").error, Some(HandshakeError::UnexpectedStatus));
}

#[test]
fn one_ack_per_mod() {
    let run = drive(vec![b"S", b"P12", b"a.zip;b.zip;c.zip;1;2;3"], "KEY");
    assert_eq!(run.error, None);
    let acks = run.sent.iter().filter(|o| **o == frame(b"f")).count();
    assert_eq!(acks, 3);
    assert_eq!(
        &run.sent[4..],
        &[frame(b"f"), frame(b"f"), frame(b"f")]
    );
    assert_eq!(run.session.phase(), Phase::MessageLoop);
    assert_eq!(run.session.player_id(), Some(12));
    let names: Vec<&str> = run.session.mods().iter().map(|(n, _)| n.as_str()).collect();
    assert_eq!(names, vec!["a.zip", "b.zip", "c.zip"]);
}

#[test]
fn message_loop_delivers_text() {
    let run = drive(vec![b"S", b"P1", b"-", b"hello", b"world"], "KEY");
    assert_eq!(run.error, None);
    assert_eq!(run.delivered, vec!["hello".to_string(), "world".to_string()]);
}

#[test]
fn message_loop_rejects_invalid_text() {
    let run = drive(vec![b"S", b"P1", b"-", &[0xff, 0xfe]], "KEY");
    assert_eq!(run.error, Some(HandshakeError::InvalidText));
}

#[test]
fn bad_player_id_is_a_violation() {
    assert_eq!(drive(vec![b"S", b"Pxy"], "K").error, Some(HandshakeError::InvalidPlayerId));
    assert_eq!(drive(vec![b"S", b""], "K").error, Some(HandshakeError::InvalidPlayerId));
    assert_eq!(drive(vec![b"S", b"P"], "K").error, Some(HandshakeError::InvalidPlayerId));
    assert_eq!(drive(vec![b"S", b"P256"], "K").error, Some(HandshakeError::InvalidPlayerId));
}

#[test]
fn bad_mod_list_is_a_violation() {
    assert_eq!(
        drive(vec![b"S", b"P1", b"a;b;ten;2"], "K").error,
        Some(HandshakeError::InvalidModList)
    );
    assert_eq!(drive(vec![b"S", b"P1", &[0xc3]], "K").error, Some(HandshakeError::InvalidText));
}

#[test]
fn public_key_is_sent_as_utf8() {
    let run = drive(vec![b"S"], "clé");
    assert_eq!(run.sent[2], frame("clé".as_bytes()));
}

#[test]
fn player_ids() {
    assert_eq!(parse_player_id(b"P7"), Some(7));
    assert_eq!(parse_player_id(b"P255"), Some(255));
    assert_eq!(parse_player_id(b"X+3"), Some(3));
    assert_eq!(parse_player_id(b"7"), None);
    assert_eq!(parse_player_id(b""), None);
    assert_eq!(parse_player_id(b"P-1"), None);
}

#[test]
fn events_out_of_order_close_the_session() {
    let mut session = HandshakeSession::new();
    assert_eq!(session.handle(Event::Frame(b"S".to_vec())), Err(HandshakeError::OutOfOrder));
    assert_eq!(session.phase(), Phase::Closed);
}
