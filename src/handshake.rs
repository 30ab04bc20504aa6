//! The client's side of the handshake: which message to send or expect next,
//! and what each received frame or finished step makes of the session.
//!
//! The session decides; its caller does the I/O. The caller asks for the
//! next action, performs it, and hands the outcome back as an event.
use vstd::prelude::*;
use vstd::string::StrSliceExecFns;
use vstd::utf8::{decode_utf8, encode_utf8, valid_utf8};
use crate::decimal::{decimal_of, parse_decimal};
use crate::modlist::{entries_view, mod_entries, parse_modlist};

verus! {

/// Where the handshake stands.
#[derive(Clone, Copy, Debug, PartialEq, Eq, Structural)]
pub enum Phase {
    /// The stream is connected; the identifier byte goes out next.
    Connected,
    /// The identifier byte went out; the version frame goes out next.
    IdentifierSent,
    /// The version frame went out; the server's status frame comes next.
    VersionSent,
    /// The server accepted the client; credentials are exchanged next.
    ServerAccepted,
    /// The public key is known; it goes out next.
    Authenticated,
    /// The public key went out; the player identifier comes next.
    PublicKeySent,
    /// The player identifier is known; the mod-list request goes out next.
    IdentifierAssigned,
    /// The mod list was requested; it comes next.
    ModListRequested,
    /// The mod list is known; its entries are being acknowledged.
    ModListReceived,
    /// The handshake is done; each inbound frame is a message.
    MessageLoop,
    /// The session failed and is over.
    Closed,
}

/// Why the session failed.
#[derive(Clone, Copy, Debug, PartialEq, Eq, Structural)]
pub enum HandshakeError {
    /// The server answered the version with an error (`E`) or a kick (`K`).
    Rejected,
    /// The status frame was empty or began with a byte other than `S`, `E`
    /// and `K`.
    UnexpectedStatus,
    /// The identifier frame did not hold a tag byte and a decimal player
    /// identifier.
    InvalidPlayerId,
    /// A frame that should hold text is not valid UTF-8.
    InvalidText,
    /// The mod list could not be parsed.
    InvalidModList,
    /// The event does not fit the phase, or the session is already closed.
    OutOfOrder,
}

/// What the credential exchange gave back.
pub struct AuthResult {
    pub success: bool,
    pub message: String,
    pub public_key: String,
    pub username: String,
}

/// What the caller is to do next.
#[derive(Debug)]
pub enum Action {
    /// Write these bytes as they are, without a frame.
    SendRaw(Vec<u8>),
    /// Write one frame carrying these bytes.
    SendFrame(Vec<u8>),
    /// Read one frame.
    ReceiveFrame,
    /// Exchange the credentials for a public key.
    Authenticate,
    /// Nothing: the session is over.
    Halt,
}

/// What happened after the last action.
pub enum Event {
    /// The bytes were written.
    Sent,
    /// A frame was read; its payload is given.
    Frame(Vec<u8>),
    /// The credential exchange finished.
    AuthCompleted(AuthResult),
}

/// An action seen as plain values.
pub enum ActionView {
    SendRaw(Seq<u8>),
    SendFrame(Seq<u8>),
    ReceiveFrame,
    Authenticate,
    Halt,
}

/// An event seen as plain values: of an auth result, only its public key.
pub enum EventView {
    Sent,
    Frame(Seq<u8>),
    AuthCompleted(Seq<char>),
}

impl View for Action {
    type V = ActionView;

    open spec fn view(&self) -> ActionView {
        match self {
            Action::SendRaw(b) => ActionView::SendRaw(b@),
            Action::SendFrame(b) => ActionView::SendFrame(b@),
            Action::ReceiveFrame => ActionView::ReceiveFrame,
            Action::Authenticate => ActionView::Authenticate,
            Action::Halt => ActionView::Halt,
        }
    }
}

impl View for Event {
    type V = EventView;

    open spec fn view(&self) -> EventView {
        match self {
            Event::Sent => EventView::Sent,
            Event::Frame(b) => EventView::Frame(b@),
            Event::AuthCompleted(a) => EventView::AuthCompleted(a.public_key@),
        }
    }
}

/// A session seen as plain values.
pub struct SessionView {
    pub phase: Phase,
    /// The public key to send, as bytes.
    pub public_key: Seq<u8>,
    /// The identifier the server assigned, once it has.
    pub player_id: Option<u8>,
    /// The negotiated mod list.
    pub mods: Seq<(Seq<char>, usize)>,
    /// How many mod entries have been acknowledged.
    pub acked: nat,
}

/// The byte that opens the connection.
pub open spec fn identifier_byte() -> Seq<u8> {
    seq![67u8]
}

/// The protocol version token, `VC2.0`.
pub open spec fn version_token() -> Seq<u8> {
    seq![86u8, 67u8, 50u8, 46u8, 48u8]
}

/// The mod-list request token, `SR`.
pub open spec fn mod_request_token() -> Seq<u8> {
    seq![83u8, 82u8]
}

/// The acknowledgment sent for each mod entry, `f`.
pub open spec fn ack_token() -> Seq<u8> {
    seq![102u8]
}

/// The session before anything was sent.
pub open spec fn initial_view() -> SessionView {
    SessionView {
        phase: Phase::Connected,
        public_key: Seq::empty(),
        player_id: None,
        mods: Seq::empty(),
        acked: 0,
    }
}

/// The action each phase calls for.
pub open spec fn action_of(s: SessionView) -> ActionView {
    match s.phase {
        Phase::Connected => ActionView::SendRaw(identifier_byte()),
        Phase::IdentifierSent => ActionView::SendFrame(version_token()),
        Phase::VersionSent => ActionView::ReceiveFrame,
        Phase::ServerAccepted => ActionView::Authenticate,
        Phase::Authenticated => ActionView::SendFrame(s.public_key),
        Phase::PublicKeySent => ActionView::ReceiveFrame,
        Phase::IdentifierAssigned => ActionView::SendFrame(mod_request_token()),
        Phase::ModListRequested => ActionView::ReceiveFrame,
        Phase::ModListReceived => ActionView::SendFrame(ack_token()),
        Phase::MessageLoop => ActionView::ReceiveFrame,
        Phase::Closed => ActionView::Halt,
    }
}

/// The bytes of `b` read one character each.
pub open spec fn byte_chars(b: Seq<u8>) -> Seq<char> {
    b.map_values(|x: u8| x as char)
}

/// The player identifier in an identifier frame: a one-byte tag, then the
/// identifier in decimal.
pub open spec fn player_id_of(f: Seq<u8>) -> Option<u8> {
    if f.len() >= 1 {
        match decimal_of(byte_chars(f.drop_first()), 255) {
            Some(v) => Some(v as u8),
            None => None,
        }
    } else {
        None
    }
}

pub open spec fn with_phase(s: SessionView, p: Phase) -> SessionView {
    SessionView { phase: p, ..s }
}

pub open spec fn failed(s: SessionView, e: HandshakeError) -> (
    SessionView,
    Result<Option<Seq<char>>, HandshakeError>,
) {
    (with_phase(s, Phase::Closed), Err(e))
}

pub open spec fn advanced(s: SessionView, p: Phase) -> (
    SessionView,
    Result<Option<Seq<char>>, HandshakeError>,
) {
    (with_phase(s, p), Ok(None))
}

/// What the server's status frame makes of the session.
pub open spec fn on_status(s: SessionView, f: Seq<u8>) -> (
    SessionView,
    Result<Option<Seq<char>>, HandshakeError>,
) {
    if f.len() == 0 {
        failed(s, HandshakeError::UnexpectedStatus)
    } else if f[0] == 69u8 || f[0] == 75u8 {
        failed(s, HandshakeError::Rejected)
    } else if f[0] == 83u8 {
        advanced(s, Phase::ServerAccepted)
    } else {
        failed(s, HandshakeError::UnexpectedStatus)
    }
}

/// What the mod-list frame makes of the session.
pub open spec fn on_mod_list(s: SessionView, f: Seq<u8>) -> (
    SessionView,
    Result<Option<Seq<char>>, HandshakeError>,
) {
    if !valid_utf8(f) {
        failed(s, HandshakeError::InvalidText)
    } else {
        match mod_entries(decode_utf8(f)) {
            Some(m) => {
                let p = if m.len() == 0 {
                    Phase::MessageLoop
                } else {
                    Phase::ModListReceived
                };
                (SessionView { phase: p, mods: m, acked: 0, ..s }, Ok(None))
            },
            None => failed(s, HandshakeError::InvalidModList),
        }
    }
}

/// What one event makes of the session, and what the step returns: a
/// message for the caller in the message loop, nothing before it, or the
/// error that closed the session.
pub open spec fn step(s: SessionView, e: EventView) -> (
    SessionView,
    Result<Option<Seq<char>>, HandshakeError>,
) {
    match (s.phase, e) {
        (Phase::Connected, EventView::Sent) => advanced(s, Phase::IdentifierSent),
        (Phase::IdentifierSent, EventView::Sent) => advanced(s, Phase::VersionSent),
        (Phase::VersionSent, EventView::Frame(f)) => on_status(s, f),
        (Phase::ServerAccepted, EventView::AuthCompleted(key)) => (
            SessionView { phase: Phase::Authenticated, public_key: encode_utf8(key), ..s },
            Ok(None),
        ),
        (Phase::Authenticated, EventView::Sent) => advanced(s, Phase::PublicKeySent),
        (Phase::PublicKeySent, EventView::Frame(f)) => match player_id_of(f) {
            Some(id) => (
                SessionView { phase: Phase::IdentifierAssigned, player_id: Some(id), ..s },
                Ok(None),
            ),
            None => failed(s, HandshakeError::InvalidPlayerId),
        },
        (Phase::IdentifierAssigned, EventView::Sent) => advanced(s, Phase::ModListRequested),
        (Phase::ModListRequested, EventView::Frame(f)) => on_mod_list(s, f),
        (Phase::ModListReceived, EventView::Sent) => {
            let p = if s.acked + 1 >= s.mods.len() {
                Phase::MessageLoop
            } else {
                Phase::ModListReceived
            };
            (SessionView { phase: p, acked: s.acked + 1, ..s }, Ok(None))
        },
        (Phase::MessageLoop, EventView::Frame(f)) => if valid_utf8(f) {
            (s, Ok(Some(decode_utf8(f))))
        } else {
            failed(s, HandshakeError::InvalidText)
        },
        _ => failed(s, HandshakeError::OutOfOrder),
    }
}

/// The session after the events, one after another.
pub open spec fn run(s: SessionView, events: Seq<EventView>) -> SessionView
    decreases events.len(),
{
    if events.len() == 0 {
        s
    } else {
        step(run(s, events.drop_last()), events.last()).0
    }
}

/// `n` reports that the last write went out.
pub open spec fn sent_events(n: nat) -> Seq<EventView> {
    Seq::new(n, |j: int| EventView::Sent)
}

proof fn lemma_closed_stays_closed(s: SessionView, events: Seq<EventView>)
    requires
        s.phase == Phase::Closed,
    ensures
        run(s, events).phase == Phase::Closed,
    decreases events.len(),
{
    if events.len() > 0 {
        lemma_closed_stays_closed(s, events.drop_last());
    }
}

/// A status frame that begins with `E` or `K`, received after the version
/// frame went out, ends the session at once with `Rejected`. Whatever comes
/// after, the session asks for nothing but to halt: never for the
/// credential exchange, never for another send or receive.
pub proof fn lemma_rejection_is_final(s: SessionView, f: Seq<u8>, later: Seq<EventView>)
    requires
        s.phase == Phase::VersionSent,
        f.len() > 0,
        f[0] == 69u8 || f[0] == 75u8,
    ensures
        step(s, EventView::Frame(f)).1 == Err::<Option<Seq<char>>, HandshakeError>(
            HandshakeError::Rejected,
        ),
        action_of(run(step(s, EventView::Frame(f)).0, later)) == ActionView::Halt,
{
    lemma_closed_stays_closed(step(s, EventView::Frame(f)).0, later);
}

proof fn lemma_acks_progress(s1: SessionView, i: nat)
    requires
        s1.phase == (if s1.mods.len() == 0 {
            Phase::MessageLoop
        } else {
            Phase::ModListReceived
        }),
        s1.acked == 0,
        i <= s1.mods.len(),
    ensures
        run(s1, sent_events(i)) == (SessionView {
            phase: if i < s1.mods.len() {
                Phase::ModListReceived
            } else {
                Phase::MessageLoop
            },
            acked: i,
            ..s1
        }),
    decreases i,
{
    if i > 0 {
        assert(sent_events(i).drop_last() == sent_events((i - 1) as nat));
        lemma_acks_progress(s1, (i - 1) as nat);
    } else {
        assert(sent_events(0) == Seq::<EventView>::empty());
    }
}

/// Once a mod list of `k` entries has arrived, the session asks for exactly
/// `k` single-byte `f` frames, one for each entry in list order, and then
/// for the first frame of the message loop.
pub proof fn lemma_one_ack_per_mod(s: SessionView, f: Seq<u8>, i: nat)
    requires
        s.phase == Phase::ModListRequested,
        valid_utf8(f),
        mod_entries(decode_utf8(f)) is Some,
    ensures
        step(s, EventView::Frame(f)).0.mods == mod_entries(decode_utf8(f))->0,
        i < mod_entries(decode_utf8(f))->0.len() ==> action_of(
            run(step(s, EventView::Frame(f)).0, sent_events(i)),
        ) == ActionView::SendFrame(ack_token()),
        run(
            step(s, EventView::Frame(f)).0,
            sent_events(mod_entries(decode_utf8(f))->0.len()),
        ).phase == Phase::MessageLoop,
{
    let s1 = step(s, EventView::Frame(f)).0;
    let k = mod_entries(decode_utf8(f))->0.len();
    if i < k {
        lemma_acks_progress(s1, i);
    }
    lemma_acks_progress(s1, k);
}

/// Relies on `String::from_utf8`: it succeeds exactly on valid UTF-8, and
/// the string then holds the characters the bytes encode.
#[verifier::external_body]
fn utf8_text(b: Vec<u8>) -> (r: Option<String>)
    ensures
        r is Some <==> valid_utf8(b@),
        r matches Some(t) ==> t@ == decode_utf8(b@),
{
    String::from_utf8(b).ok()
}

/// Reads the player identifier from an identifier frame: the first byte is
/// a tag and is skipped, the rest is the identifier in decimal.
pub fn parse_player_id(f: &[u8]) -> (r: Option<u8>)
    ensures
        r == player_id_of(f@),
{
    if f.len() == 0 {
        return None;
    }
    let mut digits: Vec<char> = Vec::new();
    let mut i: usize = 1;
    while i < f.len()
        invariant
            1 <= i <= f@.len(),
            digits@ == byte_chars(f@.subrange(1, i as int)),
        decreases f@.len() - i,
    {
        digits.push(f[i] as char);
        i = i + 1;
        assert(digits@ == byte_chars(f@.subrange(1, i as int)));
    }
    assert(f@.subrange(1, i as int) == f@.drop_first());
    match parse_decimal(digits.as_slice(), 255) {
        Some(v) => Some(v as u8),
        None => None,
    }
}

/// One client session: it owns the handshake's progress and the values the
/// steps hand forward.
pub struct HandshakeSession {
    phase: Phase,
    public_key: Vec<u8>,
    player_id: Option<u8>,
    mods: Vec<(String, usize)>,
    acked: usize,
}

impl View for HandshakeSession {
    type V = SessionView;

    closed spec fn view(&self) -> SessionView {
        SessionView {
            phase: self.phase,
            public_key: self.public_key@,
            player_id: self.player_id,
            mods: entries_view(self.mods@),
            acked: self.acked as nat,
        }
    }
}

impl HandshakeSession {
    /// While entries are being acknowledged, some are left.
    #[verifier::type_invariant]
    closed spec fn acks_in_range(&self) -> bool {
        &&& self.acked <= self.mods@.len()
        &&& self.phase == Phase::ModListReceived ==> self.acked < self.mods@.len()
    }

    /// A session on a freshly connected stream.
    pub fn new() -> (s: Self)
        ensures
            s@ == initial_view(),
    {
        let s = HandshakeSession {
            phase: Phase::Connected,
            public_key: Vec::new(),
            player_id: None,
            mods: Vec::new(),
            acked: 0,
        };
        assert(entries_view(s.mods@) == Seq::<(Seq<char>, usize)>::empty());
        s
    }

    /// What the caller is to do next.
    pub fn next_action(&self) -> (a: Action)
        ensures
            a@ == action_of(self@),
    {
        match self.phase {
            Phase::Connected => {
                let b = vec![67u8];
                assert(b@ == identifier_byte());
                Action::SendRaw(b)
            },
            Phase::IdentifierSent => {
                let b = vec![86u8, 67u8, 50u8, 46u8, 48u8];
                assert(b@ == version_token());
                Action::SendFrame(b)
            },
            Phase::VersionSent => Action::ReceiveFrame,
            Phase::ServerAccepted => Action::Authenticate,
            Phase::Authenticated => Action::SendFrame(self.public_key.clone()),
            Phase::PublicKeySent => Action::ReceiveFrame,
            Phase::IdentifierAssigned => {
                let b = vec![83u8, 82u8];
                assert(b@ == mod_request_token());
                Action::SendFrame(b)
            },
            Phase::ModListRequested => Action::ReceiveFrame,
            Phase::ModListReceived => {
                let b = vec![102u8];
                assert(b@ == ack_token());
                Action::SendFrame(b)
            },
            Phase::MessageLoop => Action::ReceiveFrame,
            Phase::Closed => Action::Halt,
        }
    }

    /// Where the handshake stands.
    pub fn phase(&self) -> (p: Phase)
        ensures
            p == self@.phase,
    {
        self.phase
    }

    /// The identifier the server assigned, once it has.
    pub fn player_id(&self) -> (r: Option<u8>)
        ensures
            r == self@.player_id,
    {
        self.player_id
    }

    /// The negotiated mod list: empty until it has arrived.
    pub fn mods(&self) -> (r: &Vec<(String, usize)>)
        ensures
            entries_view(r@) == self@.mods,
    {
        &self.mods
    }

    fn fail(&mut self, e: HandshakeError) -> (r: Result<Option<String>, HandshakeError>)
        ensures
            final(self)@ == with_phase(old(self)@, Phase::Closed),
            r == Err::<Option<String>, HandshakeError>(e),
    {
        proof {
            use_type_invariant(&*self);
        }
        self.phase = Phase::Closed;
        Err(e)
    }

    fn advance(&mut self, p: Phase) -> (r: Result<Option<String>, HandshakeError>)
        requires
            p != Phase::ModListReceived,
        ensures
            final(self)@ == with_phase(old(self)@, p),
            r is Ok && r->Ok_0 is None,
    {
        proof {
            use_type_invariant(&*self);
        }
        self.phase = p;
        Ok(None)
    }

    /// Takes the outcome of the last action and moves the session on.
    ///
    /// In the message loop a received frame is handed back as text. Any
    /// error closes the session for good.
    pub fn handle(&mut self, event: Event) -> (r: Result<Option<String>, HandshakeError>)
        ensures
            final(self)@ == step(old(self)@, event@).0,
            match r {
                Ok(Some(t)) => step(old(self)@, event@).1 == Ok::<Option<Seq<char>>, HandshakeError>(Some(t@)),
                Ok(None) => step(old(self)@, event@).1 == Ok::<Option<Seq<char>>, HandshakeError>(None),
                Err(e) => step(old(self)@, event@).1 == Err::<Option<Seq<char>>, HandshakeError>(e),
            },
    {
        proof {
            use_type_invariant(&*self);
        }
        match event {
            Event::Sent => match self.phase {
                Phase::Connected => self.advance(Phase::IdentifierSent),
                Phase::IdentifierSent => self.advance(Phase::VersionSent),
                Phase::Authenticated => self.advance(Phase::PublicKeySent),
                Phase::IdentifierAssigned => self.advance(Phase::ModListRequested),
                Phase::ModListReceived => {
                    let n = self.mods.len();
                    let next = self.acked + 1;
                    if next >= n {
                        self.phase = Phase::MessageLoop;
                    }
                    self.acked = next;
                    Ok(None)
                },
                _ => self.fail(HandshakeError::OutOfOrder),
            },
            Event::Frame(f) => match self.phase {
                Phase::VersionSent => {
                    if f.len() == 0 {
                        self.fail(HandshakeError::UnexpectedStatus)
                    } else if f[0] == 69u8 || f[0] == 75u8 {
                        self.fail(HandshakeError::Rejected)
                    } else if f[0] == 83u8 {
                        self.advance(Phase::ServerAccepted)
                    } else {
                        self.fail(HandshakeError::UnexpectedStatus)
                    }
                },
                Phase::PublicKeySent => match parse_player_id(f.as_slice()) {
                    Some(id) => {
                        self.player_id = Some(id);
                        self.advance(Phase::IdentifierAssigned)
                    },
                    None => self.fail(HandshakeError::InvalidPlayerId),
                },
                Phase::ModListRequested => match utf8_text(f) {
                    Some(text) => match parse_modlist(&text) {
                        Ok(mods) => {
                            let empty = mods.len() == 0;
                            self.acked = 0;
                            self.mods = mods;
                            if empty {
                                self.phase = Phase::MessageLoop;
                            } else {
                                self.phase = Phase::ModListReceived;
                            }
                            Ok(None)
                        },
                        Err(_) => self.fail(HandshakeError::InvalidModList),
                    },
                    None => self.fail(HandshakeError::InvalidText),
                },
                Phase::MessageLoop => match utf8_text(f) {
                    Some(text) => Ok(Some(text)),
                    None => self.fail(HandshakeError::InvalidText),
                },
                _ => self.fail(HandshakeError::OutOfOrder),
            },
            Event::AuthCompleted(a) => match self.phase {
                Phase::ServerAccepted => {
                    self.public_key = a.public_key.as_str().as_bytes_vec();
                    self.phase = Phase::Authenticated;
                    Ok(None)
                },
                _ => self.fail(HandshakeError::OutOfOrder),
            },
        }
    }
}

} // verus!
