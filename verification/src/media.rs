//! Now-playing card: what the card shows of the current media session, and
//! the decisions of the dedicated media thread.
//!
//! The shell reads title, artist, artwork and playback state from the
//! system media session and forwards transport commands to it; this module
//! turns what was read into the card's state, and decides, for each wake-up
//! of the media thread, what that thread does next.

use vstd::prelude::*;
use base64::Engine;

verus! {

/// Playback state of a media session, by the numeric codes of the Windows
/// System Media Transport Controls.
#[derive(Clone, Copy, PartialEq, Eq, Structural, Debug)]
pub enum PlaybackStatus {
    Closed,
    Opened,
    Changing,
    Stopped,
    Playing,
    Paused,
    /// A code that none of the above has.
    Other(i32),
}

/// The status that a numeric playback status code stands for.
pub open spec fn status_of_code(code: i32) -> PlaybackStatus {
    if code == 0 {
        PlaybackStatus::Closed
    } else if code == 1 {
        PlaybackStatus::Opened
    } else if code == 2 {
        PlaybackStatus::Changing
    } else if code == 3 {
        PlaybackStatus::Stopped
    } else if code == 4 {
        PlaybackStatus::Playing
    } else if code == 5 {
        PlaybackStatus::Paused
    } else {
        PlaybackStatus::Other(code)
    }
}

impl PlaybackStatus {
    /// The status with the numeric code `code`.
    pub fn from_code(code: i32) -> (s: Self)
        ensures
            s == status_of_code(code),
    {
        if code == 0 {
            PlaybackStatus::Closed
        } else if code == 1 {
            PlaybackStatus::Opened
        } else if code == 2 {
            PlaybackStatus::Changing
        } else if code == 3 {
            PlaybackStatus::Stopped
        } else if code == 4 {
            PlaybackStatus::Playing
        } else if code == 5 {
            PlaybackStatus::Paused
        } else {
            PlaybackStatus::Other(code)
        }
    }
}

/// The label the card shows for a playback status.
pub open spec fn status_label(status: PlaybackStatus) -> Seq<char> {
    match status {
        PlaybackStatus::Playing => "playing"@,
        PlaybackStatus::Paused => "paused"@,
        PlaybackStatus::Stopped => "stopped"@,
        _ => "unknown"@,
    }
}

/// The label the card shows for `status`.
pub fn playback_status_label(status: PlaybackStatus) -> (label: &'static str)
    ensures
        label@ == status_label(status),
{
    match status {
        PlaybackStatus::Playing => "playing",
        PlaybackStatus::Paused => "paused",
        PlaybackStatus::Stopped => "stopped",
        _ => "unknown",
    }
}

/// What the now-playing card shows.
pub struct NowPlaying {
    pub title: String,
    pub artist: String,
    /// "playing", "paused", "stopped" or "unknown".
    pub status: String,
    /// The artwork as a `data:` URL, where there is artwork.
    pub thumbnail_data_url: Option<String>,
}

/// What was read of the current media session: its title and artist (empty
/// where the session gave none), its playback status and its artwork.
pub struct SessionSnapshot {
    pub title: String,
    pub artist: String,
    pub status: PlaybackStatus,
    pub thumbnail_data_url: Option<String>,
}

/// Whether a session with this title is shown on the card at all: one
/// without a title is not, so its artist and artwork need not be read.
pub fn session_shown(title: &str) -> (shown: bool)
    ensures
        shown == (title@.len() > 0),
{
    !title.is_empty()
}

/// The card's state for what was read of the current session: nothing where
/// there is no session (or it could not be read) or where it has no title.
pub fn poll_now_playing(snapshot: Option<SessionSnapshot>) -> (r: Option<NowPlaying>)
    ensures
        r is None <==> (snapshot is None || snapshot->Some_0.title@.len() == 0),
        r matches Some(np) ==> {
            let s = snapshot->Some_0;
            &&& np.title == s.title
            &&& np.artist == s.artist
            &&& np.status@ == status_label(s.status)
            &&& np.thumbnail_data_url == s.thumbnail_data_url
        },
{
    match snapshot {
        None => None,
        Some(s) => {
            if !session_shown(s.title.as_str()) {
                None
            } else {
                let status = String::from_str(playback_status_label(s.status));
                Some(
                    NowPlaying {
                        title: s.title,
                        artist: s.artist,
                        status,
                        thumbnail_data_url: s.thumbnail_data_url,
                    },
                )
            }
        },
    }
}

/// Largest artwork that is read; real album art is a few hundred KB at most.
pub const MAX_THUMBNAIL_BYTES: u64 = 8 * 1024 * 1024;

/// Whether artwork of `size` bytes is read at all: empty or oversized
/// artwork is treated as no artwork.
pub fn thumbnail_size_acceptable(size: u64) -> (ok: bool)
    ensures
        ok == (0 < size && size <= MAX_THUMBNAIL_BYTES),
{
    size != 0 && size <= MAX_THUMBNAIL_BYTES
}

/// The character of the standard base64 alphabet (RFC 4648) for the 6-bit
/// value `v`.
pub open spec fn base64_digit(v: int) -> char {
    if v < 26 {
        (65 + v) as char
    } else if v < 52 {
        (97 + (v - 26)) as char
    } else if v < 62 {
        (48 + (v - 52)) as char
    } else if v == 62 {
        '+'
    } else {
        '/'
    }
}

/// The standard base64 encoding of `bytes` (RFC 4648, with `=` padding):
/// each group of three bytes becomes four characters of six bits each, and
/// a final group of one or two bytes is padded to four characters.
pub open spec fn base64_standard(bytes: Seq<u8>) -> Seq<char>
    decreases bytes.len(),
{
    if bytes.len() == 0 {
        Seq::empty()
    } else if bytes.len() == 1 {
        let b0 = bytes[0] as int;
        seq![base64_digit(b0 / 4), base64_digit((b0 % 4) * 16), '=', '=']
    } else if bytes.len() == 2 {
        let (b0, b1) = (bytes[0] as int, bytes[1] as int);
        seq![
            base64_digit(b0 / 4),
            base64_digit((b0 % 4) * 16 + b1 / 16),
            base64_digit((b1 % 16) * 4),
            '=',
        ]
    } else {
        let (b0, b1, b2) = (bytes[0] as int, bytes[1] as int, bytes[2] as int);
        seq![
            base64_digit(b0 / 4),
            base64_digit((b0 % 4) * 16 + b1 / 16),
            base64_digit((b1 % 16) * 4 + b2 / 64),
            base64_digit(b2 % 64),
        ] + base64_standard(bytes.subrange(3, bytes.len() as int))
    }
}

/// The 6-bit value of a character of the standard base64 alphabet.
pub open spec fn base64_value(c: char) -> int {
    let n = c as int;
    if 65 <= n <= 90 {
        n - 65
    } else if 97 <= n <= 122 {
        n - 97 + 26
    } else if 48 <= n <= 57 {
        n - 48 + 52
    } else if c == '+' {
        62
    } else {
        63
    }
}

/// The bytes that one group of four base64 characters stands for: one where
/// the group ends in `==`, two where it ends in `=`, three otherwise.
pub open spec fn base64_decode_group(g: Seq<char>) -> Seq<u8> {
    let (v0, v1, v2, v3) = (
        base64_value(g[0]),
        base64_value(g[1]),
        base64_value(g[2]),
        base64_value(g[3]),
    );
    let b0 = (v0 * 4 + v1 / 16) as u8;
    let b1 = ((v1 % 16) * 16 + v2 / 4) as u8;
    let b2 = ((v2 % 4) * 64 + v3) as u8;
    if g[2] == '=' {
        seq![b0]
    } else if g[3] == '=' {
        seq![b0, b1]
    } else {
        seq![b0, b1, b2]
    }
}

/// Standard base64 decoding of text made of whole groups of four characters.
pub open spec fn base64_decode(s: Seq<char>) -> Seq<u8>
    decreases s.len(),
{
    if s.len() < 4 {
        Seq::empty()
    } else {
        base64_decode_group(s.take(4)) + base64_decode(s.skip(4))
    }
}

proof fn lemma_base64_digit(v: int)
    requires
        0 <= v < 64,
    ensures
        base64_value(base64_digit(v)) == v,
        base64_digit(v) != '=',
{
    if v < 26 {
        assert(((65 + v) as char) as int == 65 + v);
    } else if v < 52 {
        assert(((97 + (v - 26)) as char) as int == 97 + (v - 26));
    } else if v < 62 {
        assert(((48 + (v - 52)) as char) as int == 48 + (v - 52));
    }
}

proof fn lemma_base64_group_arith(b0: int, b1: int, b2: int)
    requires
        0 <= b0 < 256,
        0 <= b1 < 256,
        0 <= b2 < 256,
    ensures
        0 <= b0 / 4 < 64,
        0 <= (b0 % 4) * 16 + b1 / 16 < 64,
        0 <= (b1 % 16) * 4 + b2 / 64 < 64,
        0 <= b2 % 64 < 64,
        0 <= (b0 % 4) * 16 < 64,
        0 <= (b1 % 16) * 4 < 64,
        (b0 / 4) * 4 + ((b0 % 4) * 16 + b1 / 16) / 16 == b0,
        (((b0 % 4) * 16 + b1 / 16) % 16) * 16 + ((b1 % 16) * 4 + b2 / 64) / 4 == b1,
        (((b1 % 16) * 4 + b2 / 64) % 4) * 64 + b2 % 64 == b2,
        (b0 / 4) * 4 + ((b0 % 4) * 16) / 16 == b0,
        (((b0 % 4) * 16 + b1 / 16) % 16) * 16 + ((b1 % 16) * 4) / 4 == b1,
{
}

/// Standard base64 decoding gives back exactly the bytes that were encoded,
/// so the encoding loses nothing and different bytes never encode alike.
pub proof fn lemma_base64_round_trip(bytes: Seq<u8>)
    ensures
        base64_decode(base64_standard(bytes)) == bytes,
    decreases bytes.len(),
{
    let s = base64_standard(bytes);
    if bytes.len() == 0 {
        assert(base64_decode(s) =~= bytes);
    } else if bytes.len() == 1 {
        let b0 = bytes[0] as int;
        lemma_base64_group_arith(b0, 0, 0);
        lemma_base64_digit(b0 / 4);
        lemma_base64_digit((b0 % 4) * 16);
        assert(s.take(4) =~= s);
        assert(s.skip(4) =~= Seq::<char>::empty());
        assert(base64_decode(Seq::<char>::empty()) =~= Seq::<u8>::empty());
        assert(base64_decode(s) =~= base64_decode_group(s));
        assert(base64_decode_group(s) =~= bytes);
    } else if bytes.len() == 2 {
        let (b0, b1) = (bytes[0] as int, bytes[1] as int);
        lemma_base64_group_arith(b0, b1, 0);
        lemma_base64_digit(b0 / 4);
        lemma_base64_digit((b0 % 4) * 16 + b1 / 16);
        lemma_base64_digit((b1 % 16) * 4);
        assert(s.take(4) =~= s);
        assert(s.skip(4) =~= Seq::<char>::empty());
        assert(base64_decode(Seq::<char>::empty()) =~= Seq::<u8>::empty());
        assert(base64_decode(s) =~= base64_decode_group(s));
        assert(base64_decode_group(s) =~= bytes);
    } else {
        let (b0, b1, b2) = (bytes[0] as int, bytes[1] as int, bytes[2] as int);
        lemma_base64_group_arith(b0, b1, b2);
        lemma_base64_digit(b0 / 4);
        lemma_base64_digit((b0 % 4) * 16 + b1 / 16);
        lemma_base64_digit((b1 % 16) * 4 + b2 / 64);
        lemma_base64_digit(b2 % 64);
        let rest = bytes.subrange(3, bytes.len() as int);
        lemma_base64_round_trip(rest);
        let g = seq![
            base64_digit(b0 / 4),
            base64_digit((b0 % 4) * 16 + b1 / 16),
            base64_digit((b1 % 16) * 4 + b2 / 64),
            base64_digit(b2 % 64),
        ];
        assert(s == g + base64_standard(rest));
        assert(s.take(4) =~= g);
        assert(s.skip(4) =~= base64_standard(rest));
        assert(base64_decode_group(g) =~= bytes.take(3));
        assert(bytes =~= bytes.take(3) + rest);
    }
}

/// Different bytes never have the same standard base64 encoding.
pub proof fn lemma_base64_injective(a: Seq<u8>, b: Seq<u8>)
    requires
        base64_standard(a) == base64_standard(b),
    ensures
        a == b,
{
    lemma_base64_round_trip(a);
    lemma_base64_round_trip(b);
}

/// Whether the length of the base64 encoding of `n` bytes fits in a `usize`.
pub open spec fn base64_len_fits(n: nat) -> bool {
    if n % 3 == 0 {
        n / 3 * 4 <= usize::MAX
    } else {
        n / 3 * 4 + 4 <= usize::MAX
    }
}

/// Calls `Engine::encode` of the `base64` crate with the `STANDARD` engine.
/// The contract claims that its result is the standard padded base64
/// encoding of the input, as `base64_standard` states it; the call panics
/// only where the encoded length overflows a `usize`, which `requires`
/// leaves out.
#[verifier::external_body]
fn encode_base64(bytes: &[u8]) -> (s: String)
    requires
        base64_len_fits(bytes@.len()),
    ensures
        s@ == base64_standard(bytes@),
{
    base64::engine::general_purpose::STANDARD.encode(bytes)
}

/// The MIME type assumed for artwork whose content type could not be read.
pub open spec fn fallback_content_type() -> Seq<char> {
    "image/png"@
}

/// The `data:` URL of base64-encoded content of the given type.
pub open spec fn data_url(content_type: Option<Seq<char>>, encoded: Seq<char>) -> Seq<char> {
    let ct = match content_type {
        Some(c) => c,
        None => fallback_content_type(),
    };
    "data:"@ + ct + ";base64,"@ + encoded
}

/// Builds the `data:` URL of already encoded artwork; `None` for the content
/// type means that it could not be read.
pub fn data_url_from_encoded(content_type: Option<String>, encoded: &str) -> (url: String)
    ensures
        url@ == data_url(
            match content_type {
                Some(c) => Some(c@),
                None => None,
            },
            encoded@,
        ),
{
    let mut url = String::from_str("data:");
    match &content_type {
        Some(c) => url.append(c.as_str()),
        None => url.append("image/png"),
    }
    url.append(";base64,");
    url.append(encoded);
    url
}

/// The `data:` URL of artwork with the given bytes, which the card can use
/// as an image source directly.
pub fn thumbnail_data_url(content_type: Option<String>, bytes: &[u8]) -> (url: String)
    requires
        base64_len_fits(bytes@.len()),
    ensures
        url@ == data_url(
            match content_type {
                Some(c) => Some(c@),
                None => None,
            },
            base64_standard(bytes@),
        ),
{
    let encoded = encode_base64(bytes);
    data_url_from_encoded(content_type, encoded.as_str())
}

/// Decoding the text after the header of an artwork URL gives back exactly
/// the artwork's bytes.
pub proof fn lemma_artwork_url_decodes(content_type: Option<Seq<char>>, bytes: Seq<u8>)
    ensures
        base64_decode(
            data_url(content_type, base64_standard(bytes)).skip(
                data_url(content_type, Seq::empty()).len() as int,
            ),
        ) == bytes,
{
    let header = data_url(content_type, Seq::empty());
    let url = data_url(content_type, base64_standard(bytes));
    assert(header + Seq::<char>::empty() =~= header);
    assert(url.skip(header.len() as int) =~= base64_standard(bytes));
    lemma_base64_round_trip(bytes);
}

/// A transport command sent from the frontend.
#[derive(Clone, Copy, PartialEq, Eq, Structural, Debug)]
pub enum MediaCommand {
    TogglePlayPause,
    Next,
    Previous,
}

/// A signal that wakes the media thread: a transport command, or a change
/// reported by the media session manager or the current session.
#[derive(Clone, Copy, PartialEq, Eq, Structural, Debug)]
pub enum MediaEvent {
    Command(MediaCommand),
    /// The foreground session changed; the thread subscribes to the new one.
    SessionsChanged,
    /// The current session's properties, playback or timeline changed.
    SessionStateChanged,
}

/// What waiting on the media thread's channel gave.
#[derive(Clone, Copy, PartialEq, Eq, Structural, Debug)]
pub enum MonitorWake {
    Event(MediaEvent),
    /// The fallback poll interval passed without a signal.
    Timeout,
    /// Every sender is gone.
    Disconnected,
}

/// How the media thread learns of changes.
#[derive(Clone, Copy, PartialEq, Eq, Structural, Debug)]
pub enum MonitorMode {
    /// Session events are subscribed to, with a coarse poll as a safety net.
    EventDriven,
    /// No session manager could be had: only commands and the poll remain.
    PollOnly,
}

/// What the media thread does after a wake-up, in this order: forward a
/// command to the session, subscribe to the current session anew, send the
/// card's fresh state, or leave the loop.
#[derive(Clone, Copy, PartialEq, Eq, Structural, Debug)]
pub struct MonitorAction {
    pub apply: Option<MediaCommand>,
    pub resubscribe: bool,
    pub emit: bool,
    pub stop: bool,
}

/// The media thread's answer to `wake` in `mode`.
pub open spec fn monitor_action(mode: MonitorMode, wake: MonitorWake) -> MonitorAction {
    MonitorAction {
        apply: match wake {
            MonitorWake::Event(MediaEvent::Command(c)) => Some(c),
            _ => None,
        },
        resubscribe: mode == MonitorMode::EventDriven && wake == MonitorWake::Event(
            MediaEvent::SessionsChanged,
        ),
        emit: match wake {
            MonitorWake::Timeout => true,
            MonitorWake::Event(MediaEvent::Command(_)) => true,
            MonitorWake::Event(_) => mode == MonitorMode::EventDriven,
            MonitorWake::Disconnected => false,
        },
        stop: wake == MonitorWake::Disconnected,
    }
}

/// Decides what the media thread does after waking up with `wake`.
pub fn media_monitor_step(mode: MonitorMode, wake: MonitorWake) -> (a: MonitorAction)
    ensures
        a == monitor_action(mode, wake),
{
    match wake {
        MonitorWake::Event(MediaEvent::Command(c)) => MonitorAction {
            apply: Some(c),
            resubscribe: false,
            emit: true,
            stop: false,
        },
        MonitorWake::Event(MediaEvent::SessionsChanged) => {
            let event_driven = match mode {
                MonitorMode::EventDriven => true,
                MonitorMode::PollOnly => false,
            };
            MonitorAction { apply: None, resubscribe: event_driven, emit: event_driven, stop: false }
        },
        MonitorWake::Event(MediaEvent::SessionStateChanged) => {
            let event_driven = match mode {
                MonitorMode::EventDriven => true,
                MonitorMode::PollOnly => false,
            };
            MonitorAction { apply: None, resubscribe: false, emit: event_driven, stop: false }
        },
        MonitorWake::Timeout => MonitorAction {
            apply: None,
            resubscribe: false,
            emit: true,
            stop: false,
        },
        MonitorWake::Disconnected => MonitorAction {
            apply: None,
            resubscribe: false,
            emit: false,
            stop: true,
        },
    }
}

/// With session events subscribed to, fresh state is sent after every
/// event, command and poll tick: after every wake-up but the channel closing.
pub proof fn lemma_event_driven_emits_on_every_wake(wake: MonitorWake)
    ensures
        monitor_action(MonitorMode::EventDriven, wake).emit <==> wake != MonitorWake::Disconnected,
{
}

/// Every command that arrives is forwarded to the session, in either mode,
/// and followed by fresh state.
pub proof fn lemma_commands_always_applied(mode: MonitorMode, c: MediaCommand)
    ensures
        monitor_action(mode, MonitorWake::Event(MediaEvent::Command(c))).apply == Some(c),
        monitor_action(mode, MonitorWake::Event(MediaEvent::Command(c))).emit,
        !monitor_action(mode, MonitorWake::Event(MediaEvent::Command(c))).stop,
{
}

/// The loop ends exactly when the channel closes, and then does nothing
/// else; without a session manager, session signals cause no work.
pub proof fn lemma_stop_only_on_disconnect(mode: MonitorMode, wake: MonitorWake)
    ensures
        monitor_action(mode, wake).stop <==> wake == MonitorWake::Disconnected,
        monitor_action(mode, wake).stop ==> {
            &&& monitor_action(mode, wake).apply is None
            &&& !monitor_action(mode, wake).resubscribe
            &&& !monitor_action(mode, wake).emit
        },
        mode == MonitorMode::PollOnly ==> !monitor_action(mode, wake).resubscribe,
{
}

/// A transport command is forwarded exactly when the wake-up is that
/// command: a poll tick or a session signal never forwards one.
pub proof fn lemma_command_forwarded_only_for_commands(
    mode: MonitorMode,
    wake: MonitorWake,
    c: MediaCommand,
)
    ensures
        monitor_action(mode, wake).apply == Some(c) <==> wake == MonitorWake::Event(
            MediaEvent::Command(c),
        ),
        !(wake is Event && wake->Event_0 is Command) ==> monitor_action(mode, wake).apply is None,
        monitor_action(mode, MonitorWake::Timeout).apply is None,
{
}

/// A poll tick only sends fresh state; the session is subscribed to anew
/// only on a change of the foreground session with a session manager; and
/// without one, session signals cause no work at all.
pub proof fn lemma_wake_reactions(mode: MonitorMode, wake: MonitorWake)
    ensures
        monitor_action(mode, MonitorWake::Timeout) == (MonitorAction {
            apply: None,
            resubscribe: false,
            emit: true,
            stop: false,
        }),
        monitor_action(mode, wake).resubscribe <==> (mode == MonitorMode::EventDriven && wake
            == MonitorWake::Event(MediaEvent::SessionsChanged)),
        mode == MonitorMode::PollOnly && (wake == MonitorWake::Event(MediaEvent::SessionsChanged)
            || wake == MonitorWake::Event(MediaEvent::SessionStateChanged)) ==> monitor_action(
            mode,
            wake,
        ) == (MonitorAction { apply: None, resubscribe: false, emit: false, stop: false }),
        mode == MonitorMode::EventDriven && wake == MonitorWake::Event(
            MediaEvent::SessionStateChanged,
        ) ==> monitor_action(mode, wake) == (MonitorAction {
            apply: None,
            resubscribe: false,
            emit: true,
            stop: false,
        }),
{
}

/// The three session events the media thread subscribes to.
#[derive(Clone, Copy, PartialEq, Eq, Structural, Debug)]
pub enum SessionEventKind {
    MediaPropertiesChanged,
    PlaybackInfoChanged,
    TimelinePropertiesChanged,
}

/// The order in which the session events are subscribed to.
pub open spec fn subscription_order() -> Seq<SessionEventKind> {
    seq![
        SessionEventKind::MediaPropertiesChanged,
        SessionEventKind::PlaybackInfoChanged,
        SessionEventKind::TimelinePropertiesChanged,
    ]
}

/// Subscriptions register the media-properties handler first, then the
/// playback-info handler, then the timeline handler.
pub proof fn lemma_subscription_order()
    ensures
        subscription_order().len() == 3,
        subscription_order()[0] == SessionEventKind::MediaPropertiesChanged,
        subscription_order()[1] == SessionEventKind::PlaybackInfoChanged,
        subscription_order()[2] == SessionEventKind::TimelinePropertiesChanged,
{
}

/// A registration that fails after `k` handlers were registered unwinds
/// exactly those `k` handlers, each with its own token, in the order they
/// were registered; none is left registered.
pub proof fn lemma_failed_subscription_unwinds_all(registered: Seq<i64>)
    requires
        registered.len() < 3,
    ensures
        unwind_list(registered).len() == registered.len(),
        forall|i: int|
            0 <= i < registered.len() ==> (#[trigger] unwind_list(registered)[i]).1 == registered[i],
        registered.len() >= 1 ==> unwind_list(registered)[0] == (
            SessionEventKind::MediaPropertiesChanged,
            registered[0],
        ),
        registered.len() == 2 ==> unwind_list(registered)[1] == (
            SessionEventKind::PlaybackInfoChanged,
            registered[1],
        ),
{
}

/// Registration tokens of the three per-session event handlers.
#[derive(Clone, Copy, PartialEq, Eq, Structural, Debug)]
pub struct SessionTokens {
    pub media_properties: i64,
    pub playback_info: i64,
    pub timeline_properties: i64,
}

/// A subscription to a session's events under way: the tokens of the
/// handlers registered so far, in the order of `subscription_order`.
pub struct SubscriptionProgress {
    registered: Vec<i64>,
}

impl View for SubscriptionProgress {
    type V = Seq<i64>;

    closed spec fn view(&self) -> Seq<i64> {
        self.registered@
    }
}

/// The handlers to unregister when a subscription fails after the handlers
/// with tokens `registered` were registered: all of them, in the order they
/// were registered.
pub open spec fn unwind_list(registered: Seq<i64>) -> Seq<(SessionEventKind, i64)> {
    Seq::new(registered.len(), |i: int| (subscription_order()[i], registered[i]))
}

/// The next step of a subscription.
pub enum SubscriptionStep {
    /// Register the handler for the next event.
    Continue(SubscriptionProgress),
    /// All three handlers are registered.
    Done(SessionTokens),
    /// A registration failed: unregister these handlers and give up.
    Failed(Vec<(SessionEventKind, i64)>),
}

impl SubscriptionProgress {
    #[verifier::type_invariant]
    spec fn incomplete(self) -> bool {
        self.registered@.len() < 3
    }

    /// A subscription with no handler registered yet.
    pub fn new() -> (p: Self)
        ensures
            p@ == Seq::<i64>::empty(),
    {
        SubscriptionProgress { registered: Vec::new() }
    }

    /// The event whose handler is registered next.
    pub fn next_event(&self) -> (k: SessionEventKind)
        ensures
            self@.len() < 3,
            k == subscription_order()[self@.len() as int],
    {
        proof {
            use_type_invariant(self);
        }
        if self.registered.len() == 0 {
            SessionEventKind::MediaPropertiesChanged
        } else if self.registered.len() == 1 {
            SessionEventKind::PlaybackInfoChanged
        } else {
            SessionEventKind::TimelinePropertiesChanged
        }
    }

    /// Takes the outcome of registering the handler for `next_event`: its
    /// token, or `None` where the registration failed.
    pub fn record(self, outcome: Option<i64>) -> (step: SubscriptionStep)
        ensures
            self@.len() < 3,
            match outcome {
                Some(t) => if self@.len() == 2 {
                    step == SubscriptionStep::Done(
                        SessionTokens {
                            media_properties: self@[0],
                            playback_info: self@[1],
                            timeline_properties: t,
                        },
                    )
                } else {
                    step matches SubscriptionStep::Continue(p) && p@ == self@.push(t)
                },
                None => step matches SubscriptionStep::Failed(v) && v@ == unwind_list(self@),
            },
    {
        proof {
            use_type_invariant(&self);
        }
        let mut registered = self.registered;
        match outcome {
            Some(t) => {
                if registered.len() == 2 {
                    SubscriptionStep::Done(
                        SessionTokens {
                            media_properties: registered[0],
                            playback_info: registered[1],
                            timeline_properties: t,
                        },
                    )
                } else {
                    registered.push(t);
                    SubscriptionStep::Continue(SubscriptionProgress { registered })
                }
            },
            None => {
                let mut unwind: Vec<(SessionEventKind, i64)> = Vec::new();
                let n = registered.len();
                for i in 0..n
                    invariant
                        n == registered@.len(),
                        n < 3,
                        unwind@ == unwind_list(registered@).take(i as int),
                {
                    let kind = if i == 0 {
                        SessionEventKind::MediaPropertiesChanged
                    } else {
                        SessionEventKind::PlaybackInfoChanged
                    };
                    unwind.push((kind, registered[i]));
                    proof {
                        assert(unwind@ =~= unwind_list(registered@).take(i + 1));
                    }
                }
                proof {
                    assert(unwind@ =~= unwind_list(registered@));
                }
                SubscriptionStep::Failed(unwind)
            },
        }
    }
}

/// How the media thread starts: whether session events are subscribed to,
/// and whether the card's state is sent before the first wake-up.
#[derive(Clone, Copy, PartialEq, Eq, Structural, Debug)]
pub struct MonitorStartup {
    pub mode: MonitorMode,
    /// Subscribe to the manager's session changes and to the current session.
    pub subscribe: bool,
    /// Send the card's state right away rather than at the first wake-up.
    pub emit_initial: bool,
}

/// The start of the media thread, given whether a session manager could be
/// had.
pub open spec fn monitor_startup_plan(has_manager: bool) -> MonitorStartup {
    if has_manager {
        MonitorStartup { mode: MonitorMode::EventDriven, subscribe: true, emit_initial: true }
    } else {
        MonitorStartup { mode: MonitorMode::PollOnly, subscribe: false, emit_initial: false }
    }
}

/// Decides how the media thread starts.
pub fn monitor_startup(has_manager: bool) -> (p: MonitorStartup)
    ensures
        p == monitor_startup_plan(has_manager),
{
    if has_manager {
        MonitorStartup { mode: MonitorMode::EventDriven, subscribe: true, emit_initial: true }
    } else {
        MonitorStartup { mode: MonitorMode::PollOnly, subscribe: false, emit_initial: false }
    }
}

/// With a session manager, the card gets its state before any wake-up, and
/// from then on after every one until the channel closes.
pub proof fn lemma_event_driven_card_always_fresh(wake: MonitorWake)
    ensures
        monitor_startup_plan(true).emit_initial,
        monitor_startup_plan(true).mode == MonitorMode::EventDriven,
        monitor_action(monitor_startup_plan(true).mode, wake).emit <==> wake
            != MonitorWake::Disconnected,
{
}

/// The handlers of a complete subscription, in the order they were
/// registered.
pub open spec fn handlers_of(t: SessionTokens) -> Seq<(SessionEventKind, i64)> {
    seq![
        (SessionEventKind::MediaPropertiesChanged, t.media_properties),
        (SessionEventKind::PlaybackInfoChanged, t.playback_info),
        (SessionEventKind::TimelinePropertiesChanged, t.timeline_properties),
    ]
}

/// The handlers to unregister to end a complete subscription.
pub fn session_handlers(t: SessionTokens) -> (v: Vec<(SessionEventKind, i64)>)
    ensures
        v@ == handlers_of(t),
{
    let mut v: Vec<(SessionEventKind, i64)> = Vec::new();
    v.push((SessionEventKind::MediaPropertiesChanged, t.media_properties));
    v.push((SessionEventKind::PlaybackInfoChanged, t.playback_info));
    v.push((SessionEventKind::TimelinePropertiesChanged, t.timeline_properties));
    proof {
        assert(v@ =~= handlers_of(t));
    }
    v
}

/// Ending a subscription unregisters exactly the handlers its registration
/// registered, as unwinding a failure after all three would.
pub proof fn lemma_handlers_match_registration(a: i64, b: i64, c: i64)
    ensures
        handlers_of(SessionTokens { media_properties: a, playback_info: b, timeline_properties: c })
            == unwind_list(seq![a, b, c]),
{
    assert(handlers_of(SessionTokens { media_properties: a, playback_info: b, timeline_properties: c })
        =~= unwind_list(seq![a, b, c]));
}

/// The one live subscription to a session's events, if any, with the
/// session `S` it belongs to. A subscription leaves it only together with
/// the handlers to unregister, so none is ever dropped while live.
pub struct CurrentSubscription<S> {
    current: Option<(S, SessionTokens)>,
}

impl<S> View for CurrentSubscription<S> {
    type V = Option<(S, SessionTokens)>;

    closed spec fn view(&self) -> Option<(S, SessionTokens)> {
        self.current
    }
}

/// A subscription handed out of a `CurrentSubscription`, as its session and
/// the handlers to unregister from it.
pub open spec fn released<S>(
    sub: Option<(S, SessionTokens)>,
    r: Option<(S, Vec<(SessionEventKind, i64)>)>,
) -> bool {
    match sub {
        None => r is None,
        Some((session, tokens)) => r matches Some((s, v)) && s == session && v@ == handlers_of(tokens),
    }
}

impl<S> CurrentSubscription<S> {
    /// No subscription.
    pub fn new() -> (c: Self)
        ensures
            c@ is None,
    {
        CurrentSubscription { current: None }
    }

    /// Takes the live subscription out, to be ended before subscribing to a
    /// session anew or when the media thread stops.
    pub fn release(&mut self) -> (r: Option<(S, Vec<(SessionEventKind, i64)>)>)
        ensures
            final(self)@ is None,
            released(old(self)@, r),
    {
        match self.current.take() {
            None => None,
            Some((session, tokens)) => Some((session, session_handlers(tokens))),
        }
    }

    /// Makes `sub` the live subscription, handing back the one it replaces.
    pub fn install(&mut self, sub: Option<(S, SessionTokens)>) -> (displaced: Option<
        (S, Vec<(SessionEventKind, i64)>),
    >)
        ensures
            final(self)@ == sub,
            released(old(self)@, displaced),
    {
        let displaced = self.release();
        self.current = sub;
        displaced
    }
}

/// Without a session manager, nothing is subscribed to and the card waits
/// for the first command or poll tick.
pub proof fn lemma_poll_only_startup()
    ensures
        monitor_startup_plan(false) == (MonitorStartup {
            mode: MonitorMode::PollOnly,
            subscribe: false,
            emit_initial: false,
        }),
        monitor_startup_plan(true).subscribe,
{
}

/// Ending a complete subscription unregisters its three handlers, each
/// with its own token.
pub proof fn lemma_handlers_of_tokens(t: SessionTokens)
    ensures
        handlers_of(t).len() == 3,
        handlers_of(t)[0] == (SessionEventKind::MediaPropertiesChanged, t.media_properties),
        handlers_of(t)[1] == (SessionEventKind::PlaybackInfoChanged, t.playback_info),
        handlers_of(t)[2] == (SessionEventKind::TimelinePropertiesChanged, t.timeline_properties),
{
}

/// A subscription handed out of the holder comes with its own session and
/// all three of its handlers; nothing is handed out where none was held.
pub proof fn lemma_released_subscription<S>(
    session: S,
    tokens: SessionTokens,
    r: Option<(S, Vec<(SessionEventKind, i64)>)>,
)
    ensures
        released(Some((session, tokens)), r) ==> (r matches Some((s, v)) && s == session && v@
            == seq![
            (SessionEventKind::MediaPropertiesChanged, tokens.media_properties),
            (SessionEventKind::PlaybackInfoChanged, tokens.playback_info),
            (SessionEventKind::TimelinePropertiesChanged, tokens.timeline_properties),
        ]),
        released(None::<(S, SessionTokens)>, r) <==> r is None,
{
}

/// The card labels exactly the playing, paused and stopped states by name
/// and every other state "unknown", and the status codes are those of the
/// System Media Transport Controls.
pub proof fn lemma_status_labels(status: PlaybackStatus, code: i32)
    ensures
        status_label(status) == "playing"@ <==> status == PlaybackStatus::Playing,
        status_label(status) == "paused"@ <==> status == PlaybackStatus::Paused,
        status_label(status) == "stopped"@ <==> status == PlaybackStatus::Stopped,
        status_label(status) == "unknown"@ <==> !(status == PlaybackStatus::Playing || status
            == PlaybackStatus::Paused || status == PlaybackStatus::Stopped),
        status_of_code(code) == PlaybackStatus::Playing <==> code == 4,
        status_of_code(code) == PlaybackStatus::Paused <==> code == 5,
        status_of_code(code) == PlaybackStatus::Stopped <==> code == 3,
        status_of_code(code) == PlaybackStatus::Closed <==> code == 0,
        status_of_code(code) == PlaybackStatus::Opened <==> code == 1,
        status_of_code(code) == PlaybackStatus::Changing <==> code == 2,
        (status_of_code(code) is Other) <==> !(0 <= code <= 5),
{
    reveal_strlit("playing");
    reveal_strlit("paused");
    reveal_strlit("stopped");
    reveal_strlit("unknown");
    assert("playing"@[1] != "paused"@[1]);
    assert("playing"@[0] != "stopped"@[0]);
    assert("playing"@[0] != "unknown"@[0]);
    assert("paused"@[0] != "stopped"@[0]);
    assert("paused"@[0] != "unknown"@[0]);
    assert("stopped"@[0] != "unknown"@[0]);
}

/// The artwork URL is `data:`, the content type (PNG where it could not be
/// read), `;base64,` and the encoded bytes.
pub proof fn lemma_data_url_shape(c: Seq<char>, encoded: Seq<char>)
    ensures
        data_url(Some(c), encoded) == "data:"@ + c + ";base64,"@ + encoded,
        data_url(None, encoded) == data_url(Some("image/png"@), encoded),
{
}

} // verus!
