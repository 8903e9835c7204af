//! Decisions of the persistent chat connection: which step comes next, which frames reach
//! the interpreter, and how replies are numbered. Performing the steps is left to the caller.
use vstd::prelude::*;
use crate::text::{same_text};

verus! {

/// Pause between a failure and the next handshake, in milliseconds.
pub const RECONNECT_DELAY_MS: u64 = 7000;

/// Where the connection loop stands.
#[derive(Clone, Copy, Debug, PartialEq, Eq, Structural)]
pub enum Phase {
    /// Asking the backend for a streaming endpoint.
    Handshaking,
    /// Opening the stream at the endpoint obtained.
    Connecting,
    /// Reading frames from an open stream.
    Reading,
    /// Pausing after a failure.
    Waiting,
}

/// The outside work a phase asks for.
#[derive(Clone, Copy, Debug, PartialEq, Eq, Structural)]
pub enum LinkAction {
    RequestEndpoint,
    OpenStream,
    ReadFrame,
    Sleep(u64),
}

pub open spec fn phase_action(p: Phase) -> LinkAction {
    match p {
        Phase::Handshaking => LinkAction::RequestEndpoint,
        Phase::Connecting => LinkAction::OpenStream,
        Phase::Reading => LinkAction::ReadFrame,
        Phase::Waiting => LinkAction::Sleep(RECONNECT_DELAY_MS),
    }
}

/// The phase after the work of `p` succeeded (`ok`) or failed. A pause always ends in a
/// new handshake; there is no final phase.
pub open spec fn next_phase(p: Phase, ok: bool) -> Phase {
    match p {
        Phase::Waiting => Phase::Handshaking,
        _ => if !ok {
            Phase::Waiting
        } else {
            match p {
                Phase::Handshaking => Phase::Connecting,
                _ => Phase::Reading,
            }
        },
    }
}

/// The outside work to perform in phase `p`.
pub fn action_for(p: Phase) -> (r: LinkAction)
    ensures
        r == phase_action(p),
{
    match p {
        Phase::Handshaking => LinkAction::RequestEndpoint,
        Phase::Connecting => LinkAction::OpenStream,
        Phase::Reading => LinkAction::ReadFrame,
        Phase::Waiting => LinkAction::Sleep(RECONNECT_DELAY_MS),
    }
}

/// The phase that follows `p` once its work succeeded or failed.
pub fn advance(p: Phase, ok: bool) -> (r: Phase)
    ensures
        r == next_phase(p, ok),
{
    match p {
        Phase::Waiting => Phase::Handshaking,
        _ => if !ok {
            Phase::Waiting
        } else {
            match p {
                Phase::Handshaking => Phase::Connecting,
                _ => Phase::Reading,
            }
        },
    }
}

/// The phase reached from `p` after `n` rounds of one failed step followed by the pause.
pub open spec fn after_failures(p: Phase, n: nat) -> Phase
    decreases n,
{
    if n == 0 {
        p
    } else {
        after_failures(next_phase(next_phase(p, false), true), (n - 1) as nat)
    }
}

/// Any failure outside a pause leads to a pause of exactly the reconnect delay, and the
/// pause to a new handshake; so after any number of consecutive failures the loop is
/// back at a handshake and has not stopped.
pub proof fn lemma_reconnect_after_failures(p: Phase, n: nat)
    requires
        p != Phase::Waiting,
    ensures
        next_phase(p, false) == Phase::Waiting,
        phase_action(next_phase(p, false)) == LinkAction::Sleep(RECONNECT_DELAY_MS),
        next_phase(Phase::Waiting, true) == Phase::Handshaking,
        next_phase(Phase::Waiting, false) == Phase::Handshaking,
        n > 0 ==> after_failures(p, n) == Phase::Handshaking,
    decreases n,
{
    if n > 0 {
        assert(after_failures(p, n) == after_failures(Phase::Handshaking, (n - 1) as nat));
        if n > 1 {
            lemma_reconnect_after_failures(Phase::Handshaking, (n - 1) as nat);
        }
    }
}

/// A frame that was read, whatever it held, leaves the loop reading the next one.
pub proof fn lemma_frames_keep_reading()
    ensures
        next_phase(Phase::Reading, true) == Phase::Reading,
        phase_action(Phase::Reading) == LinkAction::ReadFrame,
{
}

/// One inbound frame, decoded as far as the routing needs.
pub enum Inbound {
    /// A chat message envelope.
    Message { text: String, channel: String },
    /// A protocol-level ping.
    Ping,
    /// Anything else; it is ignored.
    Ignored,
}

/// What to do with one inbound frame.
pub struct Routing {
    /// Whether a liveness signal is reported.
    pub liveness: bool,
    /// The command text to interpret, if the frame carries one for the bot.
    pub command: Option<String>,
}

/// The text that addresses the bot: `<@id> `.
pub open spec fn mention_of(bot_id: Seq<char>) -> Seq<char> {
    seq!['<', '@'] + bot_id + seq!['>', ' ']
}

pub open spec fn has_prefix(s: Seq<char>, p: Seq<char>) -> bool {
    p.len() <= s.len() && s.subrange(0, p.len() as int) == p
}

/// The command that a message carries: the text after the mention, when the message
/// starts with the mention and was posted in the control channel.
pub open spec fn command_in(text: Seq<char>, channel: Seq<char>, bot_id: Seq<char>, listen: Seq<char>)
    -> Option<Seq<char>> {
    let m = mention_of(bot_id);
    if has_prefix(text, m) && channel == listen {
        Some(text.subrange(m.len() as int, text.len() as int))
    } else {
        None
    }
}

/// Builds the mention prefix for a bot id.
pub fn mention_prefix(bot_id: &str) -> (r: String)
    ensures
        r@ == mention_of(bot_id@),
{
    let r = "<@".to_owned().concat(bot_id).concat("> ");
    proof {
        reveal_strlit("<@");
        reveal_strlit("> ");
        assert(r@ =~= mention_of(bot_id@));
    }
    r
}

/// Decides what an inbound frame leads to.
pub fn route_frame(frame: &Inbound, bot_id: &str, listen_channel: &str) -> (r: Routing)
    ensures
        r.liveness == !(frame is Ignored),
        (match frame {
            Inbound::Message { text, channel } => match command_in(text@, channel@, bot_id@, listen_channel@) {
                Some(c) => r.command matches Some(x) && x@ == c,
                None => r.command is None,
            },
            _ => r.command is None,
        }),
{
    match frame {
        Inbound::Message { text, channel } => {
            let m = mention_prefix(bot_id);
            let n = text.unicode_len();
            let k = m.unicode_len();
            if k <= n && same_text(text.substring_char(0, k), m.as_str()) && same_text(
                channel.as_str(),
                listen_channel,
            ) {
                let rest = text.substring_char(k, n).to_owned();
                Routing { liveness: true, command: Some(rest) }
            } else {
                Routing { liveness: true, command: None }
            }
        },
        Inbound::Ping => Routing { liveness: true, command: None },
        Inbound::Ignored => Routing { liveness: false, command: None },
    }
}

/// The numbering of the replies sent over one connection.
pub struct Session {
    /// How many replies were sent so far.
    pub sent: u64,
}

impl Session {
    /// A fresh connection: its first reply gets the identifier 1.
    pub fn new() -> (r: Session)
        ensures
            r.sent == 0,
    {
        Session { sent: 0 }
    }

    /// The identifier for the next reply.
    pub fn next_reply_id(&mut self) -> (r: u64)
        requires
            old(self).sent < u64::MAX,
        ensures
            r == old(self).sent + 1,
            final(self).sent == r,
    {
        self.sent = self.sent + 1;
        self.sent
    }
}

} // verus!
