//! The decisions of an SSH session: what the terminal shows while it
//! connects and when it fails, how each authentication method's replies
//! become a success or the reasons for a failure, which default keys are
//! tried, and what the session loop does with each message from the server
//! or from the window. The network work (connecting, authenticating,
//! reading and writing the channel) is the caller's part, which hands each
//! reply to these functions.
use vstd::prelude::*;

use crate::ssh::{spec_join_path, SshMsg};
use crate::terminal_panel::TermSize;
use crate::text::{copy_string, decimal, push_decimal};
use vstd::string::StringSliceAdditionalSpecFns;

verus! {

// ---------------------------------------------------------------------------
// Messages shown in the terminal
// ---------------------------------------------------------------------------

/// The escape sequence that shows the cursor again once the remote shell is ready.
pub const SHOW_CURSOR: &'static str = "\x1b[?25h";

/// `Connecting to host:port...`, after hiding the cursor.
pub open spec fn spec_connecting_message(host: Seq<char>, port: u16) -> Seq<char> {
    "\x1b[?25lConnecting to "@ + host + ":"@ + decimal(port as nat) + "...\r\n"@
}

/// The line shown while connecting.
pub fn connecting_message(host: &str, port: u16) -> (r: String)
    ensures
        r@ == spec_connecting_message(host@, port),
{
    let mut s = copy_string("\x1b[?25lConnecting to ");
    s.append(host);
    s.append(":");
    push_decimal(&mut s, port as u64);
    s.append("...\r\n");
    s
}

/// The line shown while authenticating.
pub fn authenticating_message(username: &str) -> (r: String)
    ensures
        r@ == "Authenticating as "@ + username@ + "...\r\n"@,
{
    let mut s = copy_string("Authenticating as ");
    s.append(username);
    s.append("...\r\n");
    s
}

/// The lines shown when authentication failed, in red, after hiding the cursor.
pub open spec fn spec_auth_failure_message(username: Seq<char>, host: Seq<char>, reason: Seq<char>) -> Seq<
    char,
> {
    "\x1b[?25l\r\n\x1b[31mAuthentication failed for "@ + username + "@"@ + host + "\r\n  "@ + reason
        + "\x1b[0m\r\n"@
}

/// The lines shown when authentication failed.
pub fn auth_failure_message(username: &str, host: &str, reason: &str) -> (r: String)
    ensures
        r@ == spec_auth_failure_message(username@, host@, reason@),
{
    let mut s = copy_string("\x1b[?25l\r\n\x1b[31mAuthentication failed for ");
    s.append(username);
    s.append("@");
    s.append(host);
    s.append("\r\n  ");
    s.append(reason);
    s.append("\x1b[0m\r\n");
    s
}

/// The lines shown when the session ended with an error.
pub fn session_error_message(error: &str) -> (r: String)
    ensures
        r@ == "\x1b[?25l\r\n\x1b[31mSSH error: "@ + error@ + "\x1b[0m\r\n"@,
{
    let mut s = copy_string("\x1b[?25l\r\n\x1b[31mSSH error: ");
    s.append(error);
    s.append("\x1b[0m\r\n");
    s
}

/// The title of the tab once the remote shell runs: `user@host`.
pub fn session_title(username: &str, host: &str) -> (r: String)
    ensures
        r@ == username@ + "@"@ + host@,
{
    let mut s = copy_string(username);
    s.append("@");
    s.append(host);
    s
}

// ---------------------------------------------------------------------------
// Authentication
// ---------------------------------------------------------------------------

/// The server's answer to one authentication request.
#[derive(Debug)]
pub enum AuthReply {
    Accepted,
    Rejected,
    /// The request failed; the error's text.
    Failed(String),
}

/// The outcome of password authentication.
pub fn password_auth_result(reply: &AuthReply) -> (r: Result<(), String>)
    ensures
        match reply {
            AuthReply::Accepted => r is Ok,
            AuthReply::Rejected => r matches Err(m) && m@ == "server rejected password"@,
            AuthReply::Failed(e) => r matches Err(m) && m@ == "password auth error: "@ + e@,
        },
{
    match reply {
        AuthReply::Accepted => Ok(()),
        AuthReply::Rejected => Err(copy_string("server rejected password")),
        AuthReply::Failed(e) => {
            let mut m = copy_string("password auth error: ");
            m.append(e.as_str());
            Err(m)
        },
    }
}

/// The outcome of key authentication with the key file at `key_path`:
/// `load` is the error text when the key could not be loaded, else the
/// server's reply.
pub fn key_auth_result(key_path: &str, load: &Result<AuthReply, String>) -> (r: Result<(), String>)
    ensures
        match load {
            Err(e) => r matches Err(m) && m@ == "failed to load key "@ + key_path@ + ": "@ + e@,
            Ok(AuthReply::Accepted) => r is Ok,
            Ok(AuthReply::Rejected) => r matches Err(m) && m@ == "server rejected key "@ + key_path@,
            Ok(AuthReply::Failed(e)) => r matches Err(m) && m@ == "public key auth error: "@ + e@,
        },
{
    match load {
        Err(e) => {
            let mut m = copy_string("failed to load key ");
            m.append(key_path);
            m.append(": ");
            m.append(e.as_str());
            Err(m)
        },
        Ok(AuthReply::Accepted) => Ok(()),
        Ok(AuthReply::Rejected) => {
            let mut m = copy_string("server rejected key ");
            m.append(key_path);
            Err(m)
        },
        Ok(AuthReply::Failed(e)) => {
            let mut m = copy_string("public key auth error: ");
            m.append(e.as_str());
            Err(m)
        },
    }
}

/// The key files tried, in order, when no key is given.
pub open spec fn default_key_names() -> Seq<Seq<u8>> {
    seq!["id_ed25519".spec_bytes(), "id_rsa".spec_bytes(), "id_ecdsa".spec_bytes()]
}

/// The default key files in the directory `ssh_dir` (the bytes of its
/// path), in order.
pub fn default_key_paths(ssh_dir: &[u8]) -> (r: Vec<Vec<u8>>)
    ensures
        r@.len() == 3,
        forall|i: int|
            0 <= i < 3 ==> (#[trigger] r@[i])@ == spec_join_path(ssh_dir@, default_key_names()[i]),
{
    let mut v: Vec<Vec<u8>> = Vec::new();
    v.push(crate::ssh::join_path(ssh_dir, "id_ed25519".as_bytes()));
    v.push(crate::ssh::join_path(ssh_dir, "id_rsa".as_bytes()));
    v.push(crate::ssh::join_path(ssh_dir, "id_ecdsa".as_bytes()));
    v
}

/// Separator-joined text: the parts of `parts` with `sep` between them.
pub open spec fn joined(parts: Seq<Seq<char>>, sep: Seq<char>) -> Seq<char>
    decreases parts.len(),
{
    if parts.len() == 0 {
        seq![]
    } else if parts.len() == 1 {
        parts[0]
    } else {
        joined(parts.drop_last(), sep) + sep + parts.last()
    }
}

/// The reasons why the attempts of agent authentication failed, in order.
#[derive(Debug)]
pub struct AuthLog {
    reasons: Vec<String>,
}

impl View for AuthLog {
    type V = Seq<Seq<char>>;

    closed spec fn view(&self) -> Seq<Seq<char>> {
        self.reasons@.map_values(|s: String| s@)
    }
}

/// What agent authentication reports when every attempt failed: its
/// reasons, one per line, or a note that nothing could be tried.
pub open spec fn spec_failure_reason(reasons: Seq<Seq<char>>) -> Seq<char> {
    if reasons.len() == 0 {
        "no keys available and agent not reachable"@
    } else {
        joined(reasons, "\r\n  "@)
    }
}

impl AuthLog {
    pub fn new() -> (r: AuthLog)
        ensures
            r@ == Seq::<Seq<char>>::empty(),
    {
        AuthLog { reasons: Vec::new() }
    }

    /// Records a reason.
    pub fn note(&mut self, reason: String)
        ensures
            final(self)@ == old(self)@.push(reason@),
    {
        let ghost before = self@;
        self.reasons.push(reason);
        assert(self@ =~= before.push(reason@));
    }

    /// The agent's socket is not set.
    pub fn agent_unavailable(&mut self)
        ensures
            final(self)@ == old(self)@.push("SSH_AUTH_SOCK not set — agent not available"@),
    {
        self.note(copy_string("SSH_AUTH_SOCK not set — agent not available"));
    }

    /// The agent at `socket` could not be reached.
    pub fn agent_unreachable(&mut self, socket: &str, error: &str)
        ensures
            final(self)@ == old(self)@.push(
                "cannot connect to SSH agent at "@ + socket@ + ": "@ + error@,
            ),
    {
        let mut m = copy_string("cannot connect to SSH agent at ");
        m.append(socket);
        m.append(": ");
        m.append(error);
        self.note(m);
    }

    /// The agent did not list its identities.
    pub fn agent_identities_failed(&mut self, error: &str)
        ensures
            final(self)@ == old(self)@.push("agent request_identities failed: "@ + error@),
    {
        let mut m = copy_string("agent request_identities failed: ");
        m.append(error);
        self.note(m);
    }

    /// The agent holds no identity.
    pub fn agent_empty(&mut self)
        ensures
            final(self)@ == old(self)@.push("agent has no identities"@),
    {
        self.note(copy_string("agent has no identities"));
    }

    /// The server's reply to one of the agent's keys; tells whether it was
    /// accepted (then nothing is recorded).
    pub fn agent_key_reply(&mut self, reply: &AuthReply) -> (accepted: bool)
        ensures
            accepted == reply is Accepted,
            match reply {
                AuthReply::Accepted => final(self)@ == old(self)@,
                AuthReply::Rejected => final(self)@ == old(self)@.push(
                    "agent key rejected by server"@,
                ),
                AuthReply::Failed(e) => final(self)@ == old(self)@.push(
                    "agent key auth error: "@ + e@,
                ),
            },
    {
        match reply {
            AuthReply::Accepted => true,
            AuthReply::Rejected => {
                self.note(copy_string("agent key rejected by server"));
                false
            },
            AuthReply::Failed(e) => {
                let mut m = copy_string("agent key auth error: ");
                m.append(e.as_str());
                self.note(m);
                false
            },
        }
    }

    /// The home directory, where the default keys are, is unknown.
    pub fn no_home(&mut self)
        ensures
            final(self)@ == old(self)@.push("cannot determine home directory for default keys"@),
    {
        self.note(copy_string("cannot determine home directory for default keys"));
    }

    /// The default key at `path` could not be loaded.
    pub fn key_unreadable(&mut self, path: &str, error: &str)
        ensures
            final(self)@ == old(self)@.push("failed to load "@ + path@ + ": "@ + error@),
    {
        let mut m = copy_string("failed to load ");
        m.append(path);
        m.append(": ");
        m.append(error);
        self.note(m);
    }

    /// The server's reply to the default key at `path`; tells whether it
    /// was accepted (then nothing is recorded).
    pub fn default_key_reply(&mut self, path: &str, reply: &AuthReply) -> (accepted: bool)
        ensures
            accepted == reply is Accepted,
            match reply {
                AuthReply::Accepted => final(self)@ == old(self)@,
                AuthReply::Rejected => final(self)@ == old(self)@.push(
                    path@ + " rejected by server"@,
                ),
                AuthReply::Failed(e) => final(self)@ == old(self)@.push(
                    path@ + " auth error: "@ + e@,
                ),
            },
    {
        match reply {
            AuthReply::Accepted => true,
            AuthReply::Rejected => {
                let mut m = copy_string(path);
                m.append(" rejected by server");
                self.note(m);
                false
            },
            AuthReply::Failed(e) => {
                let mut m = copy_string(path);
                m.append(" auth error: ");
                m.append(e.as_str());
                self.note(m);
                false
            },
        }
    }

    /// None of the default keys exists in `ssh_dir`.
    pub fn no_default_keys(&mut self, ssh_dir: &str)
        ensures
            final(self)@ == old(self)@.push("no default keys found in "@ + ssh_dir@),
    {
        let mut m = copy_string("no default keys found in ");
        m.append(ssh_dir);
        self.note(m);
    }

    /// The reason reported when every attempt failed.
    pub fn failure_reason(&self) -> (r: String)
        ensures
            r@ == spec_failure_reason(self@),
    {
        if self.reasons.len() == 0 {
            return copy_string("no keys available and agent not reachable");
        }
        let mut s = copy_string(self.reasons[0].as_str());
        let mut i: usize = 1;
        assert(self@.take(1) =~= seq![self@[0]]);
        while i < self.reasons.len()
            invariant
                1 <= i <= self@.len(),
                self@.len() == self.reasons@.len(),
                s@ == joined(self@.take(i as int), "\r\n  "@),
            decreases self.reasons.len() - i,
        {
            s.append("\r\n  ");
            s.append(self.reasons[i].as_str());
            assert(self@.take(i + 1).drop_last() =~= self@.take(i as int));
            assert(self@[i as int] == self.reasons@[i as int]@);
            i += 1;
        }
        assert(self@.take(i as int) =~= self@);
        s
    }
}

// ---------------------------------------------------------------------------
// The session loop
// ---------------------------------------------------------------------------

/// What the server sends on the session's channel.
#[derive(Debug)]
pub enum ChannelEvent {
    Data(Vec<u8>),
    ExtendedData(Vec<u8>),
    ExitStatus,
    ExitSignal,
    Eof,
    /// The channel is gone.
    Closed,
    /// Any other message.
    Other,
}

/// What the session loop does next.
#[derive(Debug)]
pub enum LoopStep {
    /// Feed these bytes to the terminal emulator, then wake the window.
    ShowOutput(Vec<u8>),
    /// Send these bytes to the server.
    SendInput(Vec<u8>),
    /// Tell the server the terminal's new size.
    WindowChange { cols: u32, rows: u32 },
    /// Leave the loop: close the channel and report that the session ended.
    Stop,
    /// Nothing to do.
    Continue,
}

/// What the loop does with a message from the server: output is shown,
/// the end of the remote shell ends the session, anything else is ignored.
pub fn on_channel_event(e: ChannelEvent) -> (r: LoopStep)
    ensures
        match e {
            ChannelEvent::Data(d) => r matches LoopStep::ShowOutput(o) && o@ == d@,
            ChannelEvent::ExtendedData(d) => r matches LoopStep::ShowOutput(o) && o@ == d@,
            ChannelEvent::Other => r is Continue,
            _ => r is Stop,
        },
{
    match e {
        ChannelEvent::Data(d) => LoopStep::ShowOutput(d),
        ChannelEvent::ExtendedData(d) => LoopStep::ShowOutput(d),
        ChannelEvent::Other => LoopStep::Continue,
        _ => LoopStep::Stop,
    }
}

/// What the loop does with a message from the window (`None` once the
/// window dropped its end): input goes to the server, a resize becomes a
/// window change, and a closed window ends the session.
pub fn on_window_message(m: Option<SshMsg>) -> (r: LoopStep)
    ensures
        match m {
            Some(SshMsg::Input(d)) => r matches LoopStep::SendInput(o) && o@ == d@,
            Some(SshMsg::Resize { cols, rows }) => r matches LoopStep::WindowChange { cols: c, rows: w }
                && c == cols && w == rows,
            None => r is Stop,
        },
{
    match m {
        Some(SshMsg::Input(d)) => LoopStep::SendInput(d),
        Some(SshMsg::Resize { cols, rows }) => LoopStep::WindowChange {
            cols: cols as u32,
            rows: rows as u32,
        },
        None => LoopStep::Stop,
    }
}

/// The terminal's size as the SSH channel gets it, in columns and rows of
/// 16 bits (larger sizes wrap, as a cast does).
pub fn pty_size(size: TermSize) -> (r: (u16, u16))
    ensures
        r.0 == size.columns as u16,
        r.1 == size.screen_lines as u16,
{
    (size.columns as u16, size.screen_lines as u16)
}

/// The message that tells the connection the terminal's new size.
pub fn resize_message(size: TermSize) -> (r: SshMsg)
    ensures
        r matches SshMsg::Resize { cols, rows } && cols == size.columns as u16 && rows
            == size.screen_lines as u16,
{
    SshMsg::Resize { cols: size.columns as u16, rows: size.screen_lines as u16 }
}

} // verus!
