//! Interactive shells over WebSocket: which shell is started, when the
//! session counts as ready, and how the session relays between the client
//! and the shell until one side ends.
use vstd::prelude::*;

use crate::fs::string_views;
use crate::text::string_from_str;

verus! {

/// The rows and columns of a new pseudo-terminal.
pub const PTY_ROWS: u16 = 24;

/// The columns of a new pseudo-terminal.
pub const PTY_COLS: u16 = 80;

/// Seconds a shell has to produce its first output (or end).
pub const SHELL_READY_TIMEOUT_SECS: u64 = 2;

/// How a shell is started: the program, its arguments and one environment
/// variable.
#[derive(Debug, Clone)]
pub struct ShellCommand {
    pub program: String,
    pub args: Vec<String>,
    pub env_name: String,
    pub env_value: String,
}

/// The shell of a device terminal: a login, interactive `bash` with an
/// `xterm-256color` terminal.
pub fn local_shell() -> (c: ShellCommand)
    ensures
        c.program@ == "/bin/bash"@,
        string_views(c.args@) == seq!["-l"@, "-i"@],
        c.env_name@ == "TERM"@,
        c.env_value@ == "xterm-256color"@,
{
    let mut args: Vec<String> = Vec::new();
    args.push(string_from_str("-l"));
    args.push(string_from_str("-i"));
    assert(string_views(args@) =~= seq!["-l"@, "-i"@]);
    ShellCommand {
        program: string_from_str("/bin/bash"),
        args,
        env_name: string_from_str("TERM"),
        env_value: string_from_str("xterm-256color"),
    }
}

/// The shell of a terminal reached through the device's SSH server: `ssh`
/// to the device itself, with a forced terminal and no prompts.
pub fn ssh_shell() -> (c: ShellCommand)
    ensures
        c.program@ == "ssh"@,
        string_views(c.args@) == seq![
            "localhost"@,
            "-tt"@,
            "-o"@,
            "LogLevel=QUIET"@,
            "-o"@,
            "BatchMode=yes"@,
            "-o"@,
            "RequestTTY=force"@,
        ],
        c.env_name@ == "TERM"@,
        c.env_value@ == "xterm-256color"@,
{
    let mut args: Vec<String> = Vec::new();
    args.push(string_from_str("localhost"));
    args.push(string_from_str("-tt"));
    args.push(string_from_str("-o"));
    args.push(string_from_str("LogLevel=QUIET"));
    args.push(string_from_str("-o"));
    args.push(string_from_str("BatchMode=yes"));
    args.push(string_from_str("-o"));
    args.push(string_from_str("RequestTTY=force"));
    assert(string_views(args@) =~= seq![
        "localhost"@,
        "-tt"@,
        "-o"@,
        "LogLevel=QUIET"@,
        "-o"@,
        "BatchMode=yes"@,
        "-o"@,
        "RequestTTY=force"@,
    ]);
    ShellCommand {
        program: string_from_str("ssh"),
        args,
        env_name: string_from_str("TERM"),
        env_value: string_from_str("xterm-256color"),
    }
}

/// Signals once that the shell is ready: at its first output, or when its
/// output ends without any.
#[derive(Debug, Clone, Copy)]
pub struct ReadyLatch {
    pub signalled: bool,
}

impl ReadyLatch {
    /// Not signalled yet.
    pub fn new() -> (l: ReadyLatch)
        ensures
            !l.signalled,
    {
        ReadyLatch { signalled: false }
    }

    /// The shell produced output or ended: whether to signal readiness now
    /// (only the first time).
    pub fn fire(&mut self) -> (now: bool)
        ensures
            now == !old(self).signalled,
            final(self).signalled,
    {
        let now = !self.signalled;
        self.signalled = true;
        now
    }
}

/// Readiness is signalled exactly once: the number of signals after any
/// number of outputs (at least one) is one.
pub open spec fn signals(first_signalled: bool, fires: nat) -> nat
    decreases fires,
{
    if fires == 0 {
        0
    } else {
        (if first_signalled {
            0nat
        } else {
            1nat
        }) + signals(true, (fires - 1) as nat)
    }
}

/// A latch that starts unsignalled signals exactly once, however often it
/// fires.
pub proof fn lemma_ready_once(fires: nat)
    requires
        fires >= 1,
    ensures
        signals(false, fires) == 1,
    decreases fires,
{
    lemma_signalled_silent((fires - 1) as nat);
}

proof fn lemma_signalled_silent(fires: nat)
    ensures
        signals(true, fires) == 0,
    decreases fires,
{
    if fires > 0 {
        lemma_signalled_silent((fires - 1) as nat);
    }
}

/// The first message of a terminal session, sent before the shell starts.
pub fn initializing_message() -> (r: String)
    ensures
        r@ == "Initializing shell...\n\r"@,
{
    string_from_str("Initializing shell...\n\r")
}

/// The step at which starting a shell failed.
#[derive(Debug, Clone, Copy, PartialEq, Eq, Structural)]
pub enum StartupFailure {
    /// No pseudo-terminal could be opened.
    CreatePty,
    /// The shell could not be spawned in it.
    SpawnShell,
    /// The pseudo-terminal's output could not be read.
    PtyReader,
    /// The pseudo-terminal's input could not be written.
    PtyWriter,
    /// `ssh` to the device itself could not be started.
    StartSsh,
}

/// The message that ends a session whose shell failed to start, with the
/// error's text.
pub open spec fn startup_failure_text(step: StartupFailure, error: Seq<char>) -> Seq<char> {
    match step {
        StartupFailure::CreatePty => "Failed to create PTY: "@ + error + "\n"@,
        StartupFailure::SpawnShell => "Failed to spawn shell: "@ + error + "\n"@,
        StartupFailure::PtyReader => "Failed to get PTY reader: "@ + error + "\n"@,
        StartupFailure::PtyWriter => "Failed to get PTY writer: "@ + error + "\n"@,
        StartupFailure::StartSsh => "Failed to start SSH: "@ + error,
    }
}

/// A shell failed to start: the message the client gets, and whether the
/// shell, spawned already, is killed (when its pseudo-terminal cannot be
/// read or written). The session then ends.
pub fn startup_failure(step: StartupFailure, error: &str) -> (r: (String, bool))
    ensures
        r.0@ == startup_failure_text(step, error@),
        r.1 == (step is PtyReader || step is PtyWriter),
{
    let (prefix, newline, kill) = match step {
        StartupFailure::CreatePty => ("Failed to create PTY: ", true, false),
        StartupFailure::SpawnShell => ("Failed to spawn shell: ", true, false),
        StartupFailure::PtyReader => ("Failed to get PTY reader: ", true, true),
        StartupFailure::PtyWriter => ("Failed to get PTY writer: ", true, true),
        StartupFailure::StartSsh => ("Failed to start SSH: ", false, false),
    };
    let mut m = string_from_str(prefix);
    m.append(error);
    if newline {
        m.append("\n");
    }
    (m, kill)
}

/// Which shell a session runs: a login shell in a pseudo-terminal, or `ssh`
/// to the device itself.
#[derive(Debug, Clone, Copy, PartialEq, Eq, Structural)]
pub enum ShellKind {
    LocalPty,
    Ssh,
}

/// Whether the shell counted as started in time.
#[derive(Debug, Clone)]
pub enum Readiness {
    /// Ready in time: the session relays; the client gets this message.
    Connected(String),
    /// Not ready in time: the shell is killed and the session ends; the
    /// client gets this message.
    TimedOut(String),
}

/// Whether a shell whose readiness was signalled `ready_after_ms`
/// milliseconds after the wait began (none: not at all) started in time:
/// within the timeout, the deadline itself included.
pub open spec fn ready_in_time(ready_after_ms: Option<u64>) -> bool {
    ready_after_ms matches Some(t) && t <= SHELL_READY_TIMEOUT_SECS * 1000
}

/// The end of the wait for a shell: connected when it signalled readiness
/// in time, else timed out, each with the message the client gets.
pub fn readiness(kind: ShellKind, ready_after_ms: Option<u64>) -> (r: Readiness)
    ensures
        match r {
            Readiness::Connected(m) => ready_in_time(ready_after_ms) && m@
                == "Shell connected successfully\n\r"@,
            Readiness::TimedOut(m) => !ready_in_time(ready_after_ms) && m@ == (if kind is Ssh {
                "SSH shell failed to start within timeout\n"@
            } else {
                "Shell failed to start within timeout\n"@
            }),
        },
{
    let in_time = match ready_after_ms {
        Some(t) => t <= SHELL_READY_TIMEOUT_SECS * 1000,
        None => false,
    };
    if in_time {
        Readiness::Connected(string_from_str("Shell connected successfully\n\r"))
    } else {
        match kind {
            ShellKind::Ssh => Readiness::TimedOut(
                string_from_str("SSH shell failed to start within timeout\n"),
            ),
            ShellKind::LocalPty => Readiness::TimedOut(
                string_from_str("Shell failed to start within timeout\n"),
            ),
        }
    }
}

/// What happens in a running terminal session.
#[derive(Debug, Clone)]
pub enum TerminalEvent {
    /// The client sent text.
    ClientText(String),
    /// The client sent bytes.
    ClientBinary(Vec<u8>),
    /// The client closed the WebSocket.
    ClientClose,
    /// The client sent a ping or pong.
    ClientControl,
    /// The shell wrote output.
    ShellOutput(Vec<u8>),
    /// The shell exited.
    ShellExited,
    /// Both the client and the shell's output have ended.
    Ended,
}

/// What the session does about an event.
#[derive(Debug, Clone)]
pub enum TerminalAction {
    /// Write these bytes to the shell.
    WriteShell(Vec<u8>),
    /// Send the shell's output to the client (as text).
    SendClient(Vec<u8>),
    /// Nothing to do.
    Continue,
    /// End the session: kill the shell and close the WebSocket.
    Finish,
}

/// Relays one event: the client's input goes to the shell, the shell's
/// output to the client; a close, the shell's exit or the end of both
/// streams finish the session.
pub fn terminal_step(event: TerminalEvent) -> (a: TerminalAction)
    ensures
        match event {
            TerminalEvent::ClientText(t) => a matches TerminalAction::WriteShell(b) && b@
                == vstd::utf8::encode_utf8(t@),
            TerminalEvent::ClientBinary(d) => a matches TerminalAction::WriteShell(b) && b@ == d@,
            TerminalEvent::ClientClose => a is Finish,
            TerminalEvent::ClientControl => a is Continue,
            TerminalEvent::ShellOutput(o) => a matches TerminalAction::SendClient(b) && b@ == o@,
            TerminalEvent::ShellExited => a is Finish,
            TerminalEvent::Ended => a is Finish,
        },
{
    match event {
        TerminalEvent::ClientText(t) => {
            let bytes = t.as_str().as_bytes();
            let mut v: Vec<u8> = Vec::new();
            let mut i: usize = 0;
            while i < bytes.len()
                invariant
                    i <= bytes.len(),
                    v@ == bytes@.take(i as int),
                decreases bytes.len() - i,
            {
                v.push(bytes[i]);
                assert(bytes@.take(i + 1) =~= bytes@.take(i as int).push(bytes@[i as int]));
                i = i + 1;
            }
            assert(bytes@.take(bytes.len() as int) =~= bytes@);
            TerminalAction::WriteShell(v)
        },
        TerminalEvent::ClientBinary(d) => TerminalAction::WriteShell(d),
        TerminalEvent::ClientClose => TerminalAction::Finish,
        TerminalEvent::ClientControl => TerminalAction::Continue,
        TerminalEvent::ShellOutput(o) => TerminalAction::SendClient(o),
        TerminalEvent::ShellExited => TerminalAction::Finish,
        TerminalEvent::Ended => TerminalAction::Finish,
    }
}

/// The shells tried, in order, inside a container.
pub open spec fn container_shells() -> Seq<Seq<char>> {
    seq!["/bin/bash"@, "/bin/sh"@, "bash"@, "sh"@]
}

/// The shells tried, in order, inside a container.
pub fn container_shell_candidates() -> (r: Vec<String>)
    ensures
        string_views(r@) == container_shells(),
{
    let mut v: Vec<String> = Vec::new();
    v.push(string_from_str("/bin/bash"));
    v.push(string_from_str("/bin/sh"));
    v.push(string_from_str("bash"));
    v.push(string_from_str("sh"));
    assert(string_views(v@) =~= container_shells());
    v
}

/// The `docker` arguments that start a shell in a container.
pub fn docker_exec_args(container: &str, shell: &str) -> (r: Vec<String>)
    ensures
        string_views(r@) == seq!["exec"@, "-it"@, container@, shell@],
{
    let mut v: Vec<String> = Vec::new();
    v.push(string_from_str("exec"));
    v.push(string_from_str("-it"));
    v.push(string_from_str(container));
    v.push(string_from_str(shell));
    assert(string_views(v@) =~= seq!["exec"@, "-it"@, container@, shell@]);
    v
}

/// What the client is told when no shell starts in a container.
pub fn no_shell_message(container: &str) -> (r: String)
    ensures
        r@ == "Could not start a shell in `"@ + container@
            + "`.\nTried: [\"/bin/bash\", \"/bin/sh\", \"bash\", \"sh\"]\nHint: install /bin/sh or /bin/bash"@,
{
    let mut s = string_from_str("Could not start a shell in `");
    s.append(container);
    s.append("`.\nTried: [\"/bin/bash\", \"/bin/sh\", \"bash\", \"sh\"]\nHint: install /bin/sh or /bin/bash");
    s
}


// ---------------------------------------------------------------------------
// The terminal session as a whole
// ---------------------------------------------------------------------------

/// Where a terminal session stands.
#[derive(Debug, Clone, Copy, PartialEq, Eq, Structural)]
pub enum SessionState {
    /// Nothing sent yet.
    Start,
    /// The client was told the shell is starting; the shell is being set up.
    Opening,
    /// The shell runs; its first output (or end) is awaited.
    Waiting,
    /// The client and the shell are relayed.
    Relaying,
    /// The session is over.
    Closed,
}

/// What happens to a terminal session.
#[derive(Debug, Clone)]
pub enum SessionEvent {
    /// The WebSocket was accepted.
    Begin,
    /// Setting up the shell failed at this step, with this error.
    StartFailed(StartupFailure, String),
    /// The pseudo-terminal, the shell and its reader and writer are set up.
    ShellStarted,
    /// The wait for the shell ended: readiness after so many milliseconds,
    /// or none within the wait.
    ReadyWait(Option<u64>),
    /// An event while relaying.
    Relay(TerminalEvent),
    /// Sending to the client, or writing to the shell, failed.
    SendFailed,
}

/// What the session does, in order.
#[derive(Debug, Clone)]
pub enum SessionAction {
    /// Send this text to the client.
    SendText(String),
    /// Write these bytes to the shell.
    WriteShell(Vec<u8>),
    /// Send the shell's output to the client (as text).
    SendOutput(Vec<u8>),
    /// Kill the shell.
    KillShell,
    /// Send a Close frame to the client.
    SendClose,
}

/// The action sends this text.
pub open spec fn sends_text(a: SessionAction, t: Seq<char>) -> bool {
    a matches SessionAction::SendText(x) && x@ == t
}

/// The action writes these bytes to the shell.
pub open spec fn writes_shell(a: SessionAction, b: Seq<u8>) -> bool {
    a matches SessionAction::WriteShell(x) && x@ == b
}

/// The action sends this output of the shell to the client.
pub open spec fn sends_output(a: SessionAction, b: Seq<u8>) -> bool {
    a matches SessionAction::SendOutput(x) && x@ == b
}

/// The session's step, exactly: the next state and the actions, in order.
pub open spec fn session_step_ok(
    state: SessionState,
    event: SessionEvent,
    next: SessionState,
    acts: Seq<SessionAction>,
) -> bool {
    match (state, event) {
        (SessionState::Start, SessionEvent::Begin) => next == SessionState::Opening && acts.len()
            == 1 && sends_text(acts[0], "Initializing shell...\n\r"@),
        (SessionState::Opening, SessionEvent::SendFailed) => next == SessionState::Closed
            && acts.len() == 0,
        (SessionState::Opening, SessionEvent::StartFailed(step, e)) => {
            &&& next == SessionState::Closed
            &&& sends_text(acts[0], startup_failure_text(step, e@))
            &&& if step is PtyReader || step is PtyWriter {
                acts.len() == 2 && acts[1] is KillShell
            } else {
                acts.len() == 1
            }
        },
        (SessionState::Opening, SessionEvent::ShellStarted) => next == SessionState::Waiting
            && acts.len() == 0,
        (SessionState::Waiting, SessionEvent::ReadyWait(t)) => if ready_in_time(t) {
            next == SessionState::Relaying && acts.len() == 1 && sends_text(
                acts[0],
                "Shell connected successfully\n\r"@,
            )
        } else {
            next == SessionState::Closed && acts.len() == 2 && sends_text(
                acts[0],
                "Shell failed to start within timeout\n"@,
            ) && acts[1] is KillShell
        },
        (SessionState::Relaying, SessionEvent::SendFailed) => next == SessionState::Closed
            && acts.len() == 2 && acts[0] is KillShell && acts[1] is SendClose,
        (SessionState::Relaying, SessionEvent::Relay(ev)) => match ev {
            TerminalEvent::ClientText(t) => next == SessionState::Relaying && acts.len() == 1
                && writes_shell(acts[0], vstd::utf8::encode_utf8(t@)),
            TerminalEvent::ClientBinary(d) => next == SessionState::Relaying && acts.len() == 1
                && writes_shell(acts[0], d@),
            TerminalEvent::ClientControl => next == SessionState::Relaying && acts.len() == 0,
            TerminalEvent::ShellOutput(o) => next == SessionState::Relaying && acts.len() == 1
                && sends_output(acts[0], o@),
            _ => next == SessionState::Closed && acts.len() == 2 && acts[0] is KillShell
                && acts[1] is SendClose,
        },
        _ => next == state && acts.len() == 0,
    }
}

/// One step of a terminal session (a login shell in a pseudo-terminal):
/// the client is first told the shell is starting; a failed set-up ends the
/// session with its message (killing a shell already spawned); the shell
/// then has the timeout to produce output or end, after which the client is
/// told it is connected, or it is killed; relaying ends, on a close, the
/// shell's exit, the end of both streams or a failed send, with the shell
/// killed and a Close frame as the last message. Events that do not belong
/// to the state change nothing.
pub fn session_step(state: SessionState, event: SessionEvent) -> (r: (SessionState, Vec<SessionAction>))
    ensures
        session_step_ok(state, event, r.0, r.1@),
        r.0 is Closed && (state is Waiting || state is Relaying) ==> exists|i: int|
            0 <= i < r.1@.len() && #[trigger] r.1@[i] is KillShell,
        r.0 is Closed && state is Relaying ==> r.1@.len() > 0 && r.1@.last() is SendClose,
{
    let mut acts: Vec<SessionAction> = Vec::new();
    match (state, event) {
        (SessionState::Start, SessionEvent::Begin) => {
            acts.push(SessionAction::SendText(initializing_message()));
            (SessionState::Opening, acts)
        },
        (SessionState::Opening, SessionEvent::SendFailed) => (SessionState::Closed, acts),
        (SessionState::Opening, SessionEvent::StartFailed(step, e)) => {
            let (m, kill) = startup_failure(step, e.as_str());
            acts.push(SessionAction::SendText(m));
            if kill {
                acts.push(SessionAction::KillShell);
            }
            (SessionState::Closed, acts)
        },
        (SessionState::Opening, SessionEvent::ShellStarted) => (SessionState::Waiting, acts),
        (SessionState::Waiting, SessionEvent::ReadyWait(t)) => match readiness(
            ShellKind::LocalPty,
            t,
        ) {
            Readiness::Connected(m) => {
                acts.push(SessionAction::SendText(m));
                (SessionState::Relaying, acts)
            },
            Readiness::TimedOut(m) => {
                acts.push(SessionAction::SendText(m));
                acts.push(SessionAction::KillShell);
                assert(acts@[1] is KillShell);
                (SessionState::Closed, acts)
            },
        },
        (SessionState::Relaying, SessionEvent::SendFailed) => {
            acts.push(SessionAction::KillShell);
            acts.push(SessionAction::SendClose);
            assert(acts@[0] is KillShell);
            (SessionState::Closed, acts)
        },
        (SessionState::Relaying, SessionEvent::Relay(ev)) => match terminal_step(ev) {
            TerminalAction::WriteShell(b) => {
                acts.push(SessionAction::WriteShell(b));
                (SessionState::Relaying, acts)
            },
            TerminalAction::SendClient(o) => {
                acts.push(SessionAction::SendOutput(o));
                (SessionState::Relaying, acts)
            },
            TerminalAction::Continue => (SessionState::Relaying, acts),
            TerminalAction::Finish => {
                acts.push(SessionAction::KillShell);
                acts.push(SessionAction::SendClose);
                assert(acts@[0] is KillShell);
                (SessionState::Closed, acts)
            },
        },
        (st, _) => (st, acts),
    }
}

} // verus!
