//! The device runtime as a systemd service: the unit file, when it is
//! rewritten, what `systemctl` is asked, and the arguments of the
//! privileged re-run under `sudo`.
use vstd::prelude::*;

use crate::fs::string_views;
use crate::text::string_from_str;

verus! {

/// The service's name.
pub open spec fn service_name() -> Seq<char> {
    "m87-runtime"@
}

/// The unit file of the runtime service for the executable, the user it
/// runs as and that user's home directory.
pub open spec fn service_content_of(exe: Seq<char>, user: Seq<char>, home: Seq<char>) -> Seq<char> {
    "[Unit]\nDescription=m87 Runtime Service\nAfter=network-online.target\nWants=network-online.target\n\n[Service]\nType=simple\nExecStart="@
        + exe + " runtime run\nWorkingDirectory="@ + home
        + "\nRestart=on-failure\nRestartSec=3\nUser="@ + user
        + "\n\n# Deterministic environment for user's config/data directories\nEnvironment=HOME="@
        + home + "\nEnvironment=XDG_CONFIG_HOME="@ + home + "/.config\nEnvironment=XDG_DATA_HOME="@
        + home + "/.local/share\nEnvironment=XDG_CACHE_HOME="@ + home
        + "/.cache\nEnvironment=RUST_LOG=info\n\n# Security hardening\nUMask=0077\n\n# Logging\nStandardOutput=journal\nStandardError=journal\nSyslogIdentifier=m87-runtime\n\n# Resource limits\nTimeoutStopSec=30\nStartLimitBurst=5\nStartLimitIntervalSec=30\n\n[Install]\nWantedBy=multi-user.target\n"@
}

/// Generates the systemd unit file of the runtime service.
pub fn generate_service_content(exe_path: &str, username: &str, home: &str) -> (r: String)
    ensures
        r@ == service_content_of(exe_path@, username@, home@),
{
    let mut s = string_from_str(
        "[Unit]\nDescription=m87 Runtime Service\nAfter=network-online.target\nWants=network-online.target\n\n[Service]\nType=simple\nExecStart=",
    );
    s.append(exe_path);
    s.append(" runtime run\nWorkingDirectory=");
    s.append(home);
    s.append("\nRestart=on-failure\nRestartSec=3\nUser=");
    s.append(username);
    s.append("\n\n# Deterministic environment for user's config/data directories\nEnvironment=HOME=");
    s.append(home);
    s.append("\nEnvironment=XDG_CONFIG_HOME=");
    s.append(home);
    s.append("/.config\nEnvironment=XDG_DATA_HOME=");
    s.append(home);
    s.append("/.local/share\nEnvironment=XDG_CACHE_HOME=");
    s.append(home);
    s.append(
        "/.cache\nEnvironment=RUST_LOG=info\n\n# Security hardening\nUMask=0077\n\n# Logging\nStandardOutput=journal\nStandardError=journal\nSyslogIdentifier=m87-runtime\n\n# Resource limits\nTimeoutStopSec=30\nStartLimitBurst=5\nStartLimitIntervalSec=30\n\n[Install]\nWantedBy=multi-user.target\n",
    );
    s
}

/// Whether the unit file must be written: it is missing or differs.
pub fn service_file_changes(existing: &Option<String>, content: &String) -> (r: bool)
    ensures
        r == (existing.is_none() || existing.unwrap()@ != content@),
{
    match existing {
        Some(e) => !(*e == *content),
        None => true,
    }
}

/// What `systemctl` is asked after the unit file was written.
#[derive(Debug, Clone, Copy, PartialEq, Eq, Structural)]
pub enum ServiceStart {
    /// `enable --now`: start at boot and now.
    EnableNow,
    /// `enable`: start at boot.
    Enable,
    /// `restart`, where the service is active.
    RestartIfActive,
    /// Nothing more.
    Nothing,
}

/// The `systemctl` calls of a privileged setup.
#[derive(Debug, Clone, Copy, PartialEq, Eq, Structural)]
pub struct SetupPlan {
    /// `daemon-reload`, after the unit file changed.
    pub daemon_reload: bool,
    pub start: ServiceStart,
}

/// Plans the `systemctl` calls of a setup: reload after a change; then
/// `enable --now`, or `enable`, or a restart of a running service whose unit
/// file changed.
pub fn setup_plan(file_changed: bool, enable: bool, enable_now: bool, restart_if_running: bool) -> (p:
    SetupPlan)
    ensures
        p.daemon_reload == file_changed,
        p.start == (if enable_now {
            ServiceStart::EnableNow
        } else if enable {
            ServiceStart::Enable
        } else if restart_if_running && file_changed {
            ServiceStart::RestartIfActive
        } else {
            ServiceStart::Nothing
        }),
{
    let start = if enable_now {
        ServiceStart::EnableNow
    } else if enable {
        ServiceStart::Enable
    } else if restart_if_running && file_changed {
        ServiceStart::RestartIfActive
    } else {
        ServiceStart::Nothing
    };
    SetupPlan { daemon_reload: file_changed, start }
}

/// The setup flags of the commands that install the service: `enable`
/// (with `--now` or without), `start` and `restart`.
#[derive(Debug, Clone, Copy, PartialEq, Eq, Structural)]
pub enum RuntimeCommand {
    Enable { now: bool },
    Start,
    Restart,
}

/// The setup flags (enable, enable now, restart if running) of a command.
pub fn setup_flags(cmd: RuntimeCommand) -> (r: (bool, bool, bool))
    ensures
        r == (match cmd {
            RuntimeCommand::Enable { now } => (true, now, false),
            RuntimeCommand::Start => (true, true, false),
            RuntimeCommand::Restart => (false, false, true),
        }),
{
    match cmd {
        RuntimeCommand::Enable { now } => (true, now, false),
        RuntimeCommand::Start => (true, true, false),
        RuntimeCommand::Restart => (false, false, true),
    }
}

/// The arguments of the privileged setup run under `sudo`.
pub open spec fn setup_args_of(
    user: Seq<char>,
    home: Seq<char>,
    exe: Seq<char>,
    enable: bool,
    enable_now: bool,
    restart: bool,
) -> Seq<Seq<char>> {
    seq![
        "internal"@,
        "runtime-setup-privileged"@,
        "--user"@,
        user,
        "--home"@,
        home,
        "--exe-path"@,
        exe,
    ] + (if enable {
        seq!["--enable"@]
    } else {
        seq![]
    }) + (if enable_now {
        seq!["--enable-now"@]
    } else {
        seq![]
    }) + (if restart {
        seq!["--restart-if-running"@]
    } else {
        seq![]
    })
}

/// The arguments of the privileged setup run under `sudo`.
pub fn setup_sudo_args(
    user: &str,
    home: &str,
    exe: &str,
    enable: bool,
    enable_now: bool,
    restart_if_running: bool,
) -> (r: Vec<String>)
    ensures
        string_views(r@) == setup_args_of(user@, home@, exe@, enable, enable_now, restart_if_running),
{
    let mut v: Vec<String> = Vec::new();
    v.push(string_from_str("internal"));
    v.push(string_from_str("runtime-setup-privileged"));
    v.push(string_from_str("--user"));
    v.push(string_from_str(user));
    v.push(string_from_str("--home"));
    v.push(string_from_str(home));
    v.push(string_from_str("--exe-path"));
    v.push(string_from_str(exe));
    let ghost base = string_views(v@);
    if enable {
        v.push(string_from_str("--enable"));
    }
    let ghost a = string_views(v@);
    if enable_now {
        v.push(string_from_str("--enable-now"));
    }
    let ghost b = string_views(v@);
    if restart_if_running {
        v.push(string_from_str("--restart-if-running"));
    }
    assert(string_views(v@) =~= setup_args_of(
        user@,
        home@,
        exe@,
        enable,
        enable_now,
        restart_if_running,
    ));
    v
}

/// The `systemctl` arguments that disable the service, and stop it too with
/// `now`.
pub fn disable_args(now: bool) -> (r: Vec<String>)
    ensures
        string_views(r@) == (if now {
            seq!["disable"@, "--now"@, service_name()]
        } else {
            seq!["disable"@, service_name()]
        }),
{
    let mut v: Vec<String> = Vec::new();
    v.push(string_from_str("disable"));
    if now {
        v.push(string_from_str("--now"));
    }
    v.push(string_from_str("m87-runtime"));
    proof {
        if now {
            assert(string_views(v@) =~= seq!["disable"@, "--now"@, service_name()]);
        } else {
            assert(string_views(v@) =~= seq!["disable"@, service_name()]);
        }
    }
    v
}

/// The arguments of the privileged disable run under `sudo`.
pub fn disable_sudo_args(now: bool) -> (r: Vec<String>)
    ensures
        string_views(r@) == (if now {
            seq!["internal"@, "runtime-disable-privileged"@, "--now"@]
        } else {
            seq!["internal"@, "runtime-disable-privileged"@]
        }),
{
    let mut v: Vec<String> = Vec::new();
    v.push(string_from_str("internal"));
    v.push(string_from_str("runtime-disable-privileged"));
    if now {
        v.push(string_from_str("--now"));
    }
    proof {
        if now {
            assert(string_views(v@) =~= seq!["internal"@, "runtime-disable-privileged"@, "--now"@]);
        } else {
            assert(string_views(v@) =~= seq!["internal"@, "runtime-disable-privileged"@]);
        }
    }
    v
}

/// `systemctl status` exits with 4 for a unit it does not know: the service
/// is not installed.
pub fn service_not_installed(exit_code: Option<i32>) -> (r: bool)
    ensures
        r == (exit_code == Some(4i32)),
{
    match exit_code {
        Some(c) => c == 4,
        None => false,
    }
}

/// The unit file of the agent service for the executable.
pub open spec fn agent_service_content_of(exe: Seq<char>) -> Seq<char> {
    "[Unit]\nDescription=Agent Service for make87\nAfter=network.target\n\n[Service]\nExecStart="@
        + exe
        + " agent run --headless\nRestart=always\nRestartSec=3\nUser=root\nEnvironment=RUST_LOG=info\n\n[Install]\nWantedBy=multi-user.target\n"@
}

/// Generates the systemd unit file of the agent service.
pub fn agent_service_content(exe_path: &str) -> (r: String)
    ensures
        r@ == agent_service_content_of(exe_path@),
{
    let mut s = string_from_str(
        "[Unit]\nDescription=Agent Service for make87\nAfter=network.target\n\n[Service]\nExecStart=",
    );
    s.append(exe_path);
    s.append(
        " agent run --headless\nRestart=always\nRestartSec=3\nUser=root\nEnvironment=RUST_LOG=info\n\n[Install]\nWantedBy=multi-user.target\n",
    );
    s
}

/// What `systemctl status` printed that is shown: its standard output, or
/// its error output where the former is empty.
pub fn status_output(stdout: Vec<u8>, stderr: Vec<u8>) -> (r: Vec<u8>)
    ensures
        r@ == (if stdout@.len() == 0 {
            stderr@
        } else {
            stdout@
        }),
{
    if stdout.len() == 0 {
        stderr
    } else {
        stdout
    }
}

/// The unit file of the device agent service, run as the invoking user.
pub open spec fn device_agent_service_content_of(exe: Seq<char>, user: Seq<char>) -> Seq<char> {
    "[Unit]\nDescription=m87 Agent Service\nAfter=network-online.target\nWants=network-online.target\n\n[Service]\nType=simple\nExecStart="@
        + exe + " agent run\nRestart=on-failure\nRestartSec=3\nUser="@ + user
        + "\nStandardOutput=journal\nStandardError=journal\nTimeoutStopSec=30\nStartLimitBurst=5\nStartLimitIntervalSec=30\nEnvironment=RUST_LOG=info\n\n[Install]\nWantedBy=multi-user.target\n"@
}

/// Generates the systemd unit file of the device agent service.
pub fn device_agent_service_content(exe_path: &str, username: &str) -> (r: String)
    ensures
        r@ == device_agent_service_content_of(exe_path@, username@),
{
    let mut s = string_from_str(
        "[Unit]\nDescription=m87 Agent Service\nAfter=network-online.target\nWants=network-online.target\n\n[Service]\nType=simple\nExecStart=",
    );
    s.append(exe_path);
    s.append(" agent run\nRestart=on-failure\nRestartSec=3\nUser=");
    s.append(username);
    s.append(
        "\nStandardOutput=journal\nStandardError=journal\nTimeoutStopSec=30\nStartLimitBurst=5\nStartLimitIntervalSec=30\nEnvironment=RUST_LOG=info\n\n[Install]\nWantedBy=multi-user.target\n",
    );
    s
}

/// The error of a `systemctl` call that failed: exit codes 1 and 4 mean the
/// caller lacks privileges; any other failure reports its code (as `Some(n)`
/// or `None`, the way `{:?}` writes it).
pub open spec fn systemctl_error_of(code: Option<i32>) -> Seq<char> {
    match code {
        Some(c) => if c == 1 || c == 4 {
            "Permission denied. This command requires root privileges.\nPlease run with: sudo m87 agent <command>"@
        } else {
            "Command failed with exit code: Some("@ + crate::events::signed_decimal(c as int) + ")"@
        },
        None => "Command failed with exit code: None"@,
    }
}

/// The error of a `systemctl` call that failed.
pub fn check_permission_error(code: Option<i32>) -> (r: String)
    ensures
        r@ == systemctl_error_of(code),
{
    match code {
        Some(c) => {
            if c == 1 || c == 4 {
                string_from_str(
                    "Permission denied. This command requires root privileges.\nPlease run with: sudo m87 agent <command>",
                )
            } else {
                let mut s = string_from_str("Command failed with exit code: Some(");
                if c < 0 {
                    crate::text::push_char(&mut s, '-');
                    let m: u64 = (0i64 - (c as i64)) as u64;
                    crate::text::push_decimal(&mut s, m);
                } else {
                    crate::text::push_decimal(&mut s, c as u64);
                }
                s.append(")");
                s
            }
        },
        None => string_from_str("Command failed with exit code: None"),
    }
}

/// Seconds before the control tunnel is opened again: five after it failed,
/// one after it ended normally.
pub fn reconnect_delay_secs(failed: bool) -> (r: u64)
    ensures
        r == (if failed {
            5u64
        } else {
            1u64
        }),
{
    if failed {
        5
    } else {
        1
    }
}

} // verus!
