//! The decisions of the command line that do not depend on the terminal:
//! how `m87 ssh connect` reads its arguments, which sync runs, where an
//! owner comes from, how verbose the log is, and what confirms a removal.
use vstd::prelude::*;

use crate::fs::string_views;
use crate::text::{
    chars_eq_str, chars_of, is_suffix, push_chars, string_from_chars, string_from_str, trim,
    trim_of,
};

verus! {

/// `m87 ssh connect` as read from its arguments.
#[derive(Debug, Clone)]
pub struct SshConnect {
    /// `--transport`: act as the `ProxyCommand` of `ssh`.
    pub transport: bool,
    /// The host as given.
    pub host: String,
    /// The device: the host without a `.m87` suffix.
    pub device: String,
    /// The arguments after the host, for `ssh`.
    pub rest: Vec<String>,
}

/// The arguments that are not `--transport`, in order.
pub open spec fn positional_of(args: Seq<Seq<char>>) -> Seq<Seq<char>> {
    args.filter(|a: Seq<char>| a != "--transport"@)
}

/// A host without its `.m87` suffix (removed once).
pub open spec fn device_of_host(host: Seq<char>) -> Seq<char> {
    if is_suffix(".m87"@, host) {
        host.take(host.len() - ".m87"@.len())
    } else {
        host
    }
}

/// Reads the arguments of `m87 ssh connect`.
pub fn ssh_connect_args(args: &Vec<String>) -> (r: Result<SshConnect, String>)
    ensures
        args@.len() == 0 ==> r is Err && r->Err_0@ == "missing ssh target"@,
        args@.len() > 0 && positional_of(string_views(args@)).len() == 0 ==> r is Err && r->Err_0@
            == "missing ssh host"@,
        r matches Ok(c) ==> {
            let pos = positional_of(string_views(args@));
            &&& pos.len() > 0
            &&& c.transport == string_views(args@).contains("--transport"@)
            &&& c.host@ == pos[0]
            &&& c.device@ == device_of_host(pos[0])
            &&& string_views(c.rest@) == pos.drop_first()
        },
        args@.len() > 0 && positional_of(string_views(args@)).len() > 0 ==> r is Ok,
{
    if args.len() == 0 {
        return Err(string_from_str("missing ssh target"));
    }
    let ghost sv = string_views(args@);
    let mut transport = false;
    let mut positional: Vec<String> = Vec::new();
    let mut i: usize = 0;
    proof {
        reveal(Seq::filter);
    }
    assert(sv.take(0) =~= Seq::<Seq<char>>::empty());
    while i < args.len()
        invariant
            i <= args.len(),
            sv == string_views(args@),
            sv.len() == args@.len(),
            string_views(positional@) == positional_of(sv.take(i as int)),
            transport == sv.take(i as int).contains("--transport"@),
        decreases args.len() - i,
    {
        let a = chars_of(args[i].as_str());
        assert(sv[i as int] == args@[i as int]@);
        assert(sv.take(i + 1).drop_last() =~= sv.take(i as int));
        assert(sv.take(i + 1).last() == sv[i as int]);
        proof {
            reveal(Seq::filter);
        }
        let is_transport = chars_eq_str(a.as_slice(), "--transport");
        let ghost before = string_views(positional@);
        if is_transport {
            transport = true;
        } else {
            positional.push(args[i].clone());
            assert(string_views(positional@) =~= before.push(sv[i as int]));
        }
        proof {
            let pre = sv.take(i as int);
            let nxt = sv.take(i + 1);
            assert(nxt =~= pre.push(sv[i as int]));
            if nxt.contains("--transport"@) && !pre.contains("--transport"@) {
                let k = choose|k: int| 0 <= k < nxt.len() && #[trigger] nxt[k] == "--transport"@;
                if k < i {
                    assert(pre[k] == "--transport"@);
                }
            }
            if is_transport {
                assert(nxt[i as int] == "--transport"@);
            }
            if pre.contains("--transport"@) {
                let k = choose|k: int| 0 <= k < pre.len() && #[trigger] pre[k] == "--transport"@;
                assert(nxt[k] == "--transport"@);
            }
        }
        i = i + 1;
    }
    assert(sv.take(args.len() as int) =~= sv);
    if positional.len() == 0 {
        return Err(string_from_str("missing ssh host"));
    }
    let host = positional[0].clone();
    let hc = chars_of(host.as_str());
    let suffix = chars_of(".m87");
    let device = if crate::text::ends_with(hc.as_slice(), suffix.as_slice()) {
        let d = crate::text::slice_range(hc.as_slice(), 0, hc.len() - suffix.len());
        string_from_chars(d.as_slice())
    } else {
        host.clone()
    };
    let mut rest: Vec<String> = Vec::new();
    let mut j: usize = 1;
    while j < positional.len()
        invariant
            1 <= j <= positional.len(),
            string_views(rest@) == string_views(positional@).subrange(1, j as int),
        decreases positional.len() - j,
    {
        let ghost before = string_views(rest@);
        let item = positional[j].clone();
        let ghost iv = item@;
        assert(iv == string_views(positional@)[j as int]);
        rest.push(item);
        assert(string_views(rest@) =~= before.push(iv));
        assert(string_views(positional@).subrange(1, j + 1) =~= string_views(positional@).subrange(
            1,
            j as int,
        ).push(iv));
        j = j + 1;
    }
    assert(string_views(positional@).subrange(1, positional.len() as int) =~= string_views(
        positional@,
    ).drop_first());
    Ok(SshConnect { transport, host, device, rest })
}

/// How `m87 sync` runs.
#[derive(Debug, Clone, Copy, PartialEq, Eq, Structural)]
pub enum SyncMode {
    /// Keep syncing as files change.
    Watch,
    /// Sync once (and only report with a dry run).
    Once,
}

/// The sync mode of the flags: watching cannot be a dry run.
pub fn sync_mode(watch: bool, dry_run: bool) -> (r: Result<SyncMode, String>)
    ensures
        watch && dry_run ==> r is Err && r->Err_0@ == "--dry-run cannot be used with --watch"@,
        watch && !dry_run ==> r == Ok::<SyncMode, String>(SyncMode::Watch),
        !watch ==> r == Ok::<SyncMode, String>(SyncMode::Once),
{
    if watch {
        if dry_run {
            return Err(string_from_str("--dry-run cannot be used with --watch"));
        }
        Ok(SyncMode::Watch)
    } else {
        Ok(SyncMode::Once)
    }
}

/// The owner given on the command line: the organization, else the e-mail.
pub fn owner_from_flags(org_id: Option<String>, email: Option<String>) -> (r: Option<String>)
    ensures
        r == (if org_id.is_some() {
            org_id
        } else {
            email
        }),
{
    match org_id {
        Some(o) => Some(o),
        None => email,
    }
}

/// Records the owner given to `m87 runtime login` (the organization, else
/// the e-mail) in the configuration; whether it changed and must be saved.
pub fn save_owner_if_provided(
    config: &mut crate::config::Config,
    org_id: Option<String>,
    email: Option<String>,
) -> (changed: bool)
    ensures
        changed == (org_id.is_some() || email.is_some()),
        changed ==> final(config).owner_reference == (if org_id.is_some() {
            org_id
        } else {
            email
        }),
        !changed ==> final(config).owner_reference == old(config).owner_reference,
        final(config).agent_server_url == old(config).agent_server_url,
        final(config).device_id == old(config).device_id,
{
    match owner_from_flags(org_id, email) {
        Some(o) => {
            config.owner_reference = Some(o);
            true
        },
        None => false,
    }
}

/// The log level: `info` when verbose or running the runtime, else `warn`.
pub fn log_level(verbose: bool, runtime_run: bool) -> (r: String)
    ensures
        r@ == (if verbose || runtime_run {
            "info"@
        } else {
            "warn"@
        }),
{
    if verbose || runtime_run {
        string_from_str("info")
    } else {
        string_from_str("warn")
    }
}

/// Whether the command line only asks for help (`--help`, `-h` or `help`
/// as its one argument), which lists the device commands too.
pub fn help_requested(args: &Vec<String>) -> (r: bool)
    ensures
        r == (args@.len() == 2 && (args@[1]@ == "--help"@ || args@[1]@ == "-h"@ || args@[1]@
            == "help"@)),
{
    if args.len() != 2 {
        return false;
    }
    let a = chars_of(args[1].as_str());
    chars_eq_str(a.as_slice(), "--help") || chars_eq_str(a.as_slice(), "-h") || chars_eq_str(
        a.as_slice(),
        "help",
    )
}

/// Whether the answer to the removal prompt confirms it: `y`, trimmed.
pub fn removal_confirmed(input: &str) -> (r: bool)
    ensures
        r == (trim_of(input@) == "y"@),
{
    let cs = chars_of(input);
    let t = trim(cs.as_slice());
    chars_eq_str(t.as_slice(), "y")
}


/// A name padded with spaces on the right to at least `width` characters
/// (the `{:width}` format of a string).
pub open spec fn padded(name: Seq<char>, width: nat) -> Seq<char> {
    if name.len() >= width {
        name
    } else {
        name + Seq::new((width - name.len()) as nat, |_i: int| ' ')
    }
}

/// One line of the device commands: indented, the name in a column of
/// twelve, then the description.
pub open spec fn command_help_line(name: Seq<char>, about: Seq<char>) -> Seq<char> {
    "    "@ + padded(name, 12) + " "@ + about
}

/// The lines of the device commands, in order, without the `help` command.
pub open spec fn help_lines(cmds: Seq<(Seq<char>, Seq<char>)>) -> Seq<Seq<char>>
    decreases cmds.len(),
{
    if cmds.len() == 0 {
        Seq::empty()
    } else {
        let rest = help_lines(cmds.drop_last());
        if cmds.last().0 == "help"@ {
            rest
        } else {
            rest.push(command_help_line(cmds.last().0, cmds.last().1))
        }
    }
}

/// Lines joined with a newline between each two.
pub open spec fn joined_lines(lines: Seq<Seq<char>>) -> Seq<char>
    decreases lines.len(),
{
    if lines.len() == 0 {
        Seq::empty()
    } else if lines.len() == 1 {
        lines[0]
    } else {
        joined_lines(lines.drop_last()) + "\n"@ + lines.last()
    }
}

/// The name and description of each command, by their views.
pub open spec fn command_views(v: Seq<(String, String)>) -> Seq<(Seq<char>, Seq<char>)> {
    v.map_values(|p: (String, String)| (p.0@, p.1@))
}

/// The section that the help ends with: how to address a device, its
/// commands, and examples.
pub open spec fn device_help_of(cmds: Seq<(Seq<char>, Seq<char>)>) -> Seq<char> {
    "DEVICE COMMANDS:\n  Run commands on a specific device: m87 <DEVICE> <COMMAND>\n\n"@
        + joined_lines(help_lines(cmds))
        + "\n\n  Examples:\n    m87 my-device shell\n    m87 my-device forward 8080\n    m87 my-device docker ps\n    m87 my-device exec -- ls -la"@
}

/// Appends `cs` padded with spaces to at least `width` characters.
fn push_padded(s: &mut String, cs: &[char], width: usize)
    ensures
        final(s)@ == old(s)@ + padded(cs@, width as nat),
{
    let ghost start = s@;
    push_chars(s, cs);
    if cs.len() < width {
        let fill: usize = width - cs.len();
        let mut k: usize = 0;
        while k < fill
            invariant
                k <= fill,
                fill == width - cs@.len(),
                s@ == start + cs@ + Seq::new(k as nat, |_i: int| ' '),
            decreases fill - k,
        {
            crate::text::push_char(s, ' ');
            assert(Seq::new((k + 1) as nat, |_i: int| ' ') =~= Seq::new(k as nat, |_i: int| ' ').push(
                ' ',
            ));
            k = k + 1;
        }
    } else {
        assert(s@ =~= start + cs@);
    }
}

/// The device commands section of the help, from the name and description
/// of each device command as the command-line grammar lists them.
pub fn device_commands_help(commands: &Vec<(String, String)>) -> (r: String)
    ensures
        r@ == device_help_of(command_views(commands@)),
{
    let ghost cv = command_views(commands@);
    let mut body = String::new();
    let mut any = false;
    let mut i: usize = 0;
    assert(cv.take(0) =~= Seq::<(Seq<char>, Seq<char>)>::empty());
    while i < commands.len()
        invariant
            i <= commands.len(),
            cv == command_views(commands@),
            cv.len() == commands@.len(),
            body@ == joined_lines(help_lines(cv.take(i as int))),
            any == (help_lines(cv.take(i as int)).len() > 0),
        decreases commands.len() - i,
    {
        let name = chars_of(commands[i].0.as_str());
        let about = chars_of(commands[i].1.as_str());
        assert(cv.take(i + 1).drop_last() =~= cv.take(i as int));
        assert(cv.take(i + 1).last() == cv[i as int]);
        assert(cv[i as int] == (commands@[i as int].0@, commands@[i as int].1@));
        if !chars_eq_str(name.as_slice(), "help") {
            let ghost lines = help_lines(cv.take(i as int));
            let ghost line = command_help_line(name@, about@);
            let ghost before = body@;
            if any {
                push_chars(&mut body, chars_of("\n").as_slice());
            }
            let ghost mid = body@;
            push_chars(&mut body, chars_of("    ").as_slice());
            push_padded(&mut body, name.as_slice(), 12);
            push_chars(&mut body, chars_of(" ").as_slice());
            push_chars(&mut body, about.as_slice());
            proof {
                assert(help_lines(cv.take(i + 1)) == lines.push(line));
                assert(lines.push(line).drop_last() =~= lines);
                if any {
                    assert(body@ =~= before + "\n"@ + line);
                } else {
                    assert(lines.push(line) =~= seq![line]);
                    assert(body@ =~= line);
                }
            }
            any = true;
        }
        i = i + 1;
    }
    assert(cv.take(commands.len() as int) =~= cv);
    let mut r = string_from_str(
        "DEVICE COMMANDS:\n  Run commands on a specific device: m87 <DEVICE> <COMMAND>\n\n",
    );
    push_chars(&mut r, chars_of(body.as_str()).as_slice());
    push_chars(
        &mut r,
        chars_of(
            "\n\n  Examples:\n    m87 my-device shell\n    m87 my-device forward 8080\n    m87 my-device docker ps\n    m87 my-device exec -- ls -la",
        ).as_slice(),
    );
    r
}

} // verus!
