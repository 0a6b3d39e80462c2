//! SSH to devices: the host name `ssh` is given, and the block of the user's
//! SSH configuration that routes `*.m87` hosts through the client.
use vstd::prelude::*;

use crate::text::{
    chars_of, contains_char, contains_chars, contains_seq, first_index_of, join_path,
    lemma_first_index_of, lemma_first_index_of_char, lines, lines_of, path_join, push_char,
    push_chars, strip_trailing_cr, string_from_str, trim, trim_of, views,
};

verus! {

/// The host `ssh` connects to: the target itself when it holds a `.`, else
/// `<target>.m87`.
pub open spec fn ssh_host_of(target: Seq<char>) -> Seq<char> {
    if target.contains('.') {
        target
    } else {
        target + ".m87"@
    }
}

/// The host `ssh` connects to.
pub fn ssh_host(target: &str) -> (r: String)
    ensures
        r@ == ssh_host_of(target@),
{
    let cs = chars_of(target);
    let mut s = string_from_str(target);
    if !contains_char(cs.as_slice(), '.') {
        s.append(".m87");
    }
    s
}

/// The user's SSH configuration file: `.ssh/config` in the home directory
/// (`HOME`, else `USERPROFILE`), or the error of a user without one.
pub fn ssh_config_path(home: Option<String>, user_profile: Option<String>) -> (r: Result<
    String,
    String,
>)
    ensures
        match home {
            Some(h) => r is Ok && r->Ok_0@ == join_path(join_path(h@, ".ssh"@), "config"@),
            None => match user_profile {
                Some(h) => r is Ok && r->Ok_0@ == join_path(join_path(h@, ".ssh"@), "config"@),
                None => r is Err && r->Err_0@ == "Cannot determine home directory"@,
            },
        },
{
    let h = match home {
        Some(h) => h,
        None => match user_profile {
            Some(h) => h,
            None => {
                return Err(string_from_str("Cannot determine home directory"));
            },
        },
    };
    let d = path_join(h.as_str(), ".ssh");
    Ok(path_join(d.as_str(), "config"))
}

/// The block appended to the SSH configuration.
pub open spec fn m87_ssh_block() -> Seq<char> {
    "\nHost *.m87\n    ProxyCommand m87 ssh %h %r --transport\n"@
}

/// The SSH configuration after enabling: unchanged (none) where it holds
/// `Host m87-*` already; else ended by a newline and followed by the block.
pub open spec fn ssh_enabled_of(contents: Seq<char>) -> Option<Seq<char>> {
    if contains_seq(contents, "Host m87-*"@) {
        None
    } else if contents.len() > 0 && contents.last() == '\n' {
        Some(contents + m87_ssh_block())
    } else {
        Some(contents + seq!['\n'] + m87_ssh_block())
    }
}

/// The SSH configuration with the `*.m87` block enabled, or none where it
/// needs no change.
pub fn ssh_enable_config(contents: &str) -> (r: Option<String>)
    ensures
        match ssh_enabled_of(contents@) {
            Some(c) => r is Some && r->0@ == c,
            None => r is None,
        },
{
    let cs = chars_of(contents);
    let marker = chars_of("Host m87-*");
    if contains_chars(cs.as_slice(), marker.as_slice()) {
        return None;
    }
    let mut s = string_from_str(contents);
    let ends_nl = cs.len() > 0 && cs[cs.len() - 1] == '\n';
    if !ends_nl {
        push_char(&mut s, '\n');
    }
    s.append("\nHost *.m87\n    ProxyCommand m87 ssh %h %r --transport\n");
    Some(s)
}

/// A line that starts the block to remove.
pub open spec fn is_m87_host_line(l: Seq<char>) -> bool {
    trim_of(l) == "Host m87-*"@
}

/// A line that continues a block: it starts with a space or a tab.
pub open spec fn is_indented(l: Seq<char>) -> bool {
    l.len() > 0 && (l[0] == ' ' || l[0] == '\t')
}

/// The lines kept when disabling: a `Host m87-*` line and the indented
/// lines after it go; every other line stays. `skip` holds inside a
/// removed block.
pub open spec fn disabled_lines(ls: Seq<Seq<char>>, skip: bool) -> Seq<Seq<char>>
    decreases ls.len(),
{
    if ls.len() == 0 {
        seq![]
    } else if is_m87_host_line(ls[0]) {
        disabled_lines(ls.drop_first(), true)
    } else if skip && is_indented(ls[0]) {
        disabled_lines(ls.drop_first(), true)
    } else {
        seq![ls[0]] + disabled_lines(ls.drop_first(), false)
    }
}

/// Lines joined, each followed by a newline.
pub open spec fn joined_lines(ls: Seq<Seq<char>>) -> Seq<char>
    decreases ls.len(),
{
    if ls.len() == 0 {
        seq![]
    } else {
        ls[0] + seq!['\n'] + joined_lines(ls.drop_first())
    }
}

/// The SSH configuration after disabling.
pub open spec fn ssh_disabled_of(contents: Seq<char>) -> Seq<char> {
    joined_lines(disabled_lines(lines_of(contents), false))
}

proof fn lemma_disabled_step(ls: Seq<Seq<char>>, i: int, skip: bool)
    requires
        0 <= i < ls.len(),
    ensures
        disabled_lines(ls.skip(i), skip) == (if is_m87_host_line(ls[i]) {
            disabled_lines(ls.skip(i + 1), true)
        } else if skip && is_indented(ls[i]) {
            disabled_lines(ls.skip(i + 1), true)
        } else {
            seq![ls[i]] + disabled_lines(ls.skip(i + 1), false)
        }),
{
    assert(ls.skip(i).drop_first() =~= ls.skip(i + 1));
    assert(ls.skip(i)[0] == ls[i]);
}

proof fn lemma_joined_push(ls: Seq<Seq<char>>, l: Seq<char>)
    ensures
        joined_lines(ls.push(l)) == joined_lines(ls) + l + seq!['\n'],
    decreases ls.len(),
{
    if ls.len() == 0 {
        let single = ls.push(l);
        assert(single[0] == l);
        assert(single.drop_first() =~= Seq::<Seq<char>>::empty());
        assert(joined_lines(single.drop_first()) =~= Seq::<char>::empty());
        assert(joined_lines(single) =~= l + seq!['\n'] + Seq::<char>::empty());
        assert(joined_lines(ls) =~= Seq::<char>::empty());
        assert(l + seq!['\n'] + Seq::<char>::empty() =~= joined_lines(ls) + l + seq!['\n']);
    } else {
        assert(ls.push(l).drop_first() =~= ls.drop_first().push(l));
        lemma_joined_push(ls.drop_first(), l);
        assert(joined_lines(ls.push(l)) =~= joined_lines(ls) + l + seq!['\n']);
    }
}

/// The SSH configuration with the `Host m87-*` block removed.
pub fn ssh_disable_config(contents: &str) -> (r: String)
    ensures
        r@ == ssh_disabled_of(contents@),
{
    let cs = chars_of(contents);
    let ls = lines(cs.as_slice());
    let ghost lv = views(ls@);
    let mut out = String::new();
    let mut kept: Vec<Vec<char>> = Vec::new();
    let mut skip = false;
    let mut i: usize = 0;
    assert(lv.skip(0) =~= lv);
    while i < ls.len()
        invariant
            i <= ls.len(),
            lv == views(ls@),
            lv.len() == ls@.len(),
            out@ == joined_lines(views(kept@)),
            views(kept@) + disabled_lines(lv.skip(i as int), skip) == disabled_lines(lv, false),
        decreases ls.len() - i,
    {
        let line = &ls[i];
        assert(lv[i as int] == line@);
        proof {
            lemma_disabled_step(lv, i as int, skip);
        }
        let t = trim(line.as_slice());
        let host = chars_of("Host m87-*");
        let ghost before = views(kept@);
        if crate::text::chars_eq(t.as_slice(), host.as_slice()) {
            skip = true;
        } else {
            let indented = line.len() > 0 && (line[0] == ' ' || line[0] == '\t');
            if skip && indented {
            } else {
                skip = false;
                push_chars(&mut out, line.as_slice());
                push_char(&mut out, '\n');
                kept.push(line.clone());
                proof {
                    lemma_joined_push(before, line@);
                }
                assert(views(kept@) =~= before.push(line@));
                assert(views(kept@) + disabled_lines(lv.skip(i + 1), false) =~= before + (seq![
                    line@,
                ] + disabled_lines(lv.skip(i + 1), false)));
            }
        }
        i = i + 1;
    }
    assert(lv.skip(ls.len() as int) =~= Seq::<Seq<char>>::empty());
    assert(views(kept@) + Seq::<Seq<char>>::empty() =~= views(kept@));
    out
}

/// No line holds a line feed, nor ends with a carriage return.
pub open spec fn plain_lines(ls: Seq<Seq<char>>) -> bool {
    forall|k: int|
        0 <= k < ls.len() ==> !(#[trigger] ls[k]).contains('\n') && !(ls[k].len() > 0
            && ls[k].last() == '\r')
}

proof fn lemma_lines_of_joined(ls: Seq<Seq<char>>)
    requires
        plain_lines(ls),
    ensures
        lines_of(joined_lines(ls)) == ls,
    decreases ls.len(),
{
    if ls.len() > 0 {
        let l = ls[0];
        let rest = ls.drop_first();
        assert(plain_lines(rest)) by {
            assert forall|k: int| 0 <= k < rest.len() implies !(#[trigger] rest[k]).contains('\n')
                && !(rest[k].len() > 0 && rest[k].last() == '\r') by {
                assert(rest[k] == ls[k + 1]);
            }
        }
        lemma_lines_of_joined(rest);
        let s = joined_lines(ls);
        assert(s == l + seq!['\n'] + joined_lines(rest));
        assert(!l.contains('\n'));
        assert forall|k: int| 0 <= k < l.len() implies s[k] != '\n' by {
            assert(s[k] == l[k]);
        }
        assert(s[l.len() as int] == '\n');
        lemma_first_index_of_char(s, '\n', l.len() as int);
        assert(s.take(l.len() as int) =~= l);
        assert(s.skip(l.len() as int + 1) =~= joined_lines(rest));
        assert(strip_trailing_cr(l) == l);
        assert(lines_of(s) == seq![l] + rest);
        assert(seq![l] + rest =~= ls);
    } else {
        assert(joined_lines(ls) =~= Seq::<char>::empty());
    }
}

proof fn lemma_lines_of_plain(s: Seq<char>)
    requires
        !s.contains('\r'),
    ensures
        plain_lines(lines_of(s)),
    decreases s.len(),
{
    if s.len() > 0 {
        lemma_first_index_of(s, '\n');
        match first_index_of(s, '\n') {
            Some(i) => {
                let l = s.take(i);
                let tail = s.skip(i + 1);
                assert(!tail.contains('\r')) by {
                    if tail.contains('\r') {
                        let k = choose|k: int| 0 <= k < tail.len() && #[trigger] tail[k] == '\r';
                        assert(s[i + 1 + k] == '\r');
                    }
                }
                lemma_lines_of_plain(s.skip(i + 1));
                assert(!l.contains('\n')) by {
                    if l.contains('\n') {
                        let k = choose|k: int| 0 <= k < l.len() && l[k] == '\n';
                        assert(s[k] == '\n');
                    }
                }
                if l.len() > 0 {
                    assert(l.last() == s[i - 1]);
                    assert(s[i - 1] != '\r');
                }
                assert(strip_trailing_cr(l) == l);
                let ls = lines_of(s);
                let rest = lines_of(s.skip(i + 1));
                assert(ls == seq![l] + rest);
                assert forall|k: int| 0 <= k < ls.len() implies !(#[trigger] ls[k]).contains('\n')
                    && !(ls[k].len() > 0 && ls[k].last() == '\r') by {
                    if k > 0 {
                        assert(ls[k] == rest[k - 1]);
                    }
                }
            },
            None => {
                if s.contains('\n') {
                    let k = choose|k: int| 0 <= k < s.len() && s[k] == '\n';
                }
                assert(s.last() == s[s.len() - 1]);
            },
        }
    }
}

proof fn lemma_disabled_members(ls: Seq<Seq<char>>, skip: bool)
    ensures
        forall|k: int|
            0 <= k < disabled_lines(ls, skip).len() ==> !is_m87_host_line(
                #[trigger] disabled_lines(ls, skip)[k],
            ) && ls.contains(disabled_lines(ls, skip)[k]),
    decreases ls.len(),
{
    if ls.len() > 0 {
        let rest = ls.drop_first();
        lemma_disabled_members(rest, true);
        lemma_disabled_members(rest, false);
        let d = disabled_lines(ls, skip);
        assert forall|k: int| 0 <= k < d.len() implies !is_m87_host_line(#[trigger] d[k])
            && ls.contains(d[k]) by {
            if is_m87_host_line(ls[0]) || (skip && is_indented(ls[0])) {
                let dt = disabled_lines(rest, true);
                assert(d == dt);
                assert(!is_m87_host_line(dt[k]) && rest.contains(dt[k]));
                let j = choose|j: int| 0 <= j < rest.len() && rest[j] == dt[k];
                assert(ls[j + 1] == d[k]);
            } else if k == 0 {
                assert(ls[0] == d[k]);
            } else {
                let dr = disabled_lines(rest, false);
                assert(d[k] == dr[k - 1]);
                let j = choose|j: int| 0 <= j < rest.len() && rest[j] == dr[k - 1];
                assert(ls[j + 1] == d[k]);
            }
        }
    }
}

proof fn lemma_disabled_identity(ls: Seq<Seq<char>>)
    requires
        forall|k: int| 0 <= k < ls.len() ==> !is_m87_host_line(#[trigger] ls[k]),
    ensures
        disabled_lines(ls, false) == ls,
    decreases ls.len(),
{
    if ls.len() > 0 {
        let rest = ls.drop_first();
        assert forall|k: int| 0 <= k < rest.len() implies !is_m87_host_line(#[trigger] rest[k]) by {
            assert(rest[k] == ls[k + 1]);
        }
        lemma_disabled_identity(rest);
        assert(!is_m87_host_line(ls[0]));
        assert(seq![ls[0]] + rest =~= ls);
    }
}

/// Disabling twice changes nothing more than disabling once, for a
/// configuration without carriage returns. (With them, a line ending in two
/// carriage returns loses one on each pass, as `str::lines` strips one.)
pub proof fn lemma_ssh_disable_idempotent(contents: Seq<char>)
    requires
        !contents.contains('\r'),
    ensures
        ssh_disabled_of(ssh_disabled_of(contents)) == ssh_disabled_of(contents),
{
    let ls = lines_of(contents);
    let kept = disabled_lines(ls, false);
    lemma_lines_of_plain(contents);
    lemma_disabled_members(ls, false);
    assert(plain_lines(kept)) by {
        assert forall|k: int| 0 <= k < kept.len() implies !(#[trigger] kept[k]).contains('\n')
            && !(kept[k].len() > 0 && kept[k].last() == '\r') by {
            let j = choose|j: int| 0 <= j < ls.len() && ls[j] == kept[k];
            assert(ls[j] == kept[k]);
        }
    }
    lemma_lines_of_joined(kept);
    lemma_disabled_identity(kept);
}

} // verus!
