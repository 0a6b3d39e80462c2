//! The deployment manager's event queue on disk: how an event file is named,
//! which files of a queue directory are events, and which pending event is
//! claimed next (the oldest, by file name).
use vstd::prelude::*;

use crate::clock::{now_ms_i64, rand_suffix};
use crate::fs::string_views;
use crate::text::{chars_of, decimal, ends_with, push_char, push_decimal, string_from_str};

verus! {

/// The decimal text of a signed integer.
pub open spec fn signed_decimal(n: int) -> Seq<char> {
    if n < 0 {
        seq!['-'] + decimal((-n) as nat)
    } else {
        decimal(n as nat)
    }
}

/// The name of an event file: `<millis>-<suffix>.json`.
pub open spec fn event_file_name_of(millis: i64, suffix: u32) -> Seq<char> {
    signed_decimal(millis as int) + seq!['-'] + decimal(suffix as nat) + ".json"@
}

/// Names an event by the time it was queued, in milliseconds, and a
/// suffix that tells apart events of the same millisecond.
pub fn event_file_name(millis: i64, suffix: u32) -> (r: String)
    ensures
        r@ == event_file_name_of(millis, suffix),
{
    let mut s = String::new();
    if millis < 0 {
        push_char(&mut s, '-');
        let magnitude: u64 = (0i128 - (millis as i128)) as u64;
        push_decimal(&mut s, magnitude);
    } else {
        push_decimal(&mut s, millis as u64);
    }
    push_char(&mut s, '-');
    push_decimal(&mut s, suffix as u64);
    s.append(".json");
    s
}

/// A name for a new event: the current time and a weak random suffix.
pub fn new_event_file_name() -> (r: String)
    ensures
        exists|millis: i64, suffix: u32| r@ == event_file_name_of(millis, suffix),
{
    let millis = now_ms_i64();
    let suffix = rand_suffix();
    event_file_name(millis, suffix)
}

/// The temporary file an event is written to before it is renamed into the
/// queue (`Path::with_extension("json.tmp")` of an event file).
pub fn event_temp_name(name: &str) -> (r: String)
    requires
        name@.len() >= 5,
        crate::text::is_suffix(".json"@, name@),
    ensures
        r@ == name@ + ".tmp"@,
{
    let mut s = string_from_str(name);
    s.append(".tmp");
    s
}

/// A file of a queue directory is an event: its extension is `json`, that is
/// its name ends in `.json` after a non-empty stem.
pub open spec fn is_event_file_name(name: Seq<char>) -> bool {
    name.len() > 5 && crate::text::is_suffix(".json"@, name)
}

/// Whether a file of a queue directory is an event.
pub fn is_event_file(name: &str) -> (r: bool)
    ensures
        r == is_event_file_name(name@),
{
    let cs = chars_of(name);
    let ext = chars_of(".json");
    cs.len() > 5 && ends_with(cs.as_slice(), ext.as_slice())
}

/// Lexicographic order of names by character (the order of their UTF-8
/// bytes): `a` sorts strictly before `b`.
pub open spec fn name_lt(a: Seq<char>, b: Seq<char>) -> bool
    decreases a.len(),
{
    if a.len() == 0 {
        b.len() > 0
    } else if b.len() == 0 {
        false
    } else if a[0] != b[0] {
        (a[0] as int) < (b[0] as int)
    } else {
        name_lt(a.drop_first(), b.drop_first())
    }
}

/// The order of names is transitive.
pub proof fn lemma_name_lt_transitive(a: Seq<char>, b: Seq<char>, c: Seq<char>)
    requires
        name_lt(a, b),
        name_lt(b, c),
    ensures
        name_lt(a, c),
    decreases a.len(),
{
    if a.len() > 0 && b.len() > 0 && c.len() > 0 && a[0] == b[0] && b[0] == c[0] {
        lemma_name_lt_transitive(a.drop_first(), b.drop_first(), c.drop_first());
    }
}

/// The order of names is irreflexive.
pub proof fn lemma_name_lt_irreflexive(a: Seq<char>)
    ensures
        !name_lt(a, a),
    decreases a.len(),
{
    if a.len() > 0 {
        lemma_name_lt_irreflexive(a.drop_first());
    }
}

/// Two different names are ordered one way or the other.
pub proof fn lemma_name_lt_total(a: Seq<char>, b: Seq<char>)
    requires
        a != b,
    ensures
        name_lt(a, b) || name_lt(b, a),
    decreases a.len(),
{
    if a.len() == 0 && b.len() == 0 {
        assert(a =~= b);
    } else if a.len() > 0 && b.len() > 0 && a[0] == b[0] {
        if a.drop_first() == b.drop_first() {
            assert(a =~= seq![a[0]] + a.drop_first());
            assert(b =~= seq![b[0]] + b.drop_first());
            assert(a == b);
        } else {
            lemma_name_lt_total(a.drop_first(), b.drop_first());
        }
    } else if a.len() > 0 && b.len() > 0 {
        assert((a[0] as int) != (b[0] as int));
    }
}

/// Whether `a` sorts strictly before `b`.
fn chars_lt(a: &Vec<char>, b: &Vec<char>) -> (r: bool)
    ensures
        r == name_lt(a@, b@),
{
    let mut i: usize = 0;
    assert(a@.skip(0) =~= a@);
    assert(b@.skip(0) =~= b@);
    while i < a.len() && i < b.len()
        invariant
            i <= a.len(),
            i <= b.len(),
            name_lt(a@, b@) == name_lt(a@.skip(i as int), b@.skip(i as int)),
        decreases a.len() - i,
    {
        let ghost sa = a@.skip(i as int);
        let ghost sb = b@.skip(i as int);
        assert(sa[0] == a@[i as int]);
        assert(sb[0] == b@[i as int]);
        if a[i] != b[i] {
            return a[i] < b[i];
        }
        assert(sa.drop_first() =~= a@.skip(i + 1));
        assert(sb.drop_first() =~= b@.skip(i + 1));
        i = i + 1;
    }
    assert(a@.skip(i as int).len() == a.len() - i);
    assert(b@.skip(i as int).len() == b.len() - i);
    i == a.len() && i < b.len()
}

/// The pending event claimed next: the index of the event file whose name
/// sorts first, or none where there is no event file.
pub open spec fn is_oldest_event(names: Seq<Seq<char>>, k: int) -> bool {
    &&& 0 <= k < names.len()
    &&& is_event_file_name(names[k])
    &&& forall|j: int|
        0 <= j < names.len() && is_event_file_name(#[trigger] names[j]) ==> !name_lt(
            names[j],
            names[k],
        )
}

/// Picks the pending event to claim: among the files of the pending
/// directory, the event file whose name sorts first (event names start with
/// the time they were queued).
pub fn oldest_event(names: &Vec<String>) -> (r: Option<usize>)
    ensures
        match r {
            Some(k) => is_oldest_event(string_views(names@), k as int),
            None => forall|j: int|
                0 <= j < names@.len() ==> !is_event_file_name(#[trigger] string_views(names@)[j]),
        },
{
    let ghost v = string_views(names@);
    let mut best: Option<usize> = None;
    let mut best_chars: Vec<char> = Vec::new();
    let mut i: usize = 0;
    while i < names.len()
        invariant
            i <= names.len(),
            v == string_views(names@),
            v.len() == names@.len(),
            match best {
                Some(k) => {
                    &&& k < i
                    &&& is_event_file_name(v[k as int])
                    &&& best_chars@ == v[k as int]
                    &&& forall|j: int|
                        0 <= j < i && is_event_file_name(#[trigger] v[j]) ==> !name_lt(
                            v[j],
                            v[k as int],
                        )
                },
                None => forall|j: int| 0 <= j < i ==> !is_event_file_name(#[trigger] v[j]),
            },
        decreases names.len() - i,
    {
        assert(v[i as int] == names@[i as int]@);
        if is_event_file(names[i].as_str()) {
            let cs = chars_of(names[i].as_str());
            let take = match best {
                None => true,
                Some(_) => chars_lt(&cs, &best_chars),
            };
            if take {
                proof {
                    if let Some(k) = best {
                        assert forall|j: int|
                            0 <= j < i + 1 && is_event_file_name(#[trigger] v[j]) implies !name_lt(
                            v[j],
                            v[i as int],
                        ) by {
                            if j < i {
                                if name_lt(v[j], v[i as int]) {
                                    lemma_name_lt_transitive(v[j], v[i as int], v[k as int]);
                                }
                            } else {
                                lemma_name_lt_irreflexive(v[i as int]);
                            }
                        }
                    } else {
                        lemma_name_lt_irreflexive(v[i as int]);
                    }
                }
                best = Some(i);
                best_chars = cs;
            } else {
                proof {
                    if let Some(k) = best {
                        assert(!name_lt(v[i as int], v[k as int]));
                    }
                }
            }
        }
        i = i + 1;
    }
    best
}


/// An event queued into a queue that holds no other event is the one
/// claimed next: its name is an event file, the temporary file it is
/// written to first is not, and in any directory listing where it is the
/// only event file it is picked.
pub proof fn lemma_enqueued_event_is_claimed(millis: i64, suffix: u32, names: Seq<Seq<char>>, k: int)
    requires
        0 <= k < names.len(),
        names[k] == event_file_name_of(millis, suffix),
        forall|j: int| 0 <= j < names.len() && j != k ==> !is_event_file_name(#[trigger] names[j]),
    ensures
        is_event_file_name(event_file_name_of(millis, suffix)),
        !is_event_file_name(event_file_name_of(millis, suffix) + ".tmp"@),
        is_oldest_event(names, k),
{
    reveal_strlit(".json");
    reveal_strlit(".tmp");
    let n = event_file_name_of(millis, suffix);
    if millis < 0 {
        crate::text::lemma_decimal_len((-millis) as nat);
    } else {
        crate::text::lemma_decimal_len(millis as nat);
    }
    crate::text::lemma_decimal_len(suffix as nat);
    assert(n.skip(n.len() - 5) =~= ".json"@);
    let t = n + ".tmp"@;
    assert(t[t.len() - 5] == 'n');
    assert(t.skip(t.len() - 5)[0] == 'n');
    assert forall|j: int| 0 <= j < names.len() && is_event_file_name(#[trigger] names[j]) implies !name_lt(
        names[j],
        names[k],
    ) by {
        if j == k {
            lemma_name_lt_irreflexive(names[k]);
        }
    }
}


/// Names are ordered character by character: a proper prefix sorts before
/// the longer name, whatever the lengths.
pub proof fn lemma_name_lt_proper_prefix(a: Seq<char>, b: Seq<char>)
    requires
        a.len() < b.len(),
        b.take(a.len() as int) == a,
    ensures
        name_lt(a, b),
        !name_lt(b, a),
    decreases a.len(),
{
    if a.len() > 0 {
        assert(a[0] == b.take(a.len() as int)[0]);
        assert(b.drop_first().take(a.drop_first().len() as int) =~= a.drop_first()) by {
            assert forall|k: int| 0 <= k < a.len() - 1 implies b.drop_first()[k] == a.drop_first()[k] by {
                assert(b.take(a.len() as int)[k + 1] == a[k + 1]);
            }
        }
        lemma_name_lt_proper_prefix(a.drop_first(), b.drop_first());
    }
}

/// At the first position where two names differ, the name with the
/// smaller character there sorts first; what follows, and the lengths, do
/// not matter.
pub proof fn lemma_name_lt_first_difference(a: Seq<char>, b: Seq<char>, i: int)
    requires
        0 <= i < a.len(),
        i < b.len(),
        a.take(i) == b.take(i),
        a[i] != b[i],
    ensures
        name_lt(a, b) == ((a[i] as int) < (b[i] as int)),
        name_lt(b, a) == ((b[i] as int) < (a[i] as int)),
    decreases i,
{
    if i > 0 {
        assert(a[0] == a.take(i)[0]);
        assert(b[0] == b.take(i)[0]);
        assert(a.drop_first().take(i - 1) =~= b.drop_first().take(i - 1)) by {
            assert forall|k: int| 0 <= k < i - 1 implies a.drop_first()[k] == b.drop_first()[k] by {
                assert(a.take(i)[k + 1] == a[k + 1]);
                assert(b.take(i)[k + 1] == b[k + 1]);
                assert(a.take(i)[k + 1] == b.take(i)[k + 1]);
            }
        }
        lemma_name_lt_first_difference(a.drop_first(), b.drop_first(), i - 1);
    }
}


/// Appending anything to two names of the same length keeps their order.
proof fn lemma_name_lt_extend(x: Seq<char>, y: Seq<char>, u: Seq<char>, v: Seq<char>)
    requires
        x.len() == y.len(),
        name_lt(x, y),
    ensures
        name_lt(x + u, y + v),
    decreases x.len(),
{
    assert((x + u)[0] == x[0]);
    assert((y + v)[0] == y[0]);
    if x[0] == y[0] {
        assert((x + u).drop_first() =~= x.drop_first() + u);
        assert((y + v).drop_first() =~= y.drop_first() + v);
        lemma_name_lt_extend(x.drop_first(), y.drop_first(), u, v);
    }
}

/// Of two numbers written with as many digits, the smaller one's text
/// sorts first.
proof fn lemma_decimal_lt(a: nat, b: nat)
    requires
        a < b,
        decimal(a).len() == decimal(b).len(),
    ensures
        name_lt(decimal(a), decimal(b)),
    decreases b,
{
    crate::text::lemma_decimal_len(a);
    crate::text::lemma_decimal_len(b);
    if b < 10 {
        assert(decimal(a)[0] != decimal(b)[0]);
    } else {
        crate::text::lemma_decimal_len(a / 10);
        crate::text::lemma_decimal_len(b / 10);
        let da = decimal(a / 10);
        let db = decimal(b / 10);
        assert(decimal(a) == da + seq![crate::text::digit_char(a % 10)]);
        assert(decimal(b) == db + seq![crate::text::digit_char(b % 10)]);
        if a / 10 == b / 10 {
            let i = da.len() as int;
            assert(decimal(a).take(i) =~= da);
            assert(decimal(b).take(i) =~= db);
            assert(decimal(a)[i] == crate::text::digit_char(a % 10));
            assert(decimal(b)[i] == crate::text::digit_char(b % 10));
            lemma_name_lt_first_difference(decimal(a), decimal(b), i);
        } else {
            lemma_decimal_lt(a / 10, b / 10);
            lemma_name_lt_extend(
                da,
                db,
                seq![crate::text::digit_char(a % 10)],
                seq![crate::text::digit_char(b % 10)],
            );
        }
    }
}

/// Of two events queued at times written with as many digits, the one
/// queued earlier has the name that sorts first, so it is claimed first,
/// whatever the random suffixes.
pub proof fn lemma_earlier_event_sorts_first(m1: i64, s1: u32, m2: i64, s2: u32)
    requires
        0 <= m1 < m2,
        decimal(m1 as nat).len() == decimal(m2 as nat).len(),
    ensures
        name_lt(event_file_name_of(m1, s1), event_file_name_of(m2, s2)),
{
    lemma_decimal_lt(m1 as nat, m2 as nat);
    let r1 = seq!['-'] + decimal(s1 as nat) + ".json"@;
    let r2 = seq!['-'] + decimal(s2 as nat) + ".json"@;
    assert(event_file_name_of(m1, s1) =~= decimal(m1 as nat) + r1);
    assert(event_file_name_of(m2, s2) =~= decimal(m2 as nat) + r2);
    lemma_name_lt_extend(decimal(m1 as nat), decimal(m2 as nat), r1, r2);
}

} // verus!
