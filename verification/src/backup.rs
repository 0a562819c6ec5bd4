//! Snapshot naming and the orchestrator's pure decisions: sanitizing a
//! source basename into a safe directory name, composing the timestamped
//! snapshot name, recognizing partial snapshots, and choosing which old
//! snapshots retention removes.
use vstd::prelude::*;

use crate::clock::UtcTimestamp;
use crate::text::{
    char_vec_to_string, push_char, push_dec2, push_dec3, push_dec4, spec_dec2, spec_dec3,
    spec_dec4, str_to_char_vec,
};

verus! {

/// Characters a snapshot directory name may never contain: path separators,
/// characters Windows forbids in file names, and the NUL byte.
pub open spec fn is_invalid_char(c: char) -> bool {
    ||| c == '/'
    ||| c == '\\'
    ||| c == '<'
    ||| c == '>'
    ||| c == ':'
    ||| c == '"'
    ||| c == '|'
    ||| c == '?'
    ||| c == '*'
    ||| c == '\u{0}'
}

/// A control character: the Unicode Cc category.
pub open spec fn is_control_char(c: char) -> bool {
    (c as u32) < 0x20 || (0x7f <= (c as u32) && (c as u32) <= 0x9f)
}

/// How one character of `name` is rewritten: forbidden and control
/// characters become underscores, and dots and spaces become underscores
/// throughout whenever the name begins or ends with that same character.
pub open spec fn spec_map_char(c: char, name: Seq<char>) -> char {
    if is_invalid_char(c) || is_control_char(c) {
        '_'
    } else if (c == '.' || c == ' ') && name.len() > 0 && (name[0] == c || name[name.len() - 1]
        == c) {
        '_'
    } else {
        c
    }
}

/// `name` with every character rewritten.
pub open spec fn spec_map_name(name: Seq<char>) -> Seq<char> {
    Seq::new(name.len(), |i: int| spec_map_char(name[i], name))
}

/// `s` without leading underscores.
pub open spec fn spec_trim_leading(s: Seq<char>) -> Seq<char>
    decreases s.len(),
{
    if s.len() > 0 && s[0] == '_' {
        spec_trim_leading(s.drop_first())
    } else {
        s
    }
}

/// `s` without trailing underscores.
pub open spec fn spec_trim_trailing(s: Seq<char>) -> Seq<char>
    decreases s.len(),
{
    if s.len() > 0 && s[s.len() - 1] == '_' {
        spec_trim_trailing(s.drop_last())
    } else {
        s
    }
}

/// `s` without leading or trailing underscores.
pub open spec fn spec_trim_underscores(s: Seq<char>) -> Seq<char> {
    spec_trim_trailing(spec_trim_leading(s))
}

/// The first `n` characters of `s`, or all of it when shorter.
pub open spec fn spec_take_at_most(s: Seq<char>, n: int) -> Seq<char> {
    if s.len() <= n {
        s
    } else {
        s.subrange(0, n)
    }
}

/// The characters of `s` before its first dot; all of `s` when it has none.
pub open spec fn spec_before_dot(s: Seq<char>) -> Seq<char>
    decreases s.len(),
{
    if s.len() == 0 {
        s
    } else if s[0] == '.' {
        Seq::empty()
    } else {
        seq![s[0]] + spec_before_dot(s.drop_first())
    }
}

/// `c` is the letter `lo` in either case; `up` is `lo`'s upper case.
pub open spec fn spec_eq_ci(c: char, lo: char, up: char) -> bool {
    c == lo || c == up
}

/// An ASCII decimal digit.
pub open spec fn spec_is_ascii_digit(c: char) -> bool {
    ||| c == '0'
    ||| c == '1'
    ||| c == '2'
    ||| c == '3'
    ||| c == '4'
    ||| c == '5'
    ||| c == '6'
    ||| c == '7'
    ||| c == '8'
    ||| c == '9'
}

/// Whether `s`, compared without regard to ASCII case, is one of the names
/// Windows reserves: aux, con, nul, prn, or com or lpt followed by a digit.
pub open spec fn spec_is_reserved_base(s: Seq<char>) -> bool {
    ||| (s.len() == 3 && spec_eq_ci(s[0], 'a', 'A') && spec_eq_ci(s[1], 'u', 'U') && spec_eq_ci(
        s[2],
        'x',
        'X',
    ))
    ||| (s.len() == 3 && spec_eq_ci(s[0], 'c', 'C') && spec_eq_ci(s[1], 'o', 'O') && spec_eq_ci(
        s[2],
        'n',
        'N',
    ))
    ||| (s.len() == 3 && spec_eq_ci(s[0], 'n', 'N') && spec_eq_ci(s[1], 'u', 'U') && spec_eq_ci(
        s[2],
        'l',
        'L',
    ))
    ||| (s.len() == 3 && spec_eq_ci(s[0], 'p', 'P') && spec_eq_ci(s[1], 'r', 'R') && spec_eq_ci(
        s[2],
        'n',
        'N',
    ))
    ||| (s.len() == 4 && spec_eq_ci(s[0], 'c', 'C') && spec_eq_ci(s[1], 'o', 'O') && spec_eq_ci(
        s[2],
        'm',
        'M',
    ) && spec_is_ascii_digit(s[3]))
    ||| (s.len() == 4 && spec_eq_ci(s[0], 'l', 'L') && spec_eq_ci(s[1], 'p', 'P') && spec_eq_ci(
        s[2],
        't',
        'T',
    ) && spec_is_ascii_digit(s[3]))
}

/// Whether the part of `name` before its first dot is a reserved name,
/// compared without regard to ASCII case.
pub open spec fn spec_is_reserved_name(name: Seq<char>) -> bool {
    spec_is_reserved_base(spec_before_dot(name))
}

/// The fallback name used when sanitizing leaves nothing.
pub open spec fn fallback_name() -> Seq<char> {
    seq!['b', 'a', 'c', 'k', 'u', 'p']
}

/// The sanitized form of a source basename: characters rewritten, edge
/// underscores trimmed, truncated to 255 characters, the fallback when
/// nothing remains, and an underscore prefix when the base is reserved.
pub open spec fn spec_sanitize(name: Seq<char>) -> Seq<char> {
    let t = spec_take_at_most(spec_trim_underscores(spec_map_name(name)), 255);
    if t.len() == 0 {
        fallback_name()
    } else if spec_is_reserved_base(spec_before_dot(t)) {
        seq!['_'] + t
    } else {
        t
    }
}

/// The prefix of `s` before its first dot is `s.take(d)` when no dot comes
/// before position `d` and `d` is a dot or the end.
pub proof fn lemma_before_dot(s: Seq<char>, d: int)
    requires
        0 <= d <= s.len(),
        forall|k: int| 0 <= k < d ==> s[k] != '.',
        d < s.len() ==> s[d] == '.',
    ensures
        spec_before_dot(s) == s.take(d),
    decreases s.len(),
{
    if s.len() == 0 {
        assert(spec_before_dot(s) =~= s.take(0));
    } else if s[0] == '.' {
        assert(d == 0);
        assert(spec_before_dot(s) =~= s.take(0));
    } else {
        assert(d >= 1);
        let rest = s.drop_first();
        assert(forall|k: int| 0 <= k < d - 1 ==> rest[k] == s[k + 1] && rest[k] != '.');
        lemma_before_dot(rest, d - 1);
        assert(spec_before_dot(s) =~= s.take(d)) by {
            assert(spec_before_dot(s) == seq![s[0]] + rest.take(d - 1));
        }
    }
}

fn eq_ci(c: char, lo: char, up: char) -> (r: bool)
    ensures
        r == spec_eq_ci(c, lo, up),
{
    c == lo || c == up
}

fn is_ascii_digit(c: char) -> (r: bool)
    ensures
        r == spec_is_ascii_digit(c),
{
    c == '0' || c == '1' || c == '2' || c == '3' || c == '4' || c == '5' || c == '6' || c == '7'
        || c == '8' || c == '9'
}

/// Whether the first `end` characters of `v` form a reserved base name.
fn reserved_base_match(v: &Vec<char>, end: usize) -> (r: bool)
    requires
        end <= v@.len(),
    ensures
        r == spec_is_reserved_base(v@.take(end as int)),
{
    if end == 3 {
        let c0 = v[0];
        let c1 = v[1];
        let c2 = v[2];
        (eq_ci(c0, 'a', 'A') && eq_ci(c1, 'u', 'U') && eq_ci(c2, 'x', 'X')) || (eq_ci(c0, 'c', 'C')
            && eq_ci(c1, 'o', 'O') && eq_ci(c2, 'n', 'N')) || (eq_ci(c0, 'n', 'N') && eq_ci(
            c1,
            'u',
            'U',
        ) && eq_ci(c2, 'l', 'L')) || (eq_ci(c0, 'p', 'P') && eq_ci(c1, 'r', 'R') && eq_ci(
            c2,
            'n',
            'N',
        ))
    } else if end == 4 {
        let c0 = v[0];
        let c1 = v[1];
        let c2 = v[2];
        let c3 = v[3];
        ((eq_ci(c0, 'c', 'C') && eq_ci(c1, 'o', 'O') && eq_ci(c2, 'm', 'M')) || (eq_ci(
            c0,
            'l',
            'L',
        ) && eq_ci(c1, 'p', 'P') && eq_ci(c2, 't', 'T'))) && is_ascii_digit(c3)
    } else {
        false
    }
}

fn is_invalid_char_exec(c: char) -> (r: bool)
    ensures
        r == is_invalid_char(c),
{
    c == '/' || c == '\\' || c == '<' || c == '>' || c == ':' || c == '"' || c == '|' || c == '?'
        || c == '*' || c == '\u{0}'
}

fn is_control_char_exec(c: char) -> (r: bool)
    ensures
        r == is_control_char(c),
{
    let u = c as u32;
    u < 0x20 || (0x7f <= u && u <= 0x9f)
}

/// Whether the part of `name` before its first dot is a Windows reserved
/// name (aux, con, nul, prn, com or lpt with a digit), compared without
/// regard to ASCII case.
pub fn is_reserved_name(name: &str) -> (r: bool)
    ensures
        r == spec_is_reserved_name(name@),
{
    let chars = str_to_char_vec(name);
    let n = chars.len();
    let mut d: usize = 0;
    while d < n && chars[d] != '.'
        invariant
            d <= n,
            n == chars@.len(),
            chars@ == name@,
            forall|k: int| 0 <= k < d ==> chars@[k] != '.',
        decreases n - d,
    {
        d = d + 1;
    }
    proof {
        lemma_before_dot(name@, d as int);
    }
    reserved_base_match(&chars, d)
}

/// The orchestrator: the pure decisions of one backup run. The file copying
/// itself is the caller's collaborator.
pub struct BackupOrchestrator {
    pub copy_engine: crate::engine::CopyEngine,
}

impl BackupOrchestrator {
    pub fn new() -> (r: Self) {
        BackupOrchestrator { copy_engine: crate::engine::CopyEngine::new() }
    }

    /// Rewrite a source basename into a safe snapshot directory name:
    /// forbidden, control, and edge dot or space characters become
    /// underscores, edge underscores are trimmed, the result is truncated to
    /// 255 characters, an empty result falls back to `backup`, and a
    /// reserved base name gains an underscore prefix.
    pub fn sanitize_backup_name(name: &str) -> (r: String)
        ensures
            r@ == spec_sanitize(name@),
    {
        let chars = str_to_char_vec(name);
        let n = chars.len();
        let mut mapped: Vec<char> = Vec::new();
        let mut i: usize = 0;
        while i < n
            invariant
                i <= n,
                n == chars@.len(),
                chars@ == name@,
                mapped@ == spec_map_name(name@).subrange(0, i as int),
            decreases n - i,
        {
            let c = chars[i];
            let m: char = if is_invalid_char_exec(c) || is_control_char_exec(c) {
                '_'
            } else if (c == '.' || c == ' ') && (chars[0] == c || chars[n - 1] == c) {
                '_'
            } else {
                c
            };
            proof {
                assert(m == spec_map_char(name@[i as int], name@));
            }
            mapped.push(m);
            proof {
                assert(mapped@ =~= spec_map_name(name@).subrange(0, i + 1 as int));
            }
            i = i + 1;
        }
        proof {
            assert(mapped@ =~= spec_map_name(name@));
        }
        // trim leading underscores
        let mut a: usize = 0;
        while a < n && mapped[a] == '_'
            invariant
                a <= n,
                n == mapped@.len(),
                spec_trim_leading(mapped@) == spec_trim_leading(
                    mapped@.subrange(a as int, n as int),
                ),
            decreases n - a,
        {
            proof {
                assert(mapped@.subrange(a as int, n as int).drop_first() =~= mapped@.subrange(
                    a + 1 as int,
                    n as int,
                ));
            }
            a = a + 1;
        }
        proof {
            assert(spec_trim_leading(mapped@) == mapped@.subrange(a as int, n as int));
        }
        // trim trailing underscores
        let mut b: usize = n;
        while b > a && mapped[b - 1] == '_'
            invariant
                a <= b <= n,
                n == mapped@.len(),
                spec_trim_trailing(mapped@.subrange(a as int, n as int)) == spec_trim_trailing(
                    mapped@.subrange(a as int, b as int),
                ),
            decreases b,
        {
            proof {
                assert(mapped@.subrange(a as int, b as int).drop_last() =~= mapped@.subrange(
                    a as int,
                    b - 1 as int,
                ));
            }
            b = b - 1;
        }
        proof {
            assert(spec_trim_underscores(mapped@) == mapped@.subrange(a as int, b as int));
        }
        // truncate to 255 characters
        let end: usize = if b - a > 255 {
            a + 255
        } else {
            b
        };
        proof {
            assert(spec_take_at_most(mapped@.subrange(a as int, b as int), 255) =~= mapped@.subrange(
                a as int,
                end as int,
            ));
        }
        let mut t: Vec<char> = Vec::new();
        let mut k: usize = a;
        while k < end
            invariant
                a <= k <= end,
                end <= n,
                n == mapped@.len(),
                t@ == mapped@.subrange(a as int, k as int),
            decreases end - k,
        {
            t.push(mapped[k]);
            proof {
                assert(t@ =~= mapped@.subrange(a as int, k + 1 as int));
            }
            k = k + 1;
        }
        proof {
            assert(t@ == spec_take_at_most(spec_trim_underscores(spec_map_name(name@)), 255));
        }
        if t.len() == 0 {
            let r = String::from_str("backup");
            proof {
                reveal_strlit("backup");
                assert(r@ =~= fallback_name());
            }
            return r;
        }
        // reserved-name check on the part before the first dot
        let tl = t.len();
        let mut d: usize = 0;
        while d < tl && t[d] != '.'
            invariant
                d <= tl,
                tl == t@.len(),
                forall|k2: int| 0 <= k2 < d ==> t@[k2] != '.',
            decreases tl - d,
        {
            d = d + 1;
        }
        proof {
            lemma_before_dot(t@, d as int);
        }
        let reserved = reserved_base_match(&t, d);
        if reserved {
            let ghost t_old = t@;
            t.insert(0, '_');
            proof {
                assert(t@ =~= seq!['_'] + t_old);
            }
        }
        char_vec_to_string(&t)
    }

    /// Compose the name of a new snapshot directory: the sanitized source
    /// basename followed by the UTC timestamp, with milliseconds to break
    /// collisions within a second.
    #[verifier::rlimit(60)]
    pub fn generate_backup_name(source_name: &str, ts: &UtcTimestamp) -> (r: String)
        requires
            ts.wf(),
        ensures
            r@ == spec_backup_name(source_name@, *ts),
    {
        let mut s = Self::sanitize_backup_name(source_name);
        push_char(&mut s, '_');
        push_dec4(&mut s, ts.year as u64);
        push_char(&mut s, '-');
        push_dec2(&mut s, ts.month as u64);
        push_char(&mut s, '-');
        push_dec2(&mut s, ts.day as u64);
        push_char(&mut s, '_');
        push_dec2(&mut s, ts.hour as u64);
        push_dec2(&mut s, ts.minute as u64);
        push_dec2(&mut s, ts.second as u64);
        push_char(&mut s, '_');
        push_dec3(&mut s, ts.millisecond as u64);
        proof {
            assert(s@ =~= spec_backup_name(source_name@, *ts));
        }
        s
    }

    /// The name an interrupted snapshot directory is renamed to.
    pub fn partial_backup_name(name: &str) -> (r: String)
        ensures
            r@ == name@ + partial_suffix(),
    {
        let mut s = name.to_owned();
        s.append("_PARTIAL");
        proof {
            reveal_strlit("_PARTIAL");
            assert("_PARTIAL"@ =~= partial_suffix());
            assert(s@ =~= name@ + partial_suffix());
        }
        s
    }

    /// The directory names that carry the partial marker, in order.
    pub fn detect_partial_backups(names: &Vec<String>) -> (r: Vec<String>)
        ensures
            r@ == names@.filter(|n: String| spec_ends_with(n@, partial_suffix())),
    {
        let mut r: Vec<String> = Vec::new();
        proof {
            reveal(Seq::filter);
        }
        let mut i: usize = 0;
        while i < names.len()
            invariant
                i <= names@.len(),
                r@ == names@.subrange(0, i as int).filter(
                    |n: String| spec_ends_with(n@, partial_suffix()),
                ),
            decreases names@.len() - i,
        {
            if is_partial_name(names[i].as_str()) {
                r.push(names[i].clone());
            }
            proof {
                reveal(Seq::filter);
                let sub1 = names@.subrange(0, i + 1 as int);
                assert(sub1.drop_last() =~= names@.subrange(0, i as int));
                assert(sub1.last() == names@[i as int]);
                assert(r@ =~= sub1.filter(|n: String| spec_ends_with(n@, partial_suffix())));
            }
            i = i + 1;
        }
        proof {
            assert(names@.subrange(0, names@.len() as int) =~= names@);
        }
        r
    }
}

/// The suffix marking an interrupted snapshot directory.
pub open spec fn partial_suffix() -> Seq<char> {
    seq!['_', 'P', 'A', 'R', 'T', 'I', 'A', 'L']
}

/// The prefix of the library's own bookkeeping files inside a target.
pub open spec fn keephive_prefix() -> Seq<char> {
    seq!['.', 'k', 'e', 'e', 'p', 'h', 'i', 'v', 'e']
}

/// `s` ends with `suffix`.
pub open spec fn spec_ends_with(s: Seq<char>, suffix: Seq<char>) -> bool {
    s.len() >= suffix.len() && s.subrange(s.len() - suffix.len(), s.len() as int) == suffix
}

/// `s` starts with `prefix`.
pub open spec fn spec_starts_with(s: Seq<char>, prefix: Seq<char>) -> bool {
    s.len() >= prefix.len() && s.subrange(0, prefix.len() as int) == prefix
}

/// The timestamp part of a snapshot name: an underscore, the UTC date and
/// time as YYYY-MM-DD_HHMMSS, an underscore and the milliseconds, three
/// digits or more.
pub open spec fn spec_timestamp_suffix(ts: UtcTimestamp) -> Seq<char> {
    seq!['_'] + spec_dec4(ts.year as nat) + seq!['-'] + spec_dec2(ts.month as nat) + seq!['-']
        + spec_dec2(ts.day as nat) + seq!['_'] + spec_dec2(ts.hour as nat) + spec_dec2(
        ts.minute as nat,
    ) + spec_dec2(ts.second as nat) + seq!['_'] + spec_dec3(ts.millisecond as nat)
}

/// The full name of a snapshot directory: the sanitized source basename and
/// the timestamp part.
pub open spec fn spec_backup_name(source_name: Seq<char>, ts: UtcTimestamp) -> Seq<char> {
    spec_sanitize(source_name) + spec_timestamp_suffix(ts)
}

/// Whether `name` carries the partial marker.
pub fn is_partial_name(name: &str) -> (r: bool)
    ensures
        r == spec_ends_with(name@, partial_suffix()),
{
    let v = str_to_char_vec(name);
    let n = v.len();
    if n < 8 {
        return false;
    }
    let ok: bool = v[n - 8] == '_' && v[n - 7] == 'P' && v[n - 6] == 'A' && v[n - 5] == 'R' && v[n
        - 4] == 'T' && v[n - 3] == 'I' && v[n - 2] == 'A' && v[n - 1] == 'L';
    proof {
        let sub = name@.subrange(n as int - 8, n as int);
        if ok {
            assert(sub =~= partial_suffix());
        }
        if sub == partial_suffix() {
            assert(sub[0] == '_' && sub[1] == 'P' && sub[2] == 'A' && sub[3] == 'R' && sub[4]
                == 'T' && sub[5] == 'I' && sub[6] == 'A' && sub[7] == 'L');
            assert(ok);
        }
    }
    ok
}

/// Whether `name` starts with the library's bookkeeping prefix.
pub fn is_keephive_name(name: &str) -> (r: bool)
    ensures
        r == spec_starts_with(name@, keephive_prefix()),
{
    let v = str_to_char_vec(name);
    let n = v.len();
    if n < 9 {
        return false;
    }
    let ok: bool = v[0] == '.' && v[1] == 'k' && v[2] == 'e' && v[3] == 'e' && v[4] == 'p' && v[5]
        == 'h' && v[6] == 'i' && v[7] == 'v' && v[8] == 'e';
    proof {
        let sub = name@.subrange(0, 9);
        if ok {
            assert(sub =~= keephive_prefix());
        }
        if sub == keephive_prefix() {
            assert(sub[0] == '.' && sub[1] == 'k' && sub[2] == 'e' && sub[3] == 'e' && sub[4]
                == 'p' && sub[5] == 'h' && sub[6] == 'i' && sub[7] == 'v' && sub[8] == 'e');
            assert(ok);
        }
    }
    ok
}

/// Every character the rewrite produces is allowed: never a forbidden or
/// control character.
proof fn lemma_map_name_chars(name: Seq<char>)
    ensures
        forall|i: int|
            0 <= i < spec_map_name(name).len() ==> !is_invalid_char(
                #[trigger] spec_map_name(name)[i],
            ) && !is_control_char(spec_map_name(name)[i]),
{
    assert forall|i: int| 0 <= i < spec_map_name(name).len() implies !is_invalid_char(
        #[trigger] spec_map_name(name)[i],
    ) && !is_control_char(spec_map_name(name)[i]) by {
        assert(spec_map_name(name)[i] == spec_map_char(name[i], name));
        assert(!is_invalid_char('_'));
        assert(!is_control_char('_'));
    }
}

/// Trimming leading underscores leaves a suffix whose first character, if
/// any, is not an underscore.
proof fn lemma_trim_leading_props(s: Seq<char>)
    ensures
        spec_trim_leading(s).len() <= s.len(),
        spec_trim_leading(s) == s.subrange(
            s.len() - spec_trim_leading(s).len(),
            s.len() as int,
        ),
        spec_trim_leading(s).len() > 0 ==> spec_trim_leading(s)[0] != '_',
    decreases s.len(),
{
    if s.len() > 0 && s[0] == '_' {
        lemma_trim_leading_props(s.drop_first());
        let r = spec_trim_leading(s);
        let d = s.drop_first();
        assert(d.subrange(d.len() - r.len(), d.len() as int) =~= s.subrange(
            s.len() - r.len(),
            s.len() as int,
        ));
    } else {
        assert(spec_trim_leading(s) =~= s.subrange(0, s.len() as int));
        assert(s.subrange(s.len() - s.len(), s.len() as int) =~= s);
    }
}

/// Trimming trailing underscores leaves a prefix whose last character, if
/// any, is not an underscore.
proof fn lemma_trim_trailing_props(s: Seq<char>)
    ensures
        spec_trim_trailing(s).len() <= s.len(),
        spec_trim_trailing(s) == s.subrange(0, spec_trim_trailing(s).len() as int),
        spec_trim_trailing(s).len() > 0 ==> spec_trim_trailing(s)[spec_trim_trailing(s).len() - 1]
            != '_',
    decreases s.len(),
{
    if s.len() > 0 && s[s.len() - 1] == '_' {
        lemma_trim_trailing_props(s.drop_last());
        let r = spec_trim_trailing(s);
        assert(s.drop_last().subrange(0, r.len() as int) =~= s.subrange(0, r.len() as int));
    } else {
        assert(spec_trim_trailing(s) =~= s.subrange(0, s.len() as int));
    }
}

/// Rewriting changes nothing in a name whose characters are all allowed and
/// whose first and last characters are not dots or spaces.
proof fn lemma_map_identity(s: Seq<char>)
    requires
        forall|i: int|
            0 <= i < s.len() ==> !is_invalid_char(#[trigger] s[i]) && !is_control_char(s[i]),
        s.len() > 0,
        s[0] != '.' && s[0] != ' ',
        s[s.len() - 1] != '.' && s[s.len() - 1] != ' ',
    ensures
        spec_map_name(s) == s,
{
    assert forall|i: int| 0 <= i < s.len() implies spec_map_name(s)[i] == s[i] by {
        assert(spec_map_name(s)[i] == spec_map_char(s[i], s));
    }
    assert(spec_map_name(s) =~= s);
}

/// Sanitizing never returns an empty name.
pub proof fn lemma_sanitize_nonempty(name: Seq<char>)
    ensures
        spec_sanitize(name).len() > 0,
{
}

/// Sanitize idempotence: sanitizing a sanitized name changes nothing,
/// provided the first pass did not end at a dot, space or underscore or
/// start at a dot or space. (Truncation to 255 characters, or an underscore
/// that trimming uncovers, can leave such an edge character; a second pass
/// then cleans it again.)
pub proof fn lemma_sanitize_idempotent(name: Seq<char>)
    requires
        spec_sanitize(name)[0] != '.',
        spec_sanitize(name)[0] != ' ',
        spec_sanitize(name).last() != '.',
        spec_sanitize(name).last() != ' ',
        spec_sanitize(name).last() != '_',
    ensures
        spec_sanitize(spec_sanitize(name)) == spec_sanitize(name),
{
    let s = spec_sanitize(name);
    let m = spec_map_name(name);
    let t1 = spec_trim_leading(m);
    let tr = spec_trim_trailing(t1);
    let t = spec_take_at_most(tr, 255);
    lemma_map_name_chars(name);
    lemma_trim_leading_props(m);
    lemma_trim_trailing_props(t1);
    let a0 = m.len() - t1.len();
    assert(tr =~= m.subrange(a0, a0 + tr.len())) by {
        assert(t1 == m.subrange(a0, m.len() as int));
        assert(tr == t1.subrange(0, tr.len() as int));
    }
    assert(forall|i: int| 0 <= i < t.len() ==> #[trigger] t[i] == m[a0 + i]);
    assert(forall|i: int|
        0 <= i < t.len() ==> !is_invalid_char(#[trigger] t[i]) && !is_control_char(t[i]));
    if t.len() == 0 {
        // the fallback name sanitizes to itself
        assert(s == fallback_name());
        assert(s.len() == 6);
        lemma_map_identity(s);
        assert(spec_trim_underscores(s) == s) by {
            lemma_trim_leading_props(s);
            lemma_trim_trailing_props(s);
            assert(spec_trim_leading(s) =~= s);
        }
        assert(spec_take_at_most(s, 255) == s);
        assert(spec_before_dot(s) == s) by {
            lemma_before_dot(s, 6);
            assert(s.take(6) =~= s);
        }
        assert(!spec_is_reserved_base(s));
        assert(spec_sanitize(s) == s);
    } else {
        // the kept part starts at a non-underscore; its last character is
        // the result's last character
        assert(t[0] == tr[0]);
        assert(t[0] != '_');
        if spec_is_reserved_base(spec_before_dot(t)) {
            assert(s == seq!['_'] + t);
            assert(s.last() == t.last());
            lemma_map_identity(s);
            assert(spec_trim_underscores(s) == t) by {
                assert(s[0] == '_');
                assert(s.drop_first() =~= t);
                assert(spec_trim_leading(s) == spec_trim_leading(t));
                assert(spec_trim_leading(t) == t);
                assert(spec_trim_trailing(t) == t);
            }
            assert(spec_take_at_most(t, 255) == t);
            assert(spec_sanitize(s) =~= s);
        } else {
            assert(s == t);
            lemma_map_identity(s);
            assert(spec_trim_underscores(s) == s) by {
                assert(spec_trim_leading(s) == s);
                assert(spec_trim_trailing(s) == s);
            }
            assert(spec_take_at_most(s, 255) == s);
            assert(spec_sanitize(s) == s);
        }
    }
}

/// One directory entry of a target, as retention sees it.
#[derive(Clone, Debug)]
pub struct BackupEntry {
    pub name: String,
    /// Modification time, epoch seconds.
    pub modified: i64,
    pub is_dir: bool,
}

/// An entry retention counts: a directory that is neither a partial snapshot
/// nor one of the library's own bookkeeping files.
pub open spec fn spec_is_candidate(e: BackupEntry) -> bool {
    &&& e.is_dir
    &&& !spec_ends_with(e.name@, partial_suffix())
    &&& !spec_starts_with(e.name@, keephive_prefix())
}

/// Candidate `j` sorts strictly before candidate `i` in the retention order:
/// modified later, or modified at the same time and listed earlier.
pub open spec fn spec_newer(entries: Seq<BackupEntry>, j: int, i: int) -> bool {
    &&& spec_is_candidate(entries[j])
    &&& (entries[j].modified > entries[i].modified || (entries[j].modified == entries[i].modified
        && j < i))
}

/// How many of the first `k` entries sort before entry `i`.
pub open spec fn spec_newer_upto(entries: Seq<BackupEntry>, i: int, k: int) -> int
    decreases k,
{
    if k <= 0 {
        0
    } else {
        spec_newer_upto(entries, i, k - 1) + if spec_newer(entries, k - 1, i) {
            1int
        } else {
            0int
        }
    }
}

/// The position entry `i` would take in the retention order: the number of
/// candidates that sort before it.
pub open spec fn spec_rank(entries: Seq<BackupEntry>, i: int) -> int {
    spec_newer_upto(entries, i, entries.len() as int)
}

/// Retention keeps entry `i`: a candidate among the `n` first in the order.
pub open spec fn spec_kept(entries: Seq<BackupEntry>, n: int, i: int) -> bool {
    spec_is_candidate(entries[i]) && spec_rank(entries, i) < n
}

/// The names retention removes among the first `k` entries: candidates past
/// the `n` first in the order, in listing order.
pub open spec fn spec_removals(entries: Seq<BackupEntry>, n: int, k: int) -> Seq<String>
    decreases k,
{
    if k <= 0 {
        Seq::empty()
    } else {
        spec_removals(entries, n, k - 1) + if spec_is_candidate(entries[k - 1]) && spec_rank(
            entries,
            k - 1,
        ) >= n {
            seq![entries[k - 1].name]
        } else {
            Seq::empty()
        }
    }
}

/// How many of the first `k` entries retention keeps.
pub open spec fn spec_kept_upto(entries: Seq<BackupEntry>, n: int, k: int) -> int
    decreases k,
{
    if k <= 0 {
        0
    } else {
        spec_kept_upto(entries, n, k - 1) + if spec_kept(entries, n, k - 1) {
            1int
        } else {
            0int
        }
    }
}

/// How many of the first `k` entries are candidates.
pub open spec fn spec_candidates_upto(entries: Seq<BackupEntry>, k: int) -> int
    decreases k,
{
    if k <= 0 {
        0
    } else {
        spec_candidates_upto(entries, k - 1) + if spec_is_candidate(entries[k - 1]) {
            1int
        } else {
            0int
        }
    }
}

fn is_candidate(e: &BackupEntry) -> (r: bool)
    ensures
        r == spec_is_candidate(*e),
{
    e.is_dir && !is_partial_name(e.name.as_str()) && !is_keephive_name(e.name.as_str())
}

impl BackupOrchestrator {
    /// The names retention removes from a listing of the target: every
    /// candidate directory past the `retention_count` most recently
    /// modified, ties broken towards the earlier entry. Partial snapshots
    /// and bookkeeping files are never chosen.
    pub fn select_backups_to_remove(entries: &Vec<BackupEntry>, retention_count: usize) -> (r: Vec<
        String,
    >)
        ensures
            r@ == spec_removals(entries@, retention_count as int, entries@.len() as int),
    {
        let n = entries.len();
        let mut r: Vec<String> = Vec::new();
        let mut i: usize = 0;
        while i < n
            invariant
                i <= n,
                n == entries@.len(),
                r@ == spec_removals(entries@, retention_count as int, i as int),
            decreases n - i,
        {
            if is_candidate(&entries[i]) {
                // count the candidates that sort before entry i
                let mut rank: usize = 0;
                let mut j: usize = 0;
                while j < n
                    invariant
                        j <= n,
                        i < n,
                        n == entries@.len(),
                        rank <= j,
                        rank == spec_newer_upto(entries@, i as int, j as int),
                    decreases n - j,
                {
                    let newer: bool = is_candidate(&entries[j]) && (entries[j].modified
                        > entries[i].modified || (entries[j].modified == entries[i].modified && j
                        < i));
                    if newer {
                        rank = rank + 1;
                    }
                    j = j + 1;
                }
                if rank >= retention_count {
                    r.push(entries[i].name.clone());
                }
            }
            i = i + 1;
        }
        r
    }
}

/// Counting monotonicity: when everything that sorts before `i` also sorts
/// before `j`, entry `i`'s count cannot exceed `j`'s.
proof fn lemma_newer_upto_mono(entries: Seq<BackupEntry>, i: int, j: int, k: int)
    requires
        forall|m: int| 0 <= m < k && spec_newer(entries, m, i) ==> spec_newer(entries, m, j),
    ensures
        spec_newer_upto(entries, i, k) <= spec_newer_upto(entries, j, k),
    decreases k,
{
    if k > 0 {
        lemma_newer_upto_mono(entries, i, j, k - 1);
    }
}

/// The count of entries sorting before anything is non-negative.
proof fn lemma_newer_upto_nonneg(entries: Seq<BackupEntry>, i: int, k: int)
    ensures
        spec_newer_upto(entries, i, k) >= 0,
    decreases k,
{
    if k > 0 {
        lemma_newer_upto_nonneg(entries, i, k - 1);
    }
}

/// Strict counting: when candidate `j` sorts before candidate `i` and `j`
/// lies below `k`, entry `i` counts strictly more predecessors than `j`.
proof fn lemma_newer_upto_strict(entries: Seq<BackupEntry>, i: int, j: int, k: int)
    requires
        0 <= i < entries.len(),
        0 <= j < entries.len(),
        j < k <= entries.len(),
        spec_is_candidate(entries[i]),
        spec_is_candidate(entries[j]),
        spec_newer(entries, j, i),
    ensures
        spec_newer_upto(entries, j, k) < spec_newer_upto(entries, i, k),
    decreases k,
{
    assert forall|m: int| 0 <= m < entries.len() && spec_newer(entries, m, j) implies spec_newer(
        entries,
        m,
        i,
    ) by {}
    assert(!spec_newer(entries, j, j));
    if k == j + 1 {
        lemma_newer_upto_mono(entries, j, i, j);
    } else {
        lemma_newer_upto_strict(entries, i, j, k - 1);
    }
}

/// Two distinct candidates never share a rank: one of them sorts before the
/// other, which pushes the ranks apart.
proof fn lemma_ranks_distinct(entries: Seq<BackupEntry>, i: int, j: int)
    requires
        0 <= i < entries.len(),
        0 <= j < entries.len(),
        i != j,
        spec_is_candidate(entries[i]),
        spec_is_candidate(entries[j]),
    ensures
        spec_rank(entries, i) != spec_rank(entries, j),
{
    if spec_newer(entries, j, i) {
        lemma_newer_upto_strict(entries, i, j, entries.len() as int);
    } else {
        assert(spec_newer(entries, i, j));
        lemma_newer_upto_strict(entries, j, i, entries.len() as int);
    }
}

/// At most one of the first `k` entries is a candidate of rank exactly `n`.
proof fn lemma_rank_count(entries: Seq<BackupEntry>, n: int, k: int) -> (c: int)
    requires
        0 <= k <= entries.len(),
    ensures
        0 <= c <= 1,
        spec_kept_upto(entries, n + 1, k) == spec_kept_upto(entries, n, k) + c,
        c == 1 ==> exists|w: int|
            0 <= w < k && spec_is_candidate(#[trigger] entries[w]) && spec_rank(entries, w) == n,
    decreases k,
{
    if k <= 0 {
        0
    } else {
        let c0 = lemma_rank_count(entries, n, k - 1);
        let here: int = if spec_is_candidate(entries[k - 1]) && spec_rank(entries, k - 1) == n {
            1
        } else {
            0
        };
        if here == 1 {
            assert(spec_is_candidate(entries[k - 1]) && spec_rank(entries, k - 1) == n);
            if c0 == 1 {
                let w = choose|w: int|
                    0 <= w < k - 1 && spec_is_candidate(#[trigger] entries[w]) && spec_rank(
                        entries,
                        w,
                    ) == n;
                lemma_ranks_distinct(entries, w, k - 1);
                assert(false);
            }
        }
        c0 + here
    }
}

/// Retention keeps at most `n` entries.
pub proof fn lemma_retention_keeps_at_most(entries: Seq<BackupEntry>, n: int)
    requires
        0 <= n,
    ensures
        spec_kept_upto(entries, n, entries.len() as int) <= n,
    decreases n,
{
    let k = entries.len() as int;
    if n == 0 {
        assert forall|m: int| 0 <= m <= k implies spec_kept_upto(entries, 0, m) == 0 by {
            lemma_kept_upto_zero(entries, m);
        }
    } else {
        lemma_retention_keeps_at_most(entries, n - 1);
        let c = lemma_rank_count(entries, n - 1, k);
    }
}

/// With a retention bound of zero nothing is kept: every rank is at least
/// zero.
proof fn lemma_kept_upto_zero(entries: Seq<BackupEntry>, k: int)
    ensures
        spec_kept_upto(entries, 0, k) == 0,
    decreases k,
{
    if k > 0 {
        lemma_kept_upto_zero(entries, k - 1);
        if spec_kept(entries, 0, k - 1) {
            lemma_newer_upto_nonneg(entries, k - 1, entries.len() as int);
        }
    }
}

/// Every candidate is either kept or among the removals: the two counts add
/// up to the candidate count.
pub proof fn lemma_retention_partition(entries: Seq<BackupEntry>, n: int, k: int)
    requires
        0 <= k <= entries.len(),
    ensures
        spec_kept_upto(entries, n, k) + spec_removals(entries, n, k).len() == spec_candidates_upto(
            entries,
            k,
        ),
    decreases k,
{
    if k > 0 {
        lemma_retention_partition(entries, n, k - 1);
    }
}

/// At-most-once retention: after removing the selected names, at most `n`
/// candidate directories remain in the target, and they are the most
/// recently modified ones: nothing removed is newer than anything kept.
pub proof fn lemma_retention_bound(entries: Seq<BackupEntry>, n: int)
    requires
        0 <= n,
    ensures
        spec_candidates_upto(entries, entries.len() as int) - spec_removals(
            entries,
            n,
            entries.len() as int,
        ).len() <= n,
        forall|i: int, j: int|
            (0 <= i < entries.len() && 0 <= j < entries.len() && spec_kept(entries, n, i)
                && spec_is_candidate(entries[j]) && !spec_kept(entries, n, j))
                ==> entries[j].modified <= entries[i].modified,
{
    let k = entries.len() as int;
    lemma_retention_keeps_at_most(entries, n);
    lemma_retention_partition(entries, n, k);
    assert forall|i: int, j: int|
        (0 <= i < k && 0 <= j < k && spec_kept(entries, n, i) && spec_is_candidate(entries[j])
            && !spec_kept(entries, n, j)) implies entries[j].modified <= entries[i].modified by {
        if entries[j].modified > entries[i].modified {
            assert(spec_newer(entries, j, i));
            lemma_newer_upto_strict(entries, i, j, k);
        }
    }
}

} // verus!
