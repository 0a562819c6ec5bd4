//! The state manager's pure half: naming the temporary file the atomic save
//! protocol writes before renaming it over the state path. The protocol
//! itself (write, flush, rename) is the caller's I/O; the document it
//! persists is `crate::state::BackupState`.
use vstd::prelude::*;

use crate::text::str_to_char_vec;

verus! {

/// The last position of a path separator in `s`, or -1.
pub open spec fn spec_last_separator(s: Seq<char>) -> int
    decreases s.len(),
{
    if s.len() == 0 {
        -1
    } else if s[s.len() - 1] == '/' || s[s.len() - 1] == '\\' {
        s.len() - 1
    } else {
        spec_last_separator(s.drop_last())
    }
}

/// The last position of a dot in `s`, or -1.
pub open spec fn spec_last_dot(s: Seq<char>) -> int
    decreases s.len(),
{
    if s.len() == 0 {
        -1
    } else if s[s.len() - 1] == '.' {
        s.len() - 1
    } else {
        spec_last_dot(s.drop_last())
    }
}

/// The temporary file the atomic save writes: the state path with its
/// extension replaced by `tmp`. A dot that starts the file name (a hidden
/// file) does not begin an extension; a path without an extension gains
/// `.tmp` at its end.
pub open spec fn spec_temp_state_path(s: Seq<char>) -> Seq<char> {
    let d = spec_last_dot(s);
    if d > spec_last_separator(s) + 1 {
        s.take(d) + ".tmp"@
    } else {
        s + ".tmp"@
    }
}

/// The temporary path used by the atomic save protocol for `state_path`.
pub fn temp_state_path(state_path: &str) -> (r: String)
    ensures
        r@ == spec_temp_state_path(state_path@),
{
    let v = str_to_char_vec(state_path);
    let n = v.len();
    let mut sep: Option<usize> = None;
    let mut dot: Option<usize> = None;
    let mut i: usize = 0;
    while i < n
        invariant
            i <= n,
            n == v@.len(),
            v@ == state_path@,
            match sep {
                None => spec_last_separator(state_path@.take(i as int)) == -1,
                Some(x) => x < i && spec_last_separator(state_path@.take(i as int)) == x,
            },
            match dot {
                None => spec_last_dot(state_path@.take(i as int)) == -1,
                Some(x) => x < i && spec_last_dot(state_path@.take(i as int)) == x,
            },
        decreases n - i,
    {
        proof {
            assert(state_path@.take(i + 1 as int).drop_last() =~= state_path@.take(i as int));
        }
        if v[i] == '/' || v[i] == '\\' {
            sep = Some(i);
        } else if v[i] == '.' {
            dot = Some(i);
        }
        i = i + 1;
    }
    proof {
        assert(state_path@.take(n as int) =~= state_path@);
    }
    let mut s = String::new();
    let keep: usize = match dot {
        None => n,
        Some(d) => {
            let past_sep: bool = match sep {
                None => d >= 1,
                Some(sp) => d > sp && d - sp >= 2,
            };
            if past_sep {
                d
            } else {
                n
            }
        },
    };
    proof {
        if spec_last_dot(state_path@) > spec_last_separator(state_path@) + 1 {
            assert(keep == spec_last_dot(state_path@));
        } else {
            assert(keep == n);
        }
    }
    let mut k: usize = 0;
    while k < keep
        invariant
            k <= keep,
            keep <= n,
            n == v@.len(),
            v@ == state_path@,
            s@ == state_path@.subrange(0, k as int),
        decreases keep - k,
    {
        crate::text::push_char(&mut s, v[k]);
        proof {
            assert(s@ =~= state_path@.subrange(0, k + 1 as int));
        }
        k = k + 1;
    }
    s.append(".tmp");
    proof {
        if spec_last_dot(state_path@) > spec_last_separator(state_path@) + 1 {
            assert(s@ =~= spec_temp_state_path(state_path@));
        } else {
            assert(state_path@.subrange(0, n as int) =~= state_path@);
            assert(s@ =~= spec_temp_state_path(state_path@));
        }
    }
    s
}

} // verus!
