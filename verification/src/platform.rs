//! Platform path handling: when to add the Windows extended-length prefix.
//! Resolving a path against the filesystem is the caller's I/O; the decision
//! over the resolved text is made and proved here.
use vstd::prelude::*;

use crate::backup::spec_starts_with;
use crate::text::str_to_char_vec;

verus! {

/// Paths longer than this many characters receive the extended-length
/// prefix; shorter ones are left as the filesystem resolved them.
pub const LONG_PATH_THRESHOLD: usize = 210;

/// The Windows extended-length prefix.
pub open spec fn extended_prefix() -> Seq<char> {
    seq!['\\', '\\', '?', '\\']
}

/// The extended-length prefix for UNC shares.
pub open spec fn extended_unc_prefix() -> Seq<char> {
    seq!['\\', '\\', '?', '\\', 'U', 'N', 'C']
}

/// What normalization returns: a path that already carries the extended
/// prefix is kept; an unresolvable path is kept; a resolved path is used as
/// is when short, and gains the extended (or extended UNC) prefix when it
/// exceeds the threshold.
pub open spec fn spec_normalize_resolved(path: Seq<char>, canonical: Option<Seq<char>>) -> Seq<
    char,
> {
    if spec_starts_with(path, extended_prefix()) {
        path
    } else {
        match canonical {
            None => path,
            Some(c) => if c.len() > LONG_PATH_THRESHOLD {
                if spec_starts_with(c, seq!['\\', '\\']) {
                    extended_unc_prefix() + c.skip(1)
                } else {
                    extended_prefix() + c
                }
            } else {
                c
            },
        }
    }
}

/// Whether `path` starts with the extended-length prefix.
pub fn has_extended_prefix(path: &str) -> (r: bool)
    ensures
        r == spec_starts_with(path@, extended_prefix()),
{
    let v = str_to_char_vec(path);
    if v.len() < 4 {
        return false;
    }
    let ok: bool = v[0] == '\\' && v[1] == '\\' && v[2] == '?' && v[3] == '\\';
    proof {
        let sub = path@.subrange(0, 4);
        if ok {
            assert(sub =~= extended_prefix());
        }
        if sub == extended_prefix() {
            assert(sub[0] == '\\' && sub[1] == '\\' && sub[2] == '?' && sub[3] == '\\');
            assert(ok);
        }
    }
    ok
}

/// Adds the Windows extended-length prefix to long resolved paths.
pub struct WindowsPathNormalizer {}

impl WindowsPathNormalizer {
    pub fn new() -> (r: Self) {
        WindowsPathNormalizer {  }
    }

    /// Decide the path to use, given the original and what the filesystem
    /// resolved it to (`None` when it could not be resolved).
    pub fn normalize_resolved(&self, path: &str, canonical: Option<&String>) -> (r: String)
        ensures
            r@ == spec_normalize_resolved(
                path@,
                match canonical {
                    Some(c) => Some(c@),
                    None => None,
                },
            ),
    {
        if has_extended_prefix(path) {
            return path.to_owned();
        }
        match canonical {
            None => path.to_owned(),
            Some(c) => {
                let n = c.as_str().unicode_len();
                if n > LONG_PATH_THRESHOLD {
                    let v = str_to_char_vec(c.as_str());
                    let unc: bool = v[0] == '\\' && v[1] == '\\';
                    proof {
                        let sub = c@.subrange(0, 2);
                        if unc {
                            assert(sub =~= seq!['\\', '\\']);
                        }
                        if sub == seq!['\\', '\\'] {
                            assert(sub[0] == '\\' && sub[1] == '\\');
                            assert(unc);
                        }
                    }
                    if unc {
                        let mut s = String::from_str("\\\\?\\UNC");
                        let rest = c.as_str().substring_char(1, n);
                        s.append(rest);
                        proof {
                            reveal_strlit("\\\\?\\UNC");
                            assert("\\\\?\\UNC"@ =~= extended_unc_prefix());
                            assert(rest@ =~= c@.skip(1));
                            assert(s@ =~= extended_unc_prefix() + c@.skip(1));
                        }
                        s
                    } else {
                        let mut s = String::from_str("\\\\?\\");
                        s.append(c.as_str());
                        proof {
                            reveal_strlit("\\\\?\\");
                            assert("\\\\?\\"@ =~= extended_prefix());
                            assert(s@ =~= extended_prefix() + c@);
                        }
                        s
                    }
                } else {
                    c.clone()
                }
            },
        }
    }
}

/// The platform file-system seam: the byte-level copy itself is outside the
/// library, and the normalizer above prepares the paths it uses.
pub struct WindowsFileSystem {
    pub normalizer: WindowsPathNormalizer,
}

impl WindowsFileSystem {
    pub fn new() -> (r: Self) {
        WindowsFileSystem { normalizer: WindowsPathNormalizer {  } }
    }
}

} // verus!
