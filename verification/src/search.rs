//! The decision at the heart of the upward file search: whether a directory
//! entry's name is an `.env` file name. The traversal itself reads the
//! filesystem and lives with the callers that do I/O.

use vstd::prelude::*;

verus! {

/// Whether a file name ends with `.env`.
pub open spec fn spec_is_env_file_name(name: Seq<char>) -> bool {
    name.len() >= 4 && name.subrange(name.len() - 4, name.len() as int) == ".env"@
}

/// Decides whether a file name ends with `.env`.
pub fn is_env_file_name(name: &str) -> (r: bool)
    ensures
        r == spec_is_env_file_name(name@),
{
    proof {
        reveal_strlit(".env");
    }
    let n = name.unicode_len();
    if n < 4 {
        return false;
    }
    let r = name.get_char(n - 4) == '.' && name.get_char(n - 3) == 'e' && name.get_char(n - 2)
        == 'n' && name.get_char(n - 1) == 'v';
    proof {
        if r {
            assert(name@.subrange(name@.len() - 4, name@.len() as int) =~= ".env"@);
        } else {
            assert(name@.subrange(name@.len() - 4, name@.len() as int) != ".env"@) by {
                let tail = name@.subrange(name@.len() - 4, name@.len() as int);
                if tail == ".env"@ {
                    assert(tail[0] == '.' && tail[1] == 'e' && tail[2] == 'n' && tail[3] == 'v');
                }
            }
        }
    }
    r
}

} // verus!
