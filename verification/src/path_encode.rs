//! The pure part of locating a repository's session directory: the store
//! encodes a repository path as a directory name by replacing every '/'
//! with '-'; a variant with trailing slashes stripped is tried as well.

use vstd::prelude::*;
use crate::strings::push_char;

verus! {

/// The directory-name encoding of a repository path.
pub open spec fn encode_path_spec(s: Seq<char>) -> Seq<char> {
    s.map_values(
        |c: char|
            if c == '/' {
                '-'
            } else {
                c
            },
    )
}

/// The repository path as the session store's directory name: every '/'
/// becomes '-'.
pub fn encode_repo_path(path: &str) -> (r: String)
    ensures
        r@ == encode_path_spec(path@),
{
    let n = path.unicode_len();
    let mut r = String::new();
    proof {
        assert(r@ =~= encode_path_spec(path@.take(0)));
    }
    let mut i: usize = 0;
    while i < n
        invariant
            i <= n,
            n == path@.len(),
            r@ == encode_path_spec(path@.take(i as int)),
        decreases n - i,
    {
        let c = path.get_char(i);
        if c == '/' {
            push_char(&mut r, '-');
        } else {
            push_char(&mut r, c);
        }
        proof {
            assert(r@ =~= encode_path_spec(path@.take(i + 1 as int)));
        }
        i += 1;
    }
    proof {
        assert(path@.take(n as int) =~= path@);
    }
    r
}

/// The path with every trailing '/' removed.
pub open spec fn trim_slashes_spec(s: Seq<char>) -> Seq<char>
    decreases s.len(),
{
    if s.len() > 0 && s.last() == '/' {
        trim_slashes_spec(s.drop_last())
    } else {
        s
    }
}

/// The repository path with trailing slashes stripped, the variant the
/// locator tries second.
pub fn trim_trailing_slashes(path: &str) -> (r: String)
    ensures
        r@ == trim_slashes_spec(path@),
{
    let n = path.unicode_len();
    let mut k: usize = n;
    proof {
        assert(path@.take(n as int) =~= path@);
    }
    while k > 0 && path.get_char(k - 1) == '/'
        invariant
            k <= n,
            n == path@.len(),
            trim_slashes_spec(path@) == trim_slashes_spec(path@.take(k as int)),
        decreases k,
    {
        proof {
            assert(path@.take(k as int).drop_last() =~= path@.take(k - 1 as int));
            assert(path@.take(k as int).last() == path@[k - 1 as int]);
        }
        k -= 1;
    }
    let r = path.substring_char(0, k).to_owned();
    proof {
        assert(path@.take(k as int) =~= path@.subrange(0, k as int));
        if k > 0 {
            assert(path@.take(k as int).last() == path@[k - 1 as int]);
        }
    }
    r
}

} // verus!
