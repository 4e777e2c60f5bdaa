//! The name of the engine host's pipe: one per user, so that two users of a
//! machine reach their own host.
use vstd::prelude::*;

use crate::text::{chars_of, is_ascii_alnum, owned, push_char, spec_is_ascii_alnum};

verus! {

/// A character of the user name as it stands in the pipe name: ASCII letters,
/// digits, `_` and `-` kept, anything else `_`.
pub open spec fn pipe_char(c: char) -> char {
    if spec_is_ascii_alnum(c) || c == '_' || c == '-' {
        c
    } else {
        '_'
    }
}

/// `\\.\pipe\rakukan-engine-` followed by the user name, sanitized.
pub open spec fn spec_pipe_name(user: Seq<char>) -> Seq<char> {
    "\\\\.\\pipe\\rakukan-engine-"@ + user.map_values(|c: char| pipe_char(c))
}

/// The pipe name for a user (`\\.\pipe\rakukan-engine-n_fuk` for `n.fuk`).
pub fn pipe_name_for_user(user: &str) -> (r: String)
    ensures
        r@ == spec_pipe_name(user@),
{
    let v = chars_of(user);
    let mut r = owned("\\\\.\\pipe\\rakukan-engine-");
    let ghost prefix = r@;
    let mut i: usize = 0;
    while i < v.len()
        invariant
            i <= v.len(),
            v@ == user@,
            prefix == "\\\\.\\pipe\\rakukan-engine-"@,
            r@ == prefix + v@.take(i as int).map_values(|c: char| pipe_char(c)),
        decreases v.len() - i,
    {
        let c = v[i];
        let k = if is_ascii_alnum(c) || c == '_' || c == '-' {
            c
        } else {
            '_'
        };
        push_char(&mut r, k);
        assert(v@.take(i + 1).map_values(|c: char| pipe_char(c)) == v@.take(i as int).map_values(
            |c: char| pipe_char(c),
        ).push(pipe_char(v@[i as int])));
        i = i + 1;
    }
    assert(v@.take(v.len() as int) == v@);
    r
}

} // verus!
