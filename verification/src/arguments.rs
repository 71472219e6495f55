//! Argument-mode input handling: splitting a `name=value` argument into the
//! pair a template is rendered against.

use vstd::prelude::*;
use crate::template::find_char;
use crate::template::find_char_exec;
use crate::text::chars_of;
use crate::text::string_from_range;

verus! {

/// Splits `s` at its first `=` into a name and a value. Yields nothing
/// exactly when `s` holds no `=`; the value keeps any further `=` signs.
pub fn split_pair(s: &str) -> (r: Option<(String, String)>)
    ensures
        match r {
            Some(pair) => {
                let j = find_char(s@, 0, s@.len() as int, '=');
                &&& j >= 0
                &&& pair.0@ == s@.subrange(0, j)
                &&& pair.1@ == s@.subrange(j + 1, s@.len() as int)
            },
            None => find_char(s@, 0, s@.len() as int, '=') == -1,
        },
{
    let cs = chars_of(s);
    let n = cs.len();
    match find_char_exec(&cs, 0, n, '=') {
        None => None,
        Some(j) => {
            let name = string_from_range(&cs, 0, j);
            let value = string_from_range(&cs, j + 1, n);
            Some((name, value))
        },
    }
}

} // verus!
