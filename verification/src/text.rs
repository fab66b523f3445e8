//! Small verified helpers on strings, stated over their views as `Seq<char>`.

use vstd::prelude::*;
use vstd::utf8::*;

verus! {

/// Whether two string slices hold the same characters.
pub fn str_eq(a: &str, b: &str) -> (same: bool)
    ensures
        same == (a@ == b@),
{
    let x = a.as_bytes();
    let y = b.as_bytes();
    proof {
        encode_utf8_decode_utf8(a@);
        encode_utf8_decode_utf8(b@);
    }
    if x.len() != y.len() {
        return false;
    }
    let n: usize = x.len();
    let mut i: usize = 0;
    while i < n
        invariant
            n == x@.len(),
            n == y@.len(),
            x@ == encode_utf8(a@),
            y@ == encode_utf8(b@),
            i <= n,
            forall|j: int| 0 <= j < i ==> x@[j] == y@[j],
        decreases n - i,
    {
        if x[i] != y[i] {
            return false;
        }
        i += 1;
    }
    assert(x@ =~= y@);
    true
}

/// The two parts of a name joined by one space.
pub fn full_name(first: &str, last: &str) -> (name: String)
    ensures
        name@ == spec_full_name(first@, last@),
{
    let mut name = first.to_owned();
    proof {
        reveal_strlit(" ");
    }
    name.append(" ");
    name.append(last);
    assert(name@ =~= spec_full_name(first@, last@));
    name
}

/// A first and a last name as one display name.
pub open spec fn spec_full_name(first: Seq<char>, last: Seq<char>) -> Seq<char> {
    first + seq![' '] + last
}

} // verus!
