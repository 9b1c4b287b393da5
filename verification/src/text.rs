//! Small string helpers shared by the library's modules.
use vstd::prelude::*;

verus! {

/// String-slice equality, specified over the character sequences.
pub fn str_eq(a: &str, b: &str) -> (r: bool)
    ensures
        r == (a@ == b@),
{
    let owned_a = a.to_owned();
    let owned_b = b.to_owned();
    owned_a == owned_b
}

} // verus!
