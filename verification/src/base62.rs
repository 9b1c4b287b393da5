//! Base-62 encoding of non-negative integers into compact alphanumeric
//! strings: the positional numeral system over the fixed alphabet of lower
//! case letters, upper case letters and digits, in that order.
use vstd::prelude::*;

verus! {

/// The fixed 62-symbol alphabet, as a sequence of characters.
pub open spec fn base62_alphabet() -> Seq<char> {
    "abcdefghijklmnopqrstuvwxyzABCDEFGHIJKLMNOPQRSTUVWXYZ0123456789"@
}

/// True of every character that can appear in a base-62 encoded string.
pub open spec fn is_base62_char(c: char) -> bool {
    ('a' <= c && c <= 'z') || ('A' <= c && c <= 'Z') || ('0' <= c && c <= '9')
}

/// The alphabet symbol standing for a single digit value.
pub open spec fn base62_digit(d: int) -> char
    recommends
        0 <= d < 62,
{
    base62_alphabet()[d]
}

/// The minimal-length base-62 representation of `n`, most significant digit
/// first; empty for zero.
pub open spec fn spec_encode_pos(n: nat) -> Seq<char>
    decreases n,
{
    if n == 0 {
        Seq::empty()
    } else {
        spec_encode_pos(n / 62) + seq![base62_digit((n % 62) as int)]
    }
}

/// What `encode_base62` returns: the minimal representation, except that
/// zero encodes to the alphabet's first symbol rather than the empty string.
pub open spec fn spec_encode_base62(n: nat) -> Seq<char> {
    if n == 0 {
        seq![base62_digit(0)]
    } else {
        spec_encode_pos(n)
    }
}

/// The alphabet as an executable string slice.
fn alphabet_str() -> (s: &'static str)
    ensures
        s@ == base62_alphabet(),
        s@.len() == 62,
        s.is_ascii(),
{
    let s = "abcdefghijklmnopqrstuvwxyzABCDEFGHIJKLMNOPQRSTUVWXYZ0123456789";
    proof {
        reveal_strlit("abcdefghijklmnopqrstuvwxyzABCDEFGHIJKLMNOPQRSTUVWXYZ0123456789");
    }
    s
}

/// Every symbol of the alphabet is an alphanumeric character, and the
/// alphabet has exactly one symbol per digit value.
pub proof fn lemma_alphabet_chars()
    ensures
        base62_alphabet().len() == 62,
        forall|d: int| 0 <= d < 62 ==> is_base62_char(#[trigger] base62_alphabet()[d]),
{
    reveal_strlit("abcdefghijklmnopqrstuvwxyzABCDEFGHIJKLMNOPQRSTUVWXYZ0123456789");
}

/// Law: every encoded value is non-empty, uses only the defined alphabet,
/// and zero encodes to the alphabet's first symbol.
pub proof fn lemma_encode_base62_properties(n: nat)
    ensures
        spec_encode_base62(n).len() >= 1,
        forall|i: int|
            0 <= i < spec_encode_base62(n).len() ==> is_base62_char(
                #[trigger] spec_encode_base62(n)[i],
            ),
        n == 0 ==> spec_encode_base62(n) == seq![base62_digit(0)],
{
    lemma_alphabet_chars();
    if n > 0 {
        lemma_encode_pos_chars(n);
    }
}

proof fn lemma_encode_pos_chars(n: nat)
    ensures
        n > 0 ==> spec_encode_pos(n).len() >= 1,
        forall|i: int|
            0 <= i < spec_encode_pos(n).len() ==> is_base62_char(#[trigger] spec_encode_pos(n)[i]),
    decreases n,
{
    lemma_alphabet_chars();
    if n > 0 {
        lemma_encode_pos_chars(n / 62);
        let s = spec_encode_pos(n);
        let pre = spec_encode_pos(n / 62);
        assert forall|i: int| 0 <= i < s.len() implies is_base62_char(#[trigger] s[i]) by {
            if i < pre.len() {
                assert(s[i] == pre[i]);
            } else {
                assert(s[i] == base62_digit((n % 62) as int));
            }
        }
    }
}

/// Encode a non-negative integer as a base-62 string: deterministic, total,
/// no failure mode. Zero encodes to the alphabet's first symbol; positive
/// values get their minimal-length representation.
pub fn encode_base62(num: u64) -> (r: String)
    ensures
        r@ == spec_encode_base62(num as nat),
        r@.len() >= 1,
        forall|i: int| 0 <= i < r@.len() ==> is_base62_char(#[trigger] r@[i]),
        num == 0 ==> r@ == seq![base62_digit(0)],
{
    proof {
        lemma_encode_base62_properties(num as nat);
    }
    if num == 0 {
        let digit = alphabet_str().substring_ascii(0, 1);
        proof {
            assert(digit@ =~= seq![base62_digit(0)]);
        }
        digit.to_owned()
    } else {
        encode_positive(num)
    }
}

fn encode_positive(num: u64) -> (r: String)
    requires
        num > 0,
    ensures
        r@ == spec_encode_pos(num as nat),
    decreases num,
{
    let d = (num % 62) as usize;
    let rest = num / 62;
    let digit = alphabet_str().substring_ascii(d, d + 1);
    proof {
        assert(digit@ =~= seq![base62_digit(d as int)]);
    }
    if rest == 0 {
        proof {
            assert(spec_encode_pos(0) == Seq::<char>::empty());
            assert(spec_encode_pos(num as nat) =~= seq![base62_digit(d as int)]);
        }
        digit.to_owned()
    } else {
        let prefix = encode_positive(rest);
        let r = prefix.concat(digit);
        proof {
            assert(r@ =~= spec_encode_pos(num as nat));
        }
        r
    }
}

} // verus!
