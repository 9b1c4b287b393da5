//! Decimal rendering and parsing of the integer attributes a record
//! carries: the click counter and the expiry timestamp travel as digit
//! strings through the persisted layout.
use vstd::prelude::*;

verus! {

/// True of the ASCII decimal digits.
pub open spec fn is_dec_digit(c: char) -> bool {
    '0' <= c && c <= '9'
}

/// The numeric value of a decimal digit character.
pub open spec fn dec_digit_val(c: char) -> int {
    c as int - 48
}

/// True when `s` is one or more decimal digits.
pub open spec fn all_dec_digits(s: Seq<char>) -> bool {
    s.len() > 0 && forall|i: int| 0 <= i < s.len() ==> is_dec_digit(#[trigger] s[i])
}

/// The numeric value of a digit string, most significant digit first.
pub open spec fn dec_val(s: Seq<char>) -> nat
    decreases s.len(),
{
    if s.len() == 0 {
        0
    } else {
        (dec_val(s.drop_last()) * 10 + dec_digit_val(s.last())) as nat
    }
}

/// What parsing an unsigned 64-bit decimal yields: one optional leading
/// `+`, then digits only, and the value must fit.
pub open spec fn parse_u64_spec(s: Seq<char>) -> Option<u64> {
    let body = if s.len() > 0 && s[0] == '+' {
        s.drop_first()
    } else {
        s
    };
    if all_dec_digits(body) && dec_val(body) <= u64::MAX {
        Some(dec_val(body) as u64)
    } else {
        None
    }
}

/// What parsing a signed 64-bit decimal yields: one optional leading `+` or
/// `-`, then digits only, and the value must fit.
pub open spec fn parse_i64_spec(s: Seq<char>) -> Option<i64> {
    if s.len() > 0 && s[0] == '-' {
        let body = s.drop_first();
        if all_dec_digits(body) && dec_val(body) <= 0x8000000000000000 {
            Some((0 - dec_val(body) as int) as i64)
        } else {
            None
        }
    } else {
        let body = if s.len() > 0 && s[0] == '+' {
            s.drop_first()
        } else {
            s
        };
        if all_dec_digits(body) && dec_val(body) <= i64::MAX {
            Some(dec_val(body) as i64)
        } else {
            None
        }
    }
}

/// The digit character for a digit value.
pub open spec fn dec_digit_char(d: int) -> char
    recommends
        0 <= d < 10,
{
    "0123456789"@[d]
}

/// The decimal rendering of an unsigned value, without sign or padding.
pub open spec fn u64_dec_spec(n: nat) -> Seq<char>
    decreases n,
{
    if n < 10 {
        seq![dec_digit_char(n as int)]
    } else {
        u64_dec_spec(n / 10) + seq![dec_digit_char((n % 10) as int)]
    }
}

/// The decimal rendering of a signed value: a `-` sign before the magnitude
/// for negative values.
pub open spec fn i64_dec_spec(v: int) -> Seq<char> {
    if v >= 0 {
        u64_dec_spec(v as nat)
    } else {
        seq!['-'] + u64_dec_spec((0 - v) as nat)
    }
}

fn digits_str() -> (s: &'static str)
    ensures
        s@ == "0123456789"@,
        s@.len() == 10,
        s.is_ascii(),
        forall|d: int| 0 <= d < 10 ==> s@[d] == dec_digit_char(d),
{
    let s = "0123456789";
    proof {
        reveal_strlit("0123456789");
    }
    s
}

/// Extending a digit string to the right never decreases its value.
proof fn lemma_dec_val_extend(t: Seq<char>, k: int)
    requires
        0 <= k <= t.len(),
        forall|i: int| k <= i < t.len() ==> is_dec_digit(#[trigger] t[i]),
    ensures
        dec_val(t) >= dec_val(t.take(k)),
    decreases t.len() - k,
{
    if k < t.len() {
        lemma_dec_val_extend(t.drop_last(), k);
        assert(t.drop_last().take(k) =~= t.take(k));
        assert(is_dec_digit(t.last()));
        assert(dec_val(t) >= dec_val(t.drop_last()));
    } else {
        assert(t.take(k) =~= t);
    }
}

/// Parse the digit run of `s` from `start` to the end as an unsigned value.
fn parse_digits(s: &str, start: usize) -> (r: Option<u64>)
    requires
        start as int <= s@.len(),
    ensures
        ({
            let body = s@.subrange(start as int, s@.len() as int);
            match r {
                Some(v) => all_dec_digits(body) && dec_val(body) <= u64::MAX && v == dec_val(body),
                None => !(all_dec_digits(body) && dec_val(body) <= u64::MAX),
            }
        }),
{
    let n = s.unicode_len();
    if start >= n {
        return None;
    }
    let mut acc: u64 = 0;
    let mut i: usize = start;
    while i < n
        invariant
            start <= i <= n,
            n == s@.len(),
            start < n,
            forall|j: int| start <= j < i ==> is_dec_digit(#[trigger] s@[j]),
            acc == dec_val(s@.subrange(start as int, i as int)),
        decreases n - i,
    {
        let c = s.get_char(i);
        let v = c as u32;
        if !(48 <= v && v <= 57) {
            proof {
                let bodyv = s@.subrange(start as int, s@.len() as int);
                assert(bodyv[i - start] == s@[i as int]);
                assert(!is_dec_digit(bodyv[i - start]));
            }
            return None;
        }
        let d = (v - 48) as u64;
        let ghost prefix = s@.subrange(start as int, i as int);
        let ghost extended = s@.subrange(start as int, i as int + 1);
        proof {
            assert(extended.drop_last() =~= prefix);
            assert(extended.last() == s@[i as int]);
        }
        let stepped = match acc.checked_mul(10) {
            Some(x) => x.checked_add(d),
            None => None,
        };
        match stepped {
            Some(next) => {
                acc = next;
            },
            None => {
                proof {
                    let bodyv = s@.subrange(start as int, s@.len() as int);
                    assert(dec_val(extended) > u64::MAX);
                    if all_dec_digits(bodyv) {
                        lemma_dec_val_extend(bodyv, i + 1 - start);
                        assert(bodyv.take(i + 1 - start) =~= extended);
                    }
                }
                return None;
            },
        }
        i += 1;
    }
    proof {
        let bodyv = s@.subrange(start as int, s@.len() as int);
        assert(forall|j: int|
            0 <= j < bodyv.len() ==> is_dec_digit(#[trigger] bodyv[j]) == is_dec_digit(
                s@[j + start],
            ));
        assert(all_dec_digits(bodyv));
    }
    Some(acc)
}

/// Parse an unsigned 64-bit decimal: an optional leading `+`, then digits.
pub fn parse_u64(s: &str) -> (r: Option<u64>)
    ensures
        r == parse_u64_spec(s@),
{
    let n = s.unicode_len();
    let start: usize = if n > 0 && s.get_char(0) == '+' {
        1
    } else {
        0
    };
    proof {
        if start == 1 {
            assert(s@.subrange(1, s@.len() as int) =~= s@.drop_first());
        } else {
            assert(s@.subrange(0, s@.len() as int) =~= s@);
        }
    }
    parse_digits(s, start)
}

/// Parse a signed 64-bit decimal: an optional leading `+` or `-`, then
/// digits.
pub fn parse_i64(s: &str) -> (r: Option<i64>)
    ensures
        r == parse_i64_spec(s@),
{
    let n = s.unicode_len();
    if n > 0 && s.get_char(0) == '-' {
        proof {
            assert(s@.subrange(1, s@.len() as int) =~= s@.drop_first());
        }
        match parse_digits(s, 1) {
            Some(v) => {
                if v <= 0x8000000000000000u64 {
                    if v == 0x8000000000000000u64 {
                        Some(i64::MIN)
                    } else {
                        Some(-(v as i64))
                    }
                } else {
                    None
                }
            },
            None => None,
        }
    } else {
        let start: usize = if n > 0 && s.get_char(0) == '+' {
            1
        } else {
            0
        };
        proof {
            if start == 1 {
                assert(s@.subrange(1, s@.len() as int) =~= s@.drop_first());
            } else {
                assert(s@.subrange(0, s@.len() as int) =~= s@);
            }
        }
        match parse_digits(s, start) {
            Some(v) => {
                if v <= i64::MAX as u64 {
                    Some(v as i64)
                } else {
                    None
                }
            },
            None => None,
        }
    }
}

/// Render an unsigned value in decimal.
pub fn u64_to_dec_string(n: u64) -> (r: String)
    ensures
        r@ == u64_dec_spec(n as nat),
    decreases n,
{
    let digits = digits_str();
    let d = (n % 10) as usize;
    if n < 10 {
        let one = digits.substring_ascii(n as usize, n as usize + 1);
        proof {
            assert(one@ =~= seq![dec_digit_char(n as int)]);
        }
        one.to_owned()
    } else {
        let prefix = u64_to_dec_string(n / 10);
        let one = digits.substring_ascii(d, d + 1);
        proof {
            assert(one@ =~= seq![dec_digit_char((n % 10) as int)]);
        }
        let r = prefix.concat(one);
        proof {
            assert(r@ =~= u64_dec_spec(n as nat));
        }
        r
    }
}

/// Render a signed value in decimal.
pub fn i64_to_dec_string(v: i64) -> (r: String)
    ensures
        r@ == i64_dec_spec(v as int),
{
    if v >= 0 {
        u64_to_dec_string(v as u64)
    } else {
        let mag: u64 = if v == i64::MIN {
            0x8000000000000000u64
        } else {
            (-v) as u64
        };
        let sign = "-";
        proof {
            reveal_strlit("-");
        }
        let r = sign.to_owned().concat(u64_to_dec_string(mag).as_str());
        proof {
            assert(r@ =~= i64_dec_spec(v as int));
        }
        r
    }
}

/// The rendering of an unsigned value is all digits and parses back to the
/// same value.
pub proof fn lemma_u64_dec_chars(n: nat)
    ensures
        all_dec_digits(u64_dec_spec(n)),
        dec_val(u64_dec_spec(n)) == n,
        is_dec_digit(u64_dec_spec(n)[0]),
    decreases n,
{
    reveal_strlit("0123456789");
    if n < 10 {
        let s0 = seq![dec_digit_char(n as int)];
        assert(u64_dec_spec(n) =~= s0);
        assert(s0.last() == dec_digit_char(n as int));
        assert(s0.drop_last() =~= Seq::<char>::empty());
        assert(dec_val(Seq::<char>::empty()) == 0);
        assert(dec_val(s0) == dec_digit_val(dec_digit_char(n as int)));
        assert(dec_digit_val(dec_digit_char(n as int)) == n);
    } else {
        lemma_u64_dec_chars(n / 10);
        let s = u64_dec_spec(n);
        let pre = u64_dec_spec(n / 10);
        assert(s.drop_last() =~= pre);
        assert(s.last() == dec_digit_char((n % 10) as int));
        assert(dec_digit_val(dec_digit_char((n % 10) as int)) == n % 10);
        assert(dec_val(s) == dec_val(pre) * 10 + (n % 10));
        assert(dec_val(pre) * 10 + (n % 10) == n);
        assert forall|i: int| 0 <= i < s.len() implies is_dec_digit(#[trigger] s[i]) by {
            if i < pre.len() {
                assert(s[i] == pre[i]);
            } else {
                assert(s[i] == dec_digit_char((n % 10) as int));
            }
        }
    }
}

/// Law: rendering an unsigned value in decimal and parsing it back yields
/// the value again.
pub proof fn lemma_dec_round_trip_u64(n: u64)
    ensures
        parse_u64_spec(u64_dec_spec(n as nat)) == Some(n),
{
    reveal_strlit("0123456789");
    lemma_u64_dec_chars(n as nat);
    let s = u64_dec_spec(n as nat);
    assert(s[0] != '+');
}

/// Law: rendering a signed value in decimal and parsing it back yields the
/// value again.
pub proof fn lemma_dec_round_trip_i64(v: i64)
    ensures
        parse_i64_spec(i64_dec_spec(v as int)) == Some(v),
{
    reveal_strlit("0123456789");
    let s = i64_dec_spec(v as int);
    if v >= 0 {
        lemma_u64_dec_chars(v as nat);
        assert(s[0] != '+' && s[0] != '-');
    } else {
        let mag = (0 - v) as nat;
        lemma_u64_dec_chars(mag);
        assert(s[0] == '-');
        assert(s.drop_first() =~= u64_dec_spec(mag));
    }
}

} // verus!
