//! Input validation: destination URLs must use the `http` or `https`
//! scheme, and caller-supplied custom codes must be 3 to 20 characters from
//! the URL-safe alphabet.
use vstd::prelude::*;

use crate::error::UrlShortenerError;
use crate::text::str_eq;

verus! {

/// The scheme of `s` when it parses as an absolute URL, or `None` when it
/// does not parse. Stands for what `url::Url::parse` followed by
/// `Url::scheme` computes, which is a function of the input string alone.
pub uninterp spec fn scheme_of(s: Seq<char>) -> Option<Seq<char>>;

/// True when `s` parses as a URL whose scheme is `http` or `https`.
pub open spec fn allowed_scheme(s: Seq<char>) -> bool {
    scheme_of(s) == Some("http"@) || scheme_of(s) == Some("https"@)
}

/// Relies on `url::Url::parse` and `Url::scheme`: parsing either fails or
/// yields a URL whose scheme is a substring of the input's normalization,
/// determined by the input string alone.
#[verifier::external_body]
fn parse_url_scheme(url_str: &str) -> (r: Option<String>)
    ensures
        r is Some <==> scheme_of(url_str@) is Some,
        r matches Some(s) ==> scheme_of(url_str@) == Some(s@),
{
    url::Url::parse(url_str).ok().map(|u| u.scheme().to_string())
}

/// Accept a destination URL exactly when it parses and uses the `http` or
/// `https` scheme; reject anything else as `InvalidUrl`.
pub fn validate_url(url_str: &str) -> (r: Result<(), UrlShortenerError>)
    ensures
        r is Ok <==> allowed_scheme(url_str@),
        r matches Err(e) ==> e matches UrlShortenerError::InvalidUrl(_),
{
    match parse_url_scheme(url_str) {
        None => Err(UrlShortenerError::InvalidUrl(url_str.to_owned())),
        Some(scheme) => {
            if str_eq(scheme.as_str(), "http") || str_eq(scheme.as_str(), "https") {
                Ok(())
            } else {
                Err(
                    UrlShortenerError::InvalidUrl(
                        "Only HTTP and HTTPS URLs are allowed".to_owned(),
                    ),
                )
            }
        },
    }
}

/// True of the characters a short code may contain: ASCII letters, digits,
/// underscore and hyphen.
pub open spec fn is_code_char(c: char) -> bool {
    ('a' <= c && c <= 'z') || ('A' <= c && c <= 'Z') || ('0' <= c && c <= '9') || c == '_' || c
        == '-'
}

/// True when `s` is an acceptable custom code: 3 to 20 characters, all from
/// the code alphabet.
pub open spec fn valid_custom_code(s: Seq<char>) -> bool {
    &&& 3 <= s.len() <= 20
    &&& forall|i: int| 0 <= i < s.len() ==> is_code_char(#[trigger] s[i])
}

/// Accept a custom code exactly when it has 3 to 20 characters, all
/// letters, digits, underscores or hyphens; reject anything else as
/// `ValidationError`.
pub fn validate_custom_code(code: &str) -> (r: Result<(), UrlShortenerError>)
    ensures
        r is Ok <==> valid_custom_code(code@),
        r matches Err(e) ==> e matches UrlShortenerError::ValidationError(_),
{
    let n = code.unicode_len();
    if n < 3 || n > 20 {
        return Err(
            UrlShortenerError::ValidationError(
                "Custom code must be between 3 and 20 characters".to_owned(),
            ),
        );
    }
    let mut i: usize = 0;
    while i < n
        invariant
            n == code@.len(),
            3 <= n <= 20,
            0 <= i <= n,
            forall|j: int| 0 <= j < i ==> is_code_char(#[trigger] code@[j]),
        decreases n - i,
    {
        let c = code.get_char(i);
        let v = c as u32;
        if !((97 <= v && v <= 122) || (65 <= v && v <= 90) || (48 <= v && v <= 57) || v == 95 || v
            == 45) {
            proof {
                assert(!is_code_char(code@[i as int]));
            }
            return Err(
                UrlShortenerError::ValidationError(
                    "Custom code can only contain letters, numbers, underscores, and hyphens".to_owned(),
                ),
            );
        }
        i += 1;
    }
    Ok(())
}

} // verus!
