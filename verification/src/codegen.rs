//! Short-code generation: either the caller-supplied custom code after
//! format validation, or a randomly drawn collision-resistant 8-character
//! code over the URL-safe alphabet.
use vstd::prelude::*;

use crate::error::UrlShortenerError;
use crate::validation::{is_code_char, valid_custom_code, validate_custom_code};

verus! {

/// The length of every auto-generated code.
pub const GENERATED_CODE_LEN: usize = 8;

/// True of every string an auto-generated code can be: 8 characters, all
/// from the URL-safe code alphabet.
pub open spec fn valid_generated_code(s: Seq<char>) -> bool {
    &&& s.len() == GENERATED_CODE_LEN
    &&& forall|i: int| 0 <= i < s.len() ==> is_code_char(#[trigger] s[i])
}

/// Relies on `nanoid::format` with `nanoid::rngs::default` and the URL-safe
/// alphabet: the result has exactly the requested number of characters, each
/// drawn from that 64-symbol alphabet (letters, digits, underscore,
/// hyphen). The draw is random, so nothing more is promised of the value.
#[verifier::external_body]
fn draw_random_code() -> (r: String)
    ensures
        valid_generated_code(r@),
{
    nanoid::format(nanoid::rngs::default, &nanoid::alphabet::SAFE, GENERATED_CODE_LEN)
}

/// Draw a fresh collision-resistant code. No collision check happens here;
/// a collision is detected by the store's conditional create.
pub fn generate_short_code() -> (r: String)
    ensures
        valid_generated_code(r@),
{
    draw_random_code()
}

/// Produce the candidate short code for a create request: the custom code
/// verbatim when one is supplied and well-formed, a `ValidationError` when
/// one is supplied and malformed, and a random 8-character code otherwise.
pub fn generate(custom: Option<String>) -> (r: Result<String, UrlShortenerError>)
    ensures
        match custom {
            Some(c) => {
                if valid_custom_code(c@) {
                    r matches Ok(code) && code == c
                } else {
                    r matches Err(e) && e matches UrlShortenerError::ValidationError(_)
                }
            },
            None => r matches Ok(code) && valid_generated_code(code@),
        },
{
    match custom {
        Some(c) => {
            match validate_custom_code(c.as_str()) {
                Ok(_) => Ok(c),
                Err(e) => Err(e),
            }
        },
        None => Ok(generate_short_code()),
    }
}

} // verus!
