//! The persisted layout of a record: a list of named attribute values, with
//! strings, numbers-as-digit-strings and booleans, as the backing table
//! stores them. Marshalling a record into that layout and reading one back
//! are both verified, and reading back what was written yields the record
//! again.
use vstd::prelude::*;

use crate::decimal::{
    i64_dec_spec, i64_to_dec_string, parse_i64, parse_i64_spec, parse_u64, parse_u64_spec,
    u64_dec_spec, u64_to_dec_string,
};
use crate::error::UrlShortenerError;
use crate::models::UrlItem;
use crate::store::DynamoDbClient;
use crate::text::str_eq;

verus! {

/// A plain attribute value of the persisted layout.
pub enum AttrValue {
    S(String),
    N(String),
    Bool(bool),
}

/// The first attribute named `key`, if any.
pub open spec fn attr_lookup(attrs: Seq<(String, AttrValue)>, key: Seq<char>) -> Option<AttrValue>
    decreases attrs.len(),
{
    if attrs.len() == 0 {
        None
    } else if attrs[0].0@ == key {
        Some(attrs[0].1)
    } else {
        attr_lookup(attrs.drop_first(), key)
    }
}

/// The string content of the attribute named `key`, when it exists and is a
/// string.
pub open spec fn attr_s(attrs: Seq<(String, AttrValue)>, key: Seq<char>) -> Option<Seq<char>> {
    match attr_lookup(attrs, key) {
        Some(AttrValue::S(s)) => Some(s@),
        _ => None,
    }
}

/// The digit-string content of the attribute named `key`, when it exists
/// and is numeric.
pub open spec fn attr_n(attrs: Seq<(String, AttrValue)>, key: Seq<char>) -> Option<Seq<char>> {
    match attr_lookup(attrs, key) {
        Some(AttrValue::N(s)) => Some(s@),
        _ => None,
    }
}

/// The boolean content of the attribute named `key`, when it exists and is
/// a boolean.
pub open spec fn attr_bool(attrs: Seq<(String, AttrValue)>, key: Seq<char>) -> Option<bool> {
    match attr_lookup(attrs, key) {
        Some(AttrValue::Bool(b)) => Some(b),
        _ => None,
    }
}

/// How a record `u` relates to the attribute list it was read from:
/// the three required strings match, and the optional attributes follow the
/// layout's defaults — an unparsable or missing expiry reads as no expiry,
/// a missing or unparsable counter reads as zero, a missing flag as false,
/// and a missing status as `active`.
pub open spec fn parsed_from(u: UrlItem, attrs: Seq<(String, AttrValue)>) -> bool {
    &&& attr_s(attrs, "short_code"@) == Some(u.short_code@)
    &&& attr_s(attrs, "original_url"@) == Some(u.original_url@)
    &&& attr_s(attrs, "created_at"@) == Some(u.created_at@)
    &&& u.expires_at == (match attr_n(attrs, "expires_at"@) {
        Some(n) => parse_i64_spec(n),
        None => None::<i64>,
    })
    &&& u.click_count == (match attr_n(attrs, "click_count"@) {
        Some(n) => match parse_u64_spec(n) {
            Some(v) => v,
            None => 0u64,
        },
        None => 0u64,
    })
    &&& u.custom_code == (match attr_bool(attrs, "custom_code"@) {
        Some(b) => b,
        None => false,
    })
    &&& u.status@ == (match attr_s(attrs, "status"@) {
        Some(s) => s,
        None => "active"@,
    })
}

/// How the attribute list written for a record `x` reads back, attribute by
/// attribute.
pub open spec fn marshalled_layout(attrs: Seq<(String, AttrValue)>, x: UrlItem) -> bool {
    &&& attr_s(attrs, "short_code"@) == Some(x.short_code@)
    &&& attr_s(attrs, "original_url"@) == Some(x.original_url@)
    &&& attr_s(attrs, "created_at"@) == Some(x.created_at@)
    &&& attr_n(attrs, "click_count"@) == Some(u64_dec_spec(x.click_count as nat))
    &&& attr_bool(attrs, "custom_code"@) == Some(x.custom_code)
    &&& attr_s(attrs, "status"@) == Some(x.status@)
    &&& attr_n(attrs, "expires_at"@) == (match x.expires_at {
        Some(t) => Some(i64_dec_spec(t as int)),
        None => None::<Seq<char>>,
    })
}

/// Find the first attribute named `key`.
fn find_attr<'a>(attrs: &'a Vec<(String, AttrValue)>, key: &str) -> (r: Option<&'a AttrValue>)
    ensures
        match r {
            Some(v) => attr_lookup(attrs@, key@) == Some(*v),
            None => attr_lookup(attrs@, key@) is None,
        },
{
    let n = attrs.len();
    let mut i: usize = 0;
    proof {
        assert(attrs@.skip(0) =~= attrs@);
    }
    while i < n
        invariant
            0 <= i <= n,
            n == attrs@.len(),
            attr_lookup(attrs@, key@) == attr_lookup(attrs@.skip(i as int), key@),
        decreases n - i,
    {
        let pair = &attrs[i];
        if str_eq(pair.0.as_str(), key) {
            proof {
                assert(attrs@.skip(i as int)[0] == attrs@[i as int]);
            }
            return Some(&pair.1);
        }
        proof {
            assert(attrs@.skip(i as int)[0] == attrs@[i as int]);
            assert(attrs@.skip(i as int).drop_first() =~= attrs@.skip(i as int + 1));
        }
        i += 1;
    }
    proof {
        assert(attrs@.skip(n as int) =~= Seq::<(String, AttrValue)>::empty());
    }
    None
}

/// The string content of the attribute named `key`, if present as a string.
fn attr_get_s(attrs: &Vec<(String, AttrValue)>, key: &str) -> (r: Option<String>)
    ensures
        match r {
            Some(s) => attr_s(attrs@, key@) == Some(s@),
            None => attr_s(attrs@, key@) is None,
        },
{
    match find_attr(attrs, key) {
        Some(v) => match v {
            AttrValue::S(s) => Some(s.clone()),
            _ => None,
        },
        None => None,
    }
}

/// The digit-string content of the attribute named `key`, if present as a
/// number.
fn attr_get_n(attrs: &Vec<(String, AttrValue)>, key: &str) -> (r: Option<String>)
    ensures
        match r {
            Some(s) => attr_n(attrs@, key@) == Some(s@),
            None => attr_n(attrs@, key@) is None,
        },
{
    match find_attr(attrs, key) {
        Some(v) => match v {
            AttrValue::N(s) => Some(s.clone()),
            _ => None,
        },
        None => None,
    }
}

/// The boolean content of the attribute named `key`, if present as a
/// boolean.
fn attr_get_bool(attrs: &Vec<(String, AttrValue)>, key: &str) -> (r: Option<bool>)
    ensures
        match r {
            Some(b) => attr_bool(attrs@, key@) == Some(b),
            None => attr_bool(attrs@, key@) is None,
        },
{
    match find_attr(attrs, key) {
        Some(v) => match v {
            AttrValue::Bool(b) => Some(*b),
            _ => None,
        },
        None => None,
    }
}

impl DynamoDbClient {
    /// Read a record out of its persisted layout. The short code, original
    /// URL and creation time are required; the remaining attributes fall
    /// back to the layout's defaults.
    pub fn item_to_url_item(&self, item: &Vec<(String, AttrValue)>) -> (r: Result<
        UrlItem,
        UrlShortenerError,
    >)
        ensures
            (r is Ok) == (attr_s(item@, "short_code"@) is Some && attr_s(item@, "original_url"@)
                is Some && attr_s(item@, "created_at"@) is Some),
            r matches Ok(u) ==> parsed_from(u, item@),
            r matches Err(e) ==> e matches UrlShortenerError::InternalError(_),
    {
        let short_code = match attr_get_s(item, "short_code") {
            Some(s) => s,
            None => {
                return Err(UrlShortenerError::InternalError("Missing short_code".to_owned()));
            },
        };
        let original_url = match attr_get_s(item, "original_url") {
            Some(s) => s,
            None => {
                return Err(UrlShortenerError::InternalError("Missing original_url".to_owned()));
            },
        };
        let created_at = match attr_get_s(item, "created_at") {
            Some(s) => s,
            None => {
                return Err(UrlShortenerError::InternalError("Missing created_at".to_owned()));
            },
        };
        let expires_at = match attr_get_n(item, "expires_at") {
            Some(n) => parse_i64(n.as_str()),
            None => None,
        };
        let click_count = match attr_get_n(item, "click_count") {
            Some(n) => match parse_u64(n.as_str()) {
                Some(v) => v,
                None => 0,
            },
            None => 0,
        };
        let custom_code = match attr_get_bool(item, "custom_code") {
            Some(b) => b,
            None => false,
        };
        let status = match attr_get_s(item, "status") {
            Some(s) => s,
            None => "active".to_owned(),
        };
        Ok(
            UrlItem {
                short_code,
                original_url,
                created_at,
                expires_at,
                click_count,
                custom_code,
                status,
            },
        )
    }
}

/// Write a record into its persisted layout: the three strings, the counter
/// and expiry as digit strings, the flag and the status; the expiry
/// attribute is present exactly when the record has one.
pub fn url_item_to_attrs(item: &UrlItem) -> (r: Vec<(String, AttrValue)>)
    ensures
        marshalled_layout(r@, *item),
{
    let mut attrs: Vec<(String, AttrValue)> = Vec::new();
    attrs.push(("short_code".to_owned(), AttrValue::S(item.short_code.clone())));
    attrs.push(("original_url".to_owned(), AttrValue::S(item.original_url.clone())));
    attrs.push(("created_at".to_owned(), AttrValue::S(item.created_at.clone())));
    attrs.push(("click_count".to_owned(), AttrValue::N(u64_to_dec_string(item.click_count))));
    attrs.push(("custom_code".to_owned(), AttrValue::Bool(item.custom_code)));
    attrs.push(("status".to_owned(), AttrValue::S(item.status.clone())));
    match item.expires_at {
        Some(t) => {
            attrs.push(("expires_at".to_owned(), AttrValue::N(i64_to_dec_string(t))));
        },
        None => {},
    }
    proof {
        lemma_layout_lookups(attrs@, *item);
    }
    attrs
}

/// Walking the freshly written attribute list finds each attribute under
/// its own name.
proof fn lemma_layout_lookups(a: Seq<(String, AttrValue)>, x: UrlItem)
    requires
        a.len() == 6 || a.len() == 7,
        a[0].0@ == "short_code"@ && a[0].1 == AttrValue::S(x.short_code),
        a[1].0@ == "original_url"@ && a[1].1 == AttrValue::S(x.original_url),
        a[2].0@ == "created_at"@ && a[2].1 == AttrValue::S(x.created_at),
        a[3].0@ == "click_count"@ && (a[3].1 matches AttrValue::N(n) && n@ == u64_dec_spec(
            x.click_count as nat,
        )),
        a[4].0@ == "custom_code"@ && a[4].1 == AttrValue::Bool(x.custom_code),
        a[5].0@ == "status"@ && a[5].1 == AttrValue::S(x.status),
        (a.len() == 7) == (x.expires_at is Some),
        a.len() == 7 ==> a[6].0@ == "expires_at"@ && (a[6].1 matches AttrValue::N(n)
            && x.expires_at matches Some(t) && n@ == i64_dec_spec(t as int)),
    ensures
        marshalled_layout(a, x),
{
    reveal_with_fuel(attr_lookup, 9);
    reveal_strlit("short_code");
    reveal_strlit("original_url");
    reveal_strlit("created_at");
    reveal_strlit("click_count");
    reveal_strlit("custom_code");
    reveal_strlit("status");
    reveal_strlit("expires_at");
    assert("short_code"@.len() == 10 && "original_url"@.len() == 12 && "created_at"@.len() == 10
        && "click_count"@.len() == 11 && "custom_code"@.len() == 11 && "status"@.len() == 6
        && "expires_at"@.len() == 10);
    assert("short_code"@[0] == 's' && "created_at"@[0] == 'c' && "expires_at"@[0] == 'e');
    assert("click_count"@[1] == 'l' && "custom_code"@[1] == 'u');
    let s1 = a.drop_first();
    let s2 = s1.drop_first();
    let s3 = s2.drop_first();
    let s4 = s3.drop_first();
    let s5 = s4.drop_first();
    let s6 = s5.drop_first();
    assert(s1[0] == a[1] && s1[1] == a[2] && s1[2] == a[3] && s1[3] == a[4] && s1[4] == a[5]);
    assert(s2[0] == a[2] && s2[1] == a[3] && s2[2] == a[4] && s2[3] == a[5]);
    assert(s3[0] == a[3] && s3[1] == a[4] && s3[2] == a[5]);
    assert(s4[0] == a[4] && s4[1] == a[5]);
    assert(s5[0] == a[5]);
    assert(a.len() == 7 ==> s1[5] == a[6] && s2[4] == a[6] && s3[3] == a[6] && s4[2] == a[6]
        && s5[1] == a[6] && s6[0] == a[6]);
    assert(attr_lookup(a, "short_code"@) == Some(a[0].1));
    assert(attr_lookup(a, "original_url"@) == attr_lookup(s1, "original_url"@));
    assert(attr_lookup(s1, "original_url"@) == Some(a[1].1));
    assert(attr_lookup(a, "created_at"@) == attr_lookup(s1, "created_at"@));
    assert(attr_lookup(s1, "created_at"@) == attr_lookup(s2, "created_at"@));
    assert(attr_lookup(s2, "created_at"@) == Some(a[2].1));
    assert(attr_lookup(a, "click_count"@) == attr_lookup(s1, "click_count"@));
    assert(attr_lookup(s1, "click_count"@) == attr_lookup(s2, "click_count"@));
    assert(attr_lookup(s2, "click_count"@) == attr_lookup(s3, "click_count"@));
    assert(attr_lookup(s3, "click_count"@) == Some(a[3].1));
    assert(attr_lookup(a, "custom_code"@) == attr_lookup(s1, "custom_code"@));
    assert(attr_lookup(s1, "custom_code"@) == attr_lookup(s2, "custom_code"@));
    assert(attr_lookup(s2, "custom_code"@) == attr_lookup(s3, "custom_code"@));
    assert(attr_lookup(s3, "custom_code"@) == attr_lookup(s4, "custom_code"@));
    assert(attr_lookup(s4, "custom_code"@) == Some(a[4].1));
    assert(attr_lookup(a, "status"@) == attr_lookup(s1, "status"@));
    assert(attr_lookup(s1, "status"@) == attr_lookup(s2, "status"@));
    assert(attr_lookup(s2, "status"@) == attr_lookup(s3, "status"@));
    assert(attr_lookup(s3, "status"@) == attr_lookup(s4, "status"@));
    assert(attr_lookup(s4, "status"@) == attr_lookup(s5, "status"@));
    assert(attr_lookup(s5, "status"@) == Some(a[5].1));
    assert(attr_lookup(a, "expires_at"@) == attr_lookup(s1, "expires_at"@));
    assert(attr_lookup(s1, "expires_at"@) == attr_lookup(s2, "expires_at"@));
    assert(attr_lookup(s2, "expires_at"@) == attr_lookup(s3, "expires_at"@));
    assert(attr_lookup(s3, "expires_at"@) == attr_lookup(s4, "expires_at"@));
    assert(attr_lookup(s4, "expires_at"@) == attr_lookup(s5, "expires_at"@));
    if a.len() == 7 {
        assert(attr_lookup(s5, "expires_at"@) == attr_lookup(s6, "expires_at"@));
        assert(attr_lookup(s6, "expires_at"@) == Some(a[6].1));
    } else {
        assert(s5.len() == 1);
        assert(attr_lookup(s5, "expires_at"@) == attr_lookup(s6, "expires_at"@));
        assert(s6.len() == 0);
        assert(attr_lookup(s6, "expires_at"@) is None);
    }
}

/// Law: a record written into its persisted layout and read back is the
/// same record: every field of the record read agrees with the record
/// written.
pub proof fn lemma_marshal_round_trip(x: UrlItem, attrs: Seq<(String, AttrValue)>, u: UrlItem)
    requires
        marshalled_layout(attrs, x),
        parsed_from(u, attrs),
    ensures
        u.short_code@ == x.short_code@,
        u.original_url@ == x.original_url@,
        u.created_at@ == x.created_at@,
        u.expires_at == x.expires_at,
        u.click_count == x.click_count,
        u.custom_code == x.custom_code,
        u.status@ == x.status@,
{
    crate::decimal::lemma_dec_round_trip_u64(x.click_count);
    match x.expires_at {
        Some(t) => {
            crate::decimal::lemma_dec_round_trip_i64(t);
        },
        None => {},
    }
}

} // verus!

