//! The request-scoped logic behind the three public operations. A create
//! validates its input, deduplicates auto-coded requests by original URL,
//! and performs the conditional insert; a redirect resolution looks the
//! code up, enforces expiry, and triggers the click increment and the
//! analytics event as failure-isolated side effects; a stats request is a
//! plain lookup.
use vstd::prelude::*;

use crate::codegen::{generate_short_code, valid_generated_code};
use crate::error::UrlShortenerError;
use crate::models::{
    AnalyticsEvent, CreateUrlRequest, CreateUrlResponse, RedirectRequest, RedirectResponse,
    StatsResponse, UrlItem,
};
use crate::store::{
    auto_urls_unique, first_code_idx, first_url_idx, has_code, spec_expired, spec_increment,
    DynamoDbClient,
};
use crate::store::lemma_first_url_idx;
use crate::timefmt::{
    clamp_epoch, epoch_to_rfc3339, epoch_to_rfc3339_clamped, rfc3339_of, MAX_FORMATTABLE_EPOCH,
};
use crate::validation::{allowed_scheme, valid_custom_code, validate_custom_code, validate_url};

verus! {

/// The largest time-to-live a create request may carry, in hours.
pub const MAX_TTL_HOURS: u32 = 87600;

/// The latest creation instant the resolver accepts: late enough for any
/// real clock, yet leaving room so that an expiry at the largest
/// time-to-live still formats.
pub const MAX_CREATE_EPOCH: i64 = MAX_FORMATTABLE_EPOCH - 315360000;

/// True when the request's time-to-live, if any, lies in the accepted
/// range.
pub open spec fn valid_ttl(ttl_hours: Option<u32>) -> bool {
    ttl_hours matches Some(h) ==> 1 <= h <= MAX_TTL_HOURS
}

/// True when every part of a create request is acceptable.
pub open spec fn valid_create_request(request: CreateUrlRequest) -> bool {
    &&& allowed_scheme(request.original_url@)
    &&& (request.custom_code matches Some(c) ==> valid_custom_code(c@))
    &&& valid_ttl(request.ttl_hours)
}

/// The absolute expiry a request's time-to-live stands for, measured from
/// `now`.
pub open spec fn spec_expiry(ttl_hours: Option<u32>, now: i64) -> Option<i64> {
    match ttl_hours {
        Some(h) => Some((now + h * 3600) as i64),
        None => None,
    }
}

/// How the record created for a request looks: the candidate code, the
/// request's URL, the formatted creation time, the computed expiry, a zero
/// counter, the custom-code flag, and the `active` status.
pub open spec fn created_record(
    request: CreateUrlRequest,
    code: Seq<char>,
    now: i64,
    item: UrlItem,
) -> bool {
    &&& item.short_code@ == code
    &&& item.original_url@ == request.original_url@
    &&& item.created_at@ == rfc3339_of(now as int)
    &&& item.expires_at == spec_expiry(request.ttl_hours, now)
    &&& item.click_count == 0
    &&& item.custom_code == (request.custom_code is Some)
    &&& item.status@ == "active"@
}

/// How a create response renders a record: the code and URL verbatim, the
/// public short link under `base_url`, and the expiry formatted when set.
pub open spec fn response_for(
    resp: CreateUrlResponse,
    item: UrlItem,
    base_url: Seq<char>,
) -> bool {
    &&& resp.short_code@ == item.short_code@
    &&& resp.original_url@ == item.original_url@
    &&& resp.short_url@ == base_url + "/"@ + item.short_code@
    &&& resp.created_at@ == item.created_at@
    &&& (match item.expires_at {
        Some(t) => resp.expires_at matches Some(s) && s@ == rfc3339_of(clamp_epoch(t) as int),
        None => resp.expires_at is None,
    })
}

/// Render a record as a create response, with the public short link built
/// under `base_url`.
pub fn create_success_response(url_item: UrlItem, base_url: &str) -> (r: CreateUrlResponse)
    ensures
        response_for(r, url_item, base_url@),
{
    let short_url = base_url.to_owned().concat("/").concat(url_item.short_code.as_str());
    let expires_at = match url_item.expires_at {
        Some(t) => Some(epoch_to_rfc3339_clamped(t)),
        None => None,
    };
    CreateUrlResponse {
        short_code: url_item.short_code,
        original_url: url_item.original_url,
        short_url,
        created_at: url_item.created_at,
        expires_at,
    }
}

/// Create a short link. The request is validated first; an auto-coded
/// request is then deduplicated against the existing records by original
/// URL; finally the record is inserted by conditional create, so a taken
/// code surfaces as `ShortCodeExists` with the store untouched.
pub fn create_url_impl(
    request: CreateUrlRequest,
    db_client: &mut DynamoDbClient,
    now: i64,
    base_url: &str,
) -> (r: Result<CreateUrlResponse, UrlShortenerError>)
    requires
        old(db_client).wf(),
        0 <= now <= MAX_CREATE_EPOCH,
    ensures
        final(db_client).wf(),
        final(db_client).table_name_view() == old(db_client).table_name_view(),
        auto_urls_unique(old(db_client)@) ==> auto_urls_unique(final(db_client)@),
        !allowed_scheme(request.original_url@) ==> (r matches Err(e) && e matches
            UrlShortenerError::InvalidUrl(_) && final(db_client)@ == old(db_client)@),
        allowed_scheme(request.original_url@) && (request.custom_code matches Some(c)
            && !valid_custom_code(c@)) ==> (r matches Err(e) && e matches
            UrlShortenerError::ValidationError(_) && final(db_client)@ == old(db_client)@),
        allowed_scheme(request.original_url@) && (request.custom_code matches Some(c)
            ==> valid_custom_code(c@)) && !valid_ttl(request.ttl_hours) ==> (r matches Err(e)
            && e matches UrlShortenerError::ValidationError(_)
            && final(db_client)@ == old(db_client)@),
        valid_create_request(request) && request.custom_code is None && first_url_idx(
            old(db_client)@,
            request.original_url@,
        ) >= 0 ==> (r matches Ok(resp) && final(db_client)@ == old(db_client)@ && response_for(
            resp,
            old(db_client)@[first_url_idx(old(db_client)@, request.original_url@)],
            base_url@,
        )),
        valid_create_request(request) && request.custom_code is Some && has_code(
            old(db_client)@,
            request.custom_code->0@,
        ) ==> (r matches Err(e) && e matches UrlShortenerError::ShortCodeExists(cc) && cc@
            == request.custom_code->0@ && final(db_client)@ == old(db_client)@),
        valid_create_request(request) && request.custom_code is Some && !has_code(
            old(db_client)@,
            request.custom_code->0@,
        ) ==> (r matches Ok(resp) && ({
            let n = old(db_client)@.len() as int;
            &&& final(db_client)@ == old(db_client)@.push(final(db_client)@[n])
            &&& created_record(request, request.custom_code->0@, now, final(db_client)@[n])
            &&& response_for(resp, final(db_client)@[n], base_url@)
        })),
        valid_create_request(request) && request.custom_code is None && first_url_idx(
            old(db_client)@,
            request.original_url@,
        ) < 0 ==> ({
            let n = old(db_client)@.len() as int;
            &&& (r matches Ok(resp) ==> final(db_client)@ == old(db_client)@.push(
                final(db_client)@[n],
            ) && created_record(request, final(db_client)@[n].short_code@, now, final(db_client)@[n])
                && valid_generated_code(final(db_client)@[n].short_code@) && !has_code(
                old(db_client)@,
                final(db_client)@[n].short_code@,
            ) && response_for(resp, final(db_client)@[n], base_url@))
            &&& (r matches Err(e) ==> e matches UrlShortenerError::ShortCodeExists(_)
                && final(db_client)@ == old(db_client)@)
        }),
{
    match validate_url(request.original_url.as_str()) {
        Ok(_) => {},
        Err(e) => {
            return Err(e);
        },
    }
    match &request.custom_code {
        Some(c) => {
            match validate_custom_code(c.as_str()) {
                Ok(_) => {},
                Err(e) => {
                    return Err(e);
                },
            }
        },
        None => {},
    }
    match request.ttl_hours {
        Some(h) => {
            if h < 1 || h > MAX_TTL_HOURS {
                return Err(
                    UrlShortenerError::ValidationError(
                        "ttl_hours must be between 1 and 87600".to_owned(),
                    ),
                );
            }
        },
        None => {},
    }
    if request.custom_code.is_none() {
        match db_client.find_existing_url(request.original_url.as_str()) {
            Ok(Some(existing)) => {
                return Ok(create_success_response(existing, base_url));
            },
            Ok(None) => {},
            Err(e) => {
                proof {
                    assert(false);
                }
                return Err(e);
            },
        }
    }
    let code: String = match &request.custom_code {
        Some(c) => c.clone(),
        None => generate_short_code(),
    };
    let expires_at: Option<i64> = match request.ttl_hours {
        Some(h) => Some(now + (h as i64) * 3600),
        None => None,
    };
    let created_at = epoch_to_rfc3339(now);
    let url_item = UrlItem {
        short_code: code,
        original_url: request.original_url.clone(),
        created_at,
        expires_at,
        click_count: 0,
        custom_code: request.custom_code.is_some(),
        status: "active".to_owned(),
    };
    match db_client.put_url(&url_item) {
        Ok(_) => {
            proof {
                if auto_urls_unique(old(db_client)@) {
                    let items = old(db_client)@;
                    let n = items.len() as int;
                    if request.custom_code is None {
                        lemma_first_url_idx(items, request.original_url@);
                    }
                    assert forall|i2: int, j2: int|
                        0 <= i2 < j2 < db_client@.len() && !db_client@[i2].custom_code
                            && !db_client@[j2].custom_code implies (
                    #[trigger] db_client@[i2].original_url)@ != (
                    #[trigger] db_client@[j2].original_url)@ by {
                        if j2 < n {
                            assert(db_client@[i2] == items[i2] && db_client@[j2] == items[j2]);
                        } else {
                            assert(db_client@[j2] == url_item);
                            assert(db_client@[i2] == items[i2]);
                        }
                    }
                }
            }
            Ok(create_success_response(url_item, base_url))
        },
        Err(e) => Err(e),
    }
}

/// Resolve a redirect. A missing code yields `ShortCodeNotFound`, a lapsed
/// one `UrlExpired`. On success the destination URL is returned; unless the
/// request is an existence check, the click counter is raised and an
/// analytics event is produced, and neither side effect can change the
/// returned destination.
pub fn redirect_impl(
    request: RedirectRequest,
    db_client: &mut DynamoDbClient,
    now: i64,
    is_head: bool,
) -> (r: Result<(RedirectResponse, Option<AnalyticsEvent>), UrlShortenerError>)
    requires
        old(db_client).wf(),
        0 <= now <= MAX_FORMATTABLE_EPOCH,
    ensures
        final(db_client).wf(),
        final(db_client).table_name_view() == old(db_client).table_name_view(),
        ({
            let i = first_code_idx(old(db_client)@, request.short_code@);
            &&& (i < 0 ==> (r matches Err(e) && e matches UrlShortenerError::ShortCodeNotFound(c)
                && c@ == request.short_code@ && final(db_client)@ == old(db_client)@))
            &&& (i >= 0 && spec_expired(old(db_client)@[i], now) ==> (r matches Err(e)
                && e is UrlExpired && final(db_client)@ == old(db_client)@))
            &&& (i >= 0 && !spec_expired(old(db_client)@[i], now) ==> (r matches Ok(p)
                && p.0.original_url@ == old(db_client)@[i].original_url@ && p.0.redirect_type@
                == "301"@ && (is_head ==> p.1 is None && final(db_client)@ == old(db_client)@) && (
            !is_head ==> final(db_client)@ == spec_increment(old(db_client)@, request.short_code@)
                && (p.1 matches Some(ev) && ev.short_code@ == request.short_code@ && ev.timestamp@
                == rfc3339_of(now as int) && ev.client_ip == request.client_ip && ev.user_agent
                == request.user_agent && ev.referer == request.referer && ev.country is None
                && ev.city is None))))
        }),
{
    let url_item = match db_client.get_url(request.short_code.as_str(), now) {
        Ok(Some(item)) => item,
        Ok(None) => {
            return Err(UrlShortenerError::ShortCodeNotFound(request.short_code));
        },
        Err(e) => {
            return Err(e);
        },
    };
    if is_head {
        let resp = RedirectResponse {
            original_url: url_item.original_url,
            redirect_type: "301".to_owned(),
        };
        return Ok((resp, None));
    }
    // Failure-isolated side effect: whatever the increment reports, the
    // redirect below is already decided and is returned unchanged.
    match db_client.increment_click_count(request.short_code.as_str()) {
        Ok(_) => {},
        Err(_) => {},
    }
    let event = AnalyticsEvent {
        short_code: request.short_code,
        timestamp: epoch_to_rfc3339(now),
        client_ip: request.client_ip,
        user_agent: request.user_agent,
        referer: request.referer,
        country: None,
        city: None,
    };
    let resp = RedirectResponse {
        original_url: url_item.original_url,
        redirect_type: "301".to_owned(),
    };
    Ok((resp, Some(event)))
}

/// Read the usage statistics of a code: its record's fields, under the same
/// lookup and expiry rules as a redirect.
pub fn stats_impl(short_code: &str, db_client: &DynamoDbClient, now: i64) -> (r: Result<
    StatsResponse,
    UrlShortenerError,
>)
    ensures
        ({
            let i = first_code_idx(db_client@, short_code@);
            &&& (i < 0 ==> (r matches Err(e) && e matches UrlShortenerError::ShortCodeNotFound(c)
                && c@ == short_code@))
            &&& (i >= 0 && spec_expired(db_client@[i], now) ==> (r matches Err(e)
                && e is UrlExpired))
            &&& (i >= 0 && !spec_expired(db_client@[i], now) ==> (r matches Ok(s) && s.short_code@
                == db_client@[i].short_code@ && s.original_url@ == db_client@[i].original_url@
                && s.click_count == db_client@[i].click_count && s.created_at@
                == db_client@[i].created_at@ && s.expires_at == db_client@[i].expires_at))
        }),
{
    match db_client.get_url(short_code, now) {
        Ok(Some(item)) => Ok(
            StatsResponse {
                short_code: item.short_code,
                original_url: item.original_url,
                click_count: item.click_count,
                created_at: item.created_at,
                expires_at: item.expires_at,
            },
        ),
        Ok(None) => Err(UrlShortenerError::ShortCodeNotFound(short_code.to_owned())),
        Err(e) => Err(e),
    }
}

} // verus!
