//! The data shapes of the service: the stored record, the normalized
//! request and response types of the three operations, the analytics event,
//! and the proxy-style transport envelope.
use vstd::prelude::*;

verus! {

/// The unit of storage: one short code mapped to one destination URL,
/// together with its creation time, optional expiry, click counter and
/// bookkeeping flags.
#[derive(Debug)]
pub struct UrlItem {
    pub short_code: String,
    pub original_url: String,
    pub created_at: String,
    pub expires_at: Option<i64>,
    pub click_count: u64,
    pub custom_code: bool,
    pub status: String,
}

impl Clone for UrlItem {
    fn clone(&self) -> (r: Self)
        ensures
            r == *self,
    {
        UrlItem {
            short_code: self.short_code.clone(),
            original_url: self.original_url.clone(),
            created_at: self.created_at.clone(),
            expires_at: self.expires_at,
            click_count: self.click_count,
            custom_code: self.custom_code,
            status: self.status.clone(),
        }
    }
}

/// A normalized create request: the destination URL, an optional
/// caller-supplied code, and an optional time-to-live in hours.
#[derive(Debug)]
pub struct CreateUrlRequest {
    pub original_url: String,
    pub custom_code: Option<String>,
    pub ttl_hours: Option<u32>,
}

/// The payload returned for a successful create.
#[derive(Debug)]
pub struct CreateUrlResponse {
    pub short_code: String,
    pub original_url: String,
    pub short_url: String,
    pub created_at: String,
    pub expires_at: Option<String>,
}

/// A normalized redirect request: the code to resolve plus the client
/// details that feed the analytics event.
#[derive(Debug)]
pub struct RedirectRequest {
    pub short_code: String,
    pub client_ip: Option<String>,
    pub user_agent: Option<String>,
    pub referer: Option<String>,
}

/// The payload returned for a successful redirect resolution.
#[derive(Debug)]
pub struct RedirectResponse {
    pub original_url: String,
    pub redirect_type: String,
}

/// The payload returned for a successful stats lookup.
#[derive(Debug)]
pub struct StatsResponse {
    pub short_code: String,
    pub original_url: String,
    pub click_count: u64,
    pub created_at: String,
    pub expires_at: Option<i64>,
}

/// One click event, produced per non-HEAD redirect resolution and handed to
/// the event sink. Geolocation fields are left for a downstream enrichment
/// step.
#[derive(Debug)]
pub struct AnalyticsEvent {
    pub short_code: String,
    pub timestamp: String,
    pub client_ip: Option<String>,
    pub user_agent: Option<String>,
    pub referer: Option<String>,
    pub country: Option<String>,
    pub city: Option<String>,
}

/// A proxy-style inbound event, already reduced to plain values. Header and
/// parameter maps are kept as ordered pairs.
#[derive(Debug)]
pub struct ApiGatewayProxyEvent {
    pub body: Option<String>,
    pub path_parameters: Option<Vec<(String, String)>>,
    pub query_string_parameters: Option<Vec<(String, String)>>,
    pub http_method: String,
    pub headers: Option<Vec<(String, String)>>,
    pub request_context: Option<RequestContext>,
}

/// The request context of a proxy-style event.
#[derive(Debug)]
pub struct RequestContext {
    pub identity: Option<Identity>,
}

/// The caller identity of a proxy-style event.
#[derive(Debug)]
pub struct Identity {
    pub source_ip: Option<String>,
    pub user_agent: Option<String>,
}

/// A proxy-style outbound response. Headers are kept as ordered pairs.
#[derive(Debug)]
pub struct ApiGatewayProxyResponse {
    pub status_code: u16,
    pub headers: Option<Vec<(String, String)>>,
    pub body: String,
    pub is_base64_encoded: bool,
}

impl ApiGatewayProxyResponse {
    /// A JSON response with the standard content-type and permissive CORS
    /// headers.
    pub fn new(status_code: u16, body: String) -> (r: Self)
        ensures
            r.status_code == status_code,
            r.body == body,
            !r.is_base64_encoded,
            r.headers matches Some(h) && {
                &&& h@.len() == 4
                &&& h@[0].0@ == "Content-Type"@ && h@[0].1@ == "application/json"@
                &&& h@[1].0@ == "Access-Control-Allow-Origin"@ && h@[1].1@ == "*"@
                &&& h@[2].0@ == "Access-Control-Allow-Headers"@ && h@[2].1@ == "Content-Type"@
                &&& h@[3].0@ == "Access-Control-Allow-Methods"@ && h@[3].1@
                    == "GET, POST, OPTIONS"@
            },
    {
        let mut headers: Vec<(String, String)> = Vec::new();
        headers.push(("Content-Type".to_owned(), "application/json".to_owned()));
        headers.push(("Access-Control-Allow-Origin".to_owned(), "*".to_owned()));
        headers.push(("Access-Control-Allow-Headers".to_owned(), "Content-Type".to_owned()));
        headers.push(("Access-Control-Allow-Methods".to_owned(), "GET, POST, OPTIONS".to_owned()));
        ApiGatewayProxyResponse { status_code, headers: Some(headers), body, is_base64_encoded: false }
    }

    /// A permanent-redirect response pointing at `location`.
    pub fn redirect(location: String) -> (r: Self)
        ensures
            r.status_code == 301,
            r.body@ == Seq::<char>::empty(),
            !r.is_base64_encoded,
            r.headers matches Some(h) && {
                &&& h@.len() == 2
                &&& h@[0].0@ == "Location"@ && h@[0].1 == location
                &&& h@[1].0@ == "Access-Control-Allow-Origin"@ && h@[1].1@ == "*"@
            },
    {
        let mut headers: Vec<(String, String)> = Vec::new();
        headers.push(("Location".to_owned(), location));
        headers.push(("Access-Control-Allow-Origin".to_owned(), "*".to_owned()));
        ApiGatewayProxyResponse {
            status_code: 301,
            headers: Some(headers),
            body: String::new(),
            is_base64_encoded: false,
        }
    }
}

} // verus!
