//! Process configuration: the application settings with their defaults, and
//! the time-bounded cache that sits in front of the secret store.
use vstd::prelude::*;

use crate::text::str_eq;

verus! {

/// The type standing for a parsed JSON document handed in by the
/// configuration provider.
#[verifier::external_type_specification]
#[verifier::external_body]
pub struct ExValue(serde_json::Value);

/// Relies on `serde_json::Value::get` and `Value::as_str`: the named field
/// of a JSON object, when it exists and is a string.
#[verifier::external_body]
fn json_get_str(v: &serde_json::Value, key: &str) -> Option<String> {
    v.get(key).and_then(|x| x.as_str()).map(|s| s.to_string())
}

/// Relies on `serde_json::Value::get`, `Value::as_object` and
/// `Value::as_str`: the entries of the named object field, each value
/// mapped to its string content where it has one.
#[verifier::external_body]
fn json_get_entries(v: &serde_json::Value, key: &str) -> Vec<(String, Option<String>)> {
    match v.get(key).and_then(|x| x.as_object()) {
        Some(m) => m.iter().map(|(k, val)| (k.clone(), val.as_str().map(|s| s.to_string()))).collect(),
        None => Vec::new(),
    }
}

/// The first value stored under `name`, if any.
pub open spec fn key_lookup(keys: Seq<(String, String)>, name: Seq<char>) -> Option<Seq<char>>
    decreases keys.len(),
{
    if keys.len() == 0 {
        None
    } else if keys[0].0@ == name {
        Some(keys[0].1@)
    } else {
        key_lookup(keys.drop_first(), name)
    }
}

/// Application configuration, with every value already resolved to a plain
/// string: the store's table name, the base under which public short links
/// are built, the log level, and named API keys.
pub struct AppConfig {
    pub dynamodb_table_name: String,
    pub short_url_base: String,
    pub rust_log_level: String,
    pub api_keys: Vec<(String, String)>,
}

impl AppConfig {
    /// Assemble a configuration from optional field values, applying the
    /// documented default wherever a field is absent.
    pub fn from_fields(
        table_name: Option<String>,
        url_base: Option<String>,
        log_level: Option<String>,
        api_keys: Vec<(String, String)>,
    ) -> (r: AppConfig)
        ensures
            r.dynamodb_table_name@ == (match table_name {
                Some(s) => s@,
                None => "squrl-urls"@,
            }),
            r.short_url_base@ == (match url_base {
                Some(s) => s@,
                None => "https://sqrl.co"@,
            }),
            r.rust_log_level@ == (match log_level {
                Some(s) => s@,
                None => "info"@,
            }),
            r.api_keys == api_keys,
    {
        AppConfig {
            dynamodb_table_name: match table_name {
                Some(s) => s,
                None => "squrl-urls".to_owned(),
            },
            short_url_base: match url_base {
                Some(s) => s,
                None => "https://sqrl.co".to_owned(),
            },
            rust_log_level: match log_level {
                Some(s) => s,
                None => "info".to_owned(),
            },
            api_keys,
        }
    }

    /// Read a configuration out of a JSON document: each known string field
    /// when present, the documented default when absent, and the `api_keys`
    /// object's string-valued entries.
    pub fn from_json_config(config_json: &serde_json::Value) -> (r: AppConfig) {
        let table_name = json_get_str(config_json, "dynamodb_table_name");
        let url_base = json_get_str(config_json, "short_url_base");
        let log_level = json_get_str(config_json, "rust_log_level");
        let entries = json_get_entries(config_json, "api_keys");
        let mut api_keys: Vec<(String, String)> = Vec::new();
        let n = entries.len();
        let mut i: usize = 0;
        while i < n
            invariant
                0 <= i <= n,
                n == entries@.len(),
            decreases n - i,
        {
            let pair = &entries[i];
            match &pair.1 {
                Some(value) => {
                    api_keys.push((pair.0.clone(), value.clone()));
                },
                None => {},
            }
            i += 1;
        }
        AppConfig::from_fields(table_name, url_base, log_level, api_keys)
    }

    /// The API key stored under `key_name`, if any.
    pub fn get_api_key<'a>(&'a self, key_name: &str) -> (r: Option<&'a str>)
        ensures
            match r {
                Some(s) => key_lookup(self.api_keys@, key_name@) == Some(s@),
                None => key_lookup(self.api_keys@, key_name@) is None,
            },
    {
        let n = self.api_keys.len();
        let mut i: usize = 0;
        proof {
            assert(self.api_keys@.skip(0) =~= self.api_keys@);
        }
        while i < n
            invariant
                0 <= i <= n,
                n == self.api_keys@.len(),
                key_lookup(self.api_keys@, key_name@) == key_lookup(
                    self.api_keys@.skip(i as int),
                    key_name@,
                ),
            decreases n - i,
        {
            let pair = &self.api_keys[i];
            if str_eq(pair.0.as_str(), key_name) {
                proof {
                    assert(self.api_keys@.skip(i as int)[0] == self.api_keys@[i as int]);
                }
                return Some(pair.1.as_str());
            }
            proof {
                assert(self.api_keys@.skip(i as int)[0] == self.api_keys@[i as int]);
                assert(self.api_keys@.skip(i as int).drop_first() =~= self.api_keys@.skip(
                    i as int + 1,
                ));
            }
            i += 1;
        }
        proof {
            assert(self.api_keys@.skip(n as int) =~= Seq::<(String, String)>::empty());
        }
        None
    }

    /// True when at least one API key is configured.
    pub fn has_api_keys(&self) -> (r: bool)
        ensures
            r == (self.api_keys@.len() > 0),
    {
        self.api_keys.len() > 0
    }
}

/// One cached secret: its name, its value, and the instant the entry
/// lapses.
pub struct CachedSecret {
    pub name: String,
    pub value: String,
    pub expires_at: i64,
}

/// The value and expiry of the first cache entry named `name`, if any.
pub open spec fn cache_lookup(entries: Seq<CachedSecret>, name: Seq<char>) -> Option<
    (Seq<char>, i64),
>
    decreases entries.len(),
{
    if entries.len() == 0 {
        None
    } else if entries[0].name@ == name {
        Some((entries[0].value@, entries[0].expires_at))
    } else {
        cache_lookup(entries.drop_first(), name)
    }
}

/// A time-bounded cache in front of the secret store: entries live for a
/// fixed number of seconds, are read only while still fresh, and are
/// replaced in place when a secret is fetched anew.
pub struct SecretCache {
    entries: Vec<CachedSecret>,
    ttl_seconds: i64,
}

impl SecretCache {
    /// The cached entries, in order.
    pub closed spec fn entries_view(&self) -> Seq<CachedSecret> {
        self.entries@
    }

    /// The lifetime given to each entry, in seconds.
    pub closed spec fn ttl(&self) -> i64 {
        self.ttl_seconds
    }

    /// An empty cache whose entries live `ttl_seconds`.
    pub fn with_ttl(ttl_seconds: i64) -> (r: Self)
        requires
            ttl_seconds >= 0,
        ensures
            r.entries_view() == Seq::<CachedSecret>::empty(),
            r.ttl() == ttl_seconds,
    {
        SecretCache { entries: Vec::new(), ttl_seconds }
    }

    /// An empty cache with the default lifetime of five minutes.
    pub fn new() -> (r: Self)
        ensures
            r.entries_view() == Seq::<CachedSecret>::empty(),
            r.ttl() == 300,
    {
        SecretCache::with_ttl(300)
    }

    /// The cached value under `name`, provided its entry is still fresh at
    /// `now`; a lapsed or missing entry reads as nothing.
    pub fn get_cached(&self, name: &str, now: i64) -> (r: Option<String>)
        ensures
            match r {
                Some(s) => cache_lookup(self.entries_view(), name@) matches Some(e) && e.0 == s@
                    && e.1 > now,
                None => cache_lookup(self.entries_view(), name@) matches Some(e) ==> e.1 <= now,
            },
    {
        let n = self.entries.len();
        let mut i: usize = 0;
        proof {
            assert(self.entries@.skip(0) =~= self.entries@);
        }
        while i < n
            invariant
                0 <= i <= n,
                n == self.entries@.len(),
                cache_lookup(self.entries@, name@) == cache_lookup(
                    self.entries@.skip(i as int),
                    name@,
                ),
            decreases n - i,
        {
            let entry = &self.entries[i];
            if str_eq(entry.name.as_str(), name) {
                proof {
                    assert(self.entries@.skip(i as int)[0] == self.entries@[i as int]);
                }
                if entry.expires_at > now {
                    return Some(entry.value.clone());
                } else {
                    return None;
                }
            }
            proof {
                assert(self.entries@.skip(i as int)[0] == self.entries@[i as int]);
                assert(self.entries@.skip(i as int).drop_first() =~= self.entries@.skip(
                    i as int + 1,
                ));
            }
            i += 1;
        }
        proof {
            assert(self.entries@.skip(n as int) =~= Seq::<CachedSecret>::empty());
        }
        None
    }

    /// Cache a freshly fetched secret: any entry under the same name is
    /// replaced; the new entry lapses one lifetime after `now`.
    pub fn cache_secret(&mut self, name: String, value: String, now: i64)
        requires
            0 <= now,
            0 <= old(self).ttl(),
            now + old(self).ttl() <= i64::MAX,
        ensures
            final(self).ttl() == old(self).ttl(),
            cache_lookup(final(self).entries_view(), name@) == Some(
                (value@, (now + old(self).ttl()) as i64),
            ),
            forall|other: Seq<char>|
                other != name@ ==> cache_lookup(final(self).entries_view(), other) == cache_lookup(
                    old(self).entries_view(),
                    other,
                ),
    {
        let expires_at = now + self.ttl_seconds;
        let n = self.entries.len();
        let mut i: usize = 0;
        proof {
            assert(self.entries@.skip(0) =~= self.entries@);
        }
        while i < n
            invariant
                0 <= i <= n,
                n == self.entries@.len(),
                self.entries@ == old(self).entries_view(),
                self.ttl() == old(self).ttl(),
                expires_at == now + old(self).ttl(),
                forall|j: int| 0 <= j < i ==> (#[trigger] self.entries@[j].name)@ != name@,
            decreases n - i,
        {
            if str_eq(self.entries[i].name.as_str(), name.as_str()) {
                self.entries[i] = CachedSecret { name, value, expires_at };
                proof {
                    lemma_cache_lookup_at(self.entries@, name@, i as int);
                    let before = old(self).entries_view();
                    let e = self.entries@[i as int];
                    assert(self.entries@ == before.update(i as int, e));
                    assert forall|other: Seq<char>| other != e.name@ implies cache_lookup(
                        self.entries@,
                        other,
                    ) == cache_lookup(before, other) by {
                        lemma_cache_lookup_update(before, i as int, e, other);
                    }
                }
                return ;
            }
            i += 1;
        }
        self.entries.push(CachedSecret { name, value, expires_at });
        proof {
            lemma_cache_lookup_at(self.entries@, self.entries@[n as int].name@, n as int);
            let before = old(self).entries_view();
            let e = self.entries@[n as int];
            assert forall|other: Seq<char>| other != e.name@ implies cache_lookup(
                self.entries@,
                other,
            ) == cache_lookup(before, other) by {
                lemma_cache_lookup_push(before, e, other);
            }
        }
    }

    /// Drop every cached entry, forcing the next reads to fetch anew.
    pub fn clear_cache(&mut self)
        ensures
            final(self).entries_view() == Seq::<CachedSecret>::empty(),
            final(self).ttl() == old(self).ttl(),
    {
        self.entries.clear();
    }
}

/// A fresh entry at the back is found only when no earlier entry matches.
proof fn lemma_cache_lookup_push(entries: Seq<CachedSecret>, e: CachedSecret, other: Seq<char>)
    ensures
        cache_lookup(entries.push(e), other) == (if cache_lookup(entries, other) is Some {
            cache_lookup(entries, other)
        } else if e.name@ == other {
            Some((e.value@, e.expires_at))
        } else {
            None
        }),
    decreases entries.len(),
{
    if entries.len() == 0 {
        assert(entries.push(e)[0] == e);
        assert(entries.push(e).drop_first() =~= Seq::<CachedSecret>::empty());
        assert(cache_lookup(Seq::<CachedSecret>::empty(), other) is None);
    } else {
        assert(entries.push(e)[0] == entries[0]);
        assert(entries.push(e).drop_first() =~= entries.drop_first().push(e));
        lemma_cache_lookup_push(entries.drop_first(), e, other);
    }
}

/// Replacing one entry by another of the same name leaves lookups of every
/// other name untouched.
proof fn lemma_cache_lookup_update(
    entries: Seq<CachedSecret>,
    i: int,
    e: CachedSecret,
    other: Seq<char>,
)
    requires
        0 <= i < entries.len(),
        entries[i].name@ == e.name@,
        e.name@ != other,
    ensures
        cache_lookup(entries.update(i, e), other) == cache_lookup(entries, other),
    decreases entries.len(),
{
    let u = entries.update(i, e);
    if i == 0 {
        assert(u[0].name@ == entries[0].name@);
        assert(u.drop_first() =~= entries.drop_first());
    } else {
        assert(u[0] == entries[0]);
        assert(u.drop_first() =~= entries.drop_first().update(i - 1, e));
        lemma_cache_lookup_update(entries.drop_first(), i - 1, e, other);
    }
}

/// A scan that matched at `i` with no earlier match pins `cache_lookup`.
proof fn lemma_cache_lookup_at(entries: Seq<CachedSecret>, name: Seq<char>, i: int)
    requires
        0 <= i < entries.len(),
        entries[i].name@ == name,
        forall|j: int| 0 <= j < i ==> (#[trigger] entries[j].name)@ != name,
    ensures
        cache_lookup(entries, name) == Some((entries[i].value@, entries[i].expires_at)),
    decreases entries.len(),
{
    if i > 0 {
        assert(forall|j: int|
            1 <= j < entries.len() ==> entries.drop_first()[j - 1] == #[trigger] entries[j]);
        lemma_cache_lookup_at(entries.drop_first(), name, i - 1);
    }
}

} // verus!
