//! The record store: the authoritative table of short-code records. It
//! offers conditional create (never overwriting an existing code), point
//! lookup with read-time expiry filtering, secondary lookup by original
//! URL, and an atomic click-count increment, each with a full functional
//! contract over the sequence of stored records.
use vstd::prelude::*;

use crate::error::UrlShortenerError;
use crate::models::UrlItem;
use crate::text::str_eq;

verus! {

/// True when a record's expiry is set and lies strictly in the past.
pub open spec fn spec_expired(item: UrlItem, now: i64) -> bool {
    item.expires_at matches Some(t) && now > t
}

/// The index of the first record carrying `code`, or -1 when there is none.
pub open spec fn first_code_idx(items: Seq<UrlItem>, code: Seq<char>) -> int
    decreases items.len(),
{
    if items.len() == 0 {
        -1
    } else if items[0].short_code@ == code {
        0
    } else {
        let rest = first_code_idx(items.drop_first(), code);
        if rest < 0 {
            -1
        } else {
            rest + 1
        }
    }
}

/// The index of the first record whose original URL is `url`, or -1.
pub open spec fn first_url_idx(items: Seq<UrlItem>, url: Seq<char>) -> int
    decreases items.len(),
{
    if items.len() == 0 {
        -1
    } else if items[0].original_url@ == url {
        0
    } else {
        let rest = first_url_idx(items.drop_first(), url);
        if rest < 0 {
            -1
        } else {
            rest + 1
        }
    }
}

/// True when some record carries `code`.
pub open spec fn has_code(items: Seq<UrlItem>, code: Seq<char>) -> bool {
    first_code_idx(items, code) >= 0
}

/// What `first_code_idx` finds: -1 means no record matches; a non-negative
/// index points at the first matching record.
pub proof fn lemma_first_code_idx(items: Seq<UrlItem>, code: Seq<char>)
    ensures
        ({
            let i = first_code_idx(items, code);
            &&& (i == -1 ==> forall|j: int|
                0 <= j < items.len() ==> (#[trigger] items[j].short_code)@ != code)
            &&& (i >= 0 ==> 0 <= i < items.len() && items[i].short_code@ == code && forall|j: int|
                0 <= j < i ==> (#[trigger] items[j].short_code)@ != code)
        }),
    decreases items.len(),
{
    if items.len() > 0 && items[0].short_code@ != code {
        lemma_first_code_idx(items.drop_first(), code);
        assert(forall|j: int|
            1 <= j < items.len() ==> items.drop_first()[j - 1] == #[trigger] items[j]);
    }
}

/// A scan that matched at `i` with no earlier match pins `first_code_idx`.
pub proof fn lemma_first_code_idx_at(items: Seq<UrlItem>, code: Seq<char>, i: int)
    requires
        0 <= i < items.len(),
        items[i].short_code@ == code,
        forall|j: int| 0 <= j < i ==> (#[trigger] items[j].short_code)@ != code,
    ensures
        first_code_idx(items, code) == i,
    decreases items.len(),
{
    if i > 0 {
        assert(forall|j: int|
            1 <= j < items.len() ==> items.drop_first()[j - 1] == #[trigger] items[j]);
        lemma_first_code_idx_at(items.drop_first(), code, i - 1);
    }
}

/// What `first_url_idx` finds, in the same shape.
pub proof fn lemma_first_url_idx(items: Seq<UrlItem>, url: Seq<char>)
    ensures
        ({
            let i = first_url_idx(items, url);
            &&& (i == -1 ==> forall|j: int|
                0 <= j < items.len() ==> (#[trigger] items[j].original_url)@ != url)
            &&& (i >= 0 ==> 0 <= i < items.len() && items[i].original_url@ == url && forall|j: int|
                0 <= j < i ==> (#[trigger] items[j].original_url)@ != url)
        }),
    decreases items.len(),
{
    if items.len() > 0 && items[0].original_url@ != url {
        lemma_first_url_idx(items.drop_first(), url);
        assert(forall|j: int|
            1 <= j < items.len() ==> items.drop_first()[j - 1] == #[trigger] items[j]);
    }
}

/// A scan that matched at `i` with no earlier match pins `first_url_idx`.
pub proof fn lemma_first_url_idx_at(items: Seq<UrlItem>, url: Seq<char>, i: int)
    requires
        0 <= i < items.len(),
        items[i].original_url@ == url,
        forall|j: int| 0 <= j < i ==> (#[trigger] items[j].original_url)@ != url,
    ensures
        first_url_idx(items, url) == i,
    decreases items.len(),
{
    if i > 0 {
        assert(forall|j: int|
            1 <= j < items.len() ==> items.drop_first()[j - 1] == #[trigger] items[j]);
        lemma_first_url_idx_at(items.drop_first(), url, i - 1);
    }
}

/// No two records share a short code: the store never silently overwrites
/// an existing code, so every code maps to at most one record.
pub open spec fn codes_unique(items: Seq<UrlItem>) -> bool {
    forall|i: int, j: int|
        0 <= i < j < items.len() ==> (#[trigger] items[i].short_code)@ != (
        #[trigger] items[j].short_code)@
}

/// At most one auto-generated record exists per original URL; custom-coded
/// records are exempt.
pub open spec fn auto_urls_unique(items: Seq<UrlItem>) -> bool {
    forall|i: int, j: int|
        0 <= i < j < items.len() && !items[i].custom_code && !items[j].custom_code ==> (
        #[trigger] items[i].original_url)@ != (#[trigger] items[j].original_url)@
}

/// A record with its click counter raised by one, saturating at the
/// counter's ceiling; all other fields are unchanged.
pub open spec fn bump_clicks(item: UrlItem) -> UrlItem {
    UrlItem {
        click_count: if item.click_count == u64::MAX {
            u64::MAX
        } else {
            (item.click_count + 1) as u64
        },
        ..item
    }
}

/// The store after one increment against `code`: the first matching record
/// has its counter bumped; a miss leaves the store unchanged.
pub open spec fn spec_increment(items: Seq<UrlItem>, code: Seq<char>) -> Seq<UrlItem> {
    let i = first_code_idx(items, code);
    if i >= 0 {
        items.update(i, bump_clicks(items[i]))
    } else {
        items
    }
}

/// The store and success flag after one conditional create.
pub open spec fn spec_put(items: Seq<UrlItem>, item: UrlItem) -> (Seq<UrlItem>, bool) {
    if has_code(items, item.short_code@) {
        (items, false)
    } else {
        (items.push(item), true)
    }
}

/// The record store, carried per process and addressed by table name. The
/// table it stands for is modelled as the sequence of records in insertion
/// order; the view of the store is that sequence.
pub struct DynamoDbClient {
    table_name: String,
    items: Vec<UrlItem>,
}

impl View for DynamoDbClient {
    type V = Seq<UrlItem>;

    closed spec fn view(&self) -> Seq<UrlItem> {
        self.items@
    }
}

impl DynamoDbClient {
    /// The table name the store was opened with.
    pub closed spec fn table_name_view(&self) -> Seq<char> {
        self.table_name@
    }

    /// The store's invariant: short codes are unique.
    pub open spec fn wf(&self) -> bool {
        codes_unique(self@)
    }

    /// Open an empty store for the named table.
    pub fn new(table_name: String) -> (r: Self)
        ensures
            r@ == Seq::<UrlItem>::empty(),
            r.table_name_view() == table_name@,
            r.wf(),
    {
        DynamoDbClient { table_name, items: Vec::new() }
    }

    /// The table name, as handed to `new`.
    pub fn table_name(&self) -> (r: &str)
        ensures
            r@ == self.table_name_view(),
    {
        self.table_name.as_str()
    }

    /// The number of records the store holds, expired ones included.
    pub fn len(&self) -> (r: usize)
        ensures
            r == self@.len(),
    {
        self.items.len()
    }

    /// Point lookup by short code. A record whose expiry has passed is
    /// logically absent but reported as `UrlExpired`, distinct from a code
    /// that never existed, which yields `Ok(None)`.
    pub fn get_url(&self, short_code: &str, now: i64) -> (r: Result<
        Option<UrlItem>,
        UrlShortenerError,
    >)
        ensures
            ({
                let i = first_code_idx(self@, short_code@);
                &&& (i < 0 ==> (r matches Ok(o) && o is None))
                &&& (i >= 0 && spec_expired(self@[i], now) ==> (r matches Err(e)
                    && e is UrlExpired))
                &&& (i >= 0 && !spec_expired(self@[i], now) ==> (r matches Ok(o)
                    && o matches Some(item) && item == self@[i]))
            }),
    {
        let n = self.items.len();
        let mut idx: usize = 0;
        while idx < n
            invariant
                0 <= idx <= n,
                n == self@.len(),
                forall|j: int| 0 <= j < idx ==> (#[trigger] self@[j].short_code)@ != short_code@,
            decreases n - idx,
        {
            if str_eq(self.items[idx].short_code.as_str(), short_code) {
                proof {
                    lemma_first_code_idx_at(self@, short_code@, idx as int);
                }
                let item = &self.items[idx];
                match item.expires_at {
                    Some(expires_at) => {
                        if now > expires_at {
                            return Err(UrlShortenerError::UrlExpired);
                        }
                    },
                    None => {},
                }
                return Ok(Some(item.clone()));
            }
            idx += 1;
        }
        proof {
            lemma_first_code_idx(self@, short_code@);
        }
        Ok(None)
    }

    /// Secondary lookup by original URL: the first record registered for
    /// that URL, if any. This backend never fails the query.
    pub fn find_existing_url(&self, original_url: &str) -> (r: Result<
        Option<UrlItem>,
        UrlShortenerError,
    >)
        ensures
            ({
                let i = first_url_idx(self@, original_url@);
                &&& (i < 0 ==> (r matches Ok(o) && o is None))
                &&& (i >= 0 ==> (r matches Ok(o) && o matches Some(item) && item == self@[i]))
            }),
    {
        let n = self.items.len();
        let mut idx: usize = 0;
        while idx < n
            invariant
                0 <= idx <= n,
                n == self@.len(),
                forall|j: int| 0 <= j < idx ==> (#[trigger] self@[j].original_url)@ != original_url@,
            decreases n - idx,
        {
            if str_eq(self.items[idx].original_url.as_str(), original_url) {
                proof {
                    lemma_first_url_idx_at(self@, original_url@, idx as int);
                }
                return Ok(Some(self.items[idx].clone()));
            }
            idx += 1;
        }
        proof {
            lemma_first_url_idx(self@, original_url@);
        }
        Ok(None)
    }

    /// Conditional create: insert the record only when no record carries
    /// its short code, as one atomic step; a losing race yields
    /// `ShortCodeExists` and leaves the store untouched.
    pub fn put_url(&mut self, url_item: &UrlItem) -> (r: Result<(), UrlShortenerError>)
        requires
            old(self).wf(),
        ensures
            final(self).wf(),
            final(self).table_name_view() == old(self).table_name_view(),
            final(self)@ == spec_put(old(self)@, *url_item).0,
            (r is Ok) == spec_put(old(self)@, *url_item).1,
            has_code(old(self)@, url_item.short_code@) ==> (r matches Err(e) && e matches
                UrlShortenerError::ShortCodeExists(c) && c@ == url_item.short_code@
                && final(self)@ == old(self)@),
            !has_code(old(self)@, url_item.short_code@) ==> (r is Ok && final(self)@
                == old(self)@.push(*url_item)),
    {
        let n = self.items.len();
        let mut idx: usize = 0;
        while idx < n
            invariant
                0 <= idx <= n,
                n == self@.len(),
                self@ == old(self)@,
                self.table_name_view() == old(self).table_name_view(),
                codes_unique(self@),
                forall|j: int|
                    0 <= j < idx ==> (#[trigger] self@[j].short_code)@ != url_item.short_code@,
            decreases n - idx,
        {
            if str_eq(self.items[idx].short_code.as_str(), url_item.short_code.as_str()) {
                proof {
                    lemma_first_code_idx_at(self@, url_item.short_code@, idx as int);
                }
                return Err(UrlShortenerError::ShortCodeExists(url_item.short_code.clone()));
            }
            idx += 1;
        }
        proof {
            lemma_first_code_idx(self@, url_item.short_code@);
        }
        self.items.push(url_item.clone());
        proof {
            assert(codes_unique(self@)) by {
                assert(forall|j: int|
                    0 <= j < old(self)@.len() ==> #[trigger] self@[j] == old(self)@[j]);
            }
        }
        Ok(())
    }

    /// Atomically add one to the click counter of the record carrying
    /// `code`, saturating at the counter's ceiling. Incrementing an absent
    /// code is tolerated as a no-op; the operation itself never fails.
    pub fn increment_click_count(&mut self, short_code: &str) -> (r: Result<(), UrlShortenerError>)
        requires
            old(self).wf(),
        ensures
            final(self).wf(),
            final(self).table_name_view() == old(self).table_name_view(),
            r is Ok,
            final(self)@ == spec_increment(old(self)@, short_code@),
    {
        let n = self.items.len();
        let mut idx: usize = 0;
        while idx < n
            invariant
                0 <= idx <= n,
                n == self@.len(),
                self@ == old(self)@,
                self.table_name_view() == old(self).table_name_view(),
                codes_unique(self@),
                forall|j: int| 0 <= j < idx ==> (#[trigger] self@[j].short_code)@ != short_code@,
            decreases n - idx,
        {
            if str_eq(self.items[idx].short_code.as_str(), short_code) {
                proof {
                    lemma_first_code_idx_at(self@, short_code@, idx as int);
                }
                let current = self.items[idx].click_count;
                if current < u64::MAX {
                    self.items[idx].click_count = current + 1;
                }
                proof {
                    assert(self@ =~= spec_increment(old(self)@, short_code@));
                    assert(codes_unique(self@)) by {
                        assert(forall|j: int|
                            0 <= j < old(self)@.len() ==> (#[trigger] self@[j].short_code)@
                                == old(self)@[j].short_code@);
                    }
                }
                return Ok(());
            }
            idx += 1;
        }
        proof {
            lemma_first_code_idx(self@, short_code@);
        }
        Ok(())
    }
}

/// The number of records registered for `url`.
pub open spec fn count_url(items: Seq<UrlItem>, url: Seq<char>) -> nat
    decreases items.len(),
{
    if items.len() == 0 {
        0
    } else {
        count_url(items.drop_last(), url) + if items.last().original_url@ == url {
            1nat
        } else {
            0nat
        }
    }
}

proof fn lemma_count_url_zero(items: Seq<UrlItem>, url: Seq<char>)
    requires
        forall|j: int| 0 <= j < items.len() ==> (#[trigger] items[j].original_url)@ != url,
    ensures
        count_url(items, url) == 0,
    decreases items.len(),
{
    if items.len() > 0 {
        lemma_count_url_zero(items.drop_last(), url);
    }
}

/// Law: creating the first auto-coded record for a URL leaves the store
/// with exactly one record for that URL, found by the dedup lookup; a
/// second create with the same URL and no custom code therefore takes the
/// dedup path, returns that record's code, and adds nothing.
pub proof fn lemma_create_dedup_idempotent(items: Seq<UrlItem>, item: UrlItem)
    requires
        first_url_idx(items, item.original_url@) == -1,
    ensures
        count_url(items, item.original_url@) == 0,
        count_url(items.push(item), item.original_url@) == 1,
        first_url_idx(items.push(item), item.original_url@) == items.len() as int,
{
    let url = item.original_url@;
    lemma_first_url_idx(items, url);
    lemma_count_url_zero(items, url);
    assert(items.push(item).drop_last() =~= items);
    assert(forall|j: int| 0 <= j < items.len() ==> items.push(item)[j] == #[trigger] items[j]);
    lemma_first_url_idx_at(items.push(item), url, items.len() as int);
}

/// The store after a series of conditional creates, applied in order.
pub open spec fn spec_put_n(items: Seq<UrlItem>, reqs: Seq<UrlItem>) -> Seq<UrlItem>
    decreases reqs.len(),
{
    if reqs.len() == 0 {
        items
    } else {
        spec_put_n(spec_put(items, reqs[0]).0, reqs.drop_first())
    }
}

/// How many of a series of conditional creates succeed, applied in order.
pub open spec fn spec_put_successes(items: Seq<UrlItem>, reqs: Seq<UrlItem>) -> nat
    decreases reqs.len(),
{
    if reqs.len() == 0 {
        0
    } else {
        (if spec_put(items, reqs[0]).1 {
            1nat
        } else {
            0nat
        }) + spec_put_successes(spec_put(items, reqs[0]).0, reqs.drop_first())
    }
}

proof fn lemma_put_n_all_fail(items: Seq<UrlItem>, reqs: Seq<UrlItem>, code: Seq<char>)
    requires
        forall|k: int| 0 <= k < reqs.len() ==> (#[trigger] reqs[k].short_code)@ == code,
        has_code(items, code),
    ensures
        spec_put_successes(items, reqs) == 0,
        spec_put_n(items, reqs) == items,
    decreases reqs.len(),
{
    if reqs.len() > 0 {
        assert(forall|k: int|
            0 <= k < reqs.drop_first().len() ==> reqs.drop_first()[k] == #[trigger] reqs[k + 1]);
        lemma_put_n_all_fail(items, reqs.drop_first(), code);
    }
}

/// Law: any number of conditional creates racing for one short code yield
/// exactly one success — the first — and every later one fails with the
/// store unchanged, provided the code was free at the start.
pub proof fn lemma_conditional_create_one_winner(
    items: Seq<UrlItem>,
    reqs: Seq<UrlItem>,
    code: Seq<char>,
)
    requires
        reqs.len() >= 1,
        forall|k: int| 0 <= k < reqs.len() ==> (#[trigger] reqs[k].short_code)@ == code,
        !has_code(items, code),
    ensures
        spec_put_successes(items, reqs) == 1,
        spec_put_n(items, reqs) == items.push(reqs[0]),
{
    let after = items.push(reqs[0]);
    lemma_first_code_idx(items, code);
    assert(forall|j: int| 0 <= j < items.len() ==> after[j] == #[trigger] items[j]);
    lemma_first_code_idx_at(after, code, items.len() as int);
    assert(forall|k: int|
        0 <= k < reqs.drop_first().len() ==> reqs.drop_first()[k] == #[trigger] reqs[k + 1]);
    lemma_put_n_all_fail(after, reqs.drop_first(), code);
}

/// The store after a series of increments against one code.
pub open spec fn spec_increment_n(items: Seq<UrlItem>, code: Seq<char>, n: nat) -> Seq<UrlItem>
    decreases n,
{
    if n == 0 {
        items
    } else {
        spec_increment(spec_increment_n(items, code, (n - 1) as nat), code)
    }
}

/// Law: a series of n increments against one existing code leaves that
/// record's counter exactly n higher — none of the increments is lost — and
/// every other record untouched, as long as the counter does not reach its
/// ceiling.
pub proof fn lemma_increment_n_adds_n(items: Seq<UrlItem>, code: Seq<char>, n: nat)
    requires
        ({
            let i = first_code_idx(items, code);
            i >= 0 && items[i].click_count + n <= u64::MAX
        }),
    ensures
        ({
            let i = first_code_idx(items, code);
            spec_increment_n(items, code, n) == items.update(
                i,
                UrlItem { click_count: (items[i].click_count + n) as u64, ..items[i] },
            )
        }),
    decreases n,
{
    let i = first_code_idx(items, code);
    lemma_first_code_idx(items, code);
    if n == 0 {
        assert(items.update(i, UrlItem { click_count: items[i].click_count, ..items[i] })
            =~= items);
    } else {
        lemma_increment_n_adds_n(items, code, (n - 1) as nat);
        let prev_item = UrlItem {
            click_count: (items[i].click_count + n - 1) as u64,
            ..items[i]
        };
        let prev = items.update(i, prev_item);
        assert(prev[i].short_code@ == code);
        assert(forall|j: int| 0 <= j < i ==> prev[j] == #[trigger] items[j]);
        lemma_first_code_idx_at(prev, code, i);
        assert(spec_increment(prev, code) == prev.update(i, bump_clicks(prev[i])));
        assert(bump_clicks(prev_item) == UrlItem {
            click_count: (items[i].click_count + n) as u64,
            ..items[i]
        });
        assert(prev.update(i, bump_clicks(prev_item)) =~= items.update(
            i,
            UrlItem { click_count: (items[i].click_count + n) as u64, ..items[i] },
        ));
    }
}

} // verus!
