use vstd::prelude::*;

use crate::error::{s3_error, s3_error_with, ErrorCode, Result, S3ite};
use crate::config::name_view;
use crate::ids::fresh_token;
use crate::query::{is_listing, lemma_pages_stay_listings, optional_text_view};

verus! {

/// Largest page a listing returns, and the page size when none is asked for.
pub const MAX_KEYS: i32 = 1000;

/// How many fresh tokens a listing draws before it gives up.
pub const TOKEN_ATTEMPTS: usize = 4;

/// Message of the error a listing gets when every token drawn was taken.
pub const TOKEN_MESSAGE: &'static str = "no free continuation token";

/// Seconds a listing snapshot survives without being read.
pub const TOKEN_TTL_SECONDS: i64 = 120;

/// One row of a listing.
#[derive(Clone, Debug)]
pub struct KeySize {
    pub key: String,
    pub size: u64,
    /// RFC-3339 text of the last write.
    pub last_modified: String,
    /// Hex MD5 of the value; `None` for directory markers.
    pub md5: Option<String>,
}

/// The unread rest of a listing snapshot.
#[derive(Debug)]
pub struct ContinuationToken {
    pub token: String,
    /// Seconds since the epoch at which the snapshot was last read.
    pub last_modified: i64,
    pub key_sizes: Vec<KeySize>,
    /// The prefix the listing was asked for.
    pub prefix: Option<String>,
    /// The key the listing was asked to start after.
    pub start_after: Option<String>,
}

/// Whether a stored snapshot is a listing under the prefix and start key it
/// was taken for.
pub open spec fn entry_ok(c: ContinuationToken) -> bool {
    is_listing(c.key_sizes@, optional_text_view(c.prefix), optional_text_view(c.start_after))
}

/// The listing snapshots that clients may still continue.
#[derive(Debug)]
pub struct TokenStore {
    entries: Vec<ContinuationToken>,
}

/// What a continuation token names: the time of its last use and the rows
/// still to be returned.
pub struct Snapshot {
    pub last_modified: int,
    pub remaining: Seq<KeySize>,
    pub prefix: Option<Seq<char>>,
    pub start_after: Option<Seq<char>>,
}

/// The snapshot stored under `t`; a later entry of the same token shadows an
/// earlier one.
pub open spec fn find(s: Seq<ContinuationToken>, t: Seq<char>) -> Option<Snapshot>
    decreases s.len(),
{
    if s.len() == 0 {
        None
    } else if s.last().token@ == t {
        Some(
            Snapshot {
                last_modified: s.last().last_modified as int,
                remaining: s.last().key_sizes@,
                prefix: optional_text_view(s.last().prefix),
                start_after: optional_text_view(s.last().start_after),
            },
        )
    } else {
        find(s.drop_last(), t)
    }
}

/// Whether a snapshot read at `last_modified` is still alive at `now`.
pub open spec fn is_live(last_modified: int, now: int) -> bool {
    now - last_modified < TOKEN_TTL_SECONDS
}

/// `requested` clamped into `[0, MAX_KEYS]`, `MAX_KEYS` when absent.
pub open spec fn spec_clamp_max_keys(requested: Option<i32>) -> i32 {
    match requested {
        None => MAX_KEYS,
        Some(m) => if m < 0 {
            0
        } else if m > MAX_KEYS {
            MAX_KEYS
        } else {
            m
        },
    }
}

/// The page a listing of `rows` returns for page size `m`.
pub open spec fn page_of<T>(rows: Seq<T>, m: nat) -> Seq<T> {
    if rows.len() <= m {
        rows
    } else {
        rows.take(m as int)
    }
}

/// The rows left for later pages.
pub open spec fn rest_of<T>(rows: Seq<T>, m: nat) -> Seq<T> {
    if rows.len() <= m {
        Seq::empty()
    } else {
        rows.skip(m as int)
    }
}

/// Whether a listing of `rows` with page size `m` is truncated.
pub open spec fn truncated<T>(rows: Seq<T>, m: nat) -> bool {
    rows.len() > m
}

/// The successive pages a client reads by following every continuation
/// token, for page size `m > 0`.
pub open spec fn pages<T>(rows: Seq<T>, m: nat) -> Seq<Seq<T>>
    decreases rows.len(),
{
    if m == 0 || rows.len() <= m {
        seq![rows]
    } else {
        seq![rows.take(m as int)] + pages(rows.skip(m as int), m)
    }
}

/// The concatenation of `pages`.
pub open spec fn concat<T>(pages: Seq<Seq<T>>) -> Seq<T>
    decreases pages.len(),
{
    if pages.len() == 0 {
        Seq::empty()
    } else {
        pages[0] + concat(pages.drop_first())
    }
}

/// Paging through a snapshot by following every continuation token returns
/// each row exactly once and in order: the pages concatenate to the
/// snapshot. The first page is the one a fresh listing returns, and the
/// later pages are those of the rows it stores.
pub proof fn lemma_pagination_covers_snapshot<T>(rows: Seq<T>, m: nat)
    requires
        m > 0,
    ensures
        concat(pages(rows, m)) == rows,
        pages(rows, m)[0] == page_of(rows, m),
        truncated(rows, m) ==> pages(rows, m).drop_first() == pages(rest_of(rows, m), m),
        !truncated(rows, m) ==> pages(rows, m).len() == 1,
    decreases rows.len(),
{
    if rows.len() <= m {
        let p = pages(rows, m);
        assert(p.drop_first() =~= Seq::<Seq<T>>::empty());
        assert(concat(p.drop_first()) == Seq::<T>::empty());
        assert(concat(p) == p[0] + concat(p.drop_first()));
        assert(rows + Seq::<T>::empty() =~= rows);
    } else {
        lemma_pagination_covers_snapshot(rows.skip(m as int), m);
        let p = pages(rows, m);
        assert(p.drop_first() =~= pages(rows.skip(m as int), m));
        assert(concat(p) == p[0] + concat(p.drop_first()));
        assert(rows =~= rows.take(m as int) + rows.skip(m as int));
    }
}

/// What a snapshot keeps after a page is cut from it is a suffix of what it
/// held: rows leave only from the head, and the rest keep their order.
pub proof fn lemma_rest_is_suffix<T>(rows: Seq<T>, m: nat)
    ensures
        rest_of(rows, m).len() <= rows.len(),
        rest_of(rows, m) == rows.skip(rows.len() - rest_of(rows, m).len()),
        page_of(rows, m) + rest_of(rows, m) == rows,
{
    if rows.len() <= m {
        assert(rows.skip(rows.len() as int) =~= Seq::<T>::empty());
        assert(rows + Seq::<T>::empty() =~= rows);
    } else {
        assert(rows.take(m as int) + rows.skip(m as int) =~= rows);
    }
}

/// Every snapshot that a well-formed store names is a listing under the
/// prefix and start key it was taken for, so the pages read from it by
/// later calls keep every key under the prefix, in strictly ascending order.
pub proof fn lemma_stored_snapshots_are_listings(entries: Seq<ContinuationToken>, t: Seq<char>)
    requires
        forall|i: int| 0 <= i < entries.len() ==> entry_ok(#[trigger] entries[i]),
    ensures
        find(entries, t) matches Some(s) ==> is_listing(s.remaining, s.prefix, s.start_after),
    decreases entries.len(),
{
    if entries.len() > 0 {
        assert(entry_ok(entries[entries.len() - 1]));
        let rest = entries.drop_last();
        assert forall|i: int| 0 <= i < rest.len() implies entry_ok(#[trigger] rest[i]) by {
            assert(rest[i] == entries[i]);
        }
        lemma_stored_snapshots_are_listings(rest, t);
    }
}

/// The rows still stored after `k` calls with page size `m`, each call
/// keeping `rest_of` what the one before it kept.
pub open spec fn after_calls<T>(rows: Seq<T>, m: nat, k: nat) -> Seq<T>
    decreases k,
{
    if k == 0 {
        rows
    } else {
        after_calls(rest_of(rows, m), m, (k - 1) as nat)
    }
}

/// The page the `k`-th call of a chain returns, `page_of` what the calls
/// before it left stored, is the `k`-th of `pages`: a chain of any length
/// reads the snapshot page by page, in order.
pub proof fn lemma_chain_reads_pages<T>(rows: Seq<T>, m: nat, k: nat)
    requires
        m > 0,
        k < pages(rows, m).len(),
    ensures
        pages(rows, m)[k as int] == page_of(after_calls(rows, m, k), m),
    decreases k,
{
    lemma_pagination_covers_snapshot(rows, m);
    if k > 0 {
        assert(rows.len() > m);
        assert(pages(rows, m).drop_first() == pages(rest_of(rows, m), m));
        assert(pages(rows, m)[k as int] == pages(rest_of(rows, m), m)[k - 1]);
        lemma_chain_reads_pages(rest_of(rows, m), m, (k - 1) as nat);
    }
}

/// In a well-formed store, every snapshot a token names is a listing under
/// the prefix and start key it was taken for.
pub proof fn lemma_store_snapshots_are_listings(store: TokenStore, t: Seq<char>)
    requires
        store.well_formed(),
    ensures
        store.lookup(t) matches Some(s) ==> is_listing(s.remaining, s.prefix, s.start_after),
{
    lemma_stored_snapshots_are_listings(store.entries@, t);
}

/// A page size of zero returns no rows, and the listing is truncated exactly
/// when the snapshot is not empty. Every requested page size is clamped into
/// `[0, MAX_KEYS]`.
pub proof fn lemma_zero_max_keys<T>(rows: Seq<T>, requested: Option<i32>)
    ensures
        page_of(rows, 0) == Seq::<T>::empty(),
        truncated(rows, 0) <==> rows.len() > 0,
        0 <= spec_clamp_max_keys(requested) <= MAX_KEYS,
{
    if rows.len() > 0 {
        assert(rows.take(0) =~= Seq::<T>::empty());
    } else {
        assert(rows =~= Seq::<T>::empty());
    }
}

/// An owned copy of an optional text.
pub fn owned_text(s: Option<&str>) -> (r: Option<String>)
    ensures
        optional_text_view(r) == name_view(s),
{
    match s {
        Some(t) => Some(String::from_str(t)),
        None => None,
    }
}

/// One page of a listing.
#[derive(Debug)]
pub struct ListPage {
    pub key_sizes: Vec<KeySize>,
    /// The token to continue with; present exactly when rows are left.
    pub next_continuation_token: Option<String>,
}

/// The page size a request asks for, clamped into `[0, MAX_KEYS]`.
pub fn clamp_max_keys(requested: Option<i32>) -> (r: i32)
    ensures
        r == spec_clamp_max_keys(requested),
        0 <= r <= MAX_KEYS,
{
    match requested {
        None => MAX_KEYS,
        Some(m) => if m < 0 {
            0
        } else if m > MAX_KEYS {
            MAX_KEYS
        } else {
            m
        },
    }
}

impl TokenStore {
    /// The stored snapshots, oldest first.
    pub closed spec fn snapshots(&self) -> Seq<ContinuationToken> {
        self.entries@
    }

    pub closed spec fn lookup(&self, t: Seq<char>) -> Option<Snapshot> {
        find(self.entries@, t)
    }

    /// Every stored snapshot is a listing under the prefix and start key it
    /// was taken for.
    pub closed spec fn well_formed(&self) -> bool {
        forall|i: int| 0 <= i < self.entries@.len() ==> entry_ok(#[trigger] self.entries@[i])
    }

    pub fn new() -> (r: TokenStore)
        ensures
            forall|t: Seq<char>| r.lookup(t) is None,
            r.well_formed(),
    {
        TokenStore { entries: Vec::new() }
    }

    /// Takes the snapshot stored under `token` out of the store.
    pub fn remove(&mut self, token: &str) -> (r: Option<ContinuationToken>)
        requires
            old(self).well_formed(),
        ensures
            final(self).well_formed(),
            r matches Some(c) ==> entry_ok(c),
            match old(self).lookup(token@) {
                None => r is None,
                Some(s) => r matches Some(c) && c.token@ == token@ && c.last_modified
                    == s.last_modified && c.key_sizes@ == s.remaining && optional_text_view(c.prefix)
                    == s.prefix && optional_text_view(c.start_after) == s.start_after,
            },
            final(self).lookup(token@) is None,
            forall|u: Seq<char>| u != token@ ==> final(self).lookup(u) == old(self).lookup(u),
    {
        let ghost all = self.entries@;
        let mut source = Vec::new();
        std::mem::swap(&mut source, &mut self.entries);
        assert(source@ == all);
        let mut kept: Vec<ContinuationToken> = Vec::new();
        let mut found: Option<ContinuationToken> = None;
        let n = source.len();
        let mut rest = source;
        let mut i: usize = 0;
        while i < n
            invariant
                n == all.len(),
                i <= n,
                rest@ == all.skip(i as int),
                find(kept@, token@) is None,
                forall|u: Seq<char>| u != token@ ==> find(kept@, u) == find(all.take(i as int), u),
                forall|k: int| 0 <= k < all.len() ==> entry_ok(#[trigger] all[k]),
                forall|k: int| 0 <= k < kept@.len() ==> entry_ok(#[trigger] kept@[k]),
                found matches Some(c) ==> entry_ok(c),
                match find(all.take(i as int), token@) {
                    None => found is None,
                    Some(s) => found matches Some(c) && c.token@ == token@ && c.last_modified
                        == s.last_modified && c.key_sizes@ == s.remaining && optional_text_view(
                        c.prefix,
                    ) == s.prefix && optional_text_view(c.start_after) == s.start_after,
                },
            decreases n - i,
        {
            let item = rest.remove(0);
            proof {
                assert(all.skip(i as int)[0] == all[i as int]);
                assert(all.take(i + 1).drop_last() =~= all.take(i as int));
                assert(all.take(i + 1).last() == all[i as int]);
                assert(entry_ok(all[i as int]));
            }
            let ghost before = kept@;
            let ghost it = item;
            let same = item.token == String::from_str(token);
            if same {
                found = Some(item);
            } else {
                proof {
                    assert(kept@.push(item).drop_last() =~= kept@);
                }
                kept.push(item);
            }
            proof {
                assert forall|u: Seq<char>| u != token@ implies find(kept@, u) == find(
                    all.take(i + 1),
                    u,
                ) by {
                    let t1 = all.take(i + 1);
                    assert(t1.drop_last() =~= all.take(i as int));
                    assert(t1.last() == it);
                    assert(t1.len() > 0);
                    if same {
                        assert(it.token@ == token@);
                        assert(kept@ == before);
                        assert(find(t1, u) == find(all.take(i as int), u));
                        assert(find(before, u) == find(all.take(i as int), u));
                    } else {
                        assert(kept@.drop_last() =~= before);
                        assert(kept@.last() == it);
                        assert(find(before, u) == find(all.take(i as int), u));
                    }
                }
            }
            proof {
                assert(all.skip(i as int).drop_first() =~= all.skip(i + 1));
            }
            i = i + 1;
        }
        assert(all.take(n as int) =~= all);
        self.entries = kept;
        found
    }

    /// Stores `entry` under its token, replacing what was stored there.
    pub fn insert(&mut self, entry: ContinuationToken)
        requires
            old(self).well_formed(),
            entry_ok(entry),
        ensures
            final(self).well_formed(),
            final(self).lookup(entry.token@) matches Some(s) && s.last_modified
                == entry.last_modified && s.remaining == entry.key_sizes@ && s.prefix
                == optional_text_view(entry.prefix) && s.start_after == optional_text_view(
                entry.start_after,
            ),
            forall|u: Seq<char>| u != entry.token@ ==> final(self).lookup(u) == old(self).lookup(u),
    {
        let _ = self.remove(entry.token.as_str());
        let ghost before = self.entries@;
        self.entries.push(entry);
        assert(self.entries@.drop_last() =~= before);
        assert forall|i: int| 0 <= i < self.entries@.len() implies entry_ok(#[trigger] self.entries@[i]) by {
            if i < before.len() {
                assert(self.entries@[i] == before[i]);
            }
        }
    }

    /// Drops every snapshot that has not been read for `TOKEN_TTL_SECONDS`.
    pub fn sweep(&mut self, now: i64)
        requires
            old(self).well_formed(),
        ensures
            final(self).well_formed(),
            final(self).snapshots() == old(self).snapshots().filter(
                |c: ContinuationToken| is_live(c.last_modified as int, now as int),
            ),
    {
        let ghost all = self.entries@;
        let ghost live = |c: ContinuationToken| is_live(c.last_modified as int, now as int);
        let mut source = Vec::new();
        std::mem::swap(&mut source, &mut self.entries);
        let mut kept: Vec<ContinuationToken> = Vec::new();
        let n = source.len();
        let mut rest = source;
        let mut i: usize = 0;
        proof {
            reveal(Seq::filter);
            assert(all.take(0).filter(live) =~= Seq::<ContinuationToken>::empty());
        }
        while i < n
            invariant
                n == all.len(),
                i <= n,
                rest@ == all.skip(i as int),
                kept@ == all.take(i as int).filter(live),
                live == (|c: ContinuationToken| is_live(c.last_modified as int, now as int)),
                forall|k: int| 0 <= k < all.len() ==> entry_ok(#[trigger] all[k]),
                forall|k: int| 0 <= k < kept@.len() ==> entry_ok(#[trigger] kept@[k]),
            decreases n - i,
        {
            let item = rest.remove(0);
            proof {
                reveal(Seq::filter);
                assert(all.skip(i as int)[0] == all[i as int]);
                assert(all.take(i + 1).drop_last() =~= all.take(i as int));
                assert(all.take(i + 1).last() == all[i as int]);
                assert(all.skip(i as int).drop_first() =~= all.skip(i + 1));
            }
            let ghost before = kept@;
            proof {
                assert(entry_ok(all[i as int]));
            }
            if (now as i128) - (item.last_modified as i128) < TOKEN_TTL_SECONDS as i128 {
                kept.push(item);
                assert forall|k: int| 0 <= k < kept@.len() implies entry_ok(#[trigger] kept@[k]) by {
                    if k < before.len() {
                        assert(kept@[k] == before[k]);
                    }
                }
            }
            i = i + 1;
        }
        assert(all.take(n as int) =~= all);
        self.entries = kept;
    }

    /// Whether a snapshot is stored under `token`.
    pub fn holds(&self, token: &str) -> (r: bool)
        ensures
            r == self.lookup(token@) is Some,
    {
        let wanted = String::from_str(token);
        let mut found = false;
        let mut i: usize = 0;
        assert(self.entries@.take(0) =~= Seq::<ContinuationToken>::empty());
        while i < self.entries.len()
            invariant
                i <= self.entries@.len(),
                wanted@ == token@,
                found == find(self.entries@.take(i as int), token@) is Some,
            decreases self.entries@.len() - i,
        {
            proof {
                assert(self.entries@.take(i + 1).drop_last() =~= self.entries@.take(i as int));
                assert(self.entries@.take(i + 1).last() == self.entries@[i as int]);
            }
            if self.entries[i].token == wanted {
                found = true;
            }
            i = i + 1;
        }
        assert(self.entries@.take(self.entries@.len() as int) =~= self.entries@);
        found
    }

    /// The first page of a fresh listing snapshot `rows`, storing the rest,
    /// if any, under a new token that no stored snapshot had. Should a few
    /// freshly drawn tokens all be taken, nothing is stored and the listing
    /// fails with an internal error.
    pub fn start_listing(
        &mut self,
        rows: Vec<KeySize>,
        prefix: Option<&str>,
        start_after: Option<&str>,
        max_keys: i32,
        now: i64,
    ) -> (r: Result<ListPage>)
        requires
            0 <= max_keys,
            old(self).well_formed(),
            is_listing(rows@, name_view(prefix), name_view(start_after)),
        ensures
            final(self).well_formed(),
            r matches Ok(page) ==> is_listing(page.key_sizes@, name_view(prefix), name_view(start_after)),
            !truncated(rows@, max_keys as nat) ==> r is Ok,
            r matches Err(e) ==> e.is(ErrorCode::InternalError) && forall|u: Seq<char>|
                final(self).lookup(u) == old(self).lookup(u),
            r matches Ok(page) ==> {
                &&& page.key_sizes@ == page_of(rows@, max_keys as nat)
                &&& page.next_continuation_token is Some == truncated(rows@, max_keys as nat)
                &&& match page.next_continuation_token {
                    None => forall|u: Seq<char>| final(self).lookup(u) == old(self).lookup(u),
                    Some(t) => {
                        &&& old(self).lookup(t@) is None
                        &&& final(self).lookup(t@) matches Some(s) && s.last_modified == now
                            && s.remaining == rest_of(rows@, max_keys as nat) && s.prefix == name_view(
                            prefix,
                        ) && s.start_after == name_view(start_after)
                        &&& forall|u: Seq<char>| u != t@ ==> final(self).lookup(u) == old(self).lookup(u)
                    },
                }
            },
    {
        let m = max_keys as usize;
        proof {
            lemma_pages_stay_listings(rows@, name_view(prefix), name_view(start_after), m as nat);
        }
        if rows.len() <= m {
            return Ok(ListPage { key_sizes: rows, next_continuation_token: None });
        }
        let ghost all = rows@;
        let mut page = rows;
        let remainder = page.split_off(m);
        let mut attempt: usize = 0;
        while attempt < TOKEN_ATTEMPTS
            invariant
                attempt <= TOKEN_ATTEMPTS,
                all == rows@,
                m == max_keys as usize,
                0 <= max_keys,
                all.len() > m,
                page@ == all.take(m as int),
                remainder@ == all.skip(m as int),
                self.well_formed(),
                is_listing(all.skip(m as int), name_view(prefix), name_view(start_after)),
                is_listing(all.take(m as int), name_view(prefix), name_view(start_after)),
                forall|u: Seq<char>| self.lookup(u) == old(self).lookup(u),
            decreases TOKEN_ATTEMPTS - attempt,
        {
            let token = fresh_token();
            if !self.holds(token.as_str()) {
                let reply = token.clone();
                let entry = ContinuationToken {
                    token,
                    last_modified: now,
                    key_sizes: remainder,
                    prefix: owned_text(prefix),
                    start_after: owned_text(start_after),
                };
                self.insert(entry);
                return Ok(ListPage { key_sizes: page, next_continuation_token: Some(reply) });
            }
            attempt = attempt + 1;
        }
        Err(s3_error_with(ErrorCode::InternalError, TOKEN_MESSAGE))
    }

    /// The next page of the snapshot stored under `token`. The snapshot is
    /// dropped once drained, and otherwise kept with its time of use renewed.
    pub fn continue_listing(&mut self, token: &str, max_keys: i32, now: i64) -> (r: Result<ListPage>)
        requires
            0 <= max_keys,
            old(self).well_formed(),
        ensures
            final(self).well_formed(),
            match old(self).lookup(token@) {
                None => r matches Err(e) && e.is(ErrorCode::InvalidToken) && forall|u: Seq<char>|
                    final(self).lookup(u) == old(self).lookup(u),
                Some(s) => r matches Ok(page) && {
                    &&& page.key_sizes@ == page_of(s.remaining, max_keys as nat)
                    &&& is_listing(page.key_sizes@, s.prefix, s.start_after)
                    &&& page.next_continuation_token is Some == truncated(
                        s.remaining,
                        max_keys as nat,
                    )
                    &&& page.next_continuation_token matches Some(t) ==> t@ == token@
                    &&& if truncated(s.remaining, max_keys as nat) {
                        final(self).lookup(token@) matches Some(n) && n.last_modified == now
                            && n.remaining == rest_of(s.remaining, max_keys as nat) && n.prefix
                            == s.prefix && n.start_after == s.start_after
                    } else {
                        final(self).lookup(token@) is None
                    }
                    &&& forall|u: Seq<char>| u != token@ ==> final(self).lookup(u) == old(self).lookup(u)
                },
            },
    {
        let m = max_keys as usize;
        match self.remove(token) {
            None => Err(s3_error(ErrorCode::InvalidToken)),
            Some(entry) => {
                proof {
                    lemma_pages_stay_listings(
                        entry.key_sizes@,
                        optional_text_view(entry.prefix),
                        optional_text_view(entry.start_after),
                        m as nat,
                    );
                }
                let mut page = entry.key_sizes;
                if page.len() <= m {
                    Ok(ListPage { key_sizes: page, next_continuation_token: None })
                } else {
                    let remainder = page.split_off(m);
                    let reply = entry.token.clone();
                    self.insert(
                        ContinuationToken {
                            token: entry.token,
                            last_modified: now,
                            key_sizes: remainder,
                            prefix: entry.prefix,
                            start_after: entry.start_after,
                        },
                    );
                    Ok(ListPage { key_sizes: page, next_continuation_token: Some(reply) })
                }
            },
        }
    }
}

/// The `NextMarker` of a version-1 listing: the last key of a truncated page.
pub fn next_marker(page: &ListPage) -> (r: Option<String>)
    ensures
        r is Some <==> (page.next_continuation_token is Some && page.key_sizes@.len() > 0),
        r matches Some(k) ==> k@ == page.key_sizes@.last().key@,
{
    let n = page.key_sizes.len();
    if page.next_continuation_token.is_some() && n > 0 {
        Some(page.key_sizes[n - 1].key.clone())
    } else {
        None
    }
}

} // verus!
