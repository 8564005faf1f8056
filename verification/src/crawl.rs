//! The decisions of the directory crawler: when to retry a listing and how long
//! to wait, which pages to fetch, where listed entries go, and which directory
//! (of which site) to list next.

use vstd::prelude::*;
use crate::models::{FileItem, SiteSettings, default_user_agent};
use crate::text::{contains_str, contains_text, push_all};
use crate::models::AppError;
use crate::url::{check_url, url_parse_error};
use std::collections::VecDeque;

verus! {

broadcast use vstd::string::group_string_axioms;

/// Listing attempts per page before the crawl gives up.
pub const MAX_LIST_ATTEMPTS: u32 = 6;

/// Entries requested per page.
pub const PER_PAGE: u32 = 100;

/// Directory listings that may run at once.
pub const MAX_CONCURRENT_LISTINGS: usize = 8;

/// `2^k` for the small exponents that back-off uses.
pub open spec fn pow2(k: nat) -> nat
    decreases k,
{
    if k == 0 { 1 } else { 2 * pow2((k - 1) as nat) }
}

/// Exponential back-off: `base * 2^min(attempts - 1, 4)` milliseconds, at most
/// `cap` (`attempts` counts the failed attempt, from 1).
pub open spec fn backoff_spec(base: nat, cap: nat, attempts: nat) -> nat {
    let k: nat = if attempts == 0 { 0 } else if attempts - 1 > 4 { 4 } else { (attempts - 1) as nat };
    if base * pow2(k) <= cap { base * pow2(k) } else { cap }
}

fn backoff_ms(base: u64, cap: u64, attempts: u32) -> (r: u64)
    requires
        base <= 1000,
    ensures
        r as nat == backoff_spec(base as nat, cap as nat, attempts as nat),
{
    let k: u32 = if attempts == 0 { 0 } else if attempts - 1 > 4 { 4 } else { attempts - 1 };
    let mult: u64 = if k == 0 { 1 } else if k == 1 { 2 } else if k == 2 { 4 } else if k == 3 { 8 } else { 16 };
    proof {
        reveal_with_fuel(pow2, 5);
        assert(mult as nat == pow2(k as nat));
    }
    let d = base * mult;
    if d <= cap { d } else { cap }
}

/// Back-off after an ordinary listing failure: 500 ms doubling, at most 10 s.
pub open spec fn list_backoff_spec(attempts: nat) -> nat {
    backoff_spec(500, 10000, attempts)
}

/// Back-off after a web-application-firewall challenge: 1 s doubling, at most
/// 15 s.
pub open spec fn challenge_backoff_spec(attempts: nat) -> nat {
    backoff_spec(1000, 15000, attempts)
}

/// Back-off never shrinks as attempts grow, and never passes its cap.
pub proof fn lemma_backoff_monotone(base: nat, cap: nat, a: nat, b: nat)
    requires
        a <= b,
    ensures
        backoff_spec(base, cap, a) <= backoff_spec(base, cap, b),
        backoff_spec(base, cap, b) <= cap,
{
    let ka: nat = if a == 0 { 0 } else if a - 1 > 4 { 4 } else { (a - 1) as nat };
    let kb: nat = if b == 0 { 0 } else if b - 1 > 4 { 4 } else { (b - 1) as nat };
    assert(ka <= kb);
    reveal_with_fuel(pow2, 5);
    assert(pow2(ka) <= pow2(kb));
    assert(base * pow2(ka) <= base * pow2(kb)) by (nonlinear_arith)
        requires pow2(ka) <= pow2(kb);
}

/// Whether a listing error is the page of a web-application firewall: a JSON
/// parse failure whose response holds a script or the `acw_sc__v2` cookie.
pub open spec fn is_challenge_text(msg: Seq<char>) -> bool {
    contains_text(msg, "Failed to parse JSON"@) && (contains_text(msg, "<script>"@)
        || contains_text(msg, "acw_sc__v2"@))
}

/// Tells a firewall challenge apart from other listing errors.
pub fn is_challenge_error(msg: &str) -> (r: bool)
    ensures
        r == is_challenge_text(msg@),
{
    contains_str(msg, "Failed to parse JSON") && (contains_str(msg, "<script>") || contains_str(
        msg,
        "acw_sc__v2",
    ))
}

/// What a crawl worker does after a listing attempt failed.
#[derive(Clone, Copy, Debug, PartialEq, Eq, Structural)]
pub enum ListRetry {
    /// Stop the whole crawl and report the error.
    GiveUp,
    /// Pause new listings, refresh the site's cookie through the challenge
    /// (unless another worker already did), wait, and try again.
    SolveChallenge { backoff_ms: u64 },
    /// Wait and try again.
    Retry { backoff_ms: u64 },
}

/// The decision after failed attempt number `attempts` (from 1) whose error
/// text is `msg`.
pub open spec fn list_retry_spec(attempts: nat, msg: Seq<char>) -> ListRetry {
    if is_challenge_text(msg) {
        if attempts >= MAX_LIST_ATTEMPTS {
            ListRetry::GiveUp
        } else {
            ListRetry::SolveChallenge { backoff_ms: challenge_backoff_spec(attempts) as u64 }
        }
    } else if attempts < MAX_LIST_ATTEMPTS {
        ListRetry::Retry { backoff_ms: list_backoff_spec(attempts) as u64 }
    } else {
        ListRetry::GiveUp
    }
}

/// Decides how a crawl worker reacts to a failed listing.
pub fn list_retry(attempts: u32, msg: &str) -> (r: ListRetry)
    ensures
        r == list_retry_spec(attempts as nat, msg@),
{
    if is_challenge_error(msg) {
        if attempts >= MAX_LIST_ATTEMPTS {
            ListRetry::GiveUp
        } else {
            ListRetry::SolveChallenge { backoff_ms: backoff_ms(1000, 15000, attempts) }
        }
    } else if attempts < MAX_LIST_ATTEMPTS {
        ListRetry::Retry { backoff_ms: backoff_ms(500, 10000, attempts) }
    } else {
        ListRetry::GiveUp
    }
}

/// The page to fetch after page `page` returned `listed` entries out of
/// `total`: none when the page was empty or the pages fetched cover the total.
pub open spec fn next_page_spec(page: nat, per_page: nat, total: nat, listed: nat) -> Option<nat> {
    if listed == 0 || page * per_page >= total {
        None
    } else {
        Some(page + 1)
    }
}

/// Pagination of a directory listing.
pub fn next_page(page: u32, per_page: u32, total: u64, listed: usize) -> (r: Option<u32>)
    requires
        page < u32::MAX,
    ensures
        r matches Some(p) ==> next_page_spec(page as nat, per_page as nat, total as nat, listed as nat)
            == Some(p as nat),
        r is None ==> next_page_spec(page as nat, per_page as nat, total as nat, listed as nat)
            is None,
{
    if listed == 0 {
        return None;
    }
    proof {
        assert((page as nat) * (per_page as nat) <= (u32::MAX as nat) * (u32::MAX as nat))
            by (nonlinear_arith) requires page <= u32::MAX, per_page <= u32::MAX;
    }
    if (page as u64) * (per_page as u64) >= total {
        None
    } else {
        Some(page + 1)
    }
}

/// A listed entry tagged with the site it came from.
pub open spec fn tagged(item: FileItem, site_id: String) -> FileItem {
    FileItem { site_id: site_id, ..item }
}

/// The paths of the directories among listed entries, in order.
pub open spec fn listed_dirs(items: Seq<FileItem>) -> Seq<Seq<char>>
    decreases items.len(),
{
    if items.len() == 0 {
        Seq::empty()
    } else if items.last().is_dir {
        listed_dirs(items.drop_last()).push(items.last().path@)
    } else {
        listed_dirs(items.drop_last())
    }
}

/// The files among listed entries, in order, tagged with the site.
pub open spec fn listed_files(items: Seq<FileItem>, site_id: String) -> Seq<FileItem>
    decreases items.len(),
{
    if items.len() == 0 {
        Seq::empty()
    } else if items.last().is_dir {
        listed_files(items.drop_last(), site_id)
    } else {
        listed_files(items.drop_last(), site_id).push(tagged(items.last(), site_id))
    }
}

/// Whether `p` is the path of a directory among `items`.
pub open spec fn is_listed_dir_path(items: Seq<FileItem>, p: Seq<char>) -> bool {
    exists|i: int| 0 <= i < items.len() && #[trigger] items[i].is_dir && items[i].path@ == p
}

/// Routing a listed page follows `is_dir` alone: every directory's path is
/// queued for listing, every file is kept (carrying the site), and nothing else
/// is: the queued paths are paths of listed directories, and the kept items are
/// listed files.
pub proof fn lemma_listing_routes_by_kind(items: Seq<FileItem>, site_id: String)
    ensures
        forall|i: int|
            0 <= i < items.len() && (#[trigger] items[i]).is_dir ==> listed_dirs(items).contains(
                items[i].path@,
            ),
        forall|i: int|
            0 <= i < items.len() && !(#[trigger] items[i]).is_dir ==> listed_files(
                items,
                site_id,
            ).contains((FileItem { site_id: site_id, ..items[i] })),
        forall|j: int|
            0 <= j < listed_files(items, site_id).len() ==> !(#[trigger] listed_files(
                items,
                site_id,
            )[j]).is_dir && listed_files(items, site_id)[j].site_id == site_id,
        forall|j: int|
            #![trigger listed_files(items, site_id)[j]]
            0 <= j < listed_files(items, site_id).len() ==> exists|i: int|
                #![trigger items[i]]
                0 <= i < items.len() && listed_files(items, site_id)[j] == (FileItem {
                    site_id: site_id,
                    ..items[i]
                }),
        forall|j: int|
            #![trigger listed_dirs(items)[j]]
            0 <= j < listed_dirs(items).len() ==> is_listed_dir_path(items, listed_dirs(items)[j]),
    decreases items.len(),
{
    if items.len() > 0 {
        let front = items.drop_last();
        let last = items.last();
        lemma_listing_routes_by_kind(front, site_id);
        let d0 = listed_dirs(front);
        let f0 = listed_files(front, site_id);
        let d = listed_dirs(items);
        let f = listed_files(items, site_id);
        assert forall|i: int| 0 <= i < items.len() && (#[trigger] items[i]).is_dir implies d.contains(
            items[i].path@,
        ) by {
            if i < items.len() - 1 {
                assert(items[i] == front[i]);
                assert(front[i].is_dir);
                assert(d0.contains(front[i].path@));
                let k = choose|k: int| 0 <= k < d0.len() && d0[k] == front[i].path@;
                if last.is_dir {
                    assert(d == d0.push(last.path@));
                    assert(d[k] == d0[k]);
                } else {
                    assert(d == d0);
                }
            } else {
                assert(d == d0.push(last.path@));
                assert(d[d0.len() as int] == last.path@);
            }
        }
        assert forall|i: int| 0 <= i < items.len() && !(#[trigger] items[i]).is_dir implies f.contains(
            (FileItem { site_id: site_id, ..items[i] }),
        ) by {
            if i < items.len() - 1 {
                assert(items[i] == front[i]);
                assert(!front[i].is_dir);
                assert(f0.contains(FileItem { site_id: site_id, ..front[i] }));
                let k = choose|k: int| 0 <= k < f0.len() && f0[k] == (FileItem { site_id: site_id, ..front[i] });
                if last.is_dir {
                    assert(f == f0);
                } else {
                    assert(f == f0.push(tagged(last, site_id)));
                    assert(f[k] == f0[k]);
                }
            } else {
                assert(f == f0.push(tagged(last, site_id)));
                assert(f[f0.len() as int] == FileItem { site_id: site_id, ..items[i] });
            }
        }
        assert forall|j: int| 0 <= j < f.len() implies !(#[trigger] f[j]).is_dir && f[j].site_id
            == site_id by {
            if !last.is_dir && j == f0.len() {
                assert(f[j] == tagged(last, site_id));
            } else {
                assert(f[j] == f0[j]);
            }
        }
        assert forall|j: int| #![trigger f[j]] 0 <= j < f.len() implies exists|i: int|
            #![trigger items[i]]
            0 <= i < items.len() && f[j] == (FileItem { site_id: site_id, ..items[i] }) by {
            if last.is_dir {
                assert(f == f0);
            } else {
                assert(f == f0.push(tagged(last, site_id)));
            }
            if !last.is_dir && j == f0.len() {
                assert(f[j] == tagged(last, site_id));
                assert(items[items.len() - 1] == last);
            } else {
                assert(f[j] == f0[j]);
                let i = choose|i: int| #![trigger front[i]] 0 <= i < front.len() && f0[j] == (FileItem { site_id: site_id, ..front[i] });
                assert(items[i] == front[i]);
            }
        }
        assert forall|j: int| #![trigger d[j]] 0 <= j < d.len() implies is_listed_dir_path(items, d[j]) by {
            if last.is_dir {
                assert(d == d0.push(last.path@));
            } else {
                assert(d == d0);
            }
            if last.is_dir && j == d0.len() {
                assert(items[items.len() - 1] == last);
                assert(items[items.len() - 1].is_dir && items[items.len() - 1].path@ == d[j]);
            } else {
                assert(d[j] == d0[j]);
                assert(is_listed_dir_path(front, d0[j]));
                let i = choose|i: int| 0 <= i < front.len() && #[trigger] front[i].is_dir && front[i].path@ == d0[j];
                assert(items[i] == front[i]);
                assert(items[i].is_dir && items[i].path@ == d[j]);
            }
        }
    } else {
        assert(listed_dirs(items).len() == 0);
        assert(listed_files(items, site_id).len() == 0);
    }
}

/// The views of a list of strings.
pub open spec fn views(v: Seq<String>) -> Seq<Seq<char>> {
    v.map_values(|s: String| s@)
}

/// A copy of `item` carrying `site_id`.
pub fn tag_item(item: &FileItem, site_id: &String) -> (r: FileItem)
    ensures
        r == tagged(*item, *site_id),
{
    FileItem {
        id: item.id.clone(),
        site_id: site_id.clone(),
        path: item.path.clone(),
        name: item.name.clone(),
        size: item.size,
        is_dir: item.is_dir,
        modified: item.modified,
        retries: item.retries,
    }
}

/// Splits one listed page: directories go to the crawl queue (by path), files
/// to the result, each tagged with the site they came from.
pub fn route_listing(items: &Vec<FileItem>, site_id: &String) -> (r: (Vec<String>, Vec<FileItem>))
    ensures
        views(r.0@) == listed_dirs(items@),
        r.1@ == listed_files(items@, *site_id),
        r.0@.len() + r.1@.len() == items@.len(),
        forall|i: int|
            0 <= i < items@.len() && (#[trigger] items@[i]).is_dir ==> views(r.0@).contains(
                items@[i].path@,
            ),
        forall|j: int| 0 <= j < r.1@.len() ==> !(#[trigger] r.1@[j]).is_dir && r.1@[j].site_id == *site_id,
{
    let mut dirs: Vec<String> = Vec::new();
    let mut files: Vec<FileItem> = Vec::new();
    let n = items.len();
    for i in 0..n
        invariant
            n == items@.len(),
            views(dirs@) == listed_dirs(items@.take(i as int)),
            files@ == listed_files(items@.take(i as int), *site_id),
            dirs@.len() + files@.len() == i,
    {
        let item = &items[i];
        assert(items@.take(i + 1).drop_last() =~= items@.take(i as int));
        assert(items@.take(i + 1).last() == items@[i as int]);
        if item.is_dir {
            dirs.push(item.path.clone());
            assert(views(dirs@) =~= listed_dirs(items@.take(i as int)).push(item.path@));
        } else {
            files.push(tag_item(item, site_id));
        }
    }
    assert(items@.take(n as int) =~= items@);
    proof {
        lemma_listing_routes_by_kind(items@, *site_id);
    }
    (dirs, files)
}

/// What the crawl dispatcher does on a tick.
#[derive(Clone, Debug)]
pub enum CrawlTick {
    /// Start listing this directory.
    Spawn(String),
    /// Nothing to start now.
    Wait,
    /// The crawl is complete.
    Finish,
}

/// One tick of the single-site crawl dispatcher: nothing starts while a worker
/// handles a firewall challenge or all listing slots are busy; otherwise the
/// oldest pending directory starts; with none pending, the crawl finishes once
/// no worker is running and no discovered directory is in flight.
pub fn crawl_tick(
    pending: &mut VecDeque<String>,
    challenge_active: usize,
    active: usize,
    incoming_empty: bool,
) -> (r: CrawlTick)
    ensures
        challenge_active > 0 || active >= MAX_CONCURRENT_LISTINGS ==> r is Wait && final(pending)@
            == old(pending)@,
        challenge_active == 0 && active < MAX_CONCURRENT_LISTINGS && old(pending)@.len() > 0 ==> (
        r matches CrawlTick::Spawn(d) && d == old(pending)@[0] && final(pending)@ == old(
            pending,
        )@.drop_first()),
        challenge_active == 0 && active < MAX_CONCURRENT_LISTINGS && old(pending)@.len() == 0 ==> (
        final(pending)@ == old(pending)@ && (if active == 0 && incoming_empty {
            r is Finish
        } else {
            r is Wait
        })),
{
    if challenge_active > 0 {
        return CrawlTick::Wait;
    }
    if active >= MAX_CONCURRENT_LISTINGS {
        return CrawlTick::Wait;
    }
    match pending.pop_front() {
        Some(dir) => CrawlTick::Spawn(dir),
        None => {
            if active == 0 && incoming_empty {
                CrawlTick::Finish
            } else {
                CrawlTick::Wait
            }
        },
    }
}

/// The load of one site in a multi-site crawl.
#[derive(Clone, Copy, Debug, PartialEq, Eq, Structural)]
pub struct SiteLoad {
    /// Workers of the site handling a firewall challenge.
    pub challenge_active: usize,
    /// Listings of the site in progress.
    pub active: usize,
    /// Directories of the site waiting to be listed.
    pub pending: usize,
}

/// Whether a site may start a listing.
pub open spec fn site_eligible(s: SiteLoad) -> bool {
    s.challenge_active == 0 && s.active < MAX_CONCURRENT_LISTINGS && s.pending > 0
}

/// The outcome of a round-robin pick.
#[derive(Clone, Copy, Debug, PartialEq, Eq, Structural)]
pub struct RoundRobinPick {
    /// The site chosen, if any.
    pub site: Option<usize>,
    /// Where the next search starts.
    pub next_index: usize,
}

/// Position `k` steps after `start` on a ring of `n` sites.
pub open spec fn ring_pos(start: int, k: int, n: int) -> int {
    (start % n + k) % n
}

proof fn lemma_ring_step(x: int, n: int)
    requires
        n > 0,
    ensures
        ((x % n) + 1) % n == (x + 1) % n,
{
    vstd::arithmetic::div_mod::lemma_add_mod_noop(x, 1, n);
    if n > 1 {
        vstd::arithmetic::div_mod::lemma_small_mod(1, n as nat);
    } else {
        assert(((x % n) + 1) % n == 0);
        assert((x + 1) % n == 0);
    }
}

/// The offset (from `k` on) of the first eligible site after `start`.
pub open spec fn first_eligible(sites: Seq<SiteLoad>, start: int, k: int) -> Option<int>
    decreases sites.len() - k,
{
    if k < 0 || k >= sites.len() {
        None
    } else if site_eligible(sites[ring_pos(start, k, sites.len() as int)]) {
        Some(k)
    } else {
        first_eligible(sites, start, k + 1)
    }
}

/// The site a round-robin search from `start` serves, if any.
pub open spec fn rr_choice(sites: Seq<SiteLoad>, start: int) -> Option<int> {
    match first_eligible(sites, start, 0) {
        Some(d) => Some(ring_pos(start, d, sites.len() as int)),
        None => None,
    }
}

/// Where the round-robin search after one from `start` begins.
pub open spec fn rr_next(sites: Seq<SiteLoad>, start: int) -> int {
    match rr_choice(sites, start) {
        Some(i) => (i + 1) % (sites.len() as int),
        None => start % (sites.len() as int),
    }
}

/// Round-robin choice among sites: starting at `start` (modulo the number of
/// sites), the first eligible site in cyclic order; the next search starts just
/// after it. When no site is eligible the start position is kept.
pub fn pick_round_robin(sites: &Vec<SiteLoad>, start: usize) -> (r: RoundRobinPick)
    requires
        sites@.len() > 0,
    ensures
        r.next_index < sites@.len(),
        r.site matches Some(i) ==> {
            &&& i < sites@.len()
            &&& site_eligible(sites@[i as int])
            &&& r.next_index as int == (i + 1) % (sites@.len() as int)
            &&& exists|d: int|
                0 <= d < sites@.len() && ring_pos(start as int, d, sites@.len() as int) == i
                    && forall|k: int|
                    0 <= k < d ==> !site_eligible(
                        #[trigger] sites@[ring_pos(start as int, k, sites@.len() as int)],
                    )
        },
        r.site is None ==> r.next_index as int == (start as int) % (sites@.len() as int) && forall|
            i: int,
        | 0 <= i < sites@.len() ==> !site_eligible(#[trigger] sites@[i]),
        r.site matches Some(i) ==> rr_choice(sites@, start as int) == Some(i as int),
        r.site is None ==> rr_choice(sites@, start as int) is None,
        r.next_index as int == rr_next(sites@, start as int),
{
    let n = sites.len();
    let first = start % n;
    let mut idx = first;
    let mut k: usize = 0;
    proof {
        vstd::arithmetic::div_mod::lemma_mod_twice(start as int, n as int);
    }
    while k < n
        invariant
            n == sites@.len(),
            n > 0,
            first as int == (start as int) % (n as int),
            k <= n,
            idx as int == ring_pos(start as int, k as int, n as int),
            forall|j: int|
                0 <= j < k ==> !site_eligible(#[trigger] sites@[ring_pos(start as int, j, n as int)]),
            first_eligible(sites@, start as int, 0) == first_eligible(sites@, start as int, k as int),
        decreases n - k,
    {
        let s = sites[idx];
        let next = if idx + 1 == n { 0 } else { idx + 1 };
        proof {
            if idx + 1 < n {
                vstd::arithmetic::div_mod::lemma_small_mod((idx + 1) as nat, n as nat);
            }
            assert(next as int == (idx + 1) % (n as int));
            lemma_ring_step(first + k, n as int);
            vstd::arithmetic::div_mod::lemma_mod_pos_bound(start as int, n as int);
        }
        if s.challenge_active == 0 && s.active < MAX_CONCURRENT_LISTINGS && s.pending > 0 {
            proof {
                assert(ring_pos(start as int, k as int, n as int) == idx);
            }
            return RoundRobinPick { site: Some(idx), next_index: next };
        }
        idx = next;
        k = k + 1;
    }
    proof {
        assert forall|i: int| 0 <= i < n implies !site_eligible(#[trigger] sites@[i]) by {
            let j = (i - first + n) % (n as int);
            assert((first + j) % (n as int) == i) by {
                vstd::arithmetic::div_mod::lemma_add_mod_noop(first as int, i - first + n, n as int);
                vstd::arithmetic::div_mod::lemma_small_mod(first as nat, n as nat);
                vstd::arithmetic::div_mod::lemma_mod_add_multiples_vanish(i, n as int);
                vstd::arithmetic::div_mod::lemma_small_mod(i as nat, n as nat);
            }
            assert(0 <= j < n);
            assert(ring_pos(start as int, j, n as int) == i);
        }
    }
    RoundRobinPick { site: None, next_index: first }
}

/// How many steps after `start` site `j` comes on a ring of `n` sites.
pub open spec fn ring_dist(start: int, j: int, n: int) -> int {
    (j - start % n + n) % n
}

proof fn lemma_mod_range(x: int, n: int)
    requires
        n > 0,
        0 <= x < 2 * n,
    ensures
        x % n == (if x < n { x } else { x - n }),
{
    if x < n {
        vstd::arithmetic::div_mod::lemma_small_mod(x as nat, n as nat);
    } else {
        vstd::arithmetic::div_mod::lemma_mod_add_multiples_vanish(x - n, n);
        vstd::arithmetic::div_mod::lemma_small_mod((x - n) as nat, n as nat);
    }
}

proof fn lemma_first_eligible_at_most(sites: Seq<SiteLoad>, start: int, k: int, d: int)
    requires
        0 <= k <= d < sites.len(),
        site_eligible(sites[ring_pos(start, d, sites.len() as int)]),
    ensures
        first_eligible(sites, start, k) matches Some(e) && k <= e <= d,
    decreases d - k,
{
    if !site_eligible(sites[ring_pos(start, k, sites.len() as int)]) {
        lemma_first_eligible_at_most(sites, start, k + 1, d);
    }
}

/// Round-robin progress: an eligible site that a tick passes over comes
/// strictly closer to the front of the next search.
pub proof fn lemma_round_robin_progress(sites: Seq<SiteLoad>, start: int, j: int)
    requires
        sites.len() > 0,
        start >= 0,
        0 <= j < sites.len(),
        site_eligible(sites[j]),
        rr_choice(sites, start) != Some(j),
    ensures
        rr_next(sites, start) >= 0,
        0 <= ring_dist(rr_next(sites, start), j, sites.len() as int) < ring_dist(start, j, sites.len() as int),
{
    let n = sites.len() as int;
    let s0 = start % n;
    vstd::arithmetic::div_mod::lemma_mod_pos_bound(start, n);
    let big_d = ring_dist(start, j, n);
    lemma_mod_range(j - s0 + n, n);
    assert(0 <= big_d < n);
    lemma_mod_range(s0 + big_d, n);
    assert(ring_pos(start, big_d, n) == j);
    lemma_first_eligible_at_most(sites, start, 0, big_d);
    let d = first_eligible(sites, start, 0)->0;
    assert(0 <= d <= big_d);
    lemma_mod_range(s0 + d, n);
    let i = ring_pos(start, d, n);
    assert(rr_choice(sites, start) == Some(i));
    assert(d != big_d);
    assert(0 <= i < n);
    lemma_mod_range(i + 1, n);
    let next = (i + 1) % n;
    assert(rr_next(sites, start) == next);
    assert(0 <= next < n);
    vstd::arithmetic::div_mod::lemma_small_mod(next as nat, n as nat);
    lemma_mod_range(j - next + n, n);
}

/// Round-robin fairness: over `n` consecutive ticks (each search starting
/// where the previous one said), a site that stays eligible throughout is
/// served at one of them, whatever the other sites do.
pub proof fn lemma_round_robin_serves_within_n(loads: Seq<Seq<SiteLoad>>, starts: Seq<int>, j: int)
    requires
        loads.len() > 0,
        starts.len() == loads.len(),
        loads.len() >= loads[0].len(),
        loads[0].len() > 0,
        0 <= j < loads[0].len(),
        starts[0] >= 0,
        forall|t: int| 0 <= t < loads.len() ==> (#[trigger] loads[t]).len() == loads[0].len(),
        forall|t: int| 0 <= t < loads.len() ==> site_eligible((#[trigger] loads[t])[j]),
        forall|t: int| 0 <= t < loads.len() - 1 ==> #[trigger] starts[t + 1] == rr_next(loads[t], starts[t]),
    ensures
        exists|t: int| 0 <= t < loads[0].len() && rr_choice(#[trigger] loads[t], starts[t]) == Some(j),
{
    let n = loads[0].len() as int;
    if forall|t: int| 0 <= t < n ==> rr_choice(#[trigger] loads[t], starts[t]) != Some(j) {
        lemma_round_robin_distance(loads, starts, j, n - 1);
        let last = n - 1;
        let s = starts[last];
        vstd::arithmetic::div_mod::lemma_mod_pos_bound(s, n);
        lemma_mod_range(j - s % n + n, n);
        assert(ring_dist(s, j, n) == 0);
        lemma_mod_range(s % n + 0, n);
        assert(ring_pos(s, 0, n) == j);
        assert(first_eligible(loads[last], s, 0) == Some(0int));
        assert(rr_choice(loads[last], s) == Some(j));
        assert(false);
    }
}

proof fn lemma_round_robin_distance(loads: Seq<Seq<SiteLoad>>, starts: Seq<int>, j: int, t: int)
    requires
        loads.len() > 0,
        starts.len() == loads.len(),
        loads[0].len() > 0,
        0 <= t < loads.len(),
        0 <= j < loads[0].len(),
        starts[0] >= 0,
        forall|u: int| 0 <= u < loads.len() ==> (#[trigger] loads[u]).len() == loads[0].len(),
        forall|u: int| 0 <= u < loads.len() ==> site_eligible((#[trigger] loads[u])[j]),
        forall|u: int| 0 <= u < loads.len() - 1 ==> #[trigger] starts[u + 1] == rr_next(loads[u], starts[u]),
        forall|u: int| 0 <= u < t ==> rr_choice(#[trigger] loads[u], starts[u]) != Some(j),
    ensures
        starts[t] >= 0,
        ring_dist(starts[t], j, loads[0].len() as int) <= ring_dist(starts[0], j, loads[0].len() as int) - t,
    decreases t,
{
    if t > 0 {
        let u = t - 1;
        lemma_round_robin_distance(loads, starts, j, u);
        assert(starts[u + 1] == rr_next(loads[u], starts[u]));
        lemma_round_robin_progress(loads[u], starts[u], j);
    }
}

/// What the multi-site crawl dispatcher does on a tick.
#[derive(Clone, Copy, Debug, PartialEq, Eq, Structural)]
pub enum MultiCrawlTick {
    /// Start listing the next pending directory of this site.
    Spawn(usize),
    /// Nothing to start now.
    Wait,
    /// The crawl is complete.
    Finish,
}

/// One tick of the multi-site crawl dispatcher: nothing starts while all
/// listing slots are busy; otherwise the next eligible site in round-robin
/// order is served; with none eligible, the crawl finishes once no site has
/// pending directories, nothing runs and no discovered directory is in flight.
/// Returns the decision and where the next round-robin search starts.
pub fn multi_crawl_tick(sites: &Vec<SiteLoad>, start: usize, active_total: usize, incoming_empty: bool) -> (r: (MultiCrawlTick, usize))
    requires
        sites@.len() > 0,
    ensures
        active_total >= MAX_CONCURRENT_LISTINGS ==> r == (MultiCrawlTick::Wait, start),
        active_total < MAX_CONCURRENT_LISTINGS ==> {
            &&& r.1 < sites@.len()
            &&& (r.0 matches MultiCrawlTick::Spawn(i) ==> i < sites@.len() && site_eligible(sites@[i as int])
                && r.1 as int == (i + 1) % (sites@.len() as int))
            &&& (!(r.0 is Spawn) ==> (forall|i: int| 0 <= i < sites@.len() ==> !site_eligible(#[trigger] sites@[i]))
                && r.1 as int == (start as int) % (sites@.len() as int))
            &&& (r.0 is Finish <==> (!(r.0 is Spawn) && (forall|i: int| 0 <= i < sites@.len() ==> (#[trigger] sites@[i]).pending == 0)
                && active_total == 0 && incoming_empty))
            &&& (r.0 matches MultiCrawlTick::Spawn(i) ==> rr_choice(sites@, start as int) == Some(i as int))
            &&& (r.0 is Spawn <==> rr_choice(sites@, start as int) is Some)
            &&& r.1 as int == rr_next(sites@, start as int)
        },
{
    if active_total >= MAX_CONCURRENT_LISTINGS {
        return (MultiCrawlTick::Wait, start);
    }
    let pick = pick_round_robin(sites, start);
    match pick.site {
        Some(i) => (MultiCrawlTick::Spawn(i), pick.next_index),
        None => {
            let n = sites.len();
            let mut any_pending = false;
            for k in 0..n
                invariant
                    n == sites@.len(),
                    any_pending == exists|j: int| 0 <= j < k && (#[trigger] sites@[j]).pending > 0,
            {
                if sites[k].pending > 0 {
                    any_pending = true;
                }
            }
            if !any_pending && active_total == 0 && incoming_empty {
                (MultiCrawlTick::Finish, pick.next_index)
            } else {
                (MultiCrawlTick::Wait, pick.next_index)
            }
        },
    }
}

/// The user agent of the browser window that solves a firewall challenge: the
/// site's, else the tool's own.
pub fn challenge_user_agent(user_agent: Option<&str>) -> (r: String)
    ensures
        r@ == (match user_agent {
            Some(u) => u@,
            None => default_user_agent(),
        }),
{
    match user_agent {
        Some(u) => u.to_string(),
        None => "olist-cdn-preheat/0.1 (Mozilla/5.0 compatible)".to_string(),
    }
}

/// The first directory of each site of a multi-site crawl (its start path), in
/// the sites' order; none when there is no site, as the crawl then ends at once
/// with no file.
pub fn multi_crawl_start(settings: &Vec<SiteSettings>) -> (r: Option<Vec<String>>)
    ensures
        settings@.len() == 0 <==> r is None,
        r matches Some(v) ==> v@.len() == settings@.len() && forall|i: int|
            0 <= i < v@.len() ==> (#[trigger] v@[i])@ == settings@[i].start_path@,
{
    if settings.len() == 0 {
        return None;
    }
    let mut v: Vec<String> = Vec::new();
    let n = settings.len();
    for i in 0..n
        invariant
            n == settings@.len(),
            v@.len() == i,
            forall|j: int| 0 <= j < i ==> (#[trigger] v@[j])@ == settings@[j].start_path@,
    {
        v.push(settings[i].start_path.clone());
    }
    Some(v)
}

/// Checks the address the challenge window opens: an `Invalid URL` error when
/// it does not parse as a URL, before any window is opened.
pub fn challenge_target(url: &str) -> (r: Result<(), AppError>)
    ensures
        url_parse_error(url@) is None ==> r is Ok,
        url_parse_error(url@) matches Some(m) ==> (r matches Err(AppError::Api(e)) && e@
            == "Invalid URL: "@ + m),
{
    match check_url(url) {
        Ok(()) => Ok(()),
        Err(m) => {
            let mut e = "Invalid URL: ".to_string();
            push_all(&mut e, m.as_str());
            Err(AppError::Api(e))
        },
    }
}

} // verus!
