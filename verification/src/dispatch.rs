//! The preheat dispatcher's queues: the pending files of a single-site run, the
//! per-site queues of a multi-site run, the pacing of new downloads, and the
//! finish condition.

use vstd::prelude::*;
use crate::models::{AppError, FileItem};
use crate::crawl::{tag_item, tagged};
use crate::text::push_all;
use std::collections::VecDeque;

verus! {

broadcast use vstd::string::group_string_axioms;

/// Milliseconds between two new downloads.
pub const SPAWN_INTERVAL_MS: u64 = 1000;

/// Milliseconds a run must stay idle before it finishes.
pub const IDLE_GRACE_MS: u64 = 2000;

/// Pacing of new downloads and detection of an idle run.
#[derive(Clone, Copy, Debug, PartialEq, Eq, Structural)]
pub struct SpawnPacer {
    /// Clock reading (milliseconds) of the last download started, if any.
    pub last_spawn_ms: Option<u64>,
    /// Clock reading since which the run has had nothing pending or running.
    pub idle_since_ms: Option<u64>,
}

/// Whether a new download may start at `now`: at most one per second.
pub open spec fn pacer_allows(p: SpawnPacer, now: u64) -> bool {
    match p.last_spawn_ms {
        Some(t) => now >= t && now - t >= SPAWN_INTERVAL_MS,
        None => true,
    }
}

impl SpawnPacer {
    /// A pacer that lets the first download start at once.
    pub fn new() -> (r: Self)
        ensures
            r.last_spawn_ms is None && r.idle_since_ms is None,
    {
        SpawnPacer { last_spawn_ms: None, idle_since_ms: None }
    }

    /// Whether a new download may start at `now`.
    pub fn allows(&self, now: u64) -> (r: bool)
        ensures
            r == pacer_allows(*self, now),
    {
        match self.last_spawn_ms {
            Some(t) => now >= t && now - t >= SPAWN_INTERVAL_MS,
            None => true,
        }
    }

    /// Records a download started at `now`.
    pub fn mark_spawned(&mut self, now: u64)
        ensures
            final(self).last_spawn_ms == Some(now),
            final(self).idle_since_ms == old(self).idle_since_ms,
    {
        self.last_spawn_ms = Some(now);
    }

    /// Records that at `now` nothing is pending or running: the idle period
    /// starts unless it already has.
    pub fn note_idle(&mut self, now: u64)
        ensures
            final(self).last_spawn_ms == old(self).last_spawn_ms,
            final(self).idle_since_ms == (match old(self).idle_since_ms {
                Some(t) => Some(t),
                None => Some(now),
            }),
    {
        if self.idle_since_ms.is_none() {
            self.idle_since_ms = Some(now);
        }
    }

    /// Records that there is work again: the idle period ends.
    pub fn note_busy(&mut self)
        ensures
            final(self).last_spawn_ms == old(self).last_spawn_ms,
            final(self).idle_since_ms is None,
    {
        self.idle_since_ms = None;
    }

    /// Whether the run may finish at `now`: idle for at least two seconds with
    /// no retried file on its way.
    pub fn idle_expired(&self, now: u64, incoming_empty: bool) -> (r: bool)
        ensures
            r == (self.idle_since_ms matches Some(t) && now >= t && now - t >= IDLE_GRACE_MS
                && incoming_empty),
    {
        match self.idle_since_ms {
            Some(t) => now >= t && now - t >= IDLE_GRACE_MS && incoming_empty,
            None => false,
        }
    }
}

/// The pending files of a single-site run, first to start at the front.
pub struct PreheatQueue {
    pub pending: VecDeque<FileItem>,
    pub pacer: SpawnPacer,
}

impl PreheatQueue {
    /// The queue of a run over `files`, in their order.
    pub fn new(files: Vec<FileItem>) -> (r: Self)
        ensures
            r.pending@ == files@,
            r.pacer.last_spawn_ms is None && r.pacer.idle_since_ms is None,
    {
        let mut pending: VecDeque<FileItem> = VecDeque::new();
        let mut files = files;
        let ghost all = files@;
        let mut rest: Vec<FileItem> = Vec::new();
        // Move the files out back to front, then push them in order.
        while files.len() > 0
            invariant
                all == files@ + rest@.reverse(),
            decreases files.len(),
        {
            let f = files.pop().unwrap();
            proof {
                assert(all =~= files@ + rest@.push(f).reverse());
            }
            rest.push(f);
        }
        assert(rest@.reverse() =~= all);
        while rest.len() > 0
            invariant
                pending@ + rest@.reverse() == all,
            decreases rest.len(),
        {
            let f = rest.pop().unwrap();
            proof {
                assert(rest@.push(f).reverse() =~= seq![f] + rest@.reverse());
            }
            pending.push_back(f);
            assert(pending@ + rest@.reverse() =~= all);
        }
        assert(pending@ =~= all);
        PreheatQueue { pending, pacer: SpawnPacer::new() }
    }

    /// A retried file: it goes to the front and ends any idle period.
    pub fn inject(&mut self, file: FileItem)
        ensures
            final(self).pending@ == seq![file] + old(self).pending@,
            final(self).pacer.idle_since_ms is None,
            final(self).pacer.last_spawn_ms == old(self).pacer.last_spawn_ms,
    {
        self.pending.push_front(file);
        self.pacer.note_busy();
    }

    /// The next file to download, if one may start now: fewer than `limit`
    /// downloads run, files are pending, no firewall challenge or cool-down
    /// blocks, a second has passed since the last start, and the run is not
    /// cancelled. The file leaves the queue.
    pub fn next_to_spawn(&mut self, active: usize, limit: usize, blocked: bool, cancelled: bool, now: u64) -> (r: Option<FileItem>)
        ensures
            final(self).pacer == old(self).pacer,
            (active < limit && old(self).pending@.len() > 0 && !blocked && pacer_allows(
                old(self).pacer,
                now,
            ) && !cancelled) ==> (r == Some(old(self).pending@[0]) && final(self).pending@ == old(
                self,
            ).pending@.drop_first()),
            !(active < limit && old(self).pending@.len() > 0 && !blocked && pacer_allows(
                old(self).pacer,
                now,
            ) && !cancelled) ==> (r is None && final(self).pending@ == old(self).pending@),
    {
        if active < limit && self.pending.len() > 0 && !blocked && self.pacer.allows(now) && !cancelled {
            self.pending.pop_front()
        } else {
            None
        }
    }

    /// Puts back a file that could not start (no connection permit).
    pub fn put_back(&mut self, file: FileItem)
        ensures
            final(self).pending@ == seq![file] + old(self).pending@,
            final(self).pacer == old(self).pacer,
    {
        self.pending.push_front(file);
    }
}

/// Sites of a multi-site run, in order of first appearance, without repeats.
pub open spec fn distinct_ids(ids: Seq<Seq<char>>) -> Seq<Seq<char>>
    decreases ids.len(),
{
    if ids.len() == 0 {
        Seq::empty()
    } else {
        let d = distinct_ids(ids.drop_last());
        if d.contains(ids.last()) { d } else { d.push(ids.last()) }
    }
}

/// The views of a list of strings.
pub open spec fn id_views(v: Seq<String>) -> Seq<Seq<char>> {
    v.map_values(|s: String| s@)
}

/// The site a file belongs to: its own id, or the run's only site when it has
/// none.
pub open spec fn resolved_site(f: FileItem, default_site: Option<String>) -> Seq<char> {
    if f.site_id@.len() == 0 && default_site is Some {
        default_site->0@
    } else {
        f.site_id@
    }
}

/// The file as queued: carrying the site it resolved to.
pub open spec fn routed(f: FileItem, default_site: Option<String>) -> FileItem {
    if f.site_id@.len() == 0 && default_site is Some {
        tagged(f, default_site->0)
    } else {
        f
    }
}

/// The files of `files` that resolve to site `id`, in order.
pub open spec fn queue_for(files: Seq<FileItem>, id: Seq<char>, default_site: Option<String>) -> Seq<FileItem>
    decreases files.len(),
{
    if files.len() == 0 {
        Seq::empty()
    } else {
        let q = queue_for(files.drop_last(), id, default_site);
        if resolved_site(files.last(), default_site) == id {
            q.push(routed(files.last(), default_site))
        } else {
            q
        }
    }
}

/// Routing a file changes nothing but its site: a file without a site takes
/// the run's only site (when there is one); every other field, the requeue
/// count among them, is kept.
pub proof fn lemma_routing_keeps_file(f: FileItem, default_site: Option<String>)
    ensures
        routed(f, default_site) == (FileItem {
            site_id: if f.site_id@.len() == 0 && default_site is Some {
                default_site->0
            } else {
                f.site_id
            },
            ..f
        }),
        routed(f, default_site).retries == f.retries,
        routed(f, default_site).site_id@ == resolved_site(f, default_site),
{
}

/// A site's queue holds exactly the files of the run that resolve to that
/// site, each as routed (so with its requeue count): every entry comes from a
/// file of the site, and every such file has an entry.
pub proof fn lemma_queue_holds_site_files(files: Seq<FileItem>, id: Seq<char>, default_site: Option<String>)
    ensures
        forall|k: int|
            #![trigger queue_for(files, id, default_site)[k]]
            0 <= k < queue_for(files, id, default_site).len() ==> exists|i: int|
                #![trigger files[i]]
                0 <= i < files.len() && resolved_site(files[i], default_site) == id
                    && queue_for(files, id, default_site)[k] == routed(files[i], default_site),
        forall|i: int|
            0 <= i < files.len() && resolved_site(#[trigger] files[i], default_site) == id
                ==> queue_for(files, id, default_site).contains(routed(files[i], default_site)),
    decreases files.len(),
{
    if files.len() > 0 {
        let front = files.drop_last();
        let last = files.last();
        lemma_queue_holds_site_files(front, id, default_site);
        let q0 = queue_for(front, id, default_site);
        let q = queue_for(files, id, default_site);
        if resolved_site(last, default_site) == id {
            assert(q == q0.push(routed(last, default_site)));
        } else {
            assert(q == q0);
        }
        assert forall|k: int| #![trigger q[k]] 0 <= k < q.len() implies exists|i: int|
            #![trigger files[i]]
            0 <= i < files.len() && resolved_site(files[i], default_site) == id && q[k] == routed(
                files[i],
                default_site,
            ) by {
            if resolved_site(last, default_site) == id && k == q0.len() {
                assert(files[files.len() - 1] == last);
            } else {
                assert(q[k] == q0[k]);
                let i = choose|i: int|
                    #![trigger front[i]]
                    0 <= i < front.len() && resolved_site(front[i], default_site) == id && q0[k]
                        == routed(front[i], default_site);
                assert(files[i] == front[i]);
            }
        }
        assert forall|i: int|
            0 <= i < files.len() && resolved_site(#[trigger] files[i], default_site) == id implies q.contains(
            routed(files[i], default_site),
        ) by {
            if i < files.len() - 1 {
                assert(files[i] == front[i]);
                assert(q0.contains(routed(front[i], default_site)));
                let k = choose|k: int| 0 <= k < q0.len() && q0[k] == routed(front[i], default_site);
                assert(q[k] == q0[k]);
            } else {
                assert(files[i] == last);
                assert(q[q0.len() as int] == routed(last, default_site));
            }
        }
    }
}

/// Whether a file can be queued: it resolves to a site of the run.
pub open spec fn routable(f: FileItem, ids: Seq<Seq<char>>, default_site: Option<String>) -> bool {
    resolved_site(f, default_site).len() > 0 && ids.contains(resolved_site(f, default_site))
}

/// The message of a multi-site run given a file with no site.
pub open spec fn missing_site_message() -> Seq<char> {
    "多站点运行需要每个文件都带有 siteId"@
}

/// The message of a multi-site run given a file of an unknown site.
pub open spec fn unknown_site_message(id: Seq<char>) -> Seq<char> {
    "未知 siteId: "@ + id
}

/// The message a run over `files` fails with: that of the first file that
/// resolves to no site or to an unknown one.
pub open spec fn first_routing_error(files: Seq<FileItem>, ids: Seq<Seq<char>>, default_site: Option<String>) -> Option<Seq<char>>
    decreases files.len(),
{
    if files.len() == 0 {
        None
    } else {
        let f = files[0];
        let s = resolved_site(f, default_site);
        if s.len() == 0 {
            Some(missing_site_message())
        } else if !ids.contains(s) {
            Some(unknown_site_message(s))
        } else {
            first_routing_error(files.drop_first(), ids, default_site)
        }
    }
}

/// The per-site queues of a multi-site run.
pub struct SiteQueues {
    /// The sites, in order of first appearance, without repeats.
    pub ids: Vec<String>,
    /// `queues[i]` holds the pending files of `ids[i]`, first to start at the
    /// front.
    pub queues: Vec<VecDeque<FileItem>>,
    /// The site a file without one belongs to: the only site of a single-site
    /// list.
    pub default_site: Option<String>,
    pub pacer: SpawnPacer,
}

/// The run's only site, when the list names exactly one.
pub open spec fn default_site_of(site_ids: Seq<String>) -> Option<String> {
    if site_ids.len() == 1 { Some(site_ids[0]) } else { None }
}

fn index_of(ids: &Vec<String>, id: &String) -> (r: Option<usize>)
    ensures
        r matches Some(k) ==> k < ids@.len() && ids@[k as int]@ == id@,
        r is None ==> !id_views(ids@).contains(id@),
{
    let n = ids.len();
    for k in 0..n
        invariant
            n == ids@.len(),
            forall|j: int| 0 <= j < k ==> ids@[j]@ != id@,
    {
        if ids[k] == *id {
            return Some(k);
        }
    }
    proof {
        if id_views(ids@).contains(id@) {
            let j = choose|j: int| 0 <= j < id_views(ids@).len() && id_views(ids@)[j] == id@;
            assert(ids@[j]@ == id@);
        }
    }
    None
}

proof fn lemma_queue_for_prefix(files: Seq<FileItem>, i: int, id: Seq<char>, d: Option<String>)
    requires
        0 <= i < files.len(),
    ensures
        queue_for(files.take(i + 1), id, d) == (if resolved_site(files[i], d) == id {
            queue_for(files.take(i), id, d).push(routed(files[i], d))
        } else {
            queue_for(files.take(i), id, d)
        }),
{
    assert(files.take(i + 1).drop_last() =~= files.take(i));
    assert(files.take(i + 1).last() == files[i]);
}

proof fn lemma_routing_error_prefix(files: Seq<FileItem>, i: int, ids: Seq<Seq<char>>, d: Option<String>)
    requires
        0 <= i <= files.len(),
        forall|j: int| 0 <= j < i ==> routable(#[trigger] files[j], ids, d),
    ensures
        first_routing_error(files, ids, d) == first_routing_error(files.skip(i), ids, d),
    decreases i,
{
    if i > 0 {
        assert(routable(files[0], ids, d));
        lemma_routing_error_prefix(files.drop_first(), i - 1, ids, d);
        assert(files.drop_first().skip(i - 1) =~= files.skip(i));
        assert forall|j: int| 0 <= j < i - 1 implies routable(#[trigger] files.drop_first()[j], ids, d) by {
            assert(files.drop_first()[j] == files[j + 1]);
        }
    } else {
        assert(files.skip(0) =~= files);
    }
}

/// `q` holds the queues of a run over `site_ids` and `files`: each site once,
/// in order of first appearance, with its files in their order, and a fresh
/// pacer.
pub open spec fn queues_built(q: SiteQueues, site_ids: Seq<String>, files: Seq<FileItem>) -> bool {
    &&& id_views(q.ids@) == distinct_ids(id_views(site_ids))
    &&& q.queues@.len() == q.ids@.len()
    &&& q.default_site == default_site_of(site_ids)
    &&& q.pacer.last_spawn_ms is None && q.pacer.idle_since_ms is None
    &&& forall|k: int|
        0 <= k < q.queues@.len() ==> (#[trigger] q.queues@[k])@ == queue_for(
            files,
            q.ids@[k]@,
            default_site_of(site_ids),
        )
}

impl SiteQueues {
    /// Sorts the files of a multi-site run into per-site queues, keeping their
    /// order. A file without a site goes to the run's only site when there is
    /// one; the run is refused at the first file that resolves to no site or to
    /// a site not in the list.
    pub fn build(site_ids: &Vec<String>, files: &Vec<FileItem>) -> (r: Result<Self, AppError>)
        ensures
            first_routing_error(files@, id_views(site_ids@), default_site_of(site_ids@)) matches Some(m)
                ==> (r matches Err(AppError::Api(e)) && e@ == m),
            first_routing_error(files@, id_views(site_ids@), default_site_of(site_ids@)) is None ==> (
            r matches Ok(q) && queues_built(q, site_ids@, files@)),
    {
        let default_site: Option<String> = if site_ids.len() == 1 {
            Some(site_ids[0].clone())
        } else {
            None
        };
        proof {
            assert(default_site == default_site_of(site_ids@));
        }
        // Distinct site ids, in order of first appearance.
        let mut ids: Vec<String> = Vec::new();
        let m = site_ids.len();
        for i in 0..m
            invariant
                m == site_ids@.len(),
                id_views(ids@) == distinct_ids(id_views(site_ids@.take(i as int))),
        {
            assert(id_views(site_ids@.take(i + 1)).drop_last() =~= id_views(site_ids@.take(i as int)));
            assert(id_views(site_ids@.take(i + 1)).last() == site_ids@[i as int]@);
            match index_of(&ids, &site_ids[i]) {
                Some(k) => {
                    assert(id_views(ids@)[k as int] == site_ids@[i as int]@);
                },
                None => {
                    ids.push(site_ids[i].clone());
                    assert(id_views(ids@) =~= distinct_ids(id_views(site_ids@.take(i as int))).push(site_ids@[i as int]@));
                },
            }
        }
        assert(site_ids@.take(m as int) =~= site_ids@);
        let ghost all_ids = id_views(site_ids@);
        proof {
            lemma_distinct_ids_same_members(all_ids);
        }
        // Check every file, in order.
        let n = files.len();
        for i in 0..n
            invariant
                n == files@.len(),
                default_site == default_site_of(site_ids@),
                id_views(ids@) == distinct_ids(all_ids),
                all_ids == id_views(site_ids@),
                forall|s: Seq<char>| all_ids.contains(s) <==> distinct_ids(all_ids).contains(s),
                forall|j: int| 0 <= j < i ==> routable(#[trigger] files@[j], all_ids, default_site),
        {
            let f = &files[i];
            let site: &String = if f.site_id.as_str().is_empty() && default_site.is_some() {
                default_site.as_ref().unwrap()
            } else {
                &f.site_id
            };
            assert(site@ == resolved_site(files@[i as int], default_site));
            proof {
                lemma_routing_error_prefix(files@, i as int, all_ids, default_site);
                assert(files@.skip(i as int)[0] == files@[i as int]);
                assert(files@.skip(i as int).drop_first() =~= files@.skip(i + 1));
            }
            if site.as_str().is_empty() {
                return Err(AppError::Api("多站点运行需要每个文件都带有 siteId".to_string()));
            }
            match index_of(&ids, site) {
                Some(k) => {
                    assert(id_views(ids@)[k as int] == site@);
                    assert(distinct_ids(all_ids).contains(site@));
                },
                None => {
                    let mut msg = "未知 siteId: ".to_string();
                    push_all(&mut msg, site.as_str());
                    return Err(AppError::Api(msg));
                },
            }
        }
        proof {
            lemma_routing_error_prefix(files@, n as int, all_ids, default_site);
            assert(files@.skip(n as int) =~= Seq::<FileItem>::empty());
        }
        // Fill the queues, one site at a time.
        let mut queues: Vec<VecDeque<FileItem>> = Vec::new();
        let k_count = ids.len();
        for k in 0..k_count
            invariant
                k_count == ids@.len(),
                n == files@.len(),
                queues@.len() == k,
                forall|j: int| 0 <= j < k ==> (#[trigger] queues@[j])@ == queue_for(files@, ids@[j]@, default_site),
        {
            let mut q: VecDeque<FileItem> = VecDeque::new();
            let id = &ids[k];
            for i in 0..n
                invariant
                    n == files@.len(),
                    k < ids@.len(),
                    *id == ids@[k as int],
                    q@ == queue_for(files@.take(i as int), id@, default_site),
            {
                let f = &files[i];
                proof {
                    lemma_queue_for_prefix(files@, i as int, id@, default_site);
                }
                if f.site_id.as_str().is_empty() && default_site.is_some() {
                    let d = default_site.as_ref().unwrap();
                    if *d == *id {
                        q.push_back(tag_item(f, d));
                    }
                } else if f.site_id == *id {
                    q.push_back(tag_item(f, &f.site_id));
                    proof {
                        assert(tagged(*f, f.site_id) =~= *f);
                    }
                }
            }
            assert(files@.take(n as int) =~= files@);
            queues.push(q);
        }
        Ok(SiteQueues { ids, queues, default_site, pacer: SpawnPacer::new() })
    }

    /// The queues of a multi-site run, or none when the run names no site (it
    /// then has nothing to do and ends at once).
    pub fn plan(site_ids: &Vec<String>, files: &Vec<FileItem>) -> (r: Result<Option<Self>, AppError>)
        ensures
            site_ids@.len() == 0 ==> r matches Ok(None),
            site_ids@.len() > 0 ==> (first_routing_error(
                files@,
                id_views(site_ids@),
                default_site_of(site_ids@),
            ) matches Some(m) ==> (r matches Err(AppError::Api(e)) && e@ == m)),
            site_ids@.len() > 0 && first_routing_error(
                files@,
                id_views(site_ids@),
                default_site_of(site_ids@),
            ) is None ==> (r matches Ok(Some(q)) && queues_built(q, site_ids@, files@)),
    {
        if site_ids.len() == 0 {
            return Ok(None);
        }
        match Self::build(site_ids, files) {
            Ok(q) => Ok(Some(q)),
            Err(e) => Err(e),
        }
    }
}

proof fn lemma_distinct_ids_same_members(ids: Seq<Seq<char>>)
    ensures
        forall|s: Seq<char>| ids.contains(s) <==> distinct_ids(ids).contains(s),
    decreases ids.len(),
{
    if ids.len() > 0 {
        let front = ids.drop_last();
        let last = ids.last();
        let d = distinct_ids(front);
        lemma_distinct_ids_same_members(front);
        assert forall|s: Seq<char>| ids.contains(s) <==> (front.contains(s) || s == last) by {
            if ids.contains(s) {
                let j = choose|j: int| 0 <= j < ids.len() && ids[j] == s;
                if j < ids.len() - 1 {
                    assert(front[j] == s);
                }
            }
            if front.contains(s) {
                let j = choose|j: int| 0 <= j < front.len() && front[j] == s;
                assert(ids[j] == s);
            }
            if s == last {
                assert(ids[ids.len() - 1] == s);
            }
        }
        assert forall|s: Seq<char>| ids.contains(s) <==> distinct_ids(ids).contains(s) by {
            if d.contains(last) {
                assert(distinct_ids(ids) == d);
            } else {
                assert(distinct_ids(ids) == d.push(last));
                if d.push(last).contains(s) {
                    let j = choose|j: int| 0 <= j < d.push(last).len() && d.push(last)[j] == s;
                    if j < d.len() {
                        assert(d[j] == s);
                    }
                }
                if d.contains(s) {
                    let j = choose|j: int| 0 <= j < d.len() && d[j] == s;
                    assert(d.push(last)[j] == s);
                }
                if s == last {
                    assert(d.push(last)[d.len() as int] == s);
                }
            }
        }
    }
}

/// Whether site `i` is the one to serve next: not blocked, with files pending,
/// holding at least as many as any unblocked site and more than any unblocked
/// site before it.
pub open spec fn is_busiest(lens: Seq<nat>, blocked: Seq<bool>, i: int) -> bool {
    &&& 0 <= i < lens.len()
    &&& !blocked[i]
    &&& lens[i] > 0
    &&& forall|j: int| 0 <= j < lens.len() && !blocked[j] ==> #[trigger] lens[j] <= lens[i]
    &&& forall|j: int| 0 <= j < i && !blocked[j] ==> #[trigger] lens[j] < lens[i]
}

/// Load balancing: the unblocked site with the most pending files (the first
/// such site on a tie), or none when no unblocked site has any.
pub fn pick_busiest(lens: &Vec<usize>, blocked: &Vec<bool>) -> (r: Option<usize>)
    requires
        lens@.len() == blocked@.len(),
    ensures
        r matches Some(i) ==> is_busiest(lens@.map_values(|l: usize| l as nat), blocked@, i as int),
        r is None ==> forall|j: int| 0 <= j < lens@.len() && !blocked@[j] ==> #[trigger] lens@[j] == 0,
{
    let ghost lv = lens@.map_values(|l: usize| l as nat);
    let n = lens.len();
    let mut best: Option<usize> = None;
    let mut best_len: usize = 0;
    for k in 0..n
        invariant
            n == lens@.len(),
            n == blocked@.len(),
            lv == lens@.map_values(|l: usize| l as nat),
            best is None ==> best_len == 0,
            best matches Some(i) ==> i < k && best_len == lens@[i as int] && best_len > 0
                && !blocked@[i as int] && forall|j: int| 0 <= j < i && !blocked@[j] ==> #[trigger] lens@[j] < best_len,
            forall|j: int| 0 <= j < k && !blocked@[j] ==> #[trigger] lens@[j] <= best_len,
    {
        if !blocked[k] && lens[k] > best_len {
            best = Some(k);
            best_len = lens[k];
        }
    }
    proof {
        if best is Some {
            let i = best->0 as int;
            assert forall|j: int| 0 <= j < lv.len() && !blocked@[j] implies #[trigger] lv[j] <= lv[i] by {
                assert(lens@[j] <= best_len);
            }
            assert forall|j: int| 0 <= j < i && !blocked@[j] implies #[trigger] lv[j] < lv[i] by {
                assert(lens@[j] < best_len);
            }
        }
    }
    best
}

/// The number of pending files of each site.
pub open spec fn queue_lens(queues: Seq<VecDeque<FileItem>>) -> Seq<nat> {
    queues.map_values(|q: VecDeque<FileItem>| q@.len())
}

impl SiteQueues {
    /// The queues' contents.
    pub open spec fn contents(&self) -> Seq<Seq<FileItem>> {
        self.queues@.map_values(|q: VecDeque<FileItem>| q@)
    }

    /// Whether any site has files pending.
    pub fn has_pending(&self) -> (r: bool)
        ensures
            r == exists|k: int| 0 <= k < self.queues@.len() && (#[trigger] self.queues@[k])@.len() > 0,
    {
        let n = self.queues.len();
        for k in 0..n
            invariant
                n == self.queues@.len(),
                forall|j: int| 0 <= j < k ==> (#[trigger] self.queues@[j])@.len() == 0,
        {
            if self.queues[k].len() > 0 {
                return true;
            }
        }
        false
    }

    /// A retried file: it goes to the front of its site's queue (a file without a
    /// site goes to the run's only site). A file of no site is dropped; one of a
    /// site not in the run is dropped too, as no queue of the run will serve it.
    /// Returns whether the file was queued.
    pub fn inject(&mut self, file: FileItem) -> (queued: bool)
        requires
            old(self).queues@.len() == old(self).ids@.len(),
        ensures
            final(self).ids == old(self).ids,
            final(self).default_site == old(self).default_site,
            final(self).queues@.len() == old(self).queues@.len(),
            final(self).pacer.last_spawn_ms == old(self).pacer.last_spawn_ms,
            resolved_site(file, old(self).default_site).len() > 0 ==> final(self).pacer.idle_since_ms is None,
            resolved_site(file, old(self).default_site).len() == 0 ==> final(self).pacer == old(self).pacer,
            queued == (resolved_site(file, old(self).default_site).len() > 0 && id_views(old(self).ids@).contains(
                resolved_site(file, old(self).default_site),
            )),
            queued ==> exists|k: int|
                0 <= k < old(self).ids@.len() && old(self).ids@[k]@ == resolved_site(file, old(self).default_site)
                    && final(self).queues@[k]@ == seq![routed(file, old(self).default_site)] + old(self).queues@[k]@
                    && forall|j: int| 0 <= j < old(self).queues@.len() && j != k ==> final(self).queues@[j] == old(self).queues@[j],
            !queued ==> final(self).queues@ == old(self).queues@,
    {
        let f = if file.site_id.as_str().is_empty() && self.default_site.is_some() {
            let d = self.default_site.as_ref().unwrap();
            tag_item(&file, d)
        } else {
            file
        };
        if f.site_id.as_str().is_empty() {
            return false;
        }
        self.pacer.note_busy();
        match index_of(&self.ids, &f.site_id) {
            Some(k) => {
                let mut q: VecDeque<FileItem> = VecDeque::new();
                std::mem::swap(&mut q, &mut self.queues[k]);
                q.push_front(f);
                self.queues.set(k, q);
                assert(id_views(self.ids@)[k as int] == resolved_site(file, self.default_site));
                true
            },
            None => false,
        }
    }

    /// The next file to download and its site's index, if one may start now:
    /// fewer than `limit` downloads run, a second has passed since the last
    /// start, the run is not cancelled, and an unblocked site has files; the
    /// busiest such site is served and the file leaves its queue.
    pub fn next_to_spawn(&mut self, active: usize, limit: usize, blocked: &Vec<bool>, cancelled: bool, now: u64) -> (r: Option<(usize, FileItem)>)
        requires
            blocked@.len() == old(self).queues@.len(),
        ensures
            final(self).ids == old(self).ids,
            final(self).default_site == old(self).default_site,
            final(self).pacer == old(self).pacer,
            final(self).queues@.len() == old(self).queues@.len(),
            !(active < limit && pacer_allows(old(self).pacer, now) && !cancelled) ==> r is None && final(self).queues@ == old(self).queues@,
            r is None ==> final(self).queues@ == old(self).queues@,
            (active < limit && pacer_allows(old(self).pacer, now) && !cancelled && exists|j: int|
                0 <= j < old(self).queues@.len() && !blocked@[j] && (#[trigger] old(self).queues@[j])@.len() > 0) ==> r is Some,
            r matches Some((k, f)) ==> {
                &&& is_busiest(queue_lens(old(self).queues@), blocked@, k as int)
                &&& f == old(self).queues@[k as int]@[0]
                &&& final(self).queues@[k as int]@ == old(self).queues@[k as int]@.drop_first()
                &&& forall|j: int| 0 <= j < old(self).queues@.len() && j != k ==> final(self).queues@[j] == old(self).queues@[j]
            },
    {
        if !(active < limit && self.pacer.allows(now) && !cancelled) {
            return None;
        }
        let n = self.queues.len();
        let mut lens: Vec<usize> = Vec::new();
        for k in 0..n
            invariant
                n == self.queues@.len(),
                lens@.len() == k,
                forall|j: int| 0 <= j < k ==> lens@[j] == (#[trigger] self.queues@[j])@.len(),
        {
            lens.push(self.queues[k].len());
        }
        proof {
            assert(lens@.map_values(|l: usize| l as nat) =~= queue_lens(self.queues@));
        }
        match pick_busiest(&lens, blocked) {
            None => {
                proof {
                    assert forall|j: int| 0 <= j < old(self).queues@.len() && !blocked@[j] implies (#[trigger] old(self).queues@[j])@.len() == 0 by {
                        assert(lens@[j] == 0);
                    }
                }
                None
            },
            Some(k) => {
                let mut q: VecDeque<FileItem> = VecDeque::new();
                std::mem::swap(&mut q, &mut self.queues[k]);
                let f = q.pop_front();
                self.queues.set(k, q);
                match f {
                    Some(f) => Some((k, f)),
                    None => None,
                }
            },
        }
    }

    /// Puts back at the front of site `k`'s queue a file that could not start.
    pub fn put_back(&mut self, k: usize, file: FileItem)
        requires
            k < old(self).queues@.len(),
        ensures
            final(self).ids == old(self).ids,
            final(self).default_site == old(self).default_site,
            final(self).pacer == old(self).pacer,
            final(self).queues@.len() == old(self).queues@.len(),
            final(self).queues@[k as int]@ == seq![file] + old(self).queues@[k as int]@,
            forall|j: int| 0 <= j < old(self).queues@.len() && j != k ==> final(self).queues@[j] == old(self).queues@[j],
    {
        let mut q: VecDeque<FileItem> = VecDeque::new();
        std::mem::swap(&mut q, &mut self.queues[k]);
        q.push_front(file);
        self.queues.set(k, q);
    }
}

/// A file taken from the front of a queue to start, and put back because it
/// could not start, leaves the queue as it was.
pub proof fn lemma_put_back_undoes_take(pending: Seq<FileItem>)
    requires
        pending.len() > 0,
    ensures
        seq![pending[0]] + pending.drop_first() == pending,
{
    assert(seq![pending[0]] + pending.drop_first() =~= pending);
}

/// A file sent back to a queue starts before every file already pending: it
/// is the next one taken, and the files taken after it are the pending ones,
/// in their order.
pub proof fn lemma_injected_starts_first(g: FileItem, pending: Seq<FileItem>)
    ensures
        (seq![g] + pending)[0] == g,
        (seq![g] + pending).drop_first() == pending,
{
    assert((seq![g] + pending).drop_first() =~= pending);
}

/// Each start of a run was allowed by the pacer holding the start before it.
pub open spec fn paced(starts: Seq<u64>) -> bool {
    forall|k: int|
        1 <= k < starts.len() ==> pacer_allows(
            SpawnPacer { last_spawn_ms: Some(starts[k - 1]), idle_since_ms: None },
            #[trigger] starts[k],
        )
}

/// Download starts are spaced over a whole run: when every start was allowed by
/// the pacer that recorded the start before it, any two starts `i < j` are at
/// least `j - i` seconds apart.
pub proof fn lemma_starts_spaced(starts: Seq<u64>, i: int, j: int)
    requires
        paced(starts),
        0 <= i <= j < starts.len(),
    ensures
        starts[j] >= starts[i] + (j - i) * SPAWN_INTERVAL_MS,
    decreases j - i,
{
    if i < j {
        lemma_starts_spaced(starts, i, j - 1);
        assert(pacer_allows(
            SpawnPacer { last_spawn_ms: Some(starts[j - 1]), idle_since_ms: None },
            starts[j],
        ));
    }
}

/// What `retry_files` does with files to retry.
#[derive(Clone, Copy, Debug, PartialEq, Eq, Structural)]
pub enum RetryPlan {
    /// Send them to the running run.
    Enqueue,
    /// Start a new multi-site run with the saved site list.
    RestartMulti,
    /// Start a new single-site run with the saved site settings.
    RestartSingle,
    /// Refuse: there is no run and no saved settings.
    Reject,
}

/// Retried files go to the running run when there is one; otherwise a new run
/// starts, multi-site when a site list was saved, else single-site when site
/// settings were saved; with neither, the retry is refused.
pub fn plan_retry(run_active: bool, saved_site_list: bool, saved_site: bool) -> (r: RetryPlan)
    ensures
        run_active ==> r == RetryPlan::Enqueue,
        !run_active && saved_site_list ==> r == RetryPlan::RestartMulti,
        !run_active && !saved_site_list && saved_site ==> r == RetryPlan::RestartSingle,
        !run_active && !saved_site_list && !saved_site ==> r == RetryPlan::Reject,
{
    if run_active {
        RetryPlan::Enqueue
    } else if saved_site_list {
        RetryPlan::RestartMulti
    } else if saved_site {
        RetryPlan::RestartSingle
    } else {
        RetryPlan::Reject
    }
}

/// The error of a retry refused for lack of a run and of saved settings.
pub fn retry_rejected_error() -> (r: AppError)
    ensures
        r matches AppError::Api(m) && m@ == "当前没有运行中的任务，且未保存站点设置。请点击“开始”重新启动一次运行。"@,
{
    AppError::Api("当前没有运行中的任务，且未保存站点设置。请点击“开始”重新启动一次运行。".to_string())
}

/// The error of a retry whose run ended while the files were being sent.
pub fn retry_send_failed_error() -> (r: AppError)
    ensures
        r matches AppError::Api(m) && m@ == "重试任务发送失败：后台任务已结束或通道已关闭"@,
{
    AppError::Api("重试任务发送失败：后台任务已结束或通道已关闭".to_string())
}

} // verus!
