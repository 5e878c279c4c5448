//! Route analytics: the per-path hit and status counters that every response
//! updates, which requests are left out, and the summary the admin panel
//! shows.

use crate::text::{ends_with, starts_with};
use std::collections::HashMap;
use vstd::prelude::*;
use vstd::string::*;

verus! {

broadcast use vstd::std_specs::hash::group_hash_axioms;

/// Whether mime_guess knows a media type for the extension of `path`.
pub uninterp spec fn mime_type_known(path: Seq<char>) -> bool;

/// Calls mime_guess's `from_path` and asks whether the guess is non-empty.
/// Claimed: the answer depends on the path alone (the crate looks only at its
/// extension, without touching the disk); what it is, is only named.
#[verifier::external_body]
fn guess_mime_known(path: &str) -> (r: bool)
    ensures
        r == mime_type_known(path@),
{
    !mime_guess::from_path(path).is_empty()
}

/// Collected stats for one path: hits, and hits per response status.
#[derive(Debug)]
pub struct RouteStats {
    pub path: String,
    pub hits: i64,
    pub statuses: HashMap<u16, u64>,
}

/// `counts` after one more response with `status`.
pub open spec fn bump_status(counts: Map<u16, u64>, status: u16) -> Map<u16, u64> {
    counts.insert(
        status,
        if counts.contains_key(status) { (counts[status] + 1) as u64 } else { 1 },
    )
}

/// Whether a path names a static asset rather than a page.
pub open spec fn is_asset(path: Seq<char>) -> bool {
    mime_type_known(path) || (".webmanifest"@.len() <= path.len() && path.subrange(
        path.len() - ".webmanifest"@.len(),
        path.len() as int,
    ) == ".webmanifest"@)
}

/// Whether the path names a static asset: it has a known media type, or is
/// a web manifest.
pub fn is_asset_path(path: &str) -> (r: bool)
    ensures
        r == is_asset(path@),
{
    guess_mime_known(path) || ends_with(path, ".webmanifest")
}

/// Adds a response with `status` to the stats of a path. Stats already stored
/// are updated; a path without stats gets new ones unless the response was
/// filtered out. Returns the stats to store, `None` when nothing is stored.
pub fn record_response(existing: Option<RouteStats>, path: String, status: u16, filtered: bool) -> (r: Option<RouteStats>)
    requires
        existing matches Some(s) ==> s.hits < i64::MAX && (s.statuses@.contains_key(status)
            ==> s.statuses@[status] < u64::MAX),
    ensures
        match existing {
            Some(s) => r matches Some(n) && n.path == s.path && n.hits == s.hits + 1 && n.statuses@
                == bump_status(s.statuses@, status),
            None => if filtered {
                r is None
            } else {
                r matches Some(n) && n.path == path && n.hits == 1 && n.statuses@ == bump_status(
                    Map::empty(),
                    status,
                )
            },
        },
{
    match existing {
        Some(mut stats) => {
            stats.hits = stats.hits + 1;
            let count = match stats.statuses.get(&status) {
                Some(c) => *c + 1,
                None => 1,
            };
            stats.statuses.insert(status, count);
            Some(stats)
        },
        None => {
            if filtered {
                None
            } else {
                let mut statuses: HashMap<u16, u64> = HashMap::new();
                statuses.insert(status, 1);
                Some(RouteStats { path, hits: 1, statuses })
            }
        },
    }
}

/// The responses counted in `counts` with a status below `k`.
pub open spec fn status_total_below(counts: Map<u16, u64>, k: int) -> int
    decreases k,
{
    if k <= 0 {
        0
    } else {
        status_total_below(counts, k - 1) + if counts.contains_key((k - 1) as u16) {
            counts[(k - 1) as u16] as int
        } else {
            0
        }
    }
}

/// All the responses counted in `counts`.
pub open spec fn status_total(counts: Map<u16, u64>) -> int {
    status_total_below(counts, 0x10000)
}

proof fn lemma_bump_total_below(counts: Map<u16, u64>, status: u16, k: int)
    requires
        counts.contains_key(status) ==> counts[status] < u64::MAX,
        0 <= k <= 0x10000,
    ensures
        status_total_below(bump_status(counts, status), k) == status_total_below(counts, k) + if (status as int) < k {
            1int
        } else {
            0int
        },
    decreases k,
{
    if k > 0 {
        lemma_bump_total_below(counts, status, k - 1);
        if (k - 1) as u16 != status {
            assert((k - 1) as u16 == k - 1);
        }
    }
}

/// Every response is counted once in the hits and once under its status:
/// stats kept by `record_response` always have as many hits as their
/// statuses count.
pub proof fn lemma_hits_match_statuses(hits: i64, counts: Map<u16, u64>, status: u16)
    requires
        hits == status_total(counts),
        counts.contains_key(status) ==> counts[status] < u64::MAX,
    ensures
        hits + 1 == status_total(bump_status(counts, status)),
        1 == status_total(bump_status(Map::empty(), status)),
{
    lemma_bump_total_below(counts, status, 0x10000);
    lemma_bump_total_below(Map::empty(), status, 0x10000);
    lemma_empty_total(0x10000);
}

proof fn lemma_empty_total(k: int)
    requires
        k >= 0,
    ensures
        status_total_below(Map::<u16, u64>::empty(), k) == 0,
    decreases k,
{
    if k > 0 {
        lemma_empty_total(k - 1);
    }
}

/// The routes of the summary: a path, its hits, and its noteworthy statuses.
pub type RouteRow = (Seq<char>, i64, Map<u16, u64>);

/// The page routes of `routes` in order, without their `200` counts.
pub open spec fn page_rows(routes: Seq<RouteStats>) -> Seq<RouteRow>
    decreases routes.len(),
{
    if routes.len() == 0 {
        Seq::empty()
    } else {
        let rest = page_rows(routes.drop_last());
        let r = routes.last();
        if is_asset(r.path@) {
            rest
        } else {
            rest.push((r.path@, r.hits, r.statuses@.remove(200)))
        }
    }
}

/// The asset routes of `routes` in order, without their `200` and `304`
/// counts.
pub open spec fn asset_rows(routes: Seq<RouteStats>) -> Seq<RouteRow>
    decreases routes.len(),
{
    if routes.len() == 0 {
        Seq::empty()
    } else {
        let rest = asset_rows(routes.drop_last());
        let r = routes.last();
        if is_asset(r.path@) {
            rest.push((r.path@, r.hits, r.statuses@.remove(200).remove(304)))
        } else {
            rest
        }
    }
}

/// The hits of the page routes of `routes`.
pub open spec fn page_hits(routes: Seq<RouteStats>) -> int
    decreases routes.len(),
{
    if routes.len() == 0 {
        0
    } else {
        page_hits(routes.drop_last()) + if is_asset(routes.last().path@) {
            0
        } else {
            routes.last().hits as int
        }
    }
}

/// Whether a row shows the stats of `src` with only the statuses `200` and
/// `304` left out: every other status keeps its count.
pub open spec fn shows_asset(row: RouteRow, src: RouteStats) -> bool {
    &&& row.0 == src.path@
    &&& row.1 == src.hits
    &&& !row.2.contains_key(200)
    &&& !row.2.contains_key(304)
    &&& forall|s: u16|
        s != 200 && s != 304 ==> (#[trigger] row.2.contains_key(s) <==> src.statuses@.contains_key(
            s,
        )) && (row.2.contains_key(s) ==> row.2[s] == src.statuses@[s])
}

/// The asset rows of the summary are the asset routes, in order, each with
/// every status count except those of `200` and `304`: a missing asset's
/// `404` count, for one, is kept.
pub proof fn lemma_asset_rows_keep_other_statuses(routes: Seq<RouteStats>)
    ensures
        asset_rows(routes).len() == routes.filter(|r: RouteStats| is_asset(r.path@)).len(),
        forall|i: int|
            0 <= i < asset_rows(routes).len() ==> shows_asset(
                #[trigger] asset_rows(routes)[i],
                routes.filter(|r: RouteStats| is_asset(r.path@))[i],
            ),
    decreases routes.len(),
{
    reveal(Seq::filter);
    let pred = |r: RouteStats| is_asset(r.path@);
    if routes.len() > 0 {
        lemma_asset_rows_keep_other_statuses(routes.drop_last());
        let r = routes.last();
        if is_asset(r.path@) {
            let row = (r.path@, r.hits, r.statuses@.remove(200).remove(304));
            assert(shows_asset(row, r));
            let prev = asset_rows(routes.drop_last());
            let fprev = routes.drop_last().filter(pred);
            assert(asset_rows(routes) == prev.push(row));
            assert(routes.filter(pred) == fprev.push(r));
            assert forall|i: int| 0 <= i < asset_rows(routes).len() implies shows_asset(
                #[trigger] asset_rows(routes)[i],
                routes.filter(pred)[i],
            ) by {
                if i < prev.len() {
                    assert(asset_rows(routes)[i] == prev[i]);
                    assert(routes.filter(pred)[i] == fprev[i]);
                }
            }
        } else {
            assert(routes.filter(pred) == routes.drop_last().filter(pred));
        }
    }
}

/// Whether a row shows the stats of `src` with only the status `200` left
/// out.
pub open spec fn shows_page(row: RouteRow, src: RouteStats) -> bool {
    &&& row.0 == src.path@
    &&& row.1 == src.hits
    &&& !row.2.contains_key(200)
    &&& forall|s: u16|
        s != 200 ==> (#[trigger] row.2.contains_key(s) <==> src.statuses@.contains_key(s)) && (
        row.2.contains_key(s) ==> row.2[s] == src.statuses@[s])
}

/// The page rows of the summary are the routes that are not assets, in
/// order, each with every status count except that of `200`.
pub proof fn lemma_page_rows_keep_other_statuses(routes: Seq<RouteStats>)
    ensures
        page_rows(routes).len() == routes.filter(|r: RouteStats| !is_asset(r.path@)).len(),
        forall|i: int|
            0 <= i < page_rows(routes).len() ==> shows_page(
                #[trigger] page_rows(routes)[i],
                routes.filter(|r: RouteStats| !is_asset(r.path@))[i],
            ),
    decreases routes.len(),
{
    reveal(Seq::filter);
    let pred = |r: RouteStats| !is_asset(r.path@);
    if routes.len() > 0 {
        lemma_page_rows_keep_other_statuses(routes.drop_last());
        let r = routes.last();
        if !is_asset(r.path@) {
            let row = (r.path@, r.hits, r.statuses@.remove(200));
            assert(shows_page(row, r));
            let prev = page_rows(routes.drop_last());
            let fprev = routes.drop_last().filter(pred);
            assert(page_rows(routes) == prev.push(row));
            assert(routes.filter(pred) == fprev.push(r));
            assert forall|i: int| 0 <= i < page_rows(routes).len() implies shows_page(
                #[trigger] page_rows(routes)[i],
                routes.filter(pred)[i],
            ) by {
                if i < prev.len() {
                    assert(page_rows(routes)[i] == prev[i]);
                    assert(routes.filter(pred)[i] == fprev[i]);
                }
            }
        } else {
            assert(routes.filter(pred) == routes.drop_last().filter(pred));
        }
    }
}

/// What the analytics page shows: total page hits, then page and asset
/// routes with their noteworthy statuses.
pub struct AnalyticsSummary {
    pub total_path_hits: i64,
    pub paths: Vec<RouteStats>,
    pub assets: Vec<RouteStats>,
}

pub open spec fn rows_of(v: Seq<RouteStats>) -> Seq<RouteRow> {
    v.map_values(|r: RouteStats| (r.path@, r.hits, r.statuses@))
}

/// Splits the collected stats into pages and assets (keeping their order),
/// drops the unremarkable statuses (`200`; for assets also `304`) and adds up
/// the hits of pages.
pub fn analytics_summary(routes: Vec<RouteStats>) -> (r: AnalyticsSummary)
    requires
        forall|k: int|
            0 <= k <= routes@.len() ==> i64::MIN <= #[trigger] page_hits(routes@.take(k)) <= i64::MAX,
    ensures
        r.total_path_hits == page_hits(routes@),
        rows_of(r.paths@) == page_rows(routes@),
        rows_of(r.assets@) == asset_rows(routes@),
{
    let ghost all = routes@;
    let mut rest = routes;
    let mut pending: Vec<RouteStats> = Vec::new();
    while rest.len() > 0
        invariant
            all =~= rest@ + pending@.reverse(),
        decreases rest.len(),
    {
        let ghost old_rest = rest@;
        let ghost old_pending = pending@;
        let e = rest.pop().unwrap();
        pending.push(e);
        proof {
            assert(pending@.reverse() =~= seq![e] + old_pending.reverse());
            assert(old_rest =~= rest@.push(e));
        }
    }
    let ghost n = all.len();
    let mut total: i64 = 0;
    let mut paths: Vec<RouteStats> = Vec::new();
    let mut assets: Vec<RouteStats> = Vec::new();
    while pending.len() > 0
        invariant
            pending@.len() <= n,
            n == all.len(),
            pending@.reverse() =~= all.subrange(n - pending@.len(), n as int),
            forall|k: int| 0 <= k <= n ==> i64::MIN <= #[trigger] page_hits(all.take(k)) <= i64::MAX,
            total == page_hits(all.take(n - pending@.len())),
            rows_of(paths@) == page_rows(all.take(n - pending@.len())),
            rows_of(assets@) == asset_rows(all.take(n - pending@.len())),
        decreases pending.len(),
    {
        let ghost done = n - pending@.len();
        let ghost old_pending = pending@;
        let mut route = pending.pop().unwrap();
        proof {
            assert(old_pending.reverse()[0] == old_pending.last());
            assert(all.subrange(done, n as int)[0] == all[done]);
            assert(pending@.reverse() =~= old_pending.reverse().drop_first());
            assert(all.take(done + 1).drop_last() =~= all.take(done));
            assert(all.take(done + 1).last() == all[done]);
            assert(i64::MIN <= page_hits(all.take(done + 1)) <= i64::MAX);
        }
        let ghost prev_paths = paths@;
        let ghost prev_assets = assets@;
        let ghost orig = route;
        if is_asset_path(route.path.as_str()) {
            route.statuses.remove(&200);
            route.statuses.remove(&304);
            assets.push(route);
            proof {
                assert(route.statuses@ =~= orig.statuses@.remove(200).remove(304));
                assert(rows_of(assets@) =~= rows_of(prev_assets).push(
                    (orig.path@, orig.hits, orig.statuses@.remove(200).remove(304)),
                ));
                assert(rows_of(paths@) =~= rows_of(prev_paths));
            }
        } else {
            total = total + route.hits;
            route.statuses.remove(&200);
            paths.push(route);
            proof {
                assert(route.statuses@ =~= orig.statuses@.remove(200));
                assert(rows_of(paths@) =~= rows_of(prev_paths).push(
                    (orig.path@, orig.hits, orig.statuses@.remove(200)),
                ));
                assert(rows_of(assets@) =~= rows_of(prev_assets));
            }
        }
    }
    assert(all.take(n as int) =~= all);
    AnalyticsSummary { total_path_hits: total, paths, assets }
}

/// Responses that are only traced, not counted: not modified, method not
/// allowed, and not found.
pub fn is_boring_status(status: u16) -> (r: bool)
    ensures
        r == (status == 304 || status == 405 || status == 404),
{
    status == 304 || status == 405 || status == 404
}

/// The requests the host serves for its own tooling (live reload, the
/// service worker's health check), which analytics leave out.
pub fn internal_request(path: &str) -> (r: bool)
    ensures
        r == ("/tower-livereload"@.is_prefix_of(path@) || "/sw/health"@.is_prefix_of(path@)),
{
    starts_with(path, "/tower-livereload") || starts_with(path, "/sw/health")
}

/// The request URI a trace shows: the query of an authentication request is
/// redacted, since it may carry secrets.
pub fn span_uri(path: &str, has_query: bool, uri: &str) -> (r: String)
    ensures
        r@ == (if "/auth/"@.is_prefix_of(path@) && has_query {
            path@ + "?[redacted]"@
        } else {
            uri@
        }),
{
    if starts_with(path, "/auth/") && has_query {
        let mut s = String::from_str(path);
        s.append("?[redacted]");
        s
    } else {
        String::from_str(uri)
    }
}

/// The layer that collects route analytics.
#[derive(Clone, Copy, Debug)]
pub struct AnalyticsLayer {}

/// The service that [`AnalyticsLayer`] wraps around an inner service.
#[derive(Clone, Debug)]
pub struct AnalyticsMiddleware<S> {
    pub inner: S,
}

impl AnalyticsLayer {
    /// The layer (the host makes sure the stats table exists first).
    pub fn init() -> (r: Self)
        ensures
            r == (AnalyticsLayer {}),
    {
        AnalyticsLayer {}
    }

    pub fn layer<S>(&self, inner: S) -> (r: AnalyticsMiddleware<S>)
        ensures
            r.inner == inner,
    {
        AnalyticsMiddleware { inner }
    }
}

} // verus!
