//! The listing engine: orders game summaries by a chosen key with a fixed tie-break
//! chain, then pages and filters them.

use crate::game::adapter::{stage_rank, Stage};
use crate::game::{game_type_rank, GameError, GameManagerError, GameType};
use crate::ids::GameId;
use core::cmp::Ordering;
use itertools::Itertools;
use vstd::prelude::*;

verus! {

/// How many summaries one page holds.
pub const LIST_GAME_SUMMARY_COUNT: usize = 20;

/// A read-only view of one live game for listing; `last_updated` is in milliseconds since
/// the Unix epoch.
#[derive(Clone, Debug)]
pub struct GameSummary {
    pub game_id: GameId,
    pub game_type: GameType,
    pub players: Vec<String>,
    pub stage: Stage,
    pub last_updated: i64,
}

#[derive(Clone, Copy, PartialEq, Eq, Structural, Debug)]
pub enum SortOrder {
    Asc,
    Desc,
}

#[derive(Clone, Copy, PartialEq, Eq, Structural, Debug)]
pub enum SortKey {
    GameType,
    Players,
    Stage,
    LastUpdated,
}

/// A listing request: the page (from 1), the order and the primary key, and the optional
/// filters on game type, number of players and stage.
#[derive(Clone, Copy, Debug)]
pub struct SearchOptions {
    pub page: usize,
    pub sort_order: SortOrder,
    pub sort_key: SortKey,
    pub game_type: Option<GameType>,
    pub players: Option<usize>,
    pub stage: Option<Stage>,
}

pub struct SearchEngine;

/// The key after `k` in the tie-break ring: game type, players, stage, last update, and
/// back to game type.
pub open spec fn next_key(k: SortKey) -> SortKey {
    match k {
        SortKey::GameType => SortKey::Players,
        SortKey::Players => SortKey::Stage,
        SortKey::Stage => SortKey::LastUpdated,
        SortKey::LastUpdated => SortKey::GameType,
    }
}

pub open spec fn int_cmp(a: int, b: int) -> Ordering {
    if a < b {
        Ordering::Less
    } else if a > b {
        Ordering::Greater
    } else {
        Ordering::Equal
    }
}

pub open spec fn flip(o: Ordering) -> Ordering {
    match o {
        Ordering::Less => Ordering::Greater,
        Ordering::Equal => Ordering::Equal,
        Ordering::Greater => Ordering::Less,
    }
}

/// Two summaries compared by one key, in ascending order.
pub open spec fn key_cmp(a: GameSummary, b: GameSummary, k: SortKey) -> Ordering {
    match k {
        SortKey::GameType => int_cmp(game_type_rank(a.game_type), game_type_rank(b.game_type)),
        SortKey::Players => int_cmp(a.players@.len() as int, b.players@.len() as int),
        SortKey::Stage => int_cmp(stage_rank(a.stage), stage_rank(b.stage)),
        SortKey::LastUpdated => int_cmp(a.last_updated as int, b.last_updated as int),
    }
}

/// Compares by `k`, and while equal by the next `n - 1` keys of the ring.
pub open spec fn chain_cmp(a: GameSummary, b: GameSummary, k: SortKey, n: nat) -> Ordering
    decreases n,
{
    if n == 0 {
        Ordering::Equal
    } else if key_cmp(a, b, k) == Ordering::Equal {
        chain_cmp(a, b, next_key(k), (n - 1) as nat)
    } else {
        key_cmp(a, b, k)
    }
}

/// The listing order: the primary key, then the other three keys around the ring; a
/// descending order reverses each outcome, so ties break along the same chain.
pub open spec fn summary_cmp(a: GameSummary, b: GameSummary, k: SortKey, o: SortOrder) -> Ordering {
    let c = chain_cmp(a, b, k, 4);
    if o == SortOrder::Asc {
        c
    } else {
        flip(c)
    }
}

/// The summaries that the listing order puts level with `x`.
pub open spec fn level_with(x: GameSummary, k: SortKey, o: SortOrder) -> spec_fn(GameSummary) -> bool {
    |y: GameSummary| summary_cmp(x, y, k, o) == Ordering::Equal
}

pub open spec fn sorted_by_cmp(s: Seq<GameSummary>, k: SortKey, o: SortOrder) -> bool {
    forall|i: int, j: int|
        0 <= i < j < s.len() ==> summary_cmp(#[trigger] s[i], #[trigger] s[j], k, o)
            != Ordering::Greater
}

/// `r` holds the summaries of `v` in the listing order, and summaries that the order puts
/// level keep their order from `v`.
pub open spec fn stable_sort_of(r: Seq<GameSummary>, v: Seq<GameSummary>, k: SortKey, o: SortOrder) -> bool {
    &&& r.to_multiset() == v.to_multiset()
    &&& sorted_by_cmp(r, k, o)
    &&& forall|x: GameSummary| #[trigger] r.filter(level_with(x, k, o)) == v.filter(level_with(x, k, o))
}

/// Whether a summary passes the request's filters.
pub open spec fn passes(s: GameSummary, opts: SearchOptions) -> bool {
    &&& (opts.game_type matches Some(t) ==> s.game_type == t)
    &&& (opts.players matches Some(n) ==> s.players@.len() == n)
    &&& (opts.stage matches Some(st) ==> s.stage == st)
}

pub open spec fn filter_pred(opts: SearchOptions) -> spec_fn(GameSummary) -> bool {
    |s: GameSummary| passes(s, opts)
}

/// The page of a sorted listing: skip the summaries of the earlier pages (counted before
/// filtering), then keep the first page's worth of those that pass the filters.
pub open spec fn page_of(sorted: Seq<GameSummary>, opts: SearchOptions) -> Seq<GameSummary>
    recommends
        opts.page >= 1,
{
    let skip = (opts.page - 1) * LIST_GAME_SUMMARY_COUNT;
    let rest = if skip < sorted.len() {
        sorted.subrange(skip, sorted.len() as int)
    } else {
        Seq::empty()
    };
    let kept = rest.filter(filter_pred(opts));
    if kept.len() <= LIST_GAME_SUMMARY_COUNT {
        kept
    } else {
        kept.take(LIST_GAME_SUMMARY_COUNT as int)
    }
}

proof fn lemma_chain_flip(a: GameSummary, b: GameSummary, k: SortKey, n: nat)
    ensures
        chain_cmp(a, b, k, n) == flip(chain_cmp(b, a, k, n)),
        chain_cmp(a, a, k, n) == Ordering::Equal,
    decreases n,
{
    if n > 0 {
        lemma_chain_flip(a, b, next_key(k), (n - 1) as nat);
    }
}

proof fn lemma_chain_transitive(a: GameSummary, b: GameSummary, c: GameSummary, k: SortKey, n: nat)
    requires
        chain_cmp(a, b, k, n) != Ordering::Greater,
        chain_cmp(b, c, k, n) != Ordering::Greater,
    ensures
        chain_cmp(a, c, k, n) != Ordering::Greater,
    decreases n,
{
    if n > 0 && key_cmp(a, b, k) == Ordering::Equal && key_cmp(b, c, k) == Ordering::Equal {
        lemma_chain_transitive(a, b, c, next_key(k), (n - 1) as nat);
    }
}

/// The listing order is transitive, so with `lemma_summary_cmp_antisymmetric` it is a
/// total order on summaries up to ties, as a sort requires.
pub proof fn lemma_summary_cmp_transitive(
    a: GameSummary,
    b: GameSummary,
    c: GameSummary,
    k: SortKey,
    o: SortOrder,
)
    requires
        summary_cmp(a, b, k, o) != Ordering::Greater,
        summary_cmp(b, c, k, o) != Ordering::Greater,
    ensures
        summary_cmp(a, c, k, o) != Ordering::Greater,
{
    if o == SortOrder::Asc {
        lemma_chain_transitive(a, b, c, k, 4);
    } else {
        lemma_chain_flip(a, b, k, 4);
        lemma_chain_flip(b, c, k, 4);
        lemma_chain_flip(a, c, k, 4);
        lemma_chain_transitive(c, b, a, k, 4);
    }
}

/// The listing order compares every summary level with itself, and comparing the other
/// way round flips the outcome; a descending order flips every outcome of the ascending
/// one while breaking ties along the same chain of keys.
pub proof fn lemma_summary_cmp_antisymmetric(a: GameSummary, b: GameSummary, k: SortKey, o: SortOrder)
    ensures
        summary_cmp(a, a, k, o) == Ordering::Equal,
        summary_cmp(a, b, k, o) == flip(summary_cmp(b, a, k, o)),
        summary_cmp(a, b, k, SortOrder::Desc) == flip(summary_cmp(a, b, k, SortOrder::Asc)),
{
    lemma_chain_flip(a, b, k, 4);
}

/// Two sequences sorted in the listing order, in which the summaries level with any given
/// one come in the same order, are the same sequence.
proof fn lemma_sorted_unique(r1: Seq<GameSummary>, r2: Seq<GameSummary>, k: SortKey, o: SortOrder)
    requires
        sorted_by_cmp(r1, k, o),
        sorted_by_cmp(r2, k, o),
        forall|x: GameSummary| #[trigger] r1.filter(level_with(x, k, o)) == r2.filter(level_with(x, k, o)),
    ensures
        r1 == r2,
    decreases r1.len(),
{
    if r1.len() == 0 {
        if r2.len() > 0 {
            let y = r2[0];
            lemma_summary_cmp_antisymmetric(y, y, k, o);
            r2.lemma_filter_contains(level_with(y, k, o), 0);
            assert(r1.filter(level_with(y, k, o)) == r2.filter(level_with(y, k, o)));
            r1.lemma_filter_contains_rev(level_with(y, k, o), y);
        }
        assert(r1 =~= r2);
    } else if r2.len() == 0 {
        let x = r1[0];
        lemma_summary_cmp_antisymmetric(x, x, k, o);
        r1.lemma_filter_contains(level_with(x, k, o), 0);
        assert(r1.filter(level_with(x, k, o)) == r2.filter(level_with(x, k, o)));
        r2.lemma_filter_contains_rev(level_with(x, k, o), x);
    } else {
        let x = r1[0];
        let y = r2[0];
        lemma_summary_cmp_antisymmetric(x, y, k, o);
        lemma_summary_cmp_antisymmetric(y, x, k, o);
        r1.lemma_filter_contains(level_with(x, k, o), 0);
        assert(r1.filter(level_with(x, k, o)) == r2.filter(level_with(x, k, o)));
        r2.lemma_filter_contains_rev(level_with(x, k, o), x);
        let j2 = choose|j: int| 0 <= j < r2.len() && r2[j] == x;
        if j2 > 0 {
            assert(summary_cmp(r2[0], r2[j2], k, o) != Ordering::Greater);
        }
        r2.lemma_filter_contains(level_with(y, k, o), 0);
        assert(r1.filter(level_with(y, k, o)) == r2.filter(level_with(y, k, o)));
        r1.lemma_filter_contains_rev(level_with(y, k, o), y);
        let j1 = choose|j: int| 0 <= j < r1.len() && r1[j] == y;
        if j1 > 0 {
            assert(summary_cmp(r1[0], r1[j1], k, o) != Ordering::Greater);
        }
        assert(summary_cmp(x, y, k, o) == Ordering::Equal);
        let t1 = r1.subrange(1, r1.len() as int);
        let t2 = r2.subrange(1, r2.len() as int);
        assert(r1 =~= seq![x] + t1);
        assert(r2 =~= seq![y] + t2);
        t1.lemma_filter_prepend(x, level_with(x, k, o));
        t2.lemma_filter_prepend(y, level_with(x, k, o));
        assert(r1.filter(level_with(x, k, o))[0] == x);
        assert(r2.filter(level_with(x, k, o))[0] == y);
        assert(x == y);
        assert forall|z: GameSummary| #[trigger] t1.filter(level_with(z, k, o)) == t2.filter(
            level_with(z, k, o),
        ) by {
            t1.lemma_filter_prepend(x, level_with(z, k, o));
            t2.lemma_filter_prepend(y, level_with(z, k, o));
            let f1 = r1.filter(level_with(z, k, o));
            let f2 = r2.filter(level_with(z, k, o));
            assert(f1 == f2);
            let m: int = if summary_cmp(z, x, k, o) == Ordering::Equal {
                1
            } else {
                0
            };
            assert(t1.filter(level_with(z, k, o)) =~= f1.subrange(m, f1.len() as int));
            assert(t2.filter(level_with(z, k, o)) =~= f2.subrange(m, f2.len() as int));
        }
        assert(sorted_by_cmp(t1, k, o)) by {
            assert forall|i: int, j: int| 0 <= i < j < t1.len() implies summary_cmp(
                #[trigger] t1[i],
                #[trigger] t1[j],
                k,
                o,
            ) != Ordering::Greater by {
                assert(t1[i] == r1[i + 1] && t1[j] == r1[j + 1]);
            }
        }
        assert(sorted_by_cmp(t2, k, o)) by {
            assert forall|i: int, j: int| 0 <= i < j < t2.len() implies summary_cmp(
                #[trigger] t2[i],
                #[trigger] t2[j],
                k,
                o,
            ) != Ordering::Greater by {
                assert(t2[i] == r2[i + 1] && t2[j] == r2[j + 1]);
            }
        }
        lemma_sorted_unique(t1, t2, k, o);
    }
}

/// What one listing call returns: `InvalidPage` for page 0, and otherwise the page of
/// some stable sort of the summaries in the listing order.
pub open spec fn listing_result(
    summaries: Seq<GameSummary>,
    options: SearchOptions,
    r: Result<Vec<GameSummary>, GameError>,
) -> bool {
    if options.page == 0 {
        r == Err::<Vec<GameSummary>, GameError>(GameError::Manager(GameManagerError::InvalidPage))
    } else {
        r matches Ok(v) && exists|sorted: Seq<GameSummary>|
            stable_sort_of(sorted, summaries, options.sort_key, options.sort_order) && v@
                == page_of(sorted, options)
    }
}

/// Listing is deterministic: two listings of the same summaries with the same options give
/// the same summaries in the same order, since the stable sort in the listing order is
/// unique.
pub proof fn lemma_listing_deterministic(
    summaries: Seq<GameSummary>,
    options: SearchOptions,
    r1: Result<Vec<GameSummary>, GameError>,
    r2: Result<Vec<GameSummary>, GameError>,
)
    requires
        listing_result(summaries, options, r1),
        listing_result(summaries, options, r2),
    ensures
        r1 is Ok <==> r2 is Ok,
        r1 is Err ==> r1 == r2,
        r1 is Ok ==> r1->Ok_0@ == r2->Ok_0@,
{
    if options.page != 0 {
        let k = options.sort_key;
        let o = options.sort_order;
        let s1 = choose|s: Seq<GameSummary>|
            stable_sort_of(s, summaries, k, o) && r1->Ok_0@ == page_of(s, options);
        let s2 = choose|s: Seq<GameSummary>|
            stable_sort_of(s, summaries, k, o) && r2->Ok_0@ == page_of(s, options);
        assert forall|x: GameSummary| #[trigger] s1.filter(level_with(x, k, o)) == s2.filter(
            level_with(x, k, o),
        ) by {
            assert(s1.filter(level_with(x, k, o)) == summaries.filter(level_with(x, k, o)));
            assert(s2.filter(level_with(x, k, o)) == summaries.filter(level_with(x, k, o)));
        }
        lemma_sorted_unique(s1, s2, k, o);
    }
}

/// Relies on `itertools::Itertools::sorted_by`, which sorts with `slice::sort_by`: a
/// stable sort, here by `compare_summaries`. That comparison is a total order (see
/// `lemma_summary_cmp_antisymmetric` and `lemma_summary_cmp_transitive`), so the sort does
/// not panic and its result is sorted.
#[verifier::external_body]
fn sort_summaries(v: Vec<GameSummary>, key: SortKey, order: SortOrder) -> (r: Vec<GameSummary>)
    ensures
        stable_sort_of(r@, v@, key, order),
{
    v.into_iter().sorted_by(|a, b| SearchEngine::compare_summaries(a, b, key, order)).collect()
}

fn count_order(a: usize, b: usize) -> (r: Ordering)
    ensures
        r == int_cmp(a as int, b as int),
{
    if a < b {
        Ordering::Less
    } else if a > b {
        Ordering::Greater
    } else {
        Ordering::Equal
    }
}

fn int_order(a: i64, b: i64) -> (r: Ordering)
    ensures
        r == int_cmp(a as int, b as int),
{
    if a < b {
        Ordering::Less
    } else if a > b {
        Ordering::Greater
    } else {
        Ordering::Equal
    }
}

impl SearchEngine {
    /// The key after `sort_key` in the tie-break ring.
    pub fn next_sort_key(sort_key: SortKey) -> (r: SortKey)
        ensures
            r == next_key(sort_key),
    {
        match sort_key {
            SortKey::GameType => SortKey::Players,
            SortKey::Players => SortKey::Stage,
            SortKey::Stage => SortKey::LastUpdated,
            SortKey::LastUpdated => SortKey::GameType,
        }
    }

    fn compare_by(a: &GameSummary, b: &GameSummary, k: SortKey) -> (r: Ordering)
        ensures
            r == key_cmp(*a, *b, k),
    {
        match k {
            SortKey::GameType => int_order(a.game_type.rank() as i64, b.game_type.rank() as i64),
            SortKey::Players => count_order(a.players.len(), b.players.len()),
            SortKey::Stage => int_order(a.stage.rank() as i64, b.stage.rank() as i64),
            SortKey::LastUpdated => int_order(a.last_updated, b.last_updated),
        }
    }

    /// Whether a summary passes the request's filters; see `passes`.
    fn passes_filters(s: &GameSummary, options: &SearchOptions) -> (r: bool)
        ensures
            r == passes(*s, *options),
    {
        let type_ok = match options.game_type {
            Some(t) => s.game_type == t,
            None => true,
        };
        let players_ok = match options.players {
            Some(n) => s.players.len() == n,
            None => true,
        };
        let stage_ok = match options.stage {
            Some(st) => s.stage == st,
            None => true,
        };
        type_ok && players_ok && stage_ok
    }

    /// One page of the listing: refused with `InvalidPage` for page 0; otherwise the
    /// summaries are sorted in the listing order (see `summary_cmp`, level ones keeping
    /// their order), the summaries of the earlier pages are skipped, and of the rest the
    /// first `LIST_GAME_SUMMARY_COUNT` that pass the filters make the page.
    pub fn apply(summaries: Vec<GameSummary>, options: &SearchOptions) -> (r: Result<
        Vec<GameSummary>,
        GameError,
    >)
        ensures
            listing_result(summaries@, *options, r),
    {
        if options.page == 0 {
            return Err(GameError::Manager(GameManagerError::InvalidPage));
        }
        let ghost input = summaries@;
        let sorted = sort_summaries(summaries, options.sort_key, options.sort_order);
        let n = sorted.len();
        let skip = if options.page - 1 <= n / LIST_GAME_SUMMARY_COUNT {
            (options.page - 1) * LIST_GAME_SUMMARY_COUNT
        } else {
            n
        };
        assert(skip <= n) by (nonlinear_arith)
            requires
                skip == (options.page - 1) * 20 && options.page - 1 <= n / 20 || skip == n,
        ;
        let ghost pred = filter_pred(*options);
        let ghost s0 = sorted@;
        let mut sorted = sorted;
        let mut reversed: Vec<GameSummary> = Vec::new();
        while sorted.len() > skip
            invariant
                skip <= sorted@.len() <= n,
                n == s0.len(),
                sorted@ == s0.subrange(0, sorted@.len() as int),
                reversed@.len() == n - sorted@.len(),
                forall|j: int| 0 <= j < reversed@.len() ==> reversed@[j] == s0[n - 1 - j],
            decreases sorted@.len(),
        {
            let x = sorted.pop().unwrap();
            reversed.push(x);
        }
        let mut page: Vec<GameSummary> = Vec::new();
        let mut i: usize = skip;
        while i < n && page.len() < LIST_GAME_SUMMARY_COUNT
            invariant
                skip <= i <= n,
                n == s0.len(),
                pred == filter_pred(*options),
                reversed@.len() == n - i,
                forall|j: int| 0 <= j < reversed@.len() ==> reversed@[j] == s0[n - 1 - j],
                page@ == s0.subrange(skip as int, i as int).filter(pred),
                page@.len() <= LIST_GAME_SUMMARY_COUNT,
            decreases n - i,
        {
            let ghost before = s0.subrange(skip as int, i as int);
            proof {
                reveal(Seq::filter);
                assert(s0.subrange(skip as int, i + 1).drop_last() =~= before);
                assert(s0.subrange(skip as int, i + 1).last() == s0[i as int]);
            }
            let x = reversed.pop().unwrap();
            assert(x == s0[i as int]);
            if Self::passes_filters(&x, options) {
                page.push(x);
            }
            i = i + 1;
        }
        proof {
            let rest = if skip < n {
                s0.subrange(skip as int, n as int)
            } else {
                Seq::empty()
            };
            assert(skip == (options.page - 1) * LIST_GAME_SUMMARY_COUNT || (options.page - 1)
                * LIST_GAME_SUMMARY_COUNT > n) by (nonlinear_arith)
                requires
                    skip == (options.page - 1) * 20 && options.page - 1 <= n / 20 || skip == n
                        && options.page - 1 > n / 20,
            ;
            let head = s0.subrange(skip as int, i as int);
            let tail = s0.subrange(i as int, n as int);
            assert(rest =~= head + tail);
            Seq::filter_distributes_over_add(head, tail, pred);
            assert(page_of(s0, *options) =~= page@);
        }
        Ok(page)
    }

    /// Compares two summaries in the listing order; see `summary_cmp`.
    pub fn compare_summaries(
        a: &GameSummary,
        b: &GameSummary,
        sort_key: SortKey,
        sort_order: SortOrder,
    ) -> (r: Ordering)
        ensures
            r == summary_cmp(*a, *b, sort_key, sort_order),
    {
        let mut current_sort_key = sort_key;
        let mut ordering = Ordering::Equal;
        let mut n: usize = 0;
        let mut level = true;
        while n < 4 && level
            invariant
                n <= 4,
                level == (ordering == Ordering::Equal),
                chain_cmp(*a, *b, sort_key, 4) == if ordering == Ordering::Equal {
                    chain_cmp(*a, *b, current_sort_key, (4 - n) as nat)
                } else {
                    ordering
                },
            decreases 4 - n,
        {
            ordering = Self::compare_by(a, b, current_sort_key);
            level = match ordering {
                Ordering::Equal => true,
                _ => false,
            };
            current_sort_key = Self::next_sort_key(current_sort_key);
            n = n + 1;
        }
        match sort_order {
            SortOrder::Asc => ordering,
            SortOrder::Desc => match ordering {
                Ordering::Less => Ordering::Greater,
                Ordering::Equal => Ordering::Equal,
                Ordering::Greater => Ordering::Less,
            },
        }
    }
}

} // verus!
