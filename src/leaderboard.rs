//! The scores of finished runs: the last few are kept, and shown best first.
use vstd::prelude::*;
use vstd::relations::injective_on;
use vstd::set_lib::{lemma_int_range, lemma_map_size, lemma_subset_equality, set_int_range};

verus! {

/// How many scores the leaderboard keeps.
pub const MAX_SCORES: usize = 10;

/// One finished run.
#[derive(Clone, Copy, Debug, PartialEq, Eq, Structural)]
pub struct Score {
    /// When the run ended, in milliseconds since the Unix epoch, UTC.
    pub timestamp: i64,
    /// How many pages the run went through.
    pub pages_read: u32,
}

/// The store after recording `score`: where it is full, the oldest score leaves first.
pub open spec fn recorded(store: Seq<Score>, score: Score) -> Seq<Score> {
    let kept = if store.len() >= MAX_SCORES {
        store.drop_first()
    } else {
        store
    };
    kept.push(score)
}

/// The store after recording each of `scores` in turn.
pub open spec fn recorded_all(store: Seq<Score>, scores: Seq<Score>) -> Seq<Score>
    decreases scores.len(),
{
    if scores.len() == 0 {
        store
    } else {
        recorded(recorded_all(store, scores.drop_last()), scores.last())
    }
}

/// The last `n` elements of `s`, or all of it where it is shorter.
pub open spec fn latest(s: Seq<Score>, n: int) -> Seq<Score> {
    if s.len() <= n {
        s
    } else {
        s.subrange(s.len() - n, s.len() as int)
    }
}

/// Whether the score at index `a` of `s` is shown ahead of the one at index `b`: it read
/// more pages, or as many and was recorded earlier.
pub open spec fn ranks_before(s: Seq<Score>, a: int, b: int) -> bool {
    s[a].pages_read > s[b].pages_read || (s[a].pages_read == s[b].pages_read && a < b)
}

/// How many of the first `n` scores of `s` are shown ahead of the one at index `i`.
pub open spec fn count_ahead(s: Seq<Score>, i: int, n: int) -> nat
    decreases n,
{
    if n <= 0 {
        0
    } else {
        count_ahead(s, i, n - 1) + if ranks_before(s, n - 1, i) {
            1nat
        } else {
            0nat
        }
    }
}

/// The position at which the score at index `i` of `s` is shown.
pub open spec fn rank(s: Seq<Score>, i: int) -> int {
    count_ahead(s, i, s.len() as int) as int
}

/// Whether `r` shows the scores of `s` best first, equal scores in the order recorded:
/// each score of `s` stands at its rank.
pub open spec fn is_ranking(s: Seq<Score>, r: Seq<Score>) -> bool {
    r.len() == s.len() && forall|i: int| 0 <= i < s.len() ==> r[rank(s, i)] == #[trigger] s[i]
}

proof fn lemma_count_ahead_bound(s: Seq<Score>, i: int, n: int)
    requires
        0 <= i < s.len(),
        0 <= n <= s.len(),
    ensures
        count_ahead(s, i, n) + (if i < n {
            1int
        } else {
            0int
        }) <= n,
    decreases n,
{
    if n > 0 {
        lemma_count_ahead_bound(s, i, n - 1);
    }
}

proof fn lemma_count_ahead_order(s: Seq<Score>, i: int, j: int, n: int)
    requires
        0 <= i < s.len(),
        0 <= j < s.len(),
        0 <= n <= s.len(),
        ranks_before(s, i, j),
    ensures
        count_ahead(s, j, n) >= count_ahead(s, i, n) + (if i < n {
            1int
        } else {
            0int
        }),
    decreases n,
{
    if n > 0 {
        lemma_count_ahead_order(s, i, j, n - 1);
    }
}

/// Every rank is a position of the store.
pub proof fn lemma_rank_bounds(s: Seq<Score>, i: int)
    requires
        0 <= i < s.len(),
    ensures
        0 <= rank(s, i) < s.len(),
{
    lemma_count_ahead_bound(s, i, s.len() as int);
}

/// A score shown ahead of another has the lower rank; so no two scores share a rank.
pub proof fn lemma_rank_order(s: Seq<Score>, i: int, j: int)
    requires
        0 <= i < s.len(),
        0 <= j < s.len(),
        ranks_before(s, i, j),
    ensures
        rank(s, i) < rank(s, j),
{
    lemma_count_ahead_order(s, i, j, s.len() as int);
}

/// Of two scores with the same number of pages, the one recorded first is shown first.
pub proof fn lemma_ranking_keeps_ties_in_order(s: Seq<Score>, r: Seq<Score>, i: int, j: int)
    requires
        is_ranking(s, r),
        0 <= i < j < s.len(),
        s[i].pages_read == s[j].pages_read,
    ensures
        0 <= rank(s, i) < rank(s, j) < r.len(),
        r[rank(s, i)] == s[i],
        r[rank(s, j)] == s[j],
{
    lemma_rank_bounds(s, j);
    lemma_rank_order(s, i, j);
}

/// A score with more pages is shown ahead of one with fewer.
pub proof fn lemma_ranking_best_first(s: Seq<Score>, r: Seq<Score>, i: int, j: int)
    requires
        is_ranking(s, r),
        0 <= i < s.len(),
        0 <= j < s.len(),
        s[i].pages_read > s[j].pages_read,
    ensures
        0 <= rank(s, i) < rank(s, j) < r.len(),
        r[rank(s, i)] == s[i],
        r[rank(s, j)] == s[j],
{
    lemma_rank_bounds(s, j);
    lemma_rank_order(s, i, j);
}

/// Every position of the store is the rank of one of its scores.
proof fn lemma_rank_onto(s: Seq<Score>, p: int)
    requires
        0 <= p < s.len(),
    ensures
        exists|i: int| 0 <= i < s.len() && rank(s, i) == p,
{
    let n = s.len() as int;
    let dom = set_int_range(0, n);
    let f = |i: int| rank(s, i);
    let img = dom.map(f);
    lemma_int_range(0, n);
    assert(injective_on(f, dom)) by {
        assert forall|a: int, b: int|
            dom.contains(a) && dom.contains(b) && #[trigger] f(a) == #[trigger] f(b) implies a
            == b by {
            if a != b {
                if ranks_before(s, a, b) {
                    lemma_rank_order(s, a, b);
                } else {
                    lemma_rank_order(s, b, a);
                }
            }
        }
    }
    lemma_map_size(dom, img, f);
    assert(img.subset_of(dom)) by {
        assert forall|x: int| img.contains(x) implies dom.contains(x) by {
            let i = choose|i: int| dom.contains(i) && f(i) == x;
            lemma_rank_bounds(s, i);
        }
    }
    lemma_subset_equality(img, dom);
    assert(dom.contains(p));
    assert(img.contains(p));
}

/// A ranking holds the scores of the store and nothing else, best first: each position
/// holds the score whose rank it is, and along it the pages read never go up.
pub proof fn lemma_ranking_sorted(s: Seq<Score>, r: Seq<Score>, p: int, q: int)
    requires
        is_ranking(s, r),
        0 <= p < q < r.len(),
    ensures
        exists|i: int| 0 <= i < s.len() && rank(s, i) == p && r[p] == s[i],
        r[p].pages_read >= r[q].pages_read,
{
    lemma_rank_onto(s, p);
    lemma_rank_onto(s, q);
    let i = choose|i: int| 0 <= i < s.len() && rank(s, i) == p;
    let j = choose|j: int| 0 <= j < s.len() && rank(s, j) == q;
    assert(r[p] == s[i]);
    assert(r[q] == s[j]);
    if s[i].pages_read < s[j].pages_read {
        lemma_rank_order(s, j, i);
    }
}

/// Recording scores one after another into a store of at most `MAX_SCORES` keeps
/// exactly the `MAX_SCORES` most recent of all, oldest first.
pub proof fn lemma_keeps_latest(store: Seq<Score>, scores: Seq<Score>)
    requires
        store.len() <= MAX_SCORES,
    ensures
        recorded_all(store, scores) == latest(store + scores, MAX_SCORES as int),
    decreases scores.len(),
{
    if scores.len() > 0 {
        let front = scores.drop_last();
        lemma_keeps_latest(store, front);
        let before = latest(store + front, MAX_SCORES as int);
        let all = store + scores;
        assert(all == (store + front).push(scores.last()));
        if (store + front).len() < MAX_SCORES {
            assert(recorded_all(store, scores) =~= latest(all, MAX_SCORES as int));
        } else {
            assert(before.len() == MAX_SCORES);
            assert(recorded_all(store, scores) =~= latest(all, MAX_SCORES as int));
        }
    }
}

/// The scores of the last runs, oldest first; never more than `MAX_SCORES`.
#[derive(Debug)]
pub struct Leaderboard {
    scores: Vec<Score>,
}

impl View for Leaderboard {
    type V = Seq<Score>;

    closed spec fn view(&self) -> Seq<Score> {
        self.scores@
    }
}

impl Leaderboard {
    #[verifier::type_invariant]
    closed spec fn inv(self) -> bool {
        self.scores@.len() <= MAX_SCORES
    }

    /// An empty leaderboard.
    pub fn new() -> (r: Leaderboard)
        ensures
            r@ == Seq::<Score>::empty(),
    {
        Leaderboard { scores: Vec::new() }
    }

    /// The number of scores held.
    pub fn len(&self) -> (r: usize)
        ensures
            r == self@.len(),
            r <= MAX_SCORES,
    {
        proof {
            use_type_invariant(self);
        }
        self.scores.len()
    }

    /// The scores held, oldest first.
    pub fn scores(&self) -> (r: &Vec<Score>)
        ensures
            r@ == self@,
            r@.len() <= MAX_SCORES,
    {
        proof {
            use_type_invariant(self);
        }
        &self.scores
    }

    /// Records a finished run of `pages_read` pages that ended at `now`; where
    /// `MAX_SCORES` are held already, the oldest leaves first.
    pub fn record(&mut self, pages_read: u32, now: i64)
        ensures
            final(self)@ == recorded(old(self)@, Score { timestamp: now, pages_read }),
            final(self)@.len() <= MAX_SCORES,
    {
        proof {
            use_type_invariant(&*self);
        }
        let mut scores: Vec<Score> = Vec::new();
        std::mem::swap(&mut self.scores, &mut scores);
        if scores.len() >= MAX_SCORES {
            scores.remove(0);
        }
        scores.push(Score { timestamp: now, pages_read });
        assert(scores@ =~= recorded(old(self)@, Score { timestamp: now, pages_read }));
        std::mem::swap(&mut self.scores, &mut scores);
    }

    /// The rank of the score at index `i`.
    fn rank_of(&self, i: usize) -> (r: usize)
        requires
            i < self@.len(),
        ensures
            r == rank(self@, i as int),
    {
        proof {
            use_type_invariant(self);
        }
        let n = self.scores.len();
        let target: Score = self.scores[i];
        let mut count: usize = 0;
        let mut j: usize = 0;
        while j < n
            invariant
                n == self@.len(),
                n <= MAX_SCORES,
                i < n,
                target == self@[i as int],
                0 <= j <= n,
                count == count_ahead(self@, i as int, j as int),
                count <= j,
            decreases n - j,
        {
            let other: Score = self.scores[j];
            if other.pages_read > target.pages_read || (other.pages_read == target.pages_read
                && j < i) {
                count = count + 1;
            }
            j = j + 1;
        }
        count
    }

    /// The scores held, best first: by pages read, highest first, and equal ones in the
    /// order they were recorded. The store itself is left as it is.
    pub fn ranked_view(&self) -> (r: Vec<Score>)
        ensures
            is_ranking(self@, r@),
    {
        proof {
            use_type_invariant(self);
        }
        let n = self.scores.len();
        let mut r: Vec<Score> = Vec::new();
        let mut k: usize = 0;
        while k < n
            invariant
                n == self@.len(),
                0 <= k <= n,
                r@.len() == k,
            decreases n - k,
        {
            r.push(self.scores[k]);
            k = k + 1;
        }
        let mut i: usize = 0;
        while i < n
            invariant
                n == self@.len(),
                0 <= i <= n,
                r@.len() == n,
                forall|a: int| 0 <= a < i ==> r@[rank(self@, a)] == #[trigger] self@[a],
            decreases n - i,
        {
            let pos = self.rank_of(i);
            proof {
                lemma_rank_bounds(self@, i as int);
                assert forall|a: int| 0 <= a < i implies rank(self@, a) != rank(
                    self@,
                    i as int,
                ) by {
                    lemma_rank_bounds(self@, a);
                    if ranks_before(self@, a, i as int) {
                        lemma_rank_order(self@, a, i as int);
                    } else {
                        lemma_rank_order(self@, i as int, a);
                    }
                }
            }
            r.set(pos, self.scores[i]);
            assert forall|a: int| 0 <= a < i + 1 implies r@[rank(self@, a)] == #[trigger] self@[a] by {
                if a < i {
                    lemma_rank_bounds(self@, a);
                }
            }
            i = i + 1;
        }
        r
    }
}

} // verus!
