use vstd::prelude::*;

verus! {

/// Number of votes for candidate `c` in `votes`.
pub open spec fn tally(votes: Seq<usize>, c: usize) -> nat
    decreases votes.len(),
{
    if votes.len() == 0 {
        0
    } else {
        tally(votes.drop_last(), c) + if votes.last() == c {
            1nat
        } else {
            0nat
        }
    }
}

/// After the first `n` votes, candidate `c` leads every other candidate by at least `k`.
pub open spec fn ahead_by(votes: Seq<usize>, n: int, c: usize, k: nat) -> bool {
    forall|d: usize| d != c ==> #[trigger] tally(votes.take(n), d) + k <= tally(votes.take(n), c)
}

/// No prefix of length at most `n` has decided a winner.
pub open spec fn undecided_through(votes: Seq<usize>, n: int, k: nat) -> bool {
    forall|m: int, c: usize| 0 <= m <= n ==> !#[trigger] ahead_by(votes, m, c, k)
}

/// `c` has the most votes, and no lower candidate has as many.
pub open spec fn plurality_winner(votes: Seq<usize>, c: usize) -> bool {
    &&& forall|d: usize| #[trigger] tally(votes, d) <= tally(votes, c)
    &&& forall|d: usize| d < c ==> #[trigger] tally(votes, d) < tally(votes, c)
}

/// The decision of the streaming rule, if any prefix decides.
pub open spec fn streaming_decision(votes: Seq<usize>, k: nat, r: Option<usize>) -> bool {
    match r {
        Some(c) => exists|n: int| #[trigger] decided_at(votes, n, c, k),
        None => undecided_through(votes, votes.len() as int, k),
    }
}

/// The first `n` votes decide for `c`, and no shorter prefix decided.
pub open spec fn decided_at(votes: Seq<usize>, n: int, c: usize, k: nat) -> bool {
    &&& 1 <= n <= votes.len()
    &&& ahead_by(votes, n, c, k)
    &&& undecided_through(votes, n - 1, k)
}

/// The largest tally among candidates below `candidates` other than `winner`.
pub open spec fn best_other(votes: Seq<usize>, candidates: nat, winner: usize, s: nat) -> bool {
    &&& forall|d: usize| d < candidates && d != winner ==> #[trigger] tally(votes, d) <= s
    &&& (s == 0 || exists|d: usize| d < candidates && d != winner && #[trigger] tally(votes, d) == s)
}

/// The index chosen from a vote: the streaming decision, else the plurality, else the first
/// option, never past the last option.
pub open spec fn chosen_index(votes: Seq<usize>, k: nat, options: nat, picked: usize) -> bool {
    exists|r: Option<usize>, raw: usize|
        #![trigger streaming_decision(votes, k, r), choose_index_from(votes, r, raw)]
        streaming_decision(votes, k, r) && choose_index_from(votes, r, raw) && picked == if raw
            < options {
            raw
        } else {
            (options - 1) as usize
        }
}

pub open spec fn choose_index_from(votes: Seq<usize>, r: Option<usize>, raw: usize) -> bool {
    match r {
        Some(c) => raw == c,
        None => if votes.len() == 0 {
            raw == 0
        } else {
            plurality_winner(votes, raw)
        },
    }
}

pub proof fn lemma_tally_step(votes: Seq<usize>, n: int, c: usize)
    requires
        0 <= n < votes.len(),
    ensures
        tally(votes.take(n + 1), c) == tally(votes.take(n), c) + if votes[n] == c {
            1nat
        } else {
            0nat
        },
{
    assert(votes.take(n + 1).drop_last() =~= votes.take(n));
}

pub proof fn lemma_tally_positive(votes: Seq<usize>, c: usize)
    requires
        tally(votes, c) > 0,
    ensures
        exists|j: int| 0 <= j < votes.len() && votes[j] == c,
    decreases votes.len(),
{
    if votes.last() != c {
        lemma_tally_positive(votes.drop_last(), c);
        let j = choose|j: int| 0 <= j < votes.drop_last().len() && votes.drop_last()[j] == c;
        assert(votes[j] == c);
    } else {
        assert(votes[votes.len() - 1] == c);
    }
}

pub proof fn lemma_tally_empty(votes: Seq<usize>, c: usize)
    requires
        votes.len() == 0,
    ensures
        tally(votes, c) == 0,
{
}

pub proof fn lemma_take_all(votes: Seq<usize>)
    ensures
        votes.take(votes.len() as int) =~= votes,
{
}

/// Counts the votes for `c` among the first `n` votes.
fn count_prefix(votes: &Vec<usize>, n: usize, c: usize) -> (r: usize)
    requires
        n <= votes.len(),
    ensures
        r == tally(votes@.take(n as int), c),
{
    let mut r: usize = 0;
    let mut i: usize = 0;
    assert(votes@.take(0) =~= Seq::<usize>::empty());
    while i < n
        invariant
            i <= n <= votes.len(),
            r == tally(votes@.take(i as int), c),
            r <= i,
        decreases n - i,
    {
        proof {
            lemma_tally_step(votes@, i as int, c);
        }
        if votes[i] == c {
            r = r + 1;
        }
        i = i + 1;
    }
    r
}

/// The largest tally, among the first `n` votes, of a candidate other than `v`, with a
/// candidate other than `v` that has it.
fn runner_up_prefix(votes: &Vec<usize>, n: usize, v: usize) -> (r: (usize, Ghost<usize>))
    requires
        n <= votes.len(),
    ensures
        r.1@ != v,
        tally(votes@.take(n as int), r.1@) == r.0,
        forall|d: usize| d != v ==> #[trigger] tally(votes@.take(n as int), d) <= r.0,
{
    let ghost p = votes@.take(n as int);
    let ghost w0: usize = if v == 0 {
        1
    } else {
        0
    };
    let mut best: usize = 0;
    let ghost mut witness: usize = w0;
    let mut j: usize = 0;
    while j < n
        invariant
            j <= n <= votes.len(),
            p == votes@.take(n as int),
            witness != v,
            w0 != v,
            best == 0 || tally(p, witness) == best,
            best == 0 ==> witness == w0,
            forall|jj: int| 0 <= jj < j && votes@[jj] != v ==> #[trigger] tally(p, votes@[jj]) <= best,
        decreases n - j,
    {
        let d = votes[j];
        if d != v {
            let cd = count_prefix(votes, n, d);
            if cd > best {
                best = cd;
                proof {
                    witness = d;
                }
            }
        }
        j = j + 1;
    }
    proof {
        assert forall|d: usize| d != v implies #[trigger] tally(p, d) <= best by {
            if tally(p, d) > 0 {
                lemma_tally_positive(p, d);
                let jj = choose|jj: int| 0 <= jj < p.len() && p[jj] == d;
                assert(votes@[jj] == d);
            }
        }
        if best == 0 {
            assert(tally(p, w0) <= 0);
        }
    }
    (best, Ghost(witness))
}

proof fn lemma_still_undecided(votes: Seq<usize>, n: int, v: usize, k: nat)
    requires
        1 <= n <= votes.len(),
        votes[n - 1] == v,
        k >= 1,
        undecided_through(votes, n - 1, k),
    ensures
        forall|c: usize| c != v ==> !#[trigger] ahead_by(votes, n, c, k),
{
    assert forall|c: usize| c != v implies !#[trigger] ahead_by(votes, n, c, k) by {
        if ahead_by(votes, n, c, k) {
            lemma_tally_step(votes, n - 1, c);
            assert forall|d: usize| d != c implies #[trigger] tally(votes.take(n - 1), d) + k
                <= tally(votes.take(n - 1), c) by {
                lemma_tally_step(votes, n - 1, d);
                assert(tally(votes.take(n), d) + k <= tally(votes.take(n), c));
            }
            assert(ahead_by(votes, n - 1, c, k));
        }
    }
}

/// Streams the votes and returns the first candidate to lead every other candidate by `k`.
pub fn first_to_ahead_by_k(votes: &Vec<usize>, k: usize) -> (r: Option<usize>)
    requires
        k >= 1,
    ensures
        streaming_decision(votes@, k as nat, r),
{
    let ghost s = votes@;
    proof {
        assert forall|m: int, c: usize| 0 <= m <= 0 implies !#[trigger] ahead_by(s, m, c, k as nat) by {
            let d: usize = if c == 0 {
                1
            } else {
                0
            };
            assert(s.take(m).len() == 0);
            lemma_tally_empty(s.take(m), d);
            lemma_tally_empty(s.take(m), c);
            assert(!(tally(s.take(m), d) + k <= tally(s.take(m), c)));
        }
    }
    let mut i: usize = 0;
    while i < votes.len()
        invariant
            s == votes@,
            i <= votes.len(),
            k >= 1,
            undecided_through(s, i as int, k as nat),
        decreases votes.len() - i,
    {
        let v = votes[i];
        let n = i + 1;
        let cv = count_prefix(votes, n, v);
        let (other, Ghost(w)) = runner_up_prefix(votes, n, v);
        proof {
            lemma_still_undecided(s, n as int, v, k as nat);
        }
        if other < cv && cv - other >= k {
            proof {
                assert(ahead_by(s, n as int, v, k as nat));
                assert(undecided_through(s, n as int - 1, k as nat));
                assert(decided_at(s, n as int, v, k as nat));
                let r = Some(v);
                assert(decided_at(votes@, n as int, r->0, k as nat));
                assert(streaming_decision(votes@, k as nat, r));
            }
            return Some(v);
        }
        proof {
            assert(tally(s.take(n as int), w) + k > tally(s.take(n as int), v));
            assert(!ahead_by(s, n as int, v, k as nat));
            assert forall|m: int, c: usize| 0 <= m <= n implies !#[trigger] ahead_by(
                s,
                m,
                c,
                k as nat,
            ) by {
                if m < n {
                } else if c != v {
                }
            }
        }
        i = n;
    }
    None
}

/// Plurality of the votes; on a tie, the lowest candidate. `None` when there are no votes.
pub fn majority_vote(votes: &Vec<usize>) -> (r: Option<usize>)
    ensures
        votes@.len() == 0 <==> r is None,
        r matches Some(c) ==> plurality_winner(votes@, c),
{
    if votes.len() == 0 {
        return None;
    }
    let ghost s = votes@;
    let n = votes.len();
    proof {
        lemma_take_all(s);
    }
    let mut best_c = votes[0];
    let mut best = count_prefix(votes, n, best_c);
    proof {
        lemma_take_all(s);
        assert(s[0] == best_c);
        if best == 0 {
            assert(s.take(1).drop_last() =~= s.take(0));
        }
    }
    let mut j: usize = 1;
    while j < n
        invariant
            s == votes@,
            n == s.len(),
            1 <= j <= n,
            best == tally(s, best_c),
            exists|jj: int| 0 <= jj < j && s[jj] == best_c,
            forall|jj: int|
                0 <= jj < j ==> #[trigger] tally(s, s[jj]) < best || (tally(s, s[jj]) == best
                    && best_c <= s[jj]),
        decreases n - j,
    {
        let d = votes[j];
        let cd = count_prefix(votes, n, d);
        proof {
            lemma_take_all(s);
        }
        if cd > best || (cd == best && d < best_c) {
            best = cd;
            best_c = d;
        }
        j = j + 1;
    }
    proof {
        let jj = choose|jj: int| 0 <= jj < n && s[jj] == best_c;
        assert(tally(s, best_c) > 0) by {
            lemma_tally_nonzero_at(s, jj);
        }
        assert forall|d: usize| #[trigger] tally(s, d) <= tally(s, best_c) by {
            if tally(s, d) > 0 {
                lemma_tally_positive(s, d);
                let j2 = choose|j2: int| 0 <= j2 < s.len() && s[j2] == d;
                assert(tally(s, s[j2]) <= best);
            }
        }
        assert forall|d: usize| d < best_c implies #[trigger] tally(s, d) < tally(s, best_c) by {
            if tally(s, d) > 0 {
                lemma_tally_positive(s, d);
                let j2 = choose|j2: int| 0 <= j2 < s.len() && s[j2] == d;
                assert(tally(s, s[j2]) < best || best_c <= s[j2]);
            }
        }
    }
    Some(best_c)
}

pub proof fn lemma_tally_nonzero_at(votes: Seq<usize>, j: int)
    requires
        0 <= j < votes.len(),
    ensures
        tally(votes, votes[j]) > 0,
    decreases votes.len(),
{
    if j < votes.len() - 1 {
        lemma_tally_nonzero_at(votes.drop_last(), j);
    }
}

/// Votes for `winner_idx` and the best count among the other options below
/// `candidate_count`; votes at or past `candidate_count` are ignored.
pub fn vote_counts(votes: &Vec<usize>, candidate_count: usize, winner_idx: usize) -> (r: (
    usize,
    usize,
))
    ensures
        candidate_count == 0 ==> r == (0usize, 0usize),
        candidate_count > 0 ==> r.0 == if winner_idx < candidate_count {
            tally(votes@, winner_idx)
        } else {
            0
        },
        candidate_count > 0 ==> best_other(votes@, candidate_count as nat, winner_idx, r.1 as nat),
{
    if candidate_count == 0 {
        return (0, 0);
    }
    let n = votes.len();
    let ghost s = votes@;
    proof {
        lemma_take_all(s);
    }
    let winner = if winner_idx < candidate_count {
        count_prefix(votes, n, winner_idx)
    } else {
        0
    };
    let mut runner_up: usize = 0;
    let mut d: usize = 0;
    while d < candidate_count
        invariant
            s == votes@,
            n == s.len(),
            d <= candidate_count,
            forall|e: usize| e < d && e != winner_idx ==> #[trigger] tally(s, e) <= runner_up,
            runner_up == 0 || exists|e: usize|
                e < d && e != winner_idx && #[trigger] tally(s, e) == runner_up,
        decreases candidate_count - d,
    {
        if d != winner_idx {
            let c = count_prefix(votes, n, d);
            proof {
                lemma_take_all(s);
            }
            if c > runner_up {
                runner_up = c;
            }
        }
        d = d + 1;
    }
    (winner, runner_up)
}

/// Picks the winning option among `options` from parsed votes.
pub fn select_winner(votes: &Vec<usize>, k: usize, options: usize) -> (r: usize)
    requires
        k >= 1,
        options >= 1,
    ensures
        r < options,
        chosen_index(votes@, k as nat, options as nat, r),
{
    let streamed = first_to_ahead_by_k(votes, k);
    let raw = match streamed {
        Some(c) => c,
        None => match majority_vote(votes) {
            Some(c) => c,
            None => 0,
        },
    };
    let picked = if raw < options {
        raw
    } else {
        options - 1
    };
    proof {
        assert(streaming_decision(votes@, k as nat, streamed));
        assert(choose_index_from(votes@, streamed, raw));
    }
    picked
}

/// The margin recorded for a vote: winner minus runner-up, at least one.
pub open spec fn margin_of(winner_votes: nat, runner_up_votes: nat) -> nat {
    if winner_votes > runner_up_votes + 1 {
        (winner_votes - runner_up_votes) as nat
    } else {
        1
    }
}

pub fn vote_margin(winner_votes: usize, runner_up_votes: usize) -> (r: usize)
    ensures
        r == margin_of(winner_votes as nat, runner_up_votes as nat),
        r >= 1,
{
    let diff = winner_votes.saturating_sub(runner_up_votes);
    if diff > 1 {
        diff
    } else {
        1
    }
}

/// The vote threshold after adapting `base_k` to the average of the recent margins.
pub open spec fn adapted_k(base_k: nat, margins: Seq<usize>, sum: nat) -> nat {
    if margins.len() == 0 {
        base_k
    } else if 4 * sum < 3 * base_k * margins.len() {
        base_k + 1
    } else if 2 * sum > 3 * base_k * margins.len() && base_k > 1 {
        (base_k - 1) as nat
    } else {
        base_k
    }
}

pub open spec fn sum_margins(margins: Seq<usize>) -> nat
    decreases margins.len(),
{
    if margins.len() == 0 {
        0
    } else {
        sum_margins(margins.drop_last()) + margins.last() as nat
    }
}

/// The effective `k`: `base_k` when adaptation is off or no margin is known, else moved by one
/// toward the recent margins' average.
pub fn resolve_k(base_k: usize, adaptive: bool, recent_margins: &Vec<usize>) -> (r: usize)
    requires
        base_k >= 1,
        base_k < usize::MAX,
        recent_margins.len() <= 8,
    ensures
        !adaptive ==> r == base_k,
        adaptive ==> r == adapted_k(base_k as nat, recent_margins@, sum_margins(recent_margins@)),
        r >= 1,
{
    if !adaptive || recent_margins.len() == 0 {
        return base_k;
    }
    let ghost s = recent_margins@;
    let mut sum: u128 = 0;
    let mut i: usize = 0;
    while i < recent_margins.len()
        invariant
            s == recent_margins@,
            s.len() <= 8,
            i <= s.len(),
            sum == sum_margins(s.take(i as int)),
            sum <= i * (usize::MAX as nat),
        decreases s.len() - i,
    {
        proof {
            assert(s.take(i as int + 1).drop_last() =~= s.take(i as int));
        }
        sum = sum + recent_margins[i] as u128;
        i = i + 1;
    }
    proof {
        assert(s.take(s.len() as int) =~= s);
    }
    let len = recent_margins.len() as u128;
    let base = base_k as u128;
    proof {
        assert(3 * base * len <= 24 * (usize::MAX as nat)) by (nonlinear_arith)
            requires
                len <= 8,
                base <= usize::MAX,
        ;
        assert(sum <= 8 * (usize::MAX as nat)) by (nonlinear_arith)
            requires
                sum <= len * (usize::MAX as nat),
                len <= 8,
        ;
    }
    if 4 * sum < 3 * base * len {
        base_k + 1
    } else if 2 * sum > 3 * base * len && base_k > 1 {
        base_k - 1
    } else {
        base_k
    }
}

} // verus!
