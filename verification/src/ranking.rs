use vstd::prelude::*;

verus! {

/// How many present values of `values` are strictly greater than `x`.
pub open spec fn count_greater(values: Seq<Option<u64>>, x: u64) -> nat
    decreases values.len(),
{
    if values.len() == 0 {
        0
    } else {
        count_greater(values.drop_last(), x) + (if values.last() matches Some(y) && y > x {
            1nat
        } else {
            0nat
        })
    }
}

/// The rank that a score holds among the scores of one exam and subject: none
/// for a missing score, else one more than the number of strictly higher scores,
/// so that equal scores share a rank.
pub open spec fn rank_among(values: Seq<Option<u64>>, v: Option<u64>) -> Option<int> {
    match v {
        None => None,
        Some(x) => Some(1 + count_greater(values, x) as int),
    }
}

fn count_greater_exec(values: &Vec<Option<u64>>, x: u64) -> (r: u64)
    requires
        values@.len() < u64::MAX,
    ensures
        r == count_greater(values@, x),
{
    let mut c: u64 = 0;
    let mut j: usize = 0;
    while j < values.len()
        invariant
            values@.len() < u64::MAX,
            j <= values@.len(),
            c == count_greater(values@.take(j as int), x),
            c <= j,
        decreases values.len() - j,
    {
        proof {
            assert(values@.take(j + 1).drop_last() =~= values@.take(j as int));
        }
        match values[j] {
            Some(y) => {
                if y > x {
                    c = c + 1;
                }
            },
            None => {},
        }
        j = j + 1;
    }
    proof {
        assert(values@.take(values@.len() as int) =~= values@);
    }
    c
}

/// The ranks of all scores of one exam and subject (`values[i]` is the score
/// of row `i`, `None` when missing): a missing score has no rank, a present
/// one ranks one after all strictly higher scores.
pub fn rank_scores(values: &Vec<Option<u64>>) -> (r: Vec<Option<i64>>)
    requires
        values@.len() < i64::MAX,
    ensures
        r@.len() == values@.len(),
        forall|i: int|
            0 <= i < values@.len() ==> match #[trigger] r@[i] {
                None => rank_among(values@, values@[i]) is None,
                Some(k) => rank_among(values@, values@[i]) == Some(k as int),
            },
{
    let mut r: Vec<Option<i64>> = Vec::new();
    let mut i: usize = 0;
    while i < values.len()
        invariant
            values@.len() < i64::MAX,
            i <= values@.len(),
            r@.len() == i,
            forall|k: int|
                0 <= k < i ==> match #[trigger] r@[k] {
                    None => rank_among(values@, values@[k]) is None,
                    Some(v) => rank_among(values@, values@[k]) == Some(v as int),
                },
        decreases values.len() - i,
    {
        match values[i] {
            None => r.push(None),
            Some(x) => {
                let c = count_greater_exec(values, x);
                proof {
                    lemma_count_greater_bound(values@, x);
                }
                r.push(Some((c + 1) as i64));
            },
        }
        i = i + 1;
    }
    r
}

proof fn lemma_count_greater_bound(values: Seq<Option<u64>>, x: u64)
    ensures
        count_greater(values, x) <= values.len(),
    decreases values.len(),
{
    if values.len() > 0 {
        lemma_count_greater_bound(values.drop_last(), x);
    }
}

/// Where the run of values equal to `s[i]` that ends at `i` begins.
pub open spec fn run_start(s: Seq<u64>, i: int) -> int
    decreases i,
{
    if i <= 0 {
        0
    } else if s[i] != s[i - 1] {
        i
    } else {
        run_start(s, i - 1)
    }
}

/// Ranks of totals listed from highest to lowest: the first row ranks 1, a row
/// equal to the one before shares its rank, any other row ranks by its position.
pub fn competition_ranks(totals: &Vec<u64>) -> (r: Vec<i64>)
    requires
        totals@.len() < i64::MAX,
    ensures
        r@.len() == totals@.len(),
        forall|i: int| 0 <= i < totals@.len() ==> #[trigger] r@[i] == run_start(totals@, i) + 1,
{
    let mut r: Vec<i64> = Vec::new();
    let mut last: Option<u64> = None;
    let mut current: i64 = 0;
    let mut i: usize = 0;
    while i < totals.len()
        invariant
            totals@.len() < i64::MAX,
            i <= totals@.len(),
            r@.len() == i,
            forall|k: int| 0 <= k < i ==> #[trigger] r@[k] == run_start(totals@, k) + 1,
            i == 0 ==> last is None,
            i > 0 ==> last == Some(totals@[i - 1]) && current == r@[i - 1],
        decreases totals.len() - i,
    {
        let score = totals[i];
        if last != Some(score) {
            current = (i + 1) as i64;
            last = Some(score);
        }
        r.push(current);
        i = i + 1;
    }
    r
}

proof fn lemma_run_start_counts(s: Seq<u64>, i: int)
    requires
        0 <= i < s.len(),
        forall|a: int, b: int| 0 <= a < b < s.len() ==> s[a] >= s[b],
    ensures
        0 <= run_start(s, i) <= i,
        forall|j: int| 0 <= j < run_start(s, i) ==> s[j] > s[i],
        forall|j: int| run_start(s, i) <= j <= i ==> s[j] == s[i],
    decreases i,
{
    if i > 0 && s[i] == s[i - 1] {
        lemma_run_start_counts(s, i - 1);
    }
}

proof fn lemma_count_greater_sorted(s: Seq<u64>, x: u64, k: int)
    requires
        0 <= k <= s.len(),
        forall|j: int| 0 <= j < k ==> s[j] > x,
        forall|j: int| k <= j < s.len() ==> s[j] <= x,
    ensures
        count_greater(s.map_values(|v: u64| Some(v)), x) == k,
    decreases s.len(),
{
    let m = s.map_values(|v: u64| Some(v));
    if s.len() > 0 {
        let t = s.drop_last();
        assert(m.drop_last() =~= t.map_values(|v: u64| Some(v)));
        if k == s.len() {
            lemma_count_greater_sorted(t, x, k - 1);
        } else {
            lemma_count_greater_sorted(t, x, k);
        }
    }
}

/// Ranking totals listed from highest to lowest by position, with ties sharing
/// the rank of their first row, gives each row one more than the number of
/// strictly higher totals: the same ranks as ranking each score among all scores.
pub proof fn law_competition_ranks_count_higher(s: Seq<u64>)
    requires
        forall|a: int, b: int| 0 <= a < b < s.len() ==> s[a] >= s[b],
    ensures
        forall|i: int|
            0 <= i < s.len() ==> rank_among(s.map_values(|v: u64| Some(v)), Some(#[trigger] s[i]))
                == Some(run_start(s, i) + 1),
{
    assert forall|i: int| 0 <= i < s.len() implies rank_among(
        s.map_values(|v: u64| Some(v)),
        Some(#[trigger] s[i]),
    ) == Some(run_start(s, i) + 1) by {
        lemma_run_start_counts(s, i);
        let k = run_start(s, i);
        assert forall|j: int| k <= j < s.len() implies s[j] <= s[i] by {
            if j > i {
                assert(s[i] >= s[j]);
            }
        }
        lemma_count_greater_sorted(s, s[i], k);
    }
}

} // verus!
