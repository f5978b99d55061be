use vstd::prelude::*;

verus! {

/// A match as the ranking sees it: its path, its item kind, and its score.
pub type Candidate = (Seq<char>, Seq<char>, u64);

/// The most matches a search returns.
pub const MAX_RESULTS: usize = 20;

/// The IEEE-754 bit pattern of the similarity threshold 0.8. Scores are never
/// negative, so comparing bit patterns as unsigned integers orders them as the
/// scores themselves.
pub const THRESHOLD_BITS: u64 = 0x3FE9_9999_9999_999A;

/// The Jaro-Winkler similarity of two texts, as the bit pattern of the `f64`
/// that `strsim` computes for them.
pub uninterp spec fn jaro_winkler_bits(a: Seq<char>, b: Seq<char>) -> u64;

/// Relies on `strsim::jaro_winkler`: the similarity of `a` and `b`, a value in
/// `[0, 1]`, handed back as its bit pattern.
#[verifier::external_body]
pub(crate) fn similarity_bits(a: &str, b: &str) -> (r: u64)
    ensures
        r == jaro_winkler_bits(a@, b@),
{
    strsim::jaro_winkler(a, b).to_bits()
}

/// Whether `needle` occurs in `haystack` as a contiguous run.
pub open spec fn contains_text(haystack: Seq<char>, needle: Seq<char>) -> bool {
    exists|i: int|
        0 <= i && i + needle.len() <= haystack.len() && #[trigger] haystack.subrange(
            i,
            i + needle.len(),
        ) == needle
}

/// Relies on `str::contains`: whether `needle` occurs in `haystack`.
#[verifier::external_body]
pub(crate) fn str_contains(haystack: &str, needle: &str) -> (r: bool)
    ensures
        r == contains_text(haystack@, needle@),
{
    haystack.contains(needle)
}

/// Whether a path matches a query: similar enough, or containing it.
pub open spec fn is_match(query: Seq<char>, path: Seq<char>) -> bool {
    jaro_winkler_bits(query, path) > THRESHOLD_BITS || contains_text(path, query)
}

/// `x` placed after every leading entry that scores at least as high.
pub open spec fn insert_by_score(s: Seq<Candidate>, x: Candidate) -> Seq<Candidate>
    decreases s.len(),
{
    if s.len() == 0 {
        seq![x]
    } else if s[0].2 >= x.2 {
        seq![s[0]] + insert_by_score(s.drop_first(), x)
    } else {
        seq![x] + s
    }
}

/// The candidates by non-increasing score; equal scores keep the order in
/// which they were found.
pub open spec fn rank(s: Seq<Candidate>) -> Seq<Candidate>
    decreases s.len(),
{
    if s.len() == 0 {
        Seq::empty()
    } else {
        insert_by_score(rank(s.drop_last()), s.last())
    }
}

/// The first `n` entries of `s`, or all of them when there are fewer.
pub open spec fn first_n<A>(s: Seq<A>, n: nat) -> Seq<A> {
    if s.len() > n {
        s.take(n as int)
    } else {
        s
    }
}

/// The first `MAX_RESULTS` candidates by rank.
pub open spec fn top_matches(cands: Seq<Candidate>) -> Seq<Candidate> {
    first_n(rank(cands), MAX_RESULTS as nat)
}

pub open spec fn non_increasing(s: Seq<Candidate>) -> bool {
    forall|i: int, j: int| 0 <= i < j < s.len() ==> s[i].2 >= s[j].2
}

/// Where `insert_by_score` puts `x`: after the first `j` entries, all of which
/// score at least as high, and before an entry that scores lower.
pub proof fn lemma_insert_at(s: Seq<Candidate>, x: Candidate, j: int)
    requires
        0 <= j <= s.len(),
        forall|k: int| 0 <= k < j ==> s[k].2 >= x.2,
        j < s.len() ==> s[j].2 < x.2,
    ensures
        insert_by_score(s, x) == s.insert(j, x),
    decreases s.len(),
{
    if s.len() == 0 {
        assert(s.insert(j, x) =~= seq![x]);
    } else if j == 0 {
        assert(s.insert(j, x) =~= seq![x] + s);
    } else {
        lemma_insert_at(s.drop_first(), x, j - 1);
        assert(s.insert(j, x) =~= seq![s[0]] + s.drop_first().insert(j - 1, x));
    }
}

/// Only the first `n` entries matter to the first `n` after an insertion.
pub proof fn lemma_insert_first_n(s: Seq<Candidate>, x: Candidate, n: nat)
    ensures
        first_n(insert_by_score(s, x), n) == first_n(insert_by_score(first_n(s, n), x), n),
    decreases s.len(), n,
{
    lemma_insert_len(s, x);
    lemma_insert_len(first_n(s, n), x);
    if s.len() <= n {
    } else if n == 0 {
        assert(first_n(insert_by_score(s, x), n) =~= Seq::<Candidate>::empty());
        assert(first_n(insert_by_score(first_n(s, n), x), n) =~= Seq::<Candidate>::empty());
    } else if s[0].2 >= x.2 {
        let t = s.drop_first();
        lemma_insert_first_n(t, x, (n - 1) as nat);
        lemma_insert_len(t, x);
        lemma_insert_len(first_n(t, (n - 1) as nat), x);
        let fs = first_n(s, n);
        assert(fs[0] == s[0]);
        assert(fs.drop_first() =~= first_n(t, (n - 1) as nat));
        assert(first_n(insert_by_score(s, x), n) =~= seq![s[0]] + first_n(
            insert_by_score(t, x),
            (n - 1) as nat,
        ));
        assert(first_n(insert_by_score(fs, x), n) =~= seq![s[0]] + first_n(
            insert_by_score(first_n(t, (n - 1) as nat), x),
            (n - 1) as nat,
        ));
    } else {
        let fs = first_n(s, n);
        assert(fs[0] == s[0]);
        assert(first_n(insert_by_score(s, x), n) =~= seq![x] + first_n(s, (n - 1) as nat));
        assert(first_n(insert_by_score(fs, x), n) =~= seq![x] + first_n(s, (n - 1) as nat));
    }
}

pub proof fn lemma_insert_len(s: Seq<Candidate>, x: Candidate)
    ensures
        insert_by_score(s, x).len() == s.len() + 1,
    decreases s.len(),
{
    if s.len() > 0 && s[0].2 >= x.2 {
        lemma_insert_len(s.drop_first(), x);
    }
}

pub proof fn lemma_insert_members(s: Seq<Candidate>, x: Candidate)
    ensures
        forall|i: int|
            0 <= i < insert_by_score(s, x).len() ==> #[trigger] insert_by_score(s, x)[i] == x
                || s.contains(insert_by_score(s, x)[i]),
    decreases s.len(),
{
    lemma_insert_len(s, x);
    if s.len() > 0 && s[0].2 >= x.2 {
        let t = s.drop_first();
        lemma_insert_members(t, x);
        lemma_insert_len(t, x);
        let r = insert_by_score(s, x);
        assert forall|i: int| 0 <= i < r.len() implies #[trigger] r[i] == x || s.contains(r[i]) by {
            if i == 0 {
                assert(s.contains(s[0]));
            } else {
                assert(r[i] == insert_by_score(t, x)[i - 1]);
                if t.contains(r[i]) {
                    let k = choose|k: int| 0 <= k < t.len() && t[k] == r[i];
                    assert(s[k + 1] == r[i]);
                }
            }
        }
    } else if s.len() > 0 {
        let r = insert_by_score(s, x);
        assert forall|i: int| 0 <= i < r.len() implies #[trigger] r[i] == x || s.contains(r[i]) by {
            if i > 0 {
                assert(r[i] == s[i - 1]);
            }
        }
    }
}

/// Every ranked candidate is one of the candidates.
pub proof fn lemma_rank_members(s: Seq<Candidate>)
    ensures
        rank(s).len() == s.len(),
        forall|i: int| 0 <= i < rank(s).len() ==> s.contains(#[trigger] rank(s)[i]),
    decreases s.len(),
{
    if s.len() > 0 {
        let p = s.drop_last();
        lemma_rank_members(p);
        lemma_insert_members(rank(p), s.last());
        lemma_insert_len(rank(p), s.last());
        assert forall|i: int| 0 <= i < rank(s).len() implies s.contains(#[trigger] rank(s)[i]) by {
            let y = rank(s)[i];
            if y == s.last() {
                assert(s[s.len() - 1] == y);
            } else {
                assert(rank(p).contains(y));
                let k = choose|k: int| 0 <= k < rank(p).len() && rank(p)[k] == y;
                assert(p.contains(rank(p)[k]));
                let m = choose|m: int| 0 <= m < p.len() && p[m] == y;
                assert(s[m] == y);
            }
        }
    }
}

proof fn lemma_insert_sorted(s: Seq<Candidate>, x: Candidate)
    requires
        non_increasing(s),
    ensures
        non_increasing(insert_by_score(s, x)),
        insert_by_score(s, x).len() > 0,
        insert_by_score(s, x)[0] == x || (s.len() > 0 && insert_by_score(s, x)[0] == s[0]),
    decreases s.len(),
{
    lemma_insert_len(s, x);
    if s.len() > 0 && s[0].2 >= x.2 {
        let t = s.drop_first();
        assert(non_increasing(t));
        lemma_insert_sorted(t, x);
        let r = insert_by_score(s, x);
        let q = insert_by_score(t, x);
        assert(r =~= seq![s[0]] + q);
        assert forall|i: int, j: int| 0 <= i < j < r.len() implies r[i].2 >= r[j].2 by {
            if i == 0 {
                assert(q[0].2 <= s[0].2);
                assert(r[j] == q[j - 1]);
                if j > 1 {
                    assert(q[0].2 >= q[j - 1].2);
                }
            } else {
                assert(r[i] == q[i - 1] && r[j] == q[j - 1]);
            }
        }
    } else if s.len() > 0 {
        let r = insert_by_score(s, x);
        assert(r =~= seq![x] + s);
        assert forall|i: int, j: int| 0 <= i < j < r.len() implies r[i].2 >= r[j].2 by {
            if i == 0 {
                assert(r[j] == s[j - 1]);
                assert(s[0].2 >= s[j - 1].2 || j - 1 == 0);
            } else {
                assert(r[i] == s[i - 1] && r[j] == s[j - 1]);
            }
        }
    }
}

proof fn lemma_insert_keeps(s: Seq<Candidate>, x: Candidate)
    ensures
        insert_by_score(s, x).contains(x),
        forall|y: Candidate| s.contains(y) ==> #[trigger] insert_by_score(s, x).contains(y),
    decreases s.len(),
{
    let r = insert_by_score(s, x);
    if s.len() == 0 {
        assert(r[0] == x);
    } else if s[0].2 >= x.2 {
        let t = s.drop_first();
        lemma_insert_keeps(t, x);
        let q = insert_by_score(t, x);
        assert(r =~= seq![s[0]] + q);
        let k = choose|k: int| 0 <= k < q.len() && q[k] == x;
        assert(r[k + 1] == x);
        assert forall|y: Candidate| s.contains(y) implies #[trigger] r.contains(y) by {
            let j = choose|j: int| 0 <= j < s.len() && s[j] == y;
            if j == 0 {
                assert(r[0] == y);
            } else {
                assert(t[j - 1] == y);
                assert(t.contains(y));
                assert(insert_by_score(t, x).contains(y));
                let m = choose|m: int| 0 <= m < q.len() && q[m] == y;
                assert(r[m + 1] == y);
            }
        }
    } else {
        assert(r =~= seq![x] + s);
        assert(r[0] == x);
        assert forall|y: Candidate| s.contains(y) implies #[trigger] r.contains(y) by {
            let j = choose|j: int| 0 <= j < s.len() && s[j] == y;
            assert(r[j + 1] == y);
        }
    }
}

/// Ranking loses no candidate.
pub proof fn lemma_rank_keeps(s: Seq<Candidate>)
    ensures
        forall|y: Candidate| s.contains(y) ==> #[trigger] rank(s).contains(y),
    decreases s.len(),
{
    if s.len() > 0 {
        let p = s.drop_last();
        lemma_rank_keeps(p);
        lemma_insert_keeps(rank(p), s.last());
        assert forall|y: Candidate| s.contains(y) implies #[trigger] rank(s).contains(y) by {
            let j = choose|j: int| 0 <= j < s.len() && s[j] == y;
            if j < s.len() - 1 {
                assert(p[j] == y);
                assert(p.contains(y));
            }
        }
    }
}

/// Ranking orders candidates by non-increasing score.
pub proof fn lemma_rank_sorted(s: Seq<Candidate>)
    ensures
        non_increasing(rank(s)),
    decreases s.len(),
{
    if s.len() > 0 {
        lemma_rank_sorted(s.drop_last());
        lemma_insert_sorted(rank(s.drop_last()), s.last());
    }
}

} // verus!
