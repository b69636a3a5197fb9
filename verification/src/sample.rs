//! Sampling: a bounded, uniform random selection without replacement
//! from the store, and the count-clamping policy that bounds it.

use crate::model::ArtistPerformance;
use crate::store::Store;
use vstd::prelude::*;
use vstd::string::StringExecFns;

verus! {

/// A requested sample size clamped to the fixed policy range [1, 5].
pub open spec fn clamp_count(v: int) -> int {
    if v < 1 {
        1
    } else if v > 5 {
        5
    } else {
        v
    }
}

/// The sample size actually used for a request: an absent count defaults
/// to 1, and any count is clamped to [1, 5].
pub open spec fn effective_count_spec(requested: Option<usize>) -> int {
    match requested {
        Some(c) => clamp_count(c as int),
        None => clamp_count(1),
    }
}

/// Clamp law: for every integer `c`, the clamped count is
/// `max(1, min(5, c))`, and an absent count yields 1.
pub proof fn lemma_clamp_count(c: int)
    ensures
        clamp_count(c) == vstd::math::max(1, vstd::math::min(5, c)),
        effective_count_spec(None) == 1,
{
}

/// Resolve the optional requested count to the size actually sampled.
pub fn effective_count(requested: Option<usize>) -> (r: usize)
    ensures
        r as int == effective_count_spec(requested),
        1 <= r <= 5,
{
    let v: usize = match requested {
        Some(c) => c,
        None => 1,
    };
    if v < 1 {
        1
    } else if v > 5 {
        5
    } else {
        v
    }
}

/// The failure a request boundary reports when sampling finds nothing.
#[derive(Clone, Copy, Debug, PartialEq, Eq)]
pub enum SampleError {
    /// The store holds no performances at all.
    EmptyStore,
}

impl SampleError {
    /// The diagnostic text the request boundary reports for this error.
    pub fn message(&self) -> (m: String)
        ensures
            m@ == "No performances found."@,
    {
        String::from_str("No performances found.")
    }
}

/// Relies on `rand::Rng::random_range` over the thread-local generator
/// `rand::rng()`: it returns a value of the given non-empty range.
/// Nothing beyond the bound is claimed, since the result depends on the
/// generator's state, not on the arguments alone.
#[verifier::external_body]
fn random_below(bound: usize) -> (r: usize)
    requires
        bound > 0,
    ensures
        r < bound,
{
    rand::Rng::random_range(&mut rand::rng(), 0..bound)
}

/// The records of `result` stand at distinct positions of `store`:
/// `picks` lists those positions, one per record, none repeated.
pub open spec fn picked_from(
    picks: Seq<int>,
    result: Seq<ArtistPerformance>,
    store: Seq<ArtistPerformance>,
) -> bool {
    &&& picks.no_duplicates()
    &&& picks.len() == result.len()
    &&& forall|i: int|
        0 <= i < picks.len() ==> 0 <= #[trigger] picks[i] < store.len() && result[i]
            == store[picks[i]]
}

impl Store {
    /// Draw a uniform random sample without replacement: the result
    /// holds `min(effective_count(requested), len)` records, each taken
    /// from a distinct position of the store. Positions are drawn one by
    /// one from a shrinking pool of the remaining positions, so every
    /// subset of the target size is equally likely.
    pub fn sample(&self, requested: Option<usize>) -> (r: Vec<ArtistPerformance>)
        ensures
            r@.len() == vstd::math::min(effective_count_spec(requested), self@.len() as int),
            exists|picks: Seq<int>| picked_from(picks, r@, self@),
            self@.len() == 0 ==> r@.len() == 0,
    {
        let n = self.len();
        let want = effective_count(requested);
        let k = if want < n {
            want
        } else {
            n
        };

        // every position of the store, none drawn yet
        let mut pool: Vec<usize> = Vec::new();
        let mut i: usize = 0;
        while i < n
            invariant
                i <= n,
                pool@.len() == i as int,
                forall|p: int| 0 <= p < i as int ==> #[trigger] pool@[p] == p,
            decreases n - i,
        {
            pool.push(i);
            i = i + 1;
        }
        proof {
            assert forall|a: int, b: int|
                0 <= a < pool@.len() && 0 <= b < pool@.len() && a != b implies pool@[a]
                != pool@[b] by {
                assert(pool@[a] == a);
                assert(pool@[b] == b);
            }
            assert(pool@.no_duplicates());
        }

        // draw k distinct positions
        let mut chosen: Vec<usize> = Vec::new();
        let mut t: usize = 0;
        while t < k
            invariant
                t <= k,
                k <= n,
                pool@.len() == n as int - t as int,
                chosen@.len() == t as int,
                pool@.no_duplicates(),
                chosen@.no_duplicates(),
                chosen@.disjoint(pool@),
                forall|p: int| 0 <= p < pool@.len() ==> #[trigger] pool@[p] < n,
                forall|p: int| 0 <= p < chosen@.len() ==> #[trigger] chosen@[p] < n,
            decreases k - t,
        {
            let ghost old_pool = pool@;
            let ghost old_chosen = chosen@;
            let j = random_below(pool.len());
            let picked = pool.remove(j);
            proof {
                assert(pool@ == old_pool.remove(j as int));
                old_pool.remove_ensures(j as int);
                assert(picked == old_pool[j as int]);
                assert forall|b: int|
                    0 <= b < pool@.len() implies #[trigger] pool@[b] < n && pool@[b]
                    != picked by {
                    let b0 = if b < j as int {
                        b
                    } else {
                        b + 1
                    };
                    assert(pool@[b] == old_pool[b0]);
                }
                assert forall|a: int, b: int|
                    0 <= a < pool@.len() && 0 <= b < pool@.len() && a != b implies pool@[a]
                    != pool@[b] by {
                    let a0 = if a < j as int {
                        a
                    } else {
                        a + 1
                    };
                    let b0 = if b < j as int {
                        b
                    } else {
                        b + 1
                    };
                    assert(pool@[a] == old_pool[a0]);
                    assert(pool@[b] == old_pool[b0]);
                }
                assert(pool@.no_duplicates());
                assert forall|a: int, b: int|
                    0 <= a < old_chosen.len() && 0 <= b < pool@.len() implies old_chosen[a]
                    != pool@[b] by {
                    let b0 = if b < j as int {
                        b
                    } else {
                        b + 1
                    };
                    assert(pool@[b] == old_pool[b0]);
                    assert(old_chosen[a] != old_pool[b0]);
                }
                assert(old_chosen.disjoint(pool@));
            }
            chosen.push(picked);
            proof {
                assert(chosen@ == old_chosen.push(picked));
                assert forall|a: int, b: int|
                    0 <= a < chosen@.len() && 0 <= b < chosen@.len() && a != b implies chosen@[a]
                    != chosen@[b] by {
                    if a < old_chosen.len() && b < old_chosen.len() {
                        assert(old_chosen[a] != old_chosen[b]);
                    } else if a == old_chosen.len() {
                        assert(chosen@[a] == picked);
                        assert(old_chosen[b] != old_pool[j as int]);
                    } else {
                        assert(chosen@[b] == picked);
                        assert(old_chosen[a] != old_pool[j as int]);
                    }
                }
                assert(chosen@.no_duplicates());
                assert forall|a: int, b: int|
                    0 <= a < chosen@.len() && 0 <= b < pool@.len() implies chosen@[a]
                    != pool@[b] by {
                    if a < old_chosen.len() {
                        assert(old_chosen[a] != pool@[b]);
                    } else {
                        assert(chosen@[a] == picked);
                        assert(pool@[b] != picked);
                    }
                }
                assert(chosen@.disjoint(pool@));
            }
            t = t + 1;
        }

        // read the records at the drawn positions
        let mut out: Vec<ArtistPerformance> = Vec::new();
        let mut q: usize = 0;
        while q < k
            invariant
                q <= k,
                n == self@.len(),
                chosen@.len() == k as int,
                chosen@.no_duplicates(),
                forall|p: int| 0 <= p < chosen@.len() ==> #[trigger] chosen@[p] < n,
                out@.len() == q as int,
                forall|p: int| 0 <= p < q as int ==> #[trigger] out@[p] == self@[chosen@[p] as int],
            decreases k - q,
        {
            let idx = chosen[q];
            out.push(self.get(idx).clone());
            q = q + 1;
        }
        proof {
            let picks = chosen@.map_values(|u: usize| u as int);
            assert forall|a: int, b: int|
                0 <= a < picks.len() && 0 <= b < picks.len() && a != b implies picks[a]
                != picks[b] by {
                assert(picks[a] == chosen@[a] as int);
                assert(picks[b] == chosen@[b] as int);
                assert(chosen@[a] != chosen@[b]);
            }
            assert(picks.no_duplicates());
            assert forall|p: int|
                0 <= p < picks.len() implies 0 <= #[trigger] picks[p] < self@.len() && out@[p]
                == self@[picks[p]] by {
                assert(picks[p] == chosen@[p] as int);
            }
            assert(picked_from(picks, out@, self@));
        }
        out
    }

    /// The request-boundary decision for a random-sample request: an
    /// empty store is reported as `EmptyStore` (the not-found
    /// condition), and otherwise the sample is returned, never empty.
    pub fn random_bands(&self, requested: Option<usize>) -> (r: Result<
        Vec<ArtistPerformance>,
        SampleError,
    >)
        ensures
            self@.len() == 0 <==> r is Err,
            r matches Err(e) ==> e == SampleError::EmptyStore,
            r matches Ok(v) ==> {
                &&& v@.len() == vstd::math::min(effective_count_spec(requested), self@.len() as int)
                &&& v@.len() > 0
                &&& exists|picks: Seq<int>| picked_from(picks, v@, self@)
            },
    {
        if self.is_empty() {
            Err(SampleError::EmptyStore)
        } else {
            Ok(self.sample(requested))
        }
    }
}

} // verus!
