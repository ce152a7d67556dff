//! Per-channel pipeline outcomes and the fan-out aggregation.
//!
//! Each subscribed channel runs its own pipeline; a failure is contained
//! there and only drops that channel from the batch result. The batch as a
//! whole never fails because individual channels failed.

use vstd::prelude::*;

verus! {

/// Why a per-channel pipeline produced no record.
#[derive(Clone, Copy, Debug, PartialEq, Eq, Structural)]
pub enum FetchFailure {
    /// The outbound request failed or returned a non-OK status.
    TransportError,
    /// The payload carried no live marker: a normal negative outcome.
    NotLive,
    /// The payload carried no extractable data: a normal negative outcome.
    ParseMiss,
    /// The secondary probe did not confirm the extracted signal.
    VerificationFailed,
}

/// The successful records of a batch of per-channel outcomes, in order.
pub open spec fn successes<T>(s: Seq<Result<T, FetchFailure>>) -> Seq<T>
    decreases s.len(),
{
    if s.len() == 0 {
        Seq::empty()
    } else {
        match s[0] {
            Ok(v) => seq![v] + successes(s.drop_first()),
            Err(_) => successes(s.drop_first()),
        }
    }
}

/// A batch never yields more records than it had pipelines.
pub proof fn lemma_successes_len<T>(s: Seq<Result<T, FetchFailure>>)
    ensures
        successes(s).len() <= s.len(),
    decreases s.len(),
{
    if s.len() > 0 {
        lemma_successes_len(s.drop_first());
    }
}

/// Collect the successful records of the per-channel outcomes of one batch.
/// Failed channels are dropped silently; the result is never larger than the
/// subscription list that fanned the batch out.
pub fn aggregate<T>(outcomes: Vec<Result<T, FetchFailure>>) -> (r: Vec<T>)
    ensures
        r@ == successes(outcomes@),
        r@.len() <= outcomes@.len(),
{
    let ghost orig = outcomes@;
    let mut rest = outcomes;
    let mut r: Vec<T> = Vec::new();
    proof {
        assert(r@ + successes(rest@) =~= successes(orig));
    }
    while rest.len() > 0
        invariant
            successes(orig) == r@ + successes(rest@),
        decreases rest.len(),
    {
        let ghost prev = rest@;
        let x = rest.remove(0);
        proof {
            assert(rest@ =~= prev.drop_first());
        }
        match x {
            Ok(v) => {
                proof {
                    assert(successes(prev) == seq![v] + successes(prev.drop_first()));
                }
                r.push(v);
                proof {
                    assert(r@ + successes(rest@) =~= successes(orig));
                }
            },
            Err(_) => {
                proof {
                    assert(successes(prev) == successes(prev.drop_first()));
                }
            },
        }
    }
    proof {
        assert(successes(rest@) =~= Seq::<T>::empty());
        assert(r@ =~= successes(orig));
        lemma_successes_len(orig);
    }
    r
}

} // verus!
