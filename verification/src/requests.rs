//! The revalidation intervals that the consumers of an entry ask for, one
//! request per consumer, in the order in which they were made.
use vstd::prelude::*;
use crate::time::Span;

verus! {

/// The requests without those of `id`, the others in their order.
pub open spec fn without_requests(requests: Seq<(u64, Span)>, id: u64) -> Seq<(u64, Span)> {
    requests.filter(|request: (u64, Span)| request.0 != id)
}

/// The requests after `id` asked for `interval`: what it asked for before is
/// forgotten, and the new request stands at the end, unless the interval is
/// "never", which asks for nothing.
pub open spec fn with_request(requests: Seq<(u64, Span)>, id: u64, interval: Span) -> Seq<(u64, Span)> {
    if interval.is_never() {
        without_requests(requests, id)
    } else {
        without_requests(requests, id).push((id, interval))
    }
}

/// The shortest interval asked for; none where nothing is asked for.
pub open spec fn shortest_request(requests: Seq<(u64, Span)>) -> Option<Span>
    decreases requests.len(),
{
    if requests.len() == 0 {
        None
    } else {
        match shortest_request(requests.drop_last()) {
            None => Some(requests.last().1),
            Some(period) => Some(period.spec_shorter(requests.last().1)),
        }
    }
}

/// Forgets what `id` asked for.
pub fn drop_requests(requests: &mut Vec<(u64, Span)>, id: u64)
    ensures
        final(requests)@ == without_requests(old(requests)@, id),
{
    let mut kept: Vec<(u64, Span)> = Vec::new();
    let mut i: usize = 0;
    while i < requests.len()
        invariant
            i <= requests.len(),
            requests@ == old(requests)@,
            kept@ == without_requests(requests@.take(i as int), id),
        decreases requests.len() - i,
    {
        proof {
            reveal(Seq::filter);
            assert(requests@.take(i + 1).drop_last() == requests@.take(i as int));
        }
        if requests[i].0 != id {
            kept.push(requests[i]);
        }
        i += 1;
    }
    proof {
        assert(requests@.take(i as int) == requests@);
    }
    *requests = kept;
}

/// Notes that `id` asks for `interval`, in place of what it asked for
/// before.
pub fn put_request(requests: &mut Vec<(u64, Span)>, id: u64, interval: Span)
    ensures
        final(requests)@ == with_request(old(requests)@, id, interval),
{
    drop_requests(requests, id);
    if !interval.is_never() {
        requests.push((id, interval));
    }
}

/// The shortest interval asked for.
pub fn shortest(requests: &Vec<(u64, Span)>) -> (least: Option<Span>)
    ensures
        least == shortest_request(requests@),
{
    let mut least: Option<Span> = None;
    let mut i: usize = 0;
    while i < requests.len()
        invariant
            i <= requests.len(),
            least == shortest_request(requests@.take(i as int)),
        decreases requests.len() - i,
    {
        proof {
            assert(requests@.take(i + 1).drop_last() == requests@.take(i as int));
        }
        least = match least {
            None => Some(requests[i].1),
            Some(period) => Some(period.shorter(requests[i].1)),
        };
        i += 1;
    }
    proof {
        assert(requests@.take(i as int) == requests@);
    }
    least
}

/// The shortest request is one of the requests and no request is shorter;
/// there is none exactly when nothing is asked for.
pub proof fn lemma_shortest_is_least(requests: Seq<(u64, Span)>)
    ensures
        shortest_request(requests) is None <==> requests.len() == 0,
        match shortest_request(requests) {
            Some(least) => {
                &&& exists|i: int| 0 <= i < requests.len() && (#[trigger] requests[i]).1 == least
                &&& forall|i: int|
                    0 <= i < requests.len() ==> least.nanos <= (#[trigger] requests[i]).1.nanos
            },
            None => true,
        },
    decreases requests.len(),
{
    if requests.len() > 0 {
        let front = requests.drop_last();
        lemma_shortest_is_least(front);
        let least = shortest_request(requests).unwrap();
        match shortest_request(front) {
            None => {
                assert(requests[requests.len() - 1].1 == least);
            },
            Some(period) => {
                if requests.last().1.nanos < period.nanos {
                    assert(requests[requests.len() - 1].1 == least);
                } else {
                    let k = choose|k: int| 0 <= k < front.len() && (#[trigger] front[k]).1 == period;
                    assert(requests[k].1 == least);
                }
            },
        }
        assert forall|i: int| 0 <= i < requests.len() implies least.nanos <= (#[trigger] requests[i]).1.nanos by {
            if i < front.len() {
                assert(front[i] == requests[i]);
            }
        }
    }
}

/// Once `id` has let go, nothing it asked for is left, and what the others
/// asked for stays.
pub proof fn lemma_without_requests(requests: Seq<(u64, Span)>, id: u64)
    ensures
        forall|i: int|
            0 <= i < without_requests(requests, id).len() ==> (#[trigger] without_requests(
                requests,
                id,
            )[i]).0 != id,
        forall|request: (u64, Span)|
            request.0 != id ==> without_requests(requests, id).contains(request) == requests.contains(
                request,
            ),
    decreases requests.len(),
{
    reveal(Seq::filter);
    if requests.len() > 0 {
        let front = requests.drop_last();
        let last = requests.last();
        lemma_without_requests(front, id);
        let whole = without_requests(requests, id);
        let part = without_requests(front, id);
        assert(requests == front.push(last));
        assert(whole == if last.0 != id {
            part.push(last)
        } else {
            part
        });
        assert forall|request: (u64, Span)| request.0 != id implies whole.contains(request)
            == requests.contains(request) by {
            if requests.contains(request) {
                let k = choose|k: int| 0 <= k < requests.len() && requests[k] == request;
                if k < front.len() {
                    assert(front[k] == request);
                    assert(front.contains(request));
                    let m = choose|m: int| 0 <= m < part.len() && part[m] == request;
                    assert(whole[m] == request);
                } else {
                    assert(whole.last() == request);
                }
            }
            if whole.contains(request) {
                let m = choose|m: int| 0 <= m < whole.len() && whole[m] == request;
                if m < part.len() {
                    assert(part[m] == request);
                    assert(part.contains(request));
                    assert(front.contains(request));
                    let k = choose|k: int| 0 <= k < front.len() && front[k] == request;
                    assert(requests[k] == request);
                } else {
                    assert(requests[requests.len() - 1] == request);
                }
            }
        }
    }
}

} // verus!
