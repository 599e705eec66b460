//! Where a query service gets data that it is missing.

use vstd::prelude::*;

verus! {

/// Whether `states` are the providers that come of adding `peers` to `empty` one
/// after the other, from the empty one on.
pub open spec fn adds_peers<P, U, W: Fn(P, &U) -> P>(
    with_peer: W,
    empty: P,
    peers: Seq<U>,
    states: Seq<P>,
) -> bool {
    &&& states.len() == peers.len() + 1
    &&& states[0] == empty
    &&& forall|i: int|
        0 <= i < peers.len() ==> call_ensures(
            with_peer,
            (states[i], &#[trigger] peers[i]),
            states[i + 1],
        )
}

/// Adding peers adds every peer once, in order, each to what came of those before it.
/// Where `with_peer` is a function, this is what folding it over the peers gives.
pub proof fn every_peer_is_added_in_order<P, U, W: Fn(P, &U) -> P>(
    with_peer: W,
    empty: P,
    peers: Seq<U>,
    states: Seq<P>,
    f: spec_fn(P, U) -> P,
)
    requires
        adds_peers(with_peer, empty, peers, states),
        forall|p: P, u: &U, q: P| #[trigger] call_ensures(with_peer, (p, u), q) ==> q == f(p, *u),
    ensures
        states.len() == peers.len() + 1,
        states[0] == empty,
        states.last() == peers.fold_left(empty, f),
    decreases peers.len(),
{
    if peers.len() > 0 {
        let n = peers.len() - 1;
        assert(adds_peers(with_peer, empty, peers.drop_last(), states.drop_last())) by {
            assert forall|i: int| 0 <= i < n implies call_ensures(
                with_peer,
                (states.drop_last()[i], &#[trigger] peers.drop_last()[i]),
                states.drop_last()[i + 1],
            ) by {
                assert(peers.drop_last()[i] == peers[i]);
            }
        }
        every_peer_is_added_in_order(
            with_peer,
            empty,
            peers.drop_last(),
            states.drop_last(),
            f,
        );
        assert(call_ensures(with_peer, (states[n], &peers[n]), states[n + 1]));
    }
}

/// A provider for fetching missing data from a list of peers: an empty provider to
/// which the peers are added in order, where `with_peer` adds one.
pub fn provider<P, U, W: Fn(P, &U) -> P>(peers: &Vec<U>, empty: P, with_peer: W) -> (r: P)
    requires
        forall|p: P, u: &U| #[trigger] call_requires(with_peer, (p, u)),
    ensures
        exists|states: Seq<P>| #[trigger]
            adds_peers(with_peer, empty, peers@, states) && r == states.last(),
{
    let ghost first = empty;
    let ghost mut states: Seq<P> = seq![empty];
    let mut provider = empty;
    let mut i: usize = 0;
    while i < peers.len()
        invariant
            i <= peers.len(),
            forall|p: P, u: &U| #[trigger] call_requires(with_peer, (p, u)),
            adds_peers(with_peer, first, peers@.take(i as int), states),
            provider == states.last(),
        decreases peers.len() - i,
    {
        let ghost before = states;
        provider = with_peer(provider, &peers[i]);
        proof {
            states = before.push(provider);
            let longer = peers@.take(i + 1);
            assert forall|j: int| 0 <= j < longer.len() implies call_ensures(
                with_peer,
                (states[j], &#[trigger] longer[j]),
                states[j + 1],
            ) by {
                if j < i {
                    assert(peers@.take(i as int)[j] == longer[j]);
                }
            }
        }
        i = i + 1;
    }
    assert(peers@.take(i as int) =~= peers@);
    provider
}

} // verus!
