//! What holds of every lookup, proved from the definition of its outcome.
//!
//! `Router::lookup` returns `outcome` of the router, the method and the path.
//! The statements here are about that outcome, so each of them is a statement
//! about what a lookup returns.

use super::{answer_of, fallback, RouterView};
use vstd::prelude::*;
use vstd::std_specs::cmp::PartialEqSpec;

verus! {

impl<M: PartialEq, H> RouterView<M, H> {
    /// Where a route answers, some route at or before it wins.
    pub proof fn lemma_some_route_wins(self, method: M, path: Seq<char>, i: int) -> (w: int)
        requires
            self.answers(i, method, path),
        ensures
            0 <= w <= i,
            self.wins(w, method, path),
        decreases i,
    {
        if exists|j: int| 0 <= j < i && self.answers(j, method, path) {
            let j = choose|j: int| 0 <= j < i && self.answers(j, method, path);
            self.lemma_some_route_wins(method, path, j)
        } else {
            i
        }
    }
}

/// Every lookup is settled, whatever the routes, the method and the path:
/// either exactly one route wins and the result is that route's answer, or no
/// route answers and the result is the fallback.
pub proof fn law_lookup_is_settled<M: PartialEq, H>(
    router: RouterView<M, H>,
    method: M,
    path: Seq<char>,
)
    ensures
        match router.winner(method, path) {
            Some(i) => {
                &&& router.wins(i, method, path)
                &&& forall|j: int| router.wins(j, method, path) ==> j == i
                &&& router.outcome(method, path) == answer_of(router.routes[i], path)
            },
            None => {
                &&& forall|j: int| !router.answers(j, method, path)
                &&& router.outcome(method, path) == fallback(router.default)
            },
        },
{
    if router.answered(method, path) {
        let a = choose|a: int| router.answers(a, method, path);
        let w = router.lemma_some_route_wins(method, path, a);
        router.lemma_winner(method, path, w);
        assert forall|j: int| router.wins(j, method, path) implies j == w by {
            router.lemma_winner(method, path, j);
        }
    }
}

/// The first registered route that answers is the one that a lookup returns:
/// where route `i` answers, the winner is a route at or before `i`, no route
/// before the winner answers, and the result is the winner's answer.
pub proof fn law_first_registered_wins<M: PartialEq, H>(
    router: RouterView<M, H>,
    method: M,
    path: Seq<char>,
    i: int,
)
    requires
        router.answers(i, method, path),
    ensures
        router.winner(method, path) matches Some(w) && {
            &&& 0 <= w <= i
            &&& router.answers(w, method, path)
            &&& forall|j: int| 0 <= j < w ==> !router.answers(j, method, path)
            &&& router.outcome(method, path) == answer_of(router.routes[w], path)
        },
{
    let w = router.lemma_some_route_wins(method, path, i);
    router.lemma_winner(method, path, w);
}

/// The default handler fires exactly when no route answers: then the result
/// is the default handler with no captured segments, or nothing where no
/// default is set; and where some route answers, the result is a route's
/// answer, whatever the default.
pub proof fn law_default_exactly_when_unanswered<M: PartialEq, H>(
    router: RouterView<M, H>,
    method: M,
    path: Seq<char>,
)
    ensures
        router.winner(method, path) is None <==> !router.answered(method, path),
        !router.answered(method, path) ==> router.outcome(method, path) == fallback(
            router.default,
        ),
        router.answered(method, path) ==> router.outcome(method, path) == answer_of(
            router.routes[router.winner(method, path)->0],
            path,
        ),
{
    law_lookup_is_settled(router, method, path);
}

/// The method filter does not depend on the patterns: a route with another
/// method never answers, whatever its pattern makes of the path.
pub proof fn law_other_method_never_answers<M: PartialEq, H>(
    router: RouterView<M, H>,
    method: M,
    path: Seq<char>,
    i: int,
)
    requires
        0 <= i < router.routes.len(),
        !method.eq_spec(&router.routes[i]@.method),
    ensures
        !router.answers(i, method, path),
        router.winner(method, path) != Some(i),
{
    law_lookup_is_settled(router, method, path);
}

/// Where every route whose pattern matches the path has another method, the
/// lookup falls back, as if no pattern had matched.
pub proof fn law_wrong_method_falls_back<M: PartialEq, H>(
    router: RouterView<M, H>,
    method: M,
    path: Seq<char>,
)
    requires
        forall|i: int|
            router.pattern_matches(i, path) ==> !method.eq_spec(&router.routes[i]@.method),
    ensures
        router.outcome(method, path) == fallback(router.default),
{
    law_lookup_is_settled(router, method, path);
}

/// Setting another default changes what a lookup returns only where no route
/// answers.
pub proof fn law_default_matters_only_when_unanswered<M: PartialEq, H>(
    router: RouterView<M, H>,
    other: Option<H>,
    method: M,
    path: Seq<char>,
)
    requires
        router.answered(method, path),
    ensures
        (RouterView { default: other, ..router }).outcome(method, path) == router.outcome(
            method,
            path,
        ),
{
    let changed = RouterView { default: other, ..router };
    let a = choose|a: int| router.answers(a, method, path);
    let w = router.lemma_some_route_wins(method, path, a);
    router.lemma_winner(method, path, w);
    assert forall|j: int| changed.answers(j, method, path) == router.answers(j, method, path) by {
        assert(changed.reports(j, path) == router.reports(j, path)) by {
            assert(changed.matcher == router.matcher);
        }
    }
    changed.lemma_winner(method, path, w);
}

} // verus!
