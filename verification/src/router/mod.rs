//! The router, its builder and its routes.

pub mod builder;
pub mod laws;
pub mod route;

pub use self::builder::{Build, BuildView};
use self::route::{are_copies_of, clone_routes};
pub use self::route::{Route, RouteView};
use crate::engine::{
    capture_groups, is_part_of, matching_indices, optional_texts, regex_groups, regex_source,
    set_hits, set_sources, texts,
};
use regex::RegexSet;
use vstd::prelude::*;
use vstd::std_specs::cmp::PartialEqSpec;

verus! {

/// The main router: the routes in registration order, one set matcher
/// compiled from all their patterns, and a default handler for paths that
/// match none of them.
///
/// Nothing is asked of the method type but that its values can be compared,
/// and nothing of the handler type: a lookup hands out a reference to the
/// handler and never calls it.
pub struct Router<M, H> {
    routes: Vec<Route<M, H>>,
    set: RegexSet,
    default: Option<H>,
}

/// A router as contracts see it.
pub struct RouterView<M, H> {
    /// The routes, in registration order.
    pub routes: Seq<Route<M, H>>,
    /// The set matcher.
    pub matcher: RegexSet,
    /// The handler for paths that no route answers.
    pub default: Option<H>,
}

impl<M, H> View for Router<M, H> {
    type V = RouterView<M, H>;

    closed spec fn view(&self) -> RouterView<M, H> {
        RouterView { routes: self.routes@, matcher: self.set, default: self.default }
    }
}

/// The pattern texts of `routes`, in their order.
pub open spec fn sources_of<M, H>(routes: Seq<Route<M, H>>) -> Seq<Seq<char>> {
    Seq::new(routes.len(), |i: int| regex_source(routes[i]@.pattern))
}

/// The texts of the groups that took part in a match, in their order.
pub open spec fn present(groups: Seq<Option<Seq<char>>>) -> Seq<Seq<char>>
    decreases groups.len(),
{
    if groups.len() == 0 {
        Seq::empty()
    } else {
        match groups.last() {
            Some(text) => present(groups.drop_last()).push(text),
            None => present(groups.drop_last()),
        }
    }
}

/// The capture groups of a match: all its groups but the first, which is the
/// whole match.
pub open spec fn capture_groups_of(groups: Seq<Option<Seq<char>>>) -> Seq<Option<Seq<char>>> {
    if groups.len() == 0 {
        groups
    } else {
        groups.skip(1)
    }
}

/// The segments that a match captured: the texts of its capture groups that
/// took part, in their order.
pub open spec fn captured(groups: Seq<Option<Seq<char>>>) -> Seq<Seq<char>> {
    present(capture_groups_of(groups))
}

/// What a lookup returns when no route answers: the default handler with no
/// captured segments, or nothing where no default is set.
pub open spec fn fallback<H>(default: Option<H>) -> Option<(H, Seq<Seq<char>>)> {
    match default {
        Some(handler) => Some((handler, Seq::empty())),
        None => None,
    }
}

/// What a lookup returns when `route` wins: its handler, with the segments
/// that its expression captured in the path.
pub open spec fn answer_of<M, H>(route: Route<M, H>, path: Seq<char>) -> Option<
    (H, Seq<Seq<char>>),
> {
    Some((route@.handler, captured(regex_groups(route@.pattern, path)->0)))
}

impl<M, H> RouterView<M, H> {
    /// The set matcher was compiled from the patterns of the routes, one for
    /// one and in the same order: index `i` of the matcher is route `i`.
    pub open spec fn wf(self) -> bool {
        set_sources(self.matcher) == sources_of(self.routes)
    }
}

impl<M: PartialEq, H> RouterView<M, H> {
    /// Whether `index`, as the set matcher reports it, is a candidate for
    /// `method`: the index of a route that answers to that method.
    pub open spec fn is_candidate(self, index: usize, method: M) -> bool {
        index < self.routes.len() && method.eq_spec(&self.routes[index as int]@.method)
    }

    /// Whether the set matcher reports index `i` for `path`.
    pub open spec fn reports(self, i: int, path: Seq<char>) -> bool {
        exists|k: int|
            0 <= k < set_hits(self.matcher, path).len() && #[trigger] set_hits(
                self.matcher,
                path,
            )[k] == i
    }

    /// Whether the pattern of route `i` matches `path`: the set matcher
    /// reports the route for the path, and the route's own expression
    /// captures the path.
    pub open spec fn pattern_matches(self, i: int, path: Seq<char>) -> bool {
        &&& 0 <= i < self.routes.len()
        &&& self.reports(i, path)
        &&& regex_groups(self.routes[i]@.pattern, path) is Some
    }

    /// Whether route `i` answers `method` and `path`: it has that method, and
    /// its pattern matches the path.
    pub open spec fn answers(self, i: int, method: M, path: Seq<char>) -> bool {
        &&& self.pattern_matches(i, path)
        &&& method.eq_spec(&self.routes[i]@.method)
    }

    /// Whether route `i` is the first in registration order that answers.
    pub open spec fn wins(self, i: int, method: M, path: Seq<char>) -> bool {
        &&& self.answers(i, method, path)
        &&& forall|j: int| 0 <= j < i ==> !self.answers(j, method, path)
    }

    /// Whether any route answers.
    pub open spec fn answered(self, method: M, path: Seq<char>) -> bool {
        exists|i: int| self.answers(i, method, path)
    }

    /// The first route in registration order that answers, if any does.
    pub open spec fn winner(self, method: M, path: Seq<char>) -> Option<int> {
        if self.answered(method, path) {
            Some(choose|i: int| self.wins(i, method, path))
        } else {
            None
        }
    }

    /// What a lookup finds: the answer of the winning route; else the
    /// fallback.
    pub open spec fn outcome(self, method: M, path: Seq<char>) -> Option<(H, Seq<Seq<char>>)> {
        match self.winner(method, path) {
            Some(i) => answer_of(self.routes[i], path),
            None => fallback(self.default),
        }
    }
}

impl<M: PartialEq, H> RouterView<M, H> {
    /// Where the set matcher reports its indices in ascending order, the
    /// first reported index that answers is the winner.
    pub proof fn lemma_first_hit_wins(self, method: M, path: Seq<char>, at: int)
        requires
            0 <= at < set_hits(self.matcher, path).len(),
            forall|j: int, k: int|
                0 <= j < k < set_hits(self.matcher, path).len() ==> set_hits(self.matcher, path)[j]
                    < set_hits(self.matcher, path)[k],
            self.answers(set_hits(self.matcher, path)[at] as int, method, path),
            forall|k: int|
                0 <= k < at ==> !self.answers(
                    #[trigger] set_hits(self.matcher, path)[k] as int,
                    method,
                    path,
                ),
        ensures
            self.winner(method, path) == Some(set_hits(self.matcher, path)[at] as int),
    {
        let hits = set_hits(self.matcher, path);
        let i = hits[at] as int;
        assert forall|j: int| 0 <= j < i implies !self.answers(j, method, path) by {
            if self.answers(j, method, path) {
                let k = choose|k: int| 0 <= k < hits.len() && #[trigger] hits[k] == j;
                assert(!self.answers(hits[k] as int, method, path));
            }
        }
        assert(self.wins(i, method, path));
        self.lemma_winner(method, path, i);
    }

    /// Where none of the reported indices answers, no route does.
    pub proof fn lemma_no_hit_no_answer(self, method: M, path: Seq<char>)
        requires
            forall|k: int|
                0 <= k < set_hits(self.matcher, path).len() ==> !self.answers(
                    #[trigger] set_hits(self.matcher, path)[k] as int,
                    method,
                    path,
                ),
        ensures
            self.winner(method, path) is None,
    {
        let hits = set_hits(self.matcher, path);
        assert forall|i: int| !self.answers(i, method, path) by {
            if self.answers(i, method, path) {
                let k = choose|k: int| 0 <= k < hits.len() && #[trigger] hits[k] == i;
                assert(!self.answers(hits[k] as int, method, path));
            }
        }
    }

    /// There is at most one winner, and `winner` names it.
    pub proof fn lemma_winner(self, method: M, path: Seq<char>, i: int)
        requires
            self.wins(i, method, path),
        ensures
            self.winner(method, path) == Some(i),
    {
        let w = choose|w: int| self.wins(w, method, path);
        assert(self.wins(w, method, path));
        if w < i {
            assert(!self.answers(w, method, path));
        } else if i < w {
            assert(!self.answers(i, method, path));
        }
    }
}

/// What a lookup returned, as contracts see it.
pub open spec fn found_view<H>(found: Option<(&H, Vec<&str>)>) -> Option<(H, Seq<Seq<char>>)> {
    match found {
        Some((handler, captures)) => Some((*handler, texts(captures@))),
        None => None,
    }
}

/// The segments that a match captured, from all its groups as the engine
/// hands them out: the first group, which is the whole match, is passed over,
/// and so is every group that took no part in the match.
pub fn captured_segments<'p>(groups: Vec<Option<&'p str>>) -> (captures: Vec<&'p str>)
    ensures
        texts(captures@) == captured(optional_texts(groups@)),
        forall|k: int|
            0 <= k < captures.len() ==> exists|j: int|
                0 <= j < groups.len() && #[trigger] groups[j] == Some(#[trigger] captures[k]),
{
    let mut captures: Vec<&'p str> = Vec::new();
    if groups.len() == 0 {
        proof {
            assert(texts(captures@) =~= Seq::<Seq<char>>::empty());
        }
        return captures;
    }
    let ghost rest = capture_groups_of(optional_texts(groups@));
    let mut i: usize = 1;
    while i < groups.len()
        invariant
            1 <= i <= groups.len(),
            rest == optional_texts(groups@).skip(1),
            texts(captures@) == present(rest.take(i - 1)),
            forall|k: int|
                0 <= k < captures.len() ==> exists|j: int|
                    0 <= j < groups.len() && #[trigger] groups[j] == Some(#[trigger] captures[k]),
        decreases groups.len() - i,
    {
        let ghost before = rest.take(i - 1);
        let ghost after = rest.take(i as int);
        proof {
            assert(after.drop_last() =~= before);
            assert(after.last() == optional_texts(groups@)[i as int]);
        }
        match groups[i] {
            Some(text) => {
                let ghost had = texts(captures@);
                captures.push(text);
                proof {
                    assert(texts(captures@) =~= had.push(text@));
                }
            },
            None => {},
        }
        i += 1;
    }
    proof {
        assert(rest.take(groups.len() - 1) =~= rest);
    }
    captures
}

impl<M, H> Router<M, H> {
    /// Holds of every router: the set matcher and the routes correspond.
    #[verifier::type_invariant]
    pub closed spec fn wf(&self) -> bool {
        self@.wf()
    }

    /// Puts a router together from its parts.
    pub(crate) fn assemble(routes: Vec<Route<M, H>>, set: RegexSet, default: Option<H>) -> (router:
        Router<M, H>)
        requires
            set_sources(set) == sources_of(routes@),
        ensures
            router@.routes == routes@,
            router@.matcher == set,
            router@.default == default,
            router@.wf(),
    {
        Router { routes, set, default }
    }
}

impl<M: Clone, H: Clone> Clone for Router<M, H> {
    /// A copy of the router: a copy of each route, in the same order, the
    /// same set matcher, and a clone of the default handler. Nothing is
    /// compiled again.
    fn clone(&self) -> (copy: Self)
        ensures
            are_copies_of(copy@.routes, self@.routes),
            copy@.matcher == self@.matcher,
            self@.default is None ==> copy@.default is None,
            self@.default matches Some(handler) ==> copy@.default is Some && cloned(
                handler,
                copy@.default->0,
            ),
            copy@.wf(),
    {
        proof {
            use_type_invariant(self);
        }
        let routes = clone_routes(&self.routes);
        proof {
            assert(sources_of(routes@) =~= sources_of(self.routes@));
        }
        Router { routes, set: self.set.clone(), default: self.default.clone() }
    }
}

impl<M: Eq, H> Router<M, H> {
    /// Creates a builder for the router.
    pub fn build() -> (builder: Build<M, H>)
        ensures
            builder@.routes.len() == 0,
            builder@.default is None,
    {
        Build::default()
    }

    /// The position of the next candidate among `hits`, from position `from`
    /// on: the first whose index is that of a route with the method
    /// `method`. It is the length of `hits` where there is none.
    ///
    /// `hits` is what the set matcher reported for a path; an index that is
    /// not the index of a route is passed over.
    pub fn next_candidate(&self, method: &M, hits: &Vec<usize>, from: usize) -> (at: usize)
        ensures
            at <= hits.len(),
            from <= hits.len() ==> from <= at,
            M::obeys_eq_spec() ==> {
                &&& at < hits.len() ==> self@.is_candidate(hits[at as int], *method)
                &&& forall|k: int| from <= k < at ==> !self@.is_candidate(#[trigger] hits[k], *method)
            },
    {
        let mut at: usize = from;
        while at < hits.len()
            invariant
                from <= hits.len() ==> from <= at <= hits.len(),
                M::obeys_eq_spec() ==> forall|k: int|
                    from <= k < at ==> !self@.is_candidate(#[trigger] hits[k], *method),
            decreases hits.len() - at,
        {
            let index: usize = hits[at];
            if index < self.routes.len() && *method == *self.routes[index].method() {
                return at;
            }
            at += 1;
        }
        hits.len()
    }

    /// Finds the handler for `method` and `path`.
    ///
    /// Of the routes that the set matcher reports for the path, the first in
    /// registration order that has the method and whose expression captures
    /// the path wins: the result is its handler and the segments that its
    /// placeholders captured, as slices of `path`. Where no route wins, the
    /// result is the default handler with no segments, or `None` where no
    /// default is set.
    ///
    /// `path` is taken as it is: it should be the path alone, already
    /// percent-decoded and without a query string. Nothing is asked of it: a
    /// lookup returns for every method and every path.
    pub fn lookup<'s, 'p>(&'s self, method: &M, path: &'p str) -> (found: Option<
        (&'s H, Vec<&'p str>),
    >)
        ensures
            M::obeys_eq_spec() ==> found_view(found) == self@.outcome(*method, path@),
            found_view(found) == fallback(self@.default) || exists|i: int|
                self@.pattern_matches(i, path@) && found_view(found) == answer_of(
                    #[trigger] self@.routes[i],
                    path@,
                ),
            found matches Some((_, captures)) ==> forall|k: int|
                0 <= k < captures.len() ==> is_part_of(#[trigger] captures[k]@, path@),
    {
        proof {
            use_type_invariant(self);
        }
        let hits = matching_indices(&self.set, path);
        let mut at: usize = self.next_candidate(method, &hits, 0);
        while at < hits.len()
            invariant
                self@.wf(),
                hits@ == set_hits(self@.matcher, path@),
                forall|j: int| 0 <= j < hits.len() ==> hits[j] < self@.routes.len(),
                forall|j: int, k: int| 0 <= j < k < hits.len() ==> hits[j] < hits[k],
                at <= hits.len(),
                M::obeys_eq_spec() ==> {
                    &&& at < hits.len() ==> self@.is_candidate(hits[at as int], *method)
                    &&& forall|k: int|
                        0 <= k < at ==> !self@.answers(#[trigger] hits[k] as int, *method, path@)
                },
            decreases hits.len() - at,
        {
            let route = &self.routes[hits[at]];
            match capture_groups(route.pattern(), path) {
                Some(groups) => {
                    let captures = captured_segments(groups);
                    proof {
                        if M::obeys_eq_spec() {
                            self@.lemma_first_hit_wins(*method, path@, at as int);
                        }
                        assert(self@.pattern_matches(hits[at as int] as int, path@));
                    }
                    return Some((route.handler(), captures));
                },
                None => {},
            }
            at = self.next_candidate(method, &hits, at + 1);
        }
        proof {
            if M::obeys_eq_spec() {
                self@.lemma_no_hit_no_answer(*method, path@);
            }
        }
        match &self.default {
            Some(handler) => {
                let none: Vec<&'p str> = Vec::new();
                proof {
                    assert(texts(none@) =~= Seq::<Seq<char>>::empty());
                }
                Some((handler, none))
            },
            None => None,
        }
    }

    /// The routes, in registration order.
    pub fn routes(&self) -> (routes: &Vec<Route<M, H>>)
        ensures
            routes@ == self@.routes,
    {
        &self.routes
    }

    /// The default handler, if one is set.
    pub fn default_handler(&self) -> (default: Option<&H>)
        ensures
            default is Some <==> self@.default is Some,
            default matches Some(handler) ==> self@.default == Some(*handler),
    {
        self.default.as_ref()
    }

    /// Sets the default handler, in place of the one set before, if any.
    pub fn set_default(&mut self, default: H)
        ensures
            final(self)@.routes == old(self)@.routes,
            final(self)@.matcher == old(self)@.matcher,
            final(self)@.default == Some(default),
    {
        proof {
            use_type_invariant(&*self);
        }
        self.default = Some(default);
    }
}

} // verus!
