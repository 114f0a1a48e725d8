//! The builder: routes in registration order, and a default handler.

use super::route::{are_copies_of, clone_routes, Route};
use super::{sources_of, Router};
use crate::engine::{compile_set, regex_source, regex_text, set_accepts, texts};
use crate::error::BuildError;
use vstd::prelude::*;

verus! {

/// Collects the routes of a router, in the order in which they are added, and
/// the handler to fall back on. Routes may overlap: which one answers is
/// settled at lookup, by registration order.
#[derive(Debug)]
pub struct Build<M, H> {
    routes: Vec<Route<M, H>>,
    default: Option<H>,
}

/// A builder as contracts see it.
pub struct BuildView<M, H> {
    /// The routes, in registration order.
    pub routes: Seq<Route<M, H>>,
    /// The handler for paths that no route answers.
    pub default: Option<H>,
}

impl<M, H> View for Build<M, H> {
    type V = BuildView<M, H>;

    closed spec fn view(&self) -> BuildView<M, H> {
        BuildView { routes: self.routes@, default: self.default }
    }
}

impl<M, H> Build<M, H> {
    /// Adds `route` after the routes that are there.
    pub fn add(&mut self, route: Route<M, H>) -> (chain: &mut Self)
        ensures
            chain@.routes == old(self)@.routes.push(route),
            chain@.default == old(self)@.default,
            *final(self) == *final(chain),
    {
        self.routes.push(route);
        self
    }

    /// Sets the handler that answers when no route does, in place of the one
    /// set before, if any. It gets no captured segments.
    pub fn with_default(&mut self, default: H) -> (chain: &mut Self)
        ensures
            chain@.routes == old(self)@.routes,
            chain@.default == Some(default),
            *final(self) == *final(chain),
    {
        self.default = Some(default);
        self
    }
}

impl<M: Eq, H> Build<M, H> {
    /// Compiles the patterns of all routes into one set matcher, in
    /// registration order, and hands the routes over to the router.
    ///
    /// Fails where the engine refuses the patterns taken together; no route
    /// is dropped to make the rest fit.
    pub fn finish(self) -> (made: Result<Router<M, H>, BuildError>)
        ensures
            made is Ok <==> set_accepts(sources_of(self@.routes)),
            made matches Ok(router) ==> {
                &&& router@.routes == self@.routes
                &&& router@.default == self@.default
                &&& router@.wf()
            },
            made matches Err(error) ==> error is Matcher,
    {
        let mut patterns: Vec<&str> = Vec::new();
        let mut i: usize = 0;
        while i < self.routes.len()
            invariant
                i <= self.routes.len(),
                patterns.len() == i,
                forall|j: int| 0 <= j < i ==> patterns[j]@ == regex_source(self.routes[j]@.pattern),
            decreases self.routes.len() - i,
        {
            patterns.push(regex_text(self.routes[i].pattern()));
            i += 1;
        }
        proof {
            assert(texts(patterns@) =~= sources_of(self@.routes));
        }
        match compile_set(&patterns) {
            Ok(set) => Ok(Router::assemble(self.routes, set, self.default)),
            Err(error) => Err(BuildError::matcher(&error)),
        }
    }
}

impl<M: Clone, H: Clone> Clone for Build<M, H> {
    /// A copy of the builder: a copy of each route, in the same order, and a
    /// clone of the default handler.
    fn clone(&self) -> (copy: Self)
        ensures
            are_copies_of(copy@.routes, self@.routes),
            self@.default is None ==> copy@.default is None,
            self@.default matches Some(handler) ==> copy@.default is Some && cloned(
                handler,
                copy@.default->0,
            ),
    {
        Build { routes: clone_routes(&self.routes), default: self.default.clone() }
    }
}

impl<M, H> Default for Build<M, H> {
    /// A builder with no route and no default handler.
    fn default() -> (made: Self)
        ensures
            made@.routes.len() == 0,
            made@.default is None,
    {
        Build { routes: Vec::new(), default: None }
    }
}

} // verus!
