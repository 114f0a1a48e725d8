//! One registered route.

use crate::engine::{compile_regex, regex_accepts, regex_source};
use crate::error::BuildError;
use crate::template::{parse, pattern_of, pattern_text};
use regex::Regex;
use vstd::prelude::*;
use vstd::string::StringExecFns;

verus! {

/// A route: the path template as it was declared, the method it answers to,
/// its handler, and the regular expression compiled from the template.
///
/// A route never changes once it is made, and its expression is compiled
/// exactly once, when it is made.
#[derive(Debug)]
pub struct Route<M, H> {
    path: String,
    method: M,
    handler: H,
    pattern: Regex,
}

/// A route as contracts see it.
pub struct RouteView<M, H> {
    /// The template as declared, before normalization.
    pub path: Seq<char>,
    /// The method token.
    pub method: M,
    /// The handler.
    pub handler: H,
    /// The compiled expression.
    pub pattern: Regex,
}

impl<M, H> View for Route<M, H> {
    type V = RouteView<M, H>;

    closed spec fn view(&self) -> RouteView<M, H> {
        RouteView {
            path: self.path@,
            method: self.method,
            handler: self.handler,
            pattern: self.pattern,
        }
    }
}

impl<M, H> RouteView<M, H> {
    /// The expression is the one compiled from the declared path.
    pub open spec fn wf(self) -> bool {
        regex_source(self.pattern) == pattern_of(self.path)
    }
}

/// Whether `to` is a copy of `from`: the same path and the same expression,
/// with a clone of the method and a clone of the handler.
pub open spec fn is_copy_of<M: Clone, H: Clone>(to: Route<M, H>, from: Route<M, H>) -> bool {
    &&& to@.path == from@.path
    &&& to@.pattern == from@.pattern
    &&& cloned(from@.method, to@.method)
    &&& cloned(from@.handler, to@.handler)
}

/// Whether `to` holds a copy of each route of `from`, in the same order.
pub open spec fn are_copies_of<M: Clone, H: Clone>(
    to: Seq<Route<M, H>>,
    from: Seq<Route<M, H>>,
) -> bool {
    &&& to.len() == from.len()
    &&& forall|i: int| 0 <= i < from.len() ==> is_copy_of(#[trigger] to[i], from[i])
}

impl<M: Clone, H: Clone> Clone for Route<M, H> {
    /// A copy of the route. The expression is not compiled again: the copy
    /// shares the compiled program.
    fn clone(&self) -> (copy: Self)
        ensures
            is_copy_of(copy, *self),
            copy@.wf(),
    {
        proof {
            use_type_invariant(self);
        }
        Route {
            path: self.path.clone(),
            method: self.method.clone(),
            handler: self.handler.clone(),
            pattern: self.pattern.clone(),
        }
    }
}

/// A copy of each route, in the same order.
pub(crate) fn clone_routes<M: Clone, H: Clone>(routes: &Vec<Route<M, H>>) -> (copies: Vec<
    Route<M, H>,
>)
    ensures
        are_copies_of(copies@, routes@),
{
    let mut copies: Vec<Route<M, H>> = Vec::new();
    let mut i: usize = 0;
    while i < routes.len()
        invariant
            i <= routes.len(),
            copies.len() == i,
            forall|j: int| 0 <= j < i ==> is_copy_of(#[trigger] copies[j], routes[j]),
        decreases routes.len() - i,
    {
        copies.push(routes[i].clone());
        i += 1;
    }
    copies
}

impl<M, H> Route<M, H> {
    /// Holds of every route: its expression was compiled from its path.
    #[verifier::type_invariant]
    pub closed spec fn wf(&self) -> bool {
        self@.wf()
    }

    /// Makes the route for `path`, compiling its pattern.
    ///
    /// The engine has to accept the pattern, as it does for any template
    /// that is not too large for it. Use [`Route::try_new`] where that is
    /// not known.
    pub fn new(path: &str, method: M, handler: H) -> (route: Route<M, H>)
        requires
            regex_accepts(pattern_of(path@)),
        ensures
            route@.path == path@,
            route@.method == method,
            route@.handler == handler,
            route@.wf(),
    {
        let pattern = parse(path);
        Route { path: String::from_str(path), method, handler, pattern }
    }

    /// Makes the route for `path` if the engine accepts its pattern, and
    /// says why it did not otherwise.
    pub fn try_new(path: &str, method: M, handler: H) -> (made: Result<Route<M, H>, BuildError>)
        ensures
            made is Ok <==> regex_accepts(pattern_of(path@)),
            made matches Ok(route) ==> {
                &&& route@.path == path@
                &&& route@.method == method
                &&& route@.handler == handler
                &&& route@.wf()
            },
            made matches Err(error) ==> error is Pattern,
    {
        let text = pattern_text(path);
        match compile_regex(text.as_str()) {
            Ok(pattern) => Ok(Route { path: String::from_str(path), method, handler, pattern }),
            Err(error) => Err(BuildError::pattern(&error)),
        }
    }

    /// The template as it was declared.
    pub fn path(&self) -> (path: &str)
        ensures
            path@ == self@.path,
    {
        self.path.as_str()
    }

    /// The method that the route answers to.
    pub fn method(&self) -> (method: &M)
        ensures
            *method == self@.method,
    {
        &self.method
    }

    /// The handler.
    pub fn handler(&self) -> (handler: &H)
        ensures
            *handler == self@.handler,
    {
        &self.handler
    }

    /// The compiled expression.
    pub fn pattern(&self) -> (pattern: &Regex)
        ensures
            *pattern == self@.pattern,
            regex_source(*pattern) == pattern_of(self@.path),
    {
        proof {
            use_type_invariant(self);
        }
        &self.pattern
    }
}

} // verus!
