//! Generalized routing for any HTTP library.
//!
//! A route is a method token, a path template and a handler. Templates are
//! made of literal segments and typed placeholders (`{}`, `{:string}`,
//! `{:int}`, `{:uint}`, `{:uuid}`); each is turned into an anchored regular
//! expression when the route is made. A [`Build`] collects routes in
//! registration order, and [`Build::finish`] compiles them all into one set
//! matcher. [`Router::lookup`] then returns the handler of the first
//! registered route whose method and pattern both match, with the captured
//! segments of the path.
//!
//! The regular expressions themselves are compiled and run by the `regex`
//! crate. Every function here is verified against contracts that name what
//! that crate returns; the declarations that are believed rather than proved
//! stand in `engine` and `url`.

pub mod engine;
pub mod error;
pub mod router;
pub mod scan;
pub mod template;
pub mod url;

pub use crate::error::BuildError;
pub use crate::router::{captured_segments, Build, BuildView, Route, RouteView, Router, RouterView};
pub use crate::template::{anchor, parse, pattern_text, Kind};
pub use crate::url::normalize_url;
