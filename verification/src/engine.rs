//! The regular-expression engine, as the rest of the library sees it.
//!
//! Compiling and matching are the `regex` crate's work. This module declares
//! its types, gives names to what its functions return, and wraps each call
//! that the library makes. Nothing in this file is proved: each contract says
//! what is taken on trust from the crate's documentation and source.

use regex::{Regex, RegexSet};
use vstd::prelude::*;

verus! {

/// `regex::Regex`: one compiled pattern.
#[verifier::external_type_specification]
#[verifier::external_body]
pub struct ExRegex(regex::Regex);

/// `regex::RegexSet`: many patterns compiled into one matcher.
#[verifier::external_type_specification]
#[verifier::external_body]
pub struct ExRegexSet(regex::RegexSet);

/// `regex::Error`: why a pattern was refused.
#[verifier::external_type_specification]
#[verifier::external_body]
pub struct ExRegexError(regex::Error);

/// Whether `Regex::new` compiles `pattern`.
pub uninterp spec fn regex_accepts(pattern: Seq<char>) -> bool;

/// The pattern text that a compiled expression was made from, which
/// `Regex::as_str` returns.
pub uninterp spec fn regex_source(re: Regex) -> Seq<char>;

/// What `Regex::captures` finds in `haystack`: `None` where the expression
/// does not match; else all its groups as `Captures::iter` hands them out:
/// first the group for the whole match, then the capture groups in the order
/// of their opening brackets, each with the text it matched or `None` where
/// it took no part in the match.
pub uninterp spec fn regex_groups(re: Regex, haystack: Seq<char>) -> Option<
    Seq<Option<Seq<char>>>,
>;

/// Whether `RegexSet::new` compiles `patterns` into a set.
pub uninterp spec fn set_accepts(patterns: Seq<Seq<char>>) -> bool;

/// The pattern texts that a set was made from, in the order given, which
/// `RegexSet::patterns` returns.
pub uninterp spec fn set_sources(set: RegexSet) -> Seq<Seq<char>>;

/// The indices that `RegexSet::matches` reports for `haystack`, in the order
/// in which the returned `SetMatches` hands them out.
pub uninterp spec fn set_hits(set: RegexSet, haystack: Seq<char>) -> Seq<usize>;

/// What the `Display` impl of `regex::Error` writes for `error`.
pub uninterp spec fn error_words(error: regex::Error) -> Seq<char>;

/// Whether `piece` stands in `whole`, as one unbroken stretch of it.
pub open spec fn is_part_of(piece: Seq<char>, whole: Seq<char>) -> bool {
    exists|from: int, to: int|
        0 <= from <= to <= whole.len() && piece == #[trigger] whole.subrange(from, to)
}

/// The texts of a list of string slices.
pub open spec fn texts(items: Seq<&str>) -> Seq<Seq<char>> {
    Seq::new(items.len(), |i: int| items[i]@)
}

/// The texts of a list of optional string slices.
pub open spec fn optional_texts(items: Seq<Option<&str>>) -> Seq<Option<Seq<char>>> {
    Seq::new(
        items.len(),
        |i: int|
            match items[i] {
                Some(s) => Some(s@),
                None => None,
            },
    )
}

/// The characters that mean something in a regular expression, and so get a
/// backslash when they are to stand for themselves.
pub open spec fn is_meta(c: char) -> bool {
    c == '\\' || c == '.' || c == '+' || c == '*' || c == '?' || c == '(' || c == ')' || c == '|'
        || c == '[' || c == ']' || c == '{' || c == '}' || c == '^' || c == '$' || c == '#'
        || c == '&' || c == '-' || c == '~'
}

/// `text` with a backslash put before each of its meta characters.
pub open spec fn escaped(text: Seq<char>) -> Seq<char>
    decreases text.len(),
{
    if text.len() == 0 {
        text
    } else if is_meta(text[0]) {
        seq!['\\', text[0]] + escaped(text.skip(1))
    } else {
        seq![text[0]] + escaped(text.skip(1))
    }
}

/// The ASCII letters, the ASCII digits and the underscore.
pub open spec fn is_ascii_word(c: char) -> bool {
    ('a' <= c && c <= 'z') || ('A' <= c && c <= 'Z') || ('0' <= c && c <= '9') || c == '_'
}

/// What `regex_syntax::is_word_character` returns for a character that is
/// not ASCII.
pub uninterp spec fn is_wide_word_char(c: char) -> bool;

/// Whether `c` is a word character as the class `\w` has it: among the ASCII
/// characters the letters, the digits and the underscore; beyond them, what
/// the engine's Unicode tables say.
pub open spec fn is_word_char(c: char) -> bool {
    if c <= '\u{7f}' {
        is_ascii_word(c)
    } else {
        is_wide_word_char(c)
    }
}

/// Calls `regex::escape`.
///
/// Believed: it copies the text and puts a backslash before each character
/// for which `regex_syntax::is_meta_character` holds, which are those of
/// `is_meta`.
#[verifier::external_body]
pub(crate) fn escape_literal(text: &str) -> (quoted: String)
    ensures
        quoted@ == escaped(text@),
{
    regex::escape(text)
}

/// Calls `regex_syntax::is_word_character`, which panics only where the
/// crate is built without its Unicode tables; this library builds it with
/// them.
///
/// Believed: the answer depends on the character alone, and among the ASCII
/// characters it holds of the letters, the digits and the underscore only.
#[verifier::external_body]
pub(crate) fn word_character(c: char) -> (word: bool)
    ensures
        c <= '\u{7f}' ==> word == is_ascii_word(c),
        c > '\u{7f}' ==> word == is_wide_word_char(c),
{
    regex_syntax::is_word_character(c)
}

/// `Regex::clone`.
///
/// Believed: the copy is the same expression. It shares the compiled program
/// of the one it was made from, so it reports the same source and finds the
/// same groups in every haystack.
pub assume_specification[ <regex::Regex as core::clone::Clone>::clone ](re: &regex::Regex) -> (copy:
    regex::Regex)
    ensures
        copy == *re,
;

/// `RegexSet::clone`.
///
/// Believed: the copy is the same set. It shares the compiled program of the
/// one it was made from, so it holds the same patterns and reports the same
/// indices for every haystack.
pub assume_specification[ <regex::RegexSet as core::clone::Clone>::clone ](
    set: &regex::RegexSet,
) -> (copy: regex::RegexSet)
    ensures
        copy == *set,
;

/// Calls `Regex::new`.
///
/// Believed: whether it succeeds depends on the pattern text alone, and the
/// expression it returns reports that text as its source.
#[verifier::external_body]
pub(crate) fn compile_regex(pattern: &str) -> (made: Result<Regex, regex::Error>)
    ensures
        made is Ok <==> regex_accepts(pattern@),
        made matches Ok(re) ==> regex_source(re) == pattern@,
{
    Regex::new(pattern)
}

/// Calls `Regex::as_str`.
#[verifier::external_body]
pub(crate) fn regex_text(re: &Regex) -> (text: &str)
    ensures
        text@ == regex_source(*re),
{
    re.as_str()
}

/// Calls `Regex::captures`, and `Match::as_str` on each group that
/// `Captures::iter` hands out.
///
/// Believed: the outcome depends on the expression and the haystack alone,
/// and what a group matched is a part of the haystack.
#[verifier::external_body]
pub(crate) fn capture_groups<'h>(re: &Regex, haystack: &'h str) -> (found: Option<
    Vec<Option<&'h str>>,
>)
    ensures
        found is Some <==> regex_groups(*re, haystack@) is Some,
        found matches Some(groups) ==> optional_texts(groups@) == regex_groups(
            *re,
            haystack@,
        )->0,
        found matches Some(groups) ==> forall|k: int|
            0 <= k < groups.len() ==> (#[trigger] groups[k] matches Some(text) ==> is_part_of(
                text@,
                haystack@,
            )),
{
    re.captures(haystack).map(|caps| caps.iter().map(|m| m.map(|m| m.as_str())).collect())
}

/// Calls `RegexSet::new`.
///
/// Believed: whether it succeeds depends on the pattern texts alone, and the
/// set it returns holds those texts in the order given.
#[verifier::external_body]
pub(crate) fn compile_set(patterns: &Vec<&str>) -> (made: Result<RegexSet, regex::Error>)
    ensures
        made is Ok <==> set_accepts(texts(patterns@)),
        made matches Ok(set) ==> set_sources(set) == texts(patterns@),
{
    RegexSet::new(patterns)
}

/// Calls `RegexSet::matches` and collects the indices that the returned
/// `SetMatches` hands out.
///
/// Believed: the indices depend on the set and the haystack alone, come in
/// strictly ascending order, and each is the index of a pattern of the set.
#[verifier::external_body]
pub(crate) fn matching_indices(set: &RegexSet, haystack: &str) -> (hits: Vec<usize>)
    ensures
        hits@ == set_hits(*set, haystack@),
        forall|j: int| 0 <= j < hits.len() ==> hits[j] < set_sources(*set).len(),
        forall|j: int, k: int| 0 <= j < k < hits.len() ==> hits[j] < hits[k],
{
    set.matches(haystack).into_iter().collect()
}

/// Formats a `regex::Error` with its `Display` impl.
///
/// Believed: the text depends on the error alone. It is the message of a
/// syntax error, or a sentence that gives the size limit that was exceeded.
#[verifier::external_body]
pub(crate) fn error_text(error: &regex::Error) -> (text: String)
    ensures
        text@ == error_words(*error),
{
    format!("{}", error)
}

} // verus!
