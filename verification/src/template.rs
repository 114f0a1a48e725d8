//! The pattern compiler: from a path template to the text of an anchored
//! regular expression.
//!
//! A template is put into normal form, split at every `/`, and the piece
//! before the first `/` is dropped. Each remaining segment is either a
//! placeholder, `{}` or `{:kind}`, which becomes a capture group, or literal
//! text, which is escaped so that it matches itself and nothing else.

use crate::engine::{
    compile_regex, escape_literal, escaped, is_meta, is_word_char, regex_accepts, regex_source,
    word_character,
};
use crate::scan::{
    chars_of, find_char, first_index, lemma_first_index, lemma_split_on, spells, split_on,
};
use crate::url::{normalize_url, normalized};
use regex::Regex;
use vstd::prelude::*;
use vstd::string::{StrSliceExecFns, StringExecFns};

verus! {

/// What a placeholder accepts.
#[derive(Clone, Copy, Debug, PartialEq, Eq, Structural)]
pub enum Kind {
    /// `{}` or `{:string}`: one or more characters other than `/`.
    Text,
    /// `{:int}`: one or more of the digits `0` to `9`, with a sign or
    /// without.
    Int,
    /// `{:uint}`: one or more of the digits `0` to `9`, without a sign.
    Uint,
    /// `{:uuid}`: hexadecimal digits in groups of 8, 4, 4, 4 and 12, with
    /// hyphens between them.
    Uuid,
    /// Any other kind name: any characters other than `/`, or none at all.
    Any,
}

/// One segment of a template.
pub enum Segment {
    /// Text that stands for itself.
    Literal(Seq<char>),
    /// A typed capture.
    Placeholder(Kind),
}

/// The capture group that a placeholder of the given kind becomes.
pub open spec fn kind_pattern(kind: Kind) -> Seq<char> {
    match kind {
        Kind::Text => "([^/]+)"@,
        Kind::Int => "([-+]?[0-9]+)"@,
        Kind::Uint => "([0-9]+)"@,
        Kind::Uuid => r"([a-fA-F0-9]{8}-[a-fA-F0-9]{4}-[a-fA-F0-9]{4}-[a-fA-F0-9]{4}-[a-fA-F0-9]{12})"@,
        Kind::Any => "([^/]*)"@,
    }
}

/// The kind that a kind name stands for.
pub open spec fn kind_named(name: Seq<char>) -> Kind {
    if name == "string"@ {
        Kind::Text
    } else if name == "int"@ {
        Kind::Int
    } else if name == "uint"@ {
        Kind::Uint
    } else if name == "uuid"@ {
        Kind::Uuid
    } else {
        Kind::Any
    }
}

/// The ASCII letters.
pub open spec fn is_ascii_letter(c: char) -> bool {
    ('a' <= c && c <= 'z') || ('A' <= c && c <= 'Z')
}

/// Whether `segment` is `{:name}`, where the name is an ASCII letter followed
/// by any number of word characters.
pub open spec fn is_named_placeholder(segment: Seq<char>) -> bool {
    &&& segment.len() >= 4
    &&& segment[0] == '{'
    &&& segment[1] == ':'
    &&& is_ascii_letter(segment[2])
    &&& forall|i: int| 3 <= i < segment.len() - 1 ==> is_word_char(#[trigger] segment[i])
    &&& segment[segment.len() - 1] == '}'
}

/// Whether `segment` is `{}`.
pub open spec fn is_bare_placeholder(segment: Seq<char>) -> bool {
    segment.len() == 2 && segment[0] == '{' && segment[1] == '}'
}

/// What a segment of a template is.
pub open spec fn classify(segment: Seq<char>) -> Segment {
    if is_bare_placeholder(segment) {
        Segment::Placeholder(Kind::Text)
    } else if is_named_placeholder(segment) {
        Segment::Placeholder(kind_named(segment.subrange(2, segment.len() - 1)))
    } else {
        Segment::Literal(segment)
    }
}

/// The piece of pattern text that a segment becomes.
pub open spec fn segment_pattern(segment: Segment) -> Seq<char> {
    match segment {
        Segment::Literal(text) => escaped(text),
        Segment::Placeholder(kind) => kind_pattern(kind),
    }
}

/// The segments of a normalized path: its pieces between slashes, without the
/// piece before the first slash.
pub open spec fn segments(text: Seq<char>) -> Seq<Seq<char>> {
    split_on(text, '/').skip(1)
}

/// The pattern pieces of `parts`, each with a `/` before it.
pub open spec fn joined(parts: Seq<Seq<char>>) -> Seq<char>
    decreases parts.len(),
{
    if parts.len() == 0 {
        Seq::empty()
    } else {
        seq!['/'] + segment_pattern(classify(parts[0])) + joined(parts.skip(1))
    }
}

/// The anchored pattern of a normalized path.
pub open spec fn anchored(text: Seq<char>) -> Seq<char> {
    seq!['^'] + joined(segments(text)) + seq!['$']
}

/// The pattern text that a template compiles to.
pub open spec fn pattern_of(template: Seq<char>) -> Seq<char> {
    anchored(normalized(template))
}

impl Kind {
    /// The capture group that a placeholder of this kind becomes.
    pub fn pattern(self) -> (text: &'static str)
        ensures
            text@ == kind_pattern(self),
    {
        match self {
            Kind::Text => "([^/]+)",
            Kind::Int => "([-+]?[0-9]+)",
            Kind::Uint => "([0-9]+)",
            Kind::Uuid => r"([a-fA-F0-9]{8}-[a-fA-F0-9]{4}-[a-fA-F0-9]{4}-[a-fA-F0-9]{4}-[a-fA-F0-9]{12})",
            Kind::Any => "([^/]*)",
        }
    }
}

fn ascii_letter(c: char) -> (letter: bool)
    ensures
        letter == is_ascii_letter(c),
{
    ('a' <= c && c <= 'z') || ('A' <= c && c <= 'Z')
}

/// The kind named by the characters of `chars` from `start` up to `end`.
fn kind_of_name(chars: &Vec<char>, start: usize, end: usize) -> (kind: Kind)
    requires
        start <= end <= chars.len(),
    ensures
        kind == kind_named(chars@.subrange(start as int, end as int)),
{
    if spells(chars, start, end, "string") {
        Kind::Text
    } else if spells(chars, start, end, "int") {
        Kind::Int
    } else if spells(chars, start, end, "uint") {
        Kind::Uint
    } else if spells(chars, start, end, "uuid") {
        Kind::Uuid
    } else {
        Kind::Any
    }
}

/// The kind of the placeholder that the characters of `chars` from `start` up
/// to `end` spell, if they spell one.
fn placeholder_kind(chars: &Vec<char>, start: usize, end: usize) -> (kind: Option<Kind>)
    requires
        start <= end <= chars.len(),
    ensures
        match classify(chars@.subrange(start as int, end as int)) {
            Segment::Placeholder(k) => kind == Some(k),
            Segment::Literal(_) => kind is None,
        },
{
    let ghost segment = chars@.subrange(start as int, end as int);
    let len: usize = end - start;
    if len == 2 {
        return if chars[start] == '{' && chars[start + 1] == '}' {
            Some(Kind::Text)
        } else {
            None
        };
    }
    if len < 4 || chars[start] != '{' || chars[start + 1] != ':' || !ascii_letter(chars[start + 2])
        || chars[end - 1] != '}' {
        return None;
    }
    let mut i: usize = start + 3;
    while i < end - 1
        invariant
            start + 3 <= i <= end - 1,
            end <= chars.len(),
            segment == chars@.subrange(start as int, end as int),
            forall|j: int| 3 <= j < i - start ==> is_word_char(#[trigger] segment[j]),
        decreases end - i,
    {
        if !word_character(chars[i]) {
            proof {
                assert(!is_word_char(segment[i - start]));
            }
            return None;
        }
        i += 1;
    }
    proof {
        assert(segment.subrange(2, segment.len() - 1) =~= chars@.subrange(
            start as int + 2,
            end as int - 1,
        ));
    }
    Some(kind_of_name(chars, start + 2, end - 1))
}

/// The pattern pieces of the segments that follow the slash at `at`, or
/// nothing where `at` is the end of `text`.
spec fn rest_after(text: Seq<char>, at: int) -> Seq<char> {
    if at < text.len() {
        joined(split_on(text.skip(at + 1), '/'))
    } else {
        Seq::empty()
    }
}

/// From the slash at `at` up to the next slash at `end`, or the end of the
/// text, stands one segment: the pieces that follow `at` are its piece and
/// then those that follow `end`.
proof fn lemma_rest_after(text: Seq<char>, at: int, end: int)
    requires
        0 <= at < text.len(),
        at < end <= text.len(),
        end - (at + 1) == first_index(text.skip(at + 1), '/'),
    ensures
        rest_after(text, at) == seq!['/'] + segment_pattern(
            classify(text.subrange(at + 1, end)),
        ) + rest_after(text, end),
{
    let tail = text.skip(at + 1);
    let parts = split_on(tail, '/');
    let segment = text.subrange(at + 1, end);
    assert(tail.take(end - (at + 1)) =~= segment);
    if end < text.len() {
        let later = split_on(text.skip(end + 1), '/');
        assert(tail.skip(end - (at + 1) + 1) =~= text.skip(end + 1));
        assert(parts == seq![segment] + later);
        assert(parts.skip(1) =~= later);
    } else {
        assert(tail =~= segment);
        assert(parts == seq![segment]);
        assert(parts.skip(1) =~= Seq::<Seq<char>>::empty());
        assert(joined(parts.skip(1)) =~= Seq::<char>::empty());
    }
    assert(parts[0] == segment);
}

/// The anchored pattern of a path that is already in normal form: `^`, then
/// for each segment a `/` and the segment's piece, then `$`.
pub fn anchor(text: &str) -> (pattern: String)
    ensures
        pattern@ == anchored(text@),
{
    let chars = chars_of(text);
    let n: usize = chars.len();
    let mut pattern = String::from_str("^");
    let mut at: usize = find_char(&chars, 0, '/');
    proof {
        reveal_strlit("^");
        reveal_strlit("/");
        reveal_strlit("$");
        assert(chars@.skip(0) =~= chars@);
        lemma_first_index(chars@, '/');
        assert(pattern@ =~= seq!['^']);
        if at < n {
            assert(split_on(chars@, '/').skip(1) =~= split_on(chars@.skip(at + 1), '/'));
        } else {
            assert(split_on(chars@, '/').skip(1) =~= Seq::<Seq<char>>::empty());
        }
    }
    while at < n
        invariant
            n == chars.len(),
            chars@ == text@,
            at <= n,
            "/"@ == seq!['/'],
            seq!['^'] + joined(segments(chars@)) == pattern@ + rest_after(chars@, at as int),
        decreases n - at,
    {
        let start: usize = at + 1;
        let end: usize = find_char(&chars, start, '/');
        let ghost before = pattern@;
        pattern.append("/");
        match placeholder_kind(&chars, start, end) {
            Some(kind) => {
                pattern.append(kind.pattern());
            },
            None => {
                let quoted = escape_literal(text.substring_char(start, end));
                pattern.append(quoted.as_str());
            },
        }
        proof {
            lemma_rest_after(chars@, at as int, end as int);
            let piece = segment_pattern(classify(chars@.subrange(start as int, end as int)));
            assert(pattern@ == before + seq!['/'] + piece);
            assert(before + (seq!['/'] + piece + rest_after(chars@, end as int)) =~= (before
                + seq!['/'] + piece) + rest_after(chars@, end as int));
        }
        at = end;
    }
    pattern.append("$");
    proof {
        assert(pattern@ =~= seq!['^'] + joined(segments(chars@)) + seq!['$']);
    }
    pattern
}

/// The text of the anchored regular expression that a template compiles to.
///
/// The template is put into normal form first. Compiling is total: every
/// template has a pattern text, and a kind name that is not known gives a
/// placeholder that accepts anything within its segment.
pub fn pattern_text(template: &str) -> (pattern: String)
    ensures
        pattern@ == pattern_of(template@),
{
    let text = normalize_url(template);
    anchor(text.as_str())
}

/// Compiles a template into its regular expression.
///
/// The engine has to accept the pattern text, as it does for any template
/// that is not too large for it; `Route::try_new` is for callers that cannot
/// tell.
pub fn parse(template: &str) -> (re: Regex)
    requires
        regex_accepts(pattern_of(template@)),
    ensures
        regex_source(re) == pattern_of(template@),
{
    let pattern = pattern_text(template);
    compile_regex(pattern.as_str()).unwrap()
}

/// Pattern text read as the engine reads a literal: a backslash is dropped
/// and the character after it is taken as it is.
pub open spec fn unescaped(text: Seq<char>) -> Seq<char>
    decreases text.len(),
{
    if text.len() == 0 {
        text
    } else if text[0] == '\\' && text.len() >= 2 {
        seq![text[1]] + unescaped(text.skip(2))
    } else {
        seq![text[0]] + unescaped(text.skip(1))
    }
}

/// Whether pattern text holds a meta character with no backslash before it,
/// or ends in a backslash that escapes nothing.
pub open spec fn has_bare_meta(text: Seq<char>) -> bool
    decreases text.len(),
{
    if text.len() == 0 {
        false
    } else if text[0] == '\\' {
        text.len() < 2 || has_bare_meta(text.skip(2))
    } else {
        is_meta(text[0]) || has_bare_meta(text.skip(1))
    }
}

/// Escaped text holds no meta character that is not escaped, and reads as the
/// text that was escaped.
pub proof fn lemma_escaped_is_literal(text: Seq<char>)
    ensures
        !has_bare_meta(escaped(text)),
        unescaped(escaped(text)) == text,
    decreases text.len(),
{
    if text.len() > 0 {
        let rest = text.skip(1);
        let quoted = escaped(text);
        lemma_escaped_is_literal(rest);
        if is_meta(text[0]) {
            assert(quoted.skip(2) =~= escaped(rest));
        } else {
            assert(quoted.skip(1) =~= escaped(rest));
        }
        assert(seq![text[0]] + rest =~= text);
    }
}

/// A literal segment stands in the pattern for its own text and for nothing
/// else: in its piece of the pattern every meta character is escaped, and the
/// piece read as a literal is the segment.
pub proof fn law_literal_segment_is_quoted(segment: Seq<char>)
    requires
        classify(segment) is Literal,
    ensures
        !has_bare_meta(segment_pattern(classify(segment))),
        unescaped(segment_pattern(classify(segment))) == segment,
{
    lemma_escaped_is_literal(segment);
}

/// No segment holds a `/`: a placeholder or a literal never reaches over a
/// slash of the normalized template.
pub proof fn law_segments_hold_no_slash(text: Seq<char>)
    ensures
        forall|k: int, i: int|
            0 <= k < segments(text).len() && 0 <= i < segments(text)[k].len()
                ==> #[trigger] segments(text)[k][i] != '/',
{
    lemma_split_on(text, '/');
    let pieces = split_on(text, '/');
    assert forall|k: int, i: int|
        0 <= k < segments(text).len() && 0 <= i < segments(text)[k].len() implies #[trigger] segments(
        text,
    )[k][i] != '/' by {
        assert(segments(text)[k] == pieces[k + 1]);
    }
}

/// A pattern is anchored at both ends, and holds one `/` and one piece for
/// each segment of the normalized template, in their order.
pub proof fn law_pattern_is_anchored(template: Seq<char>)
    ensures
        pattern_of(template).len() >= 2,
        pattern_of(template).first() == '^',
        pattern_of(template).last() == '$',
        pattern_of(template).subrange(1, pattern_of(template).len() - 1) == joined(
            segments(normalized(template)),
        ),
{
    let body = joined(segments(normalized(template)));
    let pattern = pattern_of(template);
    assert(pattern.subrange(1, pattern.len() - 1) =~= body);
}

} // verus!
