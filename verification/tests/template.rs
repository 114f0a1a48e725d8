use pathmaker::{anchor, normalize_url, parse, pattern_text, Kind};

fn assert_path(given: &str, expected: &str) {
    assert_eq!(parse(given).as_str(), expected)
}

#[test]
fn test_route_parse() {
    assert_path("/some/path", r"^/some/path$");
    assert_path("/some/{:string}", r"^/some/([^/]+)$");
    assert_path("/some/{:int}", "^/some/([-+]?[0-9]+)$");
    assert_path("/some/{:uint}", "^/some/([0-9]+)$");
    assert_path(
        "/some/{:uuid}",
        r"^/some/([a-fA-F0-9]{8}-[a-fA-F0-9]{4}-[a-fA-F0-9]{4}-[a-fA-F0-9]{4}-[a-fA-F0-9]{12})$",
    );
}

#[test]
fn bare_placeholder_is_a_string_placeholder() {
    assert_eq!(pattern_text("/some/{}"), r"^/some/([^/]+)$");
    assert_eq!(pattern_text("/{}/{}"), r"^/([^/]+)/([^/]+)$");
}

#[test]
fn unknown_kind_is_an_unrestricted_capture() {
    assert_eq!(pattern_text("/some/{:slug}"), r"^/some/([^/]*)$");
    assert_eq!(pattern_text("/some/{:String}"), r"^/some/([^/]*)$");
    assert_eq!(pattern_text("/some/{:uint8}"), r"^/some/([^/]*)$");
    assert_eq!(pattern_text("/some/{:u_1}"), r"^/some/([^/]*)$");
    assert_eq!(pattern_text("/some/{:x}"), r"^/some/([^/]*)$");
}

#[test]
fn kind_name_may_go_on_with_any_word_character() {
    assert_eq!(pattern_text("/some/{:na\u{ef}ve}"), r"^/some/([^/]*)$");
    assert_eq!(pattern_text("/some/{:k\u{3b1}\u{0663}}"), r"^/some/([^/]*)$");
}

#[test]
fn what_is_not_a_placeholder_is_literal_text() {
    assert_eq!(pattern_text("/{"), r"^/\{$");
    assert_eq!(pattern_text("/}"), r"^/\}$");
    assert_eq!(pattern_text("/{:}"), r"^/\{:\}$");
    assert_eq!(pattern_text("/{:1a}"), r"^/\{:1a\}$");
    assert_eq!(pattern_text("/{:_a}"), r"^/\{:_a\}$");
    assert_eq!(pattern_text("/{:\u{e9}t\u{e9}}"), "^/\\{:\u{e9}t\u{e9}\\}$");
    assert_eq!(pattern_text("/{:a-b}"), r"^/\{:a\-b\}$");
    assert_eq!(pattern_text("/{:a b}"), r"^/\{:a b\}$");
    assert_eq!(pattern_text("/{int}"), r"^/\{int\}$");
    assert_eq!(pattern_text("/{ }"), r"^/\{ \}$");
    assert_eq!(pattern_text("/x{}"), r"^/x\{\}$");
    assert_eq!(pattern_text("/{}x"), r"^/\{\}x$");
    assert_eq!(pattern_text("/{:int}x"), r"^/\{:int\}x$");
    assert_eq!(pattern_text("/{{}}"), r"^/\{\{\}\}$");
    assert_eq!(pattern_text("/{:int}}"), r"^/\{:int\}\}$");
}

#[test]
fn every_meta_character_is_escaped() {
    assert_eq!(
        pattern_text(r"/\.+*()|[]{}^$#&-~"),
        r"^/\\\.\+\*\(\)\|\[\]\{\}\^\$\#\&\-\~$"
    );
    assert_eq!(pattern_text("/file.txt"), r"^/file\.txt$");
    assert_eq!(pattern_text("/c++"), r"^/c\+\+$");
}

#[test]
fn other_characters_are_left_alone() {
    assert_eq!(pattern_text("/a b!\"'%,:;<=>@_`"), "^/a b!\"'%,:;<=>@_`$");
    assert_eq!(pattern_text("/caf\u{e9}/\u{1f600}"), "^/caf\u{e9}/\u{1f600}$");
}

#[test]
fn piece_before_the_first_slash_is_dropped() {
    assert_eq!(pattern_text(""), "^$");
    assert_eq!(pattern_text("abc"), "^$");
    assert_eq!(pattern_text("abc/def"), "^/def$");
    assert_eq!(pattern_text("{:uint}/x"), "^/x$");
}

#[test]
fn empty_segments_are_kept() {
    assert_eq!(pattern_text("/"), "^/$");
    assert_eq!(pattern_text("//"), "^//$");
    assert_eq!(pattern_text("/a/"), "^/a/$");
    assert_eq!(pattern_text("/a//b"), "^/a//b$");
}

#[test]
fn template_is_normalized_before_it_is_split() {
    assert_eq!(pattern_text("/some/path?x=1"), "^/some/path$");
    assert_eq!(pattern_text("/some/{:uint}?x={}"), "^/some/([0-9]+)$");
    assert_eq!(pattern_text("?/some"), "^$");
    assert_eq!(pattern_text("/a%2Fb"), "^/a/b$");
    assert_eq!(pattern_text("/%7B%3Aint%7D"), "^/([-+]?[0-9]+)$");
    assert_eq!(pattern_text("/a%3Fb"), r"^/a\?b$");
    assert_eq!(pattern_text("/a%2eb"), r"^/a\.b$");
}

#[test]
fn anchor_takes_the_text_as_it_is() {
    assert_eq!(anchor("/a%2Fb"), "^/a%2Fb$");
    assert_eq!(anchor("/a?b"), r"^/a\?b$");
    assert_eq!(anchor("/some/{:uuid}/x"), format!("^/some/{}/x$", Kind::Uuid.pattern()));
}

#[test]
fn kind_patterns() {
    assert_eq!(Kind::Text.pattern(), "([^/]+)");
    assert_eq!(Kind::Int.pattern(), "([-+]?[0-9]+)");
    assert_eq!(Kind::Uint.pattern(), "([0-9]+)");
    assert_eq!(
        Kind::Uuid.pattern(),
        r"([a-fA-F0-9]{8}-[a-fA-F0-9]{4}-[a-fA-F0-9]{4}-[a-fA-F0-9]{4}-[a-fA-F0-9]{12})"
    );
    assert_eq!(Kind::Any.pattern(), "([^/]*)");
}

#[test]
fn normalize_cuts_the_query_string() {
    assert_eq!(normalize_url("/a/b?c=d"), "/a/b");
    assert_eq!(normalize_url("/a/b?c=d?e"), "/a/b");
    assert_eq!(normalize_url("/a/b?"), "/a/b");
    assert_eq!(normalize_url("?"), "");
    assert_eq!(normalize_url("?x"), "");
    assert_eq!(normalize_url(""), "");
    assert_eq!(normalize_url("/a/b"), "/a/b");
}

#[test]
fn normalize_decodes_percent_escapes() {
    assert_eq!(normalize_url("/a%20b"), "/a b");
    assert_eq!(normalize_url("%41%42%43"), "ABC");
    assert_eq!(normalize_url("%4a%4A"), "JJ");
    assert_eq!(normalize_url("/caf%C3%A9"), "/caf\u{e9}");
    assert_eq!(normalize_url("%F0%9F%98%80"), "\u{1f600}");
    assert_eq!(normalize_url("%2525"), "%25");
    assert_eq!(normalize_url("%00"), "\u{0}");
}

#[test]
fn normalize_keeps_a_percent_sign_that_starts_no_escape() {
    assert_eq!(normalize_url("%"), "%");
    assert_eq!(normalize_url("%4"), "%4");
    assert_eq!(normalize_url("%zz"), "%zz");
    assert_eq!(normalize_url("%4g"), "%4g");
    assert_eq!(normalize_url("100%"), "100%");
    assert_eq!(normalize_url("%%41"), "%A");
    assert_eq!(normalize_url("%+1"), "%+1");
}

#[test]
fn normalize_cuts_before_it_decodes() {
    assert_eq!(normalize_url("/a%3Fb?c"), "/a?b");
    assert_eq!(normalize_url("/a?%41"), "/a");
}

#[test]
fn normalize_replaces_malformed_utf8() {
    assert_eq!(normalize_url("%FF"), "\u{fffd}");
    assert_eq!(normalize_url("a%C3"), "a\u{fffd}");
    assert_eq!(normalize_url("%C3%28"), "\u{fffd}(");
    assert_eq!(normalize_url("/caf\u{e9}"), "/caf\u{e9}");
}
