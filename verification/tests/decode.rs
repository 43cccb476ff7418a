use trivia_game::text::decode_html;

#[test]
fn decodes_quotes() {
    assert_eq!(decode_html("&quot;hi&quot;"), "\"hi\"");
}

#[test]
fn decodes_numeric_and_named_apostrophe() {
    assert_eq!(decode_html("It&#039;s"), "It's");
    assert_eq!(decode_html("It&apos;s"), "It's");
}

#[test]
fn decodes_ampersand_and_angle_brackets() {
    assert_eq!(decode_html("a &amp; b"), "a & b");
    assert_eq!(decode_html("1 &lt; 2 &gt; 0"), "1 < 2 > 0");
}

#[test]
fn decodes_passes_cascade() {
    // The ampersand pass runs before the angle-bracket passes, so a
    // doubly encoded entity decodes all the way down.
    assert_eq!(decode_html("&amp;lt;"), "<");
}

#[test]
fn unknown_entities_pass_through() {
    assert_eq!(decode_html("&unknown; stays"), "&unknown; stays");
}

#[test]
fn plain_text_unchanged() {
    assert_eq!(decode_html("no entities here"), "no entities here");
}

#[test]
fn decodes_unicode_text() {
    assert_eq!(decode_html("caf\u{e9} &amp; th\u{e9}"), "caf\u{e9} & th\u{e9}");
}
