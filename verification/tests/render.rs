use site_gen::render::render;

#[test]
fn renders_markdown_and_passes_the_preamble_over() {
    let r = render("---\ntitle = \"x\"\n---\n# Heading\n\nSome *text*.\n");
    assert_eq!(r.html, "<h1>Heading</h1>\n<p>Some <em>text</em>.</p>\n");
    assert_eq!(r.plain_text, "Heading\nSome text.\n");
}

#[test]
fn keeps_markup_of_the_document() {
    let r = render("a <b>raw</b> <xmp>tag</xmp>");
    assert_eq!(r.html, "<p>a <b>raw</b> <xmp>tag</xmp></p>\n");
    assert_eq!(r.plain_text, "a raw tag\n");
}

#[test]
fn smart_punctuation_and_strikethrough_are_on() {
    let r = render("\"quotes\" -- ~~gone~~");
    assert_eq!(r.html, "<p>\u{201c}quotes\u{201d} \u{2013} <del>gone</del></p>\n");
    assert_eq!(r.plain_text, "\u{201c}quotes\u{201d} \u{2013} gone\n");
}

#[test]
fn plain_text_has_no_tags_and_no_comments() {
    let r = render("<span class=\"a\">b</span> <!-- note --> c");
    assert_eq!(r.plain_text, "b  c\n");
}

#[test]
fn empty_document_renders_to_nothing() {
    let r = render("");
    assert_eq!(r.html, "");
    assert_eq!(r.plain_text, "");
}
