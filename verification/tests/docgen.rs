use hiko::docgen::{
    decode_html_entities, ensure_narrative_doc_css_patch, escape_html, narrative_doc_css_patch,
    page_shell, strip_span_tags, trim_hash, NARRATIVE_DOC_PATCH_MARKER,
};

#[test]
fn trim_hash_shortens_for_display() {
    let hash = "blake3:321a2d3733c2d1b68f38373e53f963c3ea3b2a36b37a275a5a4be063357d2b46";
    assert_eq!(trim_hash(hash), "blake3:321a2d37...357d2b46");
}

#[test]
fn trim_hash_keeps_short_hashes() {
    assert_eq!(trim_hash("blake3:0123456789abcdef"), "blake3:0123456789abcdef");
    assert_eq!(trim_hash("blake3:0123456789abcdefg"), "blake3:01234567...9abcdefg");
    assert_eq!(trim_hash("blake3:0123456789abcdefgh"), "blake3:01234567...abcdefgh");
}

#[test]
fn escape_html_handles_markup() {
    assert_eq!(escape_html("<&>"), "&lt;&amp;&gt;");
}

#[test]
fn escape_html_handles_quotes() {
    assert_eq!(escape_html("a \"b\" 'c'"), "a &quot;b&quot; &#39;c&#39;");
    assert_eq!(escape_html(""), "");
}

#[test]
fn narrative_doc_patch_is_idempotent() {
    let html = "<style>body { color: black; }\n  </style>";
    let once = ensure_narrative_doc_css_patch(html);
    let twice = ensure_narrative_doc_css_patch(&once);
    assert_eq!(once, twice);
    assert!(once.contains(NARRATIVE_DOC_PATCH_MARKER));
}

#[test]
fn narrative_doc_patch_goes_before_the_first_closing_style_tag() {
    let html = "<style>a{}</style><style>b{}</style>";
    let patched = ensure_narrative_doc_css_patch(html);
    let expected = format!("<style>a{{}}{}\n  </style><style>b{{}}</style>", narrative_doc_css_patch());
    assert_eq!(patched, expected);
    assert!(narrative_doc_css_patch().starts_with("\n    /* hiko-docgen narrative patch */\n"));
}

#[test]
fn narrative_doc_patch_leaves_pages_without_style_alone() {
    assert_eq!(ensure_narrative_doc_css_patch("<p>plain</p>"), "<p>plain</p>");
}

#[test]
fn strip_span_tags_removes_existing_highlight_markup() {
    let html =
        "<span class=\"tok-keyword\">import</span> <span class=\"tok-namespace\">Std</span>";
    assert_eq!(strip_span_tags(html), "import Std");
}

#[test]
fn strip_span_tags_keeps_an_unfinished_tag() {
    assert_eq!(strip_span_tags("a</span>b<span class"), "ab<span class");
    assert_eq!(strip_span_tags("no tags"), "no tags");
}

#[test]
fn decode_html_entities_restores_source_text() {
    assert_eq!(
        decode_html_entities("&lt;tag attr=&quot;x&quot;&gt;&amp;&#39;"),
        "<tag attr=\"x\">&'"
    );
}

#[test]
fn decode_html_entities_decodes_ampersands_last() {
    assert_eq!(decode_html_entities("&amp;lt;"), "&lt;");
}

#[test]
fn page_shell_escapes_title_and_link() {
    let page = page_shell("A<B", "x.css", "<h1>h</h1>", "<p>b</p>");
    assert_eq!(
        page,
        "<!doctype html><html lang=\"en\"><head><meta charset=\"utf-8\"><meta name=\"viewport\" content=\"width=device-width, initial-scale=1\"><title>A&lt;B</title><link rel=\"stylesheet\" href=\"x.css\"></head><body><main><h1>h</h1><p>b</p></main></body></html>"
    );
}

#[test]
fn decoding_restores_escaped_text() {
    for text in ["&lt;not a tag&gt;", "a < b && c > 'd' \"e\"", "&amp;amp;", "plain", ""] {
        assert_eq!(decode_html_entities(&escape_html(text)), text);
    }
}
