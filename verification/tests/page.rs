use sitegen::error::SiteError;
use sitegen::page::{
    decode_text, finish_text_page, listing_html, page_html, preformatted_html, render_text_file,
};

const PAGE: &str = "<html><nav>{{breadcrumbs}}</nav><main>{{content}}</main></html>";

#[test]
fn page_template_takes_trail_and_content() {
    assert_eq!(
        page_html(PAGE, "trail", "body"),
        "<html><nav>trail</nav><main>body</main></html>"
    );
}

#[test]
fn content_slot_inside_the_trail_is_filled_too() {
    assert_eq!(page_html("{{breadcrumbs}}|{{content}}", "{{content}}", "c"), "c|c");
}

#[test]
fn trail_slot_inside_the_content_stays() {
    assert_eq!(
        page_html("{{breadcrumbs}}|{{content}}", "t", "{{breadcrumbs}}"),
        "t|{{breadcrumbs}}"
    );
}

#[test]
fn listing_template_takes_items_and_name() {
    assert_eq!(
        listing_html("<h1>{{name}}</h1><ul>{{content}}</ul>", "<li>x</li>", "docs"),
        "<h1>docs</h1><ul><li>x</li></ul>"
    );
}

#[test]
fn name_slot_inside_the_items_is_filled_too() {
    assert_eq!(listing_html("{{content}}", "{{name}}", "docs"), "docs");
}

#[test]
fn plain_text_is_preformatted() {
    assert_eq!(preformatted_html("a < b"), "<pre class=\"text-file\">a < b</pre>");
}

#[test]
fn decode_text_accepts_utf8_only() {
    assert_eq!(decode_text("héllo".as_bytes()), Some("héllo"));
    assert_eq!(decode_text(b""), Some(""));
    assert_eq!(decode_text(&[0xff, 0xfe]), None);
    assert_eq!(decode_text(&[0xc3]), None);
}

#[test]
fn text_file_becomes_a_preformatted_page() {
    assert_eq!(
        render_text_file("log.txt", b"# not markdown", "T", PAGE),
        Ok("<html><nav>T</nav><main><pre class=\"text-file\"># not markdown</pre></main></html>"
            .to_string())
    );
}

#[test]
fn markdown_file_is_converted() {
    assert_eq!(
        render_text_file("notes.md", b"# Hi Mercury!", "T", PAGE),
        Ok("<html><nav>T</nav><main><h1>Hi Mercury!</h1></main></html>".to_string())
    );
}

#[test]
fn markdown_lets_raw_html_through() {
    assert_eq!(
        render_text_file("notes.md", b"<div>\n\n# Hi Jupiter!\n\n</div>", "", "{{content}}"),
        Ok("<div>\n<h1>Hi Jupiter!</h1>\n</div>".to_string())
    );
}

#[test]
fn invalid_utf8_in_a_text_file_is_an_encoding_failure() {
    assert_eq!(
        render_text_file("bad.md", &[0x66, 0xff], "T", PAGE),
        Err(SiteError::InvalidEncoding { file: "bad.md".to_string() })
    );
    assert_eq!(
        render_text_file("bad.txt", &[0x80], "T", PAGE),
        Err(SiteError::InvalidEncoding { file: "bad.txt".to_string() })
    );
}

#[test]
fn missing_body_is_a_render_failure() {
    assert_eq!(
        finish_text_page("notes.md", None, "T", PAGE),
        Err(SiteError::RenderFailure { file: "notes.md".to_string() })
    );
}

#[test]
fn made_body_is_set_into_the_page() {
    assert_eq!(
        finish_text_page("notes.md", Some("<p>x</p>".to_string()), "T", PAGE),
        Ok("<html><nav>T</nav><main><p>x</p></main></html>".to_string())
    );
}
