use random_page_server::page::{
    page_template, render_fragment, render_page, CLOSING_TAG, FRAGMENT_CLOSING, FRAGMENT_MIDDLE,
    FRAGMENT_OPENING, PAGE_HEAD, PAGE_TAIL,
};

const TEMPLATE: &str = "<!DOCTYPE html>
<html>
<head>
<title>Random Page!</title>
<style>
    body {
        width: 35em;
        margin: 0 auto;
        font-family: Tahoma, Verdana, Arial, sans-serif;
    }
</style>
</head>
<body>
<h1>Random Page!</h1>
<p>This is a random page generated by Random Page Server.</p>
</body>
</html>";

#[test]
fn template_is_the_landing_page() {
    assert_eq!(page_template(), TEMPLATE.as_bytes().to_vec());
    assert_eq!(page_template().len(), 308);
}

#[test]
fn template_parts_meet_at_the_closing_tag() {
    assert_eq!(format!("{}{}{}", PAGE_HEAD, CLOSING_TAG, PAGE_TAIL), TEMPLATE);
    assert_eq!(TEMPLATE.find(CLOSING_TAG), Some(PAGE_HEAD.len()));
    assert_eq!(PAGE_HEAD.len(), 293);
}

#[test]
fn fragment_reports_the_size_and_embeds_the_text() {
    assert_eq!(
        render_fragment(b"abcdef", 4),
        b"<p>Page size: 4 Bytes</p><p>abcd</p>".to_vec()
    );
    assert_eq!(
        render_fragment(b"abcdef", 6),
        b"<p>Page size: 6 Bytes</p><p>abcdef</p>".to_vec()
    );
}

#[test]
fn fragment_of_nothing_reports_zero() {
    assert_eq!(render_fragment(b"abcdef", 0), b"<p>Page size: 0 Bytes</p><p></p>".to_vec());
    assert_eq!(render_fragment(b"", 0), b"<p>Page size: 0 Bytes</p><p></p>".to_vec());
}

#[test]
fn fragment_parts_are_the_markup() {
    assert_eq!(FRAGMENT_OPENING, "<p>Page size: ");
    assert_eq!(FRAGMENT_MIDDLE, " Bytes</p><p>");
    assert_eq!(FRAGMENT_CLOSING, "</p>");
}

#[test]
fn page_holds_the_fragment_before_the_closing_tag() {
    let page = String::from_utf8(render_page(b"abcdefghij", 3)).unwrap();
    let expected = TEMPLATE.replace(
        "</body>",
        "<p>Page size: 3 Bytes</p><p>abc</p></body>",
    );
    assert_eq!(page, expected);
}

#[test]
fn page_with_a_long_fragment_keeps_line_breaks() {
    let mut filler = vec![b'x'; 60];
    filler.push(b'\n');
    filler.extend_from_slice(b"yyy");
    let page = String::from_utf8(render_page(&filler, 63)).unwrap();
    let text = String::from_utf8(filler[..63].to_vec()).unwrap();
    let fragment = format!("<p>Page size: 63 Bytes</p><p>{}</p>", text);
    assert_eq!(page, format!("{}{}{}{}", PAGE_HEAD, fragment, CLOSING_TAG, PAGE_TAIL));
}

#[test]
fn page_is_as_long_as_template_and_fragment() {
    for k in [0usize, 1, 9, 10, 99, 100, 1000] {
        let filler = vec![b'z'; 1000];
        let page = render_page(&filler, k);
        let fragment = render_fragment(&filler, k);
        assert_eq!(page.len(), 308 + fragment.len());
        assert_eq!(fragment.len(), 14 + format!("{}", k).len() + 13 + k + 4);
    }
}
