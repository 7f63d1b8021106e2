use random_page_server::filler::{generate_random_alphanumeric, FillerBuffer};
use random_page_server::handler::{
    handle_request, respond, Request, Response, STATUS_NOT_FOUND, STATUS_OK,
};

const CLOSING_TAG: &str = "</body>";
const TEMPLATE_LEN: usize = 308;

fn reported_size(body: &str) -> usize {
    let from = body.find("<p>Page size: ").unwrap() + "<p>Page size: ".len();
    let to = from + body[from..].find(" Bytes</p><p>").unwrap();
    body[from..to].parse::<usize>().unwrap()
}

fn embedded_text(body: &str) -> String {
    let from = body.find(" Bytes</p><p>").unwrap() + " Bytes</p><p>".len();
    let to = body.find("</p></body>").unwrap();
    body[from..to].to_string()
}

#[test]
fn get_root_is_served() {
    let filler = generate_random_alphanumeric(1024);
    let response = handle_request(&Request::new("GET", "/"), &filler);
    assert_eq!(response.status, 200);
    assert_eq!(response.status, STATUS_OK);
    let body = String::from_utf8(response.body).unwrap();
    assert!(body.contains(CLOSING_TAG));
    assert!(body.starts_with("<!DOCTYPE html>"));
    assert!(body.ends_with("</p></body>\n</html>"));
}

#[test]
fn served_page_reports_the_size_of_what_it_embeds() {
    let filler = generate_random_alphanumeric(2000);
    for _ in 0..50 {
        let response = handle_request(&Request::new("GET", "/"), &filler);
        let body = String::from_utf8(response.body).unwrap();
        let k = reported_size(&body);
        let text = embedded_text(&body);
        assert!(k <= filler.len());
        assert_eq!(text.len(), k);
        assert_eq!(text.as_bytes(), &filler.as_bytes()[..k]);
        let fragment = format!("<p>Page size: {} Bytes</p><p>{}</p>", k, text);
        assert_eq!(body.find(&fragment).unwrap() + fragment.len(), body.find(CLOSING_TAG).unwrap());
    }
}

#[test]
fn served_page_embeds_varying_amounts() {
    let filler = generate_random_alphanumeric(1000);
    let mut below = false;
    let mut sizes = Vec::new();
    for _ in 0..200 {
        let response = handle_request(&Request::new("GET", "/"), &filler);
        let k = reported_size(&String::from_utf8(response.body).unwrap());
        assert!(k <= filler.len());
        if k < filler.len() {
            below = true;
        }
        if !sizes.contains(&k) {
            sizes.push(k);
        }
    }
    assert!(below);
    assert!(sizes.len() > 1);
}

#[test]
fn served_page_with_an_empty_buffer_embeds_nothing() {
    let filler = generate_random_alphanumeric(0);
    let response = handle_request(&Request::new("GET", "/"), &filler);
    assert_eq!(response.status, 200);
    let body = String::from_utf8(response.body).unwrap();
    assert!(body.contains("<p>Page size: 0 Bytes</p><p></p></body>"));
    assert_eq!(body.len(), TEMPLATE_LEN + 32);
}

#[test]
fn respond_embeds_exactly_the_prefix_asked_for() {
    let filler = FillerBuffer::from_symbols(b"abcdefghij").unwrap();
    let response = respond(&Request::new("GET", "/"), &filler, 4);
    assert_eq!(response.status, 200);
    let body = String::from_utf8(response.body).unwrap();
    assert!(body.contains("<p>Page size: 4 Bytes</p><p>abcd</p></body>"));
    assert_eq!(body.len(), TEMPLATE_LEN + 36);
    let whole = respond(&Request::new("GET", "/"), &filler, 10);
    let body = String::from_utf8(whole.body).unwrap();
    assert!(body.contains("<p>Page size: 10 Bytes</p><p>abcdefghij</p></body>"));
}

#[test]
fn respond_ignores_the_number_for_other_routes() {
    let filler = FillerBuffer::from_symbols(b"abc").unwrap();
    let response = respond(&Request::new("GET", "/other"), &filler, 1000);
    assert_eq!(response.status, 404);
    assert!(response.body.is_empty());
}

#[test]
fn other_paths_are_not_found() {
    let filler = generate_random_alphanumeric(100);
    for path in ["/404-missing", "", "//", "/index.html", "/?", "/ ", "*", "/a/b", "/%2F"] {
        let response = handle_request(&Request::new("GET", path), &filler);
        assert_eq!(response.status, 404);
        assert_eq!(response.status, STATUS_NOT_FOUND);
        assert!(response.body.is_empty());
    }
}

#[test]
fn other_methods_are_not_found() {
    let filler = generate_random_alphanumeric(100);
    for method in [
        "POST", "PUT", "DELETE", "HEAD", "OPTIONS", "PATCH", "TRACE", "CONNECT", "get", "Get",
        "GET ", "", "GETX",
    ] {
        let response = handle_request(&Request::new(method, "/"), &filler);
        assert_eq!(response.status, 404);
        assert!(response.body.is_empty());
    }
}

#[test]
fn missing_page_gets_the_same_answer_every_time() {
    let filler = generate_random_alphanumeric(300);
    let request = Request::new("GET", "/404-missing");
    for _ in 0..20 {
        let response = handle_request(&request, &filler);
        assert_eq!(response.status, 404);
        assert_eq!(response.body, Vec::<u8>::new());
    }
}

#[test]
fn not_found_has_no_body() {
    let response = Response::not_found();
    assert_eq!(response.status, 404);
    assert!(response.body.is_empty());
}

#[test]
fn request_keeps_method_and_path() {
    let request = Request::new("GET", "/");
    assert_eq!(request.method, b"GET".to_vec());
    assert_eq!(request.path, b"/".to_vec());
    assert!(request.is_served());
    assert!(!Request::new("POST", "/").is_served());
    assert!(!Request::new("GET", "/x").is_served());
}

#[test]
fn default_buffer_bounds_the_page() {
    let filler = generate_random_alphanumeric(20 * 1024);
    assert_eq!(filler.symbol_count(), 20480);
    assert_eq!(filler.len(), 20480 + 341);
    for _ in 0..20 {
        let response = handle_request(&Request::new("GET", "/"), &filler);
        assert_eq!(response.status, 200);
        let least = TEMPLATE_LEN + "<p>Page size: 0 Bytes</p><p></p>".len();
        let most = TEMPLATE_LEN + "<p>Page size: 20821 Bytes</p><p></p>".len() + filler.len();
        assert!(response.body.len() >= least);
        assert!(response.body.len() <= most);
    }
}
