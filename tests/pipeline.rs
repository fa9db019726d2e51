use iron_views::views::{
    home, not_found, serve_page, AssemblyError, Request, Response, ViewAssembler, ViewTemplate,
};

fn page_body(ip: &str) -> String {
    let res = serve_page(ip.to_string());
    assert_eq!(res.status, 200);
    res.body.expect("the page has a body")
}

fn count(hay: &str, needle: &str) -> usize {
    hay.matches(needle).count()
}

#[test]
fn page_for_ipv4_shows_address() {
    let body = page_body("203.0.113.7");
    assert!(body.contains("Your IP address is: 203.0.113.7"));
}

#[test]
fn page_for_ipv6_shows_address() {
    let body = page_body("::1");
    assert!(body.contains("Your IP address is: ::1"));
}

#[test]
fn page_is_the_whole_document() {
    let body = page_body("203.0.113.7");
    assert_eq!(
        body,
        "<!DOCTYPE html><html><head><title>Title</title></head><body>\
         <div id=\"header\"><p>header</p></div><br>\
         <div id=\"body\"><p id=\"address\">Your IP address is: 203.0.113.7</p></div><br>\
         <div id=\"footer\"><p>footer</p></div></body></html>"
    );
}

#[test]
fn page_holds_each_fragment_once_in_order() {
    let body = page_body("::1");
    let header = "<p>header</p>";
    let address = "<p id=\"address\">Your IP address is: ::1</p>";
    let footer = "<p>footer</p>";
    assert_eq!(count(&body, header), 1);
    assert_eq!(count(&body, address), 1);
    assert_eq!(count(&body, footer), 1);
    let i = body.find(header).unwrap();
    let j = body.find(address).unwrap();
    let k = body.find(footer).unwrap();
    assert!(i < j && j < k);
}

#[test]
fn same_request_twice_gives_same_page() {
    assert_eq!(page_body("198.51.100.1"), page_body("198.51.100.1"));
}

#[test]
fn address_text_is_escaped() {
    let mut req = Request::new("a<b>&\"c".to_string());
    let res = home(&mut req);
    assert_eq!(res.status, 200);
    assert!(res.body.is_none());
    assert_eq!(
        req.extensions.body.as_deref(),
        Some("<p id=\"address\">Your IP address is: a&lt;b&gt;&amp;&quot;c</p>")
    );
}

#[test]
fn hooks_store_header_and_footer() {
    let mut req = Request::new("::1".to_string());
    ViewTemplate.before(&mut req);
    assert_eq!(req.extensions.header.as_deref(), Some("<p>header</p>"));
    assert!(req.extensions.body.is_none());
    assert!(req.extensions.footer.is_none());
    let res = ViewTemplate.after(&mut req, Response { status: 200, body: None });
    assert_eq!(res.status, 200);
    assert_eq!(req.extensions.footer.as_deref(), Some("<p>footer</p>"));
}

#[test]
fn api_route_is_not_found_without_body() {
    let req = Request::new("203.0.113.7".to_string());
    let res = not_found(&req);
    assert_eq!(res.status, 404);
    assert!(res.body.is_none());
}

#[test]
fn assembly_without_footer_hook_fails() {
    let mut req = Request::new("203.0.113.7".to_string());
    ViewTemplate.before(&mut req);
    let res = home(&mut req);
    let r = ViewAssembler.after(&req, res);
    assert_eq!(r.unwrap_err(), AssemblyError::MissingFooter);
}

#[test]
fn assembly_without_header_hook_fails() {
    let mut req = Request::new("203.0.113.7".to_string());
    let res = home(&mut req);
    let res = ViewTemplate.after(&mut req, res);
    let r = ViewAssembler.after(&req, res);
    assert_eq!(r.unwrap_err(), AssemblyError::MissingHeader);
}

#[test]
fn assembly_without_handler_fails() {
    let mut req = Request::new("203.0.113.7".to_string());
    ViewTemplate.before(&mut req);
    let res = ViewTemplate.after(&mut req, Response { status: 200, body: None });
    let r = ViewAssembler.after(&req, res);
    assert_eq!(r.unwrap_err(), AssemblyError::MissingBody);
}

#[test]
fn assembly_of_all_fragments_succeeds() {
    let mut req = Request::new("::1".to_string());
    ViewTemplate.before(&mut req);
    let res = home(&mut req);
    let res = ViewTemplate.after(&mut req, res);
    let page = ViewAssembler.after(&req, res).unwrap();
    assert_eq!(page.status, 200);
    let body = page.body.unwrap();
    assert!(body.starts_with("<!DOCTYPE html><html>"));
    assert!(body.contains("<div id=\"body\"><p id=\"address\">Your IP address is: ::1</p></div>"));
}
