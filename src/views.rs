//! The per-request page pipeline: header, body and footer fragments, and
//! the assembler that joins them into one document.
use vstd::prelude::*;
use crate::markup::{
    contains, doctype, doctype_text, escape_text, html_escape, is_plain_text, lemma_escape_plain,
    occurs_at,
};

verus! {

/// The text of a fragment that may be absent.
pub open spec fn text_of(o: Option<String>) -> Option<Seq<char>> {
    match o {
        Some(s) => Some(s@),
        None => None,
    }
}

/// Fragments rendered for one request, each written once by its producer.
#[derive(Debug)]
pub struct FragmentStore {
    pub header: Option<String>,
    pub body: Option<String>,
    pub footer: Option<String>,
}

impl FragmentStore {
    /// No fragment has been rendered yet.
    pub open spec fn is_empty(&self) -> bool {
        self.header is None && self.body is None && self.footer is None
    }

    /// All three fragments have been rendered.
    pub open spec fn is_complete(&self) -> bool {
        self.header is Some && self.body is Some && self.footer is Some
    }

    /// A store with no fragment in it.
    pub fn new() -> (r: FragmentStore)
        ensures
            r.is_empty(),
    {
        FragmentStore { header: None, body: None, footer: None }
    }
}


/// One inbound request: the caller's address in its canonical text form and
/// the fragments rendered for it so far.
pub struct Request {
    pub remote_ip: String,
    pub extensions: FragmentStore,
}

impl Request {
    /// A request from `remote_ip` with no fragment rendered yet.
    pub fn new(remote_ip: String) -> (r: Request)
        ensures
            r.remote_ip@ == remote_ip@,
            r.extensions.is_empty(),
    {
        Request { remote_ip, extensions: FragmentStore::new() }
    }
}

/// An HTTP status code and, where there is one, an HTML body.
#[derive(Debug)]
pub struct Response {
    pub status: u16,
    pub body: Option<String>,
}

/// The header fragment.
pub open spec fn header_markup() -> Seq<char> {
    "<p>header</p>"@
}

/// The footer fragment.
pub open spec fn footer_markup() -> Seq<char> {
    "<p>footer</p>"@
}

/// The opening tag of the body fragment.
pub open spec fn address_open_tag() -> Seq<char> {
    "<p id=\"address\">"@
}

/// The words that precede the address.
pub open spec fn address_label() -> Seq<char> {
    "Your IP address is: "@
}

/// The closing tag of the body fragment.
pub open spec fn address_close_tag() -> Seq<char> {
    "</p>"@
}

/// The body fragment for a caller at address `ip` (its text form).
pub open spec fn body_markup(ip: Seq<char>) -> Seq<char> {
    address_open_tag() + address_label() + html_escape(ip) + address_close_tag()
}

/// The document shell up to the header fragment.
pub open spec fn shell_open() -> Seq<char> {
    "<html><head><title>Title</title></head><body><div id=\"header\">"@
}

/// The shell between the header and body fragments.
pub open spec fn shell_after_header() -> Seq<char> {
    "</div><br><div id=\"body\">"@
}

/// The shell between the body and footer fragments.
pub open spec fn shell_after_body() -> Seq<char> {
    "</div><br><div id=\"footer\">"@
}

/// The shell after the footer fragment.
pub open spec fn shell_close() -> Seq<char> {
    "</div></body></html>"@
}

/// The full document holding the three fragments verbatim, in order.
pub open spec fn document(header: Seq<char>, body: Seq<char>, footer: Seq<char>) -> Seq<char> {
    doctype_text() + shell_open() + header + shell_after_header() + body + shell_after_body()
        + footer + shell_close()
}

/// The page served to a caller at address `ip`.
pub open spec fn page_document(ip: Seq<char>) -> Seq<char> {
    document(header_markup(), body_markup(ip), footer_markup())
}

/// Renders the header before the handler and the footer after it.
pub struct ViewTemplate;

impl ViewTemplate {
    /// Stores the header fragment; the other fragments are left as they were.
    pub fn before(&self, req: &mut Request)
        ensures
            text_of(final(req).extensions.header) == Some(header_markup()),
            final(req).extensions.body == old(req).extensions.body,
            final(req).extensions.footer == old(req).extensions.footer,
            final(req).remote_ip == old(req).remote_ip,
    {
        let markup = String::from_str("<p>header</p>");
        req.extensions.header = Some(markup);
    }

    /// Stores the footer fragment and hands the response on unchanged.
    pub fn after(&self, req: &mut Request, res: Response) -> (r: Response)
        ensures
            text_of(final(req).extensions.footer) == Some(footer_markup()),
            final(req).extensions.header == old(req).extensions.header,
            final(req).extensions.body == old(req).extensions.body,
            final(req).remote_ip == old(req).remote_ip,
            r == res,
    {
        let markup = String::from_str("<p>footer</p>");
        req.extensions.footer = Some(markup);
        res
    }
}

/// Renders the body fragment, which shows the caller's address, and answers
/// with a bare success.
pub fn home(req: &mut Request) -> (r: Response)
    ensures
        text_of(final(req).extensions.body) == Some(body_markup(old(req).remote_ip@)),
        final(req).extensions.header == old(req).extensions.header,
        final(req).extensions.footer == old(req).extensions.footer,
        final(req).remote_ip == old(req).remote_ip,
        r.status == 200,
        r.body is None,
{
    let ip = escape_text(req.remote_ip.as_str());
    let mut markup = String::from_str("<p id=\"address\">");
    markup.append("Your IP address is: ");
    markup.append(ip.as_str());
    markup.append("</p>");
    req.extensions.body = Some(markup);
    Response { status: 200, body: None }
}

/// The answer to a request that no route matches: 404 with no body.
pub fn not_found(_req: &Request) -> (r: Response)
    ensures
        r.status == 404,
        r.body is None,
{
    Response { status: 404, body: None }
}

/// The fragment that was missing when the assembler ran.
#[derive(Debug, Clone, Copy, PartialEq, Eq, Structural)]
pub enum AssemblyError {
    MissingHeader,
    MissingBody,
    MissingFooter,
}

/// Joins the stored fragments into the final document.
pub struct ViewAssembler;

impl ViewAssembler {
    /// Succeeds exactly when all three fragments are stored; the error names
    /// the first one missing, in the order header, body, footer.
    pub fn after(&self, req: &Request, _res: Response) -> (r: Result<Response, AssemblyError>)
        ensures
            req.extensions.header is None ==> r == Err::<Response, AssemblyError>(
                AssemblyError::MissingHeader,
            ),
            req.extensions.header is Some && req.extensions.body is None ==> r == Err::<
                Response,
                AssemblyError,
            >(AssemblyError::MissingBody),
            req.extensions.header is Some && req.extensions.body is Some
                && req.extensions.footer is None ==> r == Err::<Response, AssemblyError>(
                AssemblyError::MissingFooter,
            ),
            r is Ok <==> req.extensions.is_complete(),
            r is Ok ==> r->Ok_0.status == 200 && text_of(r->Ok_0.body) == Some(
                document(
                    req.extensions.header->Some_0@,
                    req.extensions.body->Some_0@,
                    req.extensions.footer->Some_0@,
                ),
            ),
    {
        let header = match &req.extensions.header {
            Some(h) => h,
            None => return Err(AssemblyError::MissingHeader),
        };
        let body = match &req.extensions.body {
            Some(b) => b,
            None => return Err(AssemblyError::MissingBody),
        };
        let footer = match &req.extensions.footer {
            Some(f) => f,
            None => return Err(AssemblyError::MissingFooter),
        };
        let mut markup = doctype();
        markup.append("<html><head><title>Title</title></head><body><div id=\"header\">");
        markup.append(header.as_str());
        markup.append("</div><br><div id=\"body\">");
        markup.append(body.as_str());
        markup.append("</div><br><div id=\"footer\">");
        markup.append(footer.as_str());
        markup.append("</div></body></html>");
        Ok(Response { status: 200, body: Some(markup) })
    }
}

/// Serves the page to a caller at `remote_ip`: header, handler, footer,
/// then assembly, in that order.
pub fn serve_page(remote_ip: String) -> (r: Response)
    ensures
        r.status == 200,
        text_of(r.body) == Some(page_document(remote_ip@)),
{
    let mut req = Request::new(remote_ip);
    let template = ViewTemplate;
    template.before(&mut req);
    let res = home(&mut req);
    let res = template.after(&mut req, res);
    match ViewAssembler.after(&req, res) {
        Ok(page) => page,
        Err(_) => Response { status: 500, body: None },
    }
}


/// The page holds the header, body and footer fragments verbatim, in that
/// order and without overlap.
pub proof fn lemma_page_fragments_in_order(ip: Seq<char>)
    ensures
        exists|i: int, j: int, k: int|
            occurs_at(page_document(ip), header_markup(), i) && occurs_at(
                page_document(ip),
                body_markup(ip),
                j,
            ) && occurs_at(page_document(ip), footer_markup(), k) && i + header_markup().len()
                <= j && j + body_markup(ip).len() <= k,
{
    let h = header_markup();
    let b = body_markup(ip);
    let f = footer_markup();
    let doc = page_document(ip);
    let before_header = doctype_text() + shell_open();
    let before_body = before_header + h + shell_after_header();
    let before_footer = before_body + b + shell_after_body();
    assert(doc == before_footer + f + shell_close());
    let i = before_header.len() as int;
    let j = before_body.len() as int;
    let k = before_footer.len() as int;
    assert(doc.subrange(i, i + h.len()) =~= h);
    assert(doc.subrange(j, j + b.len()) =~= b);
    assert(doc.subrange(k, k + f.len()) =~= f);
    assert(occurs_at(doc, h, i) && occurs_at(doc, b, j) && occurs_at(doc, f, k));
}

/// For an address whose text has nothing to escape (as with the canonical
/// form of any IPv4 or IPv6 address), the body fragment shows the label
/// followed by the address exactly.
pub proof fn lemma_body_shows_address(ip: Seq<char>)
    requires
        is_plain_text(ip),
    ensures
        contains(body_markup(ip), address_label() + ip),
{
    lemma_escape_plain(ip);
    let needle = address_label() + ip;
    let body = body_markup(ip);
    let i = address_open_tag().len() as int;
    assert(body == address_open_tag() + needle + address_close_tag());
    assert(body.subrange(i, i + needle.len()) =~= needle);
    assert(occurs_at(body, needle, i));
}

/// The page depends on the caller's address alone: two requests from the same
/// address are served the same document.
pub proof fn lemma_page_deterministic(a: Seq<char>, b: Seq<char>)
    requires
        a == b,
    ensures
        page_document(a) == page_document(b),
{
}

} // verus!
