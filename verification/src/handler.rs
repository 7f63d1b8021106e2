//! Dispatch: one served route, `GET /`, and a fixed answer to everything
//! else. A request never fails; it always gets a response.

use crate::bytes::same_bytes;
use crate::entropy::gen_up_to;
use crate::filler::FillerBuffer;
use crate::page::{
    closing_tag_spec, fragment_spec, lemma_fragment_precedes_closing_tag, page_spec, render_page,
    template_spec,
};
use crate::search::{insertion_point, occurs, occurs_at};
use rand::rngs::ThreadRng;
use vstd::prelude::*;
use vstd::string::*;

verus! {

/// Status of a response that carries the page.
pub const STATUS_OK: u16 = 200;

/// Status of a response to anything but the served route.
pub const STATUS_NOT_FOUND: u16 = 404;

/// The method of the served route.
pub const SERVED_METHOD: &'static str = "GET";

/// The path of the served route.
pub const SERVED_PATH: &'static str = "/";

/// What dispatch reads of a request: its method and the path of its target,
/// as they stand on the request line.
#[derive(Clone, Debug)]
pub struct Request {
    pub method: Vec<u8>,
    pub path: Vec<u8>,
}

/// A request as a mathematical value.
pub struct RequestView {
    pub method: Seq<u8>,
    pub path: Seq<u8>,
}

impl View for Request {
    type V = RequestView;

    open spec fn view(&self) -> RequestView {
        RequestView { method: self.method@, path: self.path@ }
    }
}

/// A response: a status code and a body.
#[derive(Clone, Debug)]
pub struct Response {
    pub status: u16,
    pub body: Vec<u8>,
}

/// A response as a mathematical value.
pub struct ResponseView {
    pub status: u16,
    pub body: Seq<u8>,
}

impl View for Response {
    type V = ResponseView;

    open spec fn view(&self) -> ResponseView {
        ResponseView { status: self.status, body: self.body@ }
    }
}

/// The request is for the served route: its method is `GET` and its path is
/// `/`, both exactly.
pub open spec fn is_served(request: RequestView) -> bool {
    request.method == SERVED_METHOD.spec_bytes() && request.path == SERVED_PATH.spec_bytes()
}

/// The response to anything but the served route: status 404, no body.
pub open spec fn not_found_spec() -> ResponseView {
    ResponseView { status: 404, body: Seq::empty() }
}

/// The response to `request` when the page embeds the first `k` bytes of
/// `filler`: the page with status 200 for the served route, and the fixed
/// 404 response, in which `k` plays no part, for every other request.
pub open spec fn response_spec(request: RequestView, filler: Seq<u8>, k: nat) -> ResponseView {
    if is_served(request) {
        ResponseView { status: 200, body: page_spec(filler, k) }
    } else {
        not_found_spec()
    }
}

impl Request {
    /// The request with the given method and path.
    pub fn new(method: &str, path: &str) -> (request: Request)
        ensures
            request@.method == method.spec_bytes(),
            request@.path == path.spec_bytes(),
    {
        Request { method: method.as_bytes_vec(), path: path.as_bytes_vec() }
    }

    /// Whether the request is for the served route.
    pub fn is_served(&self) -> (served: bool)
        ensures
            served == is_served(self@),
    {
        same_bytes(self.method.as_slice(), SERVED_METHOD.as_bytes()) && same_bytes(
            self.path.as_slice(),
            SERVED_PATH.as_bytes(),
        )
    }
}

impl Response {
    /// The response to anything but the served route.
    pub fn not_found() -> (response: Response)
        ensures
            response@ == not_found_spec(),
    {
        Response { status: STATUS_NOT_FOUND, body: Vec::new() }
    }
}

/// The response to `request`, given the number `k` of bytes of the filler
/// buffer that the page is to embed.
pub fn respond(request: &Request, filler: &FillerBuffer, k: usize) -> (response: Response)
    requires
        is_served(request@) ==> k <= filler@.len(),
    ensures
        response@ == response_spec(request@, filler@, k as nat),
{
    if request.is_served() {
        Response { status: STATUS_OK, body: render_page(filler.as_bytes(), k) }
    } else {
        Response::not_found()
    }
}

/// Answers one request. For the served route the number of bytes to embed is
/// drawn at random, from zero to the length of the filler buffer; whatever
/// number comes out, the response is the one that `respond` gives for it.
pub fn handle_request(request: &Request, filler: &FillerBuffer) -> (response: Response)
    ensures
        exists|k: nat| k <= filler@.len() && response@ == response_spec(request@, filler@, k),
{
    if request.is_served() {
        let mut rng: ThreadRng = rand::thread_rng();
        let k: usize = gen_up_to(&mut rng, filler.len());
        let response = respond(request, filler, k);
        assert(k as nat <= filler@.len() && response@ == response_spec(
            request@,
            filler@,
            k as nat,
        ));
        response
    } else {
        let response = respond(request, filler, 0);
        assert(0nat <= filler@.len() && response@ == response_spec(request@, filler@, 0nat));
        response
    }
}

/// The served route is answered with status 200 and a body that holds the
/// fragment with the closing body tag immediately behind it.
pub proof fn lemma_served_route(request: RequestView, filler: Seq<u8>, k: nat)
    requires
        is_served(request),
    ensures
        response_spec(request, filler, k).status == 200,
        occurs(response_spec(request, filler, k).body, closing_tag_spec()),
        exists|at: int|
            {
                &&& #[trigger] occurs_at(
                    response_spec(request, filler, k).body,
                    fragment_spec(filler, k),
                    at,
                )
                &&& occurs_at(
                    response_spec(request, filler, k).body,
                    closing_tag_spec(),
                    at + fragment_spec(filler, k).len(),
                )
            },
{
    lemma_fragment_precedes_closing_tag(filler, k);
    let at = insertion_point(template_spec(), closing_tag_spec());
    assert(occurs_at(response_spec(request, filler, k).body, fragment_spec(filler, k), at));
}

/// Every request but one for the served route is answered with status 404.
pub proof fn lemma_other_routes(request: RequestView, filler: Seq<u8>, k: nat)
    requires
        !is_served(request),
    ensures
        response_spec(request, filler, k).status == 404,
        response_spec(request, filler, k).body.len() == 0,
{
}

/// A request that is not for the served route gets the same response every
/// time, whatever the filler buffer holds and whatever number was drawn.
pub proof fn lemma_not_found_is_stable(
    request: RequestView,
    filler_a: Seq<u8>,
    k_a: nat,
    filler_b: Seq<u8>,
    k_b: nat,
)
    requires
        !is_served(request),
    ensures
        response_spec(request, filler_a, k_a) == response_spec(request, filler_b, k_b),
        response_spec(request, filler_a, k_a) == not_found_spec(),
{
}

/// Every response has status 200 or status 404: no request fails.
pub proof fn lemma_status_is_200_or_404(request: RequestView, filler: Seq<u8>, k: nat)
    ensures
        response_spec(request, filler, k).status == 200 || response_spec(
            request,
            filler,
            k,
        ).status == 404,
{
}

} // verus!
