//! One connection: read a request, have the handlers answer it, write the
//! response.

use crate::bridge::opt_view;
use crate::http_server::request::request::{
    answer_view, load_request, loaded, RequestHandler,
};
use crate::http_server::response::{
    error_response, generate_error_response, response_text, serialize, serialized,
};
use crate::message::{HttpRequest, HttpResponse, RequestView, ResponseView, StatusCode};
use crate::text::same_text;
use vstd::prelude::*;

verus! {

/// `response` as it goes to a client that asked with `method`: without its
/// body for HEAD, as it is for any other method. The headers stay as they
/// are.
pub open spec fn for_method(method: Seq<char>, response: ResponseView) -> ResponseView {
    if method == "HEAD"@ {
        ResponseView { body: Seq::empty(), ..response }
    } else {
        response
    }
}

/// The response of the first handler that did not decline; 500 where every
/// handler declined.
pub open spec fn first_response(outcomes: Seq<Option<ResponseView>>) -> ResponseView
    decreases outcomes.len(),
{
    if outcomes.len() == 0 {
        error_response(500)
    } else {
        match outcomes[0] {
            Some(response) => response,
            None => first_response(outcomes.drop_first()),
        }
    }
}

/// The response to a request with `method` whose handlers answered with
/// `outcomes`, in their order.
pub open spec fn dispatched(method: Seq<char>, outcomes: Seq<Option<ResponseView>>) -> ResponseView {
    for_method(method, first_response(outcomes))
}

/// Whether `outcomes` is a run of `handlers` on `request`: the handlers were
/// tried in their order, each gave an answer that it may give, and the run
/// ended with the first handler that did not decline, or with the last
/// handler.
pub open spec fn is_run(
    handlers: Seq<Box<dyn RequestHandler>>,
    remote_addr: Seq<char>,
    request: RequestView,
    outcomes: Seq<Option<ResponseView>>,
) -> bool {
    &&& outcomes.len() <= handlers.len()
    &&& forall|i: int|
        0 <= i < outcomes.len() ==> (#[trigger] handlers[i]).answers(
            remote_addr,
            request,
            outcomes[i],
        )
    &&& forall|i: int| 0 <= i < outcomes.len() - 1 ==> (#[trigger] outcomes[i]) is None
    &&& outcomes.len() < handlers.len() ==> outcomes.len() > 0 && outcomes.last() is Some
}

/// Whether `response` is what `handlers` may answer to `request`: the
/// response that some run of them comes to.
pub open spec fn is_response_to(
    handlers: Seq<Box<dyn RequestHandler>>,
    remote_addr: Seq<char>,
    request: RequestView,
    response: ResponseView,
) -> bool {
    exists|outcomes: Seq<Option<ResponseView>>|
        #[trigger] is_run(handlers, remote_addr, request, outcomes) && response == dispatched(
            request.method,
            outcomes,
        )
}

/// Whether `reply` is what may be written back after a read that came to
/// `read`: for a request, the text of a response that `handlers` may answer
/// to it, or nothing where that response cannot be written out; for a status,
/// the text of the empty response with that status.
pub open spec fn is_reply(
    handlers: Seq<Box<dyn RequestHandler>>,
    remote_addr: Seq<char>,
    read: Result<RequestView, u16>,
    reply: Option<Seq<char>>,
) -> bool {
    match read {
        Ok(request) => exists|response: ResponseView|
            #[trigger] is_response_to(handlers, remote_addr, request, response) && reply
                == serialized(response),
        Err(status) => reply == Some(response_text(error_response(status))),
    }
}

/// Gives `request` the response that was found for it: `found`, or 500
/// where no handler answered; in either case without a body for HEAD.
pub fn finish_response(request: &HttpRequest, found: Option<HttpResponse>) -> (r: HttpResponse)
    ensures
        r@ == for_method(
            request@.method,
            match found {
                Some(response) => response@,
                None => error_response(500),
            },
        ),
{
    let response = match found {
        Some(response) => response,
        None => generate_error_response(StatusCode::internal_server_error()),
    };
    if same_text(request.method().as_str(), "HEAD") {
        response.with_body(String::new())
    } else {
        response
    }
}

/// Answers the requests of connections with an ordered list of handlers.
pub struct ConnectionHandler {
    request_handlers: Vec<Box<dyn RequestHandler>>,
}

impl ConnectionHandler {
    /// The handlers, in the order in which they are tried.
    pub closed spec fn handlers(&self) -> Seq<Box<dyn RequestHandler>> {
        self.request_handlers@
    }

    /// The connection handler that tries `request_handlers` in their order.
    pub fn new(request_handlers: Vec<Box<dyn RequestHandler>>) -> (r: ConnectionHandler)
        ensures
            r.handlers() == request_handlers@,
    {
        ConnectionHandler { request_handlers }
    }

    /// Handles a single incoming HTTP request using a suitable handler.
    ///
    /// The handlers are tried in order, and the first response available is
    /// returned; where every handler declines, the response is 500. For HEAD
    /// the response goes out without its body.
    pub fn handle_request(&self, request: HttpRequest, remote_addr: &str) -> (r: HttpResponse)
        ensures
            is_response_to(self.handlers(), remote_addr@, request@, r@),
    {
        let ghost mut outcomes: Seq<Option<ResponseView>> = Seq::empty();
        let mut response: Option<HttpResponse> = None;
        let mut i: usize = 0;
        while i < self.request_handlers.len() && response.is_none()
            invariant
                i <= self.request_handlers@.len(),
                outcomes.len() == i,
                forall|j: int|
                    0 <= j < i ==> (#[trigger] self.request_handlers@[j]).answers(
                        remote_addr@,
                        request@,
                        outcomes[j],
                    ),
                forall|j: int| 0 <= j < i - 1 ==> (#[trigger] outcomes[j]) is None,
                response is None ==> first_response(outcomes) == error_response(500),
                response is None && i > 0 ==> outcomes[i - 1] is None,
                response matches Some(found) ==> i > 0 && outcomes[i - 1] == Some(found@)
                    && first_response(outcomes) == found@,
            decreases self.request_handlers@.len() - i,
        {
            let answer = self.request_handlers[i].handle_request(remote_addr, &request);
            proof {
                let before = outcomes;
                outcomes = outcomes.push(answer_view(answer));
                lemma_first_response_push(before, answer_view(answer));
            }
            response = answer;
            i = i + 1;
        }
        proof {
            assert(is_run(self.handlers(), remote_addr@, request@, outcomes));
        }
        finish_response(&request, response)
    }

    /// Answers what one read of a connection gave, with the text to write
    /// back: the response to the request that the bytes state, or the
    /// response that refuses them. `received` is `None` where the read failed;
    /// `remote_addr` is the address of the peer, empty where it is not known.
    /// The result is `None` where the response cannot be written out.
    pub fn handle_connection(&self, received: Option<&[u8]>, remote_addr: &str) -> (r: Option<
        String,
    >)
        ensures
            is_reply(
                self.handlers(),
                remote_addr@,
                loaded(
                    match received {
                        Some(buffer) => Some(buffer@),
                        None => None,
                    },
                ),
                opt_view(r),
            ),
    {
        match load_request(received) {
            Ok(request) => {
                let ghost asked = request@;
                let response = self.handle_request(request, remote_addr);
                proof {
                    assert(is_response_to(self.handlers(), remote_addr@, asked, response@));
                }
                serialize(response)
            },
            Err(status) => {
                proof {
                    assert(error_response(status@).representable());
                }
                serialize(generate_error_response(status))
            },
        }
    }
}

/// While every handler has declined, the first response is that of the
/// next handler.
pub proof fn lemma_first_response_push(
    outcomes: Seq<Option<ResponseView>>,
    next: Option<ResponseView>,
)
    requires
        forall|i: int| 0 <= i < outcomes.len() ==> (#[trigger] outcomes[i]) is None,
    ensures
        first_response(outcomes) == error_response(500),
        first_response(outcomes.push(next)) == match next {
            Some(response) => response,
            None => error_response(500),
        },
    decreases outcomes.len(),
{
    if outcomes.len() > 0 {
        let rest = outcomes.drop_first();
        assert forall|i: int| 0 <= i < rest.len() implies (#[trigger] rest[i]) is None by {
            assert(rest[i] == outcomes[i + 1]);
        }
        lemma_first_response_push(rest, next);
        assert(outcomes[0] is None);
        assert(outcomes.push(next)[0] == outcomes[0]);
        assert(outcomes.push(next).drop_first() =~= rest.push(next));
    } else {
        assert(outcomes.push(next)[0] == next);
        assert(outcomes.push(next).drop_first() =~= Seq::<Option<ResponseView>>::empty());
        assert(first_response(Seq::<Option<ResponseView>>::empty()) == error_response(500));
    }
}

/// Where the handlers before the `k`-th decline and the `k`-th answers, the
/// chain answers with that handler's response, whatever the later handlers
/// would have said.
pub proof fn lemma_first_answer_wins(outcomes: Seq<Option<ResponseView>>, k: int)
    requires
        0 <= k < outcomes.len(),
        forall|i: int| 0 <= i < k ==> (#[trigger] outcomes[i]) is None,
        outcomes[k] is Some,
    ensures
        first_response(outcomes) == outcomes[k]->0,
    decreases k,
{
    if k > 0 {
        let rest = outcomes.drop_first();
        assert(outcomes[0] is None);
        assert forall|i: int| 0 <= i < k - 1 implies (#[trigger] rest[i]) is None by {
            assert(rest[i] == outcomes[i + 1]);
        }
        assert(rest[k - 1] == outcomes[k]);
        lemma_first_answer_wins(rest, k - 1);
    }
}

/// Where every handler declines, the chain answers with 500.
pub proof fn lemma_all_decline(outcomes: Seq<Option<ResponseView>>)
    requires
        forall|i: int| 0 <= i < outcomes.len() ==> (#[trigger] outcomes[i]) is None,
    ensures
        first_response(outcomes) == error_response(500),
{
    lemma_first_response_push(outcomes, None);
}

/// A HEAD request gets the status and the headers that the handlers gave,
/// with an empty body; the same request with GET gets the response as the
/// handlers gave it, body and all.
pub proof fn lemma_head_drops_only_the_body(outcomes: Seq<Option<ResponseView>>)
    ensures
        dispatched("HEAD"@, outcomes).status == first_response(outcomes).status,
        dispatched("HEAD"@, outcomes).headers == first_response(outcomes).headers,
        dispatched("HEAD"@, outcomes).body == Seq::<char>::empty(),
        dispatched("GET"@, outcomes) == first_response(outcomes),
{
    reveal_strlit("HEAD");
    reveal_strlit("GET");
    assert("GET"@.len() != "HEAD"@.len());
}

} // verus!
