//! Plain requests: requests whose URL and header values hold no dollar sign
//! and whose parts are all text. Their run is known from its first step to
//! the send, whatever the definitions hold otherwise.

use crate::lazyreq::LazyReq;
use crate::machine::{
    ActionView, Event, FrameView, OutcomeView, PartView, PayloadView, ResolvedRequestView, Stage,
    WaitView,
};
use crate::request::{content_spec, method_named, ContentSpecView, Request};
use crate::steps::{
    fresh_frame, header_list, lemma_template_without_dollar, ready_step, resolved, response_step,
    scanned_whole, step_spec, template_taken, Step,
};
use crate::text::uppercase;
use vstd::prelude::*;

verus! {

/// Whether a request is plain: no dollar sign in its URL nor in any header
/// value, and every part is text.
pub open spec fn is_plain(request: &Request) -> bool {
    &&& !request.path@.contains('$')
    &&& forall|k: int|
        0 <= k < request.headers.values.len() ==> !(#[trigger] request.headers.values[k])@.contains(
            '$',
        )
    &&& forall|j: int|
        0 <= j < request.multipart.len() ==> content_spec(
            (#[trigger] request.multipart[j]).content@,
        ) is Inline
}

/// The first `count` parts of a request as text fields: each under its
/// name, with its content as the text.
pub open spec fn text_parts(request: &Request, count: int) -> Seq<PartView> {
    Seq::new(
        count as nat,
        |i: int|
            PartView::Text { name: request.multipart[i].name@, text: request.multipart[i].content@ },
    )
}

/// What a plain request is sent as: its URL and its header values as they
/// stand, and its parts as text fields, or its body where it has no parts.
pub open spec fn plain_resolved(request: &Request) -> ResolvedRequestView {
    let form = request.multipart.len() > 0;
    ResolvedRequestView {
        method: method_named(uppercase(request.method@)),
        url: request.path@,
        headers: header_list(
            request.headers.names@,
            request.headers.values.deep_view(),
            request.headers.names.len() as int,
            form,
        ),
        payload: if form {
            PayloadView::Form(text_parts(request, request.multipart.len() as int))
        } else {
            PayloadView::Body(request.body@)
        },
    }
}

/// The run after up to `count` steps that each get `Event::Continue`: it
/// goes on for as long as the action is `Continue`, and stands at the first
/// action that asks for something else.
pub open spec fn quiet_run(defs: &LazyReq, stack: Seq<FrameView>, count: nat) -> Step
    decreases count,
{
    if count == 0 {
        (stack, ActionView::Continue)
    } else {
        let first = step_spec(defs, stack, Event::Continue, None);
        if first.1 == ActionView::Continue {
            quiet_run(defs, first.0, (count - 1) as nat)
        } else {
            first
        }
    }
}

/// A frame that is about to resolve header number `k` of the plain request
/// `request`, with the URL and the header values before it taken as they
/// stand.
pub open spec fn at_header(f: FrameView, index: int, request: &Request, k: int) -> bool {
    &&& f.request == index
    &&& f.stage == Stage::Header(k as usize)
    &&& !f.scanned
    &&& f.wait == WaitView::Ready
    &&& f.url == request.path@
    &&& f.values == request.headers.values.deep_view().take(k)
    &&& f.parts == Seq::<PartView>::empty()
}

/// A frame that is about to prepare part number `j` of the plain request
/// `request`, with all that stands before it taken as it stands.
pub open spec fn at_part(f: FrameView, index: int, request: &Request, j: int) -> bool {
    &&& f.request == index
    &&& f.stage == Stage::Part(j as usize)
    &&& !f.scanned
    &&& f.wait == WaitView::Ready
    &&& f.url == request.path@
    &&& f.values == request.headers.values.deep_view()
    &&& f.parts == text_parts(request, j)
}

/// What a step on `Event::Continue` does to a frame that waits for nothing.
proof fn lemma_ready(defs: &LazyReq, below: Seq<FrameView>, f: FrameView)
    requires
        f.wait == WaitView::Ready,
    ensures
        step_spec(defs, below.push(f), Event::Continue, None) == ready_step(defs, below, f, None),
{
    assert(below.push(f).last() == f);
    assert(below.push(f).drop_last() == below);
}

/// From the first part that is not yet prepared, a plain request needs one
/// step for each part and one more to be sent.
proof fn lemma_parts_then_send(
    defs: &LazyReq,
    below: Seq<FrameView>,
    f: FrameView,
    index: int,
    j: int,
)
    requires
        0 <= index < defs.requests.values.len(),
        is_plain(&defs.requests.values[index]),
        0 <= j <= defs.requests.values[index].multipart.len(),
        at_part(f, index, &defs.requests.values[index], j),
    ensures
        quiet_run(
            defs,
            below.push(f),
            (defs.requests.values[index].multipart.len() - j + 1) as nat,
        ) == (
            below.push(
                FrameView {
                    wait: WaitView::Response,
                    parts: Seq::empty(),
                    stage: Stage::Part(defs.requests.values[index].multipart.len()),
                    ..f
                },
            ),
            ActionView::Send(plain_resolved(&defs.requests.values[index])),
        ),
    decreases defs.requests.values[index].multipart.len() - j,
{
    let request = &defs.requests.values[index];
    let count = (request.multipart.len() - j + 1) as nat;
    lemma_ready(defs, below, f);
    let first = step_spec(defs, below.push(f), Event::Continue, None);
    if j < request.multipart.len() {
        let part = request.multipart[j];
        assert(content_spec(part.content@) == ContentSpecView::Inline(part.content@));
        let next = FrameView {
            parts: f.parts.push(PartView::Text { name: part.name@, text: part.content@ }),
            stage: Stage::Part((j + 1) as usize),
            ..f
        };
        assert(first == (below.push(next), ActionView::Continue));
        assert(next.parts =~= text_parts(request, j + 1));
        lemma_parts_then_send(defs, below, next, index, j + 1);
        assert(quiet_run(defs, below.push(f), count) == quiet_run(
            defs,
            below.push(next),
            (count - 1) as nat,
        ));
    } else {
        assert(resolved(request, f) == plain_resolved(request));
        assert(first.1 != ActionView::Continue);
        assert(quiet_run(defs, below.push(f), count) == first);
    }
}

/// From the first header that is not yet resolved, a plain request needs
/// two steps for each header, one to turn to the parts, one for each part
/// and one more to be sent.
proof fn lemma_headers_then_send(
    defs: &LazyReq,
    below: Seq<FrameView>,
    f: FrameView,
    index: int,
    k: int,
)
    requires
        0 <= index < defs.requests.values.len(),
        is_plain(&defs.requests.values[index]),
        0 <= k <= defs.requests.values[index].headers.values.len(),
        at_header(f, index, &defs.requests.values[index], k),
    ensures
        ({
            let request = &defs.requests.values[index];
            let end = quiet_run(
                defs,
                below.push(f),
                (2 * (request.headers.values.len() - k) + request.multipart.len() + 2) as nat,
            );
            &&& end.1 == ActionView::Send(plain_resolved(request))
            &&& end.0.len() == below.len() + 1
            &&& end.0.drop_last() == below
            &&& end.0.last().wait == WaitView::Response
            &&& end.0.last().url == request.path@
            &&& end.0.last().request == index
        }),
    decreases defs.requests.values[index].headers.values.len() - k,
{
    let request = &defs.requests.values[index];
    let count = (2 * (request.headers.values.len() - k) + request.multipart.len() + 2) as nat;
    let values = request.headers.values.deep_view();
    lemma_ready(defs, below, f);
    if k < request.headers.values.len() {
        let text = request.headers.values[k]@;
        lemma_template_without_dollar(defs, below, f, text, None);
        let scanned = scanned_whole(f, text);
        let next = template_taken(scanned);
        lemma_ready(defs, below, scanned);
        assert(values.take(k).push(values[k]) =~= values.take(k + 1));
        assert(at_header(next, index, request, k + 1));
        lemma_headers_then_send(defs, below, next, index, k + 1);
        assert(quiet_run(defs, below.push(f), count) == quiet_run(
            defs,
            below.push(scanned),
            (count - 1) as nat,
        ));
        assert(quiet_run(defs, below.push(scanned), (count - 1) as nat) == quiet_run(
            defs,
            below.push(next),
            (count - 2) as nat,
        ));
    } else {
        let next = FrameView { stage: Stage::Part(0), ..f };
        assert(values.take(k) =~= values);
        assert(text_parts(request, 0) =~= Seq::<PartView>::empty());
        assert(at_part(next, index, request, 0));
        lemma_parts_then_send(defs, below, next, index, 0);
        assert(quiet_run(defs, below.push(f), count) == quiet_run(
            defs,
            below.push(next),
            (count - 1) as nat,
        ));
        let sent = FrameView {
            wait: WaitView::Response,
            parts: Seq::empty(),
            stage: Stage::Part(request.multipart.len()),
            ..next
        };
        assert(below.push(sent).drop_last() == below);
        assert(below.push(sent).last() == sent);
    }
}

/// The run of a plain request, from its first step to the send. Whatever
/// variables, hooks and other requests the definitions hold: every step
/// before the send asks for nothing from outside, so that no cache entry is
/// read or written, no file is read, nothing is downloaded, and no other
/// request is run. The request is then sent once, with its URL and its
/// header values as they stand, its parts as text fields under their names
/// (or its body, where it has no parts), and with the method that its
/// method name stands for.
pub proof fn lemma_plain_request_run(defs: &LazyReq, below: Seq<FrameView>, index: int)
    requires
        0 <= index < defs.requests.values.len(),
        is_plain(&defs.requests.values[index]),
    ensures
        ({
            let request = &defs.requests.values[index];
            let end = quiet_run(
                defs,
                below.push(fresh_frame(index)),
                (2 * request.headers.values.len() + request.multipart.len() + 4) as nat,
            );
            &&& end.1 == ActionView::Send(plain_resolved(request))
            &&& end.0.len() == below.len() + 1
            &&& end.0.drop_last() == below
            &&& end.0.last().wait == WaitView::Response
            &&& end.0.last().url == request.path@
            &&& end.0.last().request == index
        }),
{
    let request = &defs.requests.values[index];
    let count = (2 * request.headers.values.len() + request.multipart.len() + 4) as nat;
    let f = fresh_frame(index);
    let text = request.path@;
    lemma_ready(defs, below, f);
    lemma_template_without_dollar(defs, below, f, text, None);
    let scanned = scanned_whole(f, text);
    let next = template_taken(scanned);
    lemma_ready(defs, below, scanned);
    assert(request.headers.values.deep_view().take(0) =~= Seq::<Seq<char>>::empty());
    assert(at_header(next, index, request, 0));
    lemma_headers_then_send(defs, below, next, index, 0);
    assert(quiet_run(defs, below.push(f), count) == quiet_run(
        defs,
        below.push(scanned),
        (count - 1) as nat,
    ));
    assert(quiet_run(defs, below.push(scanned), (count - 1) as nat) == quiet_run(
        defs,
        below.push(next),
        (count - 2) as nat,
    ));
}

/// The outermost request ends the run with the response to it: the status
/// and the body as they came, and the URL that the request went to.
pub proof fn lemma_response_ends_the_run(
    defs: &LazyReq,
    sent: FrameView,
    status: Seq<char>,
    body: Seq<char>,
    now: u64,
)
    ensures
        response_step(defs, Seq::empty(), sent, status, body, now) == (
            Seq::<FrameView>::empty(),
            ActionView::Finished(OutcomeView { status, url: sent.url, body }),
        ),
{
}

} // verus!
