//! Running a request: a machine that resolves the templates of a request
//! step by step and says, at each step, what outside work it needs. Whoever
//! drives it does that work and hands the answer back as the next event.

use crate::cache::{calculate_cache_name, Cache};
use crate::error::ExecError;
use crate::lazyreq::{extract, LazyReq, TokenUse};
use crate::machine::{
    Action, ActionView, Event, Frame, FrameView, Outcome, Part, PartView, Payload, ResolvedRequest, Stage,
    Wait, WaitView,
};
use crate::multipart::{last_segment, local_file_name, mime_of_file_name, names_content_type};
use crate::request::{ContentSpec, MultiPart, Request};
use crate::scanner::{lemma_scan_makes_up_text, scan};
use crate::steps::{
    began, cache_step, child_started, failed, fresh_frame, header_list, local_path, on_stack,
    part_step, ready_step, resolved, response_step, result_taken, step_spec, steps_to,
    token_step, with_file, with_value, Step,
};
use crate::store::position;
use vstd::prelude::*;

verus! {

/// Whether a frame fits the definitions: its request is one of theirs, and
/// its counters lie within what it holds.
pub open spec fn frame_ok(defs: &LazyReq, f: FrameView) -> bool {
    &&& 0 <= f.request < defs.requests.names.len()
    &&& f.scanned ==> f.pieces.len() == f.tokens.len() + 1 && 0 <= f.next <= f.tokens.len()
    &&& (f.wait is Cache || f.wait is Child || f.wait is Store) ==> f.scanned && f.next
        < f.tokens.len()
    &&& (f.wait is Source || f.wait is Response) ==> f.stage is Part
    &&& match f.stage {
        Stage::Url => f.values.len() == 0,
        Stage::Header(k) => k <= defs.requests.values[f.request].headers.names.len()
            && f.values.len() == k && (f.scanned ==> k
            < defs.requests.values[f.request].headers.names.len()),
        Stage::Part(j) => !f.scanned && f.values.len()
            == defs.requests.values[f.request].headers.names.len() && j
            <= defs.requests.values[f.request].multipart.len() && (f.wait is Source ==> j
            < defs.requests.values[f.request].multipart.len()),
    }
}

/// Whether every frame fits the definitions.
pub open spec fn stack_ok(defs: &LazyReq, stack: Seq<FrameView>) -> bool {
    forall|i: int| 0 <= i < stack.len() ==> frame_ok(defs, #[trigger] stack[i])
}

/// The views of a stack and an action.
pub open spec fn step_view(r: (Vec<Frame>, Action)) -> Step {
    (r.0.deep_view(), r.1.deep_view())
}

/// The text of an optional string.
pub open spec fn text_of(s: Option<String>) -> Option<Seq<char>> {
    match s {
        Some(t) => Some(t@),
        None => None,
    }
}

/// A stack of fitting frames with one more fitting frame on top is a stack
/// of fitting frames.
pub proof fn lemma_push_ok(defs: &LazyReq, below: Seq<FrameView>, f: FrameView)
    requires
        stack_ok(defs, below),
        frame_ok(defs, f),
    ensures
        stack_ok(defs, below.push(f)),
{
    assert forall|i: int| 0 <= i < below.push(f).len() implies frame_ok(
        defs,
        #[trigger] below.push(f)[i],
    ) by {
        if i < below.len() {
            assert(below.push(f)[i] == below[i]);
        }
    }
}

/// The run fails with `e`.
fn fail(e: ExecError) -> (r: (Vec<Frame>, Action))
    ensures
        step_view(r) == failed(e@),
        r.0.len() == 0,
{
    let stack: Vec<Frame> = Vec::new();
    assert(stack.deep_view() == Seq::<FrameView>::empty());
    (stack, Action::Failed(e))
}

/// The frames `below` with `top` above them, and `action` as it is.
fn put(below: Vec<Frame>, top: Frame, action: Action) -> (r: (Vec<Frame>, Action))
    ensures
        r.0.deep_view() == below.deep_view().push(top.deep_view()),
        r.1 == action,
{
    let mut stack = below;
    stack.push(top);
    assert(stack.deep_view() == below.deep_view().push(top.deep_view()));
    (stack, action)
}

/// `top` once its current token has been given the value `value`.
fn add_value(top: Frame, value: &str) -> (r: Frame)
    requires
        top.pieces.len() == top.tokens.len() + 1,
        top.next < top.tokens.len(),
    ensures
        r.deep_view() == with_value(top.deep_view(), value@),
{
    let mut out = top.out;
    out.append(value);
    out.append(top.pieces[top.next + 1].as_str());
    assert(top.pieces.deep_view()[top.next + 1] == top.pieces[top.next + 1]@);
    Frame {
        request: top.request,
        stage: top.stage,
        scanned: top.scanned,
        pieces: top.pieces,
        tokens: top.tokens,
        next: top.next + 1,
        out,
        url: top.url,
        values: top.values,
        parts: top.parts,
        wait: Wait::Ready,
    }
}

/// `top`, waiting for `wait`.
fn set_wait(top: Frame, wait: Wait) -> (r: Frame)
    ensures
        r.deep_view() == (FrameView { wait: wait.deep_view(), ..top.deep_view() }),
{
    Frame {
        request: top.request,
        stage: top.stage,
        scanned: top.scanned,
        pieces: top.pieces,
        tokens: top.tokens,
        next: top.next,
        out: top.out,
        url: top.url,
        values: top.values,
        parts: top.parts,
        wait,
    }
}

/// The frame of the request at index `request`, before its first step.
fn new_frame(request: usize) -> (r: Frame)
    ensures
        r.deep_view() == fresh_frame(request as int),
{
    let r = Frame {
        request,
        stage: Stage::Url,
        scanned: false,
        pieces: Vec::new(),
        tokens: Vec::new(),
        next: 0,
        out: String::new(),
        url: String::new(),
        values: Vec::new(),
        parts: Vec::new(),
        wait: Wait::Ready,
    };
    assert(r.pieces.deep_view() == Seq::<Seq<char>>::empty());
    assert(r.tokens.deep_view() == Seq::<Seq<char>>::empty());
    assert(r.values.deep_view() == Seq::<Seq<char>>::empty());
    assert(r.parts.deep_view() == Seq::<PartView>::empty());
    r
}

/// Scans the template `text` of the stage of `top`.
fn begin(defs: &LazyReq, below: Vec<Frame>, top: Frame, text: &str) -> (r: (Vec<Frame>, Action))
    requires
        stack_ok(defs, below.deep_view()),
        frame_ok(defs, top.deep_view()),
        top.wait is Ready,
        top.stage is Url || (top.stage matches Stage::Header(k) && k
            < defs.requests.values[top.request as int].headers.names.len()),
    ensures
        step_view(r) == began(below.deep_view(), top.deep_view(), text@),
        stack_ok(defs, r.0.deep_view()),
{
    match scan(text) {
        None => fail(ExecError::ScannerFailure),
        Some(found) => {
            proof {
                lemma_scan_makes_up_text(found, text@);
            }
            let out = found.pieces[0].clone();
            assert(found.pieces.deep_view()[0] == found.pieces[0]@);
            let frame = Frame {
                request: top.request,
                stage: top.stage,
                scanned: true,
                pieces: found.pieces,
                tokens: found.tokens,
                next: 0,
                out,
                url: top.url,
                values: top.values,
                parts: top.parts,
                wait: top.wait,
            };
            assert(frame.tokens.deep_view().len() == frame.tokens.len());
            assert(frame.pieces.deep_view().len() == frame.pieces.len());
            proof {
                lemma_push_ok(defs, below.deep_view(), frame.deep_view());
            }
            put(below, frame, Action::Continue)
        },
    }
}

/// Whether the request at index `request` is being run in one of `stack`.
fn is_on_stack(stack: &Vec<Frame>, request: usize) -> (r: bool)
    ensures
        r == on_stack(stack.deep_view(), request as int),
{
    let mut i: usize = 0;
    while i < stack.len()
        invariant
            i <= stack.len(),
            forall|j: int| 0 <= j < i ==> stack.deep_view()[j].request != request,
        decreases stack.len() - i,
    {
        if stack[i].request == request {
            assert(stack.deep_view()[i as int].request == request);
            return true;
        }
        i = i + 1;
    }
    false
}

/// Runs the request at index `request` for the current token of `top`.
fn start_child(defs: &LazyReq, below: Vec<Frame>, top: Frame, request: usize) -> (r: (
    Vec<Frame>,
    Action,
))
    requires
        defs.wf(),
        stack_ok(defs, below.deep_view()),
        frame_ok(defs, top.deep_view()),
        top.scanned,
        top.next < top.tokens.len(),
        request < defs.requests.names.len(),
    ensures
        step_view(r) == child_started(defs, below.deep_view(), top.deep_view(), request as int),
        stack_ok(defs, r.0.deep_view()),
{
    let ghost all = below.deep_view().push(top.deep_view());
    let running = top.request == request || is_on_stack(&below, request);
    proof {
        if top.request == request {
            assert(all[all.len() - 1].request == request);
        }
        if on_stack(below.deep_view(), request as int) {
            let i = choose|i: int|
                0 <= i < below.deep_view().len() && (#[trigger] below.deep_view()[i]).request
                    == request;
            assert(all[i].request == request);
        }
        if on_stack(all, request as int) {
            let i = choose|i: int| 0 <= i < all.len() && (#[trigger] all[i]).request == request;
            if i < below.deep_view().len() {
                assert(below.deep_view()[i].request == request);
            }
        }
    }
    if running {
        return fail(ExecError::CycleDetected(defs.requests.names[request].clone()));
    }
    let (stack, _) = put(below, set_wait(top, Wait::Child), Action::Continue);
    put(stack, new_frame(request), Action::Continue)
}

/// Takes the value of the current token of `top` out of the result `raw`.
fn take_result(
    defs: &LazyReq,
    below: Vec<Frame>,
    top: Frame,
    request: usize,
    raw: &str,
    keep: Option<(u64, u64)>,
) -> (r: (Vec<Frame>, Action))
    requires
        defs.wf(),
        stack_ok(defs, below.deep_view()),
        frame_ok(defs, top.deep_view()),
        top.scanned,
        top.next < top.tokens.len(),
        request < defs.requests.names.len(),
    ensures
        step_view(r) == result_taken(
            defs,
            below.deep_view(),
            top.deep_view(),
            request as int,
            raw@,
            keep,
        ),
        stack_ok(defs, r.0.deep_view()),
{
    assert(top.tokens.deep_view()[top.next as int] == top.tokens[top.next as int]@);
    match extract(raw, top.tokens[top.next].as_str()) {
        Err(e) => fail(e),
        Ok(value) => {
            match keep {
                Some((ttl, now)) => {
                    let mut entry = Cache::empty();
                    if entry.set_checked_at(raw.to_owned(), ttl, now) {
                        let name = calculate_cache_name(
                            defs.filename.as_str(),
                            defs.requests.names[request].as_str(),
                        );
                        match entry.stored_text() {
                            Some(text) => {
                                return put(
                                    below,
                                    set_wait(top, Wait::Store(value)),
                                    Action::StoreCache { name, text },
                                );
                            },
                            None => {},
                        }
                    }
                },
                None => {},
            }
            put(below, add_value(top, value.as_str()), Action::Continue)
        },
    }
}

/// Resolves the current token of `top`.
fn do_token(defs: &LazyReq, below: Vec<Frame>, top: Frame) -> (r: (Vec<Frame>, Action))
    requires
        defs.wf(),
        stack_ok(defs, below.deep_view()),
        frame_ok(defs, top.deep_view()),
        top.scanned,
        top.next < top.tokens.len(),
    ensures
        step_view(r) == token_step(defs, below.deep_view(), top.deep_view()),
        stack_ok(defs, r.0.deep_view()),
{
    assert(top.tokens.deep_view()[top.next as int] == top.tokens[top.next as int]@);
    match defs.handle_token(top.tokens[top.next].as_str()) {
        Err(e) => fail(e),
        Ok(TokenUse::Literal(text)) => put(below, add_value(top, text.as_str()), Action::Continue),
        Ok(TokenUse::Call { request, ttl }) => {
            match ttl {
                Some(_) => {
                    let name = calculate_cache_name(
                        defs.filename.as_str(),
                        defs.requests.names[request].as_str(),
                    );
                    put(below, set_wait(top, Wait::Cache), Action::LoadCache { name })
                },
                None => start_child(defs, below, top, request),
            }
        },
    }
}

/// Goes on from the stored cache entry of the current token of `top`.
fn do_cache(defs: &LazyReq, below: Vec<Frame>, top: Frame, stored: Option<String>, now: u64) -> (r:
    (Vec<Frame>, Action))
    requires
        defs.wf(),
        stack_ok(defs, below.deep_view()),
        frame_ok(defs, top.deep_view()),
        top.scanned,
        top.next < top.tokens.len(),
    ensures
        step_view(r) == cache_step(
            defs,
            below.deep_view(),
            top.deep_view(),
            text_of(stored),
            now,
        ),
        stack_ok(defs, r.0.deep_view()),
{
    assert(top.tokens.deep_view()[top.next as int] == top.tokens[top.next as int]@);
    match defs.handle_token(top.tokens[top.next].as_str()) {
        Ok(TokenUse::Call { request, ttl }) => {
            let entry = match &stored {
                Some(text) => Cache::new(Some(text.as_str())),
                None => Cache::new(None),
            };
            match entry.get_at(now) {
                Some(raw) => take_result(defs, below, top, request, raw.as_str(), None),
                None => start_child(defs, below, top, request),
            }
        },
        _ => fail(ExecError::UnexpectedEvent),
    }
}

/// The headers that `request` is sent with, given its resolved values.
fn list_headers(request: &Request, values: &Vec<String>, form: bool) -> (r: Vec<(String, String)>)
    requires
        request.wf(),
        values.len() == request.headers.names.len(),
    ensures
        r.deep_view() == header_list(
            request.headers.names@,
            values.deep_view(),
            request.headers.names.len() as int,
            form,
        ),
{
    let mut list: Vec<(String, String)> = Vec::new();
    let mut i: usize = 0;
    assert(list.deep_view() == Seq::<(Seq<char>, Seq<char>)>::empty());
    while i < request.headers.names.len()
        invariant
            i <= request.headers.names.len(),
            values.len() == request.headers.names.len(),
            list.deep_view() == header_list(
                request.headers.names@,
                values.deep_view(),
                i as int,
                form,
            ),
        decreases request.headers.names.len() - i,
    {
        let ghost before = list.deep_view();
        if !(form && names_content_type(request.headers.names[i].as_str())) {
            list.push((request.headers.names[i].clone(), values[i].clone()));
            assert(values.deep_view()[i as int] == values[i as int]@);
            assert(list.deep_view() == before.push(
                (request.headers.names[i as int]@, values[i as int]@),
            ));
        }
        i = i + 1;
    }
    list
}

/// Sends the request of `top`.
fn send(defs: &LazyReq, below: Vec<Frame>, top: Frame, request: &Request) -> (r: (
    Vec<Frame>,
    Action,
))
    requires
        request.wf(),
        top.values.len() == request.headers.names.len(),
        stack_ok(defs, below.deep_view()),
        frame_ok(defs, top.deep_view()),
        top.stage is Part,
        top.wait is Ready,
    ensures
        stack_ok(defs, r.0.deep_view()),
        step_view(r) == (
            below.deep_view().push(
                FrameView { wait: WaitView::Response, parts: Seq::empty(), ..top.deep_view() },
            ),
            ActionView::Send(resolved(request, top.deep_view())),
        ),
{
    let form = request.multipart.len() > 0;
    let headers = list_headers(request, &top.values, form);
    let url = top.url.clone();
    let frame = Frame {
        request: top.request,
        stage: top.stage,
        scanned: top.scanned,
        pieces: top.pieces,
        tokens: top.tokens,
        next: top.next,
        out: top.out,
        url: top.url,
        values: top.values,
        parts: Vec::new(),
        wait: Wait::Response,
    };
    assert(frame.parts.deep_view() == Seq::<PartView>::empty());
    let payload = if form {
        Payload::Form(top.parts)
    } else {
        Payload::Body(request.body.clone())
    };
    let ready = ResolvedRequest { method: request.format_method(), url, headers, payload };
    proof {
        lemma_push_ok(defs, below.deep_view(), frame.deep_view());
    }
    put(below, frame, Action::Send(ready))
}

/// Prepares the part `part` of the request of `top`.
fn do_part(
    defs: &LazyReq,
    below: Vec<Frame>,
    top: Frame,
    index: usize,
    part: &MultiPart,
    local_name: Option<String>,
) -> (r: (Vec<Frame>, Action))
    requires
        stack_ok(defs, below.deep_view()),
        frame_ok(defs, top.deep_view()),
        top.stage == Stage::Part(index),
        top.wait is Ready,
        index < defs.requests.values[top.request as int].multipart.len(),
    ensures
        stack_ok(defs, r.0.deep_view()),
        step_view(r) == part_step(
            below.deep_view(),
            top.deep_view(),
            index as int,
            *part,
            text_of(local_name),
        ),
{
    match part.source() {
        ContentSpec::Inline(text) => {
            let mut parts = top.parts;
            let ghost before = parts.deep_view();
            parts.push(Part::Text { name: part.name.clone(), text });
            assert(parts.deep_view() == before.push(
                PartView::Text { name: part.name@, text: text@ },
            ));
            let frame = Frame {
                request: top.request,
                stage: Stage::Part(index + 1),
                scanned: top.scanned,
                pieces: top.pieces,
                tokens: top.tokens,
                next: top.next,
                out: top.out,
                url: top.url,
                values: top.values,
                parts,
                wait: top.wait,
            };
            proof {
                lemma_push_ok(defs, below.deep_view(), frame.deep_view());
            }
            put(below, frame, Action::Continue)
        },
        ContentSpec::LocalFile(path) => match local_name {
            Some(file_name) => {
                let frame = set_wait(top, Wait::Source(file_name));
                proof {
                    lemma_push_ok(defs, below.deep_view(), frame.deep_view());
                }
                put(below, frame, Action::ReadFile { path })
            },
            None => fail(ExecError::MultipartSourceError(path)),
        },
        ContentSpec::RemoteDownload(url) => match last_segment(url.as_str()) {
            Some(file_name) => {
                let frame = set_wait(top, Wait::Source(file_name));
                proof {
                    lemma_push_ok(defs, below.deep_view(), frame.deep_view());
                }
                put(below, frame, Action::Download { url })
            },
            None => fail(ExecError::MultipartSourceError(url)),
        },
    }
}

/// `top` once the bytes of its current part have come.
fn add_file(top: Frame, index: usize, name: String, file_name: String, bytes: Vec<u8>) -> (r: Frame)
    requires
        index < usize::MAX,
    ensures
        r.deep_view() == with_file(top.deep_view(), index as int, name@, file_name@, bytes@),
{
    let mime = mime_of_file_name(file_name.as_str());
    let mut parts = top.parts;
    let ghost before = parts.deep_view();
    parts.push(Part::File { name, file_name, mime, bytes });
    assert(parts.deep_view() == before.push(
        PartView::File { name: name@, file_name: file_name@, mime: mime@, bytes: bytes@ },
    ));
    Frame {
        request: top.request,
        stage: Stage::Part(index + 1),
        scanned: top.scanned,
        pieces: top.pieces,
        tokens: top.tokens,
        next: top.next,
        out: top.out,
        url: top.url,
        values: top.values,
        parts,
        wait: Wait::Ready,
    }
}

/// A step of `top`, which waits for nothing.
fn do_ready(defs: &LazyReq, below: Vec<Frame>, top: Frame, local_name: Option<String>) -> (r: (
    Vec<Frame>,
    Action,
))
    requires
        defs.wf(),
        stack_ok(defs, below.deep_view()),
        frame_ok(defs, top.deep_view()),
        top.wait is Ready,
    ensures
        step_view(r) == ready_step(defs, below.deep_view(), top.deep_view(), text_of(local_name)),
        stack_ok(defs, r.0.deep_view()),
{
    let request = &defs.requests.values[top.request];
    if !top.scanned {
        match top.stage {
            Stage::Url => begin(defs, below, top, request.path.as_str()),
            Stage::Header(k) => {
                if k < request.headers.values.len() {
                    begin(defs, below, top, request.headers.values[k].as_str())
                } else {
                    let frame = Frame {
                        request: top.request,
                        stage: Stage::Part(0),
                        scanned: top.scanned,
                        pieces: top.pieces,
                        tokens: top.tokens,
                        next: top.next,
                        out: top.out,
                        url: top.url,
                        values: top.values,
                        parts: top.parts,
                        wait: top.wait,
                    };
                    proof {
                        lemma_push_ok(defs, below.deep_view(), frame.deep_view());
                    }
                    put(below, frame, Action::Continue)
                }
            },
            Stage::Part(j) => {
                if j < request.multipart.len() {
                    do_part(defs, below, top, j, &request.multipart[j], local_name)
                } else {
                    send(defs, below, top, request)
                }
            },
        }
    } else if top.next < top.tokens.len() {
        do_token(defs, below, top)
    } else {
        match top.stage {
            Stage::Url => {
                let frame = Frame {
                    request: top.request,
                    stage: Stage::Header(0),
                    scanned: false,
                    pieces: top.pieces,
                    tokens: top.tokens,
                    next: top.next,
                    url: top.out.clone(),
                    out: top.out,
                    values: top.values,
                    parts: top.parts,
                    wait: top.wait,
                };
                assert(frame.values.deep_view().len() == frame.values.len());
                proof {
                    lemma_push_ok(defs, below.deep_view(), frame.deep_view());
                }
                put(below, frame, Action::Continue)
            },
            Stage::Header(k) => {
                let mut values = top.values;
                let ghost before = values.deep_view();
                values.push(top.out.clone());
                assert(values.deep_view() == before.push(top.out@));
                let frame = Frame {
                    request: top.request,
                    stage: Stage::Header(k + 1),
                    scanned: false,
                    pieces: top.pieces,
                    tokens: top.tokens,
                    next: top.next,
                    out: top.out,
                    url: top.url,
                    values,
                    parts: top.parts,
                    wait: top.wait,
                };
                proof {
                    lemma_push_ok(defs, below.deep_view(), frame.deep_view());
                }
                put(below, frame, Action::Continue)
            },
            Stage::Part(_) => fail(ExecError::UnexpectedEvent),
        }
    }
}

/// Goes on from the response to the request of `top`.
fn do_response(
    defs: &LazyReq,
    below: Vec<Frame>,
    top: Frame,
    status: String,
    body: String,
    now: u64,
) -> (r: (Vec<Frame>, Action))
    requires
        defs.wf(),
        stack_ok(defs, below.deep_view()),
        frame_ok(defs, top.deep_view()),
    ensures
        step_view(r) == response_step(
            defs,
            below.deep_view(),
            top.deep_view(),
            status@,
            body@,
            now,
        ),
        stack_ok(defs, r.0.deep_view()),
{
    let mut rest = below;
    match rest.pop() {
        None => {
            assert(rest.deep_view() == Seq::<FrameView>::empty());
            (rest, Action::Finished(Outcome { status, url: top.url, body }))
        },
        Some(parent) => {
            assert(parent.deep_view() == below.deep_view().last());
            assert(rest.deep_view() == below.deep_view().drop_last());
            assert(frame_ok(defs, below.deep_view()[below.len() - 1]));
            assert forall|i: int| 0 <= i < rest.deep_view().len() implies frame_ok(
                defs,
                #[trigger] rest.deep_view()[i],
            ) by {
                assert(rest.deep_view()[i] == below.deep_view()[i]);
            }
            match parent.wait {
                Wait::Child => {
                    assert(parent.tokens.deep_view()[parent.next as int]
                        == parent.tokens[parent.next as int]@);
                    match defs.handle_token(parent.tokens[parent.next].as_str()) {
                        Ok(TokenUse::Call { request, ttl }) => {
                            let keep = match ttl {
                                Some(seconds) => Some((seconds, now)),
                                None => None,
                            };
                            take_result(defs, rest, parent, request, body.as_str(), keep)
                        },
                        _ => fail(ExecError::UnexpectedEvent),
                    }
                },
                _ => fail(ExecError::UnexpectedEvent),
            }
        },
    }
}

/// One step of the frames `stack` on `event`; see `step_spec`.
pub(crate) fn step_frames(defs: &LazyReq, stack: Vec<Frame>, event: Event, local_name: Option<String>) -> (r:
    (Vec<Frame>, Action))
    requires
        defs.wf(),
        stack_ok(defs, stack.deep_view()),
    ensures
        step_view(r) == step_spec(defs, stack.deep_view(), event, text_of(local_name)),
        stack_ok(defs, r.0.deep_view()),
{
    let mut below = stack;
    let top = match below.pop() {
        None => {
            return fail(ExecError::UnexpectedEvent);
        },
        Some(t) => t,
    };
    assert(top.deep_view() == stack.deep_view().last());
    assert(below.deep_view() == stack.deep_view().drop_last());
    assert(frame_ok(defs, stack.deep_view()[stack.len() - 1]));
    assert forall|i: int| 0 <= i < below.deep_view().len() implies frame_ok(
        defs,
        #[trigger] below.deep_view()[i],
    ) by {
        assert(below.deep_view()[i] == stack.deep_view()[i]);
    }
    match event {
        Event::Continue => match top.wait {
            Wait::Ready => do_ready(defs, below, top, local_name),
            _ => fail(ExecError::UnexpectedEvent),
        },
        Event::CacheLoaded { stored, now } => match top.wait {
            Wait::Cache => do_cache(defs, below, top, stored, now),
            _ => fail(ExecError::UnexpectedEvent),
        },
        Event::CacheStored => match &top.wait {
            Wait::Store(value) => {
                let text = value.clone();
                put(below, add_value(top, text.as_str()), Action::Continue)
            },
            _ => fail(ExecError::UnexpectedEvent),
        },
        Event::SourceRead { bytes } => match (&top.wait, top.stage) {
            (Wait::Source(file_name), Stage::Part(j)) => {
                let file = file_name.clone();
                let name = defs.requests.values[top.request].multipart[j].name.clone();
                put(below, add_file(top, j, name, file, bytes), Action::Continue)
            },
            _ => fail(ExecError::UnexpectedEvent),
        },
        Event::SourceFailed { cause } => match top.wait {
            Wait::Source(_) => fail(ExecError::MultipartSourceError(cause)),
            _ => fail(ExecError::UnexpectedEvent),
        },
        Event::Response { status, body, now } => match top.wait {
            Wait::Response => do_response(defs, below, top, status, body, now),
            _ => fail(ExecError::UnexpectedEvent),
        },
        Event::TransportFailed { cause } => match top.wait {
            Wait::Response => fail(ExecError::TransportError(cause)),
            _ => fail(ExecError::UnexpectedEvent),
        },
    }
}

/// The run of one request of a set of definitions.
pub struct Run {
    defs: LazyReq,
    stack: Vec<Frame>,
}

impl Run {
    #[verifier::type_invariant]
    spec fn inv(self) -> bool {
        self.defs.wf() && stack_ok(&self.defs, self.stack.deep_view())
    }

    /// The frames of the requests that are being run, the outermost first.
    pub closed spec fn frames(&self) -> Seq<FrameView> {
        self.stack.deep_view()
    }

    /// The definitions that the run reads.
    pub closed spec fn definitions(&self) -> &LazyReq {
        &self.defs
    }

    /// The run of the request named `id`, before its first step; `None`
    /// where the definitions hold no request of that name.
    pub fn new(defs: LazyReq, id: &str) -> (r: Option<Run>)
        requires
            defs.wf(),
        ensures
            r is Some <==> defs.requests.contains(id@),
            r matches Some(run) ==> *run.definitions() == defs && run.frames() == seq![
                fresh_frame(position(defs.requests.names@, id@)),
            ],
    {
        let name = id.to_owned();
        let i = defs.requests.find(&name);
        if i < defs.requests.len() {
            let mut stack: Vec<Frame> = Vec::new();
            stack.push(new_frame(i));
            assert(stack.deep_view() == seq![fresh_frame(i as int)]);
            Some(Run { defs, stack })
        } else {
            None
        }
    }

    /// Whether the run has ended or failed: no frame is left.
    pub fn is_over(&self) -> (r: bool)
        ensures
            r == (self.frames().len() == 0),
    {
        assert(self.stack.deep_view().len() == self.stack.len());
        self.stack.len() == 0
    }

    /// The path of the local file that the next step prepares, if any.
    pub fn pending_local_path(&self) -> (r: Option<String>)
        ensures
            text_of(r) == local_path(self.definitions(), self.frames()),
    {
        proof {
            use_type_invariant(self);
        }
        if self.stack.len() == 0 {
            return None;
        }
        let top = &self.stack[self.stack.len() - 1];
        assert(self.stack.deep_view().last() == top.deep_view());
        assert(frame_ok(&self.defs, self.stack.deep_view()[self.stack.len() - 1]));
        let request = &self.defs.requests.values[top.request];
        match (&top.wait, top.stage) {
            (Wait::Ready, Stage::Part(j)) => {
                if !top.scanned && j < request.multipart.len() {
                    match request.multipart[j].source() {
                        ContentSpec::LocalFile(path) => Some(path),
                        _ => None,
                    }
                } else {
                    None
                }
            },
            _ => None,
        }
    }

    /// One step of the run on `event`, with `local_name` as the file name
    /// of the local file that the step prepares, if it prepares one.
    pub fn step_with(&mut self, event: Event, local_name: Option<String>) -> (action: Action)
        ensures
            final(self).definitions() == old(self).definitions(),
            (final(self).frames(), action.deep_view()) == step_spec(
                old(self).definitions(),
                old(self).frames(),
                event,
                text_of(local_name),
            ),
    {
        proof {
            use_type_invariant(&*self);
        }
        let mut stack: Vec<Frame> = Vec::new();
        assert(stack.deep_view() == Seq::<FrameView>::empty());
        core::mem::swap(&mut self.stack, &mut stack);
        let (after, action) = step_frames(&self.defs, stack, event, local_name);
        self.stack = after;
        action
    }

    /// One step of the run on `event`. Where the step prepares a part that
    /// is a local file, the file name is the one that the system reads out
    /// of the path, whatever that is; any other step is fully determined.
    pub fn step(&mut self, event: Event) -> (action: Action)
        ensures
            final(self).definitions() == old(self).definitions(),
            match local_path(old(self).definitions(), old(self).frames()) {
                None => (final(self).frames(), action.deep_view()) == step_spec(
                    old(self).definitions(),
                    old(self).frames(),
                    event,
                    None,
                ),
                Some(_) => exists|name: Option<Seq<char>>|
                    #[trigger] steps_to(
                        old(self).definitions(),
                        old(self).frames(),
                        event,
                        name,
                        (final(self).frames(), action.deep_view()),
                    ),
            },
    {
        let name = match self.pending_local_path() {
            Some(path) => local_file_name(path.as_str()),
            None => None,
        };
        let ghost hint = text_of(name);
        let action = self.step_with(event, name);
        assert(steps_to(
            old(self).definitions(),
            old(self).frames(),
            event,
            hint,
            (self.frames(), action.deep_view()),
        ));
        action
    }
}

impl LazyReq {
    /// Begins the run of the request named `id`; `None` where the
    /// definitions hold no request of that name.
    pub fn do_request(self, id: &str) -> (r: Option<Run>)
        requires
            self.wf(),
        ensures
            r is Some <==> self.requests.contains(id@),
            r matches Some(run) ==> *run.definitions() == self && run.frames() == seq![
                fresh_frame(position(self.requests.names@, id@)),
            ],
    {
        Run::new(self, id)
    }
}

} // verus!
