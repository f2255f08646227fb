//! What one step of a run does: the frames after it, and the action it
//! asks for, as a function of the frames before it and the event.

use crate::cache::{
    cache_name, cache_of, cached_at, entry_text, lemma_stored_text_then_get,
};
use crate::error::ErrorView;
use crate::json::json_parsed;
use crate::lazyreq::{macro_value, LazyReq, TokenUseView};
use crate::machine::{
    ActionView, Event, FrameView, OutcomeView, PartView, PayloadView, ResolvedRequestView, Stage,
    WaitView,
};
use crate::multipart::{is_content_type, mime_of, url_last_segment};
use crate::request::{content_spec, method_named, ContentSpecView, MultiPart, Request};
use crate::scanner::{is_escaped, lemma_scanned_without_dollar, scanned, token_path};
use crate::text::uppercase;
use vstd::prelude::*;
use vstd::utf8::encode_utf8;

verus! {

/// A state of the run with what it needs next.
pub type Step = (Seq<FrameView>, ActionView);

/// The run has failed: no frame is left.
pub open spec fn failed(e: ErrorView) -> Step {
    (Seq::empty(), ActionView::Failed(e))
}

/// The frame of a request that has just begun.
pub open spec fn fresh_frame(request: int) -> FrameView {
    FrameView {
        request,
        stage: Stage::Url,
        scanned: false,
        pieces: Seq::empty(),
        tokens: Seq::empty(),
        next: 0,
        out: Seq::empty(),
        url: Seq::empty(),
        values: Seq::empty(),
        parts: Seq::empty(),
        wait: WaitView::Ready,
    }
}

/// Whether the request at index `request` is being run in one of the
/// frames.
pub open spec fn on_stack(stack: Seq<FrameView>, request: int) -> bool {
    exists|i: int| 0 <= i < stack.len() && (#[trigger] stack[i]).request == request
}

/// The frame once the current token has been given the value `value`: the
/// value and the piece after the token are added to the resolved text.
pub open spec fn with_value(top: FrameView, value: Seq<char>) -> FrameView {
    FrameView {
        out: top.out + value + top.pieces[top.next + 1],
        next: top.next + 1,
        wait: WaitView::Ready,
        ..top
    }
}

/// The name of the cache entry of the request at index `request`.
pub open spec fn entry_name(defs: &LazyReq, request: int) -> Seq<char> {
    cache_name(encode_utf8(defs.filename@), encode_utf8(defs.requests.names[request]@))
}

/// The template `text` is scanned: the frame holds its tokens and the
/// pieces that they cut the text into, and the resolved text begins with
/// the first piece.
pub open spec fn began(below: Seq<FrameView>, top: FrameView, text: Seq<char>) -> Step {
    match scanned(text) {
        None => failed(ErrorView::ScannerFailure),
        Some((pieces, tokens)) => (
            below.push(
                FrameView { scanned: true, pieces, tokens, next: 0, out: pieces[0], ..top },
            ),
            ActionView::Continue,
        ),
    }
}

/// The request at index `request` is to be run for the current token of
/// `top`: a new frame above `top`, unless that request is being run
/// already.
pub open spec fn child_started(
    defs: &LazyReq,
    below: Seq<FrameView>,
    top: FrameView,
    request: int,
) -> Step {
    if on_stack(below.push(top), request) {
        failed(ErrorView::CycleDetected(defs.requests.names[request]@))
    } else {
        (
            below.push(FrameView { wait: WaitView::Child, ..top }).push(fresh_frame(request)),
            ActionView::Continue,
        )
    }
}

/// The result `raw` of the macro of the current token of `top` is there.
/// The token takes its value out of it. Where the result is fresh and to be
/// kept for `keep.0` seconds from the instant `keep.1` on, it is stored
/// first, as it came; an expiration instant beyond the last timestamp there
/// is means that it is not stored.
pub open spec fn result_taken(
    defs: &LazyReq,
    below: Seq<FrameView>,
    top: FrameView,
    request: int,
    raw: Seq<char>,
    keep: Option<(u64, u64)>,
) -> Step {
    let token = top.tokens[top.next];
    match macro_value(raw, json_parsed(raw), token_path(token), token) {
        Err(e) => failed(e),
        Ok(value) => match keep {
            Some((ttl, now)) if now + ttl <= u64::MAX => (
                below.push(FrameView { wait: WaitView::Store(value), ..top }),
                ActionView::StoreCache {
                    name: entry_name(defs, request),
                    text: entry_text((now + ttl) as u64, raw),
                },
            ),
            _ => (below.push(with_value(top, value)), ActionView::Continue),
        },
    }
}

/// The current token of `top` is resolved as far as that needs nothing from
/// outside. A literal is put in. A macro that may be served from the cache
/// asks for its entry; one that may not is run.
pub open spec fn token_step(defs: &LazyReq, below: Seq<FrameView>, top: FrameView) -> Step {
    match defs.token_use(top.tokens[top.next]) {
        Err(e) => failed(e),
        Ok(TokenUseView::Literal(text)) => (below.push(with_value(top, text)), ActionView::Continue),
        Ok(TokenUseView::Call { request, ttl }) => match ttl {
            Some(_) => (
                below.push(FrameView { wait: WaitView::Cache, ..top }),
                ActionView::LoadCache { name: entry_name(defs, request) },
            ),
            None => child_started(defs, below, top, request),
        },
    }
}

/// The stored entry of the macro of the current token has been read: a
/// value that has not expired is the result of the macro; otherwise the
/// request is run.
pub open spec fn cache_step(
    defs: &LazyReq,
    below: Seq<FrameView>,
    top: FrameView,
    stored: Option<Seq<char>>,
    now: u64,
) -> Step {
    match defs.token_use(top.tokens[top.next]) {
        Ok(TokenUseView::Call { request, ttl }) => match cached_at(cache_of(stored), now) {
            Some(raw) => result_taken(defs, below, top, request, raw, None),
            None => child_started(defs, below, top, request),
        },
        _ => failed(ErrorView::UnexpectedEvent),
    }
}

/// The headers of a resolved request: the first `upto` header names of the
/// definition, each with its resolved value. Where `form` holds, the header
/// that names the content type is left out.
pub open spec fn header_list(
    names: Seq<String>,
    values: Seq<Seq<char>>,
    upto: int,
    form: bool,
) -> Seq<(Seq<char>, Seq<char>)>
    decreases upto,
{
    if upto <= 0 {
        Seq::empty()
    } else {
        let before = header_list(names, values, upto - 1, form);
        if form && is_content_type(names[upto - 1]@) {
            before
        } else {
            before.push((names[upto - 1]@, values[upto - 1]))
        }
    }
}

/// The request as it is sent. With parts, the payload is the form made of
/// them and no content type is given; without, it is the body.
pub open spec fn resolved(request: &Request, top: FrameView) -> ResolvedRequestView {
    let form = request.multipart.len() > 0;
    ResolvedRequestView {
        method: method_named(uppercase(request.method@)),
        url: top.url,
        headers: header_list(
            request.headers.names@,
            top.values,
            request.headers.names.len() as int,
            form,
        ),
        payload: if form {
            PayloadView::Form(top.parts)
        } else {
            PayloadView::Body(request.body@)
        },
    }
}

/// The part `part` is prepared. Plain text is ready at once. A local file
/// is asked for by its path, under the file name `local_name` that the
/// system reads out of the path; a download by its URL, under the last
/// segment of the URL's path. A path or URL that gives no file name fails.
pub open spec fn part_step(
    below: Seq<FrameView>,
    top: FrameView,
    index: int,
    part: MultiPart,
    local_name: Option<Seq<char>>,
) -> Step {
    match content_spec(part.content@) {
        ContentSpecView::Inline(text) => (
            below.push(
                FrameView {
                    parts: top.parts.push(PartView::Text { name: part.name@, text }),
                    stage: Stage::Part((index + 1) as usize),
                    ..top
                },
            ),
            ActionView::Continue,
        ),
        ContentSpecView::LocalFile(path) => match local_name {
            Some(file_name) => (
                below.push(FrameView { wait: WaitView::Source(file_name), ..top }),
                ActionView::ReadFile { path },
            ),
            None => failed(ErrorView::MultipartSourceError(path)),
        },
        ContentSpecView::RemoteDownload(url) => match url_last_segment(url) {
            Some(file_name) => (
                below.push(FrameView { wait: WaitView::Source(file_name), ..top }),
                ActionView::Download { url },
            ),
            None => failed(ErrorView::MultipartSourceError(url)),
        },
    }
}

/// The frame once the bytes of the part `name` have come: the part is
/// ready, with the media type of its file name.
pub open spec fn with_file(
    top: FrameView,
    index: int,
    name: Seq<char>,
    file_name: Seq<char>,
    bytes: Seq<u8>,
) -> FrameView {
    FrameView {
        parts: top.parts.push(
            PartView::File { name, file_name, mime: mime_of(file_name), bytes },
        ),
        stage: Stage::Part((index + 1) as usize),
        wait: WaitView::Ready,
        ..top
    }
}

/// A step of a frame that waits for nothing. A template that has not been
/// scanned is scanned; its tokens are resolved one by one; a template
/// without tokens left is done, and the next one follows: after the URL
/// the header values in order, then the parts, and then the request is
/// sent.
pub open spec fn ready_step(
    defs: &LazyReq,
    below: Seq<FrameView>,
    top: FrameView,
    local_name: Option<Seq<char>>,
) -> Step {
    let request = defs.requests.values[top.request];
    if !top.scanned {
        match top.stage {
            Stage::Url => began(below, top, request.path@),
            Stage::Header(k) => if k < request.headers.values.len() {
                began(below, top, request.headers.values[k as int]@)
            } else {
                (below.push(FrameView { stage: Stage::Part(0), ..top }), ActionView::Continue)
            },
            Stage::Part(j) => if j < request.multipart.len() {
                part_step(below, top, j as int, request.multipart[j as int], local_name)
            } else {
                (
                    below.push(
                        FrameView { wait: WaitView::Response, parts: Seq::empty(), ..top },
                    ),
                    ActionView::Send(resolved(&request, top)),
                )
            },
        }
    } else if top.next < top.tokens.len() {
        token_step(defs, below, top)
    } else {
        match top.stage {
            Stage::Url => (
                below.push(
                    FrameView { url: top.out, stage: Stage::Header(0), scanned: false, ..top },
                ),
                ActionView::Continue,
            ),
            Stage::Header(k) => (
                below.push(
                    FrameView {
                        values: top.values.push(top.out),
                        stage: Stage::Header((k + 1) as usize),
                        scanned: false,
                        ..top
                    },
                ),
                ActionView::Continue,
            ),
            Stage::Part(_) => failed(ErrorView::UnexpectedEvent),
        }
    }
}

/// The response to the request of `top` has come. The outermost request
/// ends the run with it. The request of a macro hands the body to the frame
/// below as the result of the macro, fresh at the instant `now`.
pub open spec fn response_step(
    defs: &LazyReq,
    below: Seq<FrameView>,
    top: FrameView,
    status: Seq<char>,
    body: Seq<char>,
    now: u64,
) -> Step {
    if below.len() == 0 {
        (Seq::empty(), ActionView::Finished(OutcomeView { status, url: top.url, body }))
    } else {
        let parent = below.last();
        match (parent.wait, defs.token_use(parent.tokens[parent.next])) {
            (WaitView::Child, Ok(TokenUseView::Call { request, ttl })) => result_taken(
                defs,
                below.drop_last(),
                parent,
                request,
                body,
                match ttl {
                    Some(seconds) => Some((seconds, now)),
                    None => None,
                },
            ),
            _ => failed(ErrorView::UnexpectedEvent),
        }
    }
}

/// One step of the run: what the frames become, and what the run needs
/// next, when `event` comes. Only the topmost frame is at work. An event
/// that it does not wait for fails the run. `local_name` is the file name
/// that the system reads out of the path of the current part, if that part
/// is a local file.
pub open spec fn step_spec(
    defs: &LazyReq,
    stack: Seq<FrameView>,
    event: Event,
    local_name: Option<Seq<char>>,
) -> Step {
    if stack.len() == 0 {
        failed(ErrorView::UnexpectedEvent)
    } else {
        let top = stack.last();
        let below = stack.drop_last();
        match (top.wait, event) {
            (WaitView::Ready, Event::Continue) => ready_step(defs, below, top, local_name),
            (WaitView::Cache, Event::CacheLoaded { stored, now }) => cache_step(
                defs,
                below,
                top,
                match stored {
                    Some(s) => Some(s@),
                    None => None,
                },
                now,
            ),
            (WaitView::Store(value), Event::CacheStored) => (
                below.push(with_value(top, value)),
                ActionView::Continue,
            ),
            (WaitView::Source(file_name), Event::SourceRead { bytes }) => match top.stage {
                Stage::Part(j) => (
                    below.push(
                        with_file(
                            top,
                            j as int,
                            defs.requests.values[top.request].multipart[j as int].name@,
                            file_name,
                            bytes@,
                        ),
                    ),
                    ActionView::Continue,
                ),
                _ => failed(ErrorView::UnexpectedEvent),
            },
            (WaitView::Source(_), Event::SourceFailed { cause }) => failed(
                ErrorView::MultipartSourceError(cause@),
            ),
            (WaitView::Response, Event::Response { status, body, now }) => response_step(
                defs,
                below,
                top,
                status@,
                body@,
                now,
            ),
            (WaitView::Response, Event::TransportFailed { cause }) => failed(
                ErrorView::TransportError(cause@),
            ),
            _ => failed(ErrorView::UnexpectedEvent),
        }
    }
}

/// The path of the local file that the next step prepares, if the next step
/// prepares a part that is a local file.
pub open spec fn local_path(defs: &LazyReq, stack: Seq<FrameView>) -> Option<Seq<char>> {
    if stack.len() == 0 {
        None
    } else {
        let top = stack.last();
        let request = defs.requests.values[top.request];
        match (top.wait, top.stage) {
            (WaitView::Ready, Stage::Part(j)) => if !top.scanned && j < request.multipart.len() {
                match content_spec(request.multipart[j as int].content@) {
                    ContentSpecView::LocalFile(path) => Some(path),
                    _ => None,
                }
            } else {
                None
            },
            _ => None,
        }
    }
}

/// Whether `after` is the step from `before` on `event`, with `local_name`
/// as the file name read out of the path of a local file.
pub open spec fn steps_to(
    defs: &LazyReq,
    before: Seq<FrameView>,
    event: Event,
    local_name: Option<Seq<char>>,
    after: Step,
) -> bool {
    after == step_spec(defs, before, event, local_name)
}

/// The frame once the template of its stage is scanned and found to be one
/// piece, `text`, without tokens.
pub open spec fn scanned_whole(top: FrameView, text: Seq<char>) -> FrameView {
    FrameView {
        scanned: true,
        pieces: seq![text],
        tokens: Seq::empty(),
        next: 0,
        out: text,
        ..top
    }
}

/// The frame once the resolved template of its stage is taken: as the URL,
/// or as the next header value.
pub open spec fn template_taken(top: FrameView) -> FrameView {
    match top.stage {
        Stage::Url => FrameView { url: top.out, stage: Stage::Header(0), scanned: false, ..top },
        Stage::Header(k) => FrameView {
            values: top.values.push(top.out),
            stage: Stage::Header((k + 1) as usize),
            scanned: false,
            ..top
        },
        Stage::Part(_) => top,
    }
}

/// A template in which the scan finds no token resolves to itself: two
/// steps of a frame that has not scanned it yet finish it. The first scans;
/// the second takes the template as it stands for the URL or for the header
/// value. No outside work is asked for, and no variable or hook is looked
/// up.
pub proof fn lemma_template_without_tokens(
    defs: &LazyReq,
    below: Seq<FrameView>,
    top: FrameView,
    text: Seq<char>,
    local_name: Option<Seq<char>>,
)
    requires
        top.wait == WaitView::Ready,
        !top.scanned,
        scanned(text) matches Some((_, tokens)) && tokens.len() == 0,
        match top.stage {
            Stage::Url => defs.requests.values[top.request].path@ == text,
            Stage::Header(k) => k < defs.requests.values[top.request].headers.values.len()
                && defs.requests.values[top.request].headers.values[k as int]@ == text,
            Stage::Part(_) => false,
        },
    ensures
        ready_step(defs, below, top, local_name) == (
            below.push(scanned_whole(top, text)),
            ActionView::Continue,
        ),
        ready_step(defs, below, scanned_whole(top, text), local_name) == (
            below.push(template_taken(scanned_whole(top, text))),
            ActionView::Continue,
        ),
        top.stage is Url ==> template_taken(scanned_whole(top, text)).url == text,
        top.stage is Header ==> template_taken(scanned_whole(top, text)).values
            == top.values.push(text),
{
    assert(text.skip(0) == text);
    assert(scanned(text).unwrap().0 == seq![text]);
    assert(scanned(text).unwrap().1 =~= Seq::<Seq<char>>::empty());
}

/// A template without a dollar sign resolves to itself, whatever the
/// definitions hold: the two steps that finish it ask for nothing from
/// outside, neither the cache nor a request, and the URL or the header
/// value is the template as it stands.
pub proof fn lemma_template_without_dollar(
    defs: &LazyReq,
    below: Seq<FrameView>,
    top: FrameView,
    text: Seq<char>,
    local_name: Option<Seq<char>>,
)
    requires
        top.wait == WaitView::Ready,
        !top.scanned,
        !text.contains('$'),
        match top.stage {
            Stage::Url => defs.requests.values[top.request].path@ == text,
            Stage::Header(k) => k < defs.requests.values[top.request].headers.values.len()
                && defs.requests.values[top.request].headers.values[k as int]@ == text,
            Stage::Part(_) => false,
        },
    ensures
        ready_step(defs, below, top, local_name) == (
            below.push(scanned_whole(top, text)),
            ActionView::Continue,
        ),
        ready_step(defs, below, scanned_whole(top, text), local_name) == (
            below.push(template_taken(scanned_whole(top, text))),
            ActionView::Continue,
        ),
        top.stage is Url ==> template_taken(scanned_whole(top, text)).url == text,
        top.stage is Header ==> template_taken(scanned_whole(top, text)).values
            == top.values.push(text),
{
    lemma_scanned_without_dollar(text);
    lemma_template_without_tokens(defs, below, top, text, local_name);
}

/// An escaped token is put in without its first dollar sign: no variable or
/// hook is looked up, and nothing is asked from outside.
pub proof fn lemma_escaped_token_step(defs: &LazyReq, below: Seq<FrameView>, top: FrameView)
    requires
        is_escaped(top.tokens[top.next]),
    ensures
        token_step(defs, below, top) == (
            below.push(with_value(top, top.tokens[top.next].skip(1))),
            ActionView::Continue,
        ),
{
}

/// A stored result that has not expired is used in place of running the
/// request: on it, the step after reading the cache sends nothing, reads
/// nothing and stores nothing, and no frame is added.
pub proof fn lemma_cache_hit_runs_nothing(
    defs: &LazyReq,
    below: Seq<FrameView>,
    top: FrameView,
    stored: Option<Seq<char>>,
    now: u64,
)
    requires
        defs.token_use(top.tokens[top.next]) matches Ok(TokenUseView::Call { .. }),
        cached_at(cache_of(stored), now) is Some,
    ensures
        cache_step(defs, below, top, stored, now).1 is Continue || cache_step(
            defs,
            below,
            top,
            stored,
            now,
        ).1 is Failed,
        cache_step(defs, below, top, stored, now).0.len() <= below.len() + 1,
        cache_step(defs, below, top, stored, now).1 is Continue ==> cache_step(
            defs,
            below,
            top,
            stored,
            now,
        ).0.last().wait == WaitView::Ready,
{
}


/// What one run stored is what a later run is served: on the text that
/// `StoreCache` wrote for the result `raw` at `stored_at`, read before the
/// expiration instant has passed, the token takes its value out of `raw`
/// itself, and the request is not run again.
pub proof fn lemma_stored_result_is_served(
    defs: &LazyReq,
    below: Seq<FrameView>,
    top: FrameView,
    raw: Seq<char>,
    ttl: u64,
    stored_at: u64,
    now: u64,
)
    requires
        defs.token_use(top.tokens[top.next]) matches Ok(TokenUseView::Call { .. }),
        stored_at + ttl <= u64::MAX,
        now <= stored_at + ttl,
    ensures
        defs.token_use(top.tokens[top.next]) matches Ok(TokenUseView::Call { request, .. })
            && cache_step(
            defs,
            below,
            top,
            Some(entry_text((stored_at + ttl) as u64, raw)),
            now,
        ) == result_taken(defs, below, top, request, raw, None),
{
    lemma_stored_text_then_get(raw, ttl, stored_at, now);
}


/// A part whose content names a download is fetched once and becomes a
/// file part: the step asks for the bytes that the URL serves, and the
/// bytes that come are put into the form under the name of the part, with
/// the last segment of the URL's path as the file name and the media type
/// of that file name.
pub proof fn lemma_download_part(
    defs: &LazyReq,
    below: Seq<FrameView>,
    top: FrameView,
    index: usize,
    url: Seq<char>,
    file_name: Seq<char>,
    bytes: Vec<u8>,
)
    requires
        top.wait == WaitView::Ready,
        !top.scanned,
        top.stage == Stage::Part(index),
        index < defs.requests.values[top.request].multipart.len(),
        content_spec(defs.requests.values[top.request].multipart[index as int].content@)
            == ContentSpecView::RemoteDownload(url),
        url_last_segment(url) == Some(file_name),
    ensures
        ready_step(defs, below, top, None) == (
            below.push(FrameView { wait: WaitView::Source(file_name), ..top }),
            ActionView::Download { url },
        ),
        step_spec(
            defs,
            below.push(FrameView { wait: WaitView::Source(file_name), ..top }),
            Event::SourceRead { bytes },
            None,
        ) == (
            below.push(
                FrameView {
                    parts: top.parts.push(
                        PartView::File {
                            name: defs.requests.values[top.request].multipart[index as int].name@,
                            file_name,
                            mime: mime_of(file_name),
                            bytes: bytes@,
                        },
                    ),
                    stage: Stage::Part((index + 1) as usize),
                    ..top
                },
            ),
            ActionView::Continue,
        ),
{
    let waiting = FrameView { wait: WaitView::Source(file_name), ..top };
    assert(below.push(waiting).last() == waiting);
    assert(below.push(waiting).drop_last() == below);
}

/// A part whose content names a local file is read once and becomes a file
/// part: the step asks for the bytes of the file at the path, and the bytes
/// that come are put into the form under the name of the part, with the
/// file name `file_name` that the system reads out of the path and the
/// media type of that file name.
pub proof fn lemma_local_file_part(
    defs: &LazyReq,
    below: Seq<FrameView>,
    top: FrameView,
    index: usize,
    path: Seq<char>,
    file_name: Seq<char>,
    bytes: Vec<u8>,
)
    requires
        top.wait == WaitView::Ready,
        !top.scanned,
        top.stage == Stage::Part(index),
        index < defs.requests.values[top.request].multipart.len(),
        content_spec(defs.requests.values[top.request].multipart[index as int].content@)
            == ContentSpecView::LocalFile(path),
    ensures
        ready_step(defs, below, top, Some(file_name)) == (
            below.push(FrameView { wait: WaitView::Source(file_name), ..top }),
            ActionView::ReadFile { path },
        ),
        step_spec(
            defs,
            below.push(FrameView { wait: WaitView::Source(file_name), ..top }),
            Event::SourceRead { bytes },
            None,
        ) == (
            below.push(
                FrameView {
                    parts: top.parts.push(
                        PartView::File {
                            name: defs.requests.values[top.request].multipart[index as int].name@,
                            file_name,
                            mime: mime_of(file_name),
                            bytes: bytes@,
                        },
                    ),
                    stage: Stage::Part((index + 1) as usize),
                    ..top
                },
            ),
            ActionView::Continue,
        ),
{
    let waiting = FrameView { wait: WaitView::Source(file_name), ..top };
    assert(below.push(waiting).last() == waiting);
    assert(below.push(waiting).drop_last() == below);
}

} // verus!
