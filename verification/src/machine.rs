//! What a run is made of: the frames of the requests that are being run,
//! the events that come from outside, and the actions that a run asks for.

use crate::error::{ErrorView, ExecError};
use crate::request::HttpMethod;
use vstd::prelude::*;

verus! {

/// One part of a multipart body, ready to be sent.
pub enum Part {
    /// A plain text field.
    Text { name: String, text: String },
    /// A file: its bytes with a file name and a media type.
    File { name: String, file_name: String, mime: String, bytes: Vec<u8> },
}

/// What a `Part` holds, as characters and bytes.
pub enum PartView {
    Text { name: Seq<char>, text: Seq<char> },
    File { name: Seq<char>, file_name: Seq<char>, mime: Seq<char>, bytes: Seq<u8> },
}

impl DeepView for Part {
    type V = PartView;

    open spec fn deep_view(&self) -> PartView {
        match self {
            Part::Text { name, text } => PartView::Text { name: name@, text: text@ },
            Part::File { name, file_name, mime, bytes } => PartView::File {
                name: name@,
                file_name: file_name@,
                mime: mime@,
                bytes: bytes@,
            },
        }
    }
}

/// What a request carries: a body, or the parts of a multipart form.
pub enum Payload {
    Body(String),
    Form(Vec<Part>),
}

/// What a `Payload` holds, as characters and bytes.
pub enum PayloadView {
    Body(Seq<char>),
    Form(Seq<PartView>),
}

impl DeepView for Payload {
    type V = PayloadView;

    open spec fn deep_view(&self) -> PayloadView {
        match self {
            Payload::Body(b) => PayloadView::Body(b@),
            Payload::Form(parts) => PayloadView::Form(parts.deep_view()),
        }
    }
}

/// A request with every placeholder resolved, ready to be sent.
pub struct ResolvedRequest {
    pub method: HttpMethod,
    pub url: String,
    pub headers: Vec<(String, String)>,
    pub payload: Payload,
}

/// What a `ResolvedRequest` holds, as characters and bytes.
pub struct ResolvedRequestView {
    pub method: HttpMethod,
    pub url: Seq<char>,
    pub headers: Seq<(Seq<char>, Seq<char>)>,
    pub payload: PayloadView,
}

impl DeepView for ResolvedRequest {
    type V = ResolvedRequestView;

    open spec fn deep_view(&self) -> ResolvedRequestView {
        ResolvedRequestView {
            method: self.method,
            url: self.url@,
            headers: self.headers.deep_view(),
            payload: self.payload.deep_view(),
        }
    }
}

/// How a run ended: the status and the body of the answer, and the URL that
/// the request went to.
pub struct Outcome {
    pub status: String,
    pub url: String,
    pub body: String,
}

/// What an `Outcome` holds, as characters.
pub struct OutcomeView {
    pub status: Seq<char>,
    pub url: Seq<char>,
    pub body: Seq<char>,
}

impl DeepView for Outcome {
    type V = OutcomeView;

    open spec fn deep_view(&self) -> OutcomeView {
        OutcomeView { status: self.status@, url: self.url@, body: self.body@ }
    }
}

/// What happened outside since the last step.
pub enum Event {
    /// Nothing: the answer to `Action::Continue`.
    Continue,
    /// The answer to `Action::LoadCache`: the stored text of the entry,
    /// `None` where there is none or it could not be read, and the current
    /// time.
    CacheLoaded { stored: Option<String>, now: u64 },
    /// The answer to `Action::StoreCache`, whether or not the entry could be
    /// written.
    CacheStored,
    /// The answer to `Action::ReadFile` and `Action::Download`: the bytes.
    SourceRead { bytes: Vec<u8> },
    /// The file could not be read, or the download failed.
    SourceFailed { cause: String },
    /// The answer to `Action::Send`: the status and the body of the
    /// response, and the current time.
    Response { status: String, body: String, now: u64 },
    /// The request could not be sent, or no response came.
    TransportFailed { cause: String },
}

/// What the run needs next.
pub enum Action {
    /// Nothing from outside: step again with `Event::Continue`.
    Continue,
    /// The stored text of the cache entry of this name.
    LoadCache { name: String },
    /// This text stored as the cache entry of this name.
    StoreCache { name: String, text: String },
    /// The bytes of the local file at this path.
    ReadFile { path: String },
    /// The bytes that this URL serves.
    Download { url: String },
    /// This request sent.
    Send(ResolvedRequest),
    /// Nothing more: the run has ended with this outcome.
    Finished(Outcome),
    /// Nothing more: the run has failed.
    Failed(ExecError),
}

/// What an `Action` holds, as characters and bytes.
pub enum ActionView {
    Continue,
    LoadCache { name: Seq<char> },
    StoreCache { name: Seq<char>, text: Seq<char> },
    ReadFile { path: Seq<char> },
    Download { url: Seq<char> },
    Send(ResolvedRequestView),
    Finished(OutcomeView),
    Failed(ErrorView),
}

impl DeepView for Action {
    type V = ActionView;

    open spec fn deep_view(&self) -> ActionView {
        match self {
            Action::Continue => ActionView::Continue,
            Action::LoadCache { name } => ActionView::LoadCache { name: name@ },
            Action::StoreCache { name, text } => ActionView::StoreCache {
                name: name@,
                text: text@,
            },
            Action::ReadFile { path } => ActionView::ReadFile { path: path@ },
            Action::Download { url } => ActionView::Download { url: url@ },
            Action::Send(r) => ActionView::Send(r.deep_view()),
            Action::Finished(o) => ActionView::Finished(o.deep_view()),
            Action::Failed(e) => ActionView::Failed(e@),
        }
    }
}

/// Which template of a request is being resolved.
#[derive(Clone, Copy, Debug, PartialEq, Eq, Structural)]
pub enum Stage {
    /// The URL.
    Url,
    /// The value of the header at this index.
    Header(usize),
    /// No template any more: the multipart part at this index is being
    /// prepared.
    Part(usize),
}

/// What a frame waits for.
pub enum Wait {
    /// Nothing.
    Ready,
    /// The stored cache entry of the macro of the current token.
    Cache,
    /// The run of the request of the current token, in the frame above.
    Child,
    /// The cache entry to be written; holds the value of the current token.
    Store(String),
    /// The bytes of the current part; holds its file name.
    Source(String),
    /// The response to the request.
    Response,
}

/// What a `Wait` holds, as characters.
pub enum WaitView {
    Ready,
    Cache,
    Child,
    Store(Seq<char>),
    Source(Seq<char>),
    Response,
}

impl DeepView for Wait {
    type V = WaitView;

    open spec fn deep_view(&self) -> WaitView {
        match self {
            Wait::Ready => WaitView::Ready,
            Wait::Cache => WaitView::Cache,
            Wait::Child => WaitView::Child,
            Wait::Store(v) => WaitView::Store(v@),
            Wait::Source(n) => WaitView::Source(n@),
            Wait::Response => WaitView::Response,
        }
    }
}

/// The state of one request that is being run.
pub struct Frame {
    /// The index of the request among the definitions.
    pub request: usize,
    pub stage: Stage,
    /// Whether the template of the stage has been scanned.
    pub scanned: bool,
    /// The pieces and the tokens of the scanned template.
    pub pieces: Vec<String>,
    pub tokens: Vec<String>,
    /// How many tokens have been resolved.
    pub next: usize,
    /// The template as far as it is resolved.
    pub out: String,
    /// The resolved URL.
    pub url: String,
    /// The resolved header values, in the order of the headers.
    pub values: Vec<String>,
    /// The parts that are ready.
    pub parts: Vec<Part>,
    pub wait: Wait,
}

/// What a `Frame` holds, as characters and bytes.
pub struct FrameView {
    pub request: int,
    pub stage: Stage,
    pub scanned: bool,
    pub pieces: Seq<Seq<char>>,
    pub tokens: Seq<Seq<char>>,
    pub next: int,
    pub out: Seq<char>,
    pub url: Seq<char>,
    pub values: Seq<Seq<char>>,
    pub parts: Seq<PartView>,
    pub wait: WaitView,
}

impl DeepView for Frame {
    type V = FrameView;

    open spec fn deep_view(&self) -> FrameView {
        FrameView {
            request: self.request as int,
            stage: self.stage,
            scanned: self.scanned,
            pieces: self.pieces.deep_view(),
            tokens: self.tokens.deep_view(),
            next: self.next as int,
            out: self.out@,
            url: self.url@,
            values: self.values.deep_view(),
            parts: self.parts.deep_view(),
            wait: self.wait.deep_view(),
        }
    }
}

} // verus!
