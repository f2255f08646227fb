//! Request definitions: method, path, headers, body and multipart parts, as
//! they stand before any placeholder is resolved.

use crate::store::{lemma_insert_view, put_entry, StringMap};
use crate::text::{chars_of, starts_with, str_eq, string_of, subvec, to_uppercase, uppercase, is_prefix};
use vstd::prelude::*;

verus! {

/// The HTTP methods that a request can be sent with.
#[derive(Clone, Copy, Debug, PartialEq, Eq, Structural)]
pub enum HttpMethod {
    Get,
    Post,
    Put,
    Delete,
    Patch,
    Head,
    Options,
}

/// The method that an upper-case method name stands for. A name that is none
/// of the seven known ones stands for `Get`.
pub open spec fn method_named(upper: Seq<char>) -> HttpMethod {
    if upper == "POST"@ {
        HttpMethod::Post
    } else if upper == "PUT"@ {
        HttpMethod::Put
    } else if upper == "DELETE"@ {
        HttpMethod::Delete
    } else if upper == "PATCH"@ {
        HttpMethod::Patch
    } else if upper == "HEAD"@ {
        HttpMethod::Head
    } else if upper == "OPTIONS"@ {
        HttpMethod::Options
    } else {
        HttpMethod::Get
    }
}

/// A method name that is none of the seven known ones is never refused: it
/// stands for `Get`.
pub proof fn lemma_unknown_method_is_get(upper: Seq<char>)
    requires
        upper != "GET"@,
        upper != "POST"@,
        upper != "PUT"@,
        upper != "DELETE"@,
        upper != "PATCH"@,
        upper != "HEAD"@,
        upper != "OPTIONS"@,
    ensures
        method_named(upper) == HttpMethod::Get,
{
}

/// The method that the upper-case name `upper` stands for.
pub fn method_from_upper(upper: &str) -> (m: HttpMethod)
    ensures
        m == method_named(upper@),
{
    if str_eq(upper, "POST") {
        HttpMethod::Post
    } else if str_eq(upper, "PUT") {
        HttpMethod::Put
    } else if str_eq(upper, "DELETE") {
        HttpMethod::Delete
    } else if str_eq(upper, "PATCH") {
        HttpMethod::Patch
    } else if str_eq(upper, "HEAD") {
        HttpMethod::Head
    } else if str_eq(upper, "OPTIONS") {
        HttpMethod::Options
    } else {
        HttpMethod::Get
    }
}

/// Where the content of a multipart part comes from.
pub enum ContentSpec {
    /// The content is the text itself.
    Inline(String),
    /// The content is the bytes of the local file at this path.
    LocalFile(String),
    /// The content is the bytes that this URL serves.
    RemoteDownload(String),
}

/// What a `ContentSpec` holds, as characters.
pub enum ContentSpecView {
    Inline(Seq<char>),
    LocalFile(Seq<char>),
    RemoteDownload(Seq<char>),
}

impl View for ContentSpec {
    type V = ContentSpecView;

    open spec fn view(&self) -> ContentSpecView {
        match self {
            ContentSpec::Inline(t) => ContentSpecView::Inline(t@),
            ContentSpec::LocalFile(p) => ContentSpecView::LocalFile(p@),
            ContentSpec::RemoteDownload(u) => ContentSpecView::RemoteDownload(u@),
        }
    }
}

/// The source that the content of a part names: what follows `download://`
/// is a URL to fetch, what follows `file://` a path to read, and anything
/// else is plain text.
pub open spec fn content_spec(content: Seq<char>) -> ContentSpecView {
    if is_prefix("download://"@, content) {
        ContentSpecView::RemoteDownload(content.skip("download://"@.len() as int))
    } else if is_prefix("file://"@, content) {
        ContentSpecView::LocalFile(content.skip("file://"@.len() as int))
    } else {
        ContentSpecView::Inline(content)
    }
}

/// One named field of a multipart body.
#[derive(Clone)]
pub struct MultiPart {
    pub name: String,
    pub content: String,
}

impl DeepView for MultiPart {
    type V = (Seq<char>, Seq<char>);

    open spec fn deep_view(&self) -> (Seq<char>, Seq<char>) {
        (self.name@, self.content@)
    }
}

impl MultiPart {
    /// Where the content of this part comes from.
    pub fn source(&self) -> (s: ContentSpec)
        ensures
            s@ == content_spec(self.content@),
    {
        let content = chars_of(self.content.as_str());
        let download = chars_of("download://");
        let file = chars_of("file://");
        if starts_with(&content, &download) {
            let rest = subvec(&content, download.len(), content.len());
            ContentSpec::RemoteDownload(string_of(&rest))
        } else if starts_with(&content, &file) {
            let rest = subvec(&content, file.len(), content.len());
            ContentSpec::LocalFile(string_of(&rest))
        } else {
            ContentSpec::Inline(string_of(&content))
        }
    }
}

/// One request definition.
pub struct Request {
    pub method: String,
    pub path: String,
    pub headers: StringMap<String>,
    pub body: String,
    pub multipart: Vec<MultiPart>,
}

/// What a `Request` holds, as characters: headers and parts as pairs of a
/// name and a text, in order.
pub struct RequestView {
    pub method: Seq<char>,
    pub path: Seq<char>,
    pub headers: Seq<(Seq<char>, Seq<char>)>,
    pub body: Seq<char>,
    pub multipart: Seq<(Seq<char>, Seq<char>)>,
}

impl DeepView for Request {
    type V = RequestView;

    open spec fn deep_view(&self) -> RequestView {
        RequestView {
            method: self.method@,
            path: self.path@,
            headers: self.headers.deep_view(),
            body: self.body@,
            multipart: self.multipart.deep_view(),
        }
    }
}

/// The request with nothing set: its method reads `NOT SET`.
pub open spec fn unset_request() -> RequestView {
    RequestView {
        method: "NOT SET"@,
        path: Seq::empty(),
        headers: Seq::empty(),
        body: Seq::empty(),
        multipart: Seq::empty(),
    }
}

impl Request {
    /// No header name stands twice.
    pub open spec fn wf(&self) -> bool {
        self.headers.wf()
    }

    /// Whether the request is well formed.
    pub fn is_wf(&self) -> (r: bool)
        ensures
            r == self.wf(),
    {
        self.headers.is_wf()
    }

    /// A request with nothing set.
    pub fn default() -> (r: Request)
        ensures
            r.wf(),
            r.deep_view() == unset_request(),
    {
        let r = Request {
            method: "NOT SET".to_owned(),
            path: String::new(),
            headers: StringMap::new(),
            body: String::new(),
            multipart: Vec::new(),
        };
        assert(r.headers.deep_view() =~= Seq::empty());
        assert(r.multipart.deep_view() =~= Seq::empty());
        r
    }

    /// The method this request is sent with: the one its method name stands
    /// for when written in upper case, `Get` where the name is unknown.
    pub fn format_method(&self) -> (m: HttpMethod)
        ensures
            m == method_named(uppercase(self.method@)),
    {
        let upper = to_uppercase(self.method.as_str());
        method_from_upper(upper.as_str())
    }

    /// A request with the given method, path, body and parts, and no header.
    pub fn new(method: String, path: String, body: String, multipart: Vec<MultiPart>) -> (r:
        Request)
        ensures
            r.wf(),
            r.deep_view() == (RequestView {
                method: method@,
                path: path@,
                headers: Seq::empty(),
                body: body@,
                multipart: multipart.deep_view(),
            }),
    {
        let r = Request { method, path, headers: StringMap::new(), body, multipart };
        assert(r.headers.deep_view() =~= Seq::empty());
        r
    }

    /// Sets the header `name` to `value`, in place of any value it had.
    pub fn add_header(&mut self, name: String, value: String)
        requires
            old(self).wf(),
        ensures
            final(self).wf(),
            final(self).deep_view() == (RequestView {
                headers: put_entry(old(self).deep_view().headers, name@, value@),
                ..old(self).deep_view()
            }),
    {
        let ghost before = self.headers;
        self.headers.insert(name, value);
        proof {
            lemma_insert_view(before, self.headers, name, value);
        }
    }

    /// Adds a multipart part after those there are.
    pub fn add_multipart(&mut self, name: String, value: String)
        ensures
            final(self).headers == old(self).headers,
            final(self).deep_view() == (RequestView {
                multipart: old(self).deep_view().multipart.push((name@, value@)),
                ..old(self).deep_view()
            }),
    {
        self.multipart.push(MultiPart { name, content: value });
        assert(self.multipart.deep_view() =~= old(self).multipart.deep_view().push(
            (name@, value@),
        ));
    }

    /// Replaces all headers.
    pub fn set_headers(&mut self, headers: StringMap<String>)
        ensures
            final(self).headers == headers,
            final(self).deep_view() == (RequestView {
                headers: headers.deep_view(),
                ..old(self).deep_view()
            }),
    {
        self.headers = headers;
    }

    /// Replaces the method name.
    pub fn set_method(&mut self, method: String)
        ensures
            final(self).headers == old(self).headers,
            final(self).deep_view() == (RequestView { method: method@, ..old(self).deep_view() }),
    {
        self.method = method;
    }

    /// Replaces the path.
    pub fn set_path(&mut self, path: String)
        ensures
            final(self).headers == old(self).headers,
            final(self).deep_view() == (RequestView { path: path@, ..old(self).deep_view() }),
    {
        self.path = path;
    }

    /// Replaces the body.
    pub fn set_body(&mut self, body: String)
        ensures
            final(self).headers == old(self).headers,
            final(self).deep_view() == (RequestView { body: body@, ..old(self).deep_view() }),
    {
        self.body = body;
    }
}

} // verus!
