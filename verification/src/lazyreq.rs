//! The definitions of one file: variables, hooks and requests, and what a
//! token of a template stands for among them.

use crate::error::{ErrorView, ExecError};
use crate::hooks::{hook_call, macro_ref, parse_hook, split_first_word, HookError};
use crate::json::{at_path, json_parsed, parse_json, template_text, JsonValue, JsonView};
use crate::request::{Request, RequestView};
use crate::scanner::{
    is_escaped, token_is_escaped, token_name, token_parts, token_path, unescaped,
};
use crate::store::{lemma_insert_view, position, put_entry, StringMap};
use crate::text::{chars_of, string_of, subvec, trim_chars, views};
use vstd::prelude::*;

verus! {

/// The definitions of one file.
pub struct LazyReq {
    pub variables: StringMap<String>,
    pub hooks: StringMap<String>,
    pub requests: StringMap<Request>,
    pub filename: String,
}

/// What a token stands for.
pub enum TokenUse {
    /// This text, as it is.
    Literal(String),
    /// A value out of the result of the request at this index, which may be
    /// served from the cache for this many seconds.
    Call { request: usize, ttl: Option<u64> },
}

/// What a `TokenUse` holds, as characters.
pub enum TokenUseView {
    Literal(Seq<char>),
    Call { request: int, ttl: Option<u64> },
}

impl View for TokenUse {
    type V = TokenUseView;

    open spec fn view(&self) -> TokenUseView {
        match self {
            TokenUse::Literal(s) => TokenUseView::Literal(s@),
            TokenUse::Call { request, ttl } => TokenUseView::Call {
                request: *request as int,
                ttl: *ttl,
            },
        }
    }
}

/// What the definitions hold, as characters: each kind as pairs of a name
/// and what it names, in the order of definition.
pub struct LazyReqView {
    pub variables: Seq<(Seq<char>, Seq<char>)>,
    pub hooks: Seq<(Seq<char>, Seq<char>)>,
    pub requests: Seq<(Seq<char>, RequestView)>,
    pub filename: Seq<char>,
}

impl DeepView for LazyReq {
    type V = LazyReqView;

    open spec fn deep_view(&self) -> LazyReqView {
        LazyReqView {
            variables: self.variables.deep_view(),
            hooks: self.hooks.deep_view(),
            requests: self.requests.deep_view(),
            filename: self.filename@,
        }
    }
}

impl LazyReq {
    /// No name stands twice among the variables, the hooks or the requests,
    /// and every request is well formed.
    pub open spec fn wf(&self) -> bool {
        &&& self.variables.wf()
        &&& self.hooks.wf()
        &&& self.requests.wf()
        &&& forall|i: int| 0 <= i < self.requests.values.len() ==> self.requests.values[i].wf()
    }

    /// What the invocation of a hook stands for: the request it names, if
    /// the definitions hold it.
    pub open spec fn macro_use(&self, invocation: Seq<char>) -> Result<TokenUseView, ErrorView> {
        match hook_call(invocation) {
            Err(HookError::NotAMacro) => Err(ErrorView::MacroNotFound(macro_ref(invocation))),
            Err(HookError::BadTtl) => Err(ErrorView::InvalidDefinition(invocation)),
            Ok((id, ttl)) => if self.requests.contains(id) {
                Ok(TokenUseView::Call { request: position(self.requests.names@, id), ttl })
            } else {
                Err(ErrorView::MacroNotFound(id))
            },
        }
    }

    /// What `token` stands for. An escaped token stands for itself without
    /// its first dollar sign. Any other token is looked up by its name: among
    /// the hooks first, then among the variables.
    pub open spec fn token_use(&self, token: Seq<char>) -> Result<TokenUseView, ErrorView> {
        if is_escaped(token) {
            Ok(TokenUseView::Literal(unescaped(token)))
        } else if self.hooks.contains(token_name(token)) {
            self.macro_use(self.hooks.value_of(token_name(token))@)
        } else if self.variables.contains(token_name(token)) {
            Ok(TokenUseView::Literal(self.variables.value_of(token_name(token))@))
        } else {
            Err(ErrorView::UnresolvedToken(token_name(token)))
        }
    }

    /// Whether the definitions are well formed.
    pub fn is_wf(&self) -> (r: bool)
        ensures
            r == self.wf(),
    {
        if !(self.variables.is_wf() && self.hooks.is_wf() && self.requests.is_wf()) {
            return false;
        }
        let mut i: usize = 0;
        while i < self.requests.values.len()
            invariant
                i <= self.requests.values.len(),
                forall|k: int| 0 <= k < i ==> self.requests.values[k].wf(),
            decreases self.requests.values.len() - i,
        {
            if !self.requests.values[i].is_wf() {
                return false;
            }
            i = i + 1;
        }
        true
    }

    /// What definitions hold that hold nothing.
    pub open spec fn empty_view() -> LazyReqView {
        LazyReqView {
            variables: Seq::empty(),
            hooks: Seq::empty(),
            requests: Seq::empty(),
            filename: Seq::empty(),
        }
    }

    /// Definitions that hold nothing.
    pub fn new() -> (r: LazyReq)
        ensures
            r.wf(),
            r.deep_view() == LazyReq::empty_view(),
    {
        let r = LazyReq {
            variables: StringMap::new(),
            hooks: StringMap::new(),
            requests: StringMap::new(),
            filename: String::new(),
        };
        assert(r.variables.deep_view() =~= Seq::empty());
        assert(r.hooks.deep_view() =~= Seq::empty());
        assert(r.requests.deep_view() =~= Seq::empty());
        r
    }

    /// Defines the variable `name`, in place of any value it had.
    pub fn add_variable(&mut self, name: String, value: String)
        requires
            old(self).wf(),
        ensures
            final(self).wf(),
            final(self).deep_view() == (LazyReqView {
                variables: put_entry(old(self).deep_view().variables, name@, value@),
                ..old(self).deep_view()
            }),
    {
        let ghost before = self.variables;
        self.variables.insert(name, value);
        proof {
            lemma_insert_view(before, self.variables, name, value);
        }
    }

    /// Defines the hook `id`, in place of any invocation it had.
    pub fn add_hook(&mut self, id: String, value: String)
        requires
            old(self).wf(),
        ensures
            final(self).wf(),
            final(self).deep_view() == (LazyReqView {
                hooks: put_entry(old(self).deep_view().hooks, id@, value@),
                ..old(self).deep_view()
            }),
    {
        let ghost before = self.hooks;
        self.hooks.insert(id, value);
        proof {
            lemma_insert_view(before, self.hooks, id, value);
        }
    }

    /// Defines the request `id`, in place of any request of that name.
    pub fn add_request(&mut self, id: String, request: Request)
        requires
            old(self).wf(),
            request.wf(),
        ensures
            final(self).wf(),
            final(self).deep_view() == (LazyReqView {
                requests: put_entry(old(self).deep_view().requests, id@, request.deep_view()),
                ..old(self).deep_view()
            }),
    {
        let ghost before = self.requests;
        self.requests.insert(id, request);
        proof {
            lemma_insert_view(before, self.requests, id, request);
            crate::store::lemma_position_from_bounds(old(self).requests.names@, id@, 0);
        }
        assert forall|i: int| 0 <= i < self.requests.values.len() implies self.requests.values[i].wf() by {
            let k = position(old(self).requests.names@, id@);
            if i != k && i < old(self).requests.values.len() {
                assert(self.requests.values[i] == old(self).requests.values[i]);
            }
        }
    }

    /// What the invocation of a hook stands for.
    pub fn handle_macro(&self, invocation: &str) -> (r: Result<TokenUse, ExecError>)
        requires
            self.wf(),
        ensures
            match r {
                Ok(u) => self.macro_use(invocation@) == Ok::<_, ErrorView>(u@),
                Err(e) => self.macro_use(invocation@) == Err::<TokenUseView, _>(e@),
            },
            r matches Ok(TokenUse::Call { request, .. }) ==> request < self.requests.names.len(),
    {
        match parse_hook(invocation) {
            Err(HookError::NotAMacro) => {
                let text = chars_of(invocation);
                let (word, _) = split_first_word(&trim_chars(&text));
                Err(ExecError::MacroNotFound(string_of(&word)))
            },
            Err(HookError::BadTtl) => Err(ExecError::InvalidDefinition(invocation.to_owned())),
            Ok(call) => {
                let i = self.requests.find(&call.request_id);
                if i < self.requests.len() {
                    Ok(TokenUse::Call { request: i, ttl: call.ttl })
                } else {
                    Err(ExecError::MacroNotFound(call.request_id))
                }
            },
        }
    }

    /// What `token` stands for.
    pub fn handle_token(&self, token: &str) -> (r: Result<TokenUse, ExecError>)
        requires
            self.wf(),
        ensures
            match r {
                Ok(u) => self.token_use(token@) == Ok::<_, ErrorView>(u@),
                Err(e) => self.token_use(token@) == Err::<TokenUseView, _>(e@),
            },
            r matches Ok(TokenUse::Call { request, .. }) ==> request < self.requests.names.len(),
    {
        let text = chars_of(token);
        if token_is_escaped(&text) {
            let rest = subvec(&text, 1, text.len());
            return Ok(TokenUse::Literal(string_of(&rest)));
        }
        let (name_chars, _) = token_parts(&text);
        let name = string_of(&name_chars);
        match self.hooks.get(&name) {
            Some(invocation) => self.handle_macro(invocation.as_str()),
            None => match self.variables.get(&name) {
                Some(value) => Ok(TokenUse::Literal(value.clone())),
                None => Err(ExecError::UnresolvedToken(name)),
            },
        }
    }
}

/// The value that a token with the path `path` takes out of the result
/// `raw` of its macro, where `document` is what `raw` reads as JSON.
/// Without a path the value is the result itself. With one, the result has
/// to be JSON, and the path has to lead to a value in it: the text of that
/// value.
pub open spec fn macro_value(
    raw: Seq<char>,
    document: Option<JsonView>,
    path: Seq<Seq<char>>,
    token: Seq<char>,
) -> Result<Seq<char>, ErrorView> {
    if path.len() == 0 {
        Ok(raw)
    } else {
        match document {
            None => Err(ErrorView::JsonParseFailure(token)),
            Some(root) => match at_path(root, path) {
                None => Err(ErrorView::JsonPathNotFound(token)),
                Some(v) => Ok(template_text(v)),
            },
        }
    }
}

/// The value that the token `token` with the path `path` takes out of the
/// result `raw`, read as the JSON document `document`.
pub fn value_in(raw: &str, document: Option<&JsonValue>, path: &Vec<Vec<char>>, token: &str) -> (r:
    Result<String, ExecError>)
    ensures
        match r {
            Ok(v) => macro_value(
                raw@,
                match document {
                    Some(d) => Some(d@),
                    None => None,
                },
                views(path@),
                token@,
            ) == Ok::<_, ErrorView>(v@),
            Err(e) => macro_value(
                raw@,
                match document {
                    Some(d) => Some(d@),
                    None => None,
                },
                views(path@),
                token@,
            ) == Err::<Seq<char>, _>(e@),
        },
{
    assert(views(path@).len() == path.len());
    if path.len() == 0 {
        return Ok(raw.to_owned());
    }
    match document {
        None => Err(ExecError::JsonParseFailure(token.to_owned())),
        Some(root) => match root.navigate(path) {
            None => Err(ExecError::JsonPathNotFound(token.to_owned())),
            Some(v) => Ok(v.text()),
        },
    }
}

/// The value that `token` takes out of the result `raw` of its macro.
pub fn extract(raw: &str, token: &str) -> (r: Result<String, ExecError>)
    ensures
        match r {
            Ok(v) => macro_value(raw@, json_parsed(raw@), token_path(token@), token@) == Ok::<
                _,
                ErrorView,
            >(v@),
            Err(e) => macro_value(raw@, json_parsed(raw@), token_path(token@), token@) == Err::<
                Seq<char>,
                _,
            >(e@),
        },
{
    let (_, path) = token_parts(&chars_of(token));
    let document = parse_json(raw);
    value_in(raw, document.as_ref(), &path, token)
}

/// An escaped token stands for itself without its first dollar sign,
/// whatever the definitions hold.
pub proof fn lemma_escaped_token(defs: &LazyReq, token: Seq<char>)
    requires
        is_escaped(token),
    ensures
        defs.token_use(token) == Ok::<_, ErrorView>(TokenUseView::Literal(token.skip(1))),
{
}

} // verus!
