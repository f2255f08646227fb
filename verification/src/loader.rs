//! Reading a definitions file: the sections `VARS` and `HOOKS`, and one
//! block per request that begins with `ID:`.

use crate::error::{ErrorView, ExecError};
use crate::lazyreq::{LazyReq, LazyReqView};
use crate::request::{unset_request, Request, RequestView};
use crate::store::{
    entry_value, lemma_position_in_view, put_entry, StringMap,
};
use crate::text::{
    chars_of, is_prefix, lines, lines_of, split, split_chars, starts_with, string_of,
    subvec, trim, trim_chars, views,
};
use vstd::prelude::*;

verus! {

/// The part of the file that a line belongs to.
#[derive(Clone, Copy, Debug, PartialEq, Eq, Structural)]
pub enum Section {
    Vars,
    Hooks,
    Request,
}

/// What has been read of a file so far.
pub struct Loader {
    pub defs: LazyReq,
    pub section: Section,
    /// Whether a request is being defined.
    pub open: bool,
    /// The name of that request, what is known of it, and the lines of its
    /// body so far.
    pub id: String,
    pub request: Request,
    pub body: String,
}

/// What a `Loader` holds, as characters.
pub struct LoaderView {
    pub defs: LazyReqView,
    pub section: Section,
    pub open: bool,
    pub id: Seq<char>,
    pub request: RequestView,
    pub body: Seq<char>,
}

impl DeepView for Loader {
    type V = LoaderView;

    open spec fn deep_view(&self) -> LoaderView {
        LoaderView {
            defs: self.defs.deep_view(),
            section: self.section,
            open: self.open,
            id: self.id@,
            request: self.request.deep_view(),
            body: self.body@,
        }
    }
}

/// The state once the request that is being defined, if any, is added to
/// the definitions, with the body lines read for it as its body.
pub open spec fn closed(st: LoaderView) -> LoaderView {
    if st.open {
        LoaderView {
            defs: LazyReqView {
                requests: put_entry(
                    st.defs.requests,
                    st.id,
                    RequestView { body: st.body, ..st.request },
                ),
                ..st.defs
            },
            open: false,
            request: unset_request(),
            body: Seq::empty(),
            ..st
        }
    } else {
        st
    }
}

/// `value` without the quotes around it, if it stands between two double
/// quotes or between two single quotes.
pub open spec fn unquote(value: Seq<char>) -> Seq<char> {
    if value.len() >= 2 && ((value[0] == '"' && value.last() == '"') || (value[0] == '\''
        && value.last() == '\'')) {
        value.subrange(1, value.len() - 1)
    } else {
        value
    }
}

/// The value of a variable that is written `raw`: what the environment
/// holds for `NAME` where `raw` reads `$env.NAME`, else `raw` itself;
/// either without the quotes around it. `None` where the environment does
/// not hold the name.
pub open spec fn variable_value(raw: Seq<char>, env: Seq<(Seq<char>, Seq<char>)>) -> Option<
    Seq<char>,
> {
    if is_prefix("$env."@, raw) {
        match entry_value(env, raw.skip("$env."@.len() as int)) {
            Some(v) => Some(unquote(v)),
            None => None,
        }
    } else {
        Some(unquote(raw))
    }
}

/// Whether a line begins with the name of an HTTP method.
pub open spec fn is_method_line(line: Seq<char>) -> bool {
    is_prefix("GET"@, line) || is_prefix("POST"@, line) || is_prefix("PUT"@, line) || is_prefix(
        "DELETE"@,
        line,
    ) || is_prefix("PATCH"@, line) || is_prefix("HEAD"@, line) || is_prefix("OPTIONS"@, line)
}

/// A line of the section `VARS`: `name=value`, with exactly one equals
/// sign.
pub open spec fn variable_line(
    st: LoaderView,
    line: Seq<char>,
    env: Seq<(Seq<char>, Seq<char>)>,
) -> Result<LoaderView, ErrorView> {
    let parts = split(line, '=');
    if parts.len() != 2 {
        Err(ErrorView::InvalidDefinition(line))
    } else {
        match variable_value(trim(parts[1]), env) {
            None => Err(ErrorView::InvalidDefinition(line)),
            Some(value) => Ok(
                LoaderView {
                    defs: LazyReqView {
                        variables: put_entry(st.defs.variables, trim(parts[0]), value),
                        ..st.defs
                    },
                    ..st
                },
            ),
        }
    }
}

/// A line of the section `HOOKS`: `name=invocation`. What follows a second
/// equals sign does not count.
pub open spec fn hook_line(st: LoaderView, line: Seq<char>) -> Result<LoaderView, ErrorView> {
    let parts = split(line, '=');
    if parts.len() < 2 {
        Err(ErrorView::InvalidDefinition(line))
    } else {
        Ok(
            LoaderView {
                defs: LazyReqView {
                    hooks: put_entry(st.defs.hooks, trim(parts[0]), trim(parts[1])),
                    ..st.defs
                },
                ..st
            },
        )
    }
}

/// A line of a request block: a header `H:name=value` with exactly one
/// equals sign; a part `M:name=content`, where the content is all that
/// follows the first equals sign; the method and the path, separated by
/// exactly one space; or else a line of the body.
pub open spec fn request_line(st: LoaderView, line: Seq<char>) -> Result<LoaderView, ErrorView> {
    if !st.open {
        Err(ErrorView::InvalidDefinition(line))
    } else if is_prefix("H:"@, line) {
        let parts = split(line.skip(2), '=');
        if parts.len() != 2 {
            Err(ErrorView::InvalidDefinition(line))
        } else {
            Ok(
                LoaderView {
                    request: RequestView {
                        headers: put_entry(st.request.headers, trim(parts[0]), trim(parts[1])),
                        ..st.request
                    },
                    ..st
                },
            )
        }
    } else if is_prefix("M:"@, line) {
        let rest = line.skip(2);
        let parts = split(rest, '=');
        if parts.len() < 2 {
            Err(ErrorView::InvalidDefinition(line))
        } else {
            Ok(
                LoaderView {
                    request: RequestView {
                        multipart: st.request.multipart.push(
                            (trim(parts[0]), trim(rest.skip(parts[0].len() as int + 1))),
                        ),
                        ..st.request
                    },
                    ..st
                },
            )
        }
    } else if is_method_line(line) {
        let parts = split(line, ' ');
        if parts.len() != 2 {
            Err(ErrorView::InvalidDefinition(line))
        } else {
            Ok(
                LoaderView {
                    request: RequestView {
                        method: trim(parts[0]),
                        path: trim(parts[1]),
                        ..st.request
                    },
                    ..st
                },
            )
        }
    } else {
        Ok(LoaderView { body: st.body + trim(line), ..st })
    }
}

/// What one line does to the state. A line whose first character that is no
/// white space is `#` is a comment. `VARS` and `HOOKS` at the beginning of a
/// line begin those sections. `ID:` begins a request block: the request
/// before it is closed, and the name of the new one is what stands between
/// the first colon and the second, if there is a second. An empty line
/// counts for nothing. Any other line belongs to the section it stands in.
pub open spec fn load_line(st: LoaderView, line: Seq<char>, env: Seq<(Seq<char>, Seq<char>)>) -> Result<
    LoaderView,
    ErrorView,
> {
    if is_prefix("#"@, trim(line)) {
        Ok(st)
    } else if is_prefix("VARS"@, line) {
        Ok(LoaderView { section: Section::Vars, ..st })
    } else if is_prefix("HOOKS"@, line) {
        Ok(LoaderView { section: Section::Hooks, ..st })
    } else if is_prefix("ID:"@, line) {
        Ok(
            LoaderView {
                section: Section::Request,
                open: true,
                id: trim(split(line, ':')[1]),
                request: unset_request(),
                ..closed(st)
            },
        )
    } else if trim(line).len() == 0 {
        Ok(st)
    } else {
        match st.section {
            Section::Vars => variable_line(st, line, env),
            Section::Hooks => hook_line(st, line),
            Section::Request => request_line(st, line),
        }
    }
}

/// What the first `count` of `lines` do to the state, one after another;
/// the first line that is refused ends the reading.
pub open spec fn load_lines(
    st: LoaderView,
    lines: Seq<Seq<char>>,
    env: Seq<(Seq<char>, Seq<char>)>,
    count: int,
) -> Result<LoaderView, ErrorView>
    decreases count,
{
    if count <= 0 {
        Ok(st)
    } else {
        match load_lines(st, lines, env, count - 1) {
            Err(e) => Err(e),
            Ok(before) => load_line(before, lines[count - 1], env),
        }
    }
}

/// The state before the first line of the file `filename` is read into
/// `defs`.
pub open spec fn opened(defs: LazyReqView, filename: Seq<char>) -> LoaderView {
    LoaderView {
        defs: LazyReqView { filename, ..defs },
        section: Section::Vars,
        open: false,
        id: Seq::empty(),
        request: unset_request(),
        body: Seq::empty(),
    }
}

/// The definitions once the text `content` of the file `filename` has been
/// read into `defs`, with `env` as the environment.
pub open spec fn loaded(
    defs: LazyReqView,
    filename: Seq<char>,
    content: Seq<char>,
    env: Seq<(Seq<char>, Seq<char>)>,
) -> Result<LazyReqView, ErrorView> {
    match load_lines(opened(defs, filename), lines(content), env, lines(content).len() as int) {
        Err(e) => Err(e),
        Ok(st) => Ok(closed(st).defs),
    }
}

/// The value of `name` among the entries of `map`, if it has one.
fn lookup(map: &StringMap<String>, name: &Vec<char>) -> (r: Option<Vec<char>>)
    requires
        map.wf(),
    ensures
        match r {
            Some(v) => entry_value(map.deep_view(), name@) == Some(v@),
            None => entry_value(map.deep_view(), name@) is None,
        },
{
    proof {
        lemma_position_in_view(*map, name@, 0);
    }
    let key = string_of(name);
    let i = map.find(&key);
    if i < map.len() {
        Some(chars_of(map.values[i].as_str()))
    } else {
        None
    }
}

/// `value` without the quotes around it.
fn unquote_chars(value: Vec<char>) -> (r: Vec<char>)
    ensures
        r@ == unquote(value@),
{
    let n = value.len();
    if n >= 2 && ((value[0] == '"' && value[n - 1] == '"') || (value[0] == '\'' && value[n - 1]
        == '\'')) {
        subvec(&value, 1, n - 1)
    } else {
        value
    }
}

/// The value of a variable that is written `raw`.
fn value_of_variable(raw: Vec<char>, env: &StringMap<String>) -> (r: Option<Vec<char>>)
    requires
        env.wf(),
    ensures
        match r {
            Some(v) => variable_value(raw@, env.deep_view()) == Some(v@),
            None => variable_value(raw@, env.deep_view()) is None,
        },
{
    let prefix = chars_of("$env.");
    if starts_with(&raw, &prefix) {
        let name = subvec(&raw, prefix.len(), raw.len());
        match lookup(env, &name) {
            Some(v) => Some(unquote_chars(v)),
            None => None,
        }
    } else {
        Some(unquote_chars(raw))
    }
}

/// Whether `line` begins with `word`.
fn begins(line: &Vec<char>, word: &str) -> (r: bool)
    ensures
        r == is_prefix(word@, line@),
{
    starts_with(line, &chars_of(word))
}

/// Whether `line` begins with the name of an HTTP method.
fn begins_with_method(line: &Vec<char>) -> (r: bool)
    ensures
        r == is_method_line(line@),
{
    begins(line, "GET") || begins(line, "POST") || begins(line, "PUT") || begins(line, "DELETE")
        || begins(line, "PATCH") || begins(line, "HEAD") || begins(line, "OPTIONS")
}

/// `line` is refused.
fn refused(line: &Vec<char>) -> (r: Result<Loader, ExecError>)
    ensures
        r matches Err(e) && e@ == ErrorView::InvalidDefinition(line@),
{
    Err(ExecError::InvalidDefinition(string_of(line)))
}

impl Loader {
    /// The definitions are well formed, and so is the request that is being
    /// defined.
    pub open spec fn wf(&self) -> bool {
        self.defs.wf() && self.request.wf()
    }

    /// The state before the first line of the file `filename` is read into
    /// `defs`.
    pub fn open(defs: LazyReq, filename: String) -> (r: Loader)
        requires
            defs.wf(),
        ensures
            r.wf(),
            r.deep_view() == opened(defs.deep_view(), filename@),
    {
        Loader {
            defs: LazyReq {
                variables: defs.variables,
                hooks: defs.hooks,
                requests: defs.requests,
                filename,
            },
            section: Section::Vars,
            open: false,
            id: String::new(),
            request: Request::default(),
            body: String::new(),
        }
    }

    /// Adds the request that is being defined, if any, to the definitions.
    pub fn close(self) -> (r: Loader)
        requires
            self.wf(),
        ensures
            r.wf(),
            r.deep_view() == closed(self.deep_view()),
    {
        if self.open {
            let mut request = self.request;
            request.set_body(self.body);
            let mut defs = self.defs;
            defs.add_request(self.id.clone(), request);
            Loader {
                defs,
                section: self.section,
                open: false,
                id: self.id,
                request: Request::default(),
                body: String::new(),
            }
        } else {
            self
        }
    }
}

impl Loader {
    /// Reads a line of the section `VARS`.
    fn variable(self, line: &Vec<char>, env: &StringMap<String>) -> (r: Result<Loader, ExecError>)
        requires
            self.wf(),
            env.wf(),
        ensures
            match r {
                Ok(n) => n.wf() && variable_line(self.deep_view(), line@, env.deep_view()) == Ok::<
                    _,
                    ErrorView,
                >(n.deep_view()),
                Err(e) => variable_line(self.deep_view(), line@, env.deep_view()) == Err::<
                    LoaderView,
                    _,
                >(e@),
            },
    {
        let parts = split_chars(line, '=');
        assert(views(parts@).len() == parts.len());
        if parts.len() != 2 {
            return refused(line);
        }
        assert(views(parts@)[0] == parts@[0]@);
        assert(views(parts@)[1] == parts@[1]@);
        match value_of_variable(trim_chars(&parts[1]), env) {
            None => refused(line),
            Some(value) => {
                let mut next = self;
                next.defs.add_variable(string_of(&trim_chars(&parts[0])), string_of(&value));
                Ok(next)
            },
        }
    }

    /// Reads a line of the section `HOOKS`.
    fn hook(self, line: &Vec<char>) -> (r: Result<Loader, ExecError>)
        requires
            self.wf(),
        ensures
            match r {
                Ok(n) => n.wf() && hook_line(self.deep_view(), line@) == Ok::<_, ErrorView>(
                    n.deep_view(),
                ),
                Err(e) => hook_line(self.deep_view(), line@) == Err::<LoaderView, _>(e@),
            },
    {
        let parts = split_chars(line, '=');
        assert(views(parts@).len() == parts.len());
        if parts.len() < 2 {
            return refused(line);
        }
        assert(views(parts@)[0] == parts@[0]@);
        assert(views(parts@)[1] == parts@[1]@);
        let mut next = self;
        next.defs.add_hook(
            string_of(&trim_chars(&parts[0])),
            string_of(&trim_chars(&parts[1])),
        );
        Ok(next)
    }

    /// Reads a line of a request block.
    fn request_part(self, line: &Vec<char>) -> (r: Result<Loader, ExecError>)
        requires
            self.wf(),
        ensures
            match r {
                Ok(n) => n.wf() && request_line(self.deep_view(), line@) == Ok::<_, ErrorView>(
                    n.deep_view(),
                ),
                Err(e) => request_line(self.deep_view(), line@) == Err::<LoaderView, _>(e@),
            },
    {
        if !self.open {
            return refused(line);
        }
        let mut next = self;
        if begins(line, "H:") {
            proof {
                reveal_strlit("H:");
            }
            let rest = subvec(line, 2, line.len());
            let parts = split_chars(&rest, '=');
            assert(views(parts@).len() == parts.len());
            if parts.len() != 2 {
                return refused(line);
            }
            assert(views(parts@)[0] == parts@[0]@);
            assert(views(parts@)[1] == parts@[1]@);
            next.request.add_header(
                string_of(&trim_chars(&parts[0])),
                string_of(&trim_chars(&parts[1])),
            );
            Ok(next)
        } else if begins(line, "M:") {
            proof {
                reveal_strlit("M:");
            }
            let rest = subvec(line, 2, line.len());
            let parts = split_chars(&rest, '=');
            assert(views(parts@).len() == parts.len());
            if parts.len() < 2 {
                return refused(line);
            }
            assert(views(parts@)[0] == parts@[0]@);
            proof {
                crate::text::lemma_first_index_of_bounds(rest@, '=');
            }
            let content = subvec(&rest, parts[0].len() + 1, rest.len());
            next.request.add_multipart(
                string_of(&trim_chars(&parts[0])),
                string_of(&trim_chars(&content)),
            );
            Ok(next)
        } else if begins_with_method(line) {
            let parts = split_chars(line, ' ');
            assert(views(parts@).len() == parts.len());
            if parts.len() != 2 {
                return refused(line);
            }
            assert(views(parts@)[0] == parts@[0]@);
            assert(views(parts@)[1] == parts@[1]@);
            next.request.set_method(string_of(&trim_chars(&parts[0])));
            next.request.set_path(string_of(&trim_chars(&parts[1])));
            Ok(next)
        } else {
            let text = string_of(&trim_chars(line));
            next.body.append(text.as_str());
            Ok(next)
        }
    }

    /// Reads one line.
    pub fn feed(self, line: &Vec<char>, env: &StringMap<String>) -> (r: Result<Loader, ExecError>)
        requires
            self.wf(),
            env.wf(),
        ensures
            match r {
                Ok(n) => n.wf() && load_line(self.deep_view(), line@, env.deep_view()) == Ok::<
                    _,
                    ErrorView,
                >(n.deep_view()),
                Err(e) => load_line(self.deep_view(), line@, env.deep_view()) == Err::<
                    LoaderView,
                    _,
                >(e@),
            },
    {
        let trimmed = trim_chars(line);
        if begins(&trimmed, "#") {
            Ok(self)
        } else if begins(line, "VARS") {
            let mut next = self;
            next.section = Section::Vars;
            Ok(next)
        } else if begins(line, "HOOKS") {
            let mut next = self;
            next.section = Section::Hooks;
            Ok(next)
        } else if begins(line, "ID:") {
            let parts = split_chars(line, ':');
            assert(views(parts@).len() == parts.len());
            proof {
                reveal_strlit("ID:");
                crate::text::lemma_first_index_of_bounds(line@, ':');
                assert(line@.take(3)[2] == ':');
                assert(line@[2] == ':');
                crate::text::lemma_split_len(line@, ':');
            }
            assert(views(parts@)[1] == parts@[1]@);
            let mut next = self.close();
            next.section = Section::Request;
            next.open = true;
            next.id = string_of(&trim_chars(&parts[1]));
            next.request = Request::default();
            Ok(next)
        } else if trimmed.len() == 0 {
            Ok(self)
        } else {
            match self.section {
                Section::Vars => self.variable(line, env),
                Section::Hooks => self.hook(line),
                Section::Request => self.request_part(line),
            }
        }
    }
}

impl LazyReq {
    /// Reads the text `content` of the definitions file `filename` into
    /// these definitions, with `env` as the environment that `$env.NAME`
    /// reads. A line that is refused ends the reading; the definitions are
    /// then left empty.
    pub fn from_file(&mut self, filename: String, content: &str, env: &StringMap<String>) -> (r:
        Result<(), ExecError>)
        requires
            old(self).wf(),
            env.wf(),
        ensures
            final(self).wf(),
            match r {
                Ok(_) => loaded(old(self).deep_view(), filename@, content@, env.deep_view())
                    == Ok::<_, ErrorView>(final(self).deep_view()),
                Err(e) => loaded(old(self).deep_view(), filename@, content@, env.deep_view())
                    == Err::<LazyReqView, _>(e@) && final(self).deep_view() == LazyReq::empty_view(),
            },
    {
        let mut defs = LazyReq::new();
        core::mem::swap(self, &mut defs);
        let all = lines_of(&chars_of(content));
        assert(views(all@).len() == all.len());
        let mut state = Loader::open(defs, filename);
        let mut i: usize = 0;
        while i < all.len()
            invariant
                i <= all.len(),
                env.wf(),
                state.wf(),
                self.wf(),
                self.deep_view() == LazyReq::empty_view(),
                views(all@) == lines(content@),
                load_lines(
                    opened(old(self).deep_view(), filename@),
                    lines(content@),
                    env.deep_view(),
                    i as int,
                ) == Ok::<_, ErrorView>(state.deep_view()),
            decreases all.len() - i,
        {
            assert(views(all@)[i as int] == all@[i as int]@);
            match state.feed(&all[i], env) {
                Ok(next) => {
                    state = next;
                },
                Err(e) => {
                    proof {
                        lemma_load_lines_error(
                            opened(old(self).deep_view(), filename@),
                            lines(content@),
                            env.deep_view(),
                            i as int + 1,
                            all.len() as int,
                        );
                    }
                    return Err(e);
                },
            }
            i = i + 1;
        }
        let done = state.close();
        *self = done.defs;
        Ok(())
    }
}

/// Once a line is refused, reading more lines changes nothing.
pub proof fn lemma_load_lines_error(
    st: LoaderView,
    lines: Seq<Seq<char>>,
    env: Seq<(Seq<char>, Seq<char>)>,
    at: int,
    count: int,
)
    requires
        0 <= at <= count,
        load_lines(st, lines, env, at) is Err,
    ensures
        load_lines(st, lines, env, count) == load_lines(st, lines, env, at),
    decreases count - at,
{
    if at < count {
        lemma_load_lines_error(st, lines, env, at, count - 1);
    }
}

} // verus!
