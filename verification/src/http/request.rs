//! Parsing of the request line and the header lines of an HTTP/1.1 request.
//!
//! The grammars of the request target, the version and a header line are
//! regular expressions, and whether a text is accepted is for the pattern to
//! say. What a pattern captures is named in `crate::pattern`; every function
//! here that matches one states its result over that name, and has a
//! companion that takes the captured groups as an argument.
//!
//! What is handed out does not rest on the patterns alone. The parts of a
//! target, a version or a header are held against the text that was parsed,
//! and captures that do not make up that text are refused. So it is proved of
//! every result that its parts, written out again, are the text.

use crate::pattern::{find, found_view, group, group_at, matched};
use crate::text::{
    all_whitespace, chars_of, decimal, digit_of, digit_value, find_from, format_decimal, is_digit,
    is_whitespace, lemma_position, lemma_position_unique, lemma_split_at_first, lemma_trim_end,
    optional_view, position, same_text, split_at_first, split_first, str_eq, trim_end,
    trimmed_end,
};
use vstd::prelude::*;
use vstd::string::*;

verus! {

/// The method of a request. A token that names none of the eight methods is
/// kept as `UnknownMethod`.
#[derive(Debug, Clone, Copy, PartialEq, Eq, Structural)]
pub enum HttpMethod {
    GET,
    HEAD,
    POST,
    PUT,
    DELETE,
    CONNECT,
    OPTIONS,
    TRACE,
    UnknownMethod,
}

/// Why a request could not be read. Each error ends the connection that it
/// comes from, and no other.
#[derive(Debug, Clone, Copy, PartialEq, Eq, Structural)]
pub enum HttpParsingError {
    /// The version is not of the shape `HTTP/<digit>.<digit>`.
    InvalidSyntax,
    /// The request line has no method. No line gives this error: a line
    /// always has a first piece, if an empty one.
    InvalidMethodFormat,
    /// The request line has no target, or the target is of none of the four
    /// forms.
    InvalidTargetFormat,
    /// The request line has no version.
    InvalidVersionFormat,
    /// A header line is not a name, a colon and a value.
    InvalidHeaderFormat,
    /// The connection gave no line: the read failed, timed out, or met the
    /// end of the stream.
    TcpIssue(),
    /// The method is not known. Parsing does not give this error: it keeps
    /// such a method as `HttpMethod::UnknownMethod`, for the caller to judge.
    UnknownMethod,
    /// The scheme of an absolute-form target is neither `http` nor `https`.
    UnknownScheme,
}

/// The scheme of an absolute-form target.
#[derive(Debug, Clone, Copy, PartialEq, Eq, Structural)]
pub enum HttpScheme {
    Http,
    Https,
}

/// The protocol version of a request, which the response repeats.
#[derive(Debug, Clone, Copy, PartialEq, Eq, Structural)]
pub struct HttpVersion {
    pub major: u8,
    pub minor: u8,
}

/// What a response takes over from its request.
#[derive(Debug, Clone, Copy, PartialEq, Eq, Structural)]
pub struct HttpConnectionMetaData {
    pub http_version: HttpVersion,
}

/// The four forms of a request target.
#[derive(Debug, Clone, PartialEq, Eq)]
#[allow(inconsistent_fields)]
pub enum HttpRequestTarget {
    /// A path on this server with an optional query. The query is free text,
    /// not a list of keys and values.
    OriginForm { path: String, query: Option<String> },
    /// A full URI, as sent to proxies; a server has to accept it too.
    AbsoluteForm { scheme: HttpScheme, authority: String, path: Option<String>, query: Option<String> },
    /// Host and port alone, as sent with CONNECT.
    AuthorityForm { authority: String },
    /// The single character `*`, as sent with OPTIONS.
    AsteriskForm,
}

/// A request target as a mathematical value.
#[allow(inconsistent_fields)]
pub enum TargetView {
    OriginForm { path: Seq<char>, query: Option<Seq<char>> },
    AbsoluteForm {
        scheme: HttpScheme,
        authority: Seq<char>,
        path: Option<Seq<char>>,
        query: Option<Seq<char>>,
    },
    AuthorityForm { authority: Seq<char> },
    AsteriskForm,
}

/// The characters of an optional string.
pub open spec fn optional_text(text: Option<String>) -> Option<Seq<char>> {
    match text {
        Some(t) => Some(t@),
        None => None,
    }
}

impl View for HttpRequestTarget {
    type V = TargetView;

    open spec fn view(&self) -> TargetView {
        match *self {
            HttpRequestTarget::OriginForm { path, query } => TargetView::OriginForm {
                path: path@,
                query: optional_text(query),
            },
            HttpRequestTarget::AbsoluteForm { scheme, authority, path, query } => {
                TargetView::AbsoluteForm {
                    scheme,
                    authority: authority@,
                    path: optional_text(path),
                    query: optional_text(query),
                }
            },
            HttpRequestTarget::AuthorityForm { authority } => TargetView::AuthorityForm {
                authority: authority@,
            },
            HttpRequestTarget::AsteriskForm => TargetView::AsteriskForm,
        }
    }
}

/// One header field. Headers keep the order of the wire, and two of the same
/// name stay two.
#[derive(Debug, Clone, PartialEq, Eq)]
pub struct HttpHeader {
    pub field_name: String,
    pub field_value: String,
}

/// A header field as a mathematical value.
pub struct HeaderView {
    pub field_name: Seq<char>,
    pub field_value: Seq<char>,
}

impl View for HttpHeader {
    type V = HeaderView;

    open spec fn view(&self) -> HeaderView {
        HeaderView { field_name: self.field_name@, field_value: self.field_value@ }
    }
}

/// The header fields of a sequence, each as a mathematical value.
pub open spec fn headers_view(headers: Seq<HttpHeader>) -> Seq<HeaderView> {
    headers.map_values(|header: HttpHeader| header@)
}

/// A request: its request line and its headers. The body is never read.
#[derive(Debug, Clone, PartialEq, Eq)]
pub struct HttpRequest {
    pub method: HttpMethod,
    pub request_target: HttpRequestTarget,
    pub meta_data: HttpConnectionMetaData,
    pub headers: Vec<HttpHeader>,
}

/// A request as a mathematical value.
pub struct RequestView {
    pub method: HttpMethod,
    pub request_target: TargetView,
    pub meta_data: HttpConnectionMetaData,
    pub headers: Seq<HeaderView>,
}

impl View for HttpRequest {
    type V = RequestView;

    open spec fn view(&self) -> RequestView {
        RequestView {
            method: self.method,
            request_target: self.request_target@,
            meta_data: self.meta_data,
            headers: headers_view(self.headers@),
        }
    }
}

/// An origin-form target: a path without `?` or white space, then an optional
/// `?` and a query without `#`.
pub const ORIGIN_FORM: &'static str = r"^([^?[:space:]]*)(?:\?([^#]*))?$";

/// An absolute-form target: scheme, `://`, authority, then an optional path
/// and an optional `?` and query.
pub const ABSOLUTE_FORM: &'static str = r"^(http|https)://((?:\w|\.)+(?::\d+)?)((?:/|\w)*)?(?:\?([^#]*))?$";

/// An authority-form target: a host of word characters and dots, then an
/// optional `:` and port.
pub const AUTHORITY_FORM: &'static str = r"^((?:\w|\.)+(?::\d+)?)$";

/// The protocol version: `HTTP/`, a digit, a dot, a digit.
pub const HTTP_VERSION: &'static str = r"^HTTP/(\d)\.(\d)$";

/// A header line: a name without `:` or white space, a `:`, and a value.
/// Folded header lines are not supported.
pub const HEADER_LINE: &'static str = r"^([^:[:space:]]+):(.+)$";

/// The result of parsing a target, with the target as a mathematical value.
pub open spec fn target_result_view(
    result: Result<HttpRequestTarget, HttpParsingError>,
) -> Result<TargetView, HttpParsingError> {
    match result {
        Ok(target) => Ok(target@),
        Err(error) => Err(error),
    }
}

/// The method that a token of the request line names.
pub open spec fn method_of(token: Seq<char>) -> HttpMethod {
    if token == "GET"@ {
        HttpMethod::GET
    } else if token == "HEAD"@ {
        HttpMethod::HEAD
    } else if token == "POST"@ {
        HttpMethod::POST
    } else if token == "PUT"@ {
        HttpMethod::PUT
    } else if token == "DELETE"@ {
        HttpMethod::DELETE
    } else if token == "CONNECT"@ {
        HttpMethod::CONNECT
    } else if token == "OPTIONS"@ {
        HttpMethod::OPTIONS
    } else if token == "TRACE"@ {
        HttpMethod::TRACE
    } else {
        HttpMethod::UnknownMethod
    }
}

impl HttpScheme {
    /// The scheme as it is written in a target.
    pub open spec fn text(self) -> Seq<char> {
        match self {
            HttpScheme::Http => "http"@,
            HttpScheme::Https => "https"@,
        }
    }
}

/// A query as it is written in a target: behind a `?`, or not at all.
pub open spec fn query_text(query: Option<Seq<char>>) -> Seq<char> {
    match query {
        Some(q) => "?"@ + q,
        None => Seq::empty(),
    }
}

impl TargetView {
    /// The target as it is written in a request line.
    pub open spec fn text(self) -> Seq<char> {
        match self {
            TargetView::OriginForm { path, query } => path + query_text(query),
            TargetView::AbsoluteForm { scheme, authority, path, query } => scheme.text() + "://"@
                + authority + (match path {
                Some(p) => p,
                None => Seq::empty(),
            }) + query_text(query),
            TargetView::AuthorityForm { authority } => authority,
            TargetView::AsteriskForm => "*"@,
        }
    }
}

/// The origin-form target that `target` is, given the groups that
/// `ORIGIN_FORM` captured in it.
///
/// The path is what stands before the first `?` of the target, the query
/// what stands behind it. The pattern decides whether the target is
/// accepted; its groups 1 and 2 have to be that path and that query.
pub open spec fn origin_form_from_groups(
    target: Seq<char>,
    found: Option<Seq<Option<Seq<char>>>>,
) -> Result<TargetView, HttpParsingError> {
    let (path, query) = split_at_first(target, '?');
    match found {
        Some(groups) => if group_at(groups, 1) == Some(path) && group_at(groups, 2) == query {
            Ok(TargetView::OriginForm { path, query })
        } else {
            Err(HttpParsingError::InvalidTargetFormat)
        },
        None => Err(HttpParsingError::InvalidTargetFormat),
    }
}

/// The absolute-form target that `target` is, given the groups that
/// `ABSOLUTE_FORM` captured in it: group 1 is the scheme, group 2 the
/// authority, group 3 the path, group 4 the query.
///
/// The parts, written one after the other, have to be the target, and the
/// query has to be what stands behind the first `?` of the target.
pub open spec fn absolute_form_from_groups(
    target: Seq<char>,
    found: Option<Seq<Option<Seq<char>>>>,
) -> Result<TargetView, HttpParsingError> {
    match found {
        Some(groups) => match (group_at(groups, 1), group_at(groups, 2)) {
            (Some(scheme), Some(authority)) => if scheme != "http"@ && scheme != "https"@ {
                Err(HttpParsingError::UnknownScheme)
            } else {
                let parsed = TargetView::AbsoluteForm {
                    scheme: if scheme == "http"@ {
                        HttpScheme::Http
                    } else {
                        HttpScheme::Https
                    },
                    authority,
                    path: group_at(groups, 3),
                    query: group_at(groups, 4),
                };
                if parsed.text() == target && group_at(groups, 4) == split_at_first(target, '?').1 {
                    Ok(parsed)
                } else {
                    Err(HttpParsingError::InvalidTargetFormat)
                }
            },
            _ => Err(HttpParsingError::InvalidTargetFormat),
        },
        None => Err(HttpParsingError::InvalidTargetFormat),
    }
}

/// The authority-form target that `target` is, given the groups that
/// `AUTHORITY_FORM` captured in it: group 1 has to be the whole target, which
/// is the authority.
pub open spec fn authority_form_from_groups(
    target: Seq<char>,
    found: Option<Seq<Option<Seq<char>>>>,
) -> Result<TargetView, HttpParsingError> {
    match found {
        Some(groups) => if group_at(groups, 1) == Some(target) {
            Ok(TargetView::AuthorityForm { authority: target })
        } else {
            Err(HttpParsingError::InvalidTargetFormat)
        },
        None => Err(HttpParsingError::InvalidTargetFormat),
    }
}

/// The number that a captured digit denotes: the text must be one ASCII digit.
pub open spec fn single_digit(text: Option<Seq<char>>) -> Option<u8> {
    match text {
        Some(t) => if t.len() == 1 && is_digit(t[0]) {
            Some(digit_value(t[0]) as u8)
        } else {
            None
        },
        None => None,
    }
}

/// The version that `version` is, given the groups that `HTTP_VERSION`
/// captured in it: group 1 is the major number, group 2 the minor number.
/// Each has to be one ASCII digit, and the version that they make, written
/// out, has to be `version`.
pub open spec fn version_from_groups(
    version: Seq<char>,
    found: Option<Seq<Option<Seq<char>>>>,
) -> Result<HttpVersion, HttpParsingError> {
    match found {
        Some(groups) => match (single_digit(group_at(groups, 1)), single_digit(group_at(groups, 2))) {
            (Some(major), Some(minor)) => if (HttpVersion { major, minor }).text() == version {
                Ok(HttpVersion { major, minor })
            } else {
                Err(HttpParsingError::InvalidSyntax)
            },
            _ => Err(HttpParsingError::InvalidSyntax),
        },
        None => Err(HttpParsingError::InvalidSyntax),
    }
}

/// The header that `content` is, given the groups that `HEADER_LINE`
/// captured in it.
///
/// The name is what stands before the first `:` of the content, the value
/// what stands behind it. The pattern decides whether the content is
/// accepted; its groups 1 and 2 have to be that name and that value.
pub open spec fn header_from_groups(
    content: Seq<char>,
    found: Option<Seq<Option<Seq<char>>>>,
) -> Result<HeaderView, HttpParsingError> {
    let (field_name, value) = split_at_first(content, ':');
    match (found, value) {
        (Some(groups), Some(field_value)) => if group_at(groups, 1) == Some(field_name)
            && group_at(groups, 2) == Some(field_value) {
            Ok(HeaderView { field_name, field_value })
        } else {
            Err(HttpParsingError::InvalidHeaderFormat)
        },
        _ => Err(HttpParsingError::InvalidHeaderFormat),
    }
}

/// The target that an asterisk-form token denotes: the token must be `*` alone.
pub open spec fn asterisk_form_of(target: Seq<char>) -> Result<TargetView, HttpParsingError> {
    if target == "*"@ {
        Ok(TargetView::AsteriskForm)
    } else {
        Err(HttpParsingError::InvalidTargetFormat)
    }
}

/// The target that a token of the request line denotes. Its first character
/// selects the grammar: `/` the origin form, `*` the asterisk form, `h` the
/// absolute form and, where that fails, the authority form; any other
/// character the authority form. An empty token is no target.
pub open spec fn target_of(target: Seq<char>) -> Result<TargetView, HttpParsingError> {
    if target.len() == 0 {
        Err(HttpParsingError::InvalidTargetFormat)
    } else if target[0] == '/' {
        origin_form_from_groups(target, matched(ORIGIN_FORM@, target))
    } else if target[0] == 'h' {
        match absolute_form_from_groups(target, matched(ABSOLUTE_FORM@, target)) {
            Ok(absolute) => Ok(absolute),
            Err(_) => authority_form_from_groups(target, matched(AUTHORITY_FORM@, target)),
        }
    } else if target[0] == '*' {
        asterisk_form_of(target)
    } else {
        authority_form_from_groups(target, matched(AUTHORITY_FORM@, target))
    }
}

/// The version that a token of the request line denotes.
pub open spec fn version_of(version: Seq<char>) -> Result<HttpVersion, HttpParsingError> {
    version_from_groups(version, matched(HTTP_VERSION@, version))
}

/// A target that is accepted is made of its parts: written out again, it is
/// the token that was parsed. The path of an origin form holds no `?`, so
/// that its query is all that follows the first one.
pub proof fn lemma_target_is_its_text(target: Seq<char>)
    ensures
        target_of(target) matches Ok(parsed) ==> parsed.text() == target,
        target_of(target) matches Ok(TargetView::OriginForm { path, query }) ==> (path, query)
            == split_at_first(target, '?') && !path.contains('?'),
{
    reveal_strlit("?");
    lemma_split_at_first(target, '?');
    assert("?"@ =~= seq!['?']);
    match target_of(target) {
        Ok(TargetView::OriginForm { path, query }) => {
            match query {
                Some(q) => {
                    assert(path + ("?"@ + q) =~= path + seq!['?'] + q);
                },
                None => {
                    assert(path + Seq::<char>::empty() =~= path);
                },
            }
        },
        _ => {},
    }
}

/// A target that begins with `*` is the asterisk form if it is `*` alone,
/// and is refused as a target if anything follows.
pub proof fn lemma_asterisk_stands_alone(target: Seq<char>)
    requires
        target.len() > 0,
        target[0] == '*',
    ensures
        target_of(target) == if target.len() == 1 {
            Ok::<TargetView, HttpParsingError>(TargetView::AsteriskForm)
        } else {
            Err::<TargetView, HttpParsingError>(HttpParsingError::InvalidTargetFormat)
        },
{
    reveal_strlit("*");
    if target.len() == 1 {
        assert(target =~= "*"@);
    }
}

/// A version that is accepted is `HTTP/`, a digit, a dot and a digit, and
/// its numbers are those two digits.
pub proof fn lemma_version_is_its_text(version: Seq<char>)
    ensures
        version_of(version) matches Ok(parsed) ==> parsed.text() == version && parsed.major <= 9
            && parsed.minor <= 9,
{
}

/// A header that is accepted is cut from its line at the first `:`: the
/// name, which holds no `:`, the `:` and the value make up the content of
/// the line.
pub proof fn lemma_header_is_its_line(line: Seq<char>)
    ensures
        header_line_of(line) matches Ok(Some(header)) ==> header.field_name + seq![':']
            + header.field_value == line_content(line) && !header.field_name.contains(':'),
{
    lemma_split_at_first(line_content(line), ':');
}

/// What a request line denotes. The line is cut at its spaces. The first
/// piece names the method, the second is the target, and the third, without
/// its trailing white space, is the version; pieces after the third are not
/// looked at. The target is judged before the version is looked for.
pub open spec fn request_line_of(line: Seq<char>) -> Result<
    (HttpMethod, TargetView, HttpVersion),
    HttpParsingError,
> {
    let method_end = position(line, ' ');
    let after_method = line.skip(method_end + 1);
    let target_end = position(after_method, ' ');
    let after_target = after_method.skip(target_end + 1);
    let version_end = position(after_target, ' ');
    if method_end == line.len() {
        Err(HttpParsingError::InvalidTargetFormat)
    } else {
        match target_of(after_method.take(target_end)) {
            Err(error) => Err(error),
            Ok(target) => if target_end == after_method.len() {
                Err(HttpParsingError::InvalidVersionFormat)
            } else {
                match version_of(trim_end(after_target.take(version_end))) {
                    Err(error) => Err(error),
                    Ok(version) => Ok((method_of(line.take(method_end)), target, version)),
                }
            },
        }
    }
}

/// A request line that is well formed gives back its parts. For a method, a
/// target and a version without spaces, written with one space between them
/// and with nothing but white space behind them, the line denotes the method
/// that its first part names, and the target and the version that its second
/// and third part denote by themselves, in each of the four forms of a
/// target. Where the target or the version is not accepted, the line fails
/// as the part does, the target first. The target and the version that come
/// out are the ones that went in: written out again, they are the second and
/// the third part.
pub proof fn lemma_request_line_recovers_parts(
    method: Seq<char>,
    target: Seq<char>,
    version: Seq<char>,
    ending: Seq<char>,
)
    requires
        !method.contains(' '),
        !target.contains(' '),
        !version.contains(' '),
        version.len() == 0 || !is_whitespace(version.last()),
        all_whitespace(ending),
    ensures
        request_line_of(method + seq![' '] + target + seq![' '] + version + ending) == match target_of(
            target,
        ) {
            Err(error) => Err(error),
            Ok(request_target) => match version_of(version) {
                Err(error) => Err(error),
                Ok(http_version) => Ok((method_of(method), request_target, http_version)),
            },
        },
        request_line_of(method + seq![' '] + target + seq![' '] + version + ending) matches Ok(
            (_, request_target, http_version),
        ) ==> request_target.text() == target && http_version.text() == version,
{
    let line = method + seq![' '] + target + seq![' '] + version + ending;
    assert forall|i: int| 0 <= i < method.len() implies line[i] != ' ' by {
        assert(line[i] == method[i]);
        assert(method.contains(method[i]));
    }
    lemma_position_unique(line, ' ', method.len() as int);
    let after_method = line.skip(method.len() as int + 1);
    assert(after_method =~= target + seq![' '] + version + ending);
    assert forall|i: int| 0 <= i < target.len() implies after_method[i] != ' ' by {
        assert(after_method[i] == target[i]);
        assert(target.contains(target[i]));
    }
    lemma_position_unique(after_method, ' ', target.len() as int);
    let after_target = after_method.skip(target.len() as int + 1);
    assert(after_target =~= version + ending);
    lemma_position(after_target, ' ');
    let piece_end = position(after_target, ' ');
    if piece_end < version.len() {
        assert(after_target[piece_end] == version[piece_end]);
        assert(version.contains(version[piece_end]));
    }
    let space = ending.take(piece_end - version.len());
    assert(after_target.take(piece_end) =~= version + space);
    lemma_trim_end(version, space);
    assert(line.take(method.len() as int) =~= method);
    assert(after_method.take(target.len() as int) =~= target);
    lemma_target_is_its_text(target);
    lemma_version_is_its_text(version);
}

/// The result of parsing a request line, with the target as a mathematical
/// value.
pub open spec fn request_line_view(
    result: Result<(HttpMethod, HttpRequestTarget, HttpVersion), HttpParsingError>,
) -> Result<(HttpMethod, TargetView, HttpVersion), HttpParsingError> {
    match result {
        Ok((method, target, version)) => Ok((method, target@, version)),
        Err(error) => Err(error),
    }
}

/// A line as it is read from the connection, without its line ending: the
/// last two characters. A line of fewer than two characters has no content.
pub open spec fn line_content(line: Seq<char>) -> Seq<char> {
    if line.len() < 2 {
        Seq::empty()
    } else {
        line.take(line.len() - 2)
    }
}

/// What a line after the request line denotes: the end of the headers where
/// it has no content, else the header that `HEADER_LINE` captures in its
/// content.
pub open spec fn header_line_of(line: Seq<char>) -> Result<Option<HeaderView>, HttpParsingError> {
    if line_content(line).len() == 0 {
        Ok(None)
    } else {
        match header_from_groups(line_content(line), matched(HEADER_LINE@, line_content(line))) {
            Ok(header) => Ok(Some(header)),
            Err(error) => Err(error),
        }
    }
}

/// How far the reading of a request has come, as a mathematical value.
pub struct ReaderView {
    pub head: Option<(HttpMethod, TargetView, HttpVersion)>,
    pub headers: Seq<HeaderView>,
}

/// The state of the reader after a read, as a mathematical value.
pub enum ReadingView {
    More(ReaderView),
    Done(Result<RequestView, HttpParsingError>),
}

/// The step of the reader. `read` is the line that the connection gave, or
/// nothing where the read failed, timed out or met the end of the stream.
///
/// The first line is the request line, each later one a header line, until a
/// line without content ends the request. A read that gives nothing is a
/// connection error at any point.
pub open spec fn fed(state: ReaderView, read: Option<Seq<char>>) -> ReadingView {
    match read {
        None => ReadingView::Done(Err(HttpParsingError::TcpIssue())),
        Some(line) => match state.head {
            None => match request_line_of(line) {
                Ok(head) => ReadingView::More(ReaderView { head: Some(head), headers: state.headers }),
                Err(error) => ReadingView::Done(Err(error)),
            },
            Some((method, request_target, http_version)) => match header_line_of(line) {
                Ok(Some(header)) => ReadingView::More(
                    ReaderView { head: state.head, headers: state.headers.push(header) },
                ),
                Ok(None) => ReadingView::Done(
                    Ok(
                        RequestView {
                            method,
                            request_target,
                            meta_data: HttpConnectionMetaData { http_version },
                            headers: state.headers,
                        },
                    ),
                ),
                Err(error) => ReadingView::Done(Err(error)),
            },
        },
    }
}

/// The state of the reader after the reads `reads`, begun in `state`. Reads
/// that follow the end of the request are not looked at.
pub open spec fn fed_all(state: ReaderView, reads: Seq<Option<Seq<char>>>) -> ReadingView
    decreases reads.len(),
{
    if reads.len() == 0 {
        ReadingView::More(state)
    } else {
        match fed(state, reads[0]) {
            ReadingView::More(next) => fed_all(next, reads.skip(1)),
            ReadingView::Done(result) => ReadingView::Done(result),
        }
    }
}

/// The lines of a sequence, each as the outcome of a read that gave it.
pub open spec fn reads_of(lines: Seq<Seq<char>>) -> Seq<Option<Seq<char>>> {
    lines.map_values(|line: Seq<char>| Some(line))
}

/// Headers keep the order of the wire, and two of the same name stay two:
/// after header lines that are each accepted, the reader holds the headers
/// that it held before, followed by the header of each line in its turn.
pub proof fn lemma_headers_keep_wire_order(
    state: ReaderView,
    lines: Seq<Seq<char>>,
    headers: Seq<HeaderView>,
)
    requires
        state.head is Some,
        lines.len() == headers.len(),
        forall|i: int| 0 <= i < lines.len() ==> header_line_of(#[trigger] lines[i]) == Ok::<
            Option<HeaderView>,
            HttpParsingError,
        >(Some(headers[i])),
    ensures
        fed_all(state, reads_of(lines)) == ReadingView::More(
            ReaderView { head: state.head, headers: state.headers + headers },
        ),
    decreases lines.len(),
{
    let reads = reads_of(lines);
    if lines.len() == 0 {
        assert(state.headers + headers =~= state.headers);
    } else {
        let next = ReaderView { head: state.head, headers: state.headers.push(headers[0]) };
        assert(reads[0] == Some(lines[0]));
        assert(fed(state, reads[0]) == ReadingView::More(next));
        assert(reads.skip(1) =~= reads_of(lines.skip(1)));
        assert forall|i: int| 0 <= i < lines.skip(1).len() implies header_line_of(
            #[trigger] lines.skip(1)[i],
        ) == Ok::<Option<HeaderView>, HttpParsingError>(Some(headers.skip(1)[i])) by {
            assert(lines.skip(1)[i] == lines[i + 1]);
        }
        lemma_headers_keep_wire_order(next, lines.skip(1), headers.skip(1));
        assert(next.headers + headers.skip(1) =~= state.headers + headers);
    }
}

/// A request that is sent whole is read whole: a request line that is
/// accepted, header lines that are each accepted and a line without content
/// give the request of that method, target and version with the headers of
/// the lines in their order. Reads that follow are not looked at.
pub proof fn lemma_whole_request_is_read(
    request_line: Seq<char>,
    lines: Seq<Seq<char>>,
    headers: Seq<HeaderView>,
    last: Seq<char>,
    more: Seq<Option<Seq<char>>>,
)
    requires
        request_line_of(request_line) is Ok,
        lines.len() == headers.len(),
        forall|i: int| 0 <= i < lines.len() ==> header_line_of(#[trigger] lines[i]) == Ok::<
            Option<HeaderView>,
            HttpParsingError,
        >(Some(headers[i])),
        line_content(last).len() == 0,
    ensures
        fed_all(
            ReaderView { head: None, headers: Seq::empty() },
            seq![Some(request_line)] + reads_of(lines) + seq![Some(last)] + more,
        ) == ReadingView::Done(
            Ok(
                RequestView {
                    method: request_line_of(request_line)->Ok_0.0,
                    request_target: request_line_of(request_line)->Ok_0.1,
                    meta_data: HttpConnectionMetaData {
                        http_version: request_line_of(request_line)->Ok_0.2,
                    },
                    headers,
                },
            ),
        ),
{
    let start = ReaderView { head: None, headers: Seq::empty() };
    let reads = seq![Some(request_line)] + reads_of(lines) + seq![Some(last)] + more;
    let head = request_line_of(request_line)->Ok_0;
    let begun = ReaderView { head: Some(head), headers: Seq::empty() };
    assert(reads[0] == Some(request_line));
    assert(fed(start, reads[0]) == ReadingView::More(begun));
    let rest = reads.skip(1);
    assert(rest =~= reads_of(lines) + (seq![Some(last)] + more));
    lemma_headers_keep_wire_order(begun, lines, headers);
    lemma_fed_all_continues(begun, reads_of(lines), seq![Some(last)] + more);
    let filled = ReaderView { head: Some(head), headers: begun.headers + headers };
    assert(begun.headers + headers =~= headers);
    let tail = seq![Some(last)] + more;
    assert(tail[0] == Some(last));
}

/// Reading on from where earlier reads have led is reading all of them.
pub proof fn lemma_fed_all_continues(
    state: ReaderView,
    first: Seq<Option<Seq<char>>>,
    then: Seq<Option<Seq<char>>>,
)
    ensures
        fed_all(state, first + then) == match fed_all(state, first) {
            ReadingView::More(next) => fed_all(next, then),
            ReadingView::Done(result) => ReadingView::Done(result),
        },
    decreases first.len(),
{
    if first.len() == 0 {
        assert(first + then =~= then);
    } else {
        let all = first + then;
        assert(all[0] == first[0]);
        assert(all.skip(1) =~= first.skip(1) + then);
        match fed(state, first[0]) {
            ReadingView::More(next) => lemma_fed_all_continues(next, first.skip(1), then),
            ReadingView::Done(_) => {},
        }
    }
}

fn owned(text: Option<&str>) -> (copy: Option<String>)
    ensures
        optional_text(copy) == optional_view(text),
{
    match text {
        Some(t) => Some(String::from_str(t)),
        None => None,
    }
}

fn digit_text(text: Option<&str>) -> (value: Option<u8>)
    ensures
        value == single_digit(optional_view(text)),
        value matches Some(digit) ==> digit <= 9,
{
    match text {
        Some(t) => if t.unicode_len() == 1 {
            digit_of(t.get_char(0))
        } else {
            None
        },
        None => None,
    }
}

impl HttpVersion {
    /// The version as it stands in a request line or a status line.
    pub open spec fn text(self) -> Seq<char> {
        "HTTP/"@ + decimal(self.major as nat) + "."@ + decimal(self.minor as nat)
    }

    /// Writes the version as it stands in a request line or a status line.
    pub fn to_string(&self) -> (text: String)
        ensures
            text@ == self.text(),
    {
        let mut text = String::from_str("HTTP/");
        text.append(format_decimal(self.major as u64).as_str());
        text.append(".");
        text.append(format_decimal(self.minor as u64).as_str());
        text
    }
}

impl HeaderView {
    /// The header as a line of the wire: name, colon, space, value, line ending.
    pub open spec fn line(self) -> Seq<char> {
        self.field_name + ": "@ + self.field_value + "\r\n"@
    }
}

impl HttpHeader {
    /// Writes the header as a line of the wire.
    pub fn to_string(&self) -> (text: String)
        ensures
            text@ == self@.line(),
    {
        let mut text = self.field_name.clone();
        text.append(": ");
        text.append(self.field_value.as_str());
        text.append("\r\n");
        text
    }
}

impl HttpRequest {
    /// Puts a request together from its parts.
    pub fn new(
        method: HttpMethod,
        request_target: HttpRequestTarget,
        http_version: HttpVersion,
        headers: Vec<HttpHeader>,
    ) -> (request: HttpRequest)
        ensures
            request.method == method,
            request.request_target == request_target,
            request.meta_data == (HttpConnectionMetaData { http_version }),
            request.headers == headers,
    {
        HttpRequest {
            method,
            request_target,
            meta_data: HttpConnectionMetaData { http_version },
            headers,
        }
    }

    /// Parses a request line: method, target and version, divided by single
    /// spaces.
    ///
    /// A line without a second piece has no target, one without a third has
    /// no version. An unknown method is no error here: it is for the caller
    /// to reject it.
    pub fn parse_request_line(line: &str) -> (result: Result<
        (HttpMethod, HttpRequestTarget, HttpVersion),
        HttpParsingError,
    >)
        ensures
            request_line_view(result) == request_line_of(line@),
    {
        let chars = chars_of(line);
        let method_end = find_from(&chars, 0, ' ');
        assert(chars@.skip(0) == chars@);
        assert(chars@.subrange(0, method_end as int) == line@.take(method_end as int));
        let method = Self::parse_method(line.substring_char(0, method_end));
        if method_end == chars.len() {
            return Err(HttpParsingError::InvalidTargetFormat);
        }
        let ghost after_method = line@.skip(method_end + 1);
        let target_end = find_from(&chars, method_end + 1, ' ');
        assert(chars@.subrange(method_end + 1, target_end as int) == after_method.take(
            target_end - method_end - 1,
        ));
        let target = match Self::parse_target_path(line.substring_char(method_end + 1, target_end)) {
            Ok(target) => target,
            Err(error) => {
                return Err(error);
            },
        };
        if target_end == chars.len() {
            return Err(HttpParsingError::InvalidVersionFormat);
        }
        let ghost after_target = after_method.skip(target_end - method_end);
        assert(after_target == chars@.skip(target_end + 1));
        let piece_end = find_from(&chars, target_end + 1, ' ');
        let version_end = trimmed_end(&chars, target_end + 1, piece_end);
        assert(chars@.subrange(target_end + 1, piece_end as int) == after_target.take(
            piece_end - target_end - 1,
        ));
        assert(chars@.subrange(target_end + 1, version_end as int) == trim_end(
            after_target.take(piece_end - target_end - 1),
        ));
        match Self::parse_http_version(line.substring_char(target_end + 1, version_end)) {
            Ok(version) => Ok((method, target, version)),
            Err(error) => Err(error),
        }
    }

    /// Maps a method token to its method. A token that names none of the
    /// eight methods gives `UnknownMethod`.
    pub fn parse_method(method: &str) -> (result: HttpMethod)
        ensures
            result == method_of(method@),
    {
        if str_eq(method, "GET") {
            HttpMethod::GET
        } else if str_eq(method, "HEAD") {
            HttpMethod::HEAD
        } else if str_eq(method, "POST") {
            HttpMethod::POST
        } else if str_eq(method, "PUT") {
            HttpMethod::PUT
        } else if str_eq(method, "DELETE") {
            HttpMethod::DELETE
        } else if str_eq(method, "CONNECT") {
            HttpMethod::CONNECT
        } else if str_eq(method, "OPTIONS") {
            HttpMethod::OPTIONS
        } else if str_eq(method, "TRACE") {
            HttpMethod::TRACE
        } else {
            HttpMethod::UnknownMethod
        }
    }

    /// Parses a request target by the grammar that its first character
    /// selects. A target that is accepted is made of its parts: written out
    /// again, it is the token.
    pub fn parse_target_path(target_path: &str) -> (result: Result<
        HttpRequestTarget,
        HttpParsingError,
    >)
        ensures
            target_result_view(result) == target_of(target_path@),
            result matches Ok(target) ==> target@.text() == target_path@,
    {
        proof {
            lemma_target_is_its_text(target_path@);
        }
        if target_path.unicode_len() == 0 {
            return Err(HttpParsingError::InvalidTargetFormat);
        }
        let first = target_path.get_char(0);
        if first == '/' {
            Self::parse_origin_form(target_path)
        } else if first == 'h' {
            match Self::parse_absolute_form(target_path) {
                Ok(request_target) => Ok(request_target),
                Err(_) => Self::parse_authority_form(target_path),
            }
        } else if first == '*' {
            Self::parse_asterisk_form(target_path)
        } else {
            Self::parse_authority_form(target_path)
        }
    }

    /// Parses an origin-form target. `ORIGIN_FORM` decides whether it is
    /// accepted; the path is then what stands before its first `?`, and the
    /// query what stands behind it.
    pub fn parse_origin_form(target_path: &str) -> (result: Result<
        HttpRequestTarget,
        HttpParsingError,
    >)
        ensures
            target_result_view(result) == origin_form_from_groups(
                target_path@,
                matched(ORIGIN_FORM@, target_path@),
            ),
    {
        Self::origin_form_from(target_path, find(ORIGIN_FORM, target_path))
    }

    /// Makes an origin-form target of `target_path` and of the groups that
    /// `ORIGIN_FORM` captured in it.
    pub fn origin_form_from(target_path: &str, found: Option<Vec<Option<String>>>) -> (result:
        Result<HttpRequestTarget, HttpParsingError>)
        ensures
            target_result_view(result) == origin_form_from_groups(target_path@, found_view(found)),
    {
        let groups = match found {
            Some(groups) => groups,
            None => {
                return Err(HttpParsingError::InvalidTargetFormat);
            },
        };
        let (path, query) = split_first(target_path, '?');
        if same_text(group(&groups, 1), Some(path)) && same_text(group(&groups, 2), query) {
            Ok(HttpRequestTarget::OriginForm { path: String::from_str(path), query: owned(query) })
        } else {
            Err(HttpParsingError::InvalidTargetFormat)
        }
    }

    /// Parses an absolute-form target: what `ABSOLUTE_FORM` captures in it.
    pub fn parse_absolute_form(target_path: &str) -> (result: Result<
        HttpRequestTarget,
        HttpParsingError,
    >)
        ensures
            target_result_view(result) == absolute_form_from_groups(
                target_path@,
                matched(ABSOLUTE_FORM@, target_path@),
            ),
    {
        Self::absolute_form_from(target_path, find(ABSOLUTE_FORM, target_path))
    }

    /// Makes an absolute-form target of the groups that `ABSOLUTE_FORM`
    /// captured in `target_path`. A scheme other than `http` and `https` is
    /// unknown. Groups that do not make up the target are refused.
    pub fn absolute_form_from(target_path: &str, found: Option<Vec<Option<String>>>) -> (result:
        Result<HttpRequestTarget, HttpParsingError>)
        ensures
            target_result_view(result) == absolute_form_from_groups(
                target_path@,
                found_view(found),
            ),
    {
        let groups = match found {
            Some(groups) => groups,
            None => {
                return Err(HttpParsingError::InvalidTargetFormat);
            },
        };
        let (scheme_text, authority) = match (group(&groups, 1), group(&groups, 2)) {
            (Some(scheme_text), Some(authority)) => (scheme_text, authority),
            _ => {
                return Err(HttpParsingError::InvalidTargetFormat);
            },
        };
        let scheme = if str_eq(scheme_text, "http") {
            HttpScheme::Http
        } else if str_eq(scheme_text, "https") {
            HttpScheme::Https
        } else {
            return Err(HttpParsingError::UnknownScheme);
        };
        let path = group(&groups, 3);
        let query = group(&groups, 4);
        let mut written = String::from_str(scheme_text);
        written.append("://");
        written.append(authority);
        match path {
            Some(p) => {
                written.append(p);
            },
            None => {
                assert(written@ + Seq::<char>::empty() =~= written@);
            },
        }
        match query {
            Some(q) => {
                let ghost before = written@;
                written.append("?");
                written.append(q);
                assert(written@ =~= before + ("?"@ + q@));
            },
            None => {
                assert(written@ + Seq::<char>::empty() =~= written@);
            },
        }
        if str_eq(written.as_str(), target_path) && same_text(
            query,
            split_first(target_path, '?').1,
        ) {
            Ok(
                HttpRequestTarget::AbsoluteForm {
                    scheme,
                    authority: String::from_str(authority),
                    path: owned(path),
                    query: owned(query),
                },
            )
        } else {
            Err(HttpParsingError::InvalidTargetFormat)
        }
    }

    /// Parses an asterisk-form target, which is the one character `*`.
    pub fn parse_asterisk_form(target_path: &str) -> (result: Result<
        HttpRequestTarget,
        HttpParsingError,
    >)
        ensures
            target_result_view(result) == asterisk_form_of(target_path@),
    {
        if str_eq(target_path, "*") {
            Ok(HttpRequestTarget::AsteriskForm)
        } else {
            Err(HttpParsingError::InvalidTargetFormat)
        }
    }

    /// Parses an authority-form target: `AUTHORITY_FORM` decides whether it
    /// is accepted; the authority is then the whole target.
    pub fn parse_authority_form(target_path: &str) -> (result: Result<
        HttpRequestTarget,
        HttpParsingError,
    >)
        ensures
            target_result_view(result) == authority_form_from_groups(
                target_path@,
                matched(AUTHORITY_FORM@, target_path@),
            ),
    {
        Self::authority_form_from(target_path, find(AUTHORITY_FORM, target_path))
    }

    /// Makes an authority-form target of `target_path` and of the groups
    /// that `AUTHORITY_FORM` captured in it.
    pub fn authority_form_from(target_path: &str, found: Option<Vec<Option<String>>>) -> (result:
        Result<HttpRequestTarget, HttpParsingError>)
        ensures
            target_result_view(result) == authority_form_from_groups(
                target_path@,
                found_view(found),
            ),
    {
        let groups = match found {
            Some(groups) => groups,
            None => {
                return Err(HttpParsingError::InvalidTargetFormat);
            },
        };
        if same_text(group(&groups, 1), Some(target_path)) {
            Ok(HttpRequestTarget::AuthorityForm { authority: String::from_str(target_path) })
        } else {
            Err(HttpParsingError::InvalidTargetFormat)
        }
    }

    /// Parses the protocol version: `HTTP/`, a digit, a dot, a digit. Any
    /// other shape is a syntax error. A version that is accepted, written
    /// out again, is the token.
    pub fn parse_http_version(http_version: &str) -> (result: Result<HttpVersion, HttpParsingError>)
        ensures
            result == version_of(http_version@),
            result matches Ok(version) ==> version.text() == http_version@ && version.major <= 9
                && version.minor <= 9,
    {
        Self::http_version_from(http_version, find(HTTP_VERSION, http_version))
    }

    /// Makes a version of the groups that `HTTP_VERSION` captured in
    /// `http_version`. The major number is read from the first group and the
    /// minor number from the second; each has to be one ASCII digit.
    pub fn http_version_from(http_version: &str, found: Option<Vec<Option<String>>>) -> (result:
        Result<HttpVersion, HttpParsingError>)
        ensures
            result == version_from_groups(http_version@, found_view(found)),
            result matches Ok(version) ==> version.text() == http_version@ && version.major <= 9
                && version.minor <= 9,
    {
        let groups = match found {
            Some(groups) => groups,
            None => {
                return Err(HttpParsingError::InvalidSyntax);
            },
        };
        match (digit_text(group(&groups, 1)), digit_text(group(&groups, 2))) {
            (Some(major), Some(minor)) => {
                let version = HttpVersion { major, minor };
                if str_eq(version.to_string().as_str(), http_version) {
                    Ok(version)
                } else {
                    Err(HttpParsingError::InvalidSyntax)
                }
            },
            _ => Err(HttpParsingError::InvalidSyntax),
        }
    }

    /// Takes one line after the request line. A line without content ends the
    /// headers: the result is `true` and `headers` stays as it is. Any other
    /// line has to be a header, which is added to `headers` behind those
    /// that are there; the result is then `false`. After a line that is no
    /// header `headers` is unchanged.
    pub fn parse_headers(headers: &mut Vec<HttpHeader>, line: &str) -> (result: Result<
        bool,
        HttpParsingError,
    >)
        ensures
            match header_line_of(line@) {
                Ok(Some(header)) => result == Ok::<bool, HttpParsingError>(false) && headers_view(
                    final(headers)@,
                ) == headers_view(old(headers)@).push(header),
                Ok(None) => result == Ok::<bool, HttpParsingError>(true) && *final(headers) == *old(
                    headers,
                ),
                Err(error) => result == Err::<bool, HttpParsingError>(error) && *final(headers)
                    == *old(headers),
            },
    {
        let length = line.unicode_len();
        if length <= 2 {
            return Ok(true);
        }
        let content = line.substring_char(0, length - 2);
        match Self::header_from(content, find(HEADER_LINE, content)) {
            Ok(header) => {
                headers.push(header);
                assert(headers_view(headers@) =~= headers_view(old(headers)@).push(header@));
                Ok(false)
            },
            Err(error) => Err(error),
        }
    }

    /// Makes a header of `content`, a line without its ending, and of the
    /// groups that `HEADER_LINE` captured in it. The name is what stands
    /// before the first `:` and the value what stands behind it.
    pub fn header_from(content: &str, found: Option<Vec<Option<String>>>) -> (result: Result<
        HttpHeader,
        HttpParsingError,
    >)
        ensures
            match result {
                Ok(header) => header_from_groups(content@, found_view(found)) == Ok::<
                    HeaderView,
                    HttpParsingError,
                >(header@),
                Err(error) => header_from_groups(content@, found_view(found)) == Err::<
                    HeaderView,
                    HttpParsingError,
                >(error),
            },
    {
        let groups = match found {
            Some(groups) => groups,
            None => {
                return Err(HttpParsingError::InvalidHeaderFormat);
            },
        };
        let (field_name, value) = split_first(content, ':');
        let field_value = match value {
            Some(field_value) => field_value,
            None => {
                return Err(HttpParsingError::InvalidHeaderFormat);
            },
        };
        if same_text(group(&groups, 1), Some(field_name)) && same_text(
            group(&groups, 2),
            Some(field_value),
        ) {
            Ok(
                HttpHeader {
                    field_name: String::from_str(field_name),
                    field_value: String::from_str(field_value),
                },
            )
        } else {
            Err(HttpParsingError::InvalidHeaderFormat)
        }
    }
}

/// Reads a request line by line. The caller reads from the connection and
/// feeds each line in; the reader says when the request is complete.
#[derive(Debug, Clone, PartialEq, Eq)]
pub struct RequestReader {
    /// The parsed request line, once it has been read.
    pub head: Option<(HttpMethod, HttpRequestTarget, HttpVersion)>,
    /// The headers read so far, in the order of the wire.
    pub headers: Vec<HttpHeader>,
}

/// What the reader needs next.
#[derive(Debug, PartialEq, Eq)]
pub enum Reading {
    /// Another line.
    More(RequestReader),
    /// Nothing: the request is complete, or reading it has failed.
    Done(Result<HttpRequest, HttpParsingError>),
}

impl View for RequestReader {
    type V = ReaderView;

    open spec fn view(&self) -> ReaderView {
        ReaderView {
            head: match self.head {
                Some((method, target, version)) => Some((method, target@, version)),
                None => None,
            },
            headers: headers_view(self.headers@),
        }
    }
}

impl View for Reading {
    type V = ReadingView;

    open spec fn view(&self) -> ReadingView {
        match *self {
            Reading::More(reader) => ReadingView::More(reader@),
            Reading::Done(Ok(request)) => ReadingView::Done(Ok(request@)),
            Reading::Done(Err(error)) => ReadingView::Done(Err(error)),
        }
    }
}

impl RequestReader {
    /// A reader that has read nothing yet.
    pub fn new() -> (reader: RequestReader)
        ensures
            reader@ == (ReaderView { head: None, headers: Seq::empty() }),
    {
        let reader = RequestReader { head: None, headers: Vec::new() };
        assert(headers_view(reader.headers@) =~= Seq::empty());
        reader
    }

    /// Takes the outcome of one read from the connection: a line with its
    /// line ending, or nothing where the read failed, timed out or gave no
    /// byte.
    pub fn feed(self, read: Option<&str>) -> (reading: Reading)
        ensures
            reading@ == fed(self@, optional_view(read)),
    {
        let line = match read {
            Some(line) => line,
            None => {
                return Reading::Done(Err(HttpParsingError::TcpIssue()));
            },
        };
        let RequestReader { head, headers } = self;
        match head {
            None => match HttpRequest::parse_request_line(line) {
                Ok(head) => Reading::More(RequestReader { head: Some(head), headers }),
                Err(error) => Reading::Done(Err(error)),
            },
            Some((method, request_target, http_version)) => {
                let mut headers = headers;
                match HttpRequest::parse_headers(&mut headers, line) {
                    Ok(false) => Reading::More(
                        RequestReader { head: Some((method, request_target, http_version)), headers },
                    ),
                    Ok(true) => Reading::Done(
                        Ok(HttpRequest::new(method, request_target, http_version, headers)),
                    ),
                    Err(error) => Reading::Done(Err(error)),
                }
            },
        }
    }
}

} // verus!
