//! Building a response to a request, and laying out its head for the wire.
//!
//! The library does not touch the file system. Where a response depends on
//! what is on disk, it names the lookup that it needs next, and the caller
//! hands in the answers to the lookups made so far. A response is a function
//! of the request, the configuration and those answers.

use crate::configuration::config::{Config, ConfigView};
use crate::http::request::{
    headers_view, HeaderView, HttpConnectionMetaData, HttpHeader, HttpMethod, HttpRequest,
    HttpRequestTarget, RequestView, TargetView,
};
use crate::text::{begins_with, decimal, format_decimal, starts_with};
use vstd::prelude::*;
use vstd::string::*;

verus! {

/// The status of a response.
#[derive(Debug, Clone, Copy, PartialEq, Eq, Structural)]
pub enum HttpStatus {
    /// 200: the file is sent.
    Okay,
    /// 400: the target of the request asks for no path.
    BadRequest,
    /// 405: the method is known, and is neither GET nor HEAD.
    MethodNotAllowed,
    /// 404: there is no such file in the served directory.
    FileNotFound,
    /// 500: the file is there, and its length cannot be had.
    _InternalServerError,
    /// 501: the method is not known.
    NotImplemented,
}

impl HttpStatus {
    /// The numeric code of the status.
    pub open spec fn code(self) -> int {
        match self {
            HttpStatus::Okay => 200,
            HttpStatus::BadRequest => 400,
            HttpStatus::MethodNotAllowed => 405,
            HttpStatus::FileNotFound => 404,
            HttpStatus::_InternalServerError => 500,
            HttpStatus::NotImplemented => 501,
        }
    }

    /// The reason phrase of the status.
    pub open spec fn reason(self) -> Seq<char> {
        match self {
            HttpStatus::Okay => "OK"@,
            HttpStatus::BadRequest => "Bad Request"@,
            HttpStatus::MethodNotAllowed => "Method Not Allowed"@,
            HttpStatus::FileNotFound => "Not Found"@,
            HttpStatus::_InternalServerError => "Internal Server Error"@,
            HttpStatus::NotImplemented => "Not Implemented"@,
        }
    }

    /// The numeric code of the status.
    pub fn as_code(&self) -> (code: i32)
        ensures
            code == self.code(),
    {
        match self {
            HttpStatus::Okay => 200,
            HttpStatus::BadRequest => 400,
            HttpStatus::MethodNotAllowed => 405,
            HttpStatus::FileNotFound => 404,
            HttpStatus::_InternalServerError => 500,
            HttpStatus::NotImplemented => 501,
        }
    }

    /// The reason phrase of the status.
    pub fn as_reason_statement(&self) -> (reason: &'static str)
        ensures
            reason@ == self.reason(),
    {
        match self {
            HttpStatus::Okay => "OK",
            HttpStatus::BadRequest => "Bad Request",
            HttpStatus::MethodNotAllowed => "Method Not Allowed",
            HttpStatus::FileNotFound => "Not Found",
            HttpStatus::_InternalServerError => "Internal Server Error",
            HttpStatus::NotImplemented => "Not Implemented",
        }
    }

    /// Whether the status reports a failure: every status but 200 does.
    pub fn is_error(&self) -> (error: bool)
        ensures
            error == (self.code() >= 400),
            error == (*self != HttpStatus::Okay),
    {
        self.as_code() >= 400
    }

    /// The length of the reason phrase, which is its length in bytes too.
    pub fn get_reason_statement_len(&self) -> (length: u64)
        ensures
            length == self.reason().len(),
    {
        self.as_reason_statement().unicode_len() as u64
    }
}

/// Where the body of a response comes from.
#[derive(Debug, Clone, PartialEq, Eq)]
pub enum HttpMessageContent {
    /// There is no body.
    Empty,
    /// The body is the file at `path`, which holds `length` bytes.
    File { path: String, length: u64 },
    /// The body is the reason phrase of the status.
    ReasonPhrase,
}

/// The source of a body as a mathematical value.
pub enum ContentView {
    Empty,
    File { path: Seq<char>, length: u64 },
    ReasonPhrase,
}

impl View for HttpMessageContent {
    type V = ContentView;

    open spec fn view(&self) -> ContentView {
        match *self {
            HttpMessageContent::Empty => ContentView::Empty,
            HttpMessageContent::File { path, length } => ContentView::File { path: path@, length },
            HttpMessageContent::ReasonPhrase => ContentView::ReasonPhrase,
        }
    }
}

/// A response: what its head says, and where its body comes from.
#[derive(Debug, Clone, PartialEq, Eq)]
pub struct HttpResponse {
    pub status: HttpStatus,
    pub meta_data: HttpConnectionMetaData,
    pub headers: Vec<HttpHeader>,
    pub content: HttpMessageContent,
}

/// A response as a mathematical value.
pub struct ResponseView {
    pub status: HttpStatus,
    pub meta_data: HttpConnectionMetaData,
    pub headers: Seq<HeaderView>,
    pub content: ContentView,
}

impl View for HttpResponse {
    type V = ResponseView;

    open spec fn view(&self) -> ResponseView {
        ResponseView {
            status: self.status,
            meta_data: self.meta_data,
            headers: headers_view(self.headers@),
            content: self.content@,
        }
    }
}

/// A question about the file system that the caller answers.
#[derive(Debug, Clone, PartialEq, Eq)]
#[allow(inconsistent_fields)]
pub enum FileQuery {
    /// Is the served directory, joined with `relative`, a directory?
    IsDirectory { relative: String },
    /// What is the canonical form of the served directory joined with
    /// `relative` and then, where one is given, with `index`?
    Canonical { relative: String, index: Option<String> },
    /// How many bytes does the file at `path` hold?
    Length { path: String },
}

/// A question about the file system as a mathematical value.
#[allow(inconsistent_fields)]
pub enum FileQueryView {
    IsDirectory { relative: Seq<char> },
    Canonical { relative: Seq<char>, index: Option<Seq<char>> },
    Length { path: Seq<char> },
}

impl View for FileQuery {
    type V = FileQueryView;

    open spec fn view(&self) -> FileQueryView {
        match *self {
            FileQuery::IsDirectory { relative } => FileQueryView::IsDirectory { relative: relative@ },
            FileQuery::Canonical { relative, index } => FileQueryView::Canonical {
                relative: relative@,
                index: match index {
                    Some(name) => Some(name@),
                    None => None,
                },
            },
            FileQuery::Length { path } => FileQueryView::Length { path: path@ },
        }
    }
}

/// The answer to a `FileQuery`. An answer of another kind than the question
/// counts as a lookup that failed.
#[derive(Debug, Clone, PartialEq, Eq)]
pub enum FileAnswer {
    /// Whether the path is a directory.
    Directory(bool),
    /// The canonical path, or nothing where the path does not exist or
    /// cannot be read.
    Canonical(Option<String>),
    /// The length of the file, or nothing where the file has no metadata to
    /// be read.
    Length(Option<u64>),
}

/// An answer as a mathematical value.
pub enum FileAnswerView {
    Directory(bool),
    Canonical(Option<Seq<char>>),
    Length(Option<u64>),
}

impl View for FileAnswer {
    type V = FileAnswerView;

    open spec fn view(&self) -> FileAnswerView {
        match *self {
            FileAnswer::Directory(yes) => FileAnswerView::Directory(yes),
            FileAnswer::Canonical(Some(path)) => FileAnswerView::Canonical(Some(path@)),
            FileAnswer::Canonical(None) => FileAnswerView::Canonical(None),
            FileAnswer::Length(length) => FileAnswerView::Length(length),
        }
    }
}

/// The answers of a sequence, each as a mathematical value.
pub open spec fn answers_view(answers: Seq<FileAnswer>) -> Seq<FileAnswerView> {
    answers.map_values(|answer: FileAnswer| answer@)
}

/// Whether `path` lies in the directory `root` or is `root` itself: `path`
/// begins with the characters of `root`, and `root` ends where a component of
/// `path` ends. Both are canonical paths with `/` between their components.
pub open spec fn is_under(root: Seq<char>, path: Seq<char>) -> bool {
    begins_with(path, root) && (root.len() == 0 || root.len() == path.len() || root.last() == '/'
        || path[root.len() as int] == '/')
}

/// The guard goes by whole components. Of the paths that begin with the
/// characters of a root that does not end in `/`, those lie under it in
/// which nothing follows the root or a `/` does: a neighbour of the root
/// whose name begins with the name of the root lies outside.
pub proof fn lemma_is_under_by_components(root: Seq<char>, rest: Seq<char>)
    requires
        root.len() > 0,
        root.last() != '/',
    ensures
        is_under(root, root + rest) == (rest.len() == 0 || rest[0] == '/'),
{
    let path = root + rest;
    assert(path.take(root.len() as int) =~= root);
    if rest.len() > 0 {
        assert(path[root.len() as int] == rest[0]);
    }
}

/// The request path without its leading `/`, if it has one.
pub open spec fn relative_path(path: Seq<char>) -> Seq<char> {
    if path.len() > 0 && path[0] == '/' {
        path.skip(1)
    } else {
        path
    }
}

/// How far the search for the file of a request path has come.
pub enum Resolution {
    /// The answer to this question is needed.
    Ask(FileQueryView),
    /// The file to send and its length.
    Found { path: Seq<char>, length: u64 },
    /// There is no file to send; the status says why.
    Failed(HttpStatus),
}

/// The search for the file of the request path `path` below `serve_path`,
/// after the lookups so far were answered with `answers`.
///
/// The first lookup asks whether the path is a directory. The second asks
/// for the canonical path, of the index file where the first answer was yes.
/// A path without a canonical form is not found, and neither is one whose
/// canonical form lies outside `serve_path`, whatever it names. The third
/// lookup asks for the length of the file; that it cannot be had is a fault of
/// the server.
pub open spec fn resolution(
    path: Seq<char>,
    serve_path: Seq<char>,
    index_file_name: Seq<char>,
    answers: Seq<FileAnswerView>,
) -> Resolution {
    let relative = relative_path(path);
    if answers.len() == 0 {
        Resolution::Ask(FileQueryView::IsDirectory { relative })
    } else if answers.len() == 1 {
        Resolution::Ask(
            FileQueryView::Canonical {
                relative,
                index: if answers[0] == FileAnswerView::Directory(true) {
                    Some(index_file_name)
                } else {
                    None
                },
            },
        )
    } else {
        match answers[1] {
            FileAnswerView::Canonical(Some(canonical)) => if !is_under(serve_path, canonical) {
                Resolution::Failed(HttpStatus::FileNotFound)
            } else if answers.len() == 2 {
                Resolution::Ask(FileQueryView::Length { path: canonical })
            } else {
                match answers[2] {
                    FileAnswerView::Length(Some(length)) => Resolution::Found {
                        path: canonical,
                        length,
                    },
                    _ => Resolution::Failed(HttpStatus::_InternalServerError),
                }
            },
            _ => Resolution::Failed(HttpStatus::FileNotFound),
        }
    }
}

/// How many answers the search has used when it has ended: two where the
/// canonical path decided, three where the length did.
pub open spec fn resolution_used(serve_path: Seq<char>, answers: Seq<FileAnswerView>) -> int {
    if answers.len() >= 2 && (answers[1] matches FileAnswerView::Canonical(Some(canonical))
        && is_under(serve_path, canonical)) {
        3
    } else {
        2
    }
}

/// Whether the canonical path `path` lies in the directory `root` or is
/// `root` itself.
pub fn path_is_under(root: &str, path: &str) -> (under: bool)
    ensures
        under == is_under(root@, path@),
{
    if !starts_with(path, root) {
        return false;
    }
    let length = root.unicode_len();
    if length == 0 || length == path.unicode_len() {
        return true;
    }
    root.get_char(length - 1) == '/' || path.get_char(length) == '/'
}

/// The headers of a response whose body holds `content_length` bytes: the
/// one header `Content-Length`.
pub open spec fn content_length_headers(content_length: u64) -> Seq<HeaderView> {
    seq![
        HeaderView {
            field_name: "Content-Length"@,
            field_value: decimal(content_length as nat),
        },
    ]
}

/// The response of a status whose body is its reason phrase.
pub open spec fn reason_response(
    status: HttpStatus,
    meta_data: HttpConnectionMetaData,
) -> ResponseView {
    ResponseView {
        status,
        meta_data,
        headers: content_length_headers(status.reason().len() as u64),
        content: ContentView::ReasonPhrase,
    }
}

/// How far the building of a response has come, as a mathematical value.
pub enum ResponseStepView {
    /// The answer to this question is needed.
    Lookup(FileQueryView),
    /// The response.
    Ready(ResponseView),
}

/// The response that reports `status`, after the lookups so far were answered
/// with `answers`.
///
/// With the status 404 the page at `not_found_path` is sent, if the one
/// lookup, for its length, succeeds. Every other response has the reason
/// phrase of its status for a body.
pub open spec fn error_response(
    status: HttpStatus,
    meta_data: HttpConnectionMetaData,
    not_found_path: Seq<char>,
    answers: Seq<FileAnswerView>,
) -> ResponseStepView {
    if status != HttpStatus::FileNotFound {
        ResponseStepView::Ready(reason_response(status, meta_data))
    } else if answers.len() == 0 {
        ResponseStepView::Lookup(FileQueryView::Length { path: not_found_path })
    } else {
        match answers[0] {
            FileAnswerView::Length(Some(length)) => ResponseStepView::Ready(
                ResponseView {
                    status,
                    meta_data,
                    headers: content_length_headers(length),
                    content: ContentView::File { path: not_found_path, length },
                },
            ),
            _ => ResponseStepView::Ready(reason_response(status, meta_data)),
        }
    }
}

/// The path that a request target asks for: the path of an origin form or
/// of an absolute form, `/` for an absolute form without a path. The other
/// forms ask for no path.
pub open spec fn requested_path(target: TargetView) -> Option<Seq<char>> {
    match target {
        TargetView::OriginForm { path, .. } => Some(path),
        TargetView::AbsoluteForm { path: Some(path), .. } => Some(path),
        TargetView::AbsoluteForm { path: None, .. } => Some("/"@),
        _ => None,
    }
}

/// The response that sends the file of the request path `path`, or reports
/// why there is none.
pub open spec fn file_response(
    path: Seq<char>,
    meta_data: HttpConnectionMetaData,
    config: ConfigView,
    answers: Seq<FileAnswerView>,
) -> ResponseStepView {
    match resolution(path, config.serve_path, config.index_file_name, answers) {
        Resolution::Ask(query) => ResponseStepView::Lookup(query),
        Resolution::Found { path, length } => ResponseStepView::Ready(
            ResponseView {
                status: HttpStatus::Okay,
                meta_data,
                headers: content_length_headers(length),
                content: ContentView::File { path, length },
            },
        ),
        Resolution::Failed(status) => error_response(
            status,
            meta_data,
            config.file_not_found_path,
            answers.skip(resolution_used(config.serve_path, answers)),
        ),
    }
}

/// The same step, its response without a body.
pub open spec fn without_body(step: ResponseStepView) -> ResponseStepView {
    match step {
        ResponseStepView::Lookup(query) => ResponseStepView::Lookup(query),
        ResponseStepView::Ready(response) => ResponseStepView::Ready(
            ResponseView { content: ContentView::Empty, ..response },
        ),
    }
}

/// The response to `request` with its body, after the lookups so far were
/// answered with `answers`.
///
/// A target that asks for no path is a bad request, before anything else is
/// looked at. GET and HEAD ask for the file of the path. A method that is
/// not known is not implemented, and any other method is not allowed;
/// neither looks at the file system.
pub open spec fn full_response(
    request: RequestView,
    config: ConfigView,
    answers: Seq<FileAnswerView>,
) -> ResponseStepView {
    match requested_path(request.request_target) {
        None => error_response(
            HttpStatus::BadRequest,
            request.meta_data,
            config.file_not_found_path,
            answers,
        ),
        Some(path) => match request.method {
            HttpMethod::GET | HttpMethod::HEAD => file_response(
                path,
                request.meta_data,
                config,
                answers,
            ),
            HttpMethod::UnknownMethod => error_response(
                HttpStatus::NotImplemented,
                request.meta_data,
                config.file_not_found_path,
                answers,
            ),
            _ => error_response(
                HttpStatus::MethodNotAllowed,
                request.meta_data,
                config.file_not_found_path,
                answers,
            ),
        },
    }
}

/// The response to `request`, after the lookups so far were answered with
/// `answers`: the full response, which for HEAD is sent without its body.
pub open spec fn response(
    request: RequestView,
    config: ConfigView,
    answers: Seq<FileAnswerView>,
) -> ResponseStepView {
    if request.method == HttpMethod::HEAD {
        without_body(full_response(request, config, answers))
    } else {
        full_response(request, config, answers)
    }
}

/// A file is only ever found inside the served directory.
pub proof fn lemma_found_is_under_root(
    path: Seq<char>,
    serve_path: Seq<char>,
    index_file_name: Seq<char>,
    answers: Seq<FileAnswerView>,
)
    ensures
        resolution(path, serve_path, index_file_name, answers) matches Resolution::Found {
            path: found,
            ..
        } ==> is_under(serve_path, found),
{
}

/// A request path whose canonical form lies outside the served directory is
/// not found, whatever the path is, whether it is a directory, and whatever
/// the later lookups say.
pub proof fn lemma_escape_is_not_found(
    path: Seq<char>,
    serve_path: Seq<char>,
    index_file_name: Seq<char>,
    answers: Seq<FileAnswerView>,
    canonical: Seq<char>,
)
    requires
        answers.len() >= 2,
        answers[1] == FileAnswerView::Canonical(Some(canonical)),
        !is_under(serve_path, canonical),
    ensures
        resolution(path, serve_path, index_file_name, answers) == Resolution::Failed(
            HttpStatus::FileNotFound,
        ),
{
}

/// A response sends no file from outside the served directory with the
/// status 200.
pub proof fn lemma_served_file_is_under_root(
    request: RequestView,
    config: ConfigView,
    answers: Seq<FileAnswerView>,
)
    ensures
        response(request, config, answers) matches ResponseStepView::Ready(ready) ==> (
        ready.content matches ContentView::File { path, .. } ==> (ready.status == HttpStatus::Okay
            ==> is_under(config.serve_path, path))),
{
}

/// The search depends on nothing but what it is given: asked again with a
/// path, a root, an index name and answers that hold the same values, it
/// gives the same result.
pub proof fn lemma_resolution_is_repeatable(
    path: &str,
    serve_path: &str,
    index_file_name: &str,
    answers: Seq<FileAnswer>,
    path_again: &str,
    serve_path_again: &str,
    index_file_name_again: &str,
    answers_again: Seq<FileAnswer>,
)
    requires
        path@ == path_again@,
        serve_path@ == serve_path_again@,
        index_file_name@ == index_file_name_again@,
        answers_view(answers) == answers_view(answers_again),
    ensures
        resolution(path@, serve_path@, index_file_name@, answers_view(answers)) == resolution(
            path_again@,
            serve_path_again@,
            index_file_name_again@,
            answers_view(answers_again),
        ),
{
}

/// Once the search has ended, answers that are handed in on top change
/// nothing: the same inputs give the same result, however often it is asked
/// for.
pub proof fn lemma_resolution_settled(
    path: Seq<char>,
    serve_path: Seq<char>,
    index_file_name: Seq<char>,
    answers: Seq<FileAnswerView>,
    more: Seq<FileAnswerView>,
)
    requires
        !(resolution(path, serve_path, index_file_name, answers) is Ask),
    ensures
        resolution(path, serve_path, index_file_name, answers + more) == resolution(
            path,
            serve_path,
            index_file_name,
            answers,
        ),
{
    let longer = answers + more;
    assert(longer[0] == answers[0]);
    assert(longer[1] == answers[1]);
    if answers.len() > 2 {
        assert(longer[2] == answers[2]);
    }
}

/// Once a response is ready, answers that are handed in on top change
/// nothing.
pub proof fn lemma_response_settled(
    request: RequestView,
    config: ConfigView,
    answers: Seq<FileAnswerView>,
    more: Seq<FileAnswerView>,
)
    requires
        response(request, config, answers) is Ready,
    ensures
        response(request, config, answers + more) == response(request, config, answers),
{
    let longer = answers + more;
    if answers.len() > 0 {
        assert(longer[0] == answers[0]);
    }
    match requested_path(request.request_target) {
        Some(path) => {
            if request.method == HttpMethod::GET || request.method == HttpMethod::HEAD {
                let found = resolution(path, config.serve_path, config.index_file_name, answers);
                lemma_resolution_settled(
                    path,
                    config.serve_path,
                    config.index_file_name,
                    answers,
                    more,
                );
                assert(longer[1] == answers[1]);
                let used = resolution_used(config.serve_path, answers);
                assert(resolution_used(config.serve_path, longer) == used);
                if found is Failed {
                    let rest = answers.skip(used);
                    if found->Failed_0 == HttpStatus::FileNotFound {
                        assert(rest.len() > 0);
                        assert(longer.skip(used)[0] == rest[0]);
                    }
                }
            }
        },
        None => {},
    }
}

/// Only GET and HEAD look at the file system, and only for a target that
/// asks for a path: every other request is answered without a lookup.
pub proof fn lemma_refusals_need_no_lookup(
    request: RequestView,
    config: ConfigView,
    answers: Seq<FileAnswerView>,
)
    requires
        response(request, config, answers) is Lookup,
    ensures
        request.method == HttpMethod::GET || request.method == HttpMethod::HEAD,
        requested_path(request.request_target) is Some,
{
}

/// Three answers are enough for any response.
pub proof fn lemma_three_answers_suffice(
    request: RequestView,
    config: ConfigView,
    answers: Seq<FileAnswerView>,
)
    requires
        answers.len() >= 3,
    ensures
        response(request, config, answers) is Ready,
{
}

/// The response to HEAD is the response to GET without the body: the same
/// lookups, the same status and the same headers, so that `Content-Length`
/// is the length that GET would send.
pub proof fn lemma_head_mirrors_get(
    get: RequestView,
    head: RequestView,
    config: ConfigView,
    answers: Seq<FileAnswerView>,
)
    requires
        get.method == HttpMethod::GET,
        head == (RequestView { method: HttpMethod::HEAD, ..get }),
    ensures
        response(head, config, answers) == without_body(response(get, config, answers)),
        response(head, config, answers) matches ResponseStepView::Ready(ready) ==> ready.content
            == ContentView::Empty,
{
}

/// The lines of the headers, one after the other.
pub open spec fn header_lines(headers: Seq<HeaderView>) -> Seq<char>
    decreases headers.len(),
{
    if headers.len() == 0 {
        Seq::empty()
    } else {
        header_lines(headers.drop_last()) + headers.last().line()
    }
}

impl ResponseView {
    /// The status line without its line ending: version, code and reason
    /// phrase, with a space between them.
    pub open spec fn status_line(self) -> Seq<char> {
        self.meta_data.http_version.text() + " "@ + decimal(self.status.code() as nat) + " "@
            + self.status.reason()
    }

    /// What is sent before the body: the status line, the header lines and
    /// an empty line.
    pub open spec fn head(self) -> Seq<char> {
        self.status_line() + "\r\n"@ + header_lines(self.headers) + "\r\n"@
    }
}

/// How far the search for a file has come.
#[derive(Debug, PartialEq, Eq)]
pub enum ContentStep {
    /// The answer to this question is needed.
    Lookup(FileQuery),
    /// The file to send and its length.
    Found { path: String, length: u64 },
    /// There is no file to send; the status says why.
    Failed(HttpStatus),
}

impl View for ContentStep {
    type V = Resolution;

    open spec fn view(&self) -> Resolution {
        match *self {
            ContentStep::Lookup(query) => Resolution::Ask(query@),
            ContentStep::Found { path, length } => Resolution::Found { path: path@, length },
            ContentStep::Failed(status) => Resolution::Failed(status),
        }
    }
}

/// How far the building of a response has come.
#[derive(Debug, PartialEq, Eq)]
pub enum ResponseStep {
    /// The answer to this question is needed.
    Lookup(FileQuery),
    /// The response.
    Ready(HttpResponse),
}

impl View for ResponseStep {
    type V = ResponseStepView;

    open spec fn view(&self) -> ResponseStepView {
        match *self {
            ResponseStep::Lookup(query) => ResponseStepView::Lookup(query@),
            ResponseStep::Ready(response) => ResponseStepView::Ready(response@),
        }
    }
}

fn resolve(path: &str, serve_path: &str, index_file_name: &str, answers: &[FileAnswer]) -> (found: (
    ContentStep,
    usize,
))
    ensures
        found.0@ == resolution(path@, serve_path@, index_file_name@, answers_view(answers@)),
        !(found.0 is Lookup) ==> found.1 == resolution_used(serve_path@, answers_view(answers@))
            && found.1 <= answers.len(),
{
    let length = path.unicode_len();
    let relative = if length > 0 && path.get_char(0) == '/' {
        path.substring_char(1, length)
    } else {
        path
    };
    assert(relative@ =~= relative_path(path@));
    if answers.len() == 0 {
        return (
            ContentStep::Lookup(FileQuery::IsDirectory { relative: String::from_str(relative) }),
            0,
        );
    }
    if answers.len() == 1 {
        let index = match &answers[0] {
            FileAnswer::Directory(true) => Some(String::from_str(index_file_name)),
            _ => None,
        };
        return (
            ContentStep::Lookup(
                FileQuery::Canonical { relative: String::from_str(relative), index },
            ),
            0,
        );
    }
    let canonical = match &answers[1] {
        FileAnswer::Canonical(Some(canonical)) => canonical,
        _ => {
            return (ContentStep::Failed(HttpStatus::FileNotFound), 2);
        },
    };
    if !path_is_under(serve_path, canonical.as_str()) {
        return (ContentStep::Failed(HttpStatus::FileNotFound), 2);
    }
    if answers.len() == 2 {
        return (ContentStep::Lookup(FileQuery::Length { path: canonical.clone() }), 0);
    }
    match &answers[2] {
        FileAnswer::Length(Some(length)) => (
            ContentStep::Found { path: canonical.clone(), length: *length },
            3,
        ),
        _ => (ContentStep::Failed(HttpStatus::_InternalServerError), 3),
    }
}

impl HttpResponse {
    /// Builds the response to `request`, as far as `answers` allow: the
    /// answers to the lookups that the earlier calls for this request have
    /// named, in their order.
    ///
    /// The caller begins with no answers. While the result names a lookup,
    /// the caller makes it, adds its answer and calls again; no request
    /// needs more than three.
    pub fn new(request: &HttpRequest, config: &Config, answers: &[FileAnswer]) -> (step:
        ResponseStep)
        ensures
            step@ == response(request@, config@, answers_view(answers@)),
    {
        let step = Self::with_body(request, config, answers);
        if request.method == HttpMethod::HEAD {
            match step {
                ResponseStep::Lookup(query) => ResponseStep::Lookup(query),
                ResponseStep::Ready(response) => ResponseStep::Ready(
                    HttpResponse {
                        status: response.status,
                        meta_data: response.meta_data,
                        headers: response.headers,
                        content: HttpMessageContent::Empty,
                    },
                ),
            }
        } else {
            step
        }
    }

    fn with_body(request: &HttpRequest, config: &Config, answers: &[FileAnswer]) -> (step:
        ResponseStep)
        ensures
            step@ == full_response(request@, config@, answers_view(answers@)),
    {
        let path: &str = match &request.request_target {
            HttpRequestTarget::OriginForm { path, .. } => path.as_str(),
            HttpRequestTarget::AbsoluteForm { path: Some(path), .. } => path.as_str(),
            HttpRequestTarget::AbsoluteForm { path: None, .. } => "/",
            _ => {
                return Self::generate_error_response(
                    HttpStatus::BadRequest,
                    request.meta_data,
                    config,
                    answers,
                );
            },
        };
        match request.method {
            HttpMethod::GET | HttpMethod::HEAD => {},
            HttpMethod::UnknownMethod => {
                return Self::generate_error_response(
                    HttpStatus::NotImplemented,
                    request.meta_data,
                    config,
                    answers,
                );
            },
            _ => {
                return Self::generate_error_response(
                    HttpStatus::MethodNotAllowed,
                    request.meta_data,
                    config,
                    answers,
                );
            },
        }
        let (found, used) = resolve(
            path,
            config.serve_path.as_str(),
            config.index_file_name.as_str(),
            answers,
        );
        match found {
            ContentStep::Lookup(query) => ResponseStep::Lookup(query),
            ContentStep::Found { path, length } => ResponseStep::Ready(
                HttpResponse {
                    status: HttpStatus::Okay,
                    meta_data: request.meta_data,
                    headers: Self::generate_response_headers(length),
                    content: HttpMessageContent::File { path, length },
                },
            ),
            ContentStep::Failed(status) => {
                let rest = &answers[used..answers.len()];
                assert(answers_view(rest@) =~= answers_view(answers@).skip(used as int));
                Self::generate_error_response(status, request.meta_data, config, rest)
            },
        }
    }

    /// Builds the response that reports `status`, as far as `answers` allow.
    ///
    /// Only the status 404 needs a lookup: the length of the page at
    /// `config.file_not_found_path`, which is the body if it can be had.
    /// Else the body is the reason phrase.
    pub fn generate_error_response(
        status: HttpStatus,
        meta_data: HttpConnectionMetaData,
        config: &Config,
        answers: &[FileAnswer],
    ) -> (step: ResponseStep)
        ensures
            step@ == error_response(
                status,
                meta_data,
                config@.file_not_found_path,
                answers_view(answers@),
            ),
    {
        if status == HttpStatus::FileNotFound {
            if answers.len() == 0 {
                return ResponseStep::Lookup(
                    FileQuery::Length { path: config.file_not_found_path.clone() },
                );
            }
            match &answers[0] {
                FileAnswer::Length(Some(length)) => {
                    return ResponseStep::Ready(
                        HttpResponse {
                            status,
                            meta_data,
                            headers: Self::generate_response_headers(*length),
                            content: HttpMessageContent::File {
                                path: config.file_not_found_path.clone(),
                                length: *length,
                            },
                        },
                    );
                },
                _ => {},
            }
        }
        ResponseStep::Ready(
            HttpResponse {
                status,
                meta_data,
                headers: Self::generate_response_headers(status.get_reason_statement_len()),
                content: HttpMessageContent::ReasonPhrase,
            },
        )
    }

    /// Searches for the file of the request path `path` below `serve_path`,
    /// as far as `answers` allow.
    ///
    /// A file is only ever found below `serve_path`: a path whose canonical
    /// form lies elsewhere is reported as not found, whether it exists or
    /// not.
    pub fn pre_generate_message_content(
        path: &str,
        serve_path: &str,
        index_file_name: &str,
        answers: &[FileAnswer],
    ) -> (step: ContentStep)
        ensures
            step@ == resolution(path@, serve_path@, index_file_name@, answers_view(answers@)),
    {
        resolve(path, serve_path, index_file_name, answers).0
    }

    /// Writes the status line, without its line ending.
    pub fn generate_status_line(&self) -> (line: String)
        ensures
            line@ == self@.status_line(),
    {
        let mut line = self.meta_data.http_version.to_string();
        line.append(" ");
        line.append(format_decimal(self.status.as_code() as u64).as_str());
        line.append(" ");
        line.append(self.status.as_reason_statement());
        line
    }

    /// Writes what is sent before the body. The body follows it on the
    /// wire: the bytes of the file, the reason phrase, or nothing, as
    /// `content` says.
    pub fn head(&self) -> (text: String)
        ensures
            text@ == self@.head(),
    {
        let mut text = self.generate_status_line();
        text.append("\r\n");
        let ghost start = text@;
        let mut i: usize = 0;
        while i < self.headers.len()
            invariant
                i <= self.headers.len(),
                text@ == start + header_lines(headers_view(self.headers@).take(i as int)),
            decreases self.headers.len() - i,
        {
            let ghost before = headers_view(self.headers@).take(i as int);
            let ghost after = headers_view(self.headers@).take(i + 1);
            assert(after.drop_last() =~= before);
            assert(after.last() == self.headers[i as int]@);
            text.append(self.headers[i].to_string().as_str());
            assert(text@ =~= start + header_lines(after));
            i += 1;
        }
        assert(headers_view(self.headers@).take(i as int) =~= headers_view(self.headers@));
        text.append("\r\n");
        text
    }

    /// The headers of a response whose body holds `content_length` bytes.
    pub fn generate_response_headers(content_length: u64) -> (headers: Vec<HttpHeader>)
        ensures
            headers_view(headers@) == content_length_headers(content_length),
    {
        let mut headers = Vec::new();
        headers.push(
            HttpHeader {
                field_name: String::from_str("Content-Length"),
                field_value: format_decimal(content_length),
            },
        );
        assert(headers_view(headers@) =~= content_length_headers(content_length));
        headers
    }
}

} // verus!
