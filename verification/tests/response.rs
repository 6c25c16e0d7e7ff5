use throwscape::configuration::Config;
use throwscape::http::request::{
    HttpConnectionMetaData, HttpHeader, HttpRequestTarget, HttpScheme, HttpVersion,
};
use throwscape::http::response::{
    path_is_under, ContentStep, FileAnswer, FileQuery, HttpMessageContent, HttpStatus,
    ResponseStep,
};
use throwscape::http::{HttpMethod, HttpRequest, HttpResponse};

const ROOT: &str = "/srv/www";

fn config() -> Config {
    Config {
        port: 8080,
        serve_path: String::from(ROOT),
        timeout: 30,
        index_file_name: String::from("index.html"),
        file_not_found_path: String::from("/srv/pages/404.html"),
        is_in_debug_mode: false,
    }
}

fn meta() -> HttpConnectionMetaData {
    HttpConnectionMetaData { http_version: HttpVersion { major: 1, minor: 1 } }
}

fn request(method: HttpMethod, path: &str) -> HttpRequest {
    HttpRequest::new(
        method,
        HttpRequestTarget::OriginForm { path: String::from(path), query: None },
        HttpVersion { major: 1, minor: 1 },
        Vec::new(),
    )
}

fn content_length(value: &str) -> Vec<HttpHeader> {
    vec![HttpHeader {
        field_name: String::from("Content-Length"),
        field_value: String::from(value),
    }]
}

fn canonical(path: &str) -> FileAnswer {
    FileAnswer::Canonical(Some(String::from(path)))
}

#[test]
fn request_translates_to_correct_file_path() {
    let index_file_name = "index.html";
    let serve_path = ROOT;
    let html_path = "/example/";

    let expected = String::from("/srv/www/example/index.html");

    let mut answers = Vec::new();
    assert_eq!(
        HttpResponse::pre_generate_message_content(html_path, serve_path, index_file_name, &answers),
        ContentStep::Lookup(FileQuery::IsDirectory { relative: String::from("example/") })
    );
    answers.push(FileAnswer::Directory(true));
    assert_eq!(
        HttpResponse::pre_generate_message_content(html_path, serve_path, index_file_name, &answers),
        ContentStep::Lookup(FileQuery::Canonical {
            relative: String::from("example/"),
            index: Some(String::from(index_file_name)),
        })
    );
    answers.push(canonical("/srv/www/example/index.html"));
    assert_eq!(
        HttpResponse::pre_generate_message_content(html_path, serve_path, index_file_name, &answers),
        ContentStep::Lookup(FileQuery::Length { path: expected.clone() })
    );
    answers.push(FileAnswer::Length(Some(77)));
    let result =
        HttpResponse::pre_generate_message_content(html_path, serve_path, index_file_name, &answers);
    assert_eq!(result, ContentStep::Found { path: expected, length: 77 });
}

#[test]
fn file_system_leaks_are_caught() {
    let index_file_name = "index.html";
    let serve_path = ROOT;
    let html_path = "../";

    let expected = ContentStep::Failed(HttpStatus::FileNotFound);

    let answers = vec![FileAnswer::Directory(true), canonical("/srv/index.html")];
    let result =
        HttpResponse::pre_generate_message_content(html_path, serve_path, index_file_name, &answers);
    assert_eq!(result, expected);

    let answers = vec![FileAnswer::Directory(true), FileAnswer::Canonical(None)];
    let result =
        HttpResponse::pre_generate_message_content(html_path, serve_path, index_file_name, &answers);
    assert_eq!(result, expected);
}

#[test]
fn invalid_file_returns_file_not_found() {
    let index_file_name = "invalid_html_file.html.stupid";
    let serve_path = ROOT;
    let html_path = "/example/";

    let expected = ContentStep::Failed(HttpStatus::FileNotFound);

    let mut answers = vec![FileAnswer::Directory(true)];
    assert_eq!(
        HttpResponse::pre_generate_message_content(html_path, serve_path, index_file_name, &answers),
        ContentStep::Lookup(FileQuery::Canonical {
            relative: String::from("example/"),
            index: Some(String::from(index_file_name)),
        })
    );
    answers.push(FileAnswer::Canonical(None));
    let result =
        HttpResponse::pre_generate_message_content(html_path, serve_path, index_file_name, &answers);
    assert_eq!(result, expected);
}

#[test]
fn generates_valid_status_line() {
    let version = HttpVersion { major: 1, minor: 1 };
    let status_code = HttpStatus::Okay;

    let http_response = HttpResponse {
        status: status_code,
        meta_data: HttpConnectionMetaData { http_version: version },
        headers: vec![],
        content: HttpMessageContent::Empty,
    };

    let expected = String::from("HTTP/1.1 200 OK");
    let result = http_response.generate_status_line();

    assert_eq!(expected, result);
}

#[test]
fn generates_valid_headers() {
    let result = HttpResponse::generate_response_headers(123);
    assert!(result.len() > 0);
    let mut content_length_header = &HttpHeader {
        field_name: String::new(),
        field_value: String::new(),
    }; // invalid
    for header in result.iter() {
        if header.field_name == "Content-Length" {
            content_length_header = header;
        }
    }
    assert_eq!(
        content_length_header,
        &HttpHeader {
            field_name: "Content-Length".to_string(),
            field_value: "123".to_string()
        }
    );
}

#[test]
fn http_error_is_error() {
    assert_eq!(HttpStatus::FileNotFound.is_error(), true);
    assert_eq!(HttpStatus::MethodNotAllowed.is_error(), true);
    assert_eq!(HttpStatus::BadRequest.is_error(), true);
}

#[test]
fn http_ok_is_no_error() {
    assert_eq!(HttpStatus::Okay.is_error(), false);
}

#[test]
fn every_status_has_its_code_and_reason() {
    let all = [
        (HttpStatus::Okay, 200, "OK"),
        (HttpStatus::BadRequest, 400, "Bad Request"),
        (HttpStatus::FileNotFound, 404, "Not Found"),
        (HttpStatus::MethodNotAllowed, 405, "Method Not Allowed"),
        (HttpStatus::_InternalServerError, 500, "Internal Server Error"),
        (HttpStatus::NotImplemented, 501, "Not Implemented"),
    ];
    for (status, code, reason) in all {
        assert_eq!(status.as_code(), code);
        assert_eq!(status.as_reason_statement(), reason);
        assert_eq!(status.get_reason_statement_len(), reason.len() as u64);
        assert_eq!(status.is_error(), code != 200);
    }
}

#[test]
fn a_plain_file_is_served_without_the_index() {
    let answers = vec![FileAnswer::Directory(false)];
    assert_eq!(
        HttpResponse::pre_generate_message_content("/a.txt", ROOT, "index.html", &answers),
        ContentStep::Lookup(FileQuery::Canonical { relative: String::from("a.txt"), index: None })
    );
}

#[test]
fn one_leading_slash_is_stripped() {
    let none: Vec<FileAnswer> = Vec::new();
    for (path, relative) in [("/a/b", "a/b"), ("a/b", "a/b"), ("//etc/passwd", "/etc/passwd"),
        ("/", ""), ("", ""), ("../", "../")]
    {
        assert_eq!(
            HttpResponse::pre_generate_message_content(path, ROOT, "index.html", &none),
            ContentStep::Lookup(FileQuery::IsDirectory { relative: String::from(relative) }),
            "{:?}",
            path
        );
    }
}

#[test]
fn a_path_that_looks_absolute_is_held_to_the_root() {
    let answers = vec![FileAnswer::Directory(false), canonical("/etc/passwd"),
        FileAnswer::Length(Some(1))];
    assert_eq!(
        HttpResponse::pre_generate_message_content("//etc/passwd", ROOT, "index.html", &answers),
        ContentStep::Failed(HttpStatus::FileNotFound)
    );
}

#[test]
fn a_sibling_with_the_root_as_prefix_is_outside() {
    assert!(path_is_under("/srv/www", "/srv/www"));
    assert!(path_is_under("/srv/www", "/srv/www/a"));
    assert!(path_is_under("/srv/www", "/srv/www/a/b.html"));
    assert!(!path_is_under("/srv/www", "/srv/www2"));
    assert!(!path_is_under("/srv/www", "/srv/www2/a"));
    assert!(!path_is_under("/srv/www", "/srv/ww"));
    assert!(!path_is_under("/srv/www", "/srv"));
    assert!(!path_is_under("/srv/www", "/etc/passwd"));
    assert!(!path_is_under("/srv/www", ""));
    assert!(path_is_under("/", "/etc/passwd"));
    assert!(path_is_under("/", "/"));
    assert!(path_is_under("/srv/www/", "/srv/www/a"));
    assert!(path_is_under("", "/anything"));
    let answers = vec![FileAnswer::Directory(false), canonical("/srv/www2/secret")];
    assert_eq!(
        HttpResponse::pre_generate_message_content("/x", ROOT, "index.html", &answers),
        ContentStep::Failed(HttpStatus::FileNotFound)
    );
}

#[test]
fn a_file_without_metadata_is_a_server_error() {
    let answers = vec![FileAnswer::Directory(false), canonical("/srv/www/a"),
        FileAnswer::Length(None)];
    assert_eq!(
        HttpResponse::pre_generate_message_content("/a", ROOT, "index.html", &answers),
        ContentStep::Failed(HttpStatus::_InternalServerError)
    );
    assert_eq!(
        HttpResponse::new(&request(HttpMethod::GET, "/a"), &config(), &answers),
        ResponseStep::Ready(HttpResponse {
            status: HttpStatus::_InternalServerError,
            meta_data: meta(),
            headers: content_length("21"),
            content: HttpMessageContent::ReasonPhrase,
        })
    );
}

#[test]
fn an_answer_of_another_kind_counts_as_a_failed_lookup() {
    let answers = vec![FileAnswer::Length(Some(1))];
    assert_eq!(
        HttpResponse::pre_generate_message_content("/a", ROOT, "index.html", &answers),
        ContentStep::Lookup(FileQuery::Canonical { relative: String::from("a"), index: None })
    );
    let answers = vec![FileAnswer::Directory(false), FileAnswer::Directory(true)];
    assert_eq!(
        HttpResponse::pre_generate_message_content("/a", ROOT, "index.html", &answers),
        ContentStep::Failed(HttpStatus::FileNotFound)
    );
    let answers = vec![FileAnswer::Directory(false), canonical("/srv/www/a"),
        canonical("/srv/www/a")];
    assert_eq!(
        HttpResponse::pre_generate_message_content("/a", ROOT, "index.html", &answers),
        ContentStep::Failed(HttpStatus::_InternalServerError)
    );
}

#[test]
fn get_sends_the_file() {
    let get = request(HttpMethod::GET, "/example/");
    let mut answers = Vec::new();
    assert_eq!(
        HttpResponse::new(&get, &config(), &answers),
        ResponseStep::Lookup(FileQuery::IsDirectory { relative: String::from("example/") })
    );
    answers.push(FileAnswer::Directory(true));
    assert_eq!(
        HttpResponse::new(&get, &config(), &answers),
        ResponseStep::Lookup(FileQuery::Canonical {
            relative: String::from("example/"),
            index: Some(String::from("index.html")),
        })
    );
    answers.push(canonical("/srv/www/example/index.html"));
    assert_eq!(
        HttpResponse::new(&get, &config(), &answers),
        ResponseStep::Lookup(FileQuery::Length {
            path: String::from("/srv/www/example/index.html")
        })
    );
    answers.push(FileAnswer::Length(Some(1234)));
    assert_eq!(
        HttpResponse::new(&get, &config(), &answers),
        ResponseStep::Ready(HttpResponse {
            status: HttpStatus::Okay,
            meta_data: meta(),
            headers: content_length("1234"),
            content: HttpMessageContent::File {
                path: String::from("/srv/www/example/index.html"),
                length: 1234,
            },
        })
    );
}

#[test]
fn head_sends_the_length_without_the_body() {
    let answers = vec![FileAnswer::Directory(false), canonical("/srv/www/a.txt"),
        FileAnswer::Length(Some(1234))];
    assert_eq!(
        HttpResponse::new(&request(HttpMethod::HEAD, "/a.txt"), &config(), &answers),
        ResponseStep::Ready(HttpResponse {
            status: HttpStatus::Okay,
            meta_data: meta(),
            headers: content_length("1234"),
            content: HttpMessageContent::Empty,
        })
    );
}

#[test]
fn head_asks_what_get_asks_and_answers_without_body() {
    let paths = ["/", "/a", "../", "//x"];
    let logs: Vec<Vec<FileAnswer>> = vec![
        vec![],
        vec![FileAnswer::Directory(true)],
        vec![FileAnswer::Directory(false), FileAnswer::Canonical(None)],
        vec![FileAnswer::Directory(false), FileAnswer::Canonical(None), FileAnswer::Length(None)],
        vec![FileAnswer::Directory(false), FileAnswer::Canonical(None),
            FileAnswer::Length(Some(9))],
        vec![FileAnswer::Directory(false), canonical("/etc/x"), FileAnswer::Length(Some(9))],
        vec![FileAnswer::Directory(false), canonical("/srv/www/x")],
        vec![FileAnswer::Directory(false), canonical("/srv/www/x"), FileAnswer::Length(None)],
        vec![FileAnswer::Directory(false), canonical("/srv/www/x"), FileAnswer::Length(Some(5))],
    ];
    for path in paths {
        for answers in logs.iter() {
            let get = HttpResponse::new(&request(HttpMethod::GET, path), &config(), answers);
            let head = HttpResponse::new(&request(HttpMethod::HEAD, path), &config(), answers);
            match (get, head) {
                (ResponseStep::Lookup(a), ResponseStep::Lookup(b)) => assert_eq!(a, b),
                (ResponseStep::Ready(a), ResponseStep::Ready(b)) => {
                    assert_eq!(a.status, b.status);
                    assert_eq!(a.headers, b.headers);
                    assert_eq!(a.meta_data, b.meta_data);
                    assert_eq!(b.content, HttpMessageContent::Empty);
                }
                (a, b) => panic!("{:?} and {:?}", a, b),
            }
        }
    }
}

#[test]
fn what_is_not_found_gets_the_configured_page() {
    let get = request(HttpMethod::GET, "/missing");
    let mut answers = vec![FileAnswer::Directory(false), FileAnswer::Canonical(None)];
    assert_eq!(
        HttpResponse::new(&get, &config(), &answers),
        ResponseStep::Lookup(FileQuery::Length { path: String::from("/srv/pages/404.html") })
    );
    answers.push(FileAnswer::Length(Some(512)));
    assert_eq!(
        HttpResponse::new(&get, &config(), &answers),
        ResponseStep::Ready(HttpResponse {
            status: HttpStatus::FileNotFound,
            meta_data: meta(),
            headers: content_length("512"),
            content: HttpMessageContent::File {
                path: String::from("/srv/pages/404.html"),
                length: 512,
            },
        })
    );
}

#[test]
fn without_the_page_the_reason_phrase_is_the_body() {
    let answers = vec![FileAnswer::Directory(false), FileAnswer::Canonical(None),
        FileAnswer::Length(None)];
    let expected = ResponseStep::Ready(HttpResponse {
        status: HttpStatus::FileNotFound,
        meta_data: meta(),
        headers: content_length("9"),
        content: HttpMessageContent::ReasonPhrase,
    });
    assert_eq!(HttpResponse::new(&request(HttpMethod::GET, "/missing"), &config(), &answers), expected);
    let escaped = vec![FileAnswer::Directory(true), canonical("/srv/index.html"),
        FileAnswer::Length(None)];
    assert_eq!(HttpResponse::new(&request(HttpMethod::GET, "../"), &config(), &escaped), expected);
}

#[test]
fn an_escape_is_not_found_whether_the_file_exists_or_not() {
    let get = request(HttpMethod::GET, "/../../etc/passwd");
    for second in [canonical("/etc/passwd"), FileAnswer::Canonical(None)] {
        let answers = vec![FileAnswer::Directory(false), second, FileAnswer::Length(Some(3))];
        match HttpResponse::new(&get, &config(), &answers) {
            ResponseStep::Ready(response) => {
                assert_eq!(response.status, HttpStatus::FileNotFound);
                assert_eq!(
                    response.content,
                    HttpMessageContent::File {
                        path: String::from("/srv/pages/404.html"),
                        length: 3
                    }
                );
            }
            other => panic!("{:?}", other),
        }
    }
}

#[test]
fn other_methods_are_refused_without_a_lookup() {
    let none: Vec<FileAnswer> = Vec::new();
    for method in [HttpMethod::POST, HttpMethod::PUT, HttpMethod::DELETE, HttpMethod::CONNECT,
        HttpMethod::OPTIONS, HttpMethod::TRACE]
    {
        assert_eq!(
            HttpResponse::new(&request(method, "/a"), &config(), &none),
            ResponseStep::Ready(HttpResponse {
                status: HttpStatus::MethodNotAllowed,
                meta_data: meta(),
                headers: content_length("18"),
                content: HttpMessageContent::ReasonPhrase,
            })
        );
    }
    assert_eq!(
        HttpResponse::new(&request(HttpMethod::UnknownMethod, "/a"), &config(), &none),
        ResponseStep::Ready(HttpResponse {
            status: HttpStatus::NotImplemented,
            meta_data: meta(),
            headers: content_length("15"),
            content: HttpMessageContent::ReasonPhrase,
        })
    );
}

#[test]
fn a_target_without_a_path_is_a_bad_request() {
    let none: Vec<FileAnswer> = Vec::new();
    let version = HttpVersion { major: 1, minor: 0 };
    let expected = HttpResponse {
        status: HttpStatus::BadRequest,
        meta_data: HttpConnectionMetaData { http_version: version },
        headers: content_length("11"),
        content: HttpMessageContent::ReasonPhrase,
    };
    for method in [HttpMethod::GET, HttpMethod::POST, HttpMethod::UnknownMethod] {
        let asterisk = HttpRequest::new(method, HttpRequestTarget::AsteriskForm, version, vec![]);
        assert_eq!(
            HttpResponse::new(&asterisk, &config(), &none),
            ResponseStep::Ready(expected.clone())
        );
        let authority = HttpRequest::new(
            method,
            HttpRequestTarget::AuthorityForm { authority: String::from("example.com:443") },
            version,
            vec![],
        );
        assert_eq!(
            HttpResponse::new(&authority, &config(), &none),
            ResponseStep::Ready(expected.clone())
        );
    }
    let head = HttpRequest::new(HttpMethod::HEAD, HttpRequestTarget::AsteriskForm, version, vec![]);
    assert_eq!(
        HttpResponse::new(&head, &config(), &none),
        ResponseStep::Ready(HttpResponse { content: HttpMessageContent::Empty, ..expected })
    );
}

#[test]
fn an_absolute_form_is_served_by_its_path() {
    let none: Vec<FileAnswer> = Vec::new();
    let version = HttpVersion { major: 1, minor: 1 };
    let with_path = HttpRequest::new(
        HttpMethod::GET,
        HttpRequestTarget::AbsoluteForm {
            scheme: HttpScheme::Http,
            authority: String::from("example.com"),
            path: Some(String::from("/docs/a")),
            query: Some(String::from("x")),
        },
        version,
        vec![],
    );
    assert_eq!(
        HttpResponse::new(&with_path, &config(), &none),
        ResponseStep::Lookup(FileQuery::IsDirectory { relative: String::from("docs/a") })
    );
    let without_path = HttpRequest::new(
        HttpMethod::GET,
        HttpRequestTarget::AbsoluteForm {
            scheme: HttpScheme::Https,
            authority: String::from("example.com"),
            path: None,
            query: None,
        },
        version,
        vec![],
    );
    assert_eq!(
        HttpResponse::new(&without_path, &config(), &none),
        ResponseStep::Lookup(FileQuery::IsDirectory { relative: String::new() })
    );
}

#[test]
fn the_same_inputs_give_the_same_response() {
    let get = request(HttpMethod::GET, "/a");
    let answers = vec![FileAnswer::Directory(false), canonical("/srv/www/a"),
        FileAnswer::Length(Some(5))];
    let first = HttpResponse::new(&get, &config(), &answers);
    let second = HttpResponse::new(&get, &config(), &answers);
    assert_eq!(first, second);
    let mut longer = answers.clone();
    longer.push(FileAnswer::Length(Some(99)));
    longer.push(FileAnswer::Directory(true));
    assert_eq!(HttpResponse::new(&get, &config(), &longer), first);
    assert_eq!(
        HttpResponse::pre_generate_message_content("/a", ROOT, "index.html", &longer),
        HttpResponse::pre_generate_message_content("/a", ROOT, "index.html", &answers)
    );
}

#[test]
fn error_responses_carry_the_reason_phrase() {
    let none: Vec<FileAnswer> = Vec::new();
    assert_eq!(
        HttpResponse::generate_error_response(HttpStatus::BadRequest, meta(), &config(), &none),
        ResponseStep::Ready(HttpResponse {
            status: HttpStatus::BadRequest,
            meta_data: meta(),
            headers: content_length("11"),
            content: HttpMessageContent::ReasonPhrase,
        })
    );
    assert_eq!(
        HttpResponse::generate_error_response(HttpStatus::FileNotFound, meta(), &config(), &none),
        ResponseStep::Lookup(FileQuery::Length { path: String::from("/srv/pages/404.html") })
    );
    let wrong_kind = vec![FileAnswer::Directory(true)];
    assert_eq!(
        HttpResponse::generate_error_response(
            HttpStatus::FileNotFound,
            meta(),
            &config(),
            &wrong_kind
        ),
        ResponseStep::Ready(HttpResponse {
            status: HttpStatus::FileNotFound,
            meta_data: meta(),
            headers: content_length("9"),
            content: HttpMessageContent::ReasonPhrase,
        })
    );
}

#[test]
fn the_version_of_the_request_is_echoed() {
    let none: Vec<FileAnswer> = Vec::new();
    let old = HttpRequest::new(
        HttpMethod::POST,
        HttpRequestTarget::OriginForm { path: String::from("/"), query: None },
        HttpVersion { major: 1, minor: 0 },
        vec![],
    );
    match HttpResponse::new(&old, &config(), &none) {
        ResponseStep::Ready(response) => {
            assert_eq!(response.generate_status_line(), "HTTP/1.0 405 Method Not Allowed");
        }
        other => panic!("{:?}", other),
    }
}

#[test]
fn the_head_is_laid_out_for_the_wire() {
    let response = HttpResponse {
        status: HttpStatus::FileNotFound,
        meta_data: meta(),
        headers: content_length("9"),
        content: HttpMessageContent::ReasonPhrase,
    };
    assert_eq!(response.head(), "HTTP/1.1 404 Not Found\r\nContent-Length: 9\r\n\r\n");
    let bare = HttpResponse {
        status: HttpStatus::Okay,
        meta_data: meta(),
        headers: vec![],
        content: HttpMessageContent::Empty,
    };
    assert_eq!(bare.head(), "HTTP/1.1 200 OK\r\n\r\n");
    let two = HttpResponse {
        status: HttpStatus::Okay,
        meta_data: meta(),
        headers: vec![
            HttpHeader { field_name: String::from("A"), field_value: String::from("1") },
            HttpHeader { field_name: String::from("B"), field_value: String::from("2") },
        ],
        content: HttpMessageContent::Empty,
    };
    assert_eq!(two.head(), "HTTP/1.1 200 OK\r\nA: 1\r\nB: 2\r\n\r\n");
}
