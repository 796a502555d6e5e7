use hello_tcp::{frame_response, route, Page, Route, Status};

#[test]
fn routes_by_request_line() {
    assert_eq!(route(b"GET / HTTP/1.1"), Route::Index);
    assert_eq!(route(b"GET /error HTTP/1.1"), Route::Fail);
    assert_eq!(route(b"GET /sleep HTTP/1.1"), Route::Sleep);
    assert_eq!(route(b"GET /other HTTP/1.1"), Route::NotFound);
    assert_eq!(route(b""), Route::NotFound);
    assert_eq!(route(b"GET / HTTP/1.0"), Route::NotFound);
}

#[test]
fn replies_per_route() {
    assert_eq!(Route::Index.reply(), Some((Status::Success, Page::Hello)));
    assert_eq!(Route::Sleep.reply(), Some((Status::Success, Page::Hello)));
    assert_eq!(Route::NotFound.reply(), Some((Status::NotFound, Page::Missing)));
    assert_eq!(Route::Fail.reply(), None);
    assert_eq!(Page::Hello.file_name(), "hello.html");
    assert_eq!(Page::Missing.file_name(), "404.html");
}

#[test]
fn frames_ok_response() {
    let r = frame_response(Status::Success, b"hi there");
    assert_eq!(r, b"HTTP/1.1 200 OK\r\nContent-Length: 8\r\n\r\nhi there".to_vec());
}

#[test]
fn frames_not_found_with_multi_digit_length() {
    let body = vec![b'x'; 1234];
    let r = frame_response(Status::NotFound, &body);
    let mut want = b"HTTP/1.1 404 NOT FOUND\r\nContent-Length: 1234\r\n\r\n".to_vec();
    want.extend_from_slice(&body);
    assert_eq!(r, want);
}

#[test]
fn frames_empty_body() {
    let r = frame_response(Status::Success, b"");
    assert_eq!(r, b"HTTP/1.1 200 OK\r\nContent-Length: 0\r\n\r\n".to_vec());
}
