use vstd::prelude::*;
use vstd::string::StringSliceAdditionalSpecFns;

verus! {

/// Which handling a request line selects.
#[derive(PartialEq, Eq, Structural, Clone, Copy, Debug)]
pub enum Route {
    /// `GET / HTTP/1.1`: the greeting page.
    Index,
    /// `GET /error HTTP/1.1`: the handler fails without replying.
    Fail,
    /// `GET /sleep HTTP/1.1`: the greeting page after a five-second pause.
    Sleep,
    /// Anything else: the not-found page.
    NotFound,
}

/// The status line of a response.
#[derive(PartialEq, Eq, Structural, Clone, Copy, Debug)]
pub enum Status {
    Success,
    NotFound,
}

/// The page served as a response body.
#[derive(PartialEq, Eq, Structural, Clone, Copy, Debug)]
pub enum Page {
    Hello,
    Missing,
}

pub open spec fn route_of(line: Seq<u8>) -> Route {
    if line == "GET / HTTP/1.1".spec_bytes() {
        Route::Index
    } else if line == "GET /error HTTP/1.1".spec_bytes() {
        Route::Fail
    } else if line == "GET /sleep HTTP/1.1".spec_bytes() {
        Route::Sleep
    } else {
        Route::NotFound
    }
}

pub open spec fn status_line_of(status: Status) -> Seq<u8> {
    match status {
        Status::Success => "HTTP/1.1 200 OK".spec_bytes(),
        Status::NotFound => "HTTP/1.1 404 NOT FOUND".spec_bytes(),
    }
}

/// The decimal digits of `n` in ASCII, most significant first, no leading zero.
pub open spec fn decimal(n: nat) -> Seq<u8>
    decreases n,
{
    if n < 10 {
        seq![(48 + n) as u8]
    } else {
        decimal(n / 10).push((48 + n % 10) as u8)
    }
}

/// The bytes of a response: status line, a `Content-Length` header, a blank
/// line, then the body.
pub open spec fn response_of(status: Status, body: Seq<u8>) -> Seq<u8> {
    status_line_of(status) + "\r\nContent-Length: ".spec_bytes() + decimal(body.len())
        + "\r\n\r\n".spec_bytes() + body
}

/// Whether two byte strings are equal.
fn bytes_equal(a: &[u8], b: &[u8]) -> (r: bool)
    ensures
        r == (a@ == b@),
{
    if a.len() != b.len() {
        return false;
    }
    let mut i: usize = 0;
    while i < a.len()
        invariant
            i <= a@.len(),
            a@.len() == b@.len(),
            forall|k: int| 0 <= k < i ==> a@[k] == b@[k],
        decreases a@.len() - i,
    {
        if a[i] != b[i] {
            return false;
        }
        i = i + 1;
    }
    assert(a@ =~= b@);
    true
}

/// Selects the handling of a request from its first line.
pub fn route(request_line: &[u8]) -> (r: Route)
    ensures
        r == route_of(request_line@),
{
    if bytes_equal(request_line, "GET / HTTP/1.1".as_bytes()) {
        Route::Index
    } else if bytes_equal(request_line, "GET /error HTTP/1.1".as_bytes()) {
        Route::Fail
    } else if bytes_equal(request_line, "GET /sleep HTTP/1.1".as_bytes()) {
        Route::Sleep
    } else {
        Route::NotFound
    }
}

impl Route {
    /// The status and page a route answers with; `None` for the route whose
    /// handler fails.
    pub fn reply(&self) -> (r: Option<(Status, Page)>)
        ensures
            *self == Route::Fail <==> r is None,
            (*self == Route::Index || *self == Route::Sleep) ==> r == Some((Status::Success, Page::Hello)),
            *self == Route::NotFound ==> r == Some((Status::NotFound, Page::Missing)),
    {
        match self {
            Route::Index => Some((Status::Success, Page::Hello)),
            Route::Fail => None,
            Route::Sleep => Some((Status::Success, Page::Hello)),
            Route::NotFound => Some((Status::NotFound, Page::Missing)),
        }
    }
}

impl Page {
    /// The file that holds the page.
    pub fn file_name(&self) -> (r: &'static str)
        ensures
            *self == Page::Hello ==> r@ == "hello.html"@,
            *self == Page::Missing ==> r@ == "404.html"@,
    {
        match self {
            Page::Hello => "hello.html",
            Page::Missing => "404.html",
        }
    }
}

/// Appends the bytes of `s` to `out`.
fn push_bytes(out: &mut Vec<u8>, s: &[u8])
    ensures
        final(out)@ == old(out)@ + s@,
{
    let mut i: usize = 0;
    while i < s.len()
        invariant
            i <= s@.len(),
            out@ == old(out)@ + s@.subrange(0, i as int),
        decreases s@.len() - i,
    {
        out.push(s[i]);
        i = i + 1;
        assert(s@.subrange(0, i as int) =~= s@.subrange(0, i - 1 as int).push(s@[i - 1]));
    }
    assert(s@.subrange(0, s@.len() as int) =~= s@);
}

/// Appends the decimal digits of `n` to `out`.
fn push_decimal(out: &mut Vec<u8>, n: usize)
    ensures
        final(out)@ == old(out)@ + decimal(n as nat),
    decreases n,
{
    if n >= 10 {
        push_decimal(out, n / 10);
    }
    out.push(48u8 + (n % 10) as u8);
    assert(out@ =~= old(out)@ + decimal(n as nat));
}

/// Frames a response: status line, `Content-Length` header with the body's
/// length in bytes, a blank line, and the body.
pub fn frame_response(status: Status, body: &[u8]) -> (r: Vec<u8>)
    ensures
        r@ == response_of(status, body@),
{
    let mut out: Vec<u8> = Vec::new();
    match status {
        Status::Success => push_bytes(&mut out, "HTTP/1.1 200 OK".as_bytes()),
        Status::NotFound => push_bytes(&mut out, "HTTP/1.1 404 NOT FOUND".as_bytes()),
    }
    push_bytes(&mut out, "\r\nContent-Length: ".as_bytes());
    push_decimal(&mut out, body.len());
    push_bytes(&mut out, "\r\n\r\n".as_bytes());
    push_bytes(&mut out, body);
    assert(out@ =~= response_of(status, body@));
    out
}

} // verus!
