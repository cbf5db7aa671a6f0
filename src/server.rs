use vstd::prelude::*;
use crate::text::{
    after_last, after_last_exec, lemma_after_last, chars_of, contains, contains_exec, copy_range, ends_with,
    ends_with_exec, find_char, find_from, lemma_find_from, line_at, line_at_exec, starts_with,
    starts_with_exec, string_from_chars,
};

verus! {

/// The kinds of resource the server hands out; each has its own content type.
#[derive(Clone, Copy, Debug, PartialEq, Eq, Structural)]
pub enum ResourceClass {
    Playlist,
    Segment,
    Script,
    WasmModule,
    Index,
}

/// What to do with one request.
#[derive(Clone, Debug)]
pub enum Route {
    /// Read the file at `file` (relative to the server's directory) and send it.
    Serve { class: ResourceClass, file: String },
    NotFound,
    /// The request line is malformed, or its path could leave the served directories.
    BadRequest,
}

/// What came of reading a routed file.
#[derive(Clone, Debug)]
pub enum FileOutcome {
    Read(Vec<u8>),
    /// There is no such file.
    Missing,
    /// The file exists but could not be read.
    Unreadable,
}

/// The one response sent on a connection.
#[derive(Clone, Debug)]
pub enum Response {
    Found { class: ResourceClass, body: Vec<u8> },
    NotFound,
    BadRequest,
    ServerError,
}

/// The method and the path of the request line, the first line of `req`, which is
/// `method SP path SP version` with a method and a path that are not empty.
pub open spec fn request_target(req: Seq<char>) -> Option<(Seq<char>, Seq<char>)> {
    let line = line_at(req, 0);
    let sp1 = find_from(line, ' ', 0);
    let sp2 = find_from(line, ' ', sp1 + 1);
    if 0 < sp1 && sp1 + 1 < sp2 && sp2 < line.len() {
        Some((line.subrange(0, sp1), line.subrange(sp1 + 1, sp2)))
    } else {
        None
    }
}

/// An absolute path none of whose components is empty or names a parent directory.
pub open spec fn is_safe_path(p: Seq<char>) -> bool {
    &&& starts_with(p, seq!['/'])
    &&& !contains(p.push('/'), seq!['/', '.', '.', '/'])
    &&& !contains(p, seq!['/', '/'])
}

pub open spec fn serves(r: Route, class: ResourceClass, file: Seq<char>) -> bool {
    match r {
        Route::Serve { class: c, file: f } => c == class && f@ == file,
        _ => false,
    }
}

/// How a `GET` of the safe path `p` is answered: by suffix, in this order.
pub open spec fn route_of_path(r: Route, p: Seq<char>) -> bool {
    if ends_with(p, ".m3u8"@) {
        serves(r, ResourceClass::Playlist, "segments/hls_demo.m3u8"@)
    } else if ends_with(p, ".mp4"@) {
        serves(r, ResourceClass::Segment, "segments/"@ + after_last(p, '/'))
    } else if ends_with(p, ".js"@) {
        serves(r, ResourceClass::Script, "assets/"@ + after_last(p, '/'))
    } else if ends_with(p, ".wasm"@) {
        serves(r, ResourceClass::WasmModule, "assets/"@ + after_last(p, '/'))
    } else if p == seq!['/'] {
        serves(r, ResourceClass::Index, "assets/index.html"@)
    } else {
        r is NotFound
    }
}

pub open spec fn route_spec(r: Route, req: Seq<char>) -> bool {
    match request_target(req) {
        None => r is BadRequest,
        Some((method, path)) => if method != "GET"@ {
            r is NotFound
        } else if !is_safe_path(path) {
            r is BadRequest
        } else {
            route_of_path(r, path)
        },
    }
}

fn request_target_exec(req: &Vec<char>) -> (r: Option<(Vec<char>, Vec<char>)>)
    ensures
        match r {
            Some((m, p)) => request_target(req@) == Some((m@, p@)),
            None => request_target(req@) is None,
        },
{
    let line = if req.len() > 0 {
        line_at_exec(req, 0).0
    } else {
        Vec::new()
    };
    assert(req.len() == 0 ==> line@ =~= line_at(req@, 0));
    let sp1 = find_char(&line, ' ', 0);
    proof {
        lemma_find_from(line@, ' ', 0);
    }
    if sp1 == 0 || sp1 >= line.len() {
        return None;
    }
    let sp2 = find_char(&line, ' ', sp1 + 1);
    proof {
        lemma_find_from(line@, ' ', sp1 + 1);
    }
    if sp1 + 1 < sp2 && sp2 < line.len() {
        Some((copy_range(&line, 0, sp1), copy_range(&line, sp1 + 1, sp2)))
    } else {
        None
    }
}

fn is_safe_path_exec(p: &Vec<char>) -> (r: bool)
    ensures
        r == is_safe_path(p@),
{
    let mut q = copy_range(p, 0, p.len());
    assert(q@ =~= p@);
    q.push('/');
    let root = vec!['/'];
    let parent = vec!['/', '.', '.', '/'];
    let empty = vec!['/', '/'];
    assert(root@ =~= seq!['/']);
    assert(parent@ =~= seq!['/', '.', '.', '/']);
    assert(empty@ =~= seq!['/', '/']);
    starts_with_exec(p, &root) && !contains_exec(&q, &parent) && !contains_exec(p, &empty)
}

fn in_directory(dir: &str, name: &Vec<char>) -> (r: String)
    ensures
        r@ == dir@ + name@,
{
    let mut f = String::from_str(dir);
    let n = string_from_chars(name);
    f.append(n.as_str());
    f
}

/// Classifies an HTTP request by the path of its request line.
pub fn route_request(req: &str) -> (r: Route)
    ensures
        route_spec(r, req@),
{
    let s = chars_of(req);
    let (method, path) = match request_target_exec(&s) {
        Some(t) => t,
        None => return Route::BadRequest,
    };
    let get = chars_of("GET");
    if !(method.len() == get.len() && starts_with_exec(&method, &get)) {
        proof {
            if method@ == get@ {
                assert(method@.subrange(0, get@.len() as int) =~= method@);
            }
        }
        return Route::NotFound;
    }
    assert(method@ =~= method@.subrange(0, get@.len() as int));
    if !is_safe_path_exec(&path) {
        return Route::BadRequest;
    }
    if ends_with_exec(&path, &chars_of(".m3u8")) {
        Route::Serve { class: ResourceClass::Playlist, file: String::from_str("segments/hls_demo.m3u8") }
    } else if ends_with_exec(&path, &chars_of(".mp4")) {
        Route::Serve { class: ResourceClass::Segment, file: in_directory("segments/", &after_last_exec(&path, '/')) }
    } else if ends_with_exec(&path, &chars_of(".js")) {
        Route::Serve { class: ResourceClass::Script, file: in_directory("assets/", &after_last_exec(&path, '/')) }
    } else if ends_with_exec(&path, &chars_of(".wasm")) {
        Route::Serve { class: ResourceClass::WasmModule, file: in_directory("assets/", &after_last_exec(&path, '/')) }
    } else if path.len() == 1 && path[0] == '/' {
        assert(path@ =~= seq!['/']);
        Route::Serve { class: ResourceClass::Index, file: String::from_str("assets/index.html") }
    } else {
        assert(path@ != seq!['/']);
        Route::NotFound
    }
}

pub open spec fn digit_char(d: int) -> char {
    "0123456789"@[d]
}

/// `n` in decimal, without leading zeros.
pub open spec fn decimal_text(n: nat) -> Seq<char>
    decreases n,
{
    if n < 10 {
        seq![digit_char(n as int)]
    } else {
        decimal_text(n / 10).push(digit_char(n as int % 10))
    }
}

pub open spec fn content_type(c: ResourceClass) -> Seq<char> {
    match c {
        ResourceClass::Playlist => "application/vnd.apple.mpegurl"@,
        ResourceClass::Segment => "video/mp4"@,
        ResourceClass::Script => "application/javascript"@,
        ResourceClass::WasmModule => "application/wasm"@,
        ResourceClass::Index => "text/html"@,
    }
}

/// The status line and headers of a response, up to the blank line before the body.
pub open spec fn head_text(r: Response) -> Seq<char> {
    match r {
        Response::Found { class, body } => "HTTP/1.1 200 OK\r\nAccess-Control-Allow-Origin: *\r\nContent-Type: "@
            + content_type(class) + "\r\nContent-Length: "@ + decimal_text(body@.len()) + "\r\n\r\n"@,
        Response::NotFound => "HTTP/1.1 404 NOT FOUND\r\n\r\n"@,
        Response::BadRequest => "HTTP/1.1 400 BAD REQUEST\r\n\r\n"@,
        Response::ServerError => "HTTP/1.1 500 INTERNAL SERVER ERROR\r\n\r\n"@,
    }
}

fn push_decimal(n: usize, out: &mut Vec<char>)
    ensures
        final(out)@ == old(out)@ + decimal_text(n as nat),
    decreases n,
{
    let digits = chars_of("0123456789");
    proof {
        reveal_strlit("0123456789");
    }
    if n >= 10 {
        push_decimal(n / 10, out);
    }
    out.push(digits[n % 10]);
    assert(final(out)@ =~= old(out)@ + decimal_text(n as nat));
}

fn content_type_str(c: ResourceClass) -> (r: &'static str)
    ensures
        r@ == content_type(c),
{
    match c {
        ResourceClass::Playlist => "application/vnd.apple.mpegurl",
        ResourceClass::Segment => "video/mp4",
        ResourceClass::Script => "application/javascript",
        ResourceClass::WasmModule => "application/wasm",
        ResourceClass::Index => "text/html",
    }
}

/// The response to a request routed to `route`, given what reading its file
/// gave (for a route without a file, `contents` is not looked at).
pub fn respond(route: Route, contents: FileOutcome) -> (r: Response)
    ensures
        match route {
            Route::Serve { class, file: _ } => match contents {
                FileOutcome::Read(b) => r == Response::Found { class, body: b },
                FileOutcome::Missing => r is NotFound,
                FileOutcome::Unreadable => r is ServerError,
            },
            Route::NotFound => r is NotFound,
            Route::BadRequest => r is BadRequest,
        },
{
    match route {
        Route::Serve { class, file: _ } => match contents {
            FileOutcome::Read(b) => Response::Found { class, body: b },
            FileOutcome::Missing => Response::NotFound,
            FileOutcome::Unreadable => Response::ServerError,
        },
        Route::NotFound => Response::NotFound,
        Route::BadRequest => Response::BadRequest,
    }
}

impl Response {
    pub fn status_code(&self) -> (r: u16)
        ensures
            r == match self {
                Response::Found { .. } => 200u16,
                Response::NotFound => 404u16,
                Response::BadRequest => 400u16,
                Response::ServerError => 500u16,
            },
    {
        match self {
            Response::Found { .. } => 200,
            Response::NotFound => 404,
            Response::BadRequest => 400,
            Response::ServerError => 500,
        }
    }

    /// The bytes sent after the head: the file for a found resource, else nothing.
    pub fn body(&self) -> (r: &[u8])
        ensures
            r@ == match self {
                Response::Found { class: _, body } => body@,
                _ => Seq::<u8>::empty(),
            },
    {
        match self {
            Response::Found { class: _, body } => body.as_slice(),
            _ => &[],
        }
    }

    /// The status line and the headers, ending in the blank line.
    pub fn head(&self) -> (r: String)
        ensures
            r@ == head_text(*self),
    {
        match self {
            Response::Found { class, body } => {
                let mut h = String::from_str("HTTP/1.1 200 OK\r\nAccess-Control-Allow-Origin: *\r\nContent-Type: ");
                h.append(content_type_str(*class));
                h.append("\r\nContent-Length: ");
                let mut digits: Vec<char> = Vec::new();
                push_decimal(body.len(), &mut digits);
                assert(digits@ =~= decimal_text(body.len() as nat));
                let n = string_from_chars(&digits);
                h.append(n.as_str());
                h.append("\r\n\r\n");
                h
            },
            Response::NotFound => String::from_str("HTTP/1.1 404 NOT FOUND\r\n\r\n"),
            Response::BadRequest => String::from_str("HTTP/1.1 400 BAD REQUEST\r\n\r\n"),
            Response::ServerError => String::from_str("HTTP/1.1 500 INTERNAL SERVER ERROR\r\n\r\n"),
        }
    }
}

/// Whatever the request, a file that is served lies directly in `segments/` or
/// `assets/`: its name holds no `/` and is not `..`.
pub proof fn lemma_served_files_stay_inside(r: Route, req: Seq<char>)
    requires
        route_spec(r, req),
    ensures
        r matches Route::Serve { class: _, file } ==> file@ == "segments/hls_demo.m3u8"@ || file@
            == "assets/index.html"@ || exists|name: Seq<char>|
            (file@ == "segments/"@ + name || file@ == "assets/"@ + name) && !name.contains('/')
                && name != seq!['.', '.'],
{
    if let Some((method, p)) = request_target(req) {
        if method == "GET"@ && is_safe_path(p) {
            let name = after_last(p, '/');
            lemma_after_last(p, '/');
            if name == seq!['.', '.'] {
                let k = p.len() - 3;
                assert(p[k] == '/');
                assert(p.push('/').subrange(k, k + 4) =~= seq!['/', '.', '.', '/']);
            }
        }
    }
}

} // verus!
