use std::io::Write;
use vstd::prelude::*;
use vstd::string::StrSliceExecFns;
use vstd::string::StringExecFns;
use vstd::utf8::encode_utf8;

verus! {

broadcast use vstd::string::to_string_from_display_ensures_for_str;

/// The status codes that the server answers with.
#[derive(Debug, Clone, Copy, PartialEq, Eq, Structural)]
pub enum StatusCode {
    OK,
    Created,
    BadRequest,
    NotFound,
    InternalServerError,
    MethodNotAllowed,
}

/// The text of a status line after the version: the numeric code and its reason phrase.
pub open spec fn status_text(c: StatusCode) -> Seq<char> {
    match c {
        StatusCode::OK => "200 OK"@,
        StatusCode::Created => "201 Created"@,
        StatusCode::BadRequest => "400 Bad Request"@,
        StatusCode::NotFound => "404 Not Found"@,
        StatusCode::InternalServerError => "500 Internal Server Error"@,
        StatusCode::MethodNotAllowed => "405 Method Not Allowed"@,
    }
}

impl StatusCode {
    /// The numeric code followed by its reason phrase, as in `404 Not Found`.
    pub fn to_string(&self) -> (r: String)
        ensures
            r@ == status_text(*self),
    {
        match self {
            StatusCode::OK => "200 OK".to_string(),
            StatusCode::Created => "201 Created".to_string(),
            StatusCode::BadRequest => "400 Bad Request".to_string(),
            StatusCode::NotFound => "404 Not Found".to_string(),
            StatusCode::InternalServerError => "500 Internal Server Error".to_string(),
            StatusCode::MethodNotAllowed => "405 Method Not Allowed".to_string(),
        }
    }
}


/// Headers as an ordered list of (name, value) pairs.
pub type HeaderList = Seq<(Seq<char>, Seq<char>)>;

/// The view of a header vector: each name and value as its characters.
pub open spec fn headers_view(h: Seq<(String, String)>) -> HeaderList {
    Seq::new(h.len(), |i: int| (h[i].0@, h[i].1@))
}

/// Index of the last entry named `k`, or -1 when there is none.
pub open spec fn last_index_of(h: HeaderList, k: Seq<char>) -> int
    decreases h.len(),
{
    if h.len() == 0 {
        -1
    } else if h.last().0 == k {
        h.len() - 1
    } else {
        last_index_of(h.drop_last(), k)
    }
}

/// The value stored under `k`.
pub open spec fn lookup(h: HeaderList, k: Seq<char>) -> Option<Seq<char>> {
    let i = last_index_of(h, k);
    if i >= 0 {
        Some(h[i].1)
    } else {
        None
    }
}

/// Setting `k` to `v`: an entry already named `k` is replaced in place, a new
/// name goes to the end.
pub open spec fn insert_header(h: HeaderList, k: Seq<char>, v: Seq<char>) -> HeaderList {
    let i = last_index_of(h, k);
    if i >= 0 {
        h.update(i, (k, v))
    } else {
        h.push((k, v))
    }
}

/// Setting each pair of `pairs` in turn, starting from `h`.
pub open spec fn insert_all(h: HeaderList, pairs: HeaderList) -> HeaderList
    decreases pairs.len(),
{
    if pairs.len() == 0 {
        h
    } else {
        insert_header(insert_all(h, pairs.drop_last()), pairs.last().0, pairs.last().1)
    }
}

proof fn lemma_last_index_bounds(h: HeaderList, k: Seq<char>)
    ensures
        -1 <= last_index_of(h, k) < h.len(),
        last_index_of(h, k) >= 0 ==> h[last_index_of(h, k)].0 == k,
    decreases h.len(),
{
    if h.len() > 0 && h.last().0 != k {
        lemma_last_index_bounds(h.drop_last(), k);
    }
}

/// Position of the entry named `k`, searching from the end.
fn find_header(h: &Vec<(String, String)>, k: &String) -> (r: Option<usize>)
    ensures
        match r {
            Some(i) => i < h.len() && last_index_of(headers_view(h@), k@) == i,
            None => last_index_of(headers_view(h@), k@) == -1,
        },
{
    let ghost hv = headers_view(h@);
    let mut i: usize = h.len();
    assert(hv.subrange(0, i as int) =~= hv);
    while i > 0
        invariant
            i <= h.len(),
            hv == headers_view(h@),
            last_index_of(hv, k@) == last_index_of(hv.subrange(0, i as int), k@),
        decreases i,
    {
        let ghost sub = hv.subrange(0, i as int);
        assert(sub.drop_last() =~= hv.subrange(0, i - 1));
        if h[i - 1].0 == *k {
            return Some(i - 1);
        }
        i = i - 1;
    }
    None
}

/// Sets `k` to `v` in `h`, replacing the value of an entry already named `k`.
fn set_header(h: &mut Vec<(String, String)>, k: String, v: String)
    ensures
        headers_view(final(h)@) == insert_header(headers_view(old(h)@), k@, v@),
{
    let ghost k_view = k@;
    let ghost v_view = v@;
    match find_header(h, &k) {
        Some(i) => {
            h.set(i, (k, v));
            assert(headers_view(h@) =~= insert_header(headers_view(old(h)@), k_view, v_view));
        },
        None => {
            h.push((k, v));
            assert(headers_view(h@) =~= insert_header(headers_view(old(h)@), k_view, v_view));
        },
    }
}

/// What gzip compression at the default level makes of `data`.
pub uninterp spec fn gzip_of(data: Seq<u8>) -> Seq<u8>;

/// Relies on flate2's `GzEncoder` over a `Vec`: the gzip stream of `data` at
/// the default compression level, a function of `data` alone. A `Vec` sink
/// reports no write error.
#[verifier::external_body]
fn gzip_compress(data: &[u8]) -> (r: Vec<u8>)
    ensures
        r@ == gzip_of(data@),
{
    let mut encoder = flate2::write::GzEncoder::new(Vec::new(), flate2::Compression::default());
    let _ = encoder.write_all(data);
    encoder.finish().unwrap_or_default()
}

/// The text of one decimal digit.
pub open spec fn digit_text(d: nat) -> Seq<char> {
    "0123456789"@.subrange(d as int, d + 1 as int)
}

/// The decimal notation of `n`, without leading zeros.
pub open spec fn decimal(n: nat) -> Seq<char>
    decreases n,
{
    if n < 10 {
        digit_text(n)
    } else {
        decimal(n / 10) + digit_text(n % 10)
    }
}

/// `n` in decimal notation.
pub fn decimal_string(n: usize) -> (r: String)
    ensures
        r@ == decimal(n as nat),
    decreases n,
{
    let digits = "0123456789";
    proof {
        reveal_strlit("0123456789");
    }
    let d = n % 10;
    let digit = digits.substring_char(d, d + 1);
    if n < 10 {
        digit.to_string()
    } else {
        let mut r = decimal_string(n / 10);
        r.append(digit);
        r
    }
}

/// One `name: value` line of a response head; with `content_length` given,
/// a `Content-Length` header states that length instead of its own value.
pub open spec fn header_line(k: Seq<char>, v: Seq<char>, content_length: Option<nat>) -> Seq<char> {
    match content_length {
        Some(n) if k == "Content-Length"@ => "Content-Length: "@ + decimal(n) + "\r\n"@,
        _ => k + ": "@ + v + "\r\n"@,
    }
}

/// The header lines of a response head, in the order of `h`.
pub open spec fn header_lines(h: HeaderList, content_length: Option<nat>) -> Seq<char>
    decreases h.len(),
{
    if h.len() == 0 {
        Seq::empty()
    } else {
        header_lines(h.drop_last(), content_length) + header_line(h.last().0, h.last().1, content_length)
    }
}

/// The status line and the header lines, up to and including the blank line.
pub open spec fn response_head(version: Seq<char>, status: StatusCode, h: HeaderList, content_length: Option<nat>) -> Seq<char> {
    version + " "@ + status_text(status) + "\r\n"@ + header_lines(h, content_length) + "\r\n"@
}

/// A response on the wire. With `Content-Encoding: gzip` the body is sent
/// compressed and `Content-Length` gives the compressed size; otherwise the
/// body follows the head as it is.
pub open spec fn response_bytes(version: Seq<char>, status: StatusCode, h: HeaderList, body: Seq<char>) -> Seq<u8> {
    if lookup(h, "Content-Encoding"@) == Some("gzip"@) {
        let packed = gzip_of(encode_utf8(body));
        encode_utf8(response_head(version, status, h, Some(packed.len()))) + packed
    } else {
        encode_utf8(response_head(version, status, h, None) + body)
    }
}

/// A response: version, status, headers in order, and a text body.
#[derive(Debug)]
pub struct Response {
    pub version: String,
    pub status_code: StatusCode,
    pub headers: Vec<(String, String)>,
    pub body: String,
}

impl Response {
    /// A response with status `status_code`, the headers of `headers` set in
    /// order (a later pair with the name of an earlier one replaces its value),
    /// and `body`, or an empty body.
    pub fn new(status_code: StatusCode, headers: Option<Vec<(&str, &str)>>, body: Option<String>) -> (r: Response)
        ensures
            r.version@ == "HTTP/1.1"@,
            r.status_code == status_code,
            headers_view(r.headers@) == match headers {
                Some(v) => insert_all(Seq::empty(), Seq::new(v.len() as nat, |i: int| (v[i].0@, v[i].1@))),
                None => Seq::empty(),
            },
            r.body@ == match body {
                Some(b) => b@,
                None => Seq::empty(),
            },
    {
        let mut header_map: Vec<(String, String)> = Vec::new();
        match headers {
            Some(pairs) => {
                let ghost pv = Seq::new(pairs.len() as nat, |i: int| (pairs[i].0@, pairs[i].1@));
                let mut i: usize = 0;
                while i < pairs.len()
                    invariant
                        i <= pairs.len(),
                        pv == Seq::new(pairs.len() as nat, |j: int| (pairs[j].0@, pairs[j].1@)),
                        headers_view(header_map@) == insert_all(Seq::empty(), pv.subrange(0, i as int)),
                    decreases pairs.len() - i,
                {
                    let (key, value) = pairs[i];
                    set_header(&mut header_map, key.to_string(), value.to_string());
                    assert(pv.subrange(0, i + 1).drop_last() =~= pv.subrange(0, i as int));
                    i = i + 1;
                }
                assert(pv.subrange(0, pairs.len() as int) =~= pv);
            },
            None => {
                assert(headers_view(header_map@) =~= Seq::empty());
            },
        }
        let body_text = match body {
            Some(b) => b,
            None => String::new(),
        };
        Response { version: "HTTP/1.1".to_string(), status_code, headers: header_map, body: body_text }
    }

    /// A response with status `status_code`, no headers and an empty body.
    pub fn new_from_status_code(status_code: StatusCode) -> (r: Response)
        ensures
            r.version@ == "HTTP/1.1"@,
            r.status_code == status_code,
            r.headers@.len() == 0,
            r.body@.len() == 0,
    {
        Response { version: "HTTP/1.1".to_string(), status_code, headers: Vec::new(), body: String::new() }
    }

    /// Whether the `Content-Encoding` header is exactly `gzip`.
    pub fn has_content_encoding_gzip(&self) -> (r: bool)
        ensures
            r == (lookup(headers_view(self.headers@), "Content-Encoding"@) == Some("gzip"@)),
    {
        let name = "Content-Encoding".to_string();
        proof {
            lemma_last_index_bounds(headers_view(self.headers@), name@);
        }
        match find_header(&self.headers, &name) {
            Some(i) => self.headers[i].1 == "gzip".to_string(),
            None => false,
        }
    }

    /// The bytes of this response as sent to a client.
    pub fn to_bytes(&self) -> (r: Vec<u8>)
        ensures
            r@ == response_bytes(self.version@, self.status_code, headers_view(self.headers@), self.body@),
    {
        let ghost hv = headers_view(self.headers@);
        let gzip = self.has_content_encoding_gzip();
        let mut response = String::new();
        response.append(self.version.as_str());
        response.append(" ");
        let status = self.status_code.to_string();
        response.append(status.as_str());
        response.append("\r\n");
        let ghost start = response@;
        let mut compressed: Vec<u8> = Vec::new();
        let mut length_text = String::new();
        if gzip {
            compressed = gzip_compress(self.body.as_str().as_bytes());
            length_text = decimal_string(compressed.len());
        }
        let ghost cl: Option<nat> = if gzip { Some(compressed@.len()) } else { None };
        let length_key = "Content-Length".to_string();
        let mut i: usize = 0;
        while i < self.headers.len()
            invariant
                i <= self.headers.len(),
                hv == headers_view(self.headers@),
                gzip ==> length_text@ == decimal(compressed@.len()),
                cl == (if gzip { Some(compressed@.len()) } else { None::<nat> }),
                length_key@ == "Content-Length"@,
                response@ == start + header_lines(hv.subrange(0, i as int), cl),
            decreases self.headers.len() - i,
        {
            assert(hv.subrange(0, i + 1).drop_last() =~= hv.subrange(0, i as int));
            if gzip && self.headers[i].0 == length_key {
                response.append("Content-Length: ");
                response.append(length_text.as_str());
                response.append("\r\n");
            } else {
                response.append(self.headers[i].0.as_str());
                response.append(": ");
                response.append(self.headers[i].1.as_str());
                response.append("\r\n");
            }
            i = i + 1;
        }
        assert(hv.subrange(0, self.headers.len() as int) =~= hv);
        response.append("\r\n");
        if gzip {
            let mut bytes = response.as_str().as_bytes_vec();
            bytes.append(&mut compressed);
            bytes
        } else {
            response.append(self.body.as_str());
            response.as_str().as_bytes_vec()
        }
    }
}

/// What `String::from_utf8_lossy` makes of `b`: its UTF-8 text, with each
/// invalid sequence replaced by U+FFFD.
pub uninterp spec fn lossy_text(b: Seq<u8>) -> Seq<char>;

/// Relies on `String::from_utf8_lossy`, a function of its argument alone.
#[verifier::external_body]
fn decode_lossy(b: &[u8]) -> (r: String)
    ensures
        r@ == lossy_text(b@),
{
    String::from_utf8_lossy(b).into_owned()
}

/// Whether `pat` occurs in `s` at index `i`.
pub open spec fn occurs_at(s: Seq<char>, pat: Seq<char>, i: int) -> bool {
    0 <= i && i + pat.len() <= s.len() && s.subrange(i, i + pat.len()) == pat
}

/// The first index at or after `i` where `pat` occurs in `s`, or -1.
pub open spec fn find_from(s: Seq<char>, pat: Seq<char>, i: int) -> int
    decreases s.len() + 1 - i,
{
    if i < 0 || i + pat.len() > s.len() {
        -1
    } else if occurs_at(s, pat, i) {
        i
    } else {
        find_from(s, pat, i + 1)
    }
}

/// Unicode white space, as `char::is_whitespace` tells it.
pub open spec fn is_space(c: char) -> bool {
    let u = c as u32;
    u == 0x20 || (0x09 <= u && u <= 0x0d) || u == 0x85 || u == 0xa0 || u == 0x1680
        || (0x2000 <= u && u <= 0x200a) || u == 0x2028 || u == 0x2029 || u == 0x202f
        || u == 0x205f || u == 0x3000
}

/// The end of the line that starts at `i`: the index of the next newline, or
/// the length of `t`.
pub open spec fn line_stop(t: Seq<char>, i: int) -> int {
    let e = find_from(t, seq!['\n'], i);
    if e >= 0 {
        e
    } else {
        t.len() as int
    }
}

/// The line that starts at `i`, without its line ending (`\n` or `\r\n`).
pub open spec fn line_text(t: Seq<char>, i: int) -> Seq<char> {
    let e = line_stop(t, i);
    let raw = t.subrange(i, e);
    if e < t.len() && raw.len() > 0 && raw.last() == '\r' {
        raw.drop_last()
    } else {
        raw
    }
}

/// The first index at or after `i` that holds no white space, or the length.
pub open spec fn skip_space(l: Seq<char>, i: int) -> int
    decreases l.len() - i,
{
    if i < 0 || i >= l.len() {
        l.len() as int
    } else if is_space(l[i]) {
        skip_space(l, i + 1)
    } else {
        i
    }
}

/// The first index at or after `i` that holds white space, or the length.
pub open spec fn word_end(l: Seq<char>, i: int) -> int
    decreases l.len() - i,
{
    if i < 0 || i >= l.len() {
        l.len() as int
    } else if !is_space(l[i]) {
        word_end(l, i + 1)
    } else {
        i
    }
}

/// The headers of the lines of `t` from index `i` on, up to an empty line,
/// each `name: value` set in turn on `h`; none when a line has no `: `.
pub open spec fn headers_from(t: Seq<char>, i: int, h: HeaderList) -> Option<HeaderList>
    decreases t.len() + 1 - i,
{
    if i < 0 || i >= t.len() {
        Some(h)
    } else {
        let l = line_text(t, i);
        let k = find_from(l, ": "@, 0);
        let stop = line_stop(t, i);
        if l.len() == 0 {
            Some(h)
        } else if k < 0 || stop < i || stop > t.len() {
            None
        } else {
            headers_from(t, stop + 1, insert_header(h, l.subrange(0, k), l.subrange(k + 2, l.len() as int)))
        }
    }
}

/// The parts of a request: method, path, version, headers and body.
pub type RequestParts = (Seq<char>, Seq<char>, Seq<char>, HeaderList, Seq<char>);

/// A request read from its text `s`. The method and the path are the first
/// two words of the first line. The head runs up to the first blank line
/// (`\r\n\r\n`); its lines after the first are headers, up to an empty one.
/// The version is the value of a header named `HTTP/1.1`, else `HTTP/1.1`.
/// The body is the text after the first blank line, up to the next one.
/// There is no request where the text is empty, the first line has fewer
/// than two words, or a header line has no `: `.
pub open spec fn parse_request(s: Seq<char>) -> Option<RequestParts> {
    let sep = "\r\n\r\n"@;
    let l = line_text(s, 0);
    let a = skip_space(l, 0);
    let b = word_end(l, a);
    let c = skip_space(l, b);
    let d = word_end(l, c);
    let e = find_from(s, sep, 0);
    let head = if e >= 0 { s.subrange(0, e) } else { s };
    let f = find_from(s, sep, e + 4);
    let body = if e < 0 {
        Seq::empty()
    } else if f >= 0 {
        s.subrange(e + 4, f)
    } else {
        s.subrange(e + 4, s.len() as int)
    };
    if s.len() == 0 || a >= l.len() || c >= l.len() {
        None
    } else {
        match headers_from(head, line_stop(head, 0) + 1, Seq::empty()) {
            None => None,
            Some(h) => {
                let version = match lookup(h, "HTTP/1.1"@) {
                    Some(v) => v,
                    None => "HTTP/1.1"@,
                };
                Some((l.subrange(a, b), l.subrange(c, d), version, h, body))
            },
        }
    }
}

/// The characters of `s`.
fn chars_of(s: &str) -> (r: Vec<char>)
    ensures
        r@ == s@,
{
    let n = s.unicode_len();
    let mut r: Vec<char> = Vec::new();
    let mut i: usize = 0;
    while i < n
        invariant
            i <= n,
            n == s@.len(),
            r@ == s@.subrange(0, i as int),
        decreases n - i,
    {
        r.push(s.get_char(i));
        assert(r@ =~= s@.subrange(0, i + 1));
        i = i + 1;
    }
    assert(r@ =~= s@);
    r
}

/// Whether `pat` occurs in `s` at index `i`.
fn occurs_at_exec(s: &Vec<char>, pat: &Vec<char>, i: usize) -> (r: bool)
    ensures
        r == occurs_at(s@, pat@, i as int),
{
    if i > s.len() || pat.len() > s.len() - i {
        return false;
    }
    let mut j: usize = 0;
    while j < pat.len()
        invariant
            i + pat.len() <= s.len(),
            j <= pat.len(),
            forall|m: int| 0 <= m < j ==> s@[i + m] == pat@[m],
        decreases pat.len() - j,
    {
        if s[i + j] != pat[j] {
            assert(s@.subrange(i as int, i + pat.len())[j as int] != pat@[j as int]);
            return false;
        }
        j = j + 1;
    }
    assert(s@.subrange(i as int, i + pat.len()) =~= pat@);
    true
}

/// The first index at or after `i` where `pat` occurs in `s`.
fn find_exec(s: &Vec<char>, pat: &Vec<char>, i: usize) -> (r: Option<usize>)
    ensures
        match r {
            Some(j) => find_from(s@, pat@, i as int) == j && i <= j && j + pat.len() <= s.len(),
            None => find_from(s@, pat@, i as int) == -1,
        },
{
    let mut j: usize = i;
    while j <= s.len() && pat.len() <= s.len() - j
        invariant
            i <= j,
            find_from(s@, pat@, i as int) == find_from(s@, pat@, j as int),
        decreases s.len() + 1 - j,
    {
        if occurs_at_exec(s, pat, j) {
            return Some(j);
        }
        if j == s.len() {
            assert(find_from(s@, pat@, j + 1) == -1);
            return None;
        }
        j = j + 1;
    }
    None
}

/// The end of the line of `t` that starts at `i`, as `line_stop`.
fn line_stop_exec(t: &Vec<char>, newline: &Vec<char>, i: usize) -> (r: usize)
    requires
        newline@ == seq!['\n'],
        i <= t.len(),
    ensures
        r == line_stop(t@, i as int),
        i <= r <= t.len(),
{
    match find_exec(t, newline, i) {
        Some(e) => e,
        None => t.len(),
    }
}

/// The line of `text` that starts at `i` and ends at `stop`, as `line_text`.
fn line_exec(text: &str, t: &Vec<char>, i: usize, stop: usize) -> (r: String)
    requires
        t@ == text@,
        i <= stop <= t.len(),
        stop == line_stop(t@, i as int),
    ensures
        r@ == line_text(t@, i as int),
{
    let ghost raw = t@.subrange(i as int, stop as int);
    if stop < t.len() && stop > i && t[stop - 1] == '\r' {
        assert(raw.last() == '\r');
        assert(raw.drop_last() =~= t@.subrange(i as int, stop - 1));
        text.substring_char(i, stop - 1).to_string()
    } else {
        assert(stop > i ==> raw.last() == t@[stop - 1]);
        text.substring_char(i, stop).to_string()
    }
}

/// The first index at or after `i` that holds no white space.
fn skip_space_exec(l: &Vec<char>, i: usize) -> (r: usize)
    requires
        i <= l.len(),
    ensures
        r == skip_space(l@, i as int),
        i <= r <= l.len(),
{
    let mut j = i;
    while j < l.len() && is_space_exec(l[j])
        invariant
            i <= j <= l.len(),
            skip_space(l@, i as int) == skip_space(l@, j as int),
        decreases l.len() - j,
    {
        j = j + 1;
    }
    j
}

/// The first index at or after `i` that holds white space.
fn word_end_exec(l: &Vec<char>, i: usize) -> (r: usize)
    requires
        i <= l.len(),
    ensures
        r == word_end(l@, i as int),
        i <= r <= l.len(),
{
    let mut j = i;
    while j < l.len() && !is_space_exec(l[j])
        invariant
            i <= j <= l.len(),
            word_end(l@, i as int) == word_end(l@, j as int),
        decreases l.len() - j,
    {
        j = j + 1;
    }
    j
}

/// Whether `c` is Unicode white space.
fn is_space_exec(c: char) -> (r: bool)
    ensures
        r == is_space(c),
{
    let u = c as u32;
    u == 0x20 || (0x09 <= u && u <= 0x0d) || u == 0x85 || u == 0xa0 || u == 0x1680
        || (0x2000 <= u && u <= 0x200a) || u == 0x2028 || u == 0x2029 || u == 0x202f
        || u == 0x205f || u == 0x3000
}

/// A request: method, path, version, headers in order, and a text body.
#[derive(Debug)]
pub struct Request {
    pub method: String,
    pub path: String,
    pub version: String,
    pub headers: Vec<(String, String)>,
    pub body: String,
}

/// Whether the parts of `r` are `p`.
pub open spec fn request_is(r: Request, p: RequestParts) -> bool {
    r.method@ == p.0 && r.path@ == p.1 && r.version@ == p.2 && headers_view(r.headers@) == p.3
        && r.body@ == p.4
}

/// Whether `gzip` stands at index `i` of `v` as one whole item of its
/// `, `-separated list.
pub open spec fn gzip_listed_at(v: Seq<char>, i: int) -> bool {
    &&& occurs_at(v, "gzip"@, i)
    &&& (i == 0 || occurs_at(v, ", "@, i - 2))
    &&& (i + 4 == v.len() || occurs_at(v, ", "@, i + 4))
}

/// Whether `gzip` is one of the items of the `, `-separated list `v`.
pub open spec fn lists_gzip(v: Seq<char>) -> bool {
    exists|i: int| gzip_listed_at(v, i)
}

/// The headers of the lines of `head` after its first one, as `headers_from`.
fn parse_headers(head_text: &str, head: &Vec<char>, newline: &Vec<char>) -> (r: Option<Vec<(String, String)>>)
    requires
        head@ == head_text@,
        newline@ == seq!['\n'],
    ensures
        match (r, headers_from(head@, line_stop(head@, 0) + 1, Seq::empty())) {
            (None, None) => true,
            (Some(v), Some(h)) => headers_view(v@) == h,
            _ => false,
        },
{
    let mut h: Vec<(String, String)> = Vec::new();
    assert(headers_view(h@) =~= Seq::empty());
    let stop0 = line_stop_exec(head, newline, 0);
    if stop0 >= head.len() {
        return Some(h);
    }
    let colon = chars_of(": ");
    proof {
        reveal_strlit(": ");
    }
    let mut i: usize = stop0 + 1;
    while i < head.len()
        invariant
            i <= head.len(),
            head@ == head_text@,
            newline@ == seq!['\n'],
            colon@ == ": "@,
            colon@.len() == 2,
            stop0 == line_stop(head@, 0),
            headers_from(head@, stop0 + 1, Seq::empty()) == headers_from(head@, i as int, headers_view(h@)),
        decreases head.len() - i,
    {
        let stop = line_stop_exec(head, newline, i);
        let line = line_exec(head_text, head, i, stop);
        let l = chars_of(line.as_str());
        assert(l@ == line_text(head@, i as int));
        if l.len() == 0 {
            return Some(h);
        }
        match find_exec(&l, &colon, 0) {
            None => {
                return None;
            },
            Some(k) => {
                let key = line.as_str().substring_char(0, k).to_string();
                let value = line.as_str().substring_char(k + 2, l.len()).to_string();
                set_header(&mut h, key, value);
                if stop >= head.len() {
                    assert(headers_from(head@, stop + 1, headers_view(h@)) == Some(headers_view(h@)));
                    return Some(h);
                }
                i = stop + 1;
            },
        }
    }
    Some(h)
}

impl Request {
    /// Reads a request from the bytes of `buffer`, decoded as UTF-8 with each
    /// invalid sequence replaced; `None` where the text is no request (see
    /// `parse_request`).
    pub fn new_from_buffer(buffer: &[u8]) -> (r: Option<Request>)
        ensures
            match (r, parse_request(lossy_text(buffer@))) {
                (None, None) => true,
                (Some(q), Some(p)) => request_is(q, p),
                _ => false,
            },
    {
        let text = decode_lossy(buffer);
        let s = chars_of(text.as_str());
        if s.len() == 0 {
            return None;
        }
        let newline = chars_of("\n");
        let sep = chars_of("\r\n\r\n");
        proof {
            reveal_strlit("\n");
            reveal_strlit("\r\n\r\n");
            assert(newline@ =~= seq!['\n']);
        }
        let stop0 = line_stop_exec(&s, &newline, 0);
        let first = line_exec(text.as_str(), &s, 0, stop0);
        let l = chars_of(first.as_str());
        assert(l@ == line_text(s@, 0));
        let a = skip_space_exec(&l, 0);
        if a >= l.len() {
            return None;
        }
        let b = word_end_exec(&l, a);
        let c = skip_space_exec(&l, b);
        if c >= l.len() {
            return None;
        }
        let d = word_end_exec(&l, c);
        let method = first.as_str().substring_char(a, b).to_string();
        let path = first.as_str().substring_char(c, d).to_string();
        let (head_text, body) = match find_exec(&s, &sep, 0) {
            Some(e) => {
                let head_text = text.as_str().substring_char(0, e).to_string();
                let body = match find_exec(&s, &sep, e + 4) {
                    Some(f) => text.as_str().substring_char(e + 4, f).to_string(),
                    None => text.as_str().substring_char(e + 4, s.len()).to_string(),
                };
                (head_text, body)
            },
            None => {
                (text.clone(), String::new())
            },
        };
        let head = chars_of(head_text.as_str());
        let headers = match parse_headers(head_text.as_str(), &head, &newline) {
            None => {
                return None;
            },
            Some(h) => h,
        };
        let version_key = "HTTP/1.1".to_string();
        proof {
            lemma_last_index_bounds(headers_view(headers@), version_key@);
        }
        let version = match find_header(&headers, &version_key) {
            Some(i) => headers[i].1.clone(),
            None => "HTTP/1.1".to_string(),
        };
        Some(Request { method, path, version, headers, body })
    }

    /// Whether `gzip` is one of the items of the `Accept-Encoding` header
    /// (a `, `-separated list; an absent header lists nothing).
    pub fn has_content_encoding_gzip(&self) -> (r: bool)
        ensures
            r == lists_gzip(
                match lookup(headers_view(self.headers@), "Accept-Encoding"@) {
                    Some(v) => v,
                    None => Seq::empty(),
                },
            ),
    {
        let name = "Accept-Encoding".to_string();
        proof {
            lemma_last_index_bounds(headers_view(self.headers@), name@);
        }
        let value = match find_header(&self.headers, &name) {
            Some(i) => self.headers[i].1.clone(),
            None => String::new(),
        };
        let v = chars_of(value.as_str());
        assert(v@ == match lookup(headers_view(self.headers@), "Accept-Encoding"@) {
            Some(v) => v,
            None => Seq::<char>::empty(),
        });
        let gzip = chars_of("gzip");
        let comma = chars_of(", ");
        proof {
            reveal_strlit("gzip");
            reveal_strlit(", ");
        }
        let mut i: usize = 0;
        while i <= v.len() && 4 <= v.len() - i
            invariant
                v@ == value@,
                v@ == match lookup(headers_view(self.headers@), "Accept-Encoding"@) {
                    Some(v) => v,
                    None => Seq::<char>::empty(),
                },
                gzip@ == "gzip"@,
                comma@ == ", "@,
                forall|j: int| 0 <= j < i ==> !gzip_listed_at(v@, j),
            decreases v.len() - i,
        {
            let before = i == 0 || (i >= 2 && occurs_at_exec(&v, &comma, i - 2));
            let after = i + 4 == v.len() || occurs_at_exec(&v, &comma, i + 4);
            if occurs_at_exec(&v, &gzip, i) && before && after {
                assert(gzip_listed_at(v@, i as int));
                assert(lists_gzip(v@));
                return true;
            }
            i = i + 1;
        }
        assert forall|j: int| !gzip_listed_at(v@, j) by {
            if 0 <= j && j >= i {
                assert(!occurs_at(v@, "gzip"@, j));
            }
        }
        false
    }
}

} // verus!
