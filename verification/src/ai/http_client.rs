//! The HTTP exchange with an AI provider, as plain values. The request is
//! sent by a `curl` process that reads its headers from a configuration
//! text on its standard input (so that no API key shows up among its
//! arguments) and writes the body followed by a status marker; this module
//! writes that configuration and reads that output back. Running the
//! process is left to the caller.
use vstd::prelude::*;
use crate::error::AppError;
use crate::text::{
    all_digits, concat_map, decimal, digits_value, lemma_decimal_digits, trim_start, lemma_concat_map_step, lemma_take_all, occurs_at, has_infix, matches_at,
    push_char, string_of_range, to_chars, trim, trim_bounds, trim_end, truncate, truncated, is_whitespace,
    append_decimal,
};

verus! {

broadcast use vstd::string::group_string_axioms;

/// Seconds an AI request may take before `curl` gives up.
pub const REQUEST_TIMEOUT_SECS: u64 = 120;

/// What `curl` writes between the response body and the HTTP status code.
pub const STATUS_MARKER: &'static str = "__NOVEL_STUDIO_HTTP_STATUS__";

/// A request to send: method, URL, headers (sensitive ones included; they
/// only ever go into the configuration text), JSON body and timeout.
pub struct HttpRequest {
    pub method: String,
    pub url: String,
    pub headers: Vec<(String, String)>,
    pub body_json: Option<String>,
    pub timeout_secs: u64,
}

/// The status code and body of a response.
pub struct HttpResponse {
    pub status: u16,
    pub body: String,
}

/// Headers as (name, value) views.
pub open spec fn header_views(hs: Seq<(String, String)>) -> Seq<(Seq<char>, Seq<char>)> {
    hs.map_values(|h: (String, String)| (h.0@, h.1@))
}

/// One character inside a quoted value of a `curl` configuration:
/// backslash and double quote get a backslash before them.
pub open spec fn config_char(c: char) -> Seq<char> {
    if c == '\\' {
        seq!['\\', '\\']
    } else if c == '"' {
        seq!['\\', '"']
    } else {
        seq![c]
    }
}

pub open spec fn config_escaped(s: Seq<char>) -> Seq<char> {
    concat_map(s, |c: char| config_char(c))
}

/// Escapes `value` for a double-quoted `curl` configuration value.
pub fn escape_config_value(value: &str) -> (r: String)
    ensures
        r@ == config_escaped(value@),
{
    let v = to_chars(value);
    let ghost f = |c: char| config_char(c);
    let mut r = String::new();
    let mut i: usize = 0;
    while i < v.len()
        invariant
            v@ == value@,
            0 <= i <= v@.len(),
            r@ == concat_map(v@.take(i as int), f),
            f == (|c: char| config_char(c)),
        decreases v.len() - i,
    {
        proof {
            lemma_concat_map_step(v@, i as int, f);
        }
        let c = v[i];
        if c == '\\' {
            push_char(&mut r, '\\');
            push_char(&mut r, '\\');
        } else if c == '"' {
            push_char(&mut r, '\\');
            push_char(&mut r, '"');
        } else {
            push_char(&mut r, c);
        }
        assert(r@ =~= concat_map(v@.take(i + 1), f));
        i += 1;
    }
    proof {
        lemma_take_all(v@);
    }
    r
}

pub open spec fn header_line(h: (Seq<char>, Seq<char>)) -> Seq<char> {
    "header = \""@ + h.0 + ": "@ + config_escaped(h.1) + "\"\n"@
}

/// The configuration text handed to `curl`: a `header` line per header
/// and, when the body was written to a file, a `data-binary` line that
/// reads it.
pub open spec fn curl_config_text(headers: Seq<(Seq<char>, Seq<char>)>, body_path: Option<Seq<char>>) -> Seq<
    char,
> {
    concat_map(headers, |h: (Seq<char>, Seq<char>)| header_line(h)) + match body_path {
        Some(p) => "data-binary = \"@"@ + config_escaped(p) + "\"\n"@,
        None => Seq::empty(),
    }
}

pub fn curl_config(headers: &Vec<(String, String)>, body_path: Option<&str>) -> (r: String)
    ensures
        r@ == curl_config_text(
            header_views(headers@),
            match body_path {
                Some(p) => Some(p@),
                None => None,
            },
        ),
{
    let ghost hv = header_views(headers@);
    let ghost f = |h: (Seq<char>, Seq<char>)| header_line(h);
    let mut r = String::new();
    let mut i: usize = 0;
    while i < headers.len()
        invariant
            0 <= i <= headers@.len(),
            hv == header_views(headers@),
            hv.len() == headers@.len(),
            r@ == concat_map(hv.take(i as int), f),
            f == (|h: (Seq<char>, Seq<char>)| header_line(h)),
        decreases headers.len() - i,
    {
        proof {
            lemma_concat_map_step(hv, i as int, f);
        }
        let (name, value) = &headers[i];
        r.append("header = \"");
        r.append(name.as_str());
        r.append(": ");
        let escaped = escape_config_value(value.as_str());
        r.append(escaped.as_str());
        r.append("\"\n");
        assert(hv[i as int] == (name@, value@));
        assert(r@ =~= concat_map(hv.take(i + 1), f));
        i += 1;
    }
    proof {
        lemma_take_all(hv);
    }
    if let Some(p) = body_path {
        r.append("data-binary = \"@");
        let escaped = escape_config_value(p);
        r.append(escaped.as_str());
        r.append("\"\n");
    }
    r
}

/// The `--max-time` argument: the timeout in whole seconds, at least one.
pub open spec fn max_time_text(secs: u64) -> Seq<char> {
    decimal(if secs < 1 { 1nat } else { secs as nat })
}

pub fn max_time_arg(secs: u64) -> (r: String)
    ensures
        r@ == max_time_text(secs),
{
    let mut r = String::new();
    append_decimal(&mut r, if secs < 1 { 1 } else { secs });
    r
}

/// What `curl` is asked to write after the body: a line break, the status
/// marker and the status code.
pub open spec fn write_out_text() -> Seq<char> {
    "\n"@ + STATUS_MARKER@ + "%{http_code}"@
}

/// The arguments of the `curl` process for `req`: silent but reporting
/// errors, the method and URL, the timeout, the status written after the
/// body, and the configuration read from standard input. Neither a header
/// nor the body is among them.
pub open spec fn curl_args(method: Seq<char>, url: Seq<char>, timeout_secs: u64) -> Seq<Seq<char>> {
    seq![
        "-sS"@,
        "-X"@,
        method,
        url,
        "--max-time"@,
        max_time_text(timeout_secs),
        "-w"@,
        write_out_text(),
        "-K"@,
        "-"@,
    ]
}

pub fn curl_arguments(req: &HttpRequest) -> (r: Vec<String>)
    ensures
        crate::text::views(r@) == curl_args(req.method@, req.url@, req.timeout_secs),
{
    let mut r: Vec<String> = Vec::new();
    r.push(String::from_str("-sS"));
    r.push(String::from_str("-X"));
    r.push(req.method.clone());
    r.push(req.url.clone());
    r.push(String::from_str("--max-time"));
    r.push(max_time_arg(req.timeout_secs));
    r.push(String::from_str("-w"));
    let mut w = String::from_str("\n");
    w.append(STATUS_MARKER);
    w.append("%{http_code}");
    r.push(w);
    r.push(String::from_str("-K"));
    r.push(String::from_str("-"));
    assert(crate::text::views(r@) =~= curl_args(req.method@, req.url@, req.timeout_secs));
    r
}

/// Sensitive headers never reach the process arguments, which other
/// processes on the machine can list: two requests with the same method,
/// URL and timeout get the same arguments, whatever their headers and
/// bodies.
pub proof fn law_headers_stay_out_of_arguments(a: HttpRequest, b: HttpRequest)
    requires
        a.method@ == b.method@,
        a.url@ == b.url@,
        a.timeout_secs == b.timeout_secs,
    ensures
        curl_args(a.method@, a.url@, a.timeout_secs) == curl_args(b.method@, b.url@, b.timeout_secs),
{
}

/// `p` occurs in `s` at `k` and nowhere after.
pub open spec fn is_last_occurrence(s: Seq<char>, p: Seq<char>, k: int) -> bool {
    occurs_at(s, p, k) && forall|j: int| k < j ==> !occurs_at(s, p, j)
}

/// Where `p` last occurs in `s` (meaningful when it occurs).
pub open spec fn last_occurrence(s: Seq<char>, p: Seq<char>) -> int {
    choose|k: int| is_last_occurrence(s, p, k)
}

/// The last position of `p` in `s`, if any (as `str::rsplit_once` finds it).
fn find_last(v: &Vec<char>, p: &Vec<char>) -> (r: Option<usize>)
    ensures
        match r {
            Some(k) => is_last_occurrence(v@, p@, k as int),
            None => !has_infix(v@, p@),
        },
{
    if p.len() > v.len() {
        assert forall|i: int| !occurs_at(v@, p@, i) by {}
        return None;
    }
    let mut i: usize = v.len() - p.len();
    loop
        invariant
            p@.len() <= v@.len(),
            0 <= i <= v@.len() - p@.len(),
            forall|j: int| i < j ==> !occurs_at(v@, p@, j),
        decreases i,
    {
        if matches_at(v, p, i) {
            return Some(i);
        }
        if i == 0 {
            assert forall|j: int| !occurs_at(v@, p@, j) by {
                if 0 <= j {
                    assert(i <= j);
                }
            }
            return None;
        }
        i -= 1;
    }
}

/// `str::parse::<u16>`: an optional `+`, then one or more ASCII digits
/// whose value fits in a `u16`.
pub open spec fn parse_u16(s: Seq<char>) -> Option<u16> {
    let d = if s.len() > 0 && s[0] == '+' {
        s.drop_first()
    } else {
        s
    };
    if d.len() > 0 && all_digits(d) && digits_value(d) <= u16::MAX {
        Some(digits_value(d) as u16)
    } else {
        None
    }
}

proof fn lemma_digits_grow(s: Seq<char>, i: int, j: int)
    requires
        all_digits(s),
        0 <= i <= j <= s.len(),
    ensures
        digits_value(s.take(i)) <= digits_value(s.take(j)),
    decreases j - i,
{
    if i < j {
        lemma_digits_grow(s, i, j - 1);
        assert(s.take(j).drop_last() =~= s.take(j - 1));
        assert(s.take(j).last() == s[j - 1]);
    }
}

/// Reads `v[from..to]` as `str::parse::<u16>` does.
fn parse_u16_range(v: &Vec<char>, from: usize, to: usize) -> (r: Option<u16>)
    requires
        from <= to <= v@.len(),
    ensures
        r == parse_u16(v@.subrange(from as int, to as int)),
{
    let ghost s = v@.subrange(from as int, to as int);
    let start = if from < to && v[from] == '+' {
        from + 1
    } else {
        from
    };
    let ghost d = v@.subrange(start as int, to as int);
    assert(d =~= (if s.len() > 0 && s[0] == '+' {
        s.drop_first()
    } else {
        s
    }));
    if start == to {
        return None;
    }
    let mut acc: u32 = 0;
    let mut i: usize = start;
    while i < to
        invariant
            from <= start < to <= v@.len(),
            start <= i <= to,
            d == v@.subrange(start as int, to as int),
            s == v@.subrange(from as int, to as int),
            d == (if s.len() > 0 && s[0] == '+' {
                s.drop_first()
            } else {
                s
            }),
            all_digits(d.take(i - start)),
            acc as nat == digits_value(d.take(i - start)),
            acc <= u16::MAX,
        decreases to - i,
    {
        let c = v[i];
        if c < '0' || c > '9' {
            assert(d[i - start] == c);
            assert(!all_digits(d));
            return None;
        }
        let digit: u32 = (c as u32) - ('0' as u32);
        assert(d.take(i + 1 - start).drop_last() =~= d.take(i - start));
        assert(d.take(i + 1 - start).last() == c);
        let next: u32 = acc * 10 + digit;
        if next > 65535 {
            proof {
                assert(all_digits(d.take(i + 1 - start)));
                if all_digits(d) {
                    assert(d.take(i + 1 - start) =~= d.take(i + 1 - start).take(i + 1 - start));
                    lemma_digits_grow(d, i + 1 - start, d.len() as int);
                    assert(d.take(d.len() as int) =~= d);
                }
            }
            return None;
        }
        acc = next;
        i += 1;
    }
    assert(d.take(i - start) =~= d);
    Some(acc as u16)
}

/// The body and status that `curl`'s output stands for: before the last
/// status marker the body (trailing whitespace removed), after it the
/// status code (0 when it does not read as one); without a marker, the
/// whole output and status 0.
pub open spec fn curl_reply(out: Seq<char>) -> (Seq<char>, u16) {
    if has_infix(out, STATUS_MARKER@) {
        let k = last_occurrence(out, STATUS_MARKER@);
        (
            trim_end(out.take(k)),
            match parse_u16(trim(out.skip(k + STATUS_MARKER@.len()))) {
                Some(n) => n,
                None => 0,
            },
        )
    } else {
        (out, 0)
    }
}

/// `v[0..to]` without its trailing whitespace ends at the returned index.
fn trim_end_bound(v: &Vec<char>, to: usize) -> (b: usize)
    requires
        to <= v@.len(),
    ensures
        b <= to,
        trim_end(v@.take(to as int)) == v@.take(b as int),
{
    let mut b = to;
    while b > 0 && is_whitespace(v[b - 1])
        invariant
            b <= to <= v@.len(),
            trim_end(v@.take(to as int)) == trim_end(v@.take(b as int)),
        decreases b,
    {
        assert(v@.take(b as int).drop_last() =~= v@.take(b - 1));
        b -= 1;
    }
    b
}

/// Splits `curl`'s standard output into the response (see `curl_reply`).
pub fn parse_curl_output(out: &str) -> (r: HttpResponse)
    ensures
        (r.body@, r.status) == curl_reply(out@),
{
    let v = to_chars(out);
    let m = to_chars(STATUS_MARKER);
    match find_last(&v, &m) {
        Some(k) => {
            proof {
                assert(is_last_occurrence(out@, STATUS_MARKER@, k as int));
                assert(has_infix(out@, STATUS_MARKER@));
                let c = last_occurrence(out@, STATUS_MARKER@);
                assert(is_last_occurrence(out@, STATUS_MARKER@, c));
                if c < k {
                    assert(!occurs_at(out@, STATUS_MARKER@, k as int));
                } else if c > k {
                    assert(!occurs_at(out@, STATUS_MARKER@, c));
                }
                assert(c == k);
            }
            assert(k + m@.len() <= v@.len());
            let b = trim_end_bound(&v, k);
            let body = string_of_range(&v, 0, b);
            assert(v@.take(b as int) =~= v@.subrange(0, b as int));
            assert(k + m@.len() <= v@.len());
            assert(v@.len() == v.len());
            let after = k + m.len();
            let (sa, sb) = trim_bounds(&v, after, v.len());
            assert(v@.subrange(k + m@.len(), v@.len() as int) =~= out@.skip(k + STATUS_MARKER@.len()));
            let status = match parse_u16_range(&v, sa, sb) {
                Some(n) => n,
                None => 0,
            };
            HttpResponse { status, body }
        },
        None => HttpResponse { status: 0, body: String::from_str(out) },
    }
}

/// A status in the 2xx range.
pub open spec fn status_ok(status: u16) -> bool {
    200 <= status < 300
}

/// The error reported for a response outside the 2xx range: who answered,
/// the status, and the start of the body (500 characters at most).
pub open spec fn status_error_text(api: Seq<char>, status: u16, body: Seq<char>) -> Seq<char> {
    api + "がエラーを返しました(status="@ + decimal(status as nat) + "): "@ + truncated(body, 500)
}

/// Accepts a 2xx response; any other is an error naming `api`.
pub fn check_status(api: &str, resp: &HttpResponse) -> (r: Result<(), AppError>)
    ensures
        status_ok(resp.status) <==> r is Ok,
        !status_ok(resp.status) ==> (r matches Err(AppError::Other(m)) && m@ == status_error_text(
            api@,
            resp.status,
            resp.body@,
        )),
{
    if resp.status >= 200 && resp.status < 300 {
        Ok(())
    } else {
        let mut m = String::from_str(api);
        m.append("がエラーを返しました(status=");
        append_decimal(&mut m, resp.status as u64);
        m.append("): ");
        let cut = truncate(resp.body.as_str(), 500);
        m.append(cut.as_str());
        Err(AppError::Other(m))
    }
}

/// The error reported when a response body is not the JSON expected.
pub open spec fn parse_error_text(api: Seq<char>, detail: Seq<char>) -> Seq<char> {
    api + "の応答を解析できませんでした: "@ + detail
}

pub fn parse_failure(api: &str, detail: &str) -> (e: AppError)
    ensures
        e matches AppError::Other(m) && m@ == parse_error_text(api@, detail@),
{
    let mut m = String::from_str(api);
    m.append("の応答を解析できませんでした: ");
    m.append(detail);
    AppError::Other(m)
}

/// What a provider makes of a request: the URL and headers of a POST, or
/// the message of the error that stops it.
pub open spec fn is_call(
    r: Result<HttpRequest, AppError>,
    expected: Result<(Seq<char>, Seq<(Seq<char>, Seq<char>)>), Seq<char>>,
    body: Seq<char>,
) -> bool {
    match expected {
        Ok(call) => match r {
            Ok(q) => {
                &&& q.method@ == "POST"@
                &&& q.url@ == call.0
                &&& header_views(q.headers@) == call.1
                &&& q.body_json == Some(q.body_json->0) && q.body_json->0@ == body
                &&& q.timeout_secs == REQUEST_TIMEOUT_SECS
            },
            Err(_) => false,
        },
        Err(m) => match r {
            Err(AppError::Other(e)) => e@ == m,
            _ => false,
        },
    }
}

/// A POST of `body_json` to `url` with `headers`, under the usual timeout.
pub fn post(url: String, headers: Vec<(String, String)>, body_json: String) -> (q: HttpRequest)
    ensures
        q.method@ == "POST"@,
        q.url@ == url@,
        q.headers@ == headers@,
        q.body_json == Some(body_json),
        q.timeout_secs == REQUEST_TIMEOUT_SECS,
{
    HttpRequest {
        method: String::from_str("POST"),
        url,
        headers,
        body_json: Some(body_json),
        timeout_secs: REQUEST_TIMEOUT_SECS,
    }
}

/// A header as a (name, value) pair of strings.
pub fn header(name: &str, value: &str) -> (h: (String, String))
    ensures
        h.0@ == name@,
        h.1@ == value@,
{
    (String::from_str(name), String::from_str(value))
}

/// The value curl reads from a double-quoted configuration value: a
/// backslash takes the next character literally, except that `\t`, `\n`,
/// `\r` and `\v` stand for tab, line feed, carriage return and vertical
/// tab.
pub open spec fn config_unescaped(e: Seq<char>) -> Seq<char>
    decreases e.len(),
{
    if e.len() == 0 {
        Seq::empty()
    } else if e[0] == '\\' && e.len() >= 2 {
        let c = if e[1] == 't' {
            '\t'
        } else if e[1] == 'n' {
            '\n'
        } else if e[1] == 'r' {
            '\r'
        } else if e[1] == 'v' {
            '\u{b}'
        } else {
            e[1]
        };
        seq![c] + config_unescaped(e.skip(2))
    } else {
        seq![e[0]] + config_unescaped(e.skip(1))
    }
}

proof fn lemma_concat_map_front<A>(s: Seq<A>, f: spec_fn(A) -> Seq<char>)
    requires
        s.len() > 0,
    ensures
        concat_map(s, f) == f(s[0]) + concat_map(s.drop_first(), f),
    decreases s.len(),
{
    if s.len() == 1 {
        assert(s.drop_last() =~= Seq::<A>::empty());
        assert(s.drop_first() =~= Seq::<A>::empty());
        assert(concat_map(s.drop_first(), f) =~= Seq::<char>::empty());
        assert(concat_map(s, f) =~= f(s[0]));
    } else {
        lemma_concat_map_front(s.drop_last(), f);
        assert(s.drop_last().drop_first() =~= s.drop_first().drop_last());
        assert(s.drop_first().last() == s.last());
        assert(concat_map(s, f) =~= f(s[0]) + concat_map(s.drop_first(), f));
    }
}

proof fn lemma_unescape_unit(c: char, rest: Seq<char>)
    ensures
        config_unescaped(config_char(c) + rest) == seq![c] + config_unescaped(rest),
{
    let e = config_char(c) + rest;
    if c == '\\' || c == '"' {
        assert(e.skip(2) =~= rest);
    } else {
        assert(e.skip(1) =~= rest);
    }
}

/// What `escape_config_value` writes, curl reads back: for a value on one
/// line (the configuration is read line by line), the unescaped text of
/// the escaped value is the value itself.
pub proof fn law_config_value_round_trip(value: Seq<char>)
    requires
        !value.contains('\n'),
        !value.contains('\r'),
    ensures
        config_unescaped(config_escaped(value)) == value,
    decreases value.len(),
{
    if value.len() == 0 {
        assert(config_escaped(value) =~= Seq::<char>::empty());
    } else {
        let f = |c: char| config_char(c);
        lemma_concat_map_front(value, f);
        let rest = value.drop_first();
        assert(!rest.contains('\n')) by {
            if rest.contains('\n') {
                let i = choose|i: int| 0 <= i < rest.len() && rest[i] == '\n';
                assert(value[i + 1] == '\n');
            }
        }
        assert(!rest.contains('\r')) by {
            if rest.contains('\r') {
                let i = choose|i: int| 0 <= i < rest.len() && rest[i] == '\r';
                assert(value[i + 1] == '\r');
            }
        }
        law_config_value_round_trip(rest);
        lemma_unescape_unit(value[0], config_escaped(rest));
        assert(seq![value[0]] + rest =~= value);
    }
}

proof fn lemma_digits_untrimmed(s: Seq<char>)
    requires
        s.len() > 0,
        all_digits(s),
    ensures
        trim(s) == s,
{
    assert('0' <= s[0] <= '9');
    assert('0' <= s.last() <= '9');
    assert(trim_start(s) == s);
    assert(trim_end(s) == s);
}

/// What `curl` writes for a response, `parse_curl_output` reads back: for
/// a body and a status code written as `curl` writes them (the body, the
/// status marker, the code in decimal), it gives the status code and the
/// body without its trailing whitespace.
pub proof fn law_curl_output_round_trip(body: Seq<char>, status: u16)
    ensures
        curl_reply(body + STATUS_MARKER@ + decimal(status as nat)) == (trim_end(body), status),
{
    let m = STATUS_MARKER@;
    let d = decimal(status as nat);
    let out = body + m + d;
    let b = body.len() as int;
    reveal_strlit("__NOVEL_STUDIO_HTTP_STATUS__");
    assert(m.len() == 28);
    lemma_decimal_digits(status as nat);
    assert(out.subrange(b, b + 28) =~= m);
    assert(occurs_at(out, m, b));
    assert forall|j: int| b < j implies !occurs_at(out, m, j) by {
        if occurs_at(out, m, j) {
            assert(out.subrange(j, j + 28)[27] == m[27]);
            assert(out[j + 27] == d[j - b - 1]);
        }
    }
    assert(is_last_occurrence(out, m, b));
    assert(has_infix(out, m));
    let c = last_occurrence(out, m);
    assert(is_last_occurrence(out, m, c));
    if c < b {
        assert(!occurs_at(out, m, b));
    } else if c > b {
        assert(!occurs_at(out, m, c));
    }
    assert(c == b);
    assert(out.take(b) =~= body);
    assert(out.skip(b + 28) =~= d);
    lemma_digits_untrimmed(d);
    assert(d[0] != '+');
    assert(parse_u16(d) == Some(status));
}

} // verus!
