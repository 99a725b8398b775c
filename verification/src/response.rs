//! The outbound wire format: a status line, a `Content-Length` header that
//! counts the bytes of the body, a blank line and the body.

use vstd::prelude::*;
use vstd::string::StringExecFns;
use vstd::utf8::encode_utf8;

verus! {

/// The decimal digit for `d`.
pub open spec fn digit(d: nat) -> char {
    if d == 0 {
        '0'
    } else if d == 1 {
        '1'
    } else if d == 2 {
        '2'
    } else if d == 3 {
        '3'
    } else if d == 4 {
        '4'
    } else if d == 5 {
        '5'
    } else if d == 6 {
        '6'
    } else if d == 7 {
        '7'
    } else if d == 8 {
        '8'
    } else {
        '9'
    }
}

/// `n` in decimal, without leading zeros.
pub open spec fn decimal(n: nat) -> Seq<char>
    decreases n,
{
    if n < 10 {
        seq![digit(n)]
    } else {
        decimal(n / 10).push(digit(n % 10))
    }
}

/// The number of bytes that `s` takes on the wire, in UTF-8.
pub open spec fn byte_len(s: Seq<char>) -> nat {
    encode_utf8(s).len()
}

/// The status line of a served file, for the protocol version that the
/// request named.
pub open spec fn found_status(version: Seq<char>) -> Seq<char> {
    "HTTP/"@ + version + " 200 OK"@
}

/// The status line of every not-found response.
pub open spec fn not_found_status() -> Seq<char> {
    "HTTP/1.1 404 NOT FOUND"@
}

/// A response with a body: status line, the length of the body in bytes,
/// a blank line, the body.
pub open spec fn with_body(status: Seq<char>, body: Seq<char>) -> Seq<char> {
    status + "\r\nContent-Length: "@ + decimal(byte_len(body)) + "\r\n\r\n"@ + body
}

/// The response to a request that could not be read or parsed.
pub open spec fn error_text() -> Seq<char> {
    "HTTP/1.1 500 Internal server Error\r\n\r\n"@
}

/// The response when neither the resource nor the not-found page exists:
/// a status line and nothing else.
pub open spec fn bare_not_found_text() -> Seq<char> {
    "HTTP/1.1 404 NOT FOUND\r\n\r\n"@
}

/// The text of one decimal digit.
fn digit_text(d: usize) -> (t: &'static str)
    requires
        d < 10,
    ensures
        t@ == seq![digit(d as nat)],
{
    proof {
        reveal_strlit("0");
        reveal_strlit("1");
        reveal_strlit("2");
        reveal_strlit("3");
        reveal_strlit("4");
        reveal_strlit("5");
        reveal_strlit("6");
        reveal_strlit("7");
        reveal_strlit("8");
        reveal_strlit("9");
    }
    let t = if d == 0 {
        "0"
    } else if d == 1 {
        "1"
    } else if d == 2 {
        "2"
    } else if d == 3 {
        "3"
    } else if d == 4 {
        "4"
    } else if d == 5 {
        "5"
    } else if d == 6 {
        "6"
    } else if d == 7 {
        "7"
    } else if d == 8 {
        "8"
    } else {
        "9"
    };
    assert(t@ =~= seq![digit(d as nat)]);
    t
}

/// Appends `n` in decimal to `out`.
fn push_decimal(out: &mut String, n: usize)
    ensures
        final(out)@ == old(out)@ + decimal(n as nat),
    decreases n,
{
    if n >= 10 {
        push_decimal(out, n / 10);
    }
    out.append(digit_text(n % 10));
    assert(old(out)@ + decimal(n as nat / 10).push(digit(n as nat % 10)) =~= old(out)@ + decimal(
        n as nat / 10,
    ) + seq![digit(n as nat % 10)]);
}

/// Writes `n` in decimal.
pub fn decimal_string(n: usize) -> (s: String)
    ensures
        s@ == decimal(n as nat),
{
    let mut s = String::new();
    push_decimal(&mut s, n);
    assert(Seq::<char>::empty() + decimal(n as nat) =~= decimal(n as nat));
    s
}

/// The status line of a served file.
pub fn found_status_line(version: &str) -> (s: String)
    ensures
        s@ == found_status(version@),
{
    let mut s = String::from_str("HTTP/");
    s.append(version);
    s.append(" 200 OK");
    s
}

/// Assembles a response with a body into one buffer.
pub fn file_response(status_line: &str, content: &str) -> (r: String)
    ensures
        r@ == with_body(status_line@, content@),
{
    let mut r = String::from_str(status_line);
    r.append("\r\nContent-Length: ");
    push_decimal(&mut r, content.as_bytes().len());
    r.append("\r\n\r\n");
    r.append(content);
    r
}

/// The response to a request that could not be read or parsed.
pub fn error_response() -> (r: String)
    ensures
        r@ == error_text(),
{
    String::from_str("HTTP/1.1 500 Internal server Error\r\n\r\n")
}

/// The response when neither the resource nor the not-found page exists.
pub fn bare_not_found_response() -> (r: String)
    ensures
        r@ == bare_not_found_text(),
{
    String::from_str("HTTP/1.1 404 NOT FOUND\r\n\r\n")
}

} // verus!
