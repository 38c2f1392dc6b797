//! HTTP Basic authentication.
use vstd::prelude::*;
use vstd::utf8::*;

use crate::encode;
use crate::http_code;
use crate::problem_type;
use crate::response::{self, Response, ResponseView};
use crate::text;

verus! {

/// Whether two byte strings are equal, looking at every byte of both whatever they hold.
fn constant_time_eq_bytes(a: &[u8], b: &[u8]) -> (r: bool)
    ensures
        r == (a@ == b@),
{
    if a.len() != b.len() {
        return false;
    }
    let n: usize = a.len();
    let mut diff: u8 = 0;
    let mut i: usize = 0;
    assert(a@.take(0) =~= b@.take(0));
    while i < n
        invariant
            n == a@.len(),
            n == b@.len(),
            i <= n,
            diff == 0 <==> a@.take(i as int) == b@.take(i as int),
        decreases n - i,
    {
        let x: u8 = a[i];
        let y: u8 = b[i];
        let ghost before = diff;
        proof {
            assert((before | (x ^ y)) == 0 <==> (before == 0 && x == y)) by (bit_vector);
            assert(a@.take(i + 1) =~= a@.take(i as int).push(x));
            assert(b@.take(i + 1) =~= b@.take(i as int).push(y));
            if a@.take(i + 1) == b@.take(i + 1) {
                assert(a@.take(i + 1)[i as int] == b@.take(i + 1)[i as int]);
                assert(a@.take(i as int) =~= a@.take(i + 1).take(i as int));
                assert(b@.take(i as int) =~= b@.take(i + 1).take(i as int));
            }
        }
        diff = diff | (x ^ y);
        i = i + 1;
    }
    assert(a@.take(n as int) =~= a@);
    assert(b@.take(n as int) =~= b@);
    diff == 0
}

/// Whether two texts are equal; the time taken does not tell how many leading bytes match.
pub fn constant_time_eq(a: &str, b: &str) -> (r: bool)
    ensures
        r == (a@ == b@),
{
    proof {
        encode_utf8_decode_utf8(a@);
        encode_utf8_decode_utf8(b@);
    }
    constant_time_eq_bytes(a.as_bytes(), b.as_bytes())
}

/// The header value that carries credentials.
pub open spec fn credentials(username: Seq<char>, password: Seq<char>) -> Seq<char> {
    "Basic "@ + encode::base64_text(encode_utf8(username + ":"@ + password))
}

/// Builds the header value that carries credentials.
pub fn basic_auth(username: &str, password: &str) -> (r: String)
    ensures
        r@ == credentials(username@, password@),
{
    let plain = text::join3(username, ":", password);
    text::join2("Basic ", &encode::base64_encode(plain.as_str().as_bytes()))
}

/// Whether the `Authorization` header of a request carries the credentials.
pub fn check_auth(header: Option<&str>, username: &str, password: &str) -> (r: bool)
    ensures
        r == (text::opt_str(header) == Some(credentials(username@, password@))),
{
    let given = match header {
        Some(h) => h,
        None => {
            return false;
        },
    };
    let plain = text::join3(username, ":", password);
    let ghost wanted = encode_utf8(plain@);
    let encoded = match text::strip_prefix(given, "Basic ") {
        Some(e) => e,
        None => {
            proof {
                let c = credentials(username@, password@);
                assert(c.subrange(0, "Basic "@.len() as int) =~= "Basic "@);
            }
            return false;
        },
    };
    proof {
        let c = credentials(username@, password@);
        assert(c.skip("Basic "@.len() as int) =~= encode::base64_text(wanted));
        assert(given@ =~= "Basic "@ + encoded@);
    }
    match encode::base64_decode(&encoded) {
        Some(bytes) => {
            assert((encode::bytes_view(Some(bytes)) == Some(wanted)) == (encoded@
                == encode::base64_text(wanted)));
            constant_time_eq_bytes(bytes.as_slice(), plain.as_str().as_bytes())
        },
        None => {
            assert(encoded@ != encode::base64_text(wanted));
            false
        },
    }
}

/// The answer to a request without the right credentials.
pub open spec fn unauthorized() -> ResponseView {
    response::with_header(
        response::problem_reply(
            401,
            problem_type::UNAUTHORIZED@,
            "Unauthorized"@,
            "missing or invalid credentials"@,
        ),
        "WWW-Authenticate"@,
        "Basic realm=\"bangumi-rss\""@,
    )
}

/// The answer to a request without the right credentials.
pub fn unauthorized_response() -> (r: Response)
    ensures
        r@ == unauthorized(),
{
    let r = response::problem_response(
        http_code::UNAUTHORIZED,
        problem_type::UNAUTHORIZED,
        "Unauthorized",
        "missing or invalid credentials",
    );
    r.add_header("WWW-Authenticate", "Basic realm=\"bangumi-rss\"".to_owned())
}

/// Refuses a request that lacks the configured credentials; an empty username turns
/// authentication off.
pub fn gate(header: Option<&str>, username: &str, password: &str) -> (r: Option<Response>)
    ensures
        match r {
            Some(refusal) => username@.len() > 0 && text::opt_str(header) != Some(
                credentials(username@, password@),
            ) && refusal@ == unauthorized(),
            None => username@.len() == 0 || text::opt_str(header) == Some(
                credentials(username@, password@),
            ),
        },
{
    if !username.is_empty() && !check_auth(header, username, password) {
        Some(unauthorized_response())
    } else {
        None
    }
}

} // verus!
