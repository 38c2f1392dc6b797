//! Encodings of text: JSON strings, URL query parts and base64.
use vstd::prelude::*;
use vstd::utf8::*;

use crate::text;

verus! {

// ── Percent encoding ──

/// An upper-case hexadecimal digit.
pub open spec fn upper_hex(d: int) -> char {
    if d < 10 {
        (48 + d) as char
    } else {
        (55 + d) as char
    }
}

/// A byte as `%XX`.
pub open spec fn percent(b: u8) -> Seq<char> {
    seq!['%', upper_hex(b as int / 16), upper_hex(b as int % 16)]
}

/// Whether a byte is an ASCII letter or digit.
pub open spec fn is_alnum(b: u8) -> bool {
    (48 <= b <= 57) || (65 <= b <= 90) || (97 <= b <= 122)
}

/// Whether a byte is one of `-`, `_`, `.` and `~`.
pub open spec fn is_mark(b: u8) -> bool {
    b == 45 || b == 95 || b == 46 || b == 126
}

/// Letters and digits as they are, every other byte as `%XX`.
pub open spec fn strict_byte(b: u8) -> Seq<char> {
    if is_alnum(b) {
        seq![b as char]
    } else {
        percent(b)
    }
}

/// Letters and digits as they are, a space as `+`, every other byte as `%XX`.
pub open spec fn form_byte(b: u8) -> Seq<char> {
    if b == 32 {
        seq!['+']
    } else {
        strict_byte(b)
    }
}

/// Letters, digits and marks as they are, a space as `+`, every other byte as `%XX`.
pub open spec fn keyword_byte(b: u8) -> Seq<char> {
    if is_mark(b) {
        seq![b as char]
    } else {
        form_byte(b)
    }
}

/// Letters, digits, marks, `/` and `:` as they are, every other byte as `%XX`.
pub open spec fn link_byte(b: u8) -> Seq<char> {
    if is_mark(b) || b == 47 || b == 58 {
        seq![b as char]
    } else {
        strict_byte(b)
    }
}

/// Letters, digits and marks as they are, every other byte as `%XX`.
pub open spec fn field_byte(b: u8) -> Seq<char> {
    if is_mark(b) {
        seq![b as char]
    } else {
        strict_byte(b)
    }
}

/// The encodings of bytes, one behind the other.
pub open spec fn encode_bytes(bytes: Seq<u8>, f: spec_fn(u8) -> Seq<char>) -> Seq<char>
    decreases bytes.len(),
{
    if bytes.len() == 0 {
        seq![]
    } else {
        f(bytes[0]) + encode_bytes(bytes.skip(1), f)
    }
}

/// A text with every byte but letters and digits percent-encoded.
pub open spec fn strict_encoded(s: Seq<char>) -> Seq<char> {
    encode_bytes(encode_utf8(s), |b: u8| strict_byte(b))
}

/// A text as a form value.
pub open spec fn form_encoded(s: Seq<char>) -> Seq<char> {
    encode_bytes(encode_utf8(s), |b: u8| form_byte(b))
}

/// A text as a search keyword in a URL.
pub open spec fn keyword_encoded(s: Seq<char>) -> Seq<char> {
    encode_bytes(encode_utf8(s), |b: u8| keyword_byte(b))
}

/// A link as a query value in a URL.
pub open spec fn link_encoded(s: Seq<char>) -> Seq<char> {
    encode_bytes(encode_utf8(s), |b: u8| link_byte(b))
}

/// A text as the name or value of a field in a form.
pub open spec fn field_encoded(s: Seq<char>) -> Seq<char> {
    encode_bytes(encode_utf8(s), |b: u8| field_byte(b))
}

/// `percent_encoding::utf8_percent_encode` with the set `NON_ALPHANUMERIC` keeps ASCII letters
/// and digits and writes every other byte of the UTF-8 text as `%XX` in upper-case digits.
#[verifier::external_body]
fn utf8_percent_encode(s: &str) -> (r: String)
    ensures
        r@ == strict_encoded(s@),
{
    percent_encoding::utf8_percent_encode(s, percent_encoding::NON_ALPHANUMERIC).to_string()
}

/// Passing over a character with which the part does not begin.
proof fn lemma_replaced_skip(s: Seq<char>, part: Seq<char>, by: Seq<char>)
    requires
        part.len() > 0,
        s.len() > 0,
        s[0] != part[0],
    ensures
        text::replaced(s, part, by) == seq![s[0]] + text::replaced(s.skip(1), part, by),
{
    if s.len() >= part.len() {
        if part.is_prefix_of(s) {
            assert(s.subrange(0, part.len() as int)[0] == part[0]);
        }
    } else {
        assert(seq![s[0]] + s.skip(1) =~= s);
    }
}

/// Percent-encoding with `%20` turned into `+` is the encoding of form values.
proof fn lemma_form(bytes: Seq<u8>)
    ensures
        text::replaced(
            encode_bytes(bytes, |b: u8| strict_byte(b)),
            seq!['%', '2', '0'],
            seq!['+'],
        ) == encode_bytes(bytes, |b: u8| form_byte(b)),
    decreases bytes.len(),
{
    let part = seq!['%', '2', '0'];
    let by = seq!['+'];
    let f = |b: u8| strict_byte(b);
    let g = |b: u8| form_byte(b);
    let s = encode_bytes(bytes, f);
    if bytes.len() > 0 {
        let b = bytes[0];
        let rest = encode_bytes(bytes.skip(1), f);
        lemma_form(bytes.skip(1));
        assert(s == strict_byte(b) + rest);
        let done = text::replaced(rest, part, by);
        if is_alnum(b) {
            assert(s.skip(1) =~= rest);
            lemma_replaced_skip(s, part, by);
        } else if b == 32 {
            assert(s.subrange(0, 3) =~= part);
            assert(s.skip(3) =~= rest);
        } else {
            let h = upper_hex(b as int / 16);
            let l = upper_hex(b as int % 16);
            assert(s[0] == '%' && s[1] == h && s[2] == l);
            if part.is_prefix_of(s) {
                assert(s.subrange(0, 3)[1] == '2');
                assert(s.subrange(0, 3)[2] == '0');
                assert(b as int / 16 == 2 && b as int % 16 == 0);
            }
            let s1 = s.skip(1);
            let s2 = s1.skip(1);
            assert(s2.skip(1) =~= rest);
            lemma_replaced_skip(s1, part, by);
            lemma_replaced_skip(s2, part, by);
            assert(seq!['%'] + (seq![h] + (seq![l] + done)) =~= percent(b) + done);
        }
    }
}

/// Encodes a text as a form value: space → `+`, special characters → `%XX`.
pub fn url_encode(s: &str) -> (r: String)
    ensures
        r@ == form_encoded(s@),
{
    let encoded = utf8_percent_encode(s);
    proof {
        reveal_strlit("%20");
        reveal_strlit("+");
        assert("%20"@ =~= seq!['%', '2', '0']);
        assert("+"@ =~= seq!['+']);
        lemma_form(encode_utf8(s@));
    }
    text::replace_text(&encoded, "%20", "+")
}

fn hex_digit(d: u8) -> (r: char)
    requires
        d < 16,
    ensures
        r == upper_hex(d as int),
{
    if d < 10 {
        (48 + d) as char
    } else {
        (55 + d) as char
    }
}

fn push_percent(out: &mut String, b: u8)
    ensures
        final(out)@ == old(out)@ + percent(b),
{
    out.push('%');
    out.push(hex_digit(b / 16));
    out.push(hex_digit(b % 16));
    assert(out@ =~= old(out)@ + percent(b));
}

fn alnum(b: u8) -> (r: bool)
    ensures
        r == is_alnum(b),
{
    (48 <= b && b <= 57) || (65 <= b && b <= 90) || (97 <= b && b <= 122)
}

fn mark(b: u8) -> (r: bool)
    ensures
        r == is_mark(b),
{
    b == 45 || b == 95 || b == 46 || b == 126
}

/// Encodes a search keyword for the path of a URL.
pub fn encode_keyword(s: &str) -> (r: String)
    ensures
        r@ == keyword_encoded(s@),
{
    let bytes = s.as_bytes();
    let ghost all = encode_utf8(s@);
    let ghost f = |b: u8| keyword_byte(b);
    let n: usize = bytes.len();
    let mut out = String::new();
    let mut i: usize = 0;
    assert(all.skip(0) =~= all);
    assert(out@ + encode_bytes(all, f) =~= encode_bytes(all, f));
    while i < n
        invariant
            i <= n,
            n == all.len(),
            bytes@ == all,
            f == (|b: u8| keyword_byte(b)),
            encode_bytes(all, f) == out@ + encode_bytes(all.skip(i as int), f),
        decreases n - i,
    {
        let b: u8 = bytes[i];
        let ghost before = out@;
        if alnum(b) || mark(b) {
            out.push(b as char);
        } else if b == 32 {
            out.push('+');
        } else {
            push_percent(&mut out, b);
        }
        assert(out@ =~= before + keyword_byte(b));
        proof {
            assert(all.skip(i as int).skip(1) =~= all.skip(i + 1));
            let tail = encode_bytes(all.skip(i + 1), f);
            assert(before + (keyword_byte(b) + tail) =~= (before + keyword_byte(b)) + tail);
        }
        i = i + 1;
    }
    assert(out@ + encode_bytes(all.skip(n as int), f) =~= out@);
    out
}

/// Encodes a link for the query of a URL.
pub fn encode_link(s: &str) -> (r: String)
    ensures
        r@ == link_encoded(s@),
{
    let bytes = s.as_bytes();
    let ghost all = encode_utf8(s@);
    let ghost f = |b: u8| link_byte(b);
    let n: usize = bytes.len();
    let mut out = String::new();
    let mut i: usize = 0;
    assert(all.skip(0) =~= all);
    assert(out@ + encode_bytes(all, f) =~= encode_bytes(all, f));
    while i < n
        invariant
            i <= n,
            n == all.len(),
            bytes@ == all,
            f == (|b: u8| link_byte(b)),
            encode_bytes(all, f) == out@ + encode_bytes(all.skip(i as int), f),
        decreases n - i,
    {
        let b: u8 = bytes[i];
        let ghost before = out@;
        if alnum(b) || mark(b) || b == 47 || b == 58 {
            out.push(b as char);
        } else {
            push_percent(&mut out, b);
        }
        assert(out@ =~= before + link_byte(b));
        proof {
            assert(all.skip(i as int).skip(1) =~= all.skip(i + 1));
            let tail = encode_bytes(all.skip(i + 1), f);
            assert(before + (link_byte(b) + tail) =~= (before + link_byte(b)) + tail);
        }
        i = i + 1;
    }
    assert(out@ + encode_bytes(all.skip(n as int), f) =~= out@);
    out
}

/// Encodes the name or value of a field in a form.
pub fn encode_field(s: &str) -> (r: String)
    ensures
        r@ == field_encoded(s@),
{
    let bytes = s.as_bytes();
    let ghost all = encode_utf8(s@);
    let ghost f = |b: u8| field_byte(b);
    let n: usize = bytes.len();
    let mut out = String::new();
    let mut i: usize = 0;
    assert(all.skip(0) =~= all);
    assert(out@ + encode_bytes(all, f) =~= encode_bytes(all, f));
    while i < n
        invariant
            i <= n,
            n == all.len(),
            bytes@ == all,
            f == (|b: u8| field_byte(b)),
            encode_bytes(all, f) == out@ + encode_bytes(all.skip(i as int), f),
        decreases n - i,
    {
        let b: u8 = bytes[i];
        let ghost before = out@;
        if alnum(b) || mark(b) {
            out.push(b as char);
        } else {
            push_percent(&mut out, b);
        }
        assert(out@ =~= before + field_byte(b));
        proof {
            assert(all.skip(i as int).skip(1) =~= all.skip(i + 1));
            let tail = encode_bytes(all.skip(i + 1), f);
            assert(before + (field_byte(b) + tail) =~= (before + field_byte(b)) + tail);
        }
        i = i + 1;
    }
    assert(out@ + encode_bytes(all.skip(n as int), f) =~= out@);
    out
}

/// A form value holds letters, digits, `%` and `+` alone, so it cannot end a field or begin
/// another.
pub proof fn law_form_value_is_safe(s: Seq<char>, i: int)
    requires
        0 <= i < form_encoded(s).len(),
    ensures
        ({
            let c = form_encoded(s)[i];
            c == '%' || c == '+' || ('0' <= c <= '9') || ('A' <= c <= 'Z') || ('a' <= c <= 'z')
        }),
{
    lemma_form_safe(encode_utf8(s), i);
}

proof fn lemma_form_safe(bytes: Seq<u8>, i: int)
    requires
        0 <= i < encode_bytes(bytes, |b: u8| form_byte(b)).len(),
    ensures
        ({
            let c = encode_bytes(bytes, |b: u8| form_byte(b))[i];
            c == '%' || c == '+' || ('0' <= c <= '9') || ('A' <= c <= 'Z') || ('a' <= c <= 'z')
        }),
    decreases bytes.len(),
{
    let f = |b: u8| form_byte(b);
    if bytes.len() > 0 {
        let head = form_byte(bytes[0]);
        if i >= head.len() {
            lemma_form_safe(bytes.skip(1), i - head.len());
        }
    }
}

// ── JSON strings ──

/// A lower-case hexadecimal digit.
pub open spec fn lower_hex(d: int) -> char {
    if d < 10 {
        (48 + d) as char
    } else {
        (87 + d) as char
    }
}

/// A character inside a JSON string.
pub open spec fn json_char(c: char) -> Seq<char> {
    if c == '"' {
        seq!['\\', '"']
    } else if c == '\\' {
        seq!['\\', '\\']
    } else if c as int == 8 {
        seq!['\\', 'b']
    } else if c as int == 9 {
        seq!['\\', 't']
    } else if c as int == 10 {
        seq!['\\', 'n']
    } else if c as int == 12 {
        seq!['\\', 'f']
    } else if c as int == 13 {
        seq!['\\', 'r']
    } else if (c as int) < 32 {
        seq!['\\', 'u', '0', '0', lower_hex(c as int / 16), lower_hex(c as int % 16)]
    } else {
        seq![c]
    }
}

/// A text inside a JSON string.
pub open spec fn json_escaped(s: Seq<char>) -> Seq<char>
    decreases s.len(),
{
    if s.len() == 0 {
        seq![]
    } else {
        json_escaped(s.drop_last()) + json_char(s.last())
    }
}

/// A text as a JSON string.
pub open spec fn json_quoted(s: Seq<char>) -> Seq<char> {
    seq!['"'] + json_escaped(s) + seq!['"']
}

/// `serde_json::to_string` on a text puts it between double quotes and escapes double quotes,
/// backslashes and the control characters below U+0020. It does not fail on a text.
#[verifier::external_body]
pub(crate) fn json_string(s: &str) -> (r: String)
    ensures
        r@ == json_quoted(s@),
{
    serde_json::to_string(s).unwrap()
}

/// A text as it stands inside a JSON string.
pub fn json_escape(s: &str) -> (r: String)
    ensures
        r@ == json_escaped(s@),
{
    let quoted = json_string(s);
    let chars = text::chars_of(&quoted);
    let inner = text::text_of(&chars, 1, chars.len() - 1);
    assert(inner@ =~= json_escaped(s@));
    inner
}

proof fn lemma_char_range(c: char)
    ensures
        0 <= c as int <= 0x10ffff,
{
}

/// Text inside a JSON string holds no control characters.
pub proof fn law_json_text_has_no_controls(s: Seq<char>, i: int)
    requires
        0 <= i < json_escaped(s).len(),
    ensures
        json_escaped(s)[i] as int >= 32,
    decreases s.len(),
{
    if s.len() > 0 {
        let init = json_escaped(s.drop_last());
        if i < init.len() {
            law_json_text_has_no_controls(s.drop_last(), i);
        } else {
            let c = s.last();
            let k = i - init.len();
            assert(json_escaped(s)[i] == json_char(c)[k]);
            lemma_char_range(c);
            if (c as int) < 32 {
                assert(0 <= c as int / 16 <= 1);
                assert(0 <= c as int % 16 < 16);
                assert(lower_hex(c as int / 16) as int >= 48);
                assert(lower_hex(c as int % 16) as int >= 48);
                assert(json_char(c)[k] as int >= 32);
            }
        }
    }
}

// ── Hexadecimal numbers ──

/// A number in hexadecimal digits, upper or lower case.
pub open spec fn hex(n: nat, upper: bool) -> Seq<char>
    decreases n,
{
    let last = if upper {
        upper_hex((n % 16) as int)
    } else {
        lower_hex((n % 16) as int)
    };
    if n < 16 {
        seq![last]
    } else {
        hex(n / 16, upper).push(last)
    }
}

/// A text filled up with zeros in front to a width.
pub open spec fn zero_padded(s: Seq<char>, width: nat) -> Seq<char> {
    if s.len() < width {
        Seq::new((width - s.len()) as nat, |i: int| '0') + s
    } else {
        s
    }
}

fn push_hex(out: &mut String, n: u128, upper: bool)
    ensures
        final(out)@ == old(out)@ + hex(n as nat, upper),
    decreases n,
{
    if n >= 16 {
        push_hex(out, n / 16, upper);
    }
    let d: u8 = (n % 16) as u8;
    let digit = hex_digit(d);
    let ghost before = out@;
    if upper || d < 10 {
        out.push(digit);
    } else {
        out.push((87 + d) as char);
    }
    proof {
        let rest = if n >= 16 { hex((n / 16) as nat, upper) } else { Seq::<char>::empty() };
        let last = if upper { upper_hex((n % 16) as int) } else { lower_hex((n % 16) as int) };
        assert(hex(n as nat, upper) =~= rest.push(last));
        assert(before =~= old(out)@ + rest);
        assert(out@ =~= old(out)@ + rest.push(last));
    }
}

/// A number in hexadecimal digits, filled up with zeros to a width.
pub fn hex_text(n: u128, width: usize, upper: bool) -> (r: String)
    ensures
        r@ == zero_padded(hex(n as nat, upper), width as nat),
{
    let mut digits = String::new();
    push_hex(&mut digits, n, upper);
    assert(digits@ =~= hex(n as nat, upper));
    let len: usize = text::chars_of(&digits).len();
    let mut out = String::new();
    let mut i: usize = len;
    while i < width
        invariant
            len == digits@.len(),
            len <= i,
            i <= width || i == len,
            out@ == Seq::new((i - len) as nat, |k: int| '0'),
        decreases width - i,
    {
        let ghost before = out@;
        out.push('0');
        i = i + 1;
        assert(out@ =~= Seq::new((i - len) as nat, |k: int| '0'));
    }
    out.append(&digits);
    assert(out@ =~= zero_padded(hex(n as nat, upper), width as nat));
    out
}

/// The number that upper-case hexadecimal digits stand for.
spec fn hex_value(s: Seq<char>) -> int
    decreases s.len(),
{
    if s.len() == 0 {
        0
    } else {
        let c = s.last() as int;
        hex_value(s.drop_last()) * 16 + if c < 58 {
            c - 48
        } else {
            c - 55
        }
    }
}

proof fn lemma_hex_value(n: nat)
    ensures
        hex_value(hex(n, true)) == n,
    decreases n,
{
    let d = (n % 16) as int;
    assert(upper_hex(d) as int == if d < 10 {
        48 + d
    } else {
        55 + d
    });
    if n < 16 {
        assert(hex(n, true).drop_last() =~= seq![]);
        assert(hex_value(seq![]) == 0);
    } else {
        lemma_hex_value(n / 16);
        assert(hex(n, true).drop_last() =~= hex(n / 16, true));
    }
}

proof fn lemma_padded_value(zeros: nat, s: Seq<char>)
    ensures
        hex_value(Seq::new(zeros, |i: int| '0') + s) == hex_value(s),
    decreases zeros + s.len(),
{
    let front = Seq::new(zeros, |i: int| '0');
    let t = front + s;
    if s.len() > 0 {
        lemma_padded_value(zeros, s.drop_last());
        assert(t.drop_last() =~= front + s.drop_last());
    } else if zeros > 0 {
        lemma_padded_value((zeros - 1) as nat, s);
        assert(t.drop_last() =~= Seq::new((zeros - 1) as nat, |i: int| '0') + s);
    } else {
        assert(t =~= s);
    }
}

/// Different numbers are written differently in hexadecimal digits, filled up to a width or not.
pub proof fn lemma_hex_is_injective(a: nat, b: nat, width: nat)
    requires
        zero_padded(hex(a, true), width) == zero_padded(hex(b, true), width),
    ensures
        a == b,
{
    lemma_hex_value(a);
    lemma_hex_value(b);
    if hex(a, true).len() < width {
        lemma_padded_value((width - hex(a, true).len()) as nat, hex(a, true));
    }
    if hex(b, true).len() < width {
        lemma_padded_value((width - hex(b, true).len()) as nat, hex(b, true));
    }
}

// ── Base64 ──

/// The character of a six-bit number in the standard base64 alphabet.
pub open spec fn base64_char(d: int) -> char {
    if d < 26 {
        (65 + d) as char
    } else if d < 52 {
        (71 + d) as char
    } else if d < 62 {
        (d - 4) as char
    } else if d == 62 {
        '+'
    } else {
        '/'
    }
}

/// The standard base64 text of bytes, padded with `=`.
pub open spec fn base64_text(bytes: Seq<u8>) -> Seq<char>
    decreases bytes.len(),
{
    if bytes.len() == 0 {
        seq![]
    } else {
        let a = bytes[0] as int;
        let b = if bytes.len() > 1 { bytes[1] as int } else { 0 };
        let c = if bytes.len() > 2 { bytes[2] as int } else { 0 };
        let quad = seq![
            base64_char(a / 4),
            base64_char(a % 4 * 16 + b / 16),
            if bytes.len() > 1 { base64_char(b % 16 * 4 + c / 64) } else { '=' },
            if bytes.len() > 2 { base64_char(c % 64) } else { '=' },
        ];
        quad + base64_text(if bytes.len() > 3 { bytes.skip(3) } else { seq![] })
    }
}

/// The view of optional bytes.
pub open spec fn bytes_view(bytes: Option<Vec<u8>>) -> Option<Seq<u8>> {
    match bytes {
        Some(b) => Some(b@),
        None => None,
    }
}

/// `encode` of `base64::engine::general_purpose::STANDARD` writes bytes in the standard alphabet,
/// padded.
#[verifier::external_body]
pub(crate) fn base64_encode(bytes: &[u8]) -> (r: String)
    ensures
        r@ == base64_text(bytes@),
{
    base64::Engine::encode(&base64::engine::general_purpose::STANDARD, bytes)
}

/// `decode` of `base64::engine::general_purpose::STANDARD` takes canonical base64 text alone:
/// standard alphabet, exact padding, no stray bits. So it gives the bytes of which the text is
/// the base64 text, and refuses every other text.
#[verifier::external_body]
pub(crate) fn base64_decode(s: &str) -> (r: Option<Vec<u8>>)
    ensures
        forall|b: Seq<u8>| (bytes_view(r) == Some(b)) == (s@ == #[trigger] base64_text(b)),
{
    base64::Engine::decode(&base64::engine::general_purpose::STANDARD, s).ok()
}

} // verus!
