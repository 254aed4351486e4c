//! Text helpers shared by the request builders and the error messages.

use vstd::prelude::*;

verus! {

/// `s` holds the character NUL, the one thing a C string cannot carry.
/// (Its UTF-8 bytes then hold a zero byte, and only then: see `lemma_encode_nul`.)
pub open spec fn has_nul(s: Seq<char>) -> bool {
    s.contains('\0')
}

proof fn lemma_bytes_nonzero(c: u32)
    by (bit_vector)
    ensures
        c <= 0x7F ==> ((c & 0x7F) as u8 == 0 <==> c == 0),
        0xC0 | ((c >> 6) & 0x1F) as u8 != 0,
        0xE0 | ((c >> 12) & 0x0F) as u8 != 0,
        0xF0 | ((c >> 18) & 0x7) as u8 != 0,
        0x80 | (c & 0x3F) as u8 != 0,
        0x80 | ((c >> 6) & 0x3F) as u8 != 0,
        0x80 | ((c >> 12) & 0x3F) as u8 != 0,
{
}

proof fn lemma_encode_scalar_nul(c: u32)
    requires
        vstd::utf8::is_scalar(c),
    ensures
        vstd::utf8::encode_scalar(c).contains(0u8) <==> c == 0,
{
    lemma_bytes_nonzero(c);
    let e = vstd::utf8::encode_scalar(c);
    if c == 0 {
        assert(e[0] == 0u8);
    } else {
        assert forall|i: int| 0 <= i < e.len() implies e[i] != 0u8 by {}
    }
}

/// The UTF-8 bytes of `s` hold a zero byte exactly when `s` holds NUL.
pub proof fn lemma_encode_nul(s: Seq<char>)
    ensures
        vstd::utf8::encode_utf8(s).contains(0u8) <==> has_nul(s),
    decreases s.len(),
{
    if s.len() > 0 {
        let rest = s.drop_first();
        lemma_encode_nul(rest);
        let c = s[0] as u32;
        assert(vstd::utf8::is_scalar(c)) by {
            vstd::utf8::char_is_scalar(s[0]);
        }
        lemma_encode_scalar_nul(c);
        let head = vstd::utf8::encode_scalar(c);
        let tail = vstd::utf8::encode_utf8(rest);
        let all = vstd::utf8::encode_utf8(s);
        assert(all == head + tail);
        if all.contains(0u8) {
            let i = choose|i: int| 0 <= i < all.len() && all[i] == 0u8;
            if i < head.len() {
                assert(head[i] == 0u8);
            } else {
                assert(tail[i - head.len()] == 0u8);
            }
        }
        if head.contains(0u8) {
            let i = choose|i: int| 0 <= i < head.len() && head[i] == 0u8;
            assert(all[i] == 0u8);
        }
        if tail.contains(0u8) {
            let i = choose|i: int| 0 <= i < tail.len() && tail[i] == 0u8;
            assert(all[head.len() + i] == 0u8);
        }
        if has_nul(s) {
            let i = choose|i: int| 0 <= i < s.len() && s[i] == '\0';
            if i > 0 {
                assert(rest[i - 1] == '\0');
            } else {
                vstd::utf8::char_u32_cast(s[0], c);
                assert(c == 0);
            }
        }
        if has_nul(rest) {
            let i = choose|i: int| 0 <= i < rest.len() && rest[i] == '\0';
            assert(s[i + 1] == '\0');
        }
        if c == 0 {
            vstd::utf8::char_u32_cast(s[0], c);
            assert(s[0] == '\0');
        }
    }
}

/// Whether `s` holds a NUL byte, so that it cannot be handed to C as a string.
pub fn contains_nul(s: &str) -> (r: bool)
    ensures
        r == has_nul(s@),
{
    let bytes = s.as_bytes();
    let n = bytes.len();
    let mut i: usize = 0;
    while i < n
        invariant
            n == bytes@.len(),
            bytes@ == vstd::utf8::encode_utf8(s@),
            i <= n,
            forall|j: int| 0 <= j < i ==> bytes@[j] != 0u8,
        decreases n - i,
    {
        if bytes[i] == 0u8 {
            assert(bytes@[i as int] == 0u8);
            proof {
                lemma_encode_nul(s@);
            }
            return true;
        }
        i = i + 1;
    }
    proof {
        lemma_encode_nul(s@);
    }
    assert(!bytes@.contains(0u8));
    false
}

/// The decimal digit character of `d`.
pub open spec fn digit_char(d: nat) -> char {
    if d == 0 { '0' }
    else if d == 1 { '1' }
    else if d == 2 { '2' }
    else if d == 3 { '3' }
    else if d == 4 { '4' }
    else if d == 5 { '5' }
    else if d == 6 { '6' }
    else if d == 7 { '7' }
    else if d == 8 { '8' }
    else { '9' }
}

/// The decimal text of `n`, without leading zeros, as `{}` prints an integer.
pub open spec fn decimal(n: nat) -> Seq<char>
    decreases n,
{
    if n < 10 {
        seq![digit_char(n)]
    } else {
        decimal(n / 10).push(digit_char(n % 10))
    }
}

fn digit_str(d: usize) -> (r: &'static str)
    requires
        d < 10,
    ensures
        r@ == seq![digit_char(d as nat)],
{
    proof {
        reveal_strlit("0");
        reveal_strlit("1");
        reveal_strlit("2");
        reveal_strlit("3");
        reveal_strlit("4");
        reveal_strlit("5");
        reveal_strlit("6");
        reveal_strlit("7");
        reveal_strlit("8");
        reveal_strlit("9");
    }
    if d == 0 { "0" }
    else if d == 1 { "1" }
    else if d == 2 { "2" }
    else if d == 3 { "3" }
    else if d == 4 { "4" }
    else if d == 5 { "5" }
    else if d == 6 { "6" }
    else if d == 7 { "7" }
    else if d == 8 { "8" }
    else { "9" }
}

/// Appends the decimal text of `n` to `out`.
pub fn push_decimal(out: &mut String, n: usize)
    ensures
        final(out)@ == old(out)@ + decimal(n as nat),
    decreases n,
{
    if n >= 10 {
        push_decimal(out, n / 10);
        out.append(digit_str(n % 10));
        proof {
            assert(old(out)@ + decimal((n / 10) as nat) + seq![digit_char((n % 10) as nat)]
                =~= old(out)@ + decimal(n as nat));
        }
    } else {
        out.append(digit_str(n));
        proof {
            assert(old(out)@ + seq![digit_char(n as nat)] =~= old(out)@ + decimal(n as nat));
        }
    }
}

/// The hexadecimal digit character of `d` (lower case).
pub open spec fn hex_digit(d: nat) -> char {
    if d < 10 { digit_char(d) }
    else if d == 10 { 'a' }
    else if d == 11 { 'b' }
    else if d == 12 { 'c' }
    else if d == 13 { 'd' }
    else if d == 14 { 'e' }
    else { 'f' }
}

/// How one character is written inside a JSON string: quote and backslash
/// are escaped with a backslash, the control characters U+0000–U+001F with
/// their short escape or `\u00XX`, and every other character as it is.
pub open spec fn escape_char(c: char) -> Seq<char> {
    if c == '"' {
        seq!['\\', '"']
    } else if c == '\\' {
        seq!['\\', '\\']
    } else if c == '\u{8}' {
        seq!['\\', 'b']
    } else if c == '\t' {
        seq!['\\', 't']
    } else if c == '\n' {
        seq!['\\', 'n']
    } else if c == '\u{c}' {
        seq!['\\', 'f']
    } else if c == '\r' {
        seq!['\\', 'r']
    } else if (c as u32) < 0x20 {
        seq![
            '\\',
            'u',
            '0',
            '0',
            hex_digit((c as u32 / 16) as nat),
            hex_digit((c as u32 % 16) as nat),
        ]
    } else {
        seq![c]
    }
}

/// The text `s` as written between the quotes of a JSON string.
pub open spec fn json_string_escape(s: Seq<char>) -> Seq<char>
    decreases s.len(),
{
    if s.len() == 0 {
        seq![]
    } else {
        json_string_escape(s.drop_last()) + escape_char(s.last())
    }
}

proof fn lemma_escape_char_no_nul(c: char)
    ensures
        !has_nul(escape_char(c)),
{
    let e = escape_char(c);
    if (c as u32) >= 0x20 {
        assert(c != '\0');
    }
    assert forall|i: int| 0 <= i < e.len() implies e[i] != '\0' by {}
}

/// A JSON-escaped text never holds NUL: NUL itself is written `\u0000`.
pub proof fn lemma_escape_no_nul(s: Seq<char>)
    ensures
        !has_nul(json_string_escape(s)),
    decreases s.len(),
{
    if s.len() > 0 {
        lemma_escape_no_nul(s.drop_last());
        lemma_escape_char_no_nul(s.last());
        let a = json_string_escape(s.drop_last());
        let b = escape_char(s.last());
        lemma_concat_no_nul(a, b);
    }
}

/// Two texts without NUL make a text without NUL.
pub proof fn lemma_concat_no_nul(a: Seq<char>, b: Seq<char>)
    requires
        !has_nul(a),
        !has_nul(b),
    ensures
        !has_nul(a + b),
{
    let ab = a + b;
    assert forall|i: int| 0 <= i < ab.len() implies ab[i] != '\0' by {
        if i < a.len() {
            assert(ab[i] == a[i]);
        } else {
            assert(ab[i] == b[i - a.len()]);
        }
    }
}

fn hex_str(d: u32) -> (r: &'static str)
    requires
        d < 16,
    ensures
        r@ == seq![hex_digit(d as nat)],
{
    if d < 10 {
        return digit_str(d as usize);
    }
    proof {
        reveal_strlit("a");
        reveal_strlit("b");
        reveal_strlit("c");
        reveal_strlit("d");
        reveal_strlit("e");
        reveal_strlit("f");
    }
    if d == 10 { "a" }
    else if d == 11 { "b" }
    else if d == 12 { "c" }
    else if d == 13 { "d" }
    else if d == 14 { "e" }
    else { "f" }
}

/// Appends `c` as written inside a JSON string; `piece` is `c` as a text.
fn push_escaped_char(out: &mut String, c: char, piece: &str)
    requires
        piece@ == seq![c],
    ensures
        final(out)@ == old(out)@ + escape_char(c),
{
    proof {
        reveal_strlit("\\\"");
        reveal_strlit("\\\\");
        reveal_strlit("\\b");
        reveal_strlit("\\t");
        reveal_strlit("\\n");
        reveal_strlit("\\f");
        reveal_strlit("\\r");
        reveal_strlit("\\u00");
    }
    if c == '"' {
        out.append("\\\"");
    } else if c == '\\' {
        out.append("\\\\");
    } else if c == '\u{8}' {
        out.append("\\b");
    } else if c == '\t' {
        out.append("\\t");
    } else if c == '\n' {
        out.append("\\n");
    } else if c == '\u{c}' {
        out.append("\\f");
    } else if c == '\r' {
        out.append("\\r");
    } else if (c as u32) < 0x20 {
        let v = c as u32;
        out.append("\\u00");
        out.append(hex_str(v / 16));
        out.append(hex_str(v % 16));
        assert(old(out)@ + "\\u00"@ + seq![hex_digit((v / 16) as nat)] + seq![
            hex_digit((v % 16) as nat),
        ] =~= old(out)@ + escape_char(c));
    } else {
        out.append(piece);
    }
}

/// Appends `s` as written between the quotes of a JSON string.
pub fn push_json_escaped(out: &mut String, s: &str)
    ensures
        final(out)@ == old(out)@ + json_string_escape(s@),
{
    let n = s.unicode_len();
    let mut i: usize = 0;
    assert(s@.subrange(0, 0) =~= Seq::<char>::empty());
    while i < n
        invariant
            n == s@.len(),
            i <= n,
            out@ == old(out)@ + json_string_escape(s@.subrange(0, i as int)),
        decreases n - i,
    {
        let c = s.get_char(i);
        let piece = s.substring_char(i, i + 1);
        assert(piece@ =~= seq![c]);
        push_escaped_char(out, c, piece);
        let ghost next = s@.subrange(0, i + 1);
        assert(next.drop_last() =~= s@.subrange(0, i as int));
        assert(next.last() == c);
        i = i + 1;
    }
    assert(s@.subrange(0, n as int) =~= s@);
}

/// The value of a hexadecimal digit character, either case.
pub open spec fn hex_value(c: char) -> Option<nat> {
    if '0' <= c <= '9' {
        Some((c as u32 - '0' as u32) as nat)
    } else if 'a' <= c <= 'f' {
        Some((c as u32 - 'a' as u32 + 10) as nat)
    } else if 'A' <= c <= 'F' {
        Some((c as u32 - 'A' as u32 + 10) as nat)
    } else {
        None
    }
}

/// The character that a JSON `\uXXXX` escape with the hex digits `h` stands
/// for, where it stands for one character on its own (not a surrogate half).
pub open spec fn json_unicode_escape(h: Seq<char>) -> Option<char> {
    if h.len() == 4 && hex_value(h[0]) is Some && hex_value(h[1]) is Some && hex_value(h[2]) is Some
        && hex_value(h[3]) is Some {
        let v = hex_value(h[0])->0 * 4096 + hex_value(h[1])->0 * 256 + hex_value(h[2])->0 * 16
            + hex_value(h[3])->0;
        if v < 0xD800 || 0xE000 <= v {
            Some(v as u32 as char)
        } else {
            None
        }
    } else {
        None
    }
}

/// The character that the two-character JSON escape `\e` stands for
/// (RFC 8259, section 7): `\"`, `\\`, `\/`, `\b`, `\f`, `\n`, `\r`, `\t`.
pub open spec fn json_short_escape(e: char) -> Option<char> {
    if e == '"' {
        Some('"')
    } else if e == '\\' {
        Some('\\')
    } else if e == '/' {
        Some('/')
    } else if e == 'b' {
        Some('\u{8}')
    } else if e == 'f' {
        Some('\u{c}')
    } else if e == 'n' {
        Some('\n')
    } else if e == 'r' {
        Some('\r')
    } else if e == 't' {
        Some('\t')
    } else {
        None
    }
}

/// What a JSON parser reads from the characters between the quotes of a JSON
/// string (RFC 8259, section 7), or `None` where they are not valid there: an
/// unescaped quote or control character, or an escape that JSON does not
/// define. (Surrogate pairs written as two `\u` escapes are not read.)
pub open spec fn json_string_decode(t: Seq<char>) -> Option<Seq<char>>
    decreases t.len(),
{
    if t.len() == 0 {
        Some(seq![])
    } else if t[0] == '\\' {
        if t.len() >= 2 && json_short_escape(t[1]) is Some {
            match json_string_decode(t.subrange(2, t.len() as int)) {
                Some(r) => Some(seq![json_short_escape(t[1])->0] + r),
                None => None,
            }
        } else if t.len() >= 6 && t[1] == 'u' && json_unicode_escape(t.subrange(2, 6)) is Some {
            match json_string_decode(t.subrange(6, t.len() as int)) {
                Some(r) => Some(seq![json_unicode_escape(t.subrange(2, 6))->0] + r),
                None => None,
            }
        } else {
            None
        }
    } else if t[0] == '"' || (t[0] as u32) < 0x20 {
        None
    } else {
        match json_string_decode(t.drop_first()) {
            Some(r) => Some(seq![t[0]] + r),
            None => None,
        }
    }
}

proof fn lemma_hex_digit_value(d: nat)
    requires
        d < 16,
    ensures
        hex_value(hex_digit(d)) == Some(d),
{
}

/// Escaping distributes over concatenation.
proof fn lemma_escape_concat(a: Seq<char>, b: Seq<char>)
    ensures
        json_string_escape(a + b) == json_string_escape(a) + json_string_escape(b),
    decreases b.len(),
{
    if b.len() == 0 {
        assert(a + b =~= a);
        assert(json_string_escape(b) =~= seq![]);
        assert(json_string_escape(a) + json_string_escape(b) =~= json_string_escape(a));
    } else {
        lemma_escape_concat(a, b.drop_last());
        assert((a + b).drop_last() =~= a + b.drop_last());
        assert((a + b).last() == b.last());
        assert(json_string_escape(a) + json_string_escape(b.drop_last()) + escape_char(b.last())
            =~= json_string_escape(a) + json_string_escape(b));
    }
}

/// A parser reads back the one character that `escape_char` wrote, then
/// goes on with what follows.
proof fn lemma_decode_escape_char(c: char, t: Seq<char>)
    ensures
        json_string_decode(escape_char(c) + t) == match json_string_decode(t) {
            Some(r) => Some(seq![c] + r),
            None => None,
        },
{
    let e = escape_char(c);
    let u = e + t;
    vstd::utf8::char_u32_cast(c, c as u32);
    if c == '"' || c == '\\' || c == '\u{8}' || c == '\t' || c == '\n' || c == '\u{c}' || c
        == '\r' {
        assert(u[0] == '\\');
        assert(u.subrange(2, u.len() as int) =~= t);
    } else if (c as u32) < 0x20 {
        let v = c as u32;
        let hi = (v / 16) as nat;
        let lo = (v % 16) as nat;
        lemma_hex_digit_value(hi);
        lemma_hex_digit_value(lo);
        let h = u.subrange(2, 6);
        assert(h =~= seq!['0', '0', hex_digit(hi), hex_digit(lo)]);
        assert(hex_value('0') == Some(0nat));
        assert(json_unicode_escape(h) == Some((hi * 16 + lo) as u32 as char));
        assert(hi * 16 + lo == v);
        assert(json_short_escape(u[1]) is None);
        assert(u.subrange(6, u.len() as int) =~= t);
    } else {
        assert(e == seq![c]);
        assert(u[0] == c);
        assert(u.drop_first() =~= t);
    }
}

/// JSON-escaping never loses a character: a JSON parser reads back from the
/// escaped text exactly the text that was escaped. So every escape written
/// is one that JSON defines, and no quote or control character is left bare.
pub proof fn law_json_escape_reads_back(s: Seq<char>)
    ensures
        json_string_decode(json_string_escape(s)) == Some(s),
    decreases s.len(),
{
    if s.len() == 0 {
        assert(json_string_escape(s) =~= seq![]);
    } else {
        let rest = s.drop_first();
        law_json_escape_reads_back(rest);
        assert(s =~= seq![s[0]] + rest);
        lemma_escape_concat(seq![s[0]], rest);
        assert(seq![s[0]].drop_last() =~= Seq::<char>::empty());
        assert(json_string_escape(Seq::<char>::empty()) =~= seq![]);
        assert(json_string_escape(seq![s[0]]) =~= escape_char(s[0]));
        lemma_decode_escape_char(s[0], json_string_escape(rest));
        assert(seq![s[0]] + rest =~= s);
    }
}

/// Every character other than the quote, the backslash and the control
/// characters U+0000–U+001F is written as it is.
pub proof fn law_json_escape_keeps_plain_chars(c: char)
    requires
        c != '"',
        c != '\\',
        (c as u32) >= 0x20,
    ensures
        escape_char(c) == seq![c],
{
}

/// What `{:?}` prints for a string: the text in double quotes, with the
/// characters that need it escaped.
pub uninterp spec fn debug_quoted(s: Seq<char>) -> Seq<char>;

/// Calls `format!("{:?}", s)`, i.e. `<str as Debug>::fmt`. Claims only that
/// the result is a function of the text alone, named `debug_quoted`.
#[verifier::external_body]
pub(crate) fn debug_quote(s: &str) -> (r: String)
    ensures
        r@ == debug_quoted(s@),
{
    format!("{s:?}")
}

/// Calls `std::str::from_utf8`, which accepts exactly the byte strings that are
/// valid UTF-8 and then gives the text that they encode.
#[verifier::external_body]
pub(crate) fn str_from_utf8(bytes: &[u8]) -> (r: Option<&str>)
    ensures
        r is Some <==> vstd::utf8::valid_utf8(bytes@),
        r matches Some(s) ==> vstd::utf8::encode_utf8(s@) == bytes@,
{
    std::str::from_utf8(bytes).ok()
}

} // verus!
