//! Transport decoding of the challenge header: the server percent-encodes an
//! armored message and additionally escapes spaces as `\+` and line breaks as
//! `\n` (or `\r\n`). Decoding reverses this, in a fixed order.

use vstd::prelude::*;
use vstd::utf8::{decode_utf8, encode_scalar, encode_utf8, valid_utf8};
use crate::error::PassboltError;
use crate::text::{chars_of, occurs_at, replace_all, replace_all_chars, string_of};

verus! {

/// The value of a hexadecimal digit byte, either case.
pub open spec fn hex_value(b: u8) -> Option<u8> {
    if 48 <= b <= 57 {
        Some((b - 48) as u8)
    } else if 65 <= b <= 70 {
        Some((b - 55) as u8)
    } else if 97 <= b <= 102 {
        Some((b - 87) as u8)
    } else {
        None
    }
}

/// Percent-decoding of bytes: each `%` followed by two hexadecimal digits
/// becomes the byte they name; every other byte, a `%` without two digits
/// after it included, stays as it is.
pub open spec fn percent_decode_bytes(b: Seq<u8>) -> Seq<u8>
    decreases b.len(),
{
    if b.len() == 0 {
        b
    } else if b[0] == 37 && b.len() >= 3 && hex_value(b[1]) is Some && hex_value(b[2]) is Some {
        seq![(hex_value(b[1])->0 * 16 + hex_value(b[2])->0) as u8] + percent_decode_bytes(b.skip(3))
    } else {
        seq![b[0]] + percent_decode_bytes(b.skip(1))
    }
}

/// What percent-decoding `s` gives: the decoded UTF-8 bytes of `s` read as
/// UTF-8, `None` where they are not.
pub open spec fn percent_decoded(s: Seq<char>) -> Option<Seq<char>> {
    let bytes = percent_decode_bytes(encode_utf8(s));
    if valid_utf8(bytes) {
        Some(decode_utf8(bytes))
    } else {
        None
    }
}

proof fn lemma_marked_byte(y: u8)
    ensures
        (0x80u8 | y) != 37u8,
        (0xC0u8 | y) != 37u8,
        (0xE0u8 | y) != 37u8,
        (0xF0u8 | y) != 37u8,
{
    assert((0x80u8 | y) != 37u8) by (bit_vector);
    assert((0xC0u8 | y) != 37u8) by (bit_vector);
    assert((0xE0u8 | y) != 37u8) by (bit_vector);
    assert((0xF0u8 | y) != 37u8) by (bit_vector);
}

proof fn lemma_scalar_no_percent(v: u32)
    requires
        v != 37,
    ensures
        forall|i: int| 0 <= i < encode_scalar(v).len() ==> #[trigger] encode_scalar(v)[i] != 37,
{
    if v <= 0x7F {
        assert(((v & 0x7F) as u8) != 37u8) by (bit_vector)
            requires
                v <= 0x7F,
                v != 37,
        ;
    } else {
        lemma_marked_byte(((v >> 6) & 0x1F) as u8);
        lemma_marked_byte(((v >> 12) & 0x0F) as u8);
        lemma_marked_byte(((v >> 18) & 0x7) as u8);
        lemma_marked_byte((v & 0x3F) as u8);
        lemma_marked_byte(((v >> 6) & 0x3F) as u8);
        lemma_marked_byte(((v >> 12) & 0x3F) as u8);
    }
}

/// Two characters with the same scalar value are the same character.
proof fn lemma_same_scalar(c: char, d: char)
    requires
        c as u32 == d as u32,
    ensures
        c == d,
{
    broadcast use vstd::utf8::encode_utf8_decode_utf8;

    let a = seq![c];
    let b = seq![d];
    assert(a.drop_first() =~= Seq::<char>::empty());
    assert(b.drop_first() =~= Seq::<char>::empty());
    assert(encode_utf8(a) == encode_utf8(b));
    assert(decode_utf8(encode_utf8(a)) == a);
    assert(decode_utf8(encode_utf8(b)) == b);
    assert(a[0] == b[0]);
}

proof fn lemma_encode_no_percent(s: Seq<char>)
    requires
        !s.contains('%'),
    ensures
        forall|i: int| 0 <= i < encode_utf8(s).len() ==> #[trigger] encode_utf8(s)[i] != 37,
    decreases s.len(),
{
    if s.len() > 0 {
        let rest = s.drop_first();
        assert(!rest.contains('%')) by {
            if rest.contains('%') {
                let k = choose|k: int| 0 <= k < rest.len() && rest[k] == '%';
                assert(s[k + 1] == '%');
            }
        }
        lemma_encode_no_percent(rest);
        assert(s[0] != '%') by {
            if s[0] == '%' {
                assert(s.contains('%'));
            }
        }
        assert(('%' as u32) == 37u32);
        if (s[0] as u32) == 37u32 {
            lemma_same_scalar(s[0], '%');
        }
        lemma_scalar_no_percent(s[0] as u32);
        let e = encode_utf8(s);
        let head = encode_scalar(s[0] as u32);
        assert forall|i: int| 0 <= i < e.len() implies #[trigger] e[i] != 37 by {
            if i < head.len() {
                assert(e[i] == head[i]);
            } else {
                assert(e[i] == encode_utf8(rest)[i - head.len()]);
            }
        }
    }
}

proof fn lemma_decode_no_percent(b: Seq<u8>)
    requires
        forall|i: int| 0 <= i < b.len() ==> #[trigger] b[i] != 37,
    ensures
        percent_decode_bytes(b) == b,
    decreases b.len(),
{
    if b.len() > 0 {
        let rest = b.skip(1);
        assert forall|i: int| 0 <= i < rest.len() implies #[trigger] rest[i] != 37 by {
            assert(rest[i] == b[i + 1]);
        }
        lemma_decode_no_percent(rest);
        assert(seq![b[0]] + rest =~= b);
    }
}

/// A string without `%` percent-decodes to itself.
pub proof fn lemma_percent_decoded_plain(s: Seq<char>)
    requires
        !s.contains('%'),
    ensures
        percent_decoded(s) == Some(s),
{
    broadcast use vstd::utf8::encode_utf8_valid_utf8, vstd::utf8::encode_utf8_decode_utf8;

    lemma_encode_no_percent(s);
    lemma_decode_no_percent(encode_utf8(s));
}

/// Relies on `urlencoding::decode`: each `%XX` of the UTF-8 bytes becomes the
/// byte it names, any other byte stays, and the result is read as UTF-8,
/// failing where it is not.
#[verifier::external_body]
fn percent_decode(s: &str) -> (r: Option<String>)
    ensures
        r is Some <==> percent_decoded(s@) is Some,
        r is Some ==> r->0@ == percent_decoded(s@)->0,
{
    match urlencoding::decode(s) {
        Ok(d) => Some(d.into_owned()),
        Err(_) => None,
    }
}

/// The escape of a space: `\+`.
pub open spec fn escaped_space() -> Seq<char> {
    seq!['\\', '+']
}

/// The escape of a CRLF line break: `\r\n`.
pub open spec fn escaped_crlf() -> Seq<char> {
    seq!['\\', 'r', '\\', 'n']
}

/// The escape of a line break: `\n`.
pub open spec fn escaped_newline() -> Seq<char> {
    seq!['\\', 'n']
}

/// Removal of the backslash escapes, in order: `\+` to a space, then `\r\n`
/// to a line break, then the remaining `\n` to a line break.
pub open spec fn transport_unescaped(s: Seq<char>) -> Seq<char> {
    replace_all(
        replace_all(replace_all(s, escaped_space(), seq![' ']), escaped_crlf(), seq!['\n']),
        escaped_newline(),
        seq!['\n'],
    )
}

/// Removes the backslash escapes of an already percent-decoded challenge.
pub fn unescape_transport(s: &str) -> (r: String)
    ensures
        r@ == transport_unescaped(s@),
{
    let space: Vec<char> = vec!['\\', '+'];
    let crlf: Vec<char> = vec!['\\', 'r', '\\', 'n'];
    let newline: Vec<char> = vec!['\\', 'n'];
    assert(space@ =~= escaped_space());
    assert(crlf@ =~= escaped_crlf());
    assert(newline@ =~= escaped_newline());
    let blank: Vec<char> = vec![' '];
    let line_break: Vec<char> = vec!['\n'];
    assert(blank@ =~= seq![' ']);
    assert(line_break@ =~= seq!['\n']);
    let chars = chars_of(s);
    let step1 = replace_all_chars(&chars, &space, &blank);
    let step2 = replace_all_chars(&step1, &crlf, &line_break);
    let step3 = replace_all_chars(&step2, &newline, &line_break);
    string_of(&step3)
}

/// Percent-decodes a challenge header value and removes its backslash escapes,
/// giving the armored message text.
pub fn decode_transport(encoded: &str) -> (r: Result<String, PassboltError>)
    ensures
        percent_decoded(encoded@) is None ==> r == Err::<String, PassboltError>(
            PassboltError::DecodeError,
        ),
        percent_decoded(encoded@) is Some ==> (r is Ok && r->Ok_0@ == transport_unescaped(
            percent_decoded(encoded@)->0,
        )),
        !encoded@.contains('%') && no_backslash(encoded@) ==> (r is Ok && r->Ok_0@ == encoded@),
{
    proof {
        if !encoded@.contains('%') {
            lemma_percent_decoded_plain(encoded@);
        }
    }
    match percent_decode(encoded) {
        None => Err(PassboltError::DecodeError),
        Some(decoded) => {
            proof {
                if no_backslash(decoded@) {
                    lemma_unescape_absent(decoded@);
                }
            }
            Ok(unescape_transport(decoded.as_str()))
        },
    }
}

/// The escape of a line break: `\r\n` where `crlf`, else `\n`.
pub open spec fn escape_line_break(crlf: bool) -> Seq<char> {
    if crlf {
        escaped_crlf()
    } else {
        escaped_newline()
    }
}

/// An armored block as a transport escapes it that writes each space as `\+`
/// and the line break at position `i` as `\r\n` where `crlf[i]`, else as `\n`.
pub open spec fn transport_escaped_mixed(s: Seq<char>, crlf: Seq<bool>) -> Seq<char>
    decreases s.len(),
{
    if s.len() == 0 {
        s
    } else {
        (if s[0] == ' ' {
            escaped_space()
        } else if s[0] == '\n' {
            escape_line_break(crlf[0])
        } else {
            seq![s[0]]
        }) + transport_escaped_mixed(s.skip(1), crlf.skip(1))
    }
}

/// The mixed escape with its spaces already restored.
spec fn line_breaks_escaped_mixed(s: Seq<char>, crlf: Seq<bool>) -> Seq<char>
    decreases s.len(),
{
    if s.len() == 0 {
        s
    } else {
        (if s[0] == '\n' {
            escape_line_break(crlf[0])
        } else {
            seq![s[0]]
        }) + line_breaks_escaped_mixed(s.skip(1), crlf.skip(1))
    }
}

/// The mixed escape with its spaces and `\r\n` escapes already restored.
spec fn newline_escapes_left(s: Seq<char>, crlf: Seq<bool>) -> Seq<char>
    decreases s.len(),
{
    if s.len() == 0 {
        s
    } else {
        (if s[0] == '\n' && !crlf[0] {
            escaped_newline()
        } else {
            seq![s[0]]
        }) + newline_escapes_left(s.skip(1), crlf.skip(1))
    }
}

/// An escaped CRLF followed by `t`, under a pattern that starts with a
/// backslash followed by neither `r` nor `n`: the four characters stay.
proof fn lemma_unfold_escaped_crlf(pat: Seq<char>, rep: Seq<char>, t: Seq<char>)
    requires
        pat.len() > 1,
        pat[0] == '\\',
        pat[1] != 'n',
        pat[1] != 'r',
    ensures
        replace_all(escaped_crlf() + t, pat, rep) == escaped_crlf() + replace_all(t, pat, rep),
{
    let u = escaped_newline() + t;
    let v = seq!['r'] + u;
    let s = seq!['\\'] + v;
    assert(s =~= escaped_crlf() + t);
    if occurs_at(s, pat, 0) {
        assert(s.subrange(0, pat.len() as int)[1] == pat[1]);
    }
    lemma_unfold_other(pat, rep, '\\', v);
    lemma_unfold_plain(pat, rep, 'r', u);
    lemma_unfold_escaped_newline(pat, rep, t);
    assert(seq!['\\'] + (seq!['r'] + (escaped_newline() + replace_all(t, pat, rep))) =~= escaped_crlf()
        + replace_all(t, pat, rep));
}

proof fn lemma_no_backslash_rest(b: Seq<char>)
    requires
        no_backslash(b),
        b.len() > 0,
    ensures
        no_backslash(b.skip(1)),
        b[0] != '\\',
{
    let rest = b.skip(1);
    assert forall|i: int| 0 <= i < rest.len() implies rest[i] != '\\' by {
        assert(rest[i] == b[i + 1]);
    }
}

proof fn lemma_mixed_spaces(b: Seq<char>, crlf: Seq<bool>)
    requires
        no_backslash(b),
        crlf.len() == b.len(),
    ensures
        replace_all(transport_escaped_mixed(b, crlf), escaped_space(), seq![' '])
            == line_breaks_escaped_mixed(b, crlf),
    decreases b.len(),
{
    if b.len() > 0 {
        lemma_no_backslash_rest(b);
        lemma_mixed_spaces(b.skip(1), crlf.skip(1));
        let e = transport_escaped_mixed(b.skip(1), crlf.skip(1));
        if b[0] == ' ' {
            lemma_unfold_match(escaped_space(), seq![' '], e);
        } else if b[0] == '\n' {
            if crlf[0] {
                lemma_unfold_escaped_crlf(escaped_space(), seq![' '], e);
            } else {
                lemma_unfold_escaped_newline(escaped_space(), seq![' '], e);
            }
        } else {
            lemma_unfold_plain(escaped_space(), seq![' '], b[0], e);
        }
    }
}

proof fn lemma_mixed_crlf(b: Seq<char>, crlf: Seq<bool>)
    requires
        no_backslash(b),
        crlf.len() == b.len(),
    ensures
        replace_all(line_breaks_escaped_mixed(b, crlf), escaped_crlf(), seq!['\n'])
            == newline_escapes_left(b, crlf),
    decreases b.len(),
{
    if b.len() > 0 {
        lemma_no_backslash_rest(b);
        lemma_mixed_crlf(b.skip(1), crlf.skip(1));
        let e = line_breaks_escaped_mixed(b.skip(1), crlf.skip(1));
        if b[0] == '\n' && crlf[0] {
            lemma_unfold_match(escaped_crlf(), seq!['\n'], e);
        } else if b[0] == '\n' {
            lemma_unfold_escaped_newline(escaped_crlf(), seq!['\n'], e);
        } else {
            lemma_unfold_plain(escaped_crlf(), seq!['\n'], b[0], e);
        }
    }
}

proof fn lemma_mixed_newlines(b: Seq<char>, crlf: Seq<bool>)
    requires
        no_backslash(b),
        crlf.len() == b.len(),
    ensures
        replace_all(newline_escapes_left(b, crlf), escaped_newline(), seq!['\n']) == b,
    decreases b.len(),
{
    if b.len() > 0 {
        lemma_no_backslash_rest(b);
        lemma_mixed_newlines(b.skip(1), crlf.skip(1));
        let e = newline_escapes_left(b.skip(1), crlf.skip(1));
        if b[0] == '\n' && !crlf[0] {
            lemma_unfold_match(escaped_newline(), seq!['\n'], e);
        } else {
            lemma_unfold_plain(escaped_newline(), seq!['\n'], b[0], e);
        }
        assert(seq![b[0]] + b.skip(1) =~= b);
    } else {
        assert(b =~= Seq::<char>::empty());
    }
}

/// Removing the transport escapes gives the block back character for character
/// whichever way each line break was escaped, `\n` or `\r\n`, for every block
/// without a backslash.
pub proof fn lemma_transport_round_trip_mixed(block: Seq<char>, crlf: Seq<bool>)
    requires
        no_backslash(block),
        crlf.len() == block.len(),
    ensures
        transport_unescaped(transport_escaped_mixed(block, crlf)) == block,
{
    lemma_mixed_spaces(block, crlf);
    lemma_mixed_crlf(block, crlf);
    lemma_mixed_newlines(block, crlf);
}

/// A text with no backslash holds no escape to replace.
proof fn lemma_replace_absent(s: Seq<char>, pat: Seq<char>, rep: Seq<char>)
    requires
        no_backslash(s),
        pat.len() > 0,
        pat[0] == '\\',
    ensures
        replace_all(s, pat, rep) == s,
    decreases s.len(),
{
    if s.len() > 0 {
        let rest = s.skip(1);
        assert(no_backslash(rest)) by {
            assert forall|i: int| 0 <= i < rest.len() implies rest[i] != '\\' by {
                assert(rest[i] == s[i + 1]);
            }
        }
        lemma_replace_absent(rest, pat, rep);
        assert(s =~= seq![s[0]] + rest);
        lemma_unfold_plain(pat, rep, s[0], rest);
    }
}

/// Removing the escapes leaves a text without backslash unchanged.
pub proof fn lemma_unescape_absent(s: Seq<char>)
    requires
        no_backslash(s),
    ensures
        transport_unescaped(s) == s,
{
    lemma_replace_absent(s, escaped_space(), seq![' ']);
    lemma_replace_absent(s, escaped_crlf(), seq!['\n']);
    lemma_replace_absent(s, escaped_newline(), seq!['\n']);
}

/// How the server's transport escapes one character of an armored block.
pub open spec fn escape_char(c: char) -> Seq<char> {
    if c == ' ' {
        escaped_space()
    } else if c == '\n' {
        escaped_newline()
    } else {
        seq![c]
    }
}

/// An armored block as the server's transport escapes it: each space as `\+`,
/// each line break as `\n`.
pub open spec fn transport_escaped(s: Seq<char>) -> Seq<char>
    decreases s.len(),
{
    if s.len() == 0 {
        s
    } else {
        escape_char(s[0]) + transport_escaped(s.skip(1))
    }
}

/// `s` with only its line breaks escaped as `\n`.
spec fn newlines_escaped(s: Seq<char>) -> Seq<char>
    decreases s.len(),
{
    if s.len() == 0 {
        s
    } else {
        (if s[0] == '\n' {
            escaped_newline()
        } else {
            seq![s[0]]
        }) + newlines_escaped(s.skip(1))
    }
}

/// Whether `s` holds no backslash.
pub open spec fn no_backslash(s: Seq<char>) -> bool {
    forall|i: int| 0 <= i < s.len() ==> s[i] != '\\'
}

proof fn lemma_unfold_match(pat: Seq<char>, rep: Seq<char>, t: Seq<char>)
    requires
        pat.len() > 0,
    ensures
        replace_all(pat + t, pat, rep) == rep + replace_all(t, pat, rep),
{
    let s = pat + t;
    assert(s.subrange(0, pat.len() as int) =~= pat);
    assert(s.skip(pat.len() as int) =~= t);
}

proof fn lemma_unfold_other(pat: Seq<char>, rep: Seq<char>, c: char, t: Seq<char>)
    requires
        pat.len() > 0,
        !occurs_at(seq![c] + t, pat, 0),
    ensures
        replace_all(seq![c] + t, pat, rep) == seq![c] + replace_all(t, pat, rep),
{
    let s = seq![c] + t;
    assert(s.skip(1) =~= t);
}

/// Unfolds an escaped line break followed by `t` under a pattern that does not
/// start there: the two characters stay.
proof fn lemma_unfold_escaped_newline(pat: Seq<char>, rep: Seq<char>, t: Seq<char>)
    requires
        pat.len() > 1,
        pat[0] == '\\',
        pat[1] != 'n',
    ensures
        replace_all(escaped_newline() + t, pat, rep) == escaped_newline() + replace_all(t, pat, rep),
{
    let u = seq!['n'] + t;
    let s = seq!['\\'] + u;
    assert(s =~= escaped_newline() + t);
    if occurs_at(s, pat, 0) {
        assert(s.subrange(0, pat.len() as int)[1] == pat[1]);
    }
    lemma_unfold_other(pat, rep, '\\', u);
    if occurs_at(u, pat, 0) {
        assert(u.subrange(0, pat.len() as int)[0] == pat[0]);
    }
    lemma_unfold_other(pat, rep, 'n', t);
    assert(seq!['\\'] + (seq!['n'] + replace_all(t, pat, rep)) =~= escaped_newline() + replace_all(t, pat, rep));
}

/// A plain character followed by `t`, under a pattern that starts with a backslash.
proof fn lemma_unfold_plain(pat: Seq<char>, rep: Seq<char>, c: char, t: Seq<char>)
    requires
        pat.len() > 0,
        pat[0] == '\\',
        c != '\\',
    ensures
        replace_all(seq![c] + t, pat, rep) == seq![c] + replace_all(t, pat, rep),
{
    let s = seq![c] + t;
    if occurs_at(s, pat, 0) {
        assert(s.subrange(0, pat.len() as int)[0] == pat[0]);
    }
    lemma_unfold_other(pat, rep, c, t);
}

proof fn lemma_unescape_spaces(b: Seq<char>)
    requires
        no_backslash(b),
    ensures
        replace_all(transport_escaped(b), escaped_space(), seq![' ']) == newlines_escaped(b),
    decreases b.len(),
{
    if b.len() > 0 {
        let rest = b.skip(1);
        assert(no_backslash(rest)) by {
            assert forall|i: int| 0 <= i < rest.len() implies rest[i] != '\\' by {
                assert(rest[i] == b[i + 1]);
            }
        }
        lemma_unescape_spaces(rest);
        let e = transport_escaped(rest);
        if b[0] == ' ' {
            lemma_unfold_match(escaped_space(), seq![' '], e);
        } else if b[0] == '\n' {
            lemma_unfold_escaped_newline(escaped_space(), seq![' '], e);
        } else {
            assert(b[0] != '\\');
            lemma_unfold_plain(escaped_space(), seq![' '], b[0], e);
        }
    }
}

proof fn lemma_crlf_absent(b: Seq<char>)
    requires
        no_backslash(b),
    ensures
        replace_all(newlines_escaped(b), escaped_crlf(), seq!['\n']) == newlines_escaped(b),
    decreases b.len(),
{
    if b.len() > 0 {
        let rest = b.skip(1);
        assert(no_backslash(rest)) by {
            assert forall|i: int| 0 <= i < rest.len() implies rest[i] != '\\' by {
                assert(rest[i] == b[i + 1]);
            }
        }
        lemma_crlf_absent(rest);
        let e = newlines_escaped(rest);
        if b[0] == '\n' {
            lemma_unfold_escaped_newline(escaped_crlf(), seq!['\n'], e);
        } else {
            assert(b[0] != '\\');
            lemma_unfold_plain(escaped_crlf(), seq!['\n'], b[0], e);
        }
    }
}

proof fn lemma_unescape_newlines(b: Seq<char>)
    requires
        no_backslash(b),
    ensures
        replace_all(newlines_escaped(b), escaped_newline(), seq!['\n']) == b,
    decreases b.len(),
{
    if b.len() > 0 {
        let rest = b.skip(1);
        assert(no_backslash(rest)) by {
            assert forall|i: int| 0 <= i < rest.len() implies rest[i] != '\\' by {
                assert(rest[i] == b[i + 1]);
            }
        }
        lemma_unescape_newlines(rest);
        let e = newlines_escaped(rest);
        if b[0] == '\n' {
            lemma_unfold_match(escaped_newline(), seq!['\n'], e);
        } else {
            assert(b[0] != '\\');
            lemma_unfold_plain(escaped_newline(), seq!['\n'], b[0], e);
        }
        assert(seq![b[0]] + rest =~= b);
    } else {
        assert(b =~= Seq::<char>::empty());
    }
}

/// Removing the transport escapes from a block that the server escaped gives the
/// block back character for character, for every block without a backslash (an
/// armored block has none).
pub proof fn lemma_transport_round_trip(block: Seq<char>)
    requires
        no_backslash(block),
    ensures
        transport_unescaped(transport_escaped(block)) == block,
{
    lemma_unescape_spaces(block);
    lemma_crlf_absent(block);
    lemma_unescape_newlines(block);
}

} // verus!
