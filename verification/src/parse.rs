//! Decoding a frame back into a `WireMessage`, and the round-trip proof.
//!
//! The parser accepts exactly the object notation that [`crate::wire`]
//! produces: a fixed member order, quoted string values, short escapes for
//! quote, backslash and the common control characters, and `\u00` escapes
//! with two hexadecimal digits for the remaining control characters.
//! [`lemma_frame_round_trip`] proves that serializing any wire message and
//! parsing the frame (strip the trailing NUL, decode) recovers the original
//! hostname, level, message and module values exactly.

use vstd::prelude::*;
use vstd::string::*;

use crate::wire::WireMessage;
use crate::wire::WireView;
use crate::wire::esc_char;
use crate::wire::esc_seq;
use crate::wire::frame_of;
use crate::wire::has_no_nul;
use crate::wire::hex_digit;
use crate::wire::json_of;

verus! {

/// True for the character after a backslash in a two-character escape.
pub open spec fn is_short_code(c: char) -> bool {
    c == '"' || c == '\\' || c == 'b' || c == 't' || c == 'n' || c == 'f' || c == 'r'
}

/// The character a two-character escape stands for.
pub open spec fn short_unesc(c: char) -> char {
    if c == '"' {
        '"'
    } else if c == '\\' {
        '\\'
    } else if c == 'b' {
        '\u{8}'
    } else if c == 't' {
        '\u{9}'
    } else if c == 'n' {
        '\u{a}'
    } else if c == 'f' {
        '\u{c}'
    } else {
        '\u{d}'
    }
}

/// The value of a lower-case hexadecimal digit, or nothing.
pub open spec fn hex_val(c: char) -> Option<u32> {
    if c == '0' {
        Some(0u32)
    } else if c == '1' {
        Some(1u32)
    } else if c == '2' {
        Some(2u32)
    } else if c == '3' {
        Some(3u32)
    } else if c == '4' {
        Some(4u32)
    } else if c == '5' {
        Some(5u32)
    } else if c == '6' {
        Some(6u32)
    } else if c == '7' {
        Some(7u32)
    } else if c == '8' {
        Some(8u32)
    } else if c == '9' {
        Some(9u32)
    } else if c == 'a' {
        Some(10u32)
    } else if c == 'b' {
        Some(11u32)
    } else if c == 'c' {
        Some(12u32)
    } else if c == 'd' {
        Some(13u32)
    } else if c == 'e' {
        Some(14u32)
    } else if c == 'f' {
        Some(15u32)
    } else {
        None
    }
}

/// The control character with the given code below `0x20`.
pub open spec fn ctl_char(code: u32) -> char {
    if code == 0x00 {
        '\u{0}'
    } else if code == 0x01 {
        '\u{1}'
    } else if code == 0x02 {
        '\u{2}'
    } else if code == 0x03 {
        '\u{3}'
    } else if code == 0x04 {
        '\u{4}'
    } else if code == 0x05 {
        '\u{5}'
    } else if code == 0x06 {
        '\u{6}'
    } else if code == 0x07 {
        '\u{7}'
    } else if code == 0x08 {
        '\u{8}'
    } else if code == 0x09 {
        '\u{9}'
    } else if code == 0x0a {
        '\u{a}'
    } else if code == 0x0b {
        '\u{b}'
    } else if code == 0x0c {
        '\u{c}'
    } else if code == 0x0d {
        '\u{d}'
    } else if code == 0x0e {
        '\u{e}'
    } else if code == 0x0f {
        '\u{f}'
    } else if code == 0x10 {
        '\u{10}'
    } else if code == 0x11 {
        '\u{11}'
    } else if code == 0x12 {
        '\u{12}'
    } else if code == 0x13 {
        '\u{13}'
    } else if code == 0x14 {
        '\u{14}'
    } else if code == 0x15 {
        '\u{15}'
    } else if code == 0x16 {
        '\u{16}'
    } else if code == 0x17 {
        '\u{17}'
    } else if code == 0x18 {
        '\u{18}'
    } else if code == 0x19 {
        '\u{19}'
    } else if code == 0x1a {
        '\u{1a}'
    } else if code == 0x1b {
        '\u{1b}'
    } else if code == 0x1c {
        '\u{1c}'
    } else if code == 0x1d {
        '\u{1d}'
    } else if code == 0x1e {
        '\u{1e}'
    } else {
        '\u{1f}'
    }
}

/// Parses a quoted string value. The input starts just after the opening
/// quote; the result is the decoded content together with the number of
/// characters consumed, the closing quote included.
pub open spec fn parse_value(s: Seq<char>) -> Option<(Seq<char>, int)>
    decreases s.len(),
{
    if s.len() == 0 {
        None
    } else if s[0] == '"' {
        Some((Seq::<char>::empty(), 1))
    } else if s[0] == '\\' {
        if s.len() >= 2 && is_short_code(s[1]) {
            match parse_value(s.skip(2)) {
                Some(t) => Some((seq![short_unesc(s[1])] + t.0, t.1 + 2)),
                None => None,
            }
        } else if s.len() >= 6 && s[1] == 'u' && s[2] == '0' && s[3] == '0' {
            match (hex_val(s[4]), hex_val(s[5])) {
                (Some(v1), Some(v2)) => {
                    if 16 * v1 + v2 < 0x20 {
                        match parse_value(s.skip(6)) {
                            Some(t) => Some(
                                (seq![ctl_char((16 * v1 + v2) as u32)] + t.0, t.1 + 6),
                            ),
                            None => None,
                        }
                    } else {
                        None
                    }
                },
                _ => None,
            }
        } else {
            None
        }
    } else if (s[0] as u32) >= 0x20 {
        match parse_value(s.skip(1)) {
            Some(t) => Some((seq![s[0]] + t.0, t.1 + 1)),
            None => None,
        }
    } else {
        None
    }
}

/// Removes a required literal prefix, or fails.
pub open spec fn strip_prefix(s: Seq<char>, p: Seq<char>) -> Option<Seq<char>> {
    if p.is_prefix_of(s) {
        Some(s.skip(p.len() as int))
    } else {
        None
    }
}

/// Parses one member: the separator literal (which ends with the value's
/// opening quote), then the quoted value. Yields the value and the rest.
pub open spec fn parse_member(s: Seq<char>, sep: Seq<char>) -> Option<(Seq<char>, Seq<char>)> {
    match strip_prefix(s, sep) {
        Some(s1) => match parse_value(s1) {
            Some(t) => Some((t.0, s1.skip(t.1))),
            None => None,
        },
        None => None,
    }
}

/// Parses a whole encoded wire message: the four members in their fixed
/// order, then the closing brace, with nothing left over.
pub open spec fn parse_json(s: Seq<char>) -> Option<WireView> {
    match parse_member(s, "{\"hostname\":\""@) {
        Some(h) => match parse_member(h.1, ",\"level\":\""@) {
            Some(l) => match parse_member(l.1, ",\"message\":\""@) {
                Some(m) => match parse_member(m.1, ",\"module\":\""@) {
                    Some(d) => if d.1 == "}"@ {
                        Some(
                            WireView {
                                hostname: h.0,
                                level: l.0,
                                message: m.0,
                                module: d.0,
                            },
                        )
                    } else {
                        None
                    },
                    None => None,
                },
                None => None,
            },
            None => None,
        },
        None => None,
    }
}

/// Parses one frame: strips the trailing NUL delimiter, then decodes.
pub open spec fn parse_frame_spec(f: Seq<char>) -> Option<WireView> {
    if f.len() >= 1 && f.last() == '\u{0}' {
        parse_json(f.drop_last())
    } else {
        None
    }
}

/// What a collector does with its incoming stream: reads up to the first
/// NUL, which ends one frame, and keeps the rest.
pub open spec fn take_frame(s: Seq<char>) -> Option<(Seq<char>, Seq<char>)>
    decreases s.len(),
{
    if s.len() == 0 {
        None
    } else if s[0] == '\u{0}' {
        Some((Seq::<char>::empty(), s.skip(1)))
    } else {
        match take_frame(s.skip(1)) {
            Some(t) => Some((seq![s[0]] + t.0, t.1)),
            None => None,
        }
    }
}

/// Splitting on the first NUL recovers exactly one framed payload and the
/// rest of the stream, whenever the payload itself is NUL-free.
pub proof fn lemma_take_frame(p: Seq<char>, rest: Seq<char>)
    requires
        has_no_nul(p),
    ensures
        take_frame(frame_of(p) + rest) == Some((p, rest)),
    decreases p.len(),
{
    let s = frame_of(p) + rest;
    if p.len() == 0 {
        assert(s[0] == '\u{0}');
        assert(s.skip(1) =~= rest);
        assert(p =~= Seq::<char>::empty());
    } else {
        assert(s[0] == p[0]);
        assert(p[0] != '\u{0}');
        assert(s.skip(1) =~= frame_of(p.skip(1)) + rest);
        assert(has_no_nul(p.skip(1)));
        lemma_take_frame(p.skip(1), rest);
        assert(seq![p[0]] + p.skip(1) =~= p);
    }
}

/// One step of a connected collector: when the head of its stream is the
/// frame of a wire message, splitting on the first NUL and decoding
/// recovers exactly that message, and leaves exactly the rest of the
/// stream — frames never bleed into one another, whatever follows.
pub proof fn lemma_collector_step(m: WireView, rest: Seq<char>)
    ensures
        take_frame(frame_of(json_of(m)) + rest) == Some((json_of(m), rest)),
        parse_json(json_of(m)) == Some(m),
{
    crate::wire::lemma_encoding_has_no_nul(m);
    lemma_take_frame(json_of(m), rest);
    lemma_json_round_trip(m);
}

/// A hexadecimal digit emitted by the encoder reads back as its value.
proof fn lemma_hex_round_trip(n: u32)
    requires
        n < 16,
    ensures
        hex_val(hex_digit(n)) == Some(n),
{
}

/// Reading back the two hexadecimal digits of a control character's code
/// recovers that character.
proof fn lemma_ctl_char_inverse(c: char)
    requires
        (c as u32) < 0x20,
    ensures
        ctl_char(c as u32) == c,
{
    let u = c as u32;
    vstd::utf8::char_u32_cast(c, u);
    if u == 0x00 {
        vstd::utf8::char_u32_cast('\u{0}', u);
    } else if u == 0x01 {
        vstd::utf8::char_u32_cast('\u{1}', u);
    } else if u == 0x02 {
        vstd::utf8::char_u32_cast('\u{2}', u);
    } else if u == 0x03 {
        vstd::utf8::char_u32_cast('\u{3}', u);
    } else if u == 0x04 {
        vstd::utf8::char_u32_cast('\u{4}', u);
    } else if u == 0x05 {
        vstd::utf8::char_u32_cast('\u{5}', u);
    } else if u == 0x06 {
        vstd::utf8::char_u32_cast('\u{6}', u);
    } else if u == 0x07 {
        vstd::utf8::char_u32_cast('\u{7}', u);
    } else if u == 0x08 {
        vstd::utf8::char_u32_cast('\u{8}', u);
    } else if u == 0x09 {
        vstd::utf8::char_u32_cast('\u{9}', u);
    } else if u == 0x0a {
        vstd::utf8::char_u32_cast('\u{a}', u);
    } else if u == 0x0b {
        vstd::utf8::char_u32_cast('\u{b}', u);
    } else if u == 0x0c {
        vstd::utf8::char_u32_cast('\u{c}', u);
    } else if u == 0x0d {
        vstd::utf8::char_u32_cast('\u{d}', u);
    } else if u == 0x0e {
        vstd::utf8::char_u32_cast('\u{e}', u);
    } else if u == 0x0f {
        vstd::utf8::char_u32_cast('\u{f}', u);
    } else if u == 0x10 {
        vstd::utf8::char_u32_cast('\u{10}', u);
    } else if u == 0x11 {
        vstd::utf8::char_u32_cast('\u{11}', u);
    } else if u == 0x12 {
        vstd::utf8::char_u32_cast('\u{12}', u);
    } else if u == 0x13 {
        vstd::utf8::char_u32_cast('\u{13}', u);
    } else if u == 0x14 {
        vstd::utf8::char_u32_cast('\u{14}', u);
    } else if u == 0x15 {
        vstd::utf8::char_u32_cast('\u{15}', u);
    } else if u == 0x16 {
        vstd::utf8::char_u32_cast('\u{16}', u);
    } else if u == 0x17 {
        vstd::utf8::char_u32_cast('\u{17}', u);
    } else if u == 0x18 {
        vstd::utf8::char_u32_cast('\u{18}', u);
    } else if u == 0x19 {
        vstd::utf8::char_u32_cast('\u{19}', u);
    } else if u == 0x1a {
        vstd::utf8::char_u32_cast('\u{1a}', u);
    } else if u == 0x1b {
        vstd::utf8::char_u32_cast('\u{1b}', u);
    } else if u == 0x1c {
        vstd::utf8::char_u32_cast('\u{1c}', u);
    } else if u == 0x1d {
        vstd::utf8::char_u32_cast('\u{1d}', u);
    } else if u == 0x1e {
        vstd::utf8::char_u32_cast('\u{1e}', u);
    } else {
        vstd::utf8::char_u32_cast('\u{1f}', u);
    }
}

/// Like [`lemma_ctl_char_inverse`], for the characters behind the short
/// escapes, whose codes the escape spells out directly.
proof fn lemma_char_with_code(c: char, lit: char)
    requires
        c as u32 == lit as u32,
    ensures
        c == lit,
{
    vstd::utf8::char_u32_cast(c, c as u32);
    vstd::utf8::char_u32_cast(lit, c as u32);
}

/// Parsing the escape of any value, followed by the closing quote and
/// anything after it, recovers the value exactly and consumes the escape
/// and the quote.
pub proof fn lemma_parse_value_esc(v: Seq<char>, rest: Seq<char>)
    ensures
        parse_value(esc_seq(v) + "\""@ + rest) == Some((v, esc_seq(v).len() as int + 1)),
    decreases v.len(),
{
    reveal_strlit("\"");
    reveal_strlit("\\\"");
    reveal_strlit("\\\\");
    reveal_strlit("\\b");
    reveal_strlit("\\t");
    reveal_strlit("\\n");
    reveal_strlit("\\f");
    reveal_strlit("\\r");
    reveal_strlit("\\u00");
    let s = esc_seq(v) + "\""@ + rest;
    if v.len() == 0 {
        assert(s[0] == '"');
        assert(v =~= Seq::<char>::empty());
    } else {
        let c = v[0];
        let tail = esc_seq(v.skip(1)) + "\""@ + rest;
        assert(esc_seq(v) == esc_char(c) + esc_seq(v.skip(1)));
        assert(s =~= esc_char(c) + tail);
        lemma_parse_value_esc(v.skip(1), rest);
        if c == '"' {
            assert(s[0] == '\\' && s[1] == '"');
            assert(s.skip(2) =~= tail);
            assert(seq![short_unesc(s[1])] + v.skip(1) =~= v);
        } else if c == '\\' {
            assert(s[0] == '\\' && s[1] == '\\');
            assert(s.skip(2) =~= tail);
            assert(seq![short_unesc(s[1])] + v.skip(1) =~= v);
        } else if c as u32 == 0x08 {
            lemma_char_with_code(c, '\u{8}');
            assert(s[0] == '\\' && s[1] == 'b');
            assert(s.skip(2) =~= tail);
            assert(seq![short_unesc(s[1])] + v.skip(1) =~= v);
        } else if c as u32 == 0x09 {
            lemma_char_with_code(c, '\u{9}');
            assert(s[0] == '\\' && s[1] == 't');
            assert(s.skip(2) =~= tail);
            assert(seq![short_unesc(s[1])] + v.skip(1) =~= v);
        } else if c as u32 == 0x0a {
            lemma_char_with_code(c, '\u{a}');
            assert(s[0] == '\\' && s[1] == 'n');
            assert(s.skip(2) =~= tail);
            assert(seq![short_unesc(s[1])] + v.skip(1) =~= v);
        } else if c as u32 == 0x0c {
            lemma_char_with_code(c, '\u{c}');
            assert(s[0] == '\\' && s[1] == 'f');
            assert(s.skip(2) =~= tail);
            assert(seq![short_unesc(s[1])] + v.skip(1) =~= v);
        } else if c as u32 == 0x0d {
            lemma_char_with_code(c, '\u{d}');
            assert(s[0] == '\\' && s[1] == 'r');
            assert(s.skip(2) =~= tail);
            assert(seq![short_unesc(s[1])] + v.skip(1) =~= v);
        } else if (c as u32) < 0x20 {
            let u = c as u32;
            assert(s[0] == '\\' && s[1] == 'u' && s[2] == '0' && s[3] == '0');
            assert(s[4] == hex_digit(u / 16) && s[5] == hex_digit(u % 16));
            lemma_hex_round_trip(u / 16);
            lemma_hex_round_trip(u % 16);
            assert(16 * (u / 16) + (u % 16) == u);
            lemma_ctl_char_inverse(c);
            assert(s.skip(6) =~= tail);
            assert(seq![c] + v.skip(1) =~= v);
        } else {
            assert(s[0] == c);
            assert(s.skip(1) =~= tail);
            assert(seq![c] + v.skip(1) =~= v);
        }
    }
}

/// Stripping a literal prefix off itself-plus-rest yields the rest.
pub proof fn lemma_strip_prefix(p: Seq<char>, r: Seq<char>)
    ensures
        strip_prefix(p + r, p) == Some(r),
{
    assert(p =~= (p + r).subrange(0, p.len() as int));
    assert((p + r).skip(p.len() as int) =~= r);
}

/// Parsing a member from its separator, escaped value, closing quote and
/// rest recovers the value and the rest.
pub proof fn lemma_parse_member(sep: Seq<char>, v: Seq<char>, rest: Seq<char>)
    ensures
        parse_member(sep + esc_seq(v) + "\""@ + rest, sep) == Some((v, rest)),
{
    reveal_strlit("\"");
    let body = esc_seq(v) + "\""@ + rest;
    assert(sep + esc_seq(v) + "\""@ + rest =~= sep + body);
    lemma_strip_prefix(sep, body);
    lemma_parse_value_esc(v, rest);
    assert(body.skip(esc_seq(v).len() as int + 1) =~= rest);
}

/// Round trip of the object encoding: parsing the serialized form of any
/// wire message recovers that message exactly.
pub proof fn lemma_json_round_trip(m: WireView)
    ensures
        parse_json(json_of(m)) == Some(m),
{
    reveal_strlit("\"");
    reveal_strlit("}");
    reveal_strlit("\"}");
    reveal_strlit("{\"hostname\":\"");
    reveal_strlit(",\"level\":\"");
    reveal_strlit(",\"message\":\"");
    reveal_strlit(",\"module\":\"");
    reveal_strlit("\",\"level\":\"");
    reveal_strlit("\",\"message\":\"");
    reveal_strlit("\",\"module\":\"");
    let r3 = ",\"module\":\""@ + esc_seq(m.module) + "\""@ + "}"@;
    let r2 = ",\"message\":\""@ + esc_seq(m.message) + "\""@ + r3;
    let r1 = ",\"level\":\""@ + esc_seq(m.level) + "\""@ + r2;
    assert(json_of(m) =~= "{\"hostname\":\""@ + esc_seq(m.hostname) + "\""@ + r1);
    lemma_parse_member("{\"hostname\":\""@, m.hostname, r1);
    lemma_parse_member(",\"level\":\""@, m.level, r2);
    lemma_parse_member(",\"message\":\""@, m.message, r3);
    lemma_parse_member(",\"module\":\""@, m.module, "}"@);
    assert(parse_json(json_of(m)) == Some(
        WireView {
            hostname: m.hostname,
            level: m.level,
            message: m.message,
            module: m.module,
        },
    ));
    assert(WireView {
        hostname: m.hostname,
        level: m.level,
        message: m.message,
        module: m.module,
    } =~= m);
}

/// The value of a lower-case hexadecimal digit, or nothing.
fn hex_val_exec(c: char) -> (r: Option<u32>)
    ensures
        r == hex_val(c),
{
    match c {
        '0' => Some(0),
        '1' => Some(1),
        '2' => Some(2),
        '3' => Some(3),
        '4' => Some(4),
        '5' => Some(5),
        '6' => Some(6),
        '7' => Some(7),
        '8' => Some(8),
        '9' => Some(9),
        'a' => Some(10),
        'b' => Some(11),
        'c' => Some(12),
        'd' => Some(13),
        'e' => Some(14),
        'f' => Some(15),
        _ => None,
    }
}

/// The control character with the given code below `0x20`.
fn ctl_char_exec(code: u32) -> (c: char)
    requires
        code < 0x20,
    ensures
        c == ctl_char(code),
{
    match code {
        0x00 => '\u{0}',
        0x01 => '\u{1}',
        0x02 => '\u{2}',
        0x03 => '\u{3}',
        0x04 => '\u{4}',
        0x05 => '\u{5}',
        0x06 => '\u{6}',
        0x07 => '\u{7}',
        0x08 => '\u{8}',
        0x09 => '\u{9}',
        0x0a => '\u{a}',
        0x0b => '\u{b}',
        0x0c => '\u{c}',
        0x0d => '\u{d}',
        0x0e => '\u{e}',
        0x0f => '\u{f}',
        0x10 => '\u{10}',
        0x11 => '\u{11}',
        0x12 => '\u{12}',
        0x13 => '\u{13}',
        0x14 => '\u{14}',
        0x15 => '\u{15}',
        0x16 => '\u{16}',
        0x17 => '\u{17}',
        0x18 => '\u{18}',
        0x19 => '\u{19}',
        0x1a => '\u{1a}',
        0x1b => '\u{1b}',
        0x1c => '\u{1c}',
        0x1d => '\u{1d}',
        0x1e => '\u{1e}',
        _ => '\u{1f}',
    }
}

/// Parses a quoted value starting at character index `i` (just after the
/// opening quote). On success, yields the decoded content and the index
/// just past the closing quote.
fn parse_value_exec(s: &str, i: usize, len: usize) -> (r: Option<(String, usize)>)
    requires
        len == s@.len(),
        i <= len,
    ensures
        match r {
            Some(t) => {
                &&& parse_value(s@.skip(i as int)) == Some((t.0@, t.1 - i))
                &&& i < t.1 <= len
            },
            None => parse_value(s@.skip(i as int)) is None,
        },
    decreases len - i,
{
    let ghost rem = s@.skip(i as int);
    if i >= len {
        return None;
    }
    let c = s.get_char(i);
    proof {
        assert(rem[0] == s@[i as int]);
    }
    if c == '"' {
        let empty = String::new();
        proof {
            assert(empty@ =~= Seq::<char>::empty());
        }
        Some((empty, i + 1))
    } else if c == '\\' {
        if len - i < 2 {
            return None;
        }
        let e = s.get_char(i + 1);
        proof {
            assert(rem[1] == s@[i as int + 1]);
        }
        let short: Option<char> = match e {
            '"' => Some('"'),
            '\\' => Some('\\'),
            'b' => Some('\u{8}'),
            't' => Some('\u{9}'),
            'n' => Some('\u{a}'),
            'f' => Some('\u{c}'),
            'r' => Some('\u{d}'),
            _ => None,
        };
        if let Some(decoded) = short {
            proof {
                assert(is_short_code(rem[1]) && decoded == short_unesc(rem[1]));
                assert(rem.skip(2) =~= s@.skip(i as int + 2));
            }
            match parse_value_exec(s, i + 2, len) {
                Some(t) => {
                    let piece = crate::wire::char_to_string(decoded);
                    let out = piece.concat(t.0.as_str());
                    proof {
                        assert(out@ =~= seq![short_unesc(rem[1])] + t.0@);
                    }
                    Some((out, t.1))
                },
                None => None,
            }
        } else if e == 'u' {
            proof {
                assert(!is_short_code(rem[1]));
            }
            if len - i < 6 {
                return None;
            }
            if s.get_char(i + 2) != '0' || s.get_char(i + 3) != '0' {
                proof {
                    assert(rem[2] == s@[i as int + 2] && rem[3] == s@[i as int + 3]);
                }
                return None;
            }
            let h1 = hex_val_exec(s.get_char(i + 4));
            let h2 = hex_val_exec(s.get_char(i + 5));
            proof {
                assert(rem[2] == s@[i as int + 2] && rem[3] == s@[i as int + 3]);
                assert(rem[4] == s@[i as int + 4] && rem[5] == s@[i as int + 5]);
            }
            match (h1, h2) {
                (Some(v1), Some(v2)) => {
                    let code = 16 * v1 + v2;
                    if code >= 0x20 {
                        return None;
                    }
                    let decoded = ctl_char_exec(code);
                    proof {
                        assert(rem.skip(6) =~= s@.skip(i as int + 6));
                    }
                    match parse_value_exec(s, i + 6, len) {
                        Some(t) => {
                            let piece = crate::wire::char_to_string(decoded);
                            let out = piece.concat(t.0.as_str());
                            proof {
                                assert(out@ =~= seq![ctl_char(code)] + t.0@);
                            }
                            Some((out, t.1))
                        },
                        None => None,
                    }
                },
                _ => None,
            }
        } else {
            proof {
                assert(!is_short_code(rem[1]));
            }
            None
        }
    } else if (c as u32) >= 0x20 {
        proof {
            assert(rem.skip(1) =~= s@.skip(i as int + 1));
        }
        match parse_value_exec(s, i + 1, len) {
            Some(t) => {
                let piece = crate::wire::char_to_string(c);
                let out = piece.concat(t.0.as_str());
                proof {
                    assert(out@ =~= seq![rem[0]] + t.0@);
                }
                Some((out, t.1))
            },
            None => None,
        }
    } else {
        None
    }
}

/// Checks that the literal `p` stands at character index `i` of `s`; on
/// success yields the index just past it.
fn expect_lit(s: &str, i: usize, p: &str, len: usize) -> (r: Option<usize>)
    requires
        len == s@.len(),
        i <= len,
    ensures
        match r {
            Some(j) => {
                &&& strip_prefix(s@.skip(i as int), p@) == Some(s@.skip(j as int))
                &&& j == i + p@.len()
                &&& j <= len
            },
            None => strip_prefix(s@.skip(i as int), p@) is None,
        },
{
    let plen = p.unicode_len();
    if len - i < plen {
        proof {
            assert(!p@.is_prefix_of(s@.skip(i as int)));
        }
        return None;
    }
    let mut j: usize = 0;
    while j < plen
        invariant
            len == s@.len(),
            i <= len,
            plen == p@.len(),
            plen <= len - i,
            j <= plen,
            forall|k: int| 0 <= k < j ==> s@[i + k] == p@[k],
        decreases plen - j,
    {
        if s.get_char(i + j) != p.get_char(j) {
            proof {
                assert(s@.skip(i as int)[j as int] == s@[i + j as int]);
                assert(!p@.is_prefix_of(s@.skip(i as int)));
            }
            return None;
        }
        j = j + 1;
    }
    proof {
        assert forall|k: int| 0 <= k < plen implies s@.skip(i as int).subrange(
            0,
            plen as int,
        )[k] == p@[k] by {
            assert(s@.skip(i as int)[k] == s@[i + k]);
        }
        assert(p@ =~= s@.skip(i as int).subrange(0, plen as int));
        assert(p@.is_prefix_of(s@.skip(i as int)));
        assert(s@.skip(i as int).skip(plen as int) =~= s@.skip(i as int + plen as int));
    }
    Some(i + plen)
}

/// Parses the text encoding of a wire message, accepting exactly what
/// [`WireMessage::encode`] produces.
pub fn parse(s: &str) -> (r: Option<WireMessage>)
    ensures
        match r {
            Some(m) => parse_json(s@) == Some(m@),
            None => parse_json(s@) is None,
        },
{
    let len = s.unicode_len();
    proof {
        assert(s@.skip(0) =~= s@);
    }
    let i1 = match expect_lit(s, 0, "{\"hostname\":\"", len) {
        Some(j) => j,
        None => {
            return None;
        },
    };
    let (hostname, i2) = match parse_value_exec(s, i1, len) {
        Some(t) => t,
        None => {
            return None;
        },
    };
    proof {
        assert(s@.skip(i1 as int).skip(i2 as int - i1 as int) =~= s@.skip(i2 as int));
    }
    let i3 = match expect_lit(s, i2, ",\"level\":\"", len) {
        Some(j) => j,
        None => {
            return None;
        },
    };
    let (level, i4) = match parse_value_exec(s, i3, len) {
        Some(t) => t,
        None => {
            return None;
        },
    };
    proof {
        assert(s@.skip(i3 as int).skip(i4 as int - i3 as int) =~= s@.skip(i4 as int));
    }
    let i5 = match expect_lit(s, i4, ",\"message\":\"", len) {
        Some(j) => j,
        None => {
            return None;
        },
    };
    let (message, i6) = match parse_value_exec(s, i5, len) {
        Some(t) => t,
        None => {
            return None;
        },
    };
    proof {
        assert(s@.skip(i5 as int).skip(i6 as int - i5 as int) =~= s@.skip(i6 as int));
    }
    let i7 = match expect_lit(s, i6, ",\"module\":\"", len) {
        Some(j) => j,
        None => {
            return None;
        },
    };
    let (module, i8) = match parse_value_exec(s, i7, len) {
        Some(t) => t,
        None => {
            return None;
        },
    };
    proof {
        assert(s@.skip(i7 as int).skip(i8 as int - i7 as int) =~= s@.skip(i8 as int));
        reveal_strlit("}");
    }
    let i9 = match expect_lit(s, i8, "}", len) {
        Some(j) => j,
        None => {
            proof {
                assert(s@.skip(i8 as int) != "}"@) by {
                    if s@.skip(i8 as int) == "}"@ {
                        assert("}"@.is_prefix_of(s@.skip(i8 as int))) by {
                            assert("}"@ =~= s@.skip(i8 as int).subrange(0, 1));
                        }
                    }
                }
            }
            return None;
        },
    };
    if i9 != len {
        proof {
            assert(s@.skip(i8 as int).len() == len - i8);
            assert(s@.skip(i8 as int) != "}"@);
        }
        return None;
    }
    let m = WireMessage { hostname, level, message, module };
    proof {
        assert(s@.skip(i8 as int).len() == len - i8);
        assert(s@.skip(i8 as int) =~= "}"@) by {
            assert("}"@ =~= s@.skip(i8 as int).subrange(0, 1));
        }
        assert(m@ =~= parse_json(s@).unwrap());
    }
    Some(m)
}

/// Parses one frame: checks and strips the trailing NUL delimiter, then
/// decodes the payload.
pub fn parse_frame(f: &str) -> (r: Option<WireMessage>)
    ensures
        match r {
            Some(m) => parse_frame_spec(f@) == Some(m@),
            None => parse_frame_spec(f@) is None,
        },
{
    let len = f.unicode_len();
    if len == 0 {
        return None;
    }
    if f.get_char(len - 1) != '\u{0}' {
        return None;
    }
    let body = f.substring_char(0, len - 1);
    proof {
        assert(body@ =~= f@.drop_last());
    }
    parse(body)
}

/// Round trip of a whole frame: serializing a wire message, framing it,
/// stripping the trailing NUL and decoding recovers the original hostname,
/// level, message and module values exactly.
pub proof fn lemma_frame_round_trip(m: WireView)
    ensures
        parse_frame_spec(frame_of(json_of(m))) == Some(m),
{
    let f = frame_of(json_of(m));
    assert(f.last() == '\u{0}');
    assert(f.drop_last() =~= json_of(m));
    lemma_json_round_trip(m);
}

} // verus!
