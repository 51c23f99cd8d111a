//! The wire message and its text encoding.
//!
//! A `WireMessage` is the structured payload shipped to the remote
//! collector: hostname, level, message and module, all text. It is encoded
//! as one object in self-describing object notation,
//! `{"hostname":...,"level":...,"message":...,"module":...}`, with each
//! value a quoted string whose special characters are escaped. A frame is
//! the encoded object followed by a single NUL delimiter; the encoding is
//! proved never to emit a NUL itself, so the delimiter is unambiguous.

use vstd::prelude::*;
use vstd::string::*;

verus! {

/// The mathematical view of a wire message: four character sequences.
#[verifier::ext_equal]
pub struct WireView {
    pub hostname: Seq<char>,
    pub level: Seq<char>,
    pub message: Seq<char>,
    pub module: Seq<char>,
}

/// The structured payload sent to the remote collector, derived from one
/// log record plus the process-wide hostname.
pub struct WireMessage {
    pub hostname: String,
    pub level: String,
    pub message: String,
    pub module: String,
}

impl View for WireMessage {
    type V = WireView;

    open spec fn view(&self) -> WireView {
        WireView {
            hostname: self.hostname@,
            level: self.level@,
            message: self.message@,
            module: self.module@,
        }
    }
}

/// The lower-case hexadecimal digit for a value below sixteen.
pub open spec fn hex_digit(n: u32) -> char {
    if n == 0 {
        '0'
    } else if n == 1 {
        '1'
    } else if n == 2 {
        '2'
    } else if n == 3 {
        '3'
    } else if n == 4 {
        '4'
    } else if n == 5 {
        '5'
    } else if n == 6 {
        '6'
    } else if n == 7 {
        '7'
    } else if n == 8 {
        '8'
    } else if n == 9 {
        '9'
    } else if n == 10 {
        'a'
    } else if n == 11 {
        'b'
    } else if n == 12 {
        'c'
    } else if n == 13 {
        'd'
    } else if n == 14 {
        'e'
    } else {
        'f'
    }
}

/// The escape of a single character inside a quoted string value:
/// quote and backslash get a backslash, the common control characters get
/// their short escapes, the remaining control characters get a
/// `\u00` escape with two hexadecimal digits, and every other character
/// stands for itself.
pub open spec fn esc_char(c: char) -> Seq<char> {
    if c == '"' {
        "\\\""@
    } else if c == '\\' {
        "\\\\"@
    } else if c as u32 == 0x08 {
        "\\b"@
    } else if c as u32 == 0x09 {
        "\\t"@
    } else if c as u32 == 0x0a {
        "\\n"@
    } else if c as u32 == 0x0c {
        "\\f"@
    } else if c as u32 == 0x0d {
        "\\r"@
    } else if (c as u32) < 0x20 {
        "\\u00"@ + seq![hex_digit((c as u32) / 16), hex_digit((c as u32) % 16)]
    } else {
        seq![c]
    }
}

/// The escape of a whole character sequence.
pub open spec fn esc_seq(s: Seq<char>) -> Seq<char>
    decreases s.len(),
{
    if s.len() == 0 {
        Seq::<char>::empty()
    } else {
        esc_char(s[0]) + esc_seq(s.skip(1))
    }
}

/// Escaping distributes over appending one character at the end.
proof fn lemma_esc_push(s: Seq<char>, c: char)
    ensures
        esc_seq(s.push(c)) == esc_seq(s) + esc_char(c),
    decreases s.len(),
{
    if s.len() == 0 {
        assert(s.push(c)[0] == c);
        assert(s.push(c).skip(1) =~= Seq::<char>::empty());
        assert(esc_seq(s.push(c)) == esc_char(c) + esc_seq(Seq::<char>::empty()));
        assert(esc_seq(Seq::<char>::empty()) == Seq::<char>::empty());
        assert(esc_seq(s) == Seq::<char>::empty());
        assert(esc_char(c) + Seq::<char>::empty() =~= esc_char(c));
        assert(Seq::<char>::empty() + esc_char(c) =~= esc_char(c));
    } else {
        assert(s.push(c)[0] == s[0]);
        assert(s.push(c).skip(1) =~= s.skip(1).push(c));
        assert(esc_seq(s.push(c)) == esc_char(s[0]) + esc_seq(s.skip(1).push(c)));
        lemma_esc_push(s.skip(1), c);
        assert(esc_seq(s.push(c)) == esc_char(s[0]) + (esc_seq(s.skip(1)) + esc_char(c)));
        assert(esc_seq(s) == esc_char(s[0]) + esc_seq(s.skip(1)));
        assert(esc_char(s[0]) + (esc_seq(s.skip(1)) + esc_char(c)) =~= (esc_char(s[0]) + esc_seq(
            s.skip(1),
        )) + esc_char(c));
    }
}

/// The encoding of a wire message: one object in object notation whose
/// four members hold the escaped, quoted field values, in the fixed order
/// hostname, level, message, module.
pub open spec fn json_of(m: WireView) -> Seq<char> {
    "{\"hostname\":\""@ + esc_seq(m.hostname) + "\",\"level\":\""@ + esc_seq(m.level)
        + "\",\"message\":\""@ + esc_seq(m.message) + "\",\"module\":\""@ + esc_seq(m.module)
        + "\"}"@
}

/// The frame for an encoded payload: the payload followed by the single
/// NUL delimiter byte.
pub open spec fn frame_of(payload: Seq<char>) -> Seq<char> {
    payload + seq!['\u{0}']
}

/// True when no character of the sequence is the NUL frame delimiter.
pub open spec fn has_no_nul(s: Seq<char>) -> bool {
    forall|i: int| 0 <= i < s.len() ==> s[i] != '\u{0}'
}

/// Concatenation keeps freedom from NUL.
proof fn lemma_no_nul_concat(a: Seq<char>, b: Seq<char>)
    requires
        has_no_nul(a),
        has_no_nul(b),
    ensures
        has_no_nul(a + b),
{
    assert forall|i: int| 0 <= i < (a + b).len() implies (a + b)[i] != '\u{0}' by {
        if i < a.len() {
            assert((a + b)[i] == a[i]);
        } else {
            assert((a + b)[i] == b[i - a.len()]);
        }
    }
}

/// The escape of a single character never contains the NUL delimiter.
proof fn lemma_esc_char_no_nul(c: char)
    ensures
        has_no_nul(esc_char(c)),
{
    reveal_strlit("\\\"");
    reveal_strlit("\\\\");
    reveal_strlit("\\b");
    reveal_strlit("\\t");
    reveal_strlit("\\n");
    reveal_strlit("\\f");
    reveal_strlit("\\r");
    reveal_strlit("\\u00");
    if c == '"' || c == '\\' || c as u32 == 0x08 || c as u32 == 0x09 || c as u32 == 0x0a
        || c as u32 == 0x0c || c as u32 == 0x0d {
    } else if (c as u32) < 0x20 {
        assert(hex_digit((c as u32) / 16) != '\u{0}');
        assert(hex_digit((c as u32) % 16) != '\u{0}');
        assert(has_no_nul(esc_char(c)));
    } else {
        assert(c != '\u{0}');
        assert(esc_char(c)[0] == c);
    }
}

/// The escape of a whole sequence never contains the NUL delimiter.
proof fn lemma_esc_seq_no_nul(s: Seq<char>)
    ensures
        has_no_nul(esc_seq(s)),
    decreases s.len(),
{
    if s.len() == 0 {
    } else {
        lemma_esc_char_no_nul(s[0]);
        lemma_esc_seq_no_nul(s.skip(1));
        lemma_no_nul_concat(esc_char(s[0]), esc_seq(s.skip(1)));
    }
}

/// The encoding of a wire message never contains the NUL delimiter, so a
/// single NUL byte can frame it unambiguously.
pub proof fn lemma_encoding_has_no_nul(m: WireView)
    ensures
        has_no_nul(json_of(m)),
{
    reveal_strlit("{\"hostname\":\"");
    reveal_strlit("\",\"level\":\"");
    reveal_strlit("\",\"message\":\"");
    reveal_strlit("\",\"module\":\"");
    reveal_strlit("\"}");
    lemma_esc_seq_no_nul(m.hostname);
    lemma_esc_seq_no_nul(m.level);
    lemma_esc_seq_no_nul(m.message);
    lemma_esc_seq_no_nul(m.module);
    lemma_no_nul_concat("{\"hostname\":\""@, esc_seq(m.hostname));
    lemma_no_nul_concat("{\"hostname\":\""@ + esc_seq(m.hostname), "\",\"level\":\""@);
    lemma_no_nul_concat(
        "{\"hostname\":\""@ + esc_seq(m.hostname) + "\",\"level\":\""@,
        esc_seq(m.level),
    );
    lemma_no_nul_concat(
        "{\"hostname\":\""@ + esc_seq(m.hostname) + "\",\"level\":\""@ + esc_seq(m.level),
        "\",\"message\":\""@,
    );
    lemma_no_nul_concat(
        "{\"hostname\":\""@ + esc_seq(m.hostname) + "\",\"level\":\""@ + esc_seq(m.level)
            + "\",\"message\":\""@,
        esc_seq(m.message),
    );
    lemma_no_nul_concat(
        "{\"hostname\":\""@ + esc_seq(m.hostname) + "\",\"level\":\""@ + esc_seq(m.level)
            + "\",\"message\":\""@ + esc_seq(m.message),
        "\",\"module\":\""@,
    );
    lemma_no_nul_concat(
        "{\"hostname\":\""@ + esc_seq(m.hostname) + "\",\"level\":\""@ + esc_seq(m.level)
            + "\",\"message\":\""@ + esc_seq(m.message) + "\",\"module\":\""@,
        esc_seq(m.module),
    );
    lemma_no_nul_concat(
        "{\"hostname\":\""@ + esc_seq(m.hostname) + "\",\"level\":\""@ + esc_seq(m.level)
            + "\",\"message\":\""@ + esc_seq(m.message) + "\",\"module\":\""@ + esc_seq(m.module),
        "\"}"@,
    );
}

/// In the frame of an encoded wire message, the one and only NUL is the
/// final delimiter: a collector splitting the stream on NUL recovers the
/// message boundaries exactly.
pub proof fn lemma_frame_delimiter(m: WireView)
    ensures
        frame_of(json_of(m)).len() >= 1,
        frame_of(json_of(m)).last() == '\u{0}',
        forall|i: int|
            0 <= i < frame_of(json_of(m)).len() - 1 ==> frame_of(json_of(m))[i] != '\u{0}',
{
    lemma_encoding_has_no_nul(m);
    assert forall|i: int|
        0 <= i < frame_of(json_of(m)).len() - 1 implies frame_of(json_of(m))[i] != '\u{0}' by {
        assert(frame_of(json_of(m))[i] == json_of(m)[i]);
    }
}

/// The lower-case hexadecimal digit for a value below sixteen.
fn hex_char(n: u32) -> (c: char)
    requires
        n < 16,
    ensures
        c == hex_digit(n),
{
    match n {
        0 => '0',
        1 => '1',
        2 => '2',
        3 => '3',
        4 => '4',
        5 => '5',
        6 => '6',
        7 => '7',
        8 => '8',
        9 => '9',
        10 => 'a',
        11 => 'b',
        12 => 'c',
        13 => 'd',
        14 => 'e',
        _ => 'f',
    }
}

/// Appends the escaped form of `s` to `out`.
fn append_escaped(out: &mut String, s: &str)
    ensures
        final(out)@ == old(out)@ + esc_seq(s@),
{
    let len: usize = s.unicode_len();
    let mut i: usize = 0;
    while i < len
        invariant
            len == s@.len(),
            i <= len,
            out@ == old(out)@ + esc_seq(s@.take(i as int)),
        decreases len - i,
    {
        let c = s.get_char(i);
        let u: u32 = c as u32;
        if c == '"' {
            out.append("\\\"");
        } else if c == '\\' {
            out.append("\\\\");
        } else if u == 0x08 {
            out.append("\\b");
        } else if u == 0x09 {
            out.append("\\t");
        } else if u == 0x0a {
            out.append("\\n");
        } else if u == 0x0c {
            out.append("\\f");
        } else if u == 0x0d {
            out.append("\\r");
        } else if u < 0x20 {
            out.append("\\u00");
            let d1 = char_to_string(hex_char(u / 16));
            out.append(d1.as_str());
            let d2 = char_to_string(hex_char(u % 16));
            out.append(d2.as_str());
        } else {
            let piece = s.substring_char(i, i + 1);
            out.append(piece);
            proof {
                assert(piece@ =~= seq![s@[i as int]]);
            }
        }
        proof {
            lemma_esc_push(s@.take(i as int), s@[i as int]);
            assert(s@.take(i as int).push(s@[i as int]) =~= s@.take(i as int + 1));
            assert(out@ =~= old(out)@ + esc_seq(s@.take(i as int + 1)));
        }
        i = i + 1;
    }
    proof {
        assert(s@.take(len as int) =~= s@);
    }
}

/// Relies on `char::to_string` of std: the returned string holds exactly
/// the one given character.
#[verifier::external_body]
pub(crate) fn char_to_string(c: char) -> (s: String)
    ensures
        s@ == seq![c],
{
    c.to_string()
}

impl WireMessage {
    /// Serializes the message to its text encoding.
    ///
    /// The encoding is total: every wire message, whatever its text
    /// content, has an encoding, so serialization cannot fail.
    pub fn encode(&self) -> (s: String)
        ensures
            s@ == json_of(self@),
    {
        let mut out = String::new();
        out.append("{\"hostname\":\"");
        append_escaped(&mut out, self.hostname.as_str());
        out.append("\",\"level\":\"");
        append_escaped(&mut out, self.level.as_str());
        out.append("\",\"message\":\"");
        append_escaped(&mut out, self.message.as_str());
        out.append("\",\"module\":\"");
        append_escaped(&mut out, self.module.as_str());
        out.append("\"}");
        out
    }
}

/// Appends the NUL frame delimiter to an encoded payload, making one frame.
pub fn frame(payload: &str) -> (f: String)
    ensures
        f@ == frame_of(payload@),
{
    let mut out = String::from_str(payload);
    out.append("\u{0}");
    proof {
        reveal_strlit("\u{0}");
        assert(out@ =~= frame_of(payload@));
    }
    out
}

} // verus!
