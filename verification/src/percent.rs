//! Percent-encoding of text for header parameters.
//!
//! Which bytes are escaped is this crate's rule; how an escaped byte is
//! written is taken from the `percent_encoding` crate.

use vstd::prelude::*;

verus! {

/// The rule by which the value of a header parameter is escaped.
#[derive(Clone, Copy, Debug, PartialEq, Eq, Structural)]
pub enum PercentEncoding {
    /// Escape what may not stand in a segment of a URL path.
    PathSegment,
    /// Escape all but the characters that RFC 8187 calls `attr-char`.
    AttrChar,
    /// Escape nothing.
    NoOp,
}

/// Whether the byte is an ASCII control character.
pub open spec fn is_control(byte: u8) -> bool {
    byte < 0x20 || byte == 0x7f
}

/// Whether the byte is an ASCII letter or digit.
pub open spec fn is_alphanumeric(byte: u8) -> bool {
    (0x30 <= byte <= 0x39) || (0x41 <= byte <= 0x5a) || (0x61 <= byte <= 0x7a)
}

/// Whether the ASCII byte may not stand unescaped in a path segment: a
/// control character, a space, or one of `"` `<` `>` `` ` `` `#` `?` `{` `}`
/// `/` `%`.
pub open spec fn is_path_segment_unsafe(byte: u8) -> bool {
    is_control(byte) || byte == 0x20 || byte == 0x22 || byte == 0x3c || byte == 0x3e || byte == 0x60
        || byte == 0x23 || byte == 0x3f || byte == 0x7b || byte == 0x7d || byte == 0x2f || byte == 0x25
}

/// Whether the byte is an `attr-char`: a letter, a digit, or one of `!` `#`
/// `$` `&` `+` `-` `.` `^` `_` `` ` `` `|` `~`.
pub open spec fn is_attr_char(byte: u8) -> bool {
    is_alphanumeric(byte) || byte == 0x21 || byte == 0x23 || byte == 0x24 || byte == 0x26 || byte == 0x2b
        || byte == 0x2d || byte == 0x2e || byte == 0x5e || byte == 0x5f || byte == 0x60 || byte == 0x7c
        || byte == 0x7e
}

/// The upper-case hexadecimal digit for a value below sixteen.
pub open spec fn hex_upper(nibble: u8) -> u8 {
    if nibble < 10 {
        (0x30 + nibble) as u8
    } else {
        (0x37 + nibble) as u8
    }
}

/// A byte in its escaped form: a percent sign and two upper-case
/// hexadecimal digits.
pub open spec fn escaped(byte: u8) -> Seq<u8> {
    seq![0x25u8, hex_upper(byte / 16), hex_upper(byte % 16)]
}

impl PercentEncoding {
    /// Whether this rule escapes the byte. A byte outside ASCII is escaped by
    /// every rule that escapes at all.
    pub open spec fn escapes(self, byte: u8) -> bool {
        match self {
            PercentEncoding::PathSegment => byte >= 0x80 || is_path_segment_unsafe(byte),
            PercentEncoding::AttrChar => !is_attr_char(byte),
            PercentEncoding::NoOp => false,
        }
    }

    /// One byte as this rule writes it.
    pub open spec fn encoded_byte(self, byte: u8) -> Seq<u8> {
        if self.escapes(byte) {
            escaped(byte)
        } else {
            seq![byte]
        }
    }

    /// Whether this rule escapes some byte of the run.
    pub open spec fn escapes_any(self, bytes: Seq<u8>) -> bool {
        exists|i: int| 0 <= i < bytes.len() && self.escapes(#[trigger] bytes[i])
    }

    /// A run of bytes as this rule writes it.
    pub open spec fn encoded(self, bytes: Seq<u8>) -> Seq<u8>
        decreases bytes.len(),
    {
        if bytes.len() == 0 {
            Seq::empty()
        } else {
            self.encoded(bytes.drop_last()) + self.encoded_byte(bytes.last())
        }
    }

    /// Decides whether this rule escapes the byte.
    pub fn should_escape(&self, byte: u8) -> (yes: bool)
        ensures
            yes == self.escapes(byte),
    {
        match self {
            PercentEncoding::PathSegment => {
                byte >= 0x80 || byte < 0x20 || byte == 0x7f || byte == 0x20 || byte == 0x22 || byte == 0x3c
                    || byte == 0x3e || byte == 0x60 || byte == 0x23 || byte == 0x3f || byte == 0x7b
                    || byte == 0x7d || byte == 0x2f || byte == 0x25
            },
            PercentEncoding::AttrChar => {
                let alphanumeric = (0x30 <= byte && byte <= 0x39) || (0x41 <= byte && byte <= 0x5a) || (0x61
                    <= byte && byte <= 0x7a);
                !(alphanumeric || byte == 0x21 || byte == 0x23 || byte == 0x24 || byte == 0x26 || byte == 0x2b
                    || byte == 0x2d || byte == 0x2e || byte == 0x5e || byte == 0x5f || byte == 0x60
                    || byte == 0x7c || byte == 0x7e)
            },
            PercentEncoding::NoOp => false,
        }
    }

    /// Writes a run of bytes as this rule writes it.
    pub fn encode(&self, bytes: &[u8]) -> (out: Vec<u8>)
        ensures
            out@ == self.encoded(bytes@),
    {
        let mut out: Vec<u8> = Vec::new();
        let mut i: usize = 0;
        while i < bytes.len()
            invariant
                i <= bytes.len(),
                out@ == self.encoded(bytes@.take(i as int)),
            decreases bytes.len() - i,
        {
            let byte = bytes[i];
            proof {
                assert(bytes@.take(i as int + 1).drop_last() =~= bytes@.take(i as int));
            }
            if self.should_escape(byte) {
                out.extend_from_slice(percent_encoding::percent_encode_byte(byte).as_bytes());
            } else {
                out.push(byte);
            }
            i = i + 1;
        }
        assert(bytes@.take(i as int) =~= bytes@);
        out
    }
}

/// `percent_encode_byte` gives the escaped form of a byte as text of three
/// ASCII characters.
pub assume_specification[ percent_encoding::percent_encode_byte ](byte: u8) -> (text: &'static str)
    ensures
        vstd::utf8::encode_utf8(text@) == escaped(byte),
;

/// Escaping never shortens: the encoded run is as long as the run itself
/// exactly where no byte was escaped, and then it is the run itself.
pub proof fn lemma_encoded_len(rule: PercentEncoding, bytes: Seq<u8>)
    ensures
        rule.encoded(bytes).len() >= bytes.len(),
        rule.encoded(bytes).len() == bytes.len() <==> !rule.escapes_any(bytes),
        !rule.escapes_any(bytes) ==> rule.encoded(bytes) == bytes,
    decreases bytes.len(),
{
    if bytes.len() > 0 {
        let front = bytes.drop_last();
        lemma_encoded_len(rule, front);
        if rule.escapes_any(front) {
            let i = choose|i: int| 0 <= i < front.len() && rule.escapes(#[trigger] front[i]);
            assert(rule.escapes(bytes[i]));
        }
        if rule.escapes(bytes.last()) {
            assert(rule.escapes(bytes[bytes.len() - 1]));
        }
        if rule.escapes_any(bytes) {
            let i = choose|i: int| 0 <= i < bytes.len() && rule.escapes(#[trigger] bytes[i]);
            if i < front.len() {
                assert(rule.escapes(front[i]));
            }
        } else {
            assert(rule.encoded(bytes) =~= bytes);
        }
    } else {
        assert(rule.encoded(bytes) =~= bytes);
    }
}

} // verus!
