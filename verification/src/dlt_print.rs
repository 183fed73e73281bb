use vstd::prelude::*;
use vstd::slice::slice_subrange;
use crate::dlt_common::{DltMessage, DltMessageView};

verus! {

/// The lower case hexadecimal digit of a number below sixteen.
pub open spec fn spec_hex_digit(n: int) -> u8 {
    if n < 10 {
        (0x30 + n) as u8
    } else {
        (0x61 + n - 10) as u8
    }
}

/// Bytes as hexadecimal text: two lower case digits for each byte, and a space between
/// one byte and the next.
pub open spec fn spec_hex_string(data: Seq<u8>) -> Seq<u8> {
    Seq::new(
        if data.len() == 0 {
            0nat
        } else {
            (3 * data.len() - 1) as nat
        },
        |k: int|
            if k % 3 == 0 {
                spec_hex_digit(data[k / 3] as int / 16)
            } else if k % 3 == 1 {
                spec_hex_digit(data[k / 3] as int % 16)
            } else {
                0x20u8
            },
    )
}

/// The character that stands for a byte in text: the byte itself where it is printable
/// ASCII, but a full stop for the less-than sign, and a hyphen for any other byte.
pub open spec fn spec_char(b: u8) -> u8 {
    if b < 0x20 || b > 0x7e {
        0x2d
    } else if b == 0x3c {
        0x2e
    } else {
        b
    }
}

/// Bytes as characters: one character for each byte.
pub open spec fn spec_char_string(data: Seq<u8>) -> Seq<u8> {
    Seq::new(data.len(), |k: int| spec_char(data[k]))
}

/// A text cut down to at most `textlength` bytes.
pub open spec fn spec_bounded(full: Seq<u8>, textlength: int) -> Seq<u8> {
    if full.len() <= textlength {
        full
    } else {
        full.subrange(0, textlength)
    }
}

fn hex_digit(n: u8) -> (c: u8)
    requires
        n < 16,
    ensures
        c == spec_hex_digit(n as int),
{
    if n < 10 {
        0x30 + n
    } else {
        0x61 + (n - 10)
    }
}

/// Writes bytes as hexadecimal text of at most `textlength` bytes.
///
/// Gives the text and whether it was cut: text that would be longer than `textlength` is
/// cut behind its first `textlength` bytes.
pub fn dlt_print_hex_string(data: &[u8], textlength: usize) -> (r: (Vec<u8>, bool))
    ensures
        r.0@ == spec_bounded(spec_hex_string(data@), textlength as int),
        r.1 == (spec_hex_string(data@).len() > textlength),
{
    let ghost full = spec_hex_string(data@);
    let n = data.len();
    let mut text: Vec<u8> = Vec::new();
    let mut i: usize = 0;
    while i < n
        invariant
            i <= n,
            n > 0 ==> i < n,
            n == data@.len(),
            full == spec_hex_string(data@),
            text@.len() == 3 * i,
            text@.len() <= textlength,
            text@ == full.subrange(0, 3 * i),
        decreases n - i,
    {
        let b = data[i];
        let ghost k = 3 * i;
        assert(k % 3 == 0 && k / 3 == i && (k + 1) % 3 == 1 && (k + 1) / 3 == i && (k + 2) % 3 == 2);
        if text.len() >= textlength {
            return (text, true);
        }
        text.push(hex_digit(b / 16));
        assert(text@ =~= full.subrange(0, k + 1));
        if text.len() >= textlength {
            return (text, true);
        }
        text.push(hex_digit(b % 16));
        assert(text@ =~= full.subrange(0, k + 2));
        if i + 1 == n {
            assert(text@ =~= full);
            return (text, false);
        }
        if text.len() >= textlength {
            return (text, true);
        }
        text.push(0x20);
        assert(text@ =~= full.subrange(0, k + 3));
        i += 1;
    }
    assert(text@ =~= full);
    (text, false)
}

/// Writes bytes as characters, at most `textlength` of them.
///
/// Gives the text and whether it was cut: text that would be longer than `textlength` is
/// cut behind its first `textlength` bytes.
pub fn dlt_print_char_string(data: &[u8], textlength: usize) -> (r: (Vec<u8>, bool))
    ensures
        r.0@ == spec_bounded(spec_char_string(data@), textlength as int),
        r.1 == (spec_char_string(data@).len() > textlength),
{
    let ghost full = spec_char_string(data@);
    let mut text: Vec<u8> = Vec::new();
    let mut i: usize = 0;
    while i < data.len() && i < textlength
        invariant
            i <= data@.len(),
            i <= textlength,
            full == spec_char_string(data@),
            text@.len() == i,
            text@ == full.subrange(0, i as int),
        decreases data@.len() - i,
    {
        let b = data[i];
        let c = if b < 0x20 || b > 0x7e {
            0x2d
        } else if b == 0x3c {
            0x2e
        } else {
            b
        };
        text.push(c);
        i += 1;
        assert(text@ =~= full.subrange(0, i as int));
    }
    proof {
        if full.len() <= textlength {
            assert(text@ =~= full);
        }
    }
    (text, data.len() > textlength)
}

/// The position of a line in mixed text: six lower case hexadecimal digits, a colon and a
/// space. Of a position of more than six digits the lowest six are written.
pub open spec fn spec_offset_text(n: int) -> Seq<u8> {
    seq![
        spec_hex_digit((n / 0x100000) % 16),
        spec_hex_digit((n / 0x10000) % 16),
        spec_hex_digit((n / 0x1000) % 16),
        spec_hex_digit((n / 0x100) % 16),
        spec_hex_digit((n / 0x10) % 16),
        spec_hex_digit(n % 16),
        0x3au8,
        0x20u8,
    ]
}

/// A run of `n` spaces.
pub open spec fn spec_spaces(n: int) -> Seq<u8> {
    Seq::new(n as nat, |i: int| 0x20u8)
}

/// What ends a full line of mixed text: a line feed, or the characters `<BR>` in HTML.
pub open spec fn spec_newline(html: bool) -> Seq<u8> {
    if html {
        seq![0x3cu8, 0x42u8, 0x52u8, 0x3eu8]
    } else {
        seq![0x0au8]
    }
}

/// One line of mixed text for up to sixteen bytes: the position, the bytes as hexadecimal
/// text filled up with spaces to the width of sixteen bytes, a space, and the bytes as
/// characters. A line of sixteen bytes is ended as `spec_newline` says.
#[verifier::opaque]
pub open spec fn spec_mixed_line(offset: int, chunk: Seq<u8>, html: bool) -> Seq<u8> {
    spec_offset_text(offset) + spec_hex_string(chunk) + spec_spaces(3 * (16 - chunk.len()))
        + seq![0x20u8] + spec_char_string(chunk) + (if chunk.len() == 16 {
        spec_newline(html)
    } else {
        Seq::<u8>::empty()
    })
}

/// The bytes of `data` from `from` on as mixed text: one line for every sixteen bytes.
pub open spec fn spec_mixed_string(data: Seq<u8>, from: int, html: bool) -> Seq<u8>
    decreases data.len() - from,
{
    if from < 0 || from >= data.len() {
        Seq::<u8>::empty()
    } else {
        let to = if from + 16 <= data.len() {
            from + 16
        } else {
            data.len() as int
        };
        spec_mixed_line(from, data.subrange(from, to), html) + spec_mixed_string(data, to, html)
    }
}

fn mixed_line(data: &[u8], from: usize, to: usize, html: bool) -> (line: Vec<u8>)
    requires
        from < to <= data.len(),
        to - from <= 16,
    ensures
        line@ == spec_mixed_line(from as int, data@.subrange(from as int, to as int), html),
{
    reveal(spec_mixed_line);
    let chunk = slice_subrange(data, from, to);
    let mut line: Vec<u8> = Vec::new();
    line.push(hex_digit(((from / 0x100000) % 16) as u8));
    line.push(hex_digit(((from / 0x10000) % 16) as u8));
    line.push(hex_digit(((from / 0x1000) % 16) as u8));
    line.push(hex_digit(((from / 0x100) % 16) as u8));
    line.push(hex_digit(((from / 0x10) % 16) as u8));
    line.push(hex_digit((from % 16) as u8));
    line.push(0x3a);
    line.push(0x20);
    assert(line@ =~= spec_offset_text(from as int));
    let (hex, _) = dlt_print_hex_string(chunk, 47);
    line.extend_from_slice(hex.as_slice());
    let ghost before_spaces = line@;
    let missing: usize = 3 * (16 - (to - from));
    let mut i: usize = 0;
    while i < missing
        invariant
            i <= missing,
            line@ == before_spaces + spec_spaces(i as int),
        decreases missing - i,
    {
        line.push(0x20);
        i += 1;
        assert(line@ =~= before_spaces + spec_spaces(i as int));
    }
    line.push(0x20);
    let (chars, _) = dlt_print_char_string(chunk, 16);
    line.extend_from_slice(chars.as_slice());
    if to - from == 16 {
        if html {
            line.push(0x3c);
            line.push(0x42);
            line.push(0x52);
            line.push(0x3e);
        } else {
            line.push(0x0a);
        }
    }
    assert(line@ =~= spec_mixed_line(from as int, chunk@, html));
    line
}

/// Writes bytes as mixed text, hexadecimal and characters side by side, of at most
/// `textlength` bytes; with `html` the lines are ended for HTML.
///
/// Gives the text and whether it was cut: text that would be longer than `textlength` is
/// cut behind its first `textlength` bytes.
pub fn dlt_print_mixed_string(data: &[u8], textlength: usize, html: bool) -> (r: (Vec<u8>, bool))
    ensures
        r.0@ == spec_bounded(spec_mixed_string(data@, 0, html), textlength as int),
        r.1 == (spec_mixed_string(data@, 0, html).len() > textlength),
{
    let ghost full = spec_mixed_string(data@, 0, html);
    let mut text: Vec<u8> = Vec::new();
    let mut from: usize = 0;
    assert(text@ + full =~= full);
    while from < data.len()
        invariant
            from <= data@.len(),
            text@.len() <= textlength,
            full == spec_mixed_string(data@, 0, html),
            text@ + spec_mixed_string(data@, from as int, html) == full,
        decreases data@.len() - from,
    {
        let to = if data.len() - from >= 16 {
            from + 16
        } else {
            data.len()
        };
        let line = mixed_line(data, from, to, html);
        let ghost before = text@;
        text.extend_from_slice(line.as_slice());
        proof {
            let rest = spec_mixed_string(data@, to as int, html);
            assert(text@ + rest =~= before + (line@ + rest));
        }
        if text.len() > textlength {
            let ghost long = text@;
            text.truncate(textlength);
            assert(text@ =~= full.subrange(0, textlength as int)) by {
                assert(full.subrange(0, long.len() as int) =~= long);
            }
            return (text, true);
        }
        from = to;
    }
    assert(text@ =~= full);
    (text, false)
}

/// How the payload of a message is written as text.
#[derive(Debug, Clone, Copy, PartialEq, Eq, Structural)]
pub enum DltOutput {
    /// Hexadecimal digits
    Hex,
    /// Characters
    Ascii,
    /// Hexadecimal digits and characters side by side, lines ended by a line feed
    MixedPlain,
    /// Hexadecimal digits and characters side by side, lines ended for HTML
    MixedHtml,
}

/// The payload of a message as text, uncut.
pub open spec fn spec_payload_text(msg: DltMessageView, output: DltOutput) -> Seq<u8> {
    match output {
        DltOutput::Hex => spec_hex_string(msg.payload),
        DltOutput::Ascii => spec_char_string(msg.payload),
        DltOutput::MixedPlain => spec_mixed_string(msg.payload, 0, false),
        DltOutput::MixedHtml => spec_mixed_string(msg.payload, 0, true),
    }
}

/// Writes the payload of a message as text of at most `textlength` bytes. The message stays
/// as it is.
///
/// Gives the text and whether it was cut: text that would be longer than `textlength` is
/// cut behind its first `textlength` bytes.
pub fn dlt_message_payload(msg: &DltMessage, textlength: usize, output: DltOutput) -> (r: (
    Vec<u8>,
    bool,
))
    ensures
        r.0@ == spec_bounded(spec_payload_text(msg@, output), textlength as int),
        r.1 == (spec_payload_text(msg@, output).len() > textlength),
{
    let payload = msg.databuffer.as_slice();
    match output {
        DltOutput::Hex => dlt_print_hex_string(payload, textlength),
        DltOutput::Ascii => dlt_print_char_string(payload, textlength),
        DltOutput::MixedPlain => dlt_print_mixed_string(payload, textlength, false),
        DltOutput::MixedHtml => dlt_print_mixed_string(payload, textlength, true),
    }
}

} // verus!
