use vstd::prelude::*;
use crate::dlt_bytes::{read_u32, spec_u32_from_bytes};
use crate::dlt_protocol::{
    dlt_type_info_decode, spec_kind_is_standard, spec_type_info_decode, DltArgumentKind, DltTypeInfo,
};

verus! {

/// Why an argument could not be read from a payload.
#[derive(Debug, Clone, Copy, PartialEq, Eq, Structural)]
pub enum DltArgumentError {
    /// The payload ends before the argument does.
    Incomplete,
    /// The type info is malformed.
    Malformed,
    /// The argument is an array, a struct, a value of 128 bits, or carries a name, a
    /// quantization or trace information.
    Unsupported,
}

/// The value of an argument.
#[derive(Debug, Clone, PartialEq, Eq)]
pub enum DltArgumentValue {
    /// A boolean: whether the stored number is not zero
    Bool(bool),
    /// A signed number
    Sint(i64),
    /// An unsigned number
    Uint(u64),
    /// The bit pattern of a floating point number
    Float(u64),
    /// The bytes of a string as they are stored, closing zero byte included
    Text(Vec<u8>),
    /// Raw bytes
    Raw(Vec<u8>),
}

/// An argument of a verbose payload.
#[derive(Debug, Clone, PartialEq, Eq)]
pub struct DltArgument {
    /// What the type info says
    pub info: DltTypeInfo,
    /// The value
    pub value: DltArgumentValue,
}

/// The mathematical value of an argument's value: bytes are a sequence.
pub enum DltArgumentValueView {
    Bool(bool),
    Sint(i64),
    Uint(u64),
    Float(u64),
    Text(Seq<u8>),
    Raw(Seq<u8>),
}

/// The mathematical value of an argument.
pub struct DltArgumentView {
    pub info: DltTypeInfo,
    pub value: DltArgumentValueView,
}

impl View for DltArgumentValue {
    type V = DltArgumentValueView;

    open spec fn view(&self) -> DltArgumentValueView {
        match self {
            DltArgumentValue::Bool(b) => DltArgumentValueView::Bool(*b),
            DltArgumentValue::Sint(x) => DltArgumentValueView::Sint(*x),
            DltArgumentValue::Uint(x) => DltArgumentValueView::Uint(*x),
            DltArgumentValue::Float(x) => DltArgumentValueView::Float(*x),
            DltArgumentValue::Text(t) => DltArgumentValueView::Text(t@),
            DltArgumentValue::Raw(r) => DltArgumentValueView::Raw(r@),
        }
    }
}

impl View for DltArgument {
    type V = DltArgumentView;

    open spec fn view(&self) -> DltArgumentView {
        DltArgumentView { info: self.info, value: self.value@ }
    }
}

/// The 16-bit number that two bytes hold in the order that `msbf` selects.
pub open spec fn spec_u16_from_bytes(b: Seq<u8>, msbf: bool) -> u16
    recommends
        b.len() >= 2,
{
    if msbf {
        (b[0] as int * 256 + b[1] as int) as u16
    } else {
        (b[1] as int * 256 + b[0] as int) as u16
    }
}

/// The number that one, two, four or eight bytes hold in the order that `msbf` selects.
pub open spec fn spec_uint_from_bytes(b: Seq<u8>, msbf: bool) -> u64 {
    if b.len() == 1 {
        b[0] as u64
    } else if b.len() == 2 {
        spec_u16_from_bytes(b, msbf) as u64
    } else if b.len() == 4 {
        spec_u32_from_bytes(b, msbf) as u64
    } else if msbf {
        (spec_u32_from_bytes(b.subrange(0, 4), true) as int * 0x1_0000_0000 + spec_u32_from_bytes(
            b.subrange(4, 8),
            true,
        ) as int) as u64
    } else {
        (spec_u32_from_bytes(b.subrange(4, 8), false) as int * 0x1_0000_0000 + spec_u32_from_bytes(
            b.subrange(0, 4),
            false,
        ) as int) as u64
    }
}

/// The signed number that a bit pattern of `width` bits stands for in two's complement.
pub open spec fn spec_signed(raw: u64, width: int) -> i64 {
    if width == 8 {
        (if raw < 0x80 {
            raw as int
        } else {
            raw - 0x100
        }) as i64
    } else if width == 16 {
        (if raw < 0x8000 {
            raw as int
        } else {
            raw - 0x1_0000
        }) as i64
    } else if width == 32 {
        (if raw < 0x8000_0000 {
            raw as int
        } else {
            raw - 0x1_0000_0000
        }) as i64
    } else {
        (if raw < 0x8000_0000_0000_0000 {
            raw as int
        } else {
            raw - 0x1_0000_0000_0000_0000
        }) as i64
    }
}

/// Whether the reader handles an argument with this type info: a single value of up to 64
/// bits, a string or raw data, without name, quantization or trace information.
pub open spec fn spec_supported(info: DltTypeInfo) -> bool {
    !info.array && !info.vari && !info.fixp && !info.trai && info.kind != DltArgumentKind::Struct
        && info.width != 128
}

/// The argument that stands at the start of `b`, with the number of bytes it takes.
///
/// The type info stands in four bytes in the order that `msbf` selects. A value of a
/// standard type follows in as many bytes as its width says, in the same order. A string
/// or raw data follow as a length in two bytes, in the same order, and as many bytes.
pub open spec fn spec_argument_read(b: Seq<u8>, msbf: bool) -> Result<
    (DltArgumentView, nat),
    DltArgumentError,
> {
    if b.len() < 4 {
        Err(DltArgumentError::Incomplete)
    } else {
        match spec_type_info_decode(spec_u32_from_bytes(b.subrange(0, 4), msbf)) {
            None => Err(DltArgumentError::Malformed),
            Some(info) => if !spec_supported(info) {
                Err(DltArgumentError::Unsupported)
            } else if spec_kind_is_standard(info.kind) {
                let n = info.width as int / 8;
                if b.len() < 4 + n {
                    Err(DltArgumentError::Incomplete)
                } else {
                    let raw = spec_uint_from_bytes(b.subrange(4, 4 + n), msbf);
                    let value = match info.kind {
                        DltArgumentKind::Bool => DltArgumentValueView::Bool(raw != 0),
                        DltArgumentKind::Sint => DltArgumentValueView::Sint(
                            spec_signed(raw, info.width as int),
                        ),
                        DltArgumentKind::Uint => DltArgumentValueView::Uint(raw),
                        _ => DltArgumentValueView::Float(raw),
                    };
                    Ok((DltArgumentView { info, value }, (4 + n) as nat))
                }
            } else if b.len() < 6 {
                Err(DltArgumentError::Incomplete)
            } else {
                let n = spec_u16_from_bytes(b.subrange(4, 6), msbf) as int;
                if b.len() < 6 + n {
                    Err(DltArgumentError::Incomplete)
                } else {
                    let bytes = b.subrange(6, 6 + n);
                    let value = if info.kind == DltArgumentKind::String {
                        DltArgumentValueView::Text(bytes)
                    } else {
                        DltArgumentValueView::Raw(bytes)
                    };
                    Ok((DltArgumentView { info, value }, (6 + n) as nat))
                }
            },
        }
    }
}

fn read_u16(buffer: &[u8], offset: usize, msbf: bool) -> (x: u16)
    requires
        offset + 2 <= buffer.len(),
    ensures
        x == spec_u16_from_bytes(buffer@.subrange(offset as int, offset + 2), msbf),
{
    let a: u16 = buffer[offset] as u16;
    let b: u16 = buffer[offset + 1] as u16;
    if msbf {
        a * 256 + b
    } else {
        b * 256 + a
    }
}

fn read_uint(buffer: &[u8], offset: usize, n: usize, msbf: bool) -> (x: u64)
    requires
        n == 1 || n == 2 || n == 4 || n == 8,
        offset + n <= buffer.len(),
    ensures
        x == spec_uint_from_bytes(buffer@.subrange(offset as int, offset + n), msbf),
{
    let ghost b = buffer@.subrange(offset as int, offset + n);
    if n == 1 {
        buffer[offset] as u64
    } else if n == 2 {
        read_u16(buffer, offset, msbf) as u64
    } else if n == 4 {
        read_u32(buffer, offset, msbf) as u64
    } else {
        let first = read_u32(buffer, offset, msbf) as u64;
        let second = read_u32(buffer, offset + 4, msbf) as u64;
        assert(buffer@.subrange(offset as int, offset + 4) =~= b.subrange(0, 4));
        assert(buffer@.subrange(offset + 4, offset + 8) =~= b.subrange(4, 8));
        if msbf {
            first * 0x1_0000_0000 + second
        } else {
            second * 0x1_0000_0000 + first
        }
    }
}

fn signed(raw: u64, width: u8) -> (x: i64)
    requires
        width == 8 && raw < 0x100 || width == 16 && raw < 0x1_0000 || width == 32 && raw
            < 0x1_0000_0000 || width == 64,
    ensures
        x == spec_signed(raw, width as int),
{
    let value = raw as i128;
    let half: i128 = if width == 8 {
        0x80
    } else if width == 16 {
        0x8000
    } else if width == 32 {
        0x8000_0000
    } else {
        0x8000_0000_0000_0000
    };
    if value < half {
        value as i64
    } else {
        (value - 2 * half) as i64
    }
}

fn copy_bytes(buffer: &[u8], from: usize, to: usize) -> (bytes: Vec<u8>)
    requires
        from <= to <= buffer.len(),
    ensures
        bytes@ == buffer@.subrange(from as int, to as int),
{
    let mut bytes: Vec<u8> = Vec::with_capacity(to - from);
    let mut i: usize = from;
    while i < to
        invariant
            from <= i <= to <= buffer@.len(),
            bytes@ == buffer@.subrange(from as int, i as int),
        decreases to - i,
    {
        bytes.push(buffer[i]);
        i += 1;
        assert(bytes@ =~= buffer@.subrange(from as int, i as int));
    }
    bytes
}

/// Reads the argument that stands at `offset` in a verbose payload, and gives it with the
/// position behind it.
///
/// Fails with `Incomplete` where the payload ends before the argument does or `offset`
/// lies behind its end, with
/// `Malformed` where the type info has no kind or more than one or lacks the width of a
/// standard type, and with `Unsupported` where the argument is an array, a struct, a value
/// of 128 bits, or carries a name, a quantization or trace information.
pub fn dlt_message_argument_read(payload: &[u8], offset: usize, msbf: bool) -> (r: Result<
    (DltArgument, usize),
    DltArgumentError,
>)
    ensures
        offset > payload@.len() ==> (r matches Err(e) && e == DltArgumentError::Incomplete),
        offset <= payload@.len() ==> match spec_argument_read(payload@.skip(offset as int), msbf) {
            Ok(v) => r matches Ok(p) && p.0@ == v.0 && p.1 == offset + v.1 && p.1 <= payload@.len(),
            Err(e) => r matches Err(f) && f == e,
        },
{
    if offset > payload.len() {
        return Err(DltArgumentError::Incomplete);
    }
    let ghost b = payload@.skip(offset as int);
    let avail = payload.len() - offset;
    if avail < 4 {
        return Err(DltArgumentError::Incomplete);
    }
    let type_info = read_u32(payload, offset, msbf);
    assert(payload@.subrange(offset as int, offset + 4) =~= b.subrange(0, 4));
    let info = match dlt_type_info_decode(type_info) {
        Err(_) => {
            return Err(DltArgumentError::Malformed);
        },
        Ok(info) => info,
    };
    let standard = match info.kind {
        DltArgumentKind::Bool => true,
        DltArgumentKind::Sint => true,
        DltArgumentKind::Uint => true,
        DltArgumentKind::Float => true,
        _ => false,
    };
    let is_struct = match info.kind {
        DltArgumentKind::Struct => true,
        _ => false,
    };
    if info.array || info.vari || info.fixp || info.trai || is_struct || info.width == 128 {
        return Err(DltArgumentError::Unsupported);
    }
    if standard {
        let n = (info.width / 8) as usize;
        if avail - 4 < n {
            return Err(DltArgumentError::Incomplete);
        }
        let raw = read_uint(payload, offset + 4, n, msbf);
        assert(payload@.subrange(offset + 4, offset + 4 + n) =~= b.subrange(4, 4 + n));
        let value = match info.kind {
            DltArgumentKind::Bool => DltArgumentValue::Bool(raw != 0),
            DltArgumentKind::Sint => DltArgumentValue::Sint(signed(raw, info.width)),
            DltArgumentKind::Uint => DltArgumentValue::Uint(raw),
            _ => DltArgumentValue::Float(raw),
        };
        return Ok((DltArgument { info, value }, offset + 4 + n));
    }
    if avail < 6 {
        return Err(DltArgumentError::Incomplete);
    }
    let n = read_u16(payload, offset + 4, msbf) as usize;
    assert(payload@.subrange(offset + 4, offset + 6) =~= b.subrange(4, 6));
    if avail - 6 < n {
        return Err(DltArgumentError::Incomplete);
    }
    let bytes = copy_bytes(payload, offset + 6, offset + 6 + n);
    assert(bytes@ =~= b.subrange(6, 6 + n));
    let is_string = match info.kind {
        DltArgumentKind::String => true,
        _ => false,
    };
    let value = if is_string {
        DltArgumentValue::Text(bytes)
    } else {
        DltArgumentValue::Raw(bytes)
    };
    Ok((DltArgument { info, value }, offset + 6 + n))
}

} // verus!
