use vstd::prelude::*;
use crate::dlt_bytes::{
    spec_i32_bits, spec_i32_from_bits, spec_u16_be, spec_u16_from_be, spec_u32_bytes,
    spec_u32_from_bytes,
};
use crate::dlt_protocol::{
    spec_htyp_msbf, spec_htyp_ueh, spec_htyp_version, spec_htyp_weid, spec_htyp_wsid,
    spec_htyp_wtms,
};

verus! {

/// The size of a DLT ID
pub const DLT_ID_SIZE: usize = 4;

/// Maximum number of filters
pub const DLT_FILTER_MAX: usize = 30;

/// Bytes of a storage header
pub const SIZE_OF_DLT_STORAGE_HEADER: usize = 16;

/// Bytes of a standard header
pub const SIZE_OF_DLT_STANDARD_HEADER: usize = 4;

/// Bytes of the standard header's extra fields when all three are present
pub const SIZE_OF_DLT_STANDARD_HEADER_EXTRA: usize = 12;

/// Bytes of an extended header
pub const SIZE_OF_DLT_EXTENDED_HEADER: usize = 10;

/// The serial header: the characters "DLS" and the byte 0x01.
pub const dltSerialHeader: [u8; 4] = [0x44, 0x4c, 0x53, 0x01];

/// The pattern that opens a storage header: the characters "DLT" and the byte 0x01.
pub const dltStoragePattern: [u8; 4] = [0x44, 0x4c, 0x54, 0x01];

/// An identifier is well formed when nothing but zeros follows its first zero byte.
pub open spec fn spec_id_wf(id: Seq<u8>) -> bool {
    &&& id.len() == 4
    &&& (id[0] == 0 ==> id[1] == 0)
    &&& (id[1] == 0 ==> id[2] == 0)
    &&& (id[2] == 0 ==> id[3] == 0)
}

/// An identifier is empty when all its bytes are zero.
pub open spec fn spec_id_is_empty(id: Seq<u8>) -> bool {
    id == seq![0u8, 0u8, 0u8, 0u8]
}

/// The identifier made from a text: its bytes before the first zero byte, four at most,
/// padded with zeros on the right.
pub open spec fn spec_set_id(text: Seq<u8>) -> Seq<u8> {
    let b0 = if text.len() > 0 {
        text[0]
    } else {
        0u8
    };
    let b1 = if b0 != 0 && text.len() > 1 {
        text[1]
    } else {
        0u8
    };
    let b2 = if b1 != 0 && text.len() > 2 {
        text[2]
    } else {
        0u8
    };
    let b3 = if b2 != 0 && text.len() > 3 {
        text[3]
    } else {
        0u8
    };
    seq![b0, b1, b2, b3]
}

/// The printed form of an identifier: its bytes before the first zero byte, followed by
/// hyphens up to four characters.
pub open spec fn spec_print_id(id: Seq<u8>) -> Seq<u8>
    recommends
        id.len() == 4,
{
    let c0 = if id[0] != 0 {
        id[0]
    } else {
        0x2du8
    };
    let c1 = if id[0] != 0 && id[1] != 0 {
        id[1]
    } else {
        0x2du8
    };
    let c2 = if id[0] != 0 && id[1] != 0 && id[2] != 0 {
        id[2]
    } else {
        0x2du8
    };
    let c3 = if id[0] != 0 && id[1] != 0 && id[2] != 0 && id[3] != 0 {
        id[3]
    } else {
        0x2du8
    };
    seq![c0, c1, c2, c3]
}

/// Makes a four byte identifier from a text, stopping at its first zero byte.
pub fn dlt_set_id(text: &[u8]) -> (id: [u8; 4])
    ensures
        id@ == spec_set_id(text@),
        spec_id_wf(id@),
{
    let mut id = [0u8; 4];
    let mut i: usize = 0;
    while i < 4 && i < text.len() && text[i] != 0
        invariant
            i <= 4,
            i <= text@.len(),
            forall|j: int| 0 <= j < i ==> id@[j] == text@[j] && text@[j] != 0,
            forall|j: int| i <= j < 4 ==> id@[j] == 0,
        decreases 4 - i,
    {
        id[i] = text[i];
        i += 1;
    }
    assert(id@ =~= spec_set_id(text@));
    id
}

/// Writes an identifier as four printable characters.
pub fn dlt_print_id(id: &[u8; 4]) -> (text: [u8; 4])
    ensures
        text@ == spec_print_id(id@),
{
    let mut text = [0x2du8; 4];
    let mut i: usize = 0;
    while i < 4 && id[i] != 0
        invariant
            i <= 4,
            forall|j: int| 0 <= j < i ==> text@[j] == id@[j] && id@[j] != 0,
            forall|j: int| i <= j < 4 ==> text@[j] == 0x2d,
        decreases 4 - i,
    {
        text[i] = id[i];
        i += 1;
    }
    assert(text@ =~= spec_print_id(id@));
    text
}

/// Whether two identifiers hold the same four bytes.
pub fn dlt_id_eq(a: &[u8; 4], b: &[u8; 4]) -> (same: bool)
    ensures
        same == (a@ == b@),
        same == (*a == *b),
{
    let same = a[0] == b[0] && a[1] == b[1] && a[2] == b[2] && a[3] == b[3];
    proof {
        if same {
            assert(a@ =~= b@);
            assert(*a =~= *b);
        }
    }
    same
}

/// Whether an identifier is empty, that is all zero.
pub fn dlt_id_is_empty(id: &[u8; 4]) -> (empty: bool)
    ensures
        empty == spec_id_is_empty(id@),
{
    let empty = id[0] == 0 && id[1] == 0 && id[2] == 0 && id[3] == 0;
    proof {
        if empty {
            assert(id@ =~= seq![0u8, 0u8, 0u8, 0u8]);
        }
    }
    empty
}

/// The structure of the DLT file storage header.
/// This header is used before each stored DLT message
#[derive(Debug, Clone, Copy, PartialEq, Eq)]
pub struct DltStorageHeader {
    /// This pattern should be DLT0x01
    pub pattern: [u8; 4],
    /// Seconds since epoch(1.1.1970)
    pub seconds: u32,
    /// Microseconds
    pub microseconds: i32,
    /// The ECU id is added, if it is not already in the DLT message itself
    pub ecu: [u8; 4],
}

/// The structure of the DLT standard header.
/// This header is used in each DLT message
#[derive(Debug, Clone, Copy, PartialEq, Eq)]
pub struct DltStandardHeader {
    /// This parameter contains several informations
    pub htyp: u8,
    /// The message counter is increased with each sent DLT message
    pub mcnt: u8,
    /// Length of the complete message, without storage header
    pub len: u16,
}

/// The structure of the DLT extra header parameters.
/// Each parameter is sent only if enabled in htyp
#[derive(Debug, Clone, Copy, PartialEq, Eq)]
pub struct DltStandardHeaderExtra {
    /// ECU id
    pub ecu: [u8; 4],
    /// Session number
    pub seid: u32,
    /// Timestamp since system start in 0.1 milliseconds
    pub tmsp: u32,
}

/// The structure of the DLT extended header.
/// This header is only sent if enabled in htyp parameter
#[derive(Debug, Clone, Copy, PartialEq, Eq)]
pub struct DltExtendedHeader {
    /// Message info
    pub msin: u8,
    /// Number of arguments
    pub noar: u8,
    /// Application id
    pub apid: [u8; 4],
    /// Context id
    pub ctid: [u8; 4],
}

/// Why a message could not be read from a buffer.
#[derive(Debug, Clone, Copy, PartialEq, Eq, Structural)]
pub enum DltMessageError {
    /// The buffer ends before the message does: reading again with more bytes may succeed.
    Incomplete,
    /// The bytes are not a message: a pattern or the protocol version does not match, or the
    /// declared length is shorter than the headers.
    Malformed,
}

impl DltStorageHeader {
    /// The storage header of a message that has none: all zero.
    pub open spec fn spec_empty() -> DltStorageHeader {
        DltStorageHeader { pattern: [0u8, 0u8, 0u8, 0u8], seconds: 0, microseconds: 0, ecu: [0u8, 0u8, 0u8, 0u8] }
    }

    /// The sixteen bytes of the header: pattern, seconds, microseconds, ECU id.
    pub open spec fn spec_bytes(self, msbf: bool) -> Seq<u8> {
        self.pattern@ + spec_u32_bytes(self.seconds, msbf) + spec_u32_bytes(
            spec_i32_bits(self.microseconds),
            msbf,
        ) + self.ecu@
    }

    /// The header that sixteen bytes hold.
    pub open spec fn spec_from_bytes(b: Seq<u8>, msbf: bool) -> DltStorageHeader
        recommends
            b.len() >= 16,
    {
        DltStorageHeader {
            pattern: [b[0], b[1], b[2], b[3]],
            seconds: spec_u32_from_bytes(b.subrange(4, 8), msbf),
            microseconds: spec_i32_from_bits(spec_u32_from_bytes(b.subrange(8, 12), msbf)),
            ecu: [b[12], b[13], b[14], b[15]],
        }
    }

    /// A storage header with no content.
    pub fn empty() -> (header: DltStorageHeader)
        ensures
            header == DltStorageHeader::spec_empty(),
    {
        let header = DltStorageHeader { pattern: [0u8; 4], seconds: 0, microseconds: 0, ecu: [0u8; 4] };
        assert(header.pattern =~= [0u8, 0u8, 0u8, 0u8]);
        assert(header.ecu =~= [0u8, 0u8, 0u8, 0u8]);
        header
    }
}

/// Fills out a storage header: the storage pattern, the time given, and the ECU id made
/// from `ecu`.
pub fn dlt_set_storageheader(ecu: &[u8], seconds: u32, microseconds: i32) -> (header:
    DltStorageHeader)
    ensures
        header.pattern@ == dltStoragePattern@,
        header.seconds == seconds,
        header.microseconds == microseconds,
        header.ecu@ == spec_set_id(ecu@),
{
    DltStorageHeader { pattern: dltStoragePattern, seconds, microseconds, ecu: dlt_set_id(ecu) }
}

/// Whether a storage header opens with the storage pattern.
pub fn dlt_check_storageheader(header: &DltStorageHeader) -> (found: bool)
    ensures
        found == (header.pattern@ == dltStoragePattern@),
{
    dlt_id_eq(&header.pattern, &dltStoragePattern)
}

impl DltStandardHeader {
    /// The four bytes of the header: type, counter, and the length with its most
    /// significant byte first.
    pub open spec fn spec_bytes(self) -> Seq<u8> {
        seq![self.htyp, self.mcnt] + spec_u16_be(self.len)
    }
}

/// Bytes that the extra fields of a standard header take: four for each field that the
/// header type announces.
pub open spec fn spec_extra_size(htyp: u8) -> nat {
    ((if spec_htyp_weid(htyp) {
        4int
    } else {
        0int
    }) + (if spec_htyp_wsid(htyp) {
        4int
    } else {
        0int
    }) + (if spec_htyp_wtms(htyp) {
        4int
    } else {
        0int
    })) as nat
}

/// Bytes that all headers behind the storage header take: standard, extra, extended.
pub open spec fn spec_header_size(htyp: u8) -> nat {
    4 + spec_extra_size(htyp) + (if spec_htyp_ueh(htyp) {
        10nat
    } else {
        0nat
    })
}

impl DltStandardHeaderExtra {
    /// Extra fields with no content.
    pub open spec fn spec_empty() -> DltStandardHeaderExtra {
        DltStandardHeaderExtra { ecu: [0u8, 0u8, 0u8, 0u8], seid: 0, tmsp: 0 }
    }

    /// The bytes of the fields that the header type announces: ECU id, session id,
    /// timestamp, in this order.
    pub open spec fn spec_bytes(self, htyp: u8) -> Seq<u8> {
        (if spec_htyp_weid(htyp) {
            self.ecu@
        } else {
            Seq::<u8>::empty()
        }) + (if spec_htyp_wsid(htyp) {
            spec_u32_bytes(self.seid, spec_htyp_msbf(htyp))
        } else {
            Seq::<u8>::empty()
        }) + (if spec_htyp_wtms(htyp) {
            spec_u32_bytes(self.tmsp, spec_htyp_msbf(htyp))
        } else {
            Seq::<u8>::empty()
        })
    }

    /// The extra fields that `b` holds for a header type; a field that is not announced is
    /// zero.
    pub open spec fn spec_from_bytes(htyp: u8, b: Seq<u8>) -> DltStandardHeaderExtra
        recommends
            b.len() >= spec_extra_size(htyp),
    {
        let o1: int = if spec_htyp_weid(htyp) {
            4
        } else {
            0
        };
        let o2: int = if spec_htyp_wsid(htyp) {
            o1 + 4
        } else {
            o1
        };
        DltStandardHeaderExtra {
            ecu: if spec_htyp_weid(htyp) {
                [b[0], b[1], b[2], b[3]]
            } else {
                [0u8, 0u8, 0u8, 0u8]
            },
            seid: if spec_htyp_wsid(htyp) {
                spec_u32_from_bytes(b.subrange(o1, o1 + 4), spec_htyp_msbf(htyp))
            } else {
                0
            },
            tmsp: if spec_htyp_wtms(htyp) {
                spec_u32_from_bytes(b.subrange(o2, o2 + 4), spec_htyp_msbf(htyp))
            } else {
                0
            },
        }
    }

    /// Whether every field that the header type does not announce is zero.
    pub open spec fn spec_canonical(self, htyp: u8) -> bool {
        &&& (!spec_htyp_weid(htyp) ==> self.ecu == [0u8, 0u8, 0u8, 0u8])
        &&& (!spec_htyp_wsid(htyp) ==> self.seid == 0)
        &&& (!spec_htyp_wtms(htyp) ==> self.tmsp == 0)
    }

    /// Extra fields with no content.
    pub fn empty() -> (extra: DltStandardHeaderExtra)
        ensures
            extra == DltStandardHeaderExtra::spec_empty(),
    {
        let extra = DltStandardHeaderExtra { ecu: [0u8; 4], seid: 0, tmsp: 0 };
        assert(extra.ecu =~= [0u8, 0u8, 0u8, 0u8]);
        extra
    }
}

impl DltExtendedHeader {
    /// An extended header with no content.
    pub open spec fn spec_empty() -> DltExtendedHeader {
        DltExtendedHeader { msin: 0, noar: 0, apid: [0u8, 0u8, 0u8, 0u8], ctid: [0u8, 0u8, 0u8, 0u8] }
    }

    /// The ten bytes of the header: message info, argument count, application id, context
    /// id.
    pub open spec fn spec_bytes(self) -> Seq<u8> {
        seq![self.msin, self.noar] + self.apid@ + self.ctid@
    }

    /// The header that ten bytes hold.
    pub open spec fn spec_from_bytes(b: Seq<u8>) -> DltExtendedHeader
        recommends
            b.len() >= 10,
    {
        DltExtendedHeader {
            msin: b[0],
            noar: b[1],
            apid: [b[2], b[3], b[4], b[5]],
            ctid: [b[6], b[7], b[8], b[9]],
        }
    }

    /// An extended header with no content.
    pub fn empty() -> (header: DltExtendedHeader)
        ensures
            header == DltExtendedHeader::spec_empty(),
    {
        let header = DltExtendedHeader { msin: 0, noar: 0, apid: [0u8; 4], ctid: [0u8; 4] };
        assert(header.apid =~= [0u8, 0u8, 0u8, 0u8]);
        assert(header.ctid =~= [0u8, 0u8, 0u8, 0u8]);
        header
    }
}

/// A message: its headers, its payload, and what reading it from a buffer found.
#[derive(Debug, Clone, PartialEq, Eq)]
pub struct DltMessage {
    /// Whether a serial header stood before the message
    pub found_serialheader: bool,
    /// Bytes skipped before the serial header was found
    pub resync_offset: usize,
    /// Size of complete header including storage header
    pub headersize: usize,
    /// Size of complete payload
    pub datasize: usize,
    /// The storage header; empty where the message was read from a stream
    pub storageheader: DltStorageHeader,
    /// The standard header
    pub standardheader: DltStandardHeader,
    /// The extra fields of the standard header; a field that is not announced is zero
    pub headerextra: DltStandardHeaderExtra,
    /// The extended header; empty where the header type announces none
    pub extendedheader: DltExtendedHeader,
    /// The payload
    pub databuffer: Vec<u8>,
}

/// The mathematical value of a message: the payload is a sequence of bytes.
pub struct DltMessageView {
    pub found_serialheader: bool,
    pub resync_offset: nat,
    pub headersize: nat,
    pub datasize: nat,
    pub storageheader: DltStorageHeader,
    pub standardheader: DltStandardHeader,
    pub headerextra: DltStandardHeaderExtra,
    pub extendedheader: DltExtendedHeader,
    pub payload: Seq<u8>,
}

impl View for DltMessage {
    type V = DltMessageView;

    open spec fn view(&self) -> DltMessageView {
        DltMessageView {
            found_serialheader: self.found_serialheader,
            resync_offset: self.resync_offset as nat,
            headersize: self.headersize as nat,
            datasize: self.datasize as nat,
            storageheader: self.storageheader,
            standardheader: self.standardheader,
            headerextra: self.headerextra,
            extendedheader: self.extendedheader,
            payload: self.databuffer@,
        }
    }
}

impl DltMessageView {
    /// The bytes of the headers behind the storage header.
    pub open spec fn spec_header_bytes(self) -> Seq<u8> {
        let htyp = self.standardheader.htyp;
        self.standardheader.spec_bytes() + self.headerextra.spec_bytes(htyp) + (if spec_htyp_ueh(
            htyp,
        ) {
            self.extendedheader.spec_bytes()
        } else {
            Seq::<u8>::empty()
        })
    }

    /// The message as it travels: headers behind the storage header, then the payload.
    pub open spec fn spec_frame(self) -> Seq<u8> {
        self.spec_header_bytes() + self.payload
    }

    /// The message as it is stored: the storage header, then the frame.
    pub open spec fn spec_stored(self) -> Seq<u8> {
        self.storageheader.spec_bytes(spec_htyp_msbf(self.standardheader.htyp)) + self.spec_frame()
    }

    /// The message as it travels on a serial line: the serial header, then the frame.
    pub open spec fn spec_serial(self) -> Seq<u8> {
        dltSerialHeader@ + self.spec_frame()
    }

    /// A message can be written out when its header type carries protocol version 1 and
    /// its three sizes are those of its content: `len` counts the headers behind the storage
    /// header and the payload, `headersize` the headers with the storage header, `datasize`
    /// the payload.
    pub open spec fn encodable(self) -> bool {
        let htyp = self.standardheader.htyp;
        &&& spec_htyp_version(htyp) == 1
        &&& self.headersize == 16 + spec_header_size(htyp)
        &&& self.datasize == self.payload.len()
        &&& self.standardheader.len == spec_header_size(htyp) + self.payload.len()
    }

    /// A message is well formed when it can be written out and every field that its header
    /// type does not announce is zero.
    pub open spec fn wf(self) -> bool {
        let htyp = self.standardheader.htyp;
        &&& self.encodable()
        &&& self.headerextra.spec_canonical(htyp)
        &&& (!spec_htyp_ueh(htyp) ==> self.extendedheader == DltExtendedHeader::spec_empty())
    }

    /// Bytes that the stored form of the message takes: the storage header and the frame.
    pub open spec fn spec_stored_size(self) -> nat {
        16 + self.standardheader.len as nat
    }

    /// Bytes that reading the message from a stream consumed: what was skipped, the serial
    /// header where one was found, and the frame.
    pub open spec fn spec_stream_size(self) -> nat {
        self.resync_offset + (if self.found_serialheader {
            4nat
        } else {
            0nat
        }) + self.standardheader.len as nat
    }
}

/// The message that the frame at the start of `b` holds, with `storage` as its storage
/// header.
///
/// Four bytes are needed to tell anything. A header type without protocol version 1, or a
/// length shorter than the headers that the type announces, makes the frame malformed. A
/// buffer shorter than the length that the frame declares is incomplete.
#[verifier::opaque]
pub open spec fn spec_decode_frame(b: Seq<u8>, storage: DltStorageHeader) -> Result<
    DltMessageView,
    DltMessageError,
> {
    if b.len() < 4 {
        Err(DltMessageError::Incomplete)
    } else {
        let htyp = b[0];
        let len = spec_u16_from_be(b[2], b[3]);
        let hs = spec_header_size(htyp) as int;
        let es = spec_extra_size(htyp) as int;
        if spec_htyp_version(htyp) != 1 || len < hs {
            Err(DltMessageError::Malformed)
        } else if b.len() < len {
            Err(DltMessageError::Incomplete)
        } else {
            Ok(
                DltMessageView {
                    found_serialheader: false,
                    resync_offset: 0,
                    headersize: (16 + hs) as nat,
                    datasize: (len - hs) as nat,
                    storageheader: storage,
                    standardheader: DltStandardHeader { htyp, mcnt: b[1], len },
                    headerextra: DltStandardHeaderExtra::spec_from_bytes(htyp, b.subrange(4, 4 + es)),
                    extendedheader: if spec_htyp_ueh(htyp) {
                        DltExtendedHeader::spec_from_bytes(b.subrange(4 + es, hs))
                    } else {
                        DltExtendedHeader::spec_empty()
                    },
                    payload: b.subrange(hs, len as int),
                },
            )
        }
    }
}

/// The message that the stored form at the start of `b` holds.
///
/// Twenty bytes are needed to tell anything: the storage header and the standard header,
/// whose type says in which byte order the storage header's numbers stand. A storage header
/// that does not open with the storage pattern makes the bytes malformed.
#[verifier::opaque]
pub open spec fn spec_decode_stored(b: Seq<u8>) -> Result<DltMessageView, DltMessageError> {
    if b.len() < 20 {
        Err(DltMessageError::Incomplete)
    } else if b.subrange(0, 4) != dltStoragePattern@ {
        Err(DltMessageError::Malformed)
    } else {
        spec_decode_frame(
            b.skip(16),
            DltStorageHeader::spec_from_bytes(b.subrange(0, 16), spec_htyp_msbf(b[16])),
        )
    }
}

/// Whether the serial header stands at position `i` of `b`.
pub open spec fn spec_serial_header_at(b: Seq<u8>, i: int) -> bool {
    0 <= i && i + 4 <= b.len() && b.subrange(i, i + 4) == dltSerialHeader@
}

/// The first position at or behind `from` at which the serial header stands in `b`, or the
/// length of `b` where there is none.
pub open spec fn spec_find_serial_header(b: Seq<u8>, from: int) -> int
    decreases b.len() - from,
{
    if from < 0 || from + 4 > b.len() {
        b.len() as int
    } else if spec_serial_header_at(b, from) {
        from
    } else {
        spec_find_serial_header(b, from + 1)
    }
}

/// What reading found before the frame: the message with the serial header noted and the
/// skipped bytes counted.
pub open spec fn spec_with_serial(
    r: Result<DltMessageView, DltMessageError>,
    found: bool,
    offset: nat,
) -> Result<DltMessageView, DltMessageError> {
    match r {
        Ok(m) => Ok(DltMessageView { found_serialheader: found, resync_offset: offset, ..m }),
        Err(e) => Err(e),
    }
}

/// The message that a stream holds at the start of `b`.
///
/// Where `b` opens with the serial header, the frame behind it is read. Otherwise, with
/// `resync`, the bytes before the first serial header are skipped and counted, and the
/// frame behind that header is read; a buffer without any serial header is incomplete.
/// Without `resync` the frame is read from the start of `b`. A buffer of fewer than four
/// bytes is incomplete.
pub open spec fn spec_message_read(b: Seq<u8>, resync: bool) -> Result<
    DltMessageView,
    DltMessageError,
> {
    if b.len() < 4 {
        Err(DltMessageError::Incomplete)
    } else if spec_serial_header_at(b, 0) {
        spec_with_serial(spec_decode_frame(b.skip(4), DltStorageHeader::spec_empty()), true, 0)
    } else if !resync {
        spec_with_serial(spec_decode_frame(b, DltStorageHeader::spec_empty()), false, 0)
    } else {
        let at = spec_find_serial_header(b, 0);
        if at >= b.len() {
            Err(DltMessageError::Incomplete)
        } else {
            spec_with_serial(
                spec_decode_frame(b.skip(at + 4), DltStorageHeader::spec_empty()),
                true,
                at as nat,
            )
        }
    }
}

} // verus!
