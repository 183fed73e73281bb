use vstd::prelude::*;
use libc::c_int;
use crate::dlt_bytes::{
    i32_from_bits, i32_to_bits, lemma_i32_bits_roundtrip, lemma_u16_be_roundtrip,
    lemma_u32_bytes_roundtrip, push_u16_be, push_u32, read_u16_be, read_u32, spec_i32_bits,
    spec_u16_be, spec_u32_bytes,
};
use crate::dlt_common::{
    dltSerialHeader, dltStoragePattern, dlt_id_eq, spec_decode_frame, spec_decode_stored,
    spec_extra_size, spec_find_serial_header, spec_header_size, spec_message_read,
    spec_serial_header_at, spec_with_serial, DltExtendedHeader, DltMessage, DltMessageError,
    DltMessageView, DltStandardHeader, DltStandardHeaderExtra, DltStorageHeader,
};
use crate::dlt_protocol::{
    spec_htyp_msbf, spec_htyp_ueh, spec_htyp_version, spec_htyp_weid, spec_htyp_wsid,
    spec_htyp_wtms, DLT_IS_HTYP_MSBF, DLT_IS_HTYP_UEH, DLT_IS_HTYP_WEID, DLT_IS_HTYP_WSID,
    DLT_IS_HTYP_WTMS,
};
use crate::dlt_types::DltReturnValue;

verus! {

/// The header type byte of protocol version 1 with the given flags.
pub fn dlt_htyp(ueh: bool, msbf: bool, weid: bool, wsid: bool, wtms: bool) -> (htyp: u8)
    ensures
        spec_htyp_version(htyp) == 1,
        spec_htyp_ueh(htyp) == ueh,
        spec_htyp_msbf(htyp) == msbf,
        spec_htyp_weid(htyp) == weid,
        spec_htyp_wsid(htyp) == wsid,
        spec_htyp_wtms(htyp) == wtms,
{
    let mut htyp: u8 = 0x20;
    if ueh {
        htyp += 0x01;
    }
    if msbf {
        htyp += 0x02;
    }
    if weid {
        htyp += 0x04;
    }
    if wsid {
        htyp += 0x08;
    }
    if wtms {
        htyp += 0x10;
    }
    htyp
}

/// Bytes that the extra fields of a standard header take.
pub fn dlt_standard_header_extra_size(htyp: u8) -> (size: usize)
    ensures
        size == spec_extra_size(htyp),
        size <= 12,
{
    let mut size: usize = 0;
    if DLT_IS_HTYP_WEID(htyp as c_int) != 0 {
        size += 4;
    }
    if DLT_IS_HTYP_WSID(htyp as c_int) != 0 {
        size += 4;
    }
    if DLT_IS_HTYP_WTMS(htyp as c_int) != 0 {
        size += 4;
    }
    size
}

/// Bytes that the headers behind the storage header take.
pub fn dlt_header_size(htyp: u8) -> (size: usize)
    ensures
        size == spec_header_size(htyp),
        4 <= size <= 26,
{
    let extra = dlt_standard_header_extra_size(htyp);
    if DLT_IS_HTYP_UEH(htyp as c_int) != 0 {
        4 + extra + 10
    } else {
        4 + extra
    }
}

fn read_id(buffer: &[u8], offset: usize) -> (id: [u8; 4])
    requires
        offset + 4 <= buffer.len(),
    ensures
        id == [
            buffer@[offset as int],
            buffer@[offset + 1],
            buffer@[offset + 2],
            buffer@[offset + 3],
        ],
        id@ == buffer@.subrange(offset as int, offset + 4),
{
    let id = [buffer[offset], buffer[offset + 1], buffer[offset + 2], buffer[offset + 3]];
    assert(id@ =~= buffer@.subrange(offset as int, offset + 4));
    assert(id =~= [
        buffer@[offset as int],
        buffer@[offset + 1],
        buffer@[offset + 2],
        buffer@[offset + 3],
    ]);
    id
}

fn push_id(out: &mut Vec<u8>, id: &[u8; 4])
    ensures
        final(out)@ == old(out)@ + id@,
{
    out.push(id[0]);
    out.push(id[1]);
    out.push(id[2]);
    out.push(id[3]);
    assert(out@ =~= old(out)@ + id@);
}

fn copy_range(buffer: &[u8], from: usize, to: usize) -> (bytes: Vec<u8>)
    requires
        from <= to <= buffer.len(),
    ensures
        bytes@ == buffer@.subrange(from as int, to as int),
{
    let mut bytes: Vec<u8> = Vec::with_capacity(to - from);
    let mut i: usize = from;
    while i < to
        invariant
            from <= i <= to <= buffer@.len(),
            bytes@ == buffer@.subrange(from as int, i as int),
        decreases to - i,
    {
        bytes.push(buffer[i]);
        i += 1;
        assert(bytes@ =~= buffer@.subrange(from as int, i as int));
    }
    bytes
}

fn decode_extra(buffer: &[u8], pos: usize, htyp: u8) -> (extra: DltStandardHeaderExtra)
    requires
        pos + spec_extra_size(htyp) <= buffer.len(),
    ensures
        extra == DltStandardHeaderExtra::spec_from_bytes(
            htyp,
            buffer@.subrange(pos as int, pos + spec_extra_size(htyp)),
        ),
{
    let ghost eb = buffer@.subrange(pos as int, pos + spec_extra_size(htyp));
    let msbf = DLT_IS_HTYP_MSBF(htyp as c_int) != 0;
    let mut at = pos;
    let mut extra = DltStandardHeaderExtra::empty();
    if DLT_IS_HTYP_WEID(htyp as c_int) != 0 {
        extra.ecu = read_id(buffer, at);
        assert(extra.ecu =~= [eb[0], eb[1], eb[2], eb[3]]);
        at += 4;
    }
    if DLT_IS_HTYP_WSID(htyp as c_int) != 0 {
        extra.seid = read_u32(buffer, at, msbf);
        assert(buffer@.subrange(at as int, at + 4) =~= eb.subrange(at - pos, at - pos + 4));
        at += 4;
    }
    if DLT_IS_HTYP_WTMS(htyp as c_int) != 0 {
        extra.tmsp = read_u32(buffer, at, msbf);
        assert(buffer@.subrange(at as int, at + 4) =~= eb.subrange(at - pos, at - pos + 4));
    }
    extra
}

fn decode_extended(buffer: &[u8], pos: usize) -> (header: DltExtendedHeader)
    requires
        pos + 10 <= buffer.len(),
    ensures
        header == DltExtendedHeader::spec_from_bytes(buffer@.subrange(pos as int, pos + 10)),
{
    let ghost xb = buffer@.subrange(pos as int, pos + 10);
    let apid = read_id(buffer, pos + 2);
    let ctid = read_id(buffer, pos + 6);
    assert(apid =~= [xb[2], xb[3], xb[4], xb[5]]);
    assert(ctid =~= [xb[6], xb[7], xb[8], xb[9]]);
    DltExtendedHeader { msin: buffer[pos], noar: buffer[pos + 1], apid, ctid }
}

fn decode_frame(buffer: &[u8], start: usize, storage: DltStorageHeader) -> (r: Result<
    DltMessage,
    DltMessageError,
>)
    requires
        start <= buffer@.len(),
    ensures
        match spec_decode_frame(buffer@.skip(start as int), storage) {
            Ok(v) => r matches Ok(m) && m@ == v && start + v.standardheader.len <= buffer@.len(),
            Err(e) => r matches Err(f) && f == e,
        },
{
    reveal(spec_decode_frame);
    let ghost b = buffer@.skip(start as int);
    let avail = buffer.len() - start;
    if avail < 4 {
        return Err(DltMessageError::Incomplete);
    }
    let htyp = buffer[start];
    let mcnt = buffer[start + 1];
    let len = read_u16_be(buffer, start + 2);
    let hs = dlt_header_size(htyp);
    let es = dlt_standard_header_extra_size(htyp);
    assert(b[0] == htyp && b[1] == mcnt && b[2] == buffer@[start + 2] && b[3] == buffer@[start + 3]);
    if htyp / 32 != 1 || (len as usize) < hs {
        return Err(DltMessageError::Malformed);
    }
    if avail < len as usize {
        return Err(DltMessageError::Incomplete);
    }
    let headerextra = decode_extra(buffer, start + 4, htyp);
    assert(buffer@.subrange(start + 4, start + 4 + es) =~= b.subrange(4, 4 + es));
    let extendedheader = if DLT_IS_HTYP_UEH(htyp as c_int) != 0 {
        assert(buffer@.subrange(start + 4 + es, start + 4 + es + 10) =~= b.subrange(
            4 + es,
            hs as int,
        ));
        decode_extended(buffer, start + 4 + es)
    } else {
        DltExtendedHeader::empty()
    };
    let databuffer = copy_range(buffer, start + hs, start + len as usize);
    assert(databuffer@ =~= b.subrange(hs as int, len as int));
    Ok(
        DltMessage {
            found_serialheader: false,
            resync_offset: 0,
            headersize: 16 + hs,
            datasize: len as usize - hs,
            storageheader: storage,
            standardheader: DltStandardHeader { htyp, mcnt, len },
            headerextra,
            extendedheader,
            databuffer,
        },
    )
}

fn serial_header_at(buffer: &[u8], i: usize) -> (found: bool)
    requires
        i + 4 <= buffer.len(),
    ensures
        found == spec_serial_header_at(buffer@, i as int),
{
    let found = buffer[i] == dltSerialHeader[0] && buffer[i + 1] == dltSerialHeader[1] && buffer[i
        + 2] == dltSerialHeader[2] && buffer[i + 3] == dltSerialHeader[3];
    proof {
        let s = buffer@.subrange(i as int, i + 4);
        if found {
            assert(s =~= dltSerialHeader@);
        } else {
            assert(s[0] == buffer@[i as int] && s[1] == buffer@[i + 1] && s[2] == buffer@[i + 2]
                && s[3] == buffer@[i + 3]);
        }
    }
    found
}

/// Finds the first serial header in a buffer: its position, or the buffer's length where
/// there is none.
pub fn dlt_find_serial_header(buffer: &[u8]) -> (at: usize)
    ensures
        at == spec_find_serial_header(buffer@, 0),
        at + 4 <= buffer@.len() || at == buffer@.len(),
        at < buffer@.len() ==> spec_serial_header_at(buffer@, at as int),
        forall|j: int| 0 <= j < at ==> !spec_serial_header_at(buffer@, j),
{
    if buffer.len() < 4 {
        return buffer.len();
    }
    let mut i: usize = 0;
    while i <= buffer.len() - 4
        invariant
            4 <= buffer@.len(),
            i <= buffer@.len() - 3,
            forall|j: int| 0 <= j < i ==> !spec_serial_header_at(buffer@, j),
            spec_find_serial_header(buffer@, 0) == spec_find_serial_header(buffer@, i as int),
        decreases buffer@.len() - i,
    {
        if serial_header_at(buffer, i) {
            return i;
        }
        i += 1;
    }
    buffer.len()
}

/// Reads one message from a stream buffer, which holds no storage header.
///
/// Returns the message with the number of bytes of the buffer that it took: those skipped,
/// the serial header where one was found, and the frame.
pub fn dlt_message_read(buffer: &[u8], resync: bool) -> (r: Result<
    (DltMessage, usize),
    DltMessageError,
>)
    ensures
        match spec_message_read(buffer@, resync) {
            Ok(v) => r matches Ok(p) && p.0@ == v && p.1 == v.spec_stream_size() && p.1
                <= buffer@.len(),
            Err(e) => r matches Err(f) && f == e,
        },
{
    if buffer.len() < 4 {
        return Err(DltMessageError::Incomplete);
    }
    let mut start: usize = 0;
    let mut found = false;
    let mut offset: usize = 0;
    if serial_header_at(buffer, 0) {
        found = true;
        start = 4;
    } else if resync {
        let at = dlt_find_serial_header(buffer);
        if at >= buffer.len() {
            return Err(DltMessageError::Incomplete);
        }
        found = true;
        offset = at;
        start = at + 4;
    }
    assert(buffer@.skip(0) =~= buffer@);
    match decode_frame(buffer, start, DltStorageHeader::empty()) {
        Ok(m) => {
            let taken = start + m.standardheader.len as usize;
            Ok((DltMessage { found_serialheader: found, resync_offset: offset, ..m }, taken))
        },
        Err(e) => Err(e),
    }
}

/// Reads one message in its stored form, which opens with a storage header.
///
/// Returns the message with the number of bytes of the buffer that it took: the storage
/// header and the frame.
pub fn dlt_message_read_stored(buffer: &[u8]) -> (r: Result<(DltMessage, usize), DltMessageError>)
    ensures
        match spec_decode_stored(buffer@) {
            Ok(v) => r matches Ok(p) && p.0@ == v && p.1 == 16 + v.standardheader.len && p.1
                <= buffer@.len(),
            Err(e) => r matches Err(f) && f == e,
        },
{
    reveal(spec_decode_stored);
    if buffer.len() < 20 {
        return Err(DltMessageError::Incomplete);
    }
    let pattern = read_id(buffer, 0);
    if !dlt_id_eq(&pattern, &dltStoragePattern) {
        return Err(DltMessageError::Malformed);
    }
    let msbf = DLT_IS_HTYP_MSBF(buffer[16] as c_int) != 0;
    let ghost sb = buffer@.subrange(0, 16);
    let seconds = read_u32(buffer, 4, msbf);
    let bits = read_u32(buffer, 8, msbf);
    let ecu = read_id(buffer, 12);
    assert(buffer@.subrange(4, 8) =~= sb.subrange(4, 8));
    assert(buffer@.subrange(8, 12) =~= sb.subrange(8, 12));
    assert(pattern =~= [sb[0], sb[1], sb[2], sb[3]]);
    assert(ecu =~= [sb[12], sb[13], sb[14], sb[15]]);
    let storage = DltStorageHeader { pattern, seconds, microseconds: i32_from_bits(bits), ecu };
    assert(storage == DltStorageHeader::spec_from_bytes(sb, msbf));
    match decode_frame(buffer, 16, storage) {
        Ok(m) => {
            let taken = 16 + m.standardheader.len as usize;
            Ok((m, taken))
        },
        Err(e) => Err(e),
    }
}

impl DltMessage {
    /// An empty message of protocol version 1: no optional header, no payload.
    pub fn new() -> (msg: DltMessage)
        ensures
            msg@.wf(),
            msg@.payload.len() == 0,
            msg.standardheader.htyp == 0x20,
            msg.standardheader.mcnt == 0,
            msg.storageheader == DltStorageHeader::spec_empty(),
            !msg.found_serialheader,
            msg.resync_offset == 0,
    {
        DltMessage {
            found_serialheader: false,
            resync_offset: 0,
            headersize: 20,
            datasize: 0,
            storageheader: DltStorageHeader::empty(),
            standardheader: DltStandardHeader { htyp: 0x20, mcnt: 0, len: 4 },
            headerextra: DltStandardHeaderExtra::empty(),
            extendedheader: DltExtendedHeader::empty(),
            databuffer: Vec::new(),
        }
    }

    /// Puts a message together from its fields and sets its sizes.
    ///
    /// A field that the header type does not announce is dropped: it is zero in the message.
    /// Fails with `DLT_RETURN_WRONG_PARAMETER` where the header type does not carry
    /// protocol version 1, and with `DLT_RETURN_USER_BUFFER_FULL` where headers and payload
    /// together take more bytes than the 16-bit length can count.
    pub fn compose(
        storageheader: DltStorageHeader,
        htyp: u8,
        mcnt: u8,
        headerextra: DltStandardHeaderExtra,
        extendedheader: DltExtendedHeader,
        payload: Vec<u8>,
    ) -> (r: Result<DltMessage, DltReturnValue>)
        ensures
            spec_htyp_version(htyp) != 1 ==> (r matches Err(e) && e
                == DltReturnValue::DLT_RETURN_WRONG_PARAMETER),
            spec_htyp_version(htyp) == 1 && spec_header_size(htyp) + payload@.len() > 65535
                ==> (r matches Err(e) && e == DltReturnValue::DLT_RETURN_USER_BUFFER_FULL),
            spec_htyp_version(htyp) == 1 && spec_header_size(htyp) + payload@.len() <= 65535
                ==> (r matches Ok(m) && {
                &&& m@.wf()
                &&& !m.found_serialheader
                &&& m.resync_offset == 0
                &&& m.storageheader == storageheader
                &&& m.standardheader.htyp == htyp
                &&& m.standardheader.mcnt == mcnt
                &&& m@.payload == payload@
                &&& (spec_htyp_weid(htyp) ==> m.headerextra.ecu == headerextra.ecu)
                &&& (spec_htyp_wsid(htyp) ==> m.headerextra.seid == headerextra.seid)
                &&& (spec_htyp_wtms(htyp) ==> m.headerextra.tmsp == headerextra.tmsp)
                &&& (spec_htyp_ueh(htyp) ==> m.extendedheader == extendedheader)
            }),
    {
        if htyp / 32 != 1 {
            return Err(DltReturnValue::DLT_RETURN_WRONG_PARAMETER);
        }
        let hs = dlt_header_size(htyp);
        if payload.len() > 65535 - hs {
            return Err(DltReturnValue::DLT_RETURN_USER_BUFFER_FULL);
        }
        let mut extra = DltStandardHeaderExtra::empty();
        if DLT_IS_HTYP_WEID(htyp as c_int) != 0 {
            extra.ecu = headerextra.ecu;
        }
        if DLT_IS_HTYP_WSID(htyp as c_int) != 0 {
            extra.seid = headerextra.seid;
        }
        if DLT_IS_HTYP_WTMS(htyp as c_int) != 0 {
            extra.tmsp = headerextra.tmsp;
        }
        let extended = if DLT_IS_HTYP_UEH(htyp as c_int) != 0 {
            extendedheader
        } else {
            DltExtendedHeader::empty()
        };
        let len = (hs + payload.len()) as u16;
        Ok(
            DltMessage {
                found_serialheader: false,
                resync_offset: 0,
                headersize: 16 + hs,
                datasize: payload.len(),
                storageheader,
                standardheader: DltStandardHeader { htyp, mcnt, len },
                headerextra: extra,
                extendedheader: extended,
                databuffer: payload,
            },
        )
    }

    /// Whether the message can be written out: protocol version 1, and sizes that are those
    /// of its content.
    pub fn is_encodable(&self) -> (ok: bool)
        ensures
            ok == self@.encodable(),
    {
        let htyp = self.standardheader.htyp;
        let hs = dlt_header_size(htyp);
        htyp / 32 == 1 && self.headersize == 16 + hs && self.datasize == self.databuffer.len()
            && self.databuffer.len() <= 65535 && self.standardheader.len as usize == hs
            + self.databuffer.len()
    }

    fn append_extra(&self, out: &mut Vec<u8>)
        ensures
            final(out)@ == old(out)@ + self.headerextra.spec_bytes(self.standardheader.htyp),
    {
        let htyp = self.standardheader.htyp;
        let msbf = DLT_IS_HTYP_MSBF(htyp as c_int) != 0;
        if DLT_IS_HTYP_WEID(htyp as c_int) != 0 {
            push_id(out, &self.headerextra.ecu);
        }
        if DLT_IS_HTYP_WSID(htyp as c_int) != 0 {
            push_u32(out, self.headerextra.seid, msbf);
        }
        if DLT_IS_HTYP_WTMS(htyp as c_int) != 0 {
            push_u32(out, self.headerextra.tmsp, msbf);
        }
        assert(out@ =~= old(out)@ + self.headerextra.spec_bytes(htyp));
    }

    fn append_extended(&self, out: &mut Vec<u8>)
        ensures
            final(out)@ == old(out)@ + self.extendedheader.spec_bytes(),
    {
        out.push(self.extendedheader.msin);
        out.push(self.extendedheader.noar);
        push_id(out, &self.extendedheader.apid);
        push_id(out, &self.extendedheader.ctid);
        assert(out@ =~= old(out)@ + self.extendedheader.spec_bytes());
    }

    fn append_frame(&self, out: &mut Vec<u8>)
        ensures
            final(out)@ == old(out)@ + self@.spec_frame(),
    {
        let htyp = self.standardheader.htyp;
        let ghost base = out@;
        out.push(htyp);
        out.push(self.standardheader.mcnt);
        push_u16_be(out, self.standardheader.len);
        assert(out@ =~= base + self.standardheader.spec_bytes());
        self.append_extra(out);
        if DLT_IS_HTYP_UEH(htyp as c_int) != 0 {
            self.append_extended(out);
        }
        assert(out@ =~= base + self@.spec_header_bytes());
        out.extend_from_slice(self.databuffer.as_slice());
        assert(out@ =~= base + self@.spec_frame());
    }

    /// Writes the message as it travels: the headers behind the storage header, then the
    /// payload. Fails with `DLT_RETURN_WRONG_PARAMETER` where the message cannot be written
    /// out.
    pub fn encode_frame(&self) -> (r: Result<Vec<u8>, DltReturnValue>)
        ensures
            self@.encodable() ==> (r matches Ok(bytes) && bytes@ == self@.spec_frame()
                && bytes@.len() == self.standardheader.len),
            !self@.encodable() ==> (r matches Err(e) && e
                == DltReturnValue::DLT_RETURN_WRONG_PARAMETER),
    {
        if !self.is_encodable() {
            return Err(DltReturnValue::DLT_RETURN_WRONG_PARAMETER);
        }
        let mut out: Vec<u8> = Vec::new();
        self.append_frame(&mut out);
        proof {
            lemma_frame_len(self@);
            assert(out@ =~= self@.spec_frame());
        }
        Ok(out)
    }

    /// Writes the message as it travels on a serial line: the serial header, then the
    /// frame. Fails with `DLT_RETURN_WRONG_PARAMETER` where the message cannot be written
    /// out.
    pub fn encode_serial(&self) -> (r: Result<Vec<u8>, DltReturnValue>)
        ensures
            self@.encodable() ==> (r matches Ok(bytes) && bytes@ == self@.spec_serial()
                && bytes@.len() == 4 + self.standardheader.len),
            !self@.encodable() ==> (r matches Err(e) && e
                == DltReturnValue::DLT_RETURN_WRONG_PARAMETER),
    {
        if !self.is_encodable() {
            return Err(DltReturnValue::DLT_RETURN_WRONG_PARAMETER);
        }
        let mut out: Vec<u8> = Vec::new();
        push_id(&mut out, &dltSerialHeader);
        self.append_frame(&mut out);
        proof {
            lemma_frame_len(self@);
            assert(out@ =~= self@.spec_serial());
        }
        Ok(out)
    }

    /// Writes the message as it is stored: the storage header, then the frame. Fails with
    /// `DLT_RETURN_WRONG_PARAMETER` where the message cannot be written out.
    pub fn encode_stored(&self) -> (r: Result<Vec<u8>, DltReturnValue>)
        ensures
            self@.encodable() ==> (r matches Ok(bytes) && bytes@ == self@.spec_stored()
                && bytes@.len() == 16 + self.standardheader.len),
            !self@.encodable() ==> (r matches Err(e) && e
                == DltReturnValue::DLT_RETURN_WRONG_PARAMETER),
    {
        if !self.is_encodable() {
            return Err(DltReturnValue::DLT_RETURN_WRONG_PARAMETER);
        }
        let msbf = DLT_IS_HTYP_MSBF(self.standardheader.htyp as c_int) != 0;
        let mut out: Vec<u8> = Vec::new();
        push_id(&mut out, &self.storageheader.pattern);
        push_u32(&mut out, self.storageheader.seconds, msbf);
        push_u32(&mut out, i32_to_bits(self.storageheader.microseconds), msbf);
        push_id(&mut out, &self.storageheader.ecu);
        assert(out@ =~= self.storageheader.spec_bytes(msbf));
        self.append_frame(&mut out);
        proof {
            lemma_frame_len(self@);
            assert(out@ =~= self@.spec_stored());
        }
        Ok(out)
    }
}

/// The frame of a message that can be written out is as long as its length field says, and
/// its headers as long as its header type says.
pub proof fn lemma_frame_len(m: DltMessageView)
    requires
        m.encodable(),
    ensures
        m.spec_header_bytes().len() == spec_header_size(m.standardheader.htyp),
        m.spec_frame().len() == m.standardheader.len,
        m.spec_stored().len() == 16 + m.standardheader.len,
        m.spec_serial().len() == 4 + m.standardheader.len,
{
}

/// The extra fields read back from their bytes are the fields, where every field that the
/// header type does not announce is zero.
pub proof fn lemma_extra_roundtrip(extra: DltStandardHeaderExtra, htyp: u8)
    requires
        extra.spec_canonical(htyp),
    ensures
        extra.spec_bytes(htyp).len() == spec_extra_size(htyp),
        DltStandardHeaderExtra::spec_from_bytes(htyp, extra.spec_bytes(htyp)) == extra,
{
    let b = extra.spec_bytes(htyp);
    let msbf = spec_htyp_msbf(htyp);
    let d = DltStandardHeaderExtra::spec_from_bytes(htyp, b);
    lemma_u32_bytes_roundtrip(extra.seid, msbf);
    lemma_u32_bytes_roundtrip(extra.tmsp, msbf);
    let o1: int = if spec_htyp_weid(htyp) {
        4
    } else {
        0
    };
    let o2: int = if spec_htyp_wsid(htyp) {
        o1 + 4
    } else {
        o1
    };
    if spec_htyp_weid(htyp) {
        assert(d.ecu =~= extra.ecu);
    }
    if spec_htyp_wsid(htyp) {
        assert(b.subrange(o1, o1 + 4) =~= spec_u32_bytes(extra.seid, msbf));
    }
    if spec_htyp_wtms(htyp) {
        assert(b.subrange(o2, o2 + 4) =~= spec_u32_bytes(extra.tmsp, msbf));
    }
}

/// An extended header read back from its bytes is the header.
pub proof fn lemma_extended_roundtrip(header: DltExtendedHeader)
    ensures
        header.spec_bytes().len() == 10,
        DltExtendedHeader::spec_from_bytes(header.spec_bytes()) == header,
{
    let d = DltExtendedHeader::spec_from_bytes(header.spec_bytes());
    assert(d.apid =~= header.apid);
    assert(d.ctid =~= header.ctid);
}

/// A storage header read back from its bytes is the header.
pub proof fn lemma_storage_roundtrip(header: DltStorageHeader, msbf: bool)
    ensures
        header.spec_bytes(msbf).len() == 16,
        DltStorageHeader::spec_from_bytes(header.spec_bytes(msbf), msbf) == header,
{
    let b = header.spec_bytes(msbf);
    let d = DltStorageHeader::spec_from_bytes(b, msbf);
    lemma_u32_bytes_roundtrip(header.seconds, msbf);
    lemma_u32_bytes_roundtrip(spec_i32_bits(header.microseconds), msbf);
    lemma_i32_bits_roundtrip(header.microseconds, 0);
    assert(b.subrange(4, 8) =~= spec_u32_bytes(header.seconds, msbf));
    assert(b.subrange(8, 12) =~= spec_u32_bytes(spec_i32_bits(header.microseconds), msbf));
    assert(d.pattern =~= header.pattern);
    assert(d.ecu =~= header.ecu);
}

/// Round trip of a frame: reading the written frame of a well-formed message, whatever
/// follows it in the buffer, gives the message back, and the frame is as long as the
/// message's length field says.
pub proof fn lemma_frame_roundtrip(m: DltMessageView, rest: Seq<u8>)
    requires
        m.wf(),
        !m.found_serialheader,
        m.resync_offset == 0,
    ensures
        m.spec_frame().len() == m.standardheader.len,
        spec_decode_frame(m.spec_frame() + rest, m.storageheader) == Ok::<
            DltMessageView,
            DltMessageError,
        >(m),
{
    reveal(spec_decode_frame);
    let htyp = m.standardheader.htyp;
    let b = m.spec_frame() + rest;
    let hs = spec_header_size(htyp) as int;
    let es = spec_extra_size(htyp) as int;
    let len = m.standardheader.len;
    lemma_frame_len(m);
    lemma_u16_be_roundtrip(len);
    lemma_extra_roundtrip(m.headerextra, htyp);
    lemma_extended_roundtrip(m.extendedheader);
    assert(b[0] == htyp);
    assert(b[1] == m.standardheader.mcnt);
    assert(b[2] == spec_u16_be(len)[0]);
    assert(b[3] == spec_u16_be(len)[1]);
    assert(b.subrange(4, 4 + es) =~= m.headerextra.spec_bytes(htyp));
    if spec_htyp_ueh(htyp) {
        assert(b.subrange(4 + es, hs) =~= m.extendedheader.spec_bytes());
    }
    assert(b.subrange(hs, len as int) =~= m.payload);
    let d = spec_decode_frame(b, m.storageheader);
    assert(d is Ok);
    assert(d->Ok_0.standardheader == m.standardheader);
    assert(d->Ok_0 == m);
}

/// Round trip of the stored form: reading the written stored form of a well-formed
/// message whose storage header opens with the storage pattern gives the message back, and
/// what follows the storage header is as long as the message's length field says.
pub proof fn lemma_stored_roundtrip(m: DltMessageView, rest: Seq<u8>)
    requires
        m.wf(),
        !m.found_serialheader,
        m.resync_offset == 0,
        m.storageheader.pattern@ == dltStoragePattern@,
    ensures
        m.spec_stored().len() - 16 == m.standardheader.len,
        spec_decode_stored(m.spec_stored() + rest) == Ok::<DltMessageView, DltMessageError>(m),
{
    reveal(spec_decode_stored);
    let htyp = m.standardheader.htyp;
    let msbf = spec_htyp_msbf(htyp);
    let b = m.spec_stored() + rest;
    lemma_frame_len(m);
    lemma_storage_roundtrip(m.storageheader, msbf);
    lemma_frame_roundtrip(m, rest);
    assert(b.subrange(0, 16) =~= m.storageheader.spec_bytes(msbf));
    assert(b.subrange(0, 4) =~= m.storageheader.pattern@);
    assert(b.skip(16) =~= m.spec_frame() + rest);
    assert(b[16] == htyp);
}

/// The frame of a message that can be written out never opens with the serial header.
pub proof fn lemma_frame_is_no_serial_header(m: DltMessageView, rest: Seq<u8>)
    requires
        m.encodable(),
    ensures
        !spec_serial_header_at(m.spec_frame() + rest, 0),
{
    let b = m.spec_frame() + rest;
    lemma_frame_len(m);
    assert(b[0] == m.standardheader.htyp);
    if b.len() >= 4 {
        assert(b.subrange(0, 4)[0] == b[0]);
        assert(dltSerialHeader@[0] == 0x44);
    }
}

/// Round trip of a stream without serial headers: reading the written frame of a
/// well-formed message without resynchronizing gives the message back.
pub proof fn lemma_stream_roundtrip(m: DltMessageView, rest: Seq<u8>)
    requires
        m.wf(),
        !m.found_serialheader,
        m.resync_offset == 0,
        m.storageheader == DltStorageHeader::spec_empty(),
    ensures
        spec_message_read(m.spec_frame() + rest, false) == Ok::<DltMessageView, DltMessageError>(m),
        m.spec_stream_size() == m.spec_frame().len(),
{
    lemma_frame_len(m);
    lemma_frame_roundtrip(m, rest);
    lemma_frame_is_no_serial_header(m, rest);
}

/// Resynchronization: where bytes that hold no serial header stand before the serial form
/// of a well-formed message, reading with resynchronization skips exactly those bytes,
/// reports their number as the resync offset, and gives the message back. A serial header
/// counts as held by the bytes in front where it starts among them, even if it ends behind
/// them.
pub proof fn lemma_resync(garbage: Seq<u8>, m: DltMessageView, rest: Seq<u8>)
    requires
        m.wf(),
        m.found_serialheader,
        m.resync_offset == garbage.len(),
        m.storageheader == DltStorageHeader::spec_empty(),
        forall|i: int|
            0 <= i < garbage.len() ==> !spec_serial_header_at(garbage + m.spec_serial() + rest, i),
    ensures
        spec_message_read(garbage + m.spec_serial() + rest, true) == Ok::<
            DltMessageView,
            DltMessageError,
        >(m),
        m.spec_stream_size() == garbage.len() + 4 + m.spec_frame().len(),
{
    let b = garbage + m.spec_serial() + rest;
    let n = garbage.len() as int;
    let plain = DltMessageView { found_serialheader: false, resync_offset: 0, ..m };
    lemma_frame_len(m);
    lemma_frame_roundtrip(plain, rest);
    assert(b.subrange(n, n + 4) =~= dltSerialHeader@);
    assert(b.skip(n + 4) =~= plain.spec_frame() + rest);
    lemma_resync_at(b, n);
}

/// Reading with resynchronization a buffer whose first serial header stands at `at` reads
/// the frame behind that header and reports `at` as the resync offset.
pub proof fn lemma_resync_at(b: Seq<u8>, at: int)
    requires
        spec_serial_header_at(b, at),
        forall|i: int| 0 <= i < at ==> !spec_serial_header_at(b, i),
    ensures
        spec_message_read(b, true) == spec_with_serial(
            spec_decode_frame(b.skip(at + 4), DltStorageHeader::spec_empty()),
            true,
            at as nat,
        ),
{
    lemma_find_serial_header(b, 0, at);
}

/// The search for the serial header from `from` finds the first position at which it
/// stands.
pub proof fn lemma_find_serial_header(b: Seq<u8>, from: int, at: int)
    requires
        0 <= from <= at,
        spec_serial_header_at(b, at),
        forall|i: int| from <= i < at ==> !spec_serial_header_at(b, i),
    ensures
        spec_find_serial_header(b, from) == at,
    decreases at - from,
{
    if from < at {
        lemma_find_serial_header(b, from + 1, at);
    }
}

/// What reading a frame gives is a well-formed message that lies within the buffer: it has
/// the storage header handed in, no serial header noted, and a frame of at least four bytes.
pub proof fn lemma_decode_frame_wf(b: Seq<u8>, storage: DltStorageHeader)
    ensures
        spec_decode_frame(b, storage) matches Ok(v) ==> {
            &&& v.wf()
            &&& !v.found_serialheader
            &&& v.resync_offset == 0
            &&& v.storageheader == storage
            &&& 4 <= v.standardheader.len <= b.len()
            &&& v.payload == b.subrange(
                spec_header_size(v.standardheader.htyp) as int,
                v.standardheader.len as int,
            )
        },
{
    reveal(spec_decode_frame);
}

/// What reading a stored message gives is a well-formed message whose stored form lies
/// within the buffer and whose storage header opens with the storage pattern.
pub proof fn lemma_decode_stored_wf(b: Seq<u8>)
    ensures
        spec_decode_stored(b) matches Ok(v) ==> {
            &&& v.wf()
            &&& !v.found_serialheader
            &&& v.resync_offset == 0
            &&& v.storageheader.pattern@ == dltStoragePattern@
            &&& 20 <= v.spec_stored_size() <= b.len()
        },
{
    reveal(spec_decode_stored);
    if b.len() >= 20 {
        lemma_decode_frame_wf(
            b.skip(16),
            DltStorageHeader::spec_from_bytes(b.subrange(0, 16), spec_htyp_msbf(b[16])),
        );
        if spec_decode_stored(b) is Ok {
            let v = spec_decode_stored(b)->Ok_0;
            assert(v.storageheader.pattern@ =~= b.subrange(0, 4));
        }
    }
}

} // verus!
