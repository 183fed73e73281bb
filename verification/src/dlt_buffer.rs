use vstd::prelude::*;
use crate::dlt_bytes::{read_u32, spec_u32_from_le, spec_u32_le, lemma_u32_bytes_roundtrip};
use crate::dlt_types::DltReturnValue;
use vstd::arithmetic::div_mod::{lemma_fundamental_div_mod, lemma_mod_bound};

verus! {

/// Bytes of the head of a ring buffer's region: the counters write, read and count.
pub const DLT_BUFFER_HEAD_SIZE: usize = 12;

/// Bytes of the head that stands before each entry of a ring buffer.
pub const DLT_BUFFER_BLOCK_HEAD_SIZE: usize = 12;

/// The marker that opens the head of each entry: the characters "SHM" and a zero byte.
pub const DLT_SHM_HEAD: [u8; 4] = [0x53, 0x48, 0x4d, 0x00];

/// The status byte of an entry that is completely written.
pub const DLT_BUFFER_BLOCK_READY: u8 = 2;

/// The position `off` bytes behind `pos` in a ring of `size` bytes.
pub open spec fn spec_ring_index(pos: int, off: int, size: int) -> int {
    if pos + off >= size {
        pos + off - size
    } else {
        pos + off
    }
}

/// The `n` bytes that stand in the ring `mem` from `pos` on, around its end where they
/// reach it.
pub open spec fn spec_ring_bytes(mem: Seq<u8>, pos: int, n: int) -> Seq<u8> {
    Seq::new(n as nat, |i: int| mem[spec_ring_index(pos, i, mem.len() as int)])
}

/// The ring `mem` with `data` stored from `pos` on, around its end where it reaches it.
pub open spec fn spec_ring_store(mem: Seq<u8>, pos: int, data: Seq<u8>) -> Seq<u8> {
    Seq::new(
        mem.len(),
        |j: int|
            {
                let off = if j >= pos {
                    j - pos
                } else {
                    j + mem.len() - pos
                };
                if off < data.len() {
                    data[off]
                } else {
                    mem[j]
                }
            },
    )
}

/// The head of an entry of `n` bytes: the marker, the ready status, three zero bytes, and
/// `n` with its least significant byte first.
pub open spec fn spec_block_head(n: u32) -> Seq<u8> {
    seq![0x53u8, 0x48u8, 0x4du8, 0x00u8, 2u8, 0u8, 0u8, 0u8] + spec_u32_le(n)
}

/// An entry as it stands in the ring: its head, then its bytes.
pub open spec fn spec_block(data: Seq<u8>) -> Seq<u8> {
    spec_block_head(data.len() as u32) + data
}

/// Whether `l` opens with the head of a ready entry.
pub open spec fn spec_block_head_valid(l: Seq<u8>) -> bool {
    &&& l.len() >= 12
    &&& l[0] == 0x53
    &&& l[1] == 0x48
    &&& l[2] == 0x4d
    &&& l[3] == 0x00
    &&& l[4] == 2
}

/// The length that the entry head at the start of `l` declares.
pub open spec fn spec_block_len(l: Seq<u8>) -> int
    recommends
        l.len() >= 12,
{
    spec_u32_from_le(l.subrange(8, 12)) as int
}

/// The entries that the bytes `l` hold one behind the other, or `None` where `l` is not a
/// sequence of whole ready entries.
pub open spec fn spec_parse_blocks(l: Seq<u8>) -> Option<Seq<Seq<u8>>>
    decreases l.len(),
{
    if l.len() == 0 {
        Some(Seq::<Seq<u8>>::empty())
    } else if !spec_block_head_valid(l) || l.len() < 12 + spec_block_len(l) {
        None
    } else {
        let n = spec_block_len(l);
        match spec_parse_blocks(l.skip(12 + n)) {
            Some(rest) => Some(seq![l.subrange(12, 12 + n)] + rest),
            None => None,
        }
    }
}

/// What stands first in a ring buffer.
pub enum DltBufferFront {
    /// The region is not attached or its counters are out of range.
    Unusable,
    /// The counters say that the buffer holds nothing.
    Empty,
    /// No whole ready entry stands at the read position.
    Corrupt,
    /// An entry stands at the read position.
    Entry(Seq<u8>),
}

/// A ring buffer over a region of bytes.
///
/// The region opens with three counters of four bytes each, least significant byte first:
/// the write position, the read position and the number of entries. The data area follows;
/// positions count from its start. Each entry stands in the data area as a head and its
/// bytes, and may run around the end of the area.
#[derive(Debug, Clone, PartialEq, Eq)]
pub struct DltBuffer {
    /// The region: counters and data area
    pub shm: Vec<u8>,
    /// Size of data area
    pub size: usize,
    /// Minimum size of buffer
    pub min_size: u32,
    /// Maximum size of buffer
    pub max_size: u32,
    /// Step size of buffer
    pub step_size: u32,
}

impl DltBuffer {
    /// The region is attached when it is as long as the counters and the data area, and the
    /// data area is not empty and no longer than a signed 32-bit number can count.
    pub open spec fn spec_attached(&self) -> bool {
        &&& self.shm@.len() == 12 + self.size
        &&& 0 < self.size <= 0x7fff_ffff
    }

    /// The write position that the region holds.
    pub open spec fn spec_write(&self) -> int {
        spec_u32_from_le(self.shm@.subrange(0, 4)) as int
    }

    /// The read position that the region holds.
    pub open spec fn spec_read(&self) -> int {
        spec_u32_from_le(self.shm@.subrange(4, 8)) as int
    }

    /// The number of entries that the region holds.
    pub open spec fn spec_count(&self) -> int {
        spec_u32_from_le(self.shm@.subrange(8, 12)) as int
    }

    /// The data area.
    pub open spec fn spec_mem(&self) -> Seq<u8> {
        self.shm@.skip(12)
    }

    /// The counters are in range when both positions lie in the data area, the count is
    /// below the largest signed 32-bit number, and an empty buffer has its positions equal.
    pub open spec fn spec_counters_ok(&self) -> bool {
        &&& self.spec_write() < self.size
        &&& self.spec_read() < self.size
        &&& self.spec_count() < 0x7fff_ffff
        &&& (self.spec_count() == 0 ==> self.spec_write() == self.spec_read())
    }

    /// Bytes of the data area in use: none where the count is zero, else those from the
    /// read position up to the write position, the whole area where the two are equal.
    pub open spec fn spec_used(&self) -> int {
        if self.spec_count() == 0 {
            0
        } else if self.spec_write() > self.spec_read() {
            self.spec_write() - self.spec_read()
        } else {
            self.size - self.spec_read() + self.spec_write()
        }
    }

    /// The bytes in use, in the order in which they were written.
    pub open spec fn spec_content(&self) -> Seq<u8> {
        spec_ring_bytes(self.spec_mem(), self.spec_read(), self.spec_used())
    }

    /// The queue that the buffer holds, oldest entry first, or `None` where the region is
    /// not attached, its counters are out of range, or the bytes in use are not exactly as
    /// many whole entries as the count says.
    pub open spec fn spec_entries(&self) -> Option<Seq<Seq<u8>>> {
        if !self.spec_attached() || !self.spec_counters_ok() {
            None
        } else {
            match spec_parse_blocks(self.spec_content()) {
                Some(q) => if q.len() == self.spec_count() {
                    Some(q)
                } else {
                    None
                },
                None => None,
            }
        }
    }

    /// What stands first in the buffer, told from the counters and the entry head at the
    /// read position alone.
    pub open spec fn spec_front(&self) -> DltBufferFront {
        let l = self.spec_content();
        if !self.spec_attached() || !self.spec_counters_ok() {
            DltBufferFront::Unusable
        } else if self.spec_count() == 0 {
            DltBufferFront::Empty
        } else if !spec_block_head_valid(l) || l.len() < 12 + spec_block_len(l) {
            DltBufferFront::Corrupt
        } else {
            DltBufferFront::Entry(l.subrange(12, 12 + spec_block_len(l)))
        }
    }

    /// The buffer with other counters: same sizes, same data area.
    pub open spec fn spec_same_but_counters(&self, other: &DltBuffer) -> bool {
        &&& self.size == other.size
        &&& self.min_size == other.min_size
        &&& self.max_size == other.max_size
        &&& self.step_size == other.step_size
        &&& self.shm@.len() == other.shm@.len()
        &&& self.spec_mem() == other.spec_mem()
    }
}

fn store_u32_le(shm: &mut Vec<u8>, offset: usize, x: u32)
    requires
        offset + 4 <= old(shm).len(),
    ensures
        final(shm)@.len() == old(shm)@.len(),
        final(shm)@.subrange(offset as int, offset + 4) == spec_u32_le(x),
        forall|i: int|
            0 <= i < old(shm)@.len() && !(offset <= i < offset + 4) ==> final(shm)@[i] == old(
                shm,
            )@[i],
{
    shm[offset] = (x % 256) as u8;
    shm[offset + 1] = ((x / 0x100) % 256) as u8;
    shm[offset + 2] = ((x / 0x1_0000) % 256) as u8;
    shm[offset + 3] = (x / 0x100_0000) as u8;
    assert(shm@.subrange(offset as int, offset + 4) =~= spec_u32_le(x));
}

fn ring_read(shm: &Vec<u8>, pos: usize, n: usize) -> (bytes: Vec<u8>)
    requires
        shm.len() > 12,
        pos < shm.len() - 12,
        n <= shm.len() - 12,
    ensures
        bytes@ == spec_ring_bytes(shm@.skip(12), pos as int, n as int),
{
    let size = shm.len() - 12;
    let mut bytes: Vec<u8> = Vec::with_capacity(n);
    let mut i: usize = 0;
    while i < n
        invariant
            shm.len() == 12 + size,
            pos < size,
            i <= n <= size,
            bytes@ == spec_ring_bytes(shm@.skip(12), pos as int, i as int),
        decreases n - i,
    {
        let j = if i >= size - pos {
            i - (size - pos)
        } else {
            pos + i
        };
        bytes.push(shm[12 + j]);
        i += 1;
        assert(bytes@ =~= spec_ring_bytes(shm@.skip(12), pos as int, i as int));
    }
    bytes
}

fn ring_write(shm: &mut Vec<u8>, pos: usize, data: &[u8])
    requires
        old(shm).len() > 12,
        pos < old(shm).len() - 12,
        data.len() <= old(shm).len() - 12,
    ensures
        final(shm)@.len() == old(shm)@.len(),
        final(shm)@.subrange(0, 12) == old(shm)@.subrange(0, 12),
        final(shm)@.skip(12) == spec_ring_store(old(shm)@.skip(12), pos as int, data@),
{
    let size = shm.len() - 12;
    let n = data.len();
    let mut i: usize = 0;
    while i < n
        invariant
            shm.len() == 12 + size,
            shm@.len() == old(shm)@.len(),
            pos < size,
            i <= n <= size,
            n == data@.len(),
            shm@.subrange(0, 12) == old(shm)@.subrange(0, 12),
            shm@.skip(12) == spec_ring_store(
                old(shm)@.skip(12),
                pos as int,
                data@.subrange(0, i as int),
            ),
        decreases n - i,
    {
        let j = if i >= size - pos {
            i - (size - pos)
        } else {
            pos + i
        };
        let ghost before = shm@;
        shm[12 + j] = data[i];
        i += 1;
        assert(shm@.subrange(0, 12) =~= before.subrange(0, 12));
        proof {
            let m0 = old(shm)@.skip(12);
            let now = spec_ring_store(m0, pos as int, data@.subrange(0, i as int));
            assert forall|k: int| 0 <= k < size implies shm@.skip(12)[k] == now[k] by {
                let off = if k >= pos {
                    k - pos
                } else {
                    k + size - pos
                };
                assert(before.skip(12)[k] == before[k + 12]);
                assert(shm@.skip(12)[k] == shm@[k + 12]);
                if k == j {
                    assert(off == i - 1);
                } else {
                    assert(off != i - 1);
                }
            }
            assert(shm@.skip(12) =~= now);
        }
    }
    assert(data@.subrange(0, n as int) =~= data@);
    assert(shm@.skip(12) =~= spec_ring_store(old(shm)@.skip(12), pos as int, data@)) by {
        assert(spec_ring_store(old(shm)@.skip(12), pos as int, data@.subrange(0, 0))
            =~= old(shm)@.skip(12));
    }
}

/// The bytes in use split at the first entry: where an entry stands first in `l`, the
/// entries of `l` are that entry and the entries behind it.
pub proof fn lemma_parse_first(l: Seq<u8>)
    requires
        spec_parse_blocks(l) is Some,
        l.len() > 0,
    ensures
        spec_block_head_valid(l),
        l.len() >= 12 + spec_block_len(l),
        spec_parse_blocks(l.skip(12 + spec_block_len(l))) is Some,
        spec_parse_blocks(l)->Some_0 == seq![l.subrange(12, 12 + spec_block_len(l))]
            + spec_parse_blocks(l.skip(12 + spec_block_len(l)))->Some_0,
        spec_parse_blocks(l)->Some_0.len() > 0,
        spec_parse_blocks(l)->Some_0[0] == l.subrange(12, 12 + spec_block_len(l)),
        spec_parse_blocks(l)->Some_0.skip(1) == spec_parse_blocks(
            l.skip(12 + spec_block_len(l)),
        )->Some_0,
{
    let n = spec_block_len(l);
    let rest = spec_parse_blocks(l.skip(12 + n))->Some_0;
    let q = seq![l.subrange(12, 12 + n)] + rest;
    assert(q.skip(1) =~= rest);
}

/// Bytes that hold no entry are no bytes at all.
pub proof fn lemma_parse_none(l: Seq<u8>)
    requires
        spec_parse_blocks(l) is Some,
        spec_parse_blocks(l)->Some_0.len() == 0,
    ensures
        l.len() == 0,
{
    if l.len() > 0 {
        lemma_parse_first(l);
    }
}

/// Every entry takes at least the twelve bytes of its head.
pub proof fn lemma_parse_len(l: Seq<u8>)
    requires
        spec_parse_blocks(l) is Some,
    ensures
        12 * spec_parse_blocks(l)->Some_0.len() <= l.len(),
    decreases l.len(),
{
    if l.len() > 0 {
        lemma_parse_first(l);
        lemma_parse_len(l.skip(12 + spec_block_len(l)));
    }
}

/// The head of an entry reads back as a ready head that declares the entry's length.
pub proof fn lemma_block_head(data: Seq<u8>, rest: Seq<u8>)
    requires
        data.len() <= 0x7fff_ffff,
    ensures
        spec_block(data).len() == 12 + data.len(),
        spec_block_head_valid(spec_block(data) + rest),
        spec_block_len(spec_block(data) + rest) == data.len(),
        (spec_block(data) + rest).subrange(12, 12 + data.len() as int) == data,
        (spec_block(data) + rest).skip(12 + data.len() as int) == rest,
{
    let b = spec_block(data) + rest;
    let n = data.len() as u32;
    lemma_u32_bytes_roundtrip(n, false);
    assert(b.subrange(8, 12) =~= spec_u32_le(n));
    assert(b.subrange(12, 12 + data.len() as int) =~= data);
    assert(b.skip(12 + data.len() as int) =~= rest);
}

/// An entry written behind a sequence of entries is the last of them: appending its block
/// to the bytes appends it to the queue.
pub proof fn lemma_parse_append(l: Seq<u8>, data: Seq<u8>)
    requires
        spec_parse_blocks(l) is Some,
        data.len() <= 0x7fff_ffff,
    ensures
        spec_parse_blocks(l + spec_block(data)) == Some(spec_parse_blocks(l)->Some_0.push(data)),
    decreases l.len(),
{
    let q = spec_parse_blocks(l)->Some_0;
    let b = spec_block(data);
    if l.len() == 0 {
        assert(l + b =~= b + Seq::<u8>::empty());
        lemma_block_head(data, Seq::<u8>::empty());
        assert(spec_parse_blocks(Seq::<u8>::empty()) == Some(Seq::<Seq<u8>>::empty()));
        assert(seq![data] + Seq::<Seq<u8>>::empty() =~= q.push(data));
    } else {
        lemma_parse_first(l);
        let n = spec_block_len(l);
        let tail = l.skip(12 + n);
        lemma_parse_append(tail, data);
        let lb = l + b;
        assert(lb.subrange(8, 12) =~= l.subrange(8, 12));
        assert(lb.skip(12 + n) =~= tail + b);
        assert(lb.subrange(12, 12 + n) =~= l.subrange(12, 12 + n));
        let rest = spec_parse_blocks(tail)->Some_0;
        assert(seq![l.subrange(12, 12 + n)] + rest.push(data) =~= q.push(data));
    }
}

impl DltBuffer {
    /// Whether the region is attached.
    pub fn is_attached(&self) -> (attached: bool)
        ensures
            attached == self.spec_attached(),
    {
        self.size > 0 && self.size <= 0x7fff_ffff && self.shm.len() >= 12 && self.shm.len() - 12
            == self.size
    }

    fn counters(&self) -> (c: (u32, u32, u32))
        requires
            self.shm.len() >= 12,
        ensures
            c.0 == self.spec_write(),
            c.1 == self.spec_read(),
            c.2 == self.spec_count(),
    {
        let shm = self.shm.as_slice();
        (read_u32(shm, 0, false), read_u32(shm, 4, false), read_u32(shm, 8, false))
    }

    fn set_counters(&mut self, write: u32, read: u32, count: u32)
        requires
            old(self).shm.len() >= 12,
        ensures
            final(self).spec_write() == write,
            final(self).spec_read() == read,
            final(self).spec_count() == count,
            final(self).spec_same_but_counters(old(self)),
    {
        store_u32_le(&mut self.shm, 0, write);
        let ghost s1 = self.shm@;
        store_u32_le(&mut self.shm, 4, read);
        let ghost s2 = self.shm@;
        store_u32_le(&mut self.shm, 8, count);
        proof {
            lemma_u32_bytes_roundtrip(write, false);
            lemma_u32_bytes_roundtrip(read, false);
            lemma_u32_bytes_roundtrip(count, false);
            assert(self.shm@.subrange(0, 4) =~= s1.subrange(0, 4));
            assert(self.shm@.subrange(4, 8) =~= s2.subrange(4, 8));
            assert(self.shm@.skip(12) =~= old(self).shm@.skip(12));
        }
    }

    fn usable(&self) -> (ok: bool)
        ensures
            ok == (self.spec_attached() && self.spec_counters_ok()),
    {
        if !self.is_attached() {
            return false;
        }
        let (write, read, count) = self.counters();
        (write as usize) < self.size && (read as usize) < self.size && count < 0x7fff_ffff && (count
            != 0 || write == read)
    }

    fn used(&self) -> (used: usize)
        requires
            self.spec_attached(),
            self.spec_counters_ok(),
        ensures
            used == self.spec_used(),
            used <= self.size,
    {
        let (write, read, count) = self.counters();
        if count == 0 {
            0
        } else if write > read {
            (write - read) as usize
        } else {
            self.size - read as usize + write as usize
        }
    }

    /// Attaches to a region as the server: the region is cleared, so that the buffer is
    /// empty. Fails with `DLT_RETURN_WRONG_PARAMETER` where the region has no room for a
    /// data area behind the counters, or more than a signed 32-bit number can count.
    pub fn init_static_server(region: Vec<u8>) -> (r: Result<DltBuffer, DltReturnValue>)
        ensures
            12 < region@.len() <= 12 + 0x7fff_ffff ==> (r matches Ok(buf) && {
                &&& buf.spec_entries() == Some(Seq::<Seq<u8>>::empty())
                &&& buf.shm@ == Seq::new(region@.len(), |i: int| 0u8)
                &&& buf.size == region@.len() - 12
                &&& buf.min_size == region@.len()
                &&& buf.max_size == region@.len()
                &&& buf.step_size == 0
            }),
            !(12 < region@.len() <= 12 + 0x7fff_ffff) ==> (r matches Err(e) && e
                == DltReturnValue::DLT_RETURN_WRONG_PARAMETER),
    {
        let total = region.len();
        if total <= 12 || total - 12 > 0x7fff_ffff {
            return Err(DltReturnValue::DLT_RETURN_WRONG_PARAMETER);
        }
        let mut shm = region;
        let mut i: usize = 0;
        while i < total
            invariant
                i <= total,
                shm.len() == total,
                forall|j: int| 0 <= j < i ==> shm@[j] == 0,
            decreases total - i,
        {
            shm[i] = 0;
            i += 1;
        }
        assert(shm@ =~= Seq::new(region@.len(), |i: int| 0u8));
        let buf = DltBuffer {
            shm,
            size: total - 12,
            min_size: total as u32,
            max_size: total as u32,
            step_size: 0,
        };
        proof {
            lemma_zero_region_is_empty(buf);
        }
        Ok(buf)
    }

    /// Attaches to a region as a client: the region is taken as it is, counters and data.
    /// Fails with `DLT_RETURN_WRONG_PARAMETER` where the region has no room for a data area
    /// behind the counters, or more than a signed 32-bit number can count.
    pub fn init_static_client(region: Vec<u8>) -> (r: Result<DltBuffer, DltReturnValue>)
        ensures
            12 < region@.len() <= 12 + 0x7fff_ffff ==> (r matches Ok(buf) && {
                &&& buf.spec_attached()
                &&& buf.shm@ == region@
                &&& buf.size == region@.len() - 12
                &&& buf.min_size == region@.len()
                &&& buf.max_size == region@.len()
                &&& buf.step_size == 0
            }),
            !(12 < region@.len() <= 12 + 0x7fff_ffff) ==> (r matches Err(e) && e
                == DltReturnValue::DLT_RETURN_WRONG_PARAMETER),
    {
        let total = region.len();
        if total <= 12 || total - 12 > 0x7fff_ffff {
            return Err(DltReturnValue::DLT_RETURN_WRONG_PARAMETER);
        }
        Ok(
            DltBuffer {
                shm: region,
                size: total - 12,
                min_size: total as u32,
                max_size: total as u32,
                step_size: 0,
            },
        )
    }

    /// Detaches from the region and hands it back as it stands.
    pub fn free_static(self) -> (region: Vec<u8>)
        ensures
            region@ == self.shm@,
    {
        self.shm
    }

    /// Discards all entries: the counters are set to zero and the data area is cleared.
    /// Fails with `DLT_RETURN_WRONG_PARAMETER`, changing nothing, where the region is not
    /// attached.
    pub fn reset(&mut self) -> (r: DltReturnValue)
        ensures
            old(self).spec_attached() ==> {
                &&& r == DltReturnValue::DLT_RETURN_OK
                &&& final(self).spec_entries() == Some(Seq::<Seq<u8>>::empty())
                &&& final(self).shm@ == Seq::new(old(self).shm@.len(), |i: int| 0u8)
                &&& final(self).size == old(self).size
                &&& final(self).min_size == old(self).min_size
                &&& final(self).max_size == old(self).max_size
                &&& final(self).step_size == old(self).step_size
            },
            !old(self).spec_attached() ==> r == DltReturnValue::DLT_RETURN_WRONG_PARAMETER
                && *final(self) == *old(self),
    {
        if !self.is_attached() {
            return DltReturnValue::DLT_RETURN_WRONG_PARAMETER;
        }
        let total = self.shm.len();
        let mut i: usize = 0;
        while i < total
            invariant
                i <= total,
                self.shm.len() == total,
                self.size == old(self).size,
                self.min_size == old(self).min_size,
                self.max_size == old(self).max_size,
                self.step_size == old(self).step_size,
                forall|j: int| 0 <= j < i ==> self.shm@[j] == 0,
            decreases total - i,
        {
            self.shm[i] = 0;
            i += 1;
        }
        proof {
            assert(self.shm@ =~= Seq::new(old(self).shm@.len(), |i: int| 0u8));
            lemma_zero_region_is_empty(*self);
        }
        DltReturnValue::DLT_RETURN_OK
    }

    /// The size of the region in bytes, counters included; of a buffer that can grow, the
    /// size up to which it can.
    pub fn get_total_size(&self) -> (total: u32)
        ensures
            total == self.max_size,
    {
        self.max_size
    }

    /// Bytes of the data area in use, entry heads included; zero where the region is not
    /// attached or its counters are out of range.
    pub fn get_used_size(&self) -> (used: usize)
        ensures
            used == (if self.spec_attached() && self.spec_counters_ok() {
                self.spec_used()
            } else {
                0
            }),
    {
        if self.usable() {
            self.used()
        } else {
            0
        }
    }

    /// The number of entries that the counters report; zero where the region is not
    /// attached.
    pub fn get_message_count(&self) -> (count: u32)
        ensures
            count == (if self.spec_attached() {
                self.spec_count()
            } else {
                0
            }),
    {
        if self.is_attached() {
            self.counters().2
        } else {
            0
        }
    }
}

/// An attached region of zero bytes holds an empty queue.
pub proof fn lemma_zero_region_is_empty(buf: DltBuffer)
    requires
        buf.spec_attached(),
        buf.shm@ == Seq::new(buf.shm@.len(), |i: int| 0u8),
    ensures
        buf.spec_entries() == Some(Seq::<Seq<u8>>::empty()),
        buf.spec_write() == 0,
        buf.spec_read() == 0,
        buf.spec_count() == 0,
{
    assert(buf.shm@.subrange(0, 4)[0] == 0 && buf.shm@.subrange(0, 4)[1] == 0 && buf.shm@.subrange(
        0,
        4,
    )[2] == 0 && buf.shm@.subrange(0, 4)[3] == 0);
    assert(buf.shm@.subrange(4, 8)[0] == 0 && buf.shm@.subrange(4, 8)[1] == 0 && buf.shm@.subrange(
        4,
        8,
    )[2] == 0 && buf.shm@.subrange(4, 8)[3] == 0);
    assert(buf.shm@.subrange(8, 12)[0] == 0 && buf.shm@.subrange(8, 12)[1] == 0
        && buf.shm@.subrange(8, 12)[2] == 0 && buf.shm@.subrange(8, 12)[3] == 0);
    assert(buf.spec_content() =~= Seq::<u8>::empty());
}

/// Skipping the first `k` bytes in use is reading the ring from `k` positions further on.
pub proof fn lemma_ring_skip(mem: Seq<u8>, pos: int, n: int, k: int)
    requires
        0 <= pos < mem.len(),
        0 <= k <= n <= mem.len(),
    ensures
        spec_ring_bytes(mem, pos, n).skip(k) == spec_ring_bytes(
            mem,
            spec_ring_index(pos, k, mem.len() as int),
            n - k,
        ),
{
    assert(spec_ring_bytes(mem, pos, n).skip(k) =~= spec_ring_bytes(
        mem,
        spec_ring_index(pos, k, mem.len() as int),
        n - k,
    ));
}

/// Storing two pieces one behind the other is storing them joined.
pub proof fn lemma_ring_store_concat(mem: Seq<u8>, pos: int, a: Seq<u8>, b: Seq<u8>)
    requires
        0 <= pos < mem.len(),
        a.len() + b.len() <= mem.len(),
    ensures
        spec_ring_store(
            spec_ring_store(mem, pos, a),
            spec_ring_index(pos, a.len() as int, mem.len() as int),
            b,
        ) == spec_ring_store(mem, pos, a + b),
{
    assert(spec_ring_store(
        spec_ring_store(mem, pos, a),
        spec_ring_index(pos, a.len() as int, mem.len() as int),
        b,
    ) =~= spec_ring_store(mem, pos, a + b));
}

/// Storing a piece behind the bytes in use leaves them as they are and puts the piece
/// behind them.
pub proof fn lemma_ring_store_behind(mem: Seq<u8>, pos: int, used: int, data: Seq<u8>)
    requires
        0 <= pos < mem.len(),
        0 <= used,
        used + data.len() <= mem.len(),
    ensures
        spec_ring_bytes(
            spec_ring_store(mem, spec_ring_index(pos, used, mem.len() as int), data),
            pos,
            used + data.len(),
        ) == spec_ring_bytes(mem, pos, used) + data,
{
    assert(spec_ring_bytes(
        spec_ring_store(mem, spec_ring_index(pos, used, mem.len() as int), data),
        pos,
        used + data.len(),
    ) =~= spec_ring_bytes(mem, pos, used) + data);
}

/// What stands first in a buffer that holds a queue: nothing where the queue is empty,
/// else the oldest entry.
pub proof fn lemma_front_of_entries(buf: DltBuffer)
    requires
        buf.spec_entries() is Some,
    ensures
        buf.spec_entries()->Some_0.len() == 0 ==> buf.spec_front() == DltBufferFront::Empty,
        buf.spec_entries()->Some_0.len() > 0 ==> buf.spec_front() == DltBufferFront::Entry(
            buf.spec_entries()->Some_0[0],
        ),
{
    let l = buf.spec_content();
    if buf.spec_count() > 0 {
        if l.len() > 0 {
            lemma_parse_first(l);
        }
    }
}

/// Taking the oldest entry out: a buffer that holds a queue, with its read position moved
/// behind the first entry and its count lowered by one, holds the rest of the queue.
pub proof fn lemma_remove_entries(before: DltBuffer, after: DltBuffer)
    requires
        before.spec_entries() is Some,
        before.spec_entries()->Some_0.len() > 0,
        after.spec_same_but_counters(&before),
        after.spec_write() == before.spec_write(),
        after.spec_read() == spec_ring_index(
            before.spec_read(),
            12 + before.spec_entries()->Some_0[0].len() as int,
            before.size as int,
        ),
        after.spec_count() == before.spec_count() - 1,
    ensures
        after.spec_entries() == Some(before.spec_entries()->Some_0.skip(1)),
{
    let l = before.spec_content();
    let q = before.spec_entries()->Some_0;
    lemma_parse_len(l);
    lemma_parse_first(l);
    let n = spec_block_len(l);
    assert(q[0].len() == n);
    let tail = l.skip(12 + n);
    lemma_parse_len(tail);
    lemma_ring_skip(before.spec_mem(), before.spec_read(), before.spec_used(), 12 + n);
    if after.spec_count() == 0 {
        lemma_parse_none(tail);
        assert(after.spec_content() =~= tail);
    } else {
        assert(tail.len() >= 12);
        assert(after.spec_used() == before.spec_used() - 12 - n);
    }
}

/// Putting an entry in: a buffer that holds a queue and has room for the block of `data`,
/// with that block stored at its write position, the write position moved behind it and
/// the count raised by one, holds the queue with `data` as its newest entry.
pub proof fn lemma_push_entries(before: DltBuffer, after: DltBuffer, data: Seq<u8>)
    requires
        before.spec_attached(),
        before.spec_counters_ok(),
        before.spec_count() + 1 < 0x7fff_ffff,
        before.spec_used() + 12 + data.len() <= before.size,
        after.size == before.size,
        after.shm@.len() == before.shm@.len(),
        after.spec_mem() == spec_ring_store(
            before.spec_mem(),
            before.spec_write(),
            spec_block(data),
        ),
        after.spec_read() == before.spec_read(),
        after.spec_write() == spec_ring_index(
            before.spec_write(),
            12 + data.len() as int,
            before.size as int,
        ),
        after.spec_count() == before.spec_count() + 1,
    ensures
        after.spec_attached(),
        after.spec_counters_ok(),
        after.spec_used() == before.spec_used() + 12 + data.len(),
        after.spec_content() == before.spec_content() + spec_block(data),
        before.spec_entries() is Some ==> after.spec_entries() == Some(
            before.spec_entries()->Some_0.push(data),
        ),
{
    let size = before.size as int;
    let used = before.spec_used();
    lemma_block_head(data, Seq::<u8>::empty());
    assert(before.spec_write() == spec_ring_index(before.spec_read(), used, size));
    lemma_ring_store_behind(before.spec_mem(), before.spec_read(), used, spec_block(data));
    if before.spec_entries() is Some {
        lemma_parse_append(before.spec_content(), data);
    }
}

impl DltBuffer {
    /// Length of the entry that stands first, `None` where the buffer is empty.
    /// Fails with `DLT_RETURN_WRONG_PARAMETER` where the region is not attached and with
    /// `DLT_RETURN_ERROR` where the counters are out of range or no whole ready entry stands
    /// at the read position.
    pub fn front_len(&self) -> (r: Result<Option<usize>, DltReturnValue>)
        ensures
            match self.spec_front() {
                DltBufferFront::Unusable => r == Err::<Option<usize>, DltReturnValue>(
                    if self.spec_attached() {
                        DltReturnValue::DLT_RETURN_ERROR
                    } else {
                        DltReturnValue::DLT_RETURN_WRONG_PARAMETER
                    },
                ),
                DltBufferFront::Empty => r == Ok::<Option<usize>, DltReturnValue>(None),
                DltBufferFront::Corrupt => r == Err::<Option<usize>, DltReturnValue>(
                    DltReturnValue::DLT_RETURN_ERROR,
                ),
                DltBufferFront::Entry(d) => r == Ok::<Option<usize>, DltReturnValue>(
                    Some(d.len() as usize),
                ) && 12 + d.len() <= self.size,
            },
    {
        if !self.is_attached() {
            return Err(DltReturnValue::DLT_RETURN_WRONG_PARAMETER);
        }
        if !self.usable() {
            return Err(DltReturnValue::DLT_RETURN_ERROR);
        }
        let (_write, read, count) = self.counters();
        if count == 0 {
            return Ok(None);
        }
        let used = self.used();
        if used < 12 {
            return Err(DltReturnValue::DLT_RETURN_ERROR);
        }
        let head = ring_read(&self.shm, read as usize, 12);
        let ghost l = self.spec_content();
        assert(head@ =~= l.subrange(0, 12));
        if head[0] != DLT_SHM_HEAD[0] || head[1] != DLT_SHM_HEAD[1] || head[2] != DLT_SHM_HEAD[2]
            || head[3] != DLT_SHM_HEAD[3] || head[4] != DLT_BUFFER_BLOCK_READY {
            return Err(DltReturnValue::DLT_RETURN_ERROR);
        }
        let n = read_u32(head.as_slice(), 8, false) as usize;
        assert(head@.subrange(8, 12) =~= l.subrange(8, 12));
        if n > used - 12 {
            return Err(DltReturnValue::DLT_RETURN_ERROR);
        }
        Ok(Some(n))
    }

    /// Reads the oldest entry and leaves it in the buffer.
    ///
    /// Gives `None` where the buffer is empty. Fails with `DLT_RETURN_USER_BUFFER_FULL`
    /// where the entry is longer than `max_size`, and as `front_len` does.
    pub fn copy(&self, max_size: usize) -> (r: Result<Option<Vec<u8>>, DltReturnValue>)
        ensures
            match self.spec_front() {
                DltBufferFront::Unusable => r matches Err(e) && e == (if self.spec_attached() {
                    DltReturnValue::DLT_RETURN_ERROR
                } else {
                    DltReturnValue::DLT_RETURN_WRONG_PARAMETER
                }),
                DltBufferFront::Empty => r matches Ok(None),
                DltBufferFront::Corrupt => r matches Err(e) && e
                    == DltReturnValue::DLT_RETURN_ERROR,
                DltBufferFront::Entry(d) => if d.len() > max_size {
                    r matches Err(e) && e == DltReturnValue::DLT_RETURN_USER_BUFFER_FULL
                } else {
                    r matches Ok(Some(v)) && v@ == d
                },
            },
            self.spec_entries() matches Some(q) ==> (if q.len() == 0 {
                r matches Ok(None)
            } else if q[0].len() > max_size {
                r matches Err(e) && e == DltReturnValue::DLT_RETURN_USER_BUFFER_FULL
            } else {
                r matches Ok(Some(v)) && v@ == q[0]
            }),
    {
        proof {
            if self.spec_entries() is Some {
                lemma_front_of_entries(*self);
            }
        }
        match self.front_len() {
            Err(e) => Err(e),
            Ok(None) => Ok(None),
            Ok(Some(n)) => {
                if n > max_size {
                    return Err(DltReturnValue::DLT_RETURN_USER_BUFFER_FULL);
                }
                let (_write, read, _count) = self.counters();
                let start = if read as usize >= self.size - 12 {
                    read as usize - (self.size - 12)
                } else {
                    read as usize + 12
                };
                let data = ring_read(&self.shm, start, n);
                proof {
                    lemma_ring_skip(self.spec_mem(), self.spec_read(), self.spec_used(), 12);
                    assert(data@ =~= self.spec_content().subrange(12, 12 + n));
                }
                Ok(Some(data))
            },
        }
    }

    /// Drops the oldest entry and gives its length; `None` where the buffer is empty.
    /// Fails as `front_len` does, and then changes nothing.
    pub fn remove(&mut self) -> (r: Result<Option<usize>, DltReturnValue>)
        ensures
            match old(self).spec_front() {
                DltBufferFront::Unusable => r matches Err(e) && e == (if old(self).spec_attached() {
                    DltReturnValue::DLT_RETURN_ERROR
                } else {
                    DltReturnValue::DLT_RETURN_WRONG_PARAMETER
                }) && *final(self) == *old(self),
                DltBufferFront::Empty => r matches Ok(None) && *final(self) == *old(self),
                DltBufferFront::Corrupt => r matches Err(e) && e
                    == DltReturnValue::DLT_RETURN_ERROR && *final(self) == *old(self),
                DltBufferFront::Entry(d) => {
                    &&& r matches Ok(Some(n))
                    &&& n == d.len()
                    &&& final(self).spec_same_but_counters(old(self))
                    &&& final(self).spec_write() == old(self).spec_write()
                    &&& final(self).spec_read() == spec_ring_index(
                        old(self).spec_read(),
                        12 + d.len() as int,
                        old(self).size as int,
                    )
                    &&& final(self).spec_count() == old(self).spec_count() - 1
                },
            },
            old(self).spec_entries() matches Some(q) ==> (if q.len() == 0 {
                r matches Ok(None) && *final(self) == *old(self)
            } else {
                r matches Ok(Some(n)) && n == q[0].len() && final(self).spec_entries() == Some(
                    q.skip(1),
                )
            }),
    {
        proof {
            if self.spec_entries() is Some {
                lemma_front_of_entries(*self);
            }
        }
        match self.front_len() {
            Err(e) => Err(e),
            Ok(None) => Ok(None),
            Ok(Some(n)) => {
                let (write, read, count) = self.counters();
                let step = 12 + n;
                let next = if read as usize >= self.size - step {
                    read as usize - (self.size - step)
                } else {
                    read as usize + step
                };
                self.set_counters(write, next as u32, count - 1);
                proof {
                    if old(self).spec_entries() is Some {
                        lemma_remove_entries(*old(self), *self);
                    }
                }
                Ok(Some(n))
            },
        }
    }

    /// Reads the oldest entry and drops it from the buffer.
    ///
    /// Gives `None` where the buffer is empty. Fails with `DLT_RETURN_USER_BUFFER_FULL`
    /// where the entry is longer than `max_size`, and as `front_len` does; a call that
    /// fails or finds nothing changes nothing.
    pub fn pull(&mut self, max_size: usize) -> (r: Result<Option<Vec<u8>>, DltReturnValue>)
        ensures
            match old(self).spec_front() {
                DltBufferFront::Unusable => r matches Err(e) && e == (if old(self).spec_attached() {
                    DltReturnValue::DLT_RETURN_ERROR
                } else {
                    DltReturnValue::DLT_RETURN_WRONG_PARAMETER
                }) && *final(self) == *old(self),
                DltBufferFront::Empty => r matches Ok(None) && *final(self) == *old(self),
                DltBufferFront::Corrupt => r matches Err(e) && e
                    == DltReturnValue::DLT_RETURN_ERROR && *final(self) == *old(self),
                DltBufferFront::Entry(d) => if d.len() > max_size {
                    r matches Err(e) && e == DltReturnValue::DLT_RETURN_USER_BUFFER_FULL && *final(self) == *old(self)
                } else {
                    &&& r matches Ok(Some(v))
                    &&& v@ == d
                    &&& final(self).spec_same_but_counters(old(self))
                    &&& final(self).spec_write() == old(self).spec_write()
                    &&& final(self).spec_read() == spec_ring_index(
                        old(self).spec_read(),
                        12 + d.len() as int,
                        old(self).size as int,
                    )
                    &&& final(self).spec_count() == old(self).spec_count() - 1
                },
            },
            old(self).spec_entries() matches Some(q) ==> (if q.len() == 0 {
                r matches Ok(None) && *final(self) == *old(self)
            } else if q[0].len() > max_size {
                r matches Err(e) && e == DltReturnValue::DLT_RETURN_USER_BUFFER_FULL && *final(self) == *old(self)
            } else {
                r matches Ok(Some(v)) && v@ == q[0] && final(self).spec_entries() == Some(
                    q.skip(1),
                )
            }),
    {
        match self.copy(max_size) {
            Err(e) => Err(e),
            Ok(None) => Ok(None),
            Ok(Some(data)) => {
                let _ = self.remove();
                Ok(Some(data))
            },
        }
    }
}

/// The least number of steps of `step` that cover a shortfall of `short` bytes.
pub open spec fn spec_steps(short: int, step: int) -> int
    recommends
        short > 0,
        step > 0,
{
    (short + step - 1) / step
}

/// The steps that `spec_steps` counts cover the shortfall, and one step fewer would not.
pub proof fn lemma_steps(short: int, step: int)
    requires
        short > 0,
        step > 0,
    ensures
        spec_steps(short, step) >= 1,
        short <= spec_steps(short, step) * step <= short + step - 1,
{
    let x = short + step - 1;
    let k = x / step;
    lemma_fundamental_div_mod(x, step);
    lemma_mod_bound(x, step);
    assert(step * k == k * step) by (nonlinear_arith);
    if k < 1 {
        assert(k * step <= 0) by (nonlinear_arith)
            requires
                k < 1,
                step > 0,
        ;
    }
}

impl DltBuffer {
    /// The size of the data area with which an entry of `n` bytes can be put in: the
    /// present size where the entry fits, else the present size raised by the least number
    /// of steps with which it fits, as far as the region stays within the maximum size.
    /// `None` where the entry cannot be put in.
    pub open spec fn spec_size_for(&self, n: int) -> Option<int> {
        let need = self.spec_used() + 12 + n;
        if need <= self.size {
            Some(self.size as int)
        } else if self.step_size == 0 {
            None
        } else {
            let grown = self.size + spec_steps(need - self.size, self.step_size as int)
                * self.step_size;
            if 12 + grown <= self.max_size && grown <= 0x7fff_ffff {
                Some(grown)
            } else {
                None
            }
        }
    }

    /// A buffer that grows on demand: its region starts with `min_size` bytes and grows by
    /// `step_size` bytes at a time up to `max_size` bytes, counters included. The buffer is
    /// empty.
    ///
    /// Fails with `DLT_RETURN_WRONG_PARAMETER` where a size is zero, the minimum or the
    /// step is above the maximum, the minimum leaves no room for a data area behind the
    /// counters, or the maximum is more than a signed 32-bit number can count.
    pub fn init_dynamic(min_size: u32, max_size: u32, step_size: u32) -> (r: Result<
        DltBuffer,
        DltReturnValue,
    >)
        ensures
            (12 < min_size <= max_size <= 0x7fff_ffff && 0 < step_size <= max_size) ==> (r matches Ok(
                buf,
            ) && {
                &&& buf.spec_entries() == Some(Seq::<Seq<u8>>::empty())
                &&& buf.shm@ == Seq::new(min_size as nat, |i: int| 0u8)
                &&& buf.size == min_size - 12
                &&& buf.min_size == min_size
                &&& buf.max_size == max_size
                &&& buf.step_size == step_size
            }),
            !(12 < min_size <= max_size <= 0x7fff_ffff && 0 < step_size <= max_size) ==> (r matches Err(
                e,
            ) && e == DltReturnValue::DLT_RETURN_WRONG_PARAMETER),
    {
        if min_size <= 12 || min_size > max_size || max_size > 0x7fff_ffff || step_size == 0
            || step_size > max_size {
            return Err(DltReturnValue::DLT_RETURN_WRONG_PARAMETER);
        }
        let mut shm: Vec<u8> = Vec::with_capacity(min_size as usize);
        let mut i: u32 = 0;
        while i < min_size
            invariant
                i <= min_size,
                shm@ == Seq::new(i as nat, |i: int| 0u8),
            decreases min_size - i,
        {
            shm.push(0);
            i += 1;
            assert(shm@ =~= Seq::new(i as nat, |i: int| 0u8));
        }
        let buf = DltBuffer { shm, size: (min_size - 12) as usize, min_size, max_size, step_size };
        proof {
            lemma_zero_region_is_empty(buf);
        }
        Ok(buf)
    }

    fn grow(&mut self, extra: usize)
        requires
            old(self).spec_attached(),
            old(self).spec_counters_ok(),
            0 < extra,
            old(self).size + extra <= 0x7fff_ffff,
        ensures
            final(self).spec_attached(),
            final(self).spec_counters_ok(),
            final(self).size == old(self).size + extra,
            final(self).min_size == old(self).min_size,
            final(self).max_size == old(self).max_size,
            final(self).step_size == old(self).step_size,
            final(self).spec_count() == old(self).spec_count(),
            final(self).spec_used() == old(self).spec_used(),
            final(self).spec_content() == old(self).spec_content(),
    {
        let used = self.used();
        let (_write, read, count) = self.counters();
        let content = ring_read(&self.shm, read as usize, used);
        let size = self.size + extra;
        let mut shm: Vec<u8> = Vec::with_capacity(12 + size);
        let mut i: usize = 0;
        while i < 12
            invariant
                i <= 12,
                shm@ == Seq::new(i as nat, |i: int| 0u8),
            decreases 12 - i,
        {
            shm.push(0);
            i += 1;
            assert(shm@ =~= Seq::new(i as nat, |i: int| 0u8));
        }
        let ghost head = shm@;
        shm.extend_from_slice(content.as_slice());
        let mut j: usize = used;
        while j < size
            invariant
                used <= j <= size,
                shm@.len() == 12 + j,
                shm@.subrange(0, 12 + used) == head + content@,
            decreases size - j,
        {
            shm.push(0);
            j += 1;
            assert(shm@.subrange(0, 12 + used) =~= head + content@);
        }
        let ghost filled = shm@;
        self.shm = shm;
        self.size = size;
        self.set_counters(used as u32, 0, count);
        proof {
            assert(self.spec_mem() == filled.skip(12));
            assert forall|k: int| 0 <= k < used implies self.spec_mem()[k] == content@[k] by {
                assert(filled.subrange(0, 12 + used)[12 + k] == (head + content@)[12 + k]);
            }
            assert(self.spec_content() =~= content@);
        }
    }

    /// Puts one entry in.
    ///
    /// The same as `push3` with `data` as the first piece and nothing behind it.
    pub fn push(&mut self, data: &[u8]) -> (r: DltReturnValue)
        ensures
            !old(self).spec_attached() ==> r == DltReturnValue::DLT_RETURN_WRONG_PARAMETER
                && *final(self) == *old(self),
            old(self).spec_attached() && !(old(self).spec_counters_ok() && old(self).spec_count()
                + 1 < 0x7fff_ffff) ==> r == DltReturnValue::DLT_RETURN_ERROR && *final(self)
                == *old(self),
            old(self).spec_attached() && old(self).spec_counters_ok() && old(self).spec_count() + 1
                < 0x7fff_ffff ==> match old(self).spec_size_for(data@.len() as int) {
                None => r == DltReturnValue::DLT_RETURN_BUFFER_FULL && *final(self) == *old(self),
                Some(size) => {
                    &&& r == DltReturnValue::DLT_RETURN_OK
                    &&& final(self).spec_attached()
                    &&& final(self).spec_counters_ok()
                    &&& final(self).size == size
                    &&& final(self).min_size == old(self).min_size
                    &&& final(self).max_size == old(self).max_size
                    &&& final(self).step_size == old(self).step_size
                    &&& final(self).spec_count() == old(self).spec_count() + 1
                    &&& final(self).spec_content() == old(self).spec_content() + spec_block(data@)
                },
            },
            old(self).spec_entries() matches Some(q) ==> (r == DltReturnValue::DLT_RETURN_OK
                ==> final(self).spec_entries() == Some(q.push(data@))) && (r
                != DltReturnValue::DLT_RETURN_OK ==> *final(self) == *old(self)),
    {
        let nothing: [u8; 0] = [];
        assert(data@ + nothing@ + nothing@ =~= data@);
        self.push3(data, &nothing, &nothing)
    }

    /// Puts one entry in, made of up to three pieces joined in the order given.
    ///
    /// Where the entry with its head does not fit in the free part of the data area, a
    /// buffer that grows on demand is first enlarged by as many steps as it takes. The call
    /// fails with `DLT_RETURN_BUFFER_FULL` where the entry cannot be made to fit, with
    /// `DLT_RETURN_WRONG_PARAMETER` where the region is not attached, and with
    /// `DLT_RETURN_ERROR` where the counters are out of range or the count cannot be
    /// raised. A call that fails changes nothing.
    pub fn push3(&mut self, data1: &[u8], data2: &[u8], data3: &[u8]) -> (r: DltReturnValue)
        ensures
            !old(self).spec_attached() ==> r == DltReturnValue::DLT_RETURN_WRONG_PARAMETER
                && *final(self) == *old(self),
            old(self).spec_attached() && !(old(self).spec_counters_ok() && old(self).spec_count()
                + 1 < 0x7fff_ffff) ==> r == DltReturnValue::DLT_RETURN_ERROR && *final(self)
                == *old(self),
            old(self).spec_attached() && old(self).spec_counters_ok() && old(self).spec_count() + 1
                < 0x7fff_ffff ==> match old(self).spec_size_for(
                (data1@ + data2@ + data3@).len() as int,
            ) {
                None => r == DltReturnValue::DLT_RETURN_BUFFER_FULL && *final(self) == *old(self),
                Some(size) => {
                    &&& r == DltReturnValue::DLT_RETURN_OK
                    &&& final(self).spec_attached()
                    &&& final(self).spec_counters_ok()
                    &&& final(self).size == size
                    &&& final(self).min_size == old(self).min_size
                    &&& final(self).max_size == old(self).max_size
                    &&& final(self).step_size == old(self).step_size
                    &&& final(self).spec_count() == old(self).spec_count() + 1
                    &&& final(self).spec_content() == old(self).spec_content() + spec_block(
                        data1@ + data2@ + data3@,
                    )
                },
            },
            old(self).spec_entries() matches Some(q) ==> (r == DltReturnValue::DLT_RETURN_OK
                ==> final(self).spec_entries() == Some(q.push(data1@ + data2@ + data3@))) && (r
                != DltReturnValue::DLT_RETURN_OK ==> *final(self) == *old(self)),
    {
        if !self.is_attached() {
            return DltReturnValue::DLT_RETURN_WRONG_PARAMETER;
        }
        if !self.usable() {
            return DltReturnValue::DLT_RETURN_ERROR;
        }
        let count = self.counters().2;
        if count >= 0x7fff_fffe {
            return DltReturnValue::DLT_RETURN_ERROR;
        }
        let ghost data = data1@ + data2@ + data3@;
        let used = self.used();
        let limit: usize = 0x7fff_ffff;
        let step = self.step_size as u64;
        if data1.len() > limit || data2.len() > limit || data3.len() > limit {
            proof {
                let need = used + 12 + data.len();
                if self.step_size != 0 {
                    lemma_steps(need - self.size, step as int);
                }
            }
            return DltReturnValue::DLT_RETURN_BUFFER_FULL;
        }
        let n: u64 = data1.len() as u64 + data2.len() as u64 + data3.len() as u64;
        let need: u64 = used as u64 + 12 + n;
        if need > self.size as u64 {
            if step == 0 {
                return DltReturnValue::DLT_RETURN_BUFFER_FULL;
            }
            let short: u64 = need - self.size as u64;
            proof {
                lemma_steps(short as int, step as int);
            }
            let steps: u64 = (short + step - 1) / step;
            let extra: u64 = steps * step;
            if extra > limit as u64 || self.size as u64 + extra > limit as u64 || 12
                + self.size as u64 + extra > self.max_size as u64 {
                return DltReturnValue::DLT_RETURN_BUFFER_FULL;
            }
            self.grow(extra as usize);
        }
        let ghost grown = *self;
        let (write, read, count) = self.counters();
        let next = self.store_block(write as usize, data1, data2, data3);
        proof {
            lemma_same_head(grown, *self);
        }
        self.set_counters(next as u32, read, count + 1);
        proof {
            lemma_push_entries(grown, *self, data);
            if old(self).spec_entries() is Some {
                assert(grown.spec_entries() == old(self).spec_entries());
            }
        }
        DltReturnValue::DLT_RETURN_OK
    }

    fn store_block(&mut self, at: usize, data1: &[u8], data2: &[u8], data3: &[u8]) -> (next: usize)
        requires
            old(self).spec_attached(),
            at < old(self).size,
            12 + data1@.len() + data2@.len() + data3@.len() <= old(self).size,
        ensures
            final(self).size == old(self).size,
            final(self).min_size == old(self).min_size,
            final(self).max_size == old(self).max_size,
            final(self).step_size == old(self).step_size,
            final(self).shm@.len() == old(self).shm@.len(),
            final(self).shm@.subrange(0, 12) == old(self).shm@.subrange(0, 12),
            final(self).spec_mem() == spec_ring_store(
                old(self).spec_mem(),
                at as int,
                spec_block(data1@ + data2@ + data3@),
            ),
            next == spec_ring_index(
                at as int,
                12 + (data1@ + data2@ + data3@).len() as int,
                old(self).size as int,
            ),
    {
        let size = self.size;
        let ghost data = data1@ + data2@ + data3@;
        let n: u32 = (data1.len() + data2.len() + data3.len()) as u32;
        let mut head: Vec<u8> = Vec::with_capacity(12);
        head.push(DLT_SHM_HEAD[0]);
        head.push(DLT_SHM_HEAD[1]);
        head.push(DLT_SHM_HEAD[2]);
        head.push(DLT_SHM_HEAD[3]);
        head.push(DLT_BUFFER_BLOCK_READY);
        head.push(0);
        head.push(0);
        head.push(0);
        head.push((n % 256) as u8);
        head.push(((n / 0x100) % 256) as u8);
        head.push(((n / 0x1_0000) % 256) as u8);
        head.push((n / 0x100_0000) as u8);
        assert(head@ =~= spec_block_head(data.len() as u32));
        let ghost mem = self.spec_mem();
        ring_write(&mut self.shm, at, head.as_slice());
        let at1 = Self::ring_next(at, 12, size);
        ring_write(&mut self.shm, at1, data1);
        let at2 = Self::ring_next(at1, data1.len(), size);
        proof {
            lemma_ring_store_concat(mem, at as int, head@, data1@);
        }
        ring_write(&mut self.shm, at2, data2);
        let at3 = Self::ring_next(at2, data2.len(), size);
        proof {
            lemma_ring_store_concat(mem, at as int, head@ + data1@, data2@);
        }
        ring_write(&mut self.shm, at3, data3);
        let next = Self::ring_next(at3, data3.len(), size);
        proof {
            lemma_ring_store_concat(mem, at as int, head@ + data1@ + data2@, data3@);
            assert(head@ + data1@ + data2@ + data3@ =~= spec_block(data));
        }
        next
    }

    fn ring_next(pos: usize, off: usize, size: usize) -> (next: usize)
        requires
            pos < size,
            off <= size,
        ensures
            next == spec_ring_index(pos as int, off as int, size as int),
            next < size,
    {
        if pos >= size - off {
            pos - (size - off)
        } else {
            pos + off
        }
    }
}

/// Regions that agree in their first twelve bytes hold the same counters.
pub proof fn lemma_same_head(a: DltBuffer, b: DltBuffer)
    requires
        a.shm@.len() >= 12,
        b.shm@.len() >= 12,
        a.shm@.subrange(0, 12) == b.shm@.subrange(0, 12),
    ensures
        a.spec_write() == b.spec_write(),
        a.spec_read() == b.spec_read(),
        a.spec_count() == b.spec_count(),
{
    let h = a.shm@.subrange(0, 12);
    assert(a.shm@.subrange(0, 4) =~= h.subrange(0, 4));
    assert(b.shm@.subrange(0, 4) =~= h.subrange(0, 4));
    assert(a.shm@.subrange(4, 8) =~= h.subrange(4, 8));
    assert(b.shm@.subrange(4, 8) =~= h.subrange(4, 8));
    assert(a.shm@.subrange(8, 12) =~= h.subrange(8, 12));
    assert(b.shm@.subrange(8, 12) =~= h.subrange(8, 12));
}

/// The queue after the entries `pushed` were put in one after the other.
pub open spec fn spec_push_all(q: Seq<Seq<u8>>, pushed: Seq<Seq<u8>>) -> Seq<Seq<u8>>
    decreases pushed.len(),
{
    if pushed.len() == 0 {
        q
    } else {
        spec_push_all(q.push(pushed[0]), pushed.skip(1))
    }
}

/// The entries that `n` pulls hand out, in the order of the pulls.
pub open spec fn spec_pulled(q: Seq<Seq<u8>>, n: nat) -> Seq<Seq<u8>>
    recommends
        n <= q.len(),
    decreases n,
{
    if n == 0 {
        Seq::<Seq<u8>>::empty()
    } else {
        seq![q[0]] + spec_pulled(q.skip(1), (n - 1) as nat)
    }
}

/// The queue that `n` pulls leave.
pub open spec fn spec_after_pulls(q: Seq<Seq<u8>>, n: nat) -> Seq<Seq<u8>>
    recommends
        n <= q.len(),
    decreases n,
{
    if n == 0 {
        q
    } else {
        spec_after_pulls(q.skip(1), (n - 1) as nat)
    }
}

/// Bytes that the entries of a queue take in the data area, heads included.
pub open spec fn spec_blocks_len(q: Seq<Seq<u8>>) -> int
    decreases q.len(),
{
    if q.len() == 0 {
        0
    } else {
        12 + q[0].len() + spec_blocks_len(q.skip(1))
    }
}

/// Putting entries in puts them behind those that the queue holds, in the order given.
pub proof fn lemma_push_all(q: Seq<Seq<u8>>, pushed: Seq<Seq<u8>>)
    ensures
        spec_push_all(q, pushed) == q + pushed,
    decreases pushed.len(),
{
    if pushed.len() == 0 {
        assert(q + pushed =~= q);
    } else {
        lemma_push_all(q.push(pushed[0]), pushed.skip(1));
        assert(q.push(pushed[0]) + pushed.skip(1) =~= q + pushed);
    }
}

/// Pulls hand out the oldest entries first and leave the others.
pub proof fn lemma_pulls(q: Seq<Seq<u8>>, n: nat)
    requires
        n <= q.len(),
    ensures
        spec_pulled(q, n) == q.subrange(0, n as int),
        spec_after_pulls(q, n) == q.skip(n as int),
    decreases n,
{
    if n == 0 {
        assert(q.subrange(0, 0) =~= Seq::<Seq<u8>>::empty());
        assert(q.skip(0) =~= q);
    } else {
        lemma_pulls(q.skip(1), (n - 1) as nat);
        assert(seq![q[0]] + q.skip(1).subrange(0, n - 1) =~= q.subrange(0, n as int));
        assert(q.skip(1).skip(n - 1) =~= q.skip(n as int));
    }
}

/// First in, first out: entries put into an empty buffer come out in the order in which
/// they went in, each with the bytes it went in with, and then the buffer is empty again.
pub proof fn lemma_fifo(pushed: Seq<Seq<u8>>)
    ensures
        spec_pulled(spec_push_all(Seq::<Seq<u8>>::empty(), pushed), pushed.len()) == pushed,
        spec_after_pulls(spec_push_all(Seq::<Seq<u8>>::empty(), pushed), pushed.len())
            == Seq::<Seq<u8>>::empty(),
{
    let q = spec_push_all(Seq::<Seq<u8>>::empty(), pushed);
    lemma_push_all(Seq::<Seq<u8>>::empty(), pushed);
    assert(Seq::<Seq<u8>>::empty() + pushed =~= pushed);
    lemma_pulls(q, pushed.len());
    assert(pushed.subrange(0, pushed.len() as int) =~= pushed);
    assert(pushed.skip(pushed.len() as int) =~= Seq::<Seq<u8>>::empty());
}

/// The bytes of a sequence of entries are as many as the entries take with their heads.
pub proof fn lemma_parse_blocks_len(l: Seq<u8>)
    requires
        spec_parse_blocks(l) is Some,
    ensures
        l.len() == spec_blocks_len(spec_parse_blocks(l)->Some_0),
    decreases l.len(),
{
    if l.len() > 0 {
        lemma_parse_first(l);
        lemma_parse_blocks_len(l.skip(12 + spec_block_len(l)));
    }
}

/// Capacity: a buffer that holds a queue uses as many bytes as its entries take with their
/// heads, and an entry can be put in without growing exactly where it fits with its head
/// into what is left of the data area.
pub proof fn lemma_capacity(buf: DltBuffer, n: int)
    requires
        buf.spec_entries() is Some,
        n >= 0,
    ensures
        buf.spec_used() == spec_blocks_len(buf.spec_entries()->Some_0),
        buf.spec_used() <= buf.size,
        spec_blocks_len(buf.spec_entries()->Some_0) + 12 + n <= buf.size
            ==> buf.spec_size_for(n) == Some(buf.size as int),
        buf.step_size == 0 && spec_blocks_len(buf.spec_entries()->Some_0) + 12 + n > buf.size
            ==> buf.spec_size_for(n) is None,
{
    lemma_parse_blocks_len(buf.spec_content());
}

/// Removing twice after one entry went in: where the buffer holds a single entry, the
/// buffer that the first removal leaves holds nothing, so that the second removal finds no
/// data and is no failure.
pub proof fn lemma_remove_last(before: DltBuffer, after: DltBuffer)
    requires
        before.spec_entries() is Some,
        before.spec_entries()->Some_0.len() == 1,
        after.spec_same_but_counters(&before),
        after.spec_write() == before.spec_write(),
        after.spec_read() == spec_ring_index(
            before.spec_read(),
            12 + before.spec_entries()->Some_0[0].len() as int,
            before.size as int,
        ),
        after.spec_count() == before.spec_count() - 1,
    ensures
        after.spec_entries() == Some(Seq::<Seq<u8>>::empty()),
        after.spec_front() == DltBufferFront::Empty,
{
    lemma_remove_entries(before, after);
    assert(before.spec_entries()->Some_0.skip(1) =~= Seq::<Seq<u8>>::empty());
    lemma_front_of_entries(after);
}

/// The first position at or behind `from` from which on the bytes `l` are a sequence of
/// whole ready entries, or the length of `l` where only its end is such a position.
pub open spec fn spec_recover_offset(l: Seq<u8>, from: int) -> int
    decreases l.len() - from,
{
    if from < 0 || from >= l.len() {
        l.len() as int
    } else if spec_parse_blocks(l.skip(from)) is Some {
        from
    } else {
        spec_recover_offset(l, from + 1)
    }
}

/// The position that recovery finds lies within the bytes, and from it on the bytes are a
/// sequence of whole ready entries; from no position before it they are.
pub proof fn lemma_recover_offset(l: Seq<u8>, from: int)
    requires
        0 <= from <= l.len(),
    ensures
        from <= spec_recover_offset(l, from) <= l.len(),
        spec_parse_blocks(l.skip(spec_recover_offset(l, from))) is Some,
        forall|k: int|
            from <= k < spec_recover_offset(l, from) ==> spec_parse_blocks(l.skip(k)) is None,
    decreases l.len() - from,
{
    if from >= l.len() {
        assert(l.skip(l.len() as int) =~= Seq::<u8>::empty());
    } else if spec_parse_blocks(l.skip(from)) is Some {
    } else {
        lemma_recover_offset(l, from + 1);
    }
}

impl DltBuffer {
    /// Bytes between the read position and the write position, told from the positions
    /// alone; where the two are equal, the whole data area unless the count is zero.
    pub open spec fn spec_span(&self) -> int {
        if self.spec_write() > self.spec_read() {
            self.spec_write() - self.spec_read()
        } else if self.spec_write() < self.spec_read() {
            self.size - self.spec_read() + self.spec_write()
        } else if self.spec_count() == 0 {
            0
        } else {
            self.size as int
        }
    }

    /// The bytes between the read position and the write position, in the order in which
    /// they were written.
    pub open spec fn spec_span_bytes(&self) -> Seq<u8> {
        spec_ring_bytes(self.spec_mem(), self.spec_read(), self.spec_span())
    }

    /// Whether both positions lie in the data area, so that recovery can scan.
    pub open spec fn spec_positions_ok(&self) -> bool {
        self.spec_write() < self.size && self.spec_read() < self.size
    }

    fn chain_from(&self, read: usize, span: usize, start: usize) -> (r: Option<u32>)
        requires
            self.spec_attached(),
            read < self.size,
            start <= span <= self.size,
        ensures
            ({
                let l = spec_ring_bytes(self.spec_mem(), read as int, span as int);
                match spec_parse_blocks(l.skip(start as int)) {
                    Some(q) => r == Some(q.len() as u32) && q.len() <= 178956970,
                    None => r is None,
                }
            }),
    {
        let ghost l = spec_ring_bytes(self.spec_mem(), read as int, span as int);
        let size = self.size;
        let mut at: usize = start;
        let mut count: u32 = 0;
        while at < span
            invariant
                self.spec_attached(),
                size == self.size,
                read < size,
                start <= at <= span <= size,
                l == spec_ring_bytes(self.spec_mem(), read as int, span as int),
                12 * count <= at - start,
                spec_parse_blocks(l.skip(start as int)) is Some == spec_parse_blocks(
                    l.skip(at as int),
                ) is Some,
                spec_parse_blocks(l.skip(start as int)) is Some ==> spec_parse_blocks(
                    l.skip(start as int),
                )->Some_0.len() == count + spec_parse_blocks(l.skip(at as int))->Some_0.len(),
            decreases span - at,
        {
            let ghost rest = l.skip(at as int);
            if span - at < 12 {
                return None;
            }
            let pos = Self::ring_next(read, at, size);
            let head = ring_read(&self.shm, pos, 12);
            proof {
                lemma_ring_skip(self.spec_mem(), read as int, span as int, at as int);
                assert(head@ =~= rest.subrange(0, 12));
                assert(head@.subrange(8, 12) =~= rest.subrange(8, 12));
            }
            if head[0] != DLT_SHM_HEAD[0] || head[1] != DLT_SHM_HEAD[1] || head[2]
                != DLT_SHM_HEAD[2] || head[3] != DLT_SHM_HEAD[3] || head[4]
                != DLT_BUFFER_BLOCK_READY {
                return None;
            }
            let n = read_u32(head.as_slice(), 8, false) as usize;
            if n > span - at - 12 {
                return None;
            }
            proof {
                assert(rest.skip(12 + n) =~= l.skip(at + 12 + n));
                if spec_parse_blocks(rest) is Some {
                    lemma_parse_first(rest);
                }
            }
            at = at + 12 + n;
            count = count + 1;
        }
        proof {
            assert(l.skip(span as int) =~= Seq::<u8>::empty());
        }
        Some(count)
    }

    /// Looks for entries behind damage: moves the read position forward to the first
    /// position from which on the bytes up to the write position are whole ready entries,
    /// and sets the count to their number. Gives the number of bytes that were given up.
    ///
    /// Where the bytes are whole entries as they stand, nothing is given up and only the
    /// count is set; where no entry can be saved, the buffer is empty afterwards. Fails with
    /// `DLT_RETURN_WRONG_PARAMETER` where the region is not attached and with
    /// `DLT_RETURN_ERROR` where a position lies outside the data area; a call that fails
    /// changes nothing.
    pub fn recover(&mut self) -> (r: Result<usize, DltReturnValue>)
        ensures
            !old(self).spec_attached() ==> (r matches Err(e) && e
                == DltReturnValue::DLT_RETURN_WRONG_PARAMETER && *final(self) == *old(self)),
            old(self).spec_attached() && !old(self).spec_positions_ok() ==> (r matches Err(e) && e
                == DltReturnValue::DLT_RETURN_ERROR && *final(self) == *old(self)),
            old(self).spec_attached() && old(self).spec_positions_ok() ==> ({
                let l = old(self).spec_span_bytes();
                let k = spec_recover_offset(l, 0);
                &&& r matches Ok(given_up)
                &&& given_up == k
                &&& final(self).spec_same_but_counters(old(self))
                &&& final(self).spec_write() == old(self).spec_write()
                &&& final(self).spec_read() == spec_ring_index(
                    old(self).spec_read(),
                    k,
                    old(self).size as int,
                )
                &&& final(self).spec_entries() == spec_parse_blocks(l.skip(k))
                &&& final(self).spec_entries() is Some
            }),
            old(self).spec_entries() is Some ==> (r matches Ok(given_up) && given_up == 0 && final(self).spec_entries() == old(self).spec_entries()),
    {
        if !self.is_attached() {
            return Err(DltReturnValue::DLT_RETURN_WRONG_PARAMETER);
        }
        let (write, read, count) = self.counters();
        let size = self.size;
        if write as usize >= size || read as usize >= size {
            return Err(DltReturnValue::DLT_RETURN_ERROR);
        }
        let span: usize = if write > read {
            (write - read) as usize
        } else if write < read {
            size - read as usize + write as usize
        } else if count == 0 {
            0
        } else {
            size
        };
        let ghost l = self.spec_span_bytes();
        let mut k: usize = 0;
        let mut found: u32 = 0;
        proof {
            lemma_recover_offset(l, 0);
        }
        while k < span
            invariant_except_break
                found == 0,
                spec_recover_offset(l, 0) == spec_recover_offset(l, k as int),
            invariant
                *self == *old(self),
                self.spec_attached(),
                size == self.size,
                read == self.spec_read(),
                write == self.spec_write(),
                read < size,
                write < size,
                span == self.spec_span(),
                l == self.spec_span_bytes(),
                k <= span,
            ensures
                k <= span,
                k == spec_recover_offset(l, 0),
                spec_parse_blocks(l.skip(k as int)) matches Some(q) && q.len() == found,
                found <= 178956970,
            decreases span - k,
        {
            match self.chain_from(read as usize, span, k) {
                Some(n) => {
                    found = n;
                    break ;
                },
                None => {
                    k += 1;
                },
            }
        }
        proof {
            if k == span {
                assert(l.skip(span as int) =~= Seq::<u8>::empty());
            }
        }
        let next = Self::ring_next(read as usize, k, size);
        self.set_counters(write, next as u32, found);
        proof {
            lemma_parse_len(l.skip(k as int));
            lemma_ring_skip(old(self).spec_mem(), read as int, span as int, k as int);
            if found == 0 {
                lemma_parse_none(l.skip(k as int));
                assert(self.spec_content() =~= l.skip(k as int));
            } else {
                assert(l.skip(k as int).len() >= 12);
                assert(self.spec_used() == span - k);
                assert(self.spec_content() =~= l.skip(k as int));
            }
            if old(self).spec_entries() is Some {
                assert(l =~= old(self).spec_content());
                assert(l.skip(0) =~= l);
            }
        }
        Ok(k)
    }
}

} // verus!
