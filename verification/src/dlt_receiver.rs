use vstd::prelude::*;
use libc::c_int;
use crate::dlt_types::DltReturnValue;

verus! {

/// Bytes of the header that stands before each message between a client and the daemon.
pub const DLT_USER_HEADER_SIZE: usize = 8;

/// The structure is used to organise the receiving of data
/// including buffer handling.
#[derive(Debug, Clone, PartialEq, Eq)]
pub struct DltReceiver {
    /// Bytes received in last receive call
    pub lastBytesRcvd: usize,
    /// Received bytes
    pub bytesRcvd: usize,
    /// Total number of received bytes
    pub totalBytesRcvd: u64,
    /// The receiver buffer
    pub buffer: Vec<u8>,
    /// Position within' the receiver buffer
    pub buf: usize,
    /// Connection handle
    pub fd: c_int,
    /// Size of receiver buffer
    pub buffersize: usize,
}

impl View for DltReceiver {
    type V = Seq<u8>;

    /// The bytes that wait in the buffer, oldest first.
    open spec fn view(&self) -> Seq<u8> {
        self.buffer@.subrange(self.buf as int, self.buf + self.bytesRcvd)
    }
}

impl DltReceiver {
    /// A receiver is well formed when its buffer has the size it was made with and the
    /// bytes that wait lie within it.
    pub open spec fn wf(&self) -> bool {
        &&& self.buffer@.len() == self.buffersize
        &&& self.buf + self.bytesRcvd <= self.buffersize
    }

    /// Whether the receiver is well formed.
    pub fn is_wf(&self) -> (ok: bool)
        ensures
            ok == self.wf(),
    {
        self.buffer.len() == self.buffersize && self.buf <= self.buffersize && self.bytesRcvd
            <= self.buffersize - self.buf
    }

    /// Bytes that the buffer can take behind those that wait.
    pub open spec fn spec_free(&self) -> int {
        self.buffersize - self.buf - self.bytesRcvd
    }

    /// The sum of two counts, held at the largest 64-bit number.
    pub open spec fn spec_total(total: u64, n: int) -> u64 {
        if total + n > u64::MAX {
            u64::MAX
        } else {
            (total + n) as u64
        }
    }

    /// A receiver for the connection `fd` with an empty buffer of `buffersize` bytes.
    pub fn init(fd: c_int, buffersize: usize) -> (receiver: DltReceiver)
        ensures
            receiver.wf(),
            receiver@.len() == 0,
            receiver.fd == fd,
            receiver.buffersize == buffersize,
            receiver.buf == 0,
            receiver.lastBytesRcvd == 0,
            receiver.totalBytesRcvd == 0,
            receiver.buffer@ == Seq::new(buffersize as nat, |i: int| 0u8),
    {
        let mut buffer: Vec<u8> = Vec::with_capacity(buffersize);
        let mut i: usize = 0;
        while i < buffersize
            invariant
                i <= buffersize,
                buffer@ == Seq::new(i as nat, |i: int| 0u8),
            decreases buffersize - i,
        {
            buffer.push(0);
            i += 1;
            assert(buffer@ =~= Seq::new(i as nat, |i: int| 0u8));
        }
        DltReceiver {
            lastBytesRcvd: 0,
            bytesRcvd: 0,
            totalBytesRcvd: 0,
            buffer,
            buf: 0,
            fd,
            buffersize,
        }
    }

    /// Bytes that the next call of `receive` can take.
    pub fn free_space(&self) -> (free: usize)
        requires
            self.wf(),
        ensures
            free == self.spec_free(),
    {
        self.buffersize - self.buf - self.bytesRcvd
    }

    /// Takes bytes that were read from the connection and puts them behind those that
    /// wait. Where `data` is longer than the free space, only its first bytes are taken.
    /// Gives the number of bytes taken.
    pub fn receive(&mut self, data: &[u8]) -> (taken: usize)
        requires
            old(self).wf(),
        ensures
            final(self).wf(),
            taken == (if data@.len() <= old(self).spec_free() {
                data@.len() as int
            } else {
                old(self).spec_free()
            }),
            final(self)@ == old(self)@ + data@.subrange(0, taken as int),
            final(self).lastBytesRcvd == taken,
            final(self).totalBytesRcvd == Self::spec_total(
                old(self).totalBytesRcvd,
                taken as int,
            ),
            final(self).buf == old(self).buf,
            final(self).fd == old(self).fd,
            final(self).buffersize == old(self).buffersize,
    {
        let free = self.free_space();
        let taken = if data.len() <= free {
            data.len()
        } else {
            free
        };
        let start = self.buf + self.bytesRcvd;
        let mut i: usize = 0;
        while i < taken
            invariant
                i <= taken <= data@.len(),
                start + taken <= self.buffersize,
                start == self.buf + self.bytesRcvd,
                self.buffer@.len() == self.buffersize,
                self.buf == old(self).buf,
                self.bytesRcvd == old(self).bytesRcvd,
                self.fd == old(self).fd,
                self.buffersize == old(self).buffersize,
                self.totalBytesRcvd == old(self).totalBytesRcvd,
                self.buffer@.subrange(self.buf as int, start + i) == old(self)@ + data@.subrange(
                    0,
                    i as int,
                ),
            decreases taken - i,
        {
            let ghost before = self.buffer@;
            self.buffer[start + i] = data[i];
            i += 1;
            assert(self.buffer@.subrange(self.buf as int, start + i) =~= before.subrange(
                self.buf as int,
                start + i - 1,
            ).push(data@[i - 1]));
            assert(self.buffer@.subrange(self.buf as int, start + i) =~= old(self)@
                + data@.subrange(0, i as int));
        }
        self.bytesRcvd = self.bytesRcvd + taken;
        self.lastBytesRcvd = taken;
        self.totalBytesRcvd = if taken as u64 > u64::MAX - self.totalBytesRcvd {
            u64::MAX
        } else {
            self.totalBytesRcvd + taken as u64
        };
        taken
    }

    /// Copies out `to_get` of the bytes that wait, leaving them in the buffer: the first
    /// ones, or with `skip_header` those behind the first `DLT_USER_HEADER_SIZE` bytes.
    /// Gives `None` where fewer bytes wait than that takes.
    pub fn check_and_get(&self, to_get: usize, skip_header: bool) -> (r: Option<Vec<u8>>)
        requires
            self.wf(),
        ensures
            ({
                let skip: int = if skip_header {
                    8
                } else {
                    0
                };
                match r {
                    Some(bytes) => skip + to_get <= self@.len() && bytes@ == self@.subrange(
                        skip,
                        skip + to_get,
                    ),
                    None => skip + to_get > self@.len(),
                }
            }),
    {
        let skip: usize = if skip_header {
            DLT_USER_HEADER_SIZE
        } else {
            0
        };
        if self.bytesRcvd < skip || self.bytesRcvd - skip < to_get {
            return None;
        }
        let from = self.buf + skip;
        let mut bytes: Vec<u8> = Vec::with_capacity(to_get);
        let mut i: usize = 0;
        while i < to_get
            invariant
                self.wf(),
                i <= to_get,
                from == self.buf + skip,
                skip + to_get <= self.bytesRcvd,
                bytes@ == self@.subrange(skip as int, skip + i),
            decreases to_get - i,
        {
            bytes.push(self.buffer[from + i]);
            i += 1;
            assert(bytes@ =~= self@.subrange(skip as int, skip + i));
        }
        Some(bytes)
    }

    /// Drops the first `size` of the bytes that wait. Fails with
    /// `DLT_RETURN_WRONG_PARAMETER`, changing nothing, where fewer bytes wait.
    pub fn remove(&mut self, size: usize) -> (r: DltReturnValue)
        requires
            old(self).wf(),
        ensures
            final(self).wf(),
            size <= old(self)@.len() ==> r == DltReturnValue::DLT_RETURN_OK && final(self)@ == old(self)@.skip(size as int) && final(self).buf == old(self).buf + size,
            size > old(self)@.len() ==> r == DltReturnValue::DLT_RETURN_WRONG_PARAMETER && *final(self) == *old(self),
            final(self).lastBytesRcvd == old(self).lastBytesRcvd,
            final(self).totalBytesRcvd == old(self).totalBytesRcvd,
            final(self).fd == old(self).fd,
            final(self).buffersize == old(self).buffersize,
            final(self).buffer@ == old(self).buffer@,
    {
        if size > self.bytesRcvd {
            return DltReturnValue::DLT_RETURN_WRONG_PARAMETER;
        }
        self.bytesRcvd = self.bytesRcvd - size;
        self.buf = self.buf + size;
        assert(self@ =~= old(self)@.skip(size as int));
        DltReturnValue::DLT_RETURN_OK
    }

    /// Moves the bytes that wait to the start of the buffer, in their order, so that all
    /// the free space lies behind them.
    pub fn move_to_begin(&mut self) -> (r: DltReturnValue)
        requires
            old(self).wf(),
        ensures
            final(self).wf(),
            r == DltReturnValue::DLT_RETURN_OK,
            final(self)@ == old(self)@,
            final(self).buf == 0,
            final(self).spec_free() == old(self).buffersize - old(self)@.len(),
            final(self).lastBytesRcvd == old(self).lastBytesRcvd,
            final(self).totalBytesRcvd == old(self).totalBytesRcvd,
            final(self).fd == old(self).fd,
            final(self).buffersize == old(self).buffersize,
    {
        let from = self.buf;
        let n = self.bytesRcvd;
        if from != 0 {
            let ghost orig = self.buffer@;
            let mut i: usize = 0;
            while i < n
                invariant
                    i <= n,
                    from > 0,
                    from + n <= self.buffersize,
                    self.buffer@.len() == self.buffersize,
                    orig.len() == self.buffersize,
                    self.buf == from,
                    self.bytesRcvd == n,
                    self.lastBytesRcvd == old(self).lastBytesRcvd,
                    self.totalBytesRcvd == old(self).totalBytesRcvd,
                    self.fd == old(self).fd,
                    self.buffersize == old(self).buffersize,
                    forall|k: int| 0 <= k < i ==> self.buffer@[k] == orig[from + k],
                    forall|k: int| from + i <= k < from + n ==> self.buffer@[k] == orig[k],
                decreases n - i,
            {
                let byte = self.buffer[from + i];
                self.buffer[i] = byte;
                i += 1;
            }
            self.buf = 0;
            assert(self@ =~= old(self)@);
        }
        DltReturnValue::DLT_RETURN_OK
    }

    /// Gives up the receiver and hands out its buffer.
    pub fn free(self) -> (buffer: Vec<u8>)
        ensures
            buffer@ == self.buffer@,
    {
        self.buffer
    }
}

} // verus!
