use vstd::prelude::*;
use libc::{c_int, c_uint};
use crate::dlt_buffer::{spec_block_head, DltBuffer, DLT_BUFFER_BLOCK_READY, DLT_SHM_HEAD};
use crate::dlt_bytes::{
    i32_from_bits, read_u32, spec_i32_bits, spec_i32_from_bits, spec_u32_from_le, spec_u32_le,
};
use crate::dlt_types::DltReturnValue;

verus! {

/// Shared memory key.
/// Must be the same for server and client
pub const DLT_SHM_KEY: c_uint = 11771;

/// Default size of shared memory.
/// Size is extended during creation to fit segment size.
/// Client retrieves real size from shm buffer
pub const DLT_SHM_SIZE: c_uint = 100000;

/// ID of the used semaphore.
/// Used for synchronisation of write and read access of multiple clients and server.
/// Must be the same for server and client
pub const DLT_SHM_SEM: c_uint = 22771;

/// A ring buffer in memory that a server and its clients share, with the ids under which
/// the memory and the semaphore that guards it are known.
#[derive(Debug, Clone)]
pub struct DltShm {
    /// ID of shared memory
    pub shmid: c_int,
    /// ID of semaphore
    pub semid: c_int,
    pub buffer: DltBuffer,
}

/// The head that stands before each entry of a ring buffer.
#[derive(Debug, Clone, Copy, PartialEq, Eq)]
pub struct DltShmBlockHead {
    pub head: [u8; 4],
    pub status: u8,
    pub size: i32,
}

impl DltShmBlockHead {
    /// The twelve bytes of the head: the marker, the status, three zero bytes, and the
    /// size with its least significant byte first.
    pub open spec fn spec_bytes(self) -> Seq<u8> {
        self.head@ + seq![self.status, 0u8, 0u8, 0u8] + spec_u32_le(spec_i32_bits(self.size))
    }

    /// Whether the head is that of an entry that is completely written.
    pub open spec fn spec_ready(self) -> bool {
        self.head@ == DLT_SHM_HEAD@ && self.status == DLT_BUFFER_BLOCK_READY && self.size >= 0
    }

    /// The head of a completely written entry of `size` bytes.
    pub fn ready(size: u32) -> (head: DltShmBlockHead)
        requires
            size <= 0x7fff_ffff,
        ensures
            head.spec_ready(),
            head.size == size,
            head.spec_bytes() == spec_block_head(size),
    {
        let head = DltShmBlockHead {
            head: DLT_SHM_HEAD,
            status: DLT_BUFFER_BLOCK_READY,
            size: size as i32,
        };
        assert(head.spec_bytes() =~= spec_block_head(size));
        head
    }

    /// Whether the head is that of an entry that is completely written.
    pub fn is_ready(&self) -> (ready: bool)
        ensures
            ready == self.spec_ready(),
    {
        let ready = self.head[0] == DLT_SHM_HEAD[0] && self.head[1] == DLT_SHM_HEAD[1]
            && self.head[2] == DLT_SHM_HEAD[2] && self.head[3] == DLT_SHM_HEAD[3] && self.status
            == DLT_BUFFER_BLOCK_READY && self.size >= 0;
        proof {
            if self.head@ == DLT_SHM_HEAD@ {
                assert(self.head@[0] == DLT_SHM_HEAD@[0]);
            }
            if ready {
                assert(self.head@ =~= DLT_SHM_HEAD@);
            }
        }
        ready
    }

    /// Reads a head from the first twelve bytes of `bytes`; `None` where there are fewer.
    pub fn from_bytes(bytes: &[u8]) -> (r: Option<DltShmBlockHead>)
        ensures
            bytes@.len() < 12 ==> r is None,
            bytes@.len() >= 12 ==> (r matches Some(h) && h.head@ == bytes@.subrange(0, 4) && h.status
                == bytes@[4] && h.size == spec_i32_from_bits(
                spec_u32_from_le(bytes@.subrange(8, 12)),
            )),
    {
        if bytes.len() < 12 {
            return None;
        }
        let head = [bytes[0], bytes[1], bytes[2], bytes[3]];
        assert(head@ =~= bytes@.subrange(0, 4));
        Some(
            DltShmBlockHead {
                head,
                status: bytes[4],
                size: i32_from_bits(read_u32(bytes, 8, false)),
            },
        )
    }
}

impl DltShm {
    /// Sets up the shared ring buffer on the side of the server: the region is cleared, so
    /// that the buffer is empty. Fails as `DltBuffer::init_static_server` does.
    pub fn init_server(shmid: c_int, semid: c_int, region: Vec<u8>) -> (r: Result<
        DltShm,
        DltReturnValue,
    >)
        ensures
            12 < region@.len() <= 12 + 0x7fff_ffff ==> (r matches Ok(shm) && {
                &&& shm.shmid == shmid
                &&& shm.semid == semid
                &&& shm.buffer.spec_entries() == Some(Seq::<Seq<u8>>::empty())
                &&& shm.buffer.shm@ == Seq::new(region@.len(), |i: int| 0u8)
                &&& shm.buffer.size == region@.len() - 12
                &&& shm.buffer.min_size == region@.len()
                &&& shm.buffer.max_size == region@.len()
                &&& shm.buffer.step_size == 0
            }),
            !(12 < region@.len() <= 12 + 0x7fff_ffff) ==> (r matches Err(e) && e
                == DltReturnValue::DLT_RETURN_WRONG_PARAMETER),
    {
        match DltBuffer::init_static_server(region) {
            Ok(buffer) => Ok(DltShm { shmid, semid, buffer }),
            Err(e) => Err(e),
        }
    }

    /// Sets up the shared ring buffer on the side of a client: the region is taken as it
    /// is, counters and data. Fails as `DltBuffer::init_static_client` does.
    pub fn init_client(shmid: c_int, semid: c_int, region: Vec<u8>) -> (r: Result<
        DltShm,
        DltReturnValue,
    >)
        ensures
            12 < region@.len() <= 12 + 0x7fff_ffff ==> (r matches Ok(shm) && {
                &&& shm.shmid == shmid
                &&& shm.semid == semid
                &&& shm.buffer.spec_attached()
                &&& shm.buffer.shm@ == region@
                &&& shm.buffer.size == region@.len() - 12
                &&& shm.buffer.min_size == region@.len()
                &&& shm.buffer.max_size == region@.len()
                &&& shm.buffer.step_size == 0
            }),
            !(12 < region@.len() <= 12 + 0x7fff_ffff) ==> (r matches Err(e) && e
                == DltReturnValue::DLT_RETURN_WRONG_PARAMETER),
    {
        match DltBuffer::init_static_client(region) {
            Ok(buffer) => Ok(DltShm { shmid, semid, buffer }),
            Err(e) => Err(e),
        }
    }

    /// Detaches from the shared memory and hands the region back as it stands.
    pub fn free(self) -> (region: Vec<u8>)
        ensures
            region@ == self.buffer.shm@,
    {
        self.buffer.free_static()
    }
}

} // verus!
