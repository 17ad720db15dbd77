//! A checked model of an asynchronous I/O completion ring: submission slots,
//! provided-buffer pools and the tags that tie completions to submissions.
//!
//! The ring here holds no kernel resource. It records what a driver must be
//! told (the populated slots of the next batch) and decides what each answer
//! of the driver means (a return code, a raw completion). Whoever owns the
//! real ring performs the calls and hands their plain results in.

use std::collections::HashMap;
use crate::provided_buffers::{is_power_of_two, round_up_power_of_two};
use vstd::prelude::*;

pub mod op;
pub mod provided_buffers;

pub use op::{BgId, IOUringOp, REntrySize};
pub use provided_buffers::{
    BufferPool, HandleView, PoolView, ProvidedBuffer, Replenishment, SlotAdvert,
};

verus! {

/// use fixed fileset
pub const IOSQE_FIXED_FILE: u32 = 1;

/// issue after inflight IO
pub const IOSQE_IO_DRAIN: u32 = 2;

/// links next sqe
pub const IOSQE_IO_LINK: u32 = 4;

/// like LINK, but stronger
pub const IOSQE_IO_HARDLINK: u32 = 8;

/// always go async
pub const IOSQE_ASYNC: u32 = 16;

/// select buffer from the slot's buffer group
pub const IOSQE_BUFFER_SELECT: u32 = 32;

/// don't post a completion if the request succeeded
pub const IOSQE_CQE_SKIP_SUCCESS: u32 = 64;

/// completion flag: the upper 16 bits hold the index of the selected buffer
pub const IORING_CQE_F_BUFFER: u32 = 1;

/// completion flag: the submission will post more completions
pub const IORING_CQE_F_MORE: u32 = 2;

/// where the selected buffer's index starts in the completion flags
pub const IORING_CQE_BUFFER_SHIFT: u32 = 16;

/// Why an operation on the ring failed.
#[derive(Clone, Copy, Debug, PartialEq, Eq, Structural)]
pub enum RingError {
    /// The driver or a completion reported this operating-system error number.
    Os { errno: u32 },
    /// A buffer pool must have a power of two as its number of slots.
    SlotCountNotPowerOfTwo,
    /// The pool's storage, slot size times slot count, does not fit in 32 bits.
    PoolTooLarge,
    /// The buffer group already has a pool, and the driver did not refuse the
    /// registration of another.
    DuplicateGroup,
    /// The completion carries no provided buffer.
    NoBufferSelected,
    /// The completion hands over a buffer that its pool cannot have given:
    /// the tag names no group, the slot does not exist or is held already, or
    /// more bytes are reported than a slot holds.
    BufferMismatch,
    /// The driver made a ring of a depth that no ring has: 0, or above 2^31.
    InvalidDepth,
}

/// The error number that a negative return code stands for.
pub open spec fn errno_of(code: i32) -> u32 {
    (-(code as int)) as u32
}

impl RingError {
    /// Turns a negative return code into the error it stands for.
    pub fn from_code(code: i32) -> (e: RingError)
        requires
            code < 0,
        ensures
            e == (RingError::Os { errno: errno_of(code) }),
    {
        let below: i32 = -(code + 1);
        RingError::Os { errno: below as u32 + 1 }
    }
}

/// The request that a submission slot holds.
#[derive(Clone, Copy, Debug, PartialEq, Eq, Structural)]
pub enum SqeKind {
    Nop,
    Read,
    MultishotAccept,
    MultishotReceive,
}

/// The contents of one submission slot, as the driver must write them.
#[derive(Clone, Copy, Debug, PartialEq, Eq, Structural)]
pub struct SubmissionEntry {
    pub kind: SqeKind,
    pub fd: i32,
    /// Where the request reads into or writes from, as a number; 0 where the
    /// request names no memory of its own.
    pub addr: u64,
    pub offset: u64,
    pub len: u32,
    pub flags: u32,
    pub buf_group: BgId,
    pub user_data: u64,
}

impl SubmissionEntry {
    /// A slot as it is handed out: a no-op with every field zero.
    pub open spec fn blank() -> SubmissionEntry {
        SubmissionEntry {
            kind: SqeKind::Nop,
            fd: 0,
            addr: 0,
            offset: 0,
            len: 0,
            flags: 0,
            buf_group: 0,
            user_data: 0,
        }
    }

    /// The slot after a request of `kind` was prepared in it: the request's
    /// fields are set, flags and buffer group are cleared, the tag stays.
    pub open spec fn prepared(
        self,
        kind: SqeKind,
        fd: i32,
        addr: u64,
        len: u32,
        offset: u64,
    ) -> SubmissionEntry {
        SubmissionEntry {
            kind,
            fd,
            addr,
            offset,
            len,
            flags: 0,
            buf_group: 0,
            user_data: self.user_data,
        }
    }

    /// The slot after buffer selection from `bgid` was switched on.
    pub open spec fn selecting(self, bgid: BgId) -> SubmissionEntry {
        SubmissionEntry { flags: IOSQE_BUFFER_SELECT, buf_group: bgid, ..self }
    }

    /// The slot with `user_data` as its tag.
    pub open spec fn tagged(self, user_data: u64) -> SubmissionEntry {
        SubmissionEntry { user_data, ..self }
    }

    pub fn new() -> (e: SubmissionEntry)
        ensures
            e == Self::blank(),
    {
        SubmissionEntry {
            kind: SqeKind::Nop,
            fd: 0,
            addr: 0,
            offset: 0,
            len: 0,
            flags: 0,
            buf_group: 0,
            user_data: 0,
        }
    }
}

/// One acquired submission slot, to be populated before the next is acquired.
pub struct IOUringSqe<'a> {
    pub sqe: &'a mut SubmissionEntry,
}

impl<'a> IOUringSqe<'a> {
    /// Prepares a no-op.
    pub fn prep_nop(self) -> (out: Self)
        ensures
            *final(out.sqe) == *final(self.sqe),
            *out.sqe == old(self.sqe).prepared(SqeKind::Nop, -1i32, 0, 0, 0),
    {
        self.sqe.kind = SqeKind::Nop;
        self.sqe.fd = -1;
        self.sqe.addr = 0;
        self.sqe.offset = 0;
        self.sqe.len = 0;
        self.sqe.flags = 0;
        self.sqe.buf_group = 0;
        self
    }

    /// Prepares a read of up to `cap` bytes from `fd` at `offset` into the
    /// memory at address `addr`; 0 as the address leaves the memory to buffer
    /// selection. The length field of a slot has 32 bits: `cap` is cut to
    /// them.
    pub fn prep_read(self, fd: i32, addr: u64, cap: usize, offset: u64) -> (out: Self)
        ensures
            *final(out.sqe) == *final(self.sqe),
            *out.sqe == old(self.sqe).prepared(
                SqeKind::Read,
                fd,
                addr,
                (cap as int % 0x1_0000_0000) as u32,
                offset,
            ),
    {
        self.sqe.kind = SqeKind::Read;
        self.sqe.fd = fd;
        self.sqe.addr = addr;
        self.sqe.offset = offset;
        let low: u64 = cap as u64 % 0x1_0000_0000;
        self.sqe.len = low as u32;
        self.sqe.flags = 0;
        self.sqe.buf_group = 0;
        self
    }

    /// Prepares an accept on `sockfd` that completes once per connection.
    pub fn prep_multishot_accept(self, sockfd: i32) -> (out: Self)
        ensures
            *final(out.sqe) == *final(self.sqe),
            *out.sqe == old(self.sqe).prepared(SqeKind::MultishotAccept, sockfd, 0, 0, 0),
    {
        self.sqe.kind = SqeKind::MultishotAccept;
        self.sqe.fd = sockfd;
        self.sqe.addr = 0;
        self.sqe.offset = 0;
        self.sqe.len = 0;
        self.sqe.flags = 0;
        self.sqe.buf_group = 0;
        self
    }

    /// Prepares a receive on `sockfd` that completes once per chunk received.
    pub fn prep_multishot_receive(self, sockfd: i32) -> (out: Self)
        ensures
            *final(out.sqe) == *final(self.sqe),
            *out.sqe == old(self.sqe).prepared(SqeKind::MultishotReceive, sockfd, 0, 0, 0),
    {
        self.sqe.kind = SqeKind::MultishotReceive;
        self.sqe.fd = sockfd;
        self.sqe.addr = 0;
        self.sqe.offset = 0;
        self.sqe.len = 0;
        self.sqe.flags = 0;
        self.sqe.buf_group = 0;
        self
    }

    /// Lets the kernel pick the buffer from group `bgid`.
    pub fn select_buffer(self, bgid: BgId) -> (out: Self)
        ensures
            *final(out.sqe) == *final(self.sqe),
            *out.sqe == old(self.sqe).selecting(bgid),
    {
        self.sqe.flags = IOSQE_BUFFER_SELECT;
        self.sqe.buf_group = bgid;
        self
    }

    /// Attaches the tag that the completions of this slot will carry.
    pub fn set_user_data(self, user_data: u64) -> (out: Self)
        ensures
            *final(out.sqe) == *final(self.sqe),
            *out.sqe == old(self.sqe).tagged(user_data),
    {
        self.sqe.user_data = user_data;
        self
    }
}

/// A completion as the driver reports it.
#[derive(Clone, Copy, Debug, PartialEq, Eq, Structural)]
pub struct RawCompletion {
    pub user_data: u64,
    pub res: i32,
    pub flags: u32,
}

/// A successful completion with its tag unpacked.
#[derive(Clone, Copy, Debug, PartialEq, Eq, Structural)]
pub struct IOUringCqe {
    pub op: IOUringOp,
    pub res: i32,
    pub flags: u32,
}

/// Whether a wait that returned `ret` delivered a successful completion.
pub open spec fn completed(ret: i32, raw: RawCompletion) -> bool {
    ret >= 0 && raw.res >= 0
}

/// What a wait that returned `ret` and delivered `raw` amounts to: the wait's
/// own failure, the request's failure, or the completion with its tag.
pub open spec fn completion_outcome(ret: i32, raw: RawCompletion) -> Result<IOUringCqe, RingError> {
    if ret < 0 {
        Err(RingError::Os { errno: errno_of(ret) })
    } else if raw.res < 0 {
        Err(RingError::Os { errno: errno_of(raw.res) })
    } else {
        Ok(IOUringCqe { op: IOUringOp::decode(raw.user_data), res: raw.res, flags: raw.flags })
    }
}

impl IOUringCqe {
    /// The index of the provided buffer that the completion hands over, if it
    /// hands one over: the upper 16 bits of the flags, where the buffer flag
    /// is set.
    pub open spec fn buffer(self) -> Option<u32> {
        if self.flags & IORING_CQE_F_BUFFER != 0 {
            Some(self.flags >> IORING_CQE_BUFFER_SHIFT)
        } else {
            None
        }
    }

    /// Tells which provided buffer the completion hands over, if any.
    pub fn buffer_id(&self) -> (id: Option<u32>)
        ensures
            id == self.buffer(),
    {
        if self.flags & IORING_CQE_F_BUFFER != 0 {
            Some(self.flags >> IORING_CQE_BUFFER_SHIFT)
        } else {
            None
        }
    }

    /// Tells whether the submission goes on: a multishot operation whose
    /// completion lacks this flag has ended and posts no more.
    pub fn has_more(&self) -> (more: bool)
        ensures
            more == (self.flags & IORING_CQE_F_MORE != 0),
    {
        self.flags & IORING_CQE_F_MORE != 0
    }

    /// Decides what one answer of the driver's wait means.
    pub fn from_raw(ret: i32, raw: RawCompletion) -> (out: Result<IOUringCqe, RingError>)
        requires
            completed(ret, raw) ==> IOUringOp::is_encoding(raw.user_data),
        ensures
            out == completion_outcome(ret, raw),
            out.is_ok() == completed(ret, raw),
            out.is_ok() ==> out.unwrap().res >= 0,
    {
        if ret < 0 {
            Err(RingError::from_code(ret))
        } else if raw.res < 0 {
            Err(RingError::from_code(raw.res))
        } else {
            Ok(IOUringCqe { op: IOUringOp::from_u64(raw.user_data), res: raw.res, flags: raw.flags })
        }
    }
}

/// The ring as contracts see it.
pub struct RingView {
    /// Depth of the submission queue.
    pub capacity: nat,
    /// The slots acquired since the last submit, in order of acquisition.
    pub pending: Seq<SubmissionEntry>,
    /// The registered buffer pools by group.
    pub pools: Map<BgId, PoolView>,
}

impl RingView {
    /// No more slots are pending than the queue is deep, and every pool is
    /// well formed.
    pub open spec fn wf(self) -> bool {
        &&& self.pending.len() <= self.capacity
        &&& forall|g: BgId| #[trigger] self.pools.contains_key(g) ==> self.pools[g].wf()
    }

    /// The ring with other pending slots.
    pub open spec fn with_pending(self, pending: Seq<SubmissionEntry>) -> RingView {
        RingView { pending, ..self }
    }

    /// The ring with `pool` as the pool of group `bgid`.
    pub open spec fn with_pool(self, bgid: BgId, pool: PoolView) -> RingView {
        RingView { pools: self.pools.insert(bgid, pool), ..self }
    }
}

/// A ring: its submission queue and its buffer pools.
pub struct IOUring {
    pub(crate) capacity: u32,
    pub(crate) sq: Vec<SubmissionEntry>,
    pub(crate) buffer_groups: HashMap<BgId, BufferPool>,
}

impl View for IOUring {
    type V = RingView;

    open(crate) spec fn view(&self) -> RingView {
        RingView {
            capacity: self.capacity as nat,
            pending: self.sq@,
            pools: Map::new(
                |g: BgId| self.buffer_groups@.contains_key(g),
                |g: BgId| self.buffer_groups@[g]@,
            ),
        }
    }
}

impl IOUring {
    /// No more slots are pending than the queue is deep, and every pool is
    /// well formed.
    pub open(crate) spec fn wf(&self) -> bool {
        &&& self.sq@.len() <= self.capacity
        &&& forall|g: BgId| #[trigger]
            self.buffer_groups@.contains_key(g) ==> self.buffer_groups@[g].wf()
    }

    /// A well-formed ring is well formed as contracts see it: the pending
    /// slots fit the queue, every pool has a power of two as its slot count,
    /// storage within 32 bits, and only slots that exist among the available.
    pub proof fn lemma_view_wf(&self)
        requires
            self.wf(),
        ensures
            self@.wf(),
    {
        assert forall|g: BgId| #[trigger] self@.pools.contains_key(g) implies self@.pools[g].wf() by {
            assert(self.buffer_groups@.contains_key(g));
            self.buffer_groups@[g].lemma_view_wf();
        }
    }

    /// Sets up the ring's bookkeeping from the driver's answer `ret` to the
    /// creation of a ring for `size` submissions. A negative `ret` is the
    /// driver's refusal, whatever the size. Where the driver did not refuse, a
    /// size of 0 or above 2^31 is `InvalidDepth`: no queue is that deep. Else
    /// the driver has made the queue as deep as the least power of two that is
    /// no less than `size`, and so deep is the ring.
    pub fn new(size: u32, ret: i32) -> (out: Result<IOUring, RingError>)
        ensures
            ret < 0 ==> out == Err::<IOUring, RingError>(RingError::Os { errno: errno_of(ret) }),
            ret >= 0 && (size == 0 || size > 0x8000_0000) ==> out == Err::<IOUring, RingError>(
                RingError::InvalidDepth,
            ),
            0 < size <= 0x8000_0000 && ret >= 0 ==> {
                &&& out.is_ok()
                &&& out.unwrap().wf()
                &&& is_power_of_two(out.unwrap()@.capacity)
                &&& size <= out.unwrap()@.capacity < 2 * size
                &&& out.unwrap()@.pending == Seq::<SubmissionEntry>::empty()
                &&& out.unwrap()@.pools == Map::<BgId, PoolView>::empty()
            },
    {
        broadcast use vstd::std_specs::hash::group_hash_axioms;

        if ret < 0 {
            return Err(RingError::from_code(ret));
        }
        if size == 0 || size > 0x8000_0000 {
            return Err(RingError::InvalidDepth);
        }
        let ring = IOUring {
            capacity: round_up_power_of_two(size),
            sq: Vec::new(),
            buffer_groups: HashMap::new(),
        };
        assert(ring@.pools =~= Map::empty());
        Ok(ring)
    }

    /// Depth of the submission queue.
    pub fn capacity(&self) -> (n: u32)
        ensures
            n == self@.capacity,
    {
        self.capacity
    }

    /// Number of slots acquired since the last submit.
    pub fn pending(&self) -> (n: usize)
        ensures
            n == self@.pending.len(),
    {
        self.sq.len()
    }

    /// The contents of the `i`-th pending slot.
    pub fn entry(&self, i: usize) -> (e: SubmissionEntry)
        requires
            i < self@.pending.len(),
        ensures
            e == self@.pending[i as int],
    {
        self.sq[i]
    }

    /// Acquires the next submission slot, blank, or `None` where the queue is
    /// full. What the caller writes into the slot is what the ring holds.
    pub fn get_sqe(&mut self) -> (slot: Option<IOUringSqe<'_>>)
        requires
            old(self).wf(),
        ensures
            final(self).wf(),
            slot.is_some() == (old(self)@.pending.len() < old(self)@.capacity),
            slot.is_none() ==> final(self)@ == old(self)@,
            slot.is_some() ==> *slot.unwrap().sqe == SubmissionEntry::blank(),
            slot.is_some() ==> final(self)@ == old(self)@.with_pending(
                old(self)@.pending.push(*final(slot.unwrap().sqe)),
            ),
    {
        let n: usize = self.sq.len();
        if n < self.capacity as usize {
            self.sq.push(SubmissionEntry::new());
            assert(self.sq@ =~= old(self).sq@.push(SubmissionEntry::blank()));
            assert forall|e: SubmissionEntry|
                #[trigger] self.sq@.update(n as int, e) =~= old(self).sq@.push(e) by {}
            Some(IOUringSqe { sqe: &mut self.sq[n] })
        } else {
            None
        }
    }

    /// Hands pending slots off, given the driver's answer `ret` to their
    /// submission. A negative `ret` is the batch rejected: the slots stay
    /// pending. Otherwise `ret` is the number of slots that the driver took,
    /// the oldest first: they leave, the others stay pending. The driver
    /// cannot take more slots than are pending.
    pub fn submit(&mut self, ret: i32) -> (out: Result<u32, RingError>)
        requires
            old(self).wf(),
            ret <= old(self)@.pending.len(),
        ensures
            final(self).wf(),
            ret < 0 ==> out == Err::<u32, RingError>(RingError::Os { errno: errno_of(ret) })
                && final(self)@ == old(self)@,
            ret >= 0 ==> out == Ok::<u32, RingError>(ret as u32) && final(self)@ == old(
                self,
            )@.with_pending(old(self)@.pending.skip(ret as int)),
    {
        if ret < 0 {
            return Err(RingError::from_code(ret));
        }
        let n: usize = self.sq.len();
        let mut rest: Vec<SubmissionEntry> = Vec::new();
        let mut i: usize = ret as usize;
        while i < n
            invariant
                n == self.sq@.len(),
                0 <= ret <= i <= n,
                rest@ =~= self.sq@.subrange(ret as int, i as int),
            decreases n - i,
        {
            rest.push(self.sq[i]);
            i = i + 1;
        }
        assert(rest@ =~= self.sq@.skip(ret as int));
        self.sq = rest;
        Ok(ret as u32)
    }

    /// Queues a read from `fd` at `offset` into a buffer that the kernel picks
    /// from group `bgid`. The slot's tag is `Recv { sockfd: fd, bgid }`, so
    /// that the completion names the group whose buffer it hands over.
    pub fn prep_read(&mut self, fd: i32, offset: u64, bgid: BgId)
        requires
            old(self).wf(),
            old(self)@.pending.len() < old(self)@.capacity,
        ensures
            final(self).wf(),
            final(self)@ == old(self)@.with_pending(
                old(self)@.pending.push(
                    SubmissionEntry::blank().prepared(SqeKind::Read, fd, 0, 0, offset).tagged(
                        (IOUringOp::Recv { sockfd: fd, bgid }).encode() as u64,
                    ).selecting(bgid),
                ),
            ),
    {
        let tag: u64 = (IOUringOp::Recv { sockfd: fd, bgid }).into_u64();
        match self.get_sqe() {
            Some(sqe) => {
                let _ = sqe.prep_read(fd, 0, 0, offset).set_user_data(tag).select_buffer(bgid);
            },
            None => {},
        }
    }

    /// Queues an accept on `sockfd` that completes once per connection.
    pub fn prep_multishot_accept(&mut self, sockfd: i32)
        requires
            old(self).wf(),
            old(self)@.pending.len() < old(self)@.capacity,
        ensures
            final(self).wf(),
            final(self)@ == old(self)@.with_pending(
                old(self)@.pending.push(
                    SubmissionEntry::blank().prepared(SqeKind::MultishotAccept, sockfd, 0, 0, 0),
                ),
            ),
    {
        match self.get_sqe() {
            Some(sqe) => {
                let _ = sqe.prep_multishot_accept(sockfd);
            },
            None => {},
        }
    }

    /// Queues a receive on `sockfd` that completes once per chunk, each chunk
    /// in a buffer from group `bgid`. The slot's tag is `Recv { sockfd, bgid }`.
    pub fn prep_multishot_receive(&mut self, sockfd: i32, bgid: BgId)
        requires
            old(self).wf(),
            old(self)@.pending.len() < old(self)@.capacity,
        ensures
            final(self).wf(),
            final(self)@ == old(self)@.with_pending(
                old(self)@.pending.push(
                    SubmissionEntry::blank().prepared(SqeKind::MultishotReceive, sockfd, 0, 0, 0).tagged(
                        (IOUringOp::Recv { sockfd, bgid }).encode() as u64,
                    ).selecting(bgid),
                ),
            ),
    {
        let tag: u64 = (IOUringOp::Recv { sockfd, bgid }).into_u64();
        match self.get_sqe() {
            Some(sqe) => {
                let _ = sqe.prep_multishot_receive(sockfd).set_user_data(tag).select_buffer(bgid);
            },
            None => {},
        }
    }

    /// Decides what one answer of the driver's wait means. The ring is left as
    /// it was, whatever the answer: a failed request fails alone.
    pub fn wait_cqe(&mut self, ret: i32, raw: RawCompletion) -> (out: Result<IOUringCqe, RingError>)
        requires
            completed(ret, raw) ==> IOUringOp::is_encoding(raw.user_data),
        ensures
            out == completion_outcome(ret, raw),
            out.is_ok() == completed(ret, raw),
            out.is_ok() ==> out.unwrap().res >= 0,
            *final(self) == *old(self),
    {
        IOUringCqe::from_raw(ret, raw)
    }
}

} // verus!
