//! Provided buffers: pools of equal slots that the kernel picks from, and the
//! handle that stands for one slot while the application holds it.

use crate::op::{BgId, IOUringOp, REntrySize};
use crate::{completed, completion_outcome, IOUring, IOUringCqe, RawCompletion, RingError, RingView};
use crate::{IORING_CQE_BUFFER_SHIFT, IORING_CQE_F_BUFFER};
use vstd::prelude::*;

verus! {

/// Two to the power `k`.
pub open spec fn pow2(k: nat) -> nat
    decreases k,
{
    if k == 0 {
        1
    } else {
        2 * pow2((k - 1) as nat)
    }
}

/// Whether `n` is a power of two: 1, 2, 4, 8 and so on.
pub open spec fn is_power_of_two(n: nat) -> bool {
    exists|k: nat| pow2(k) == n
}

/// Powers of two grow with the exponent.
pub proof fn lemma_pow2_monotone(a: nat, b: nat)
    requires
        a <= b,
    ensures
        0 < pow2(a) <= pow2(b),
    decreases b,
{
    if a < b {
        lemma_pow2_monotone(a, (b - 1) as nat);
    } else if a > 0 {
        lemma_pow2_monotone((a - 1) as nat, (a - 1) as nat);
    }
}

/// Tells whether `n` is a power of two.
pub fn power_of_two(n: u32) -> (yes: bool)
    ensures
        yes == is_power_of_two(n as nat),
{
    let mut p: u64 = 1;
    let mut k: u32 = 0;
    while p < n as u64
        invariant
            k < p,
            p <= 0x2_0000_0000,
            p == pow2(k as nat),
            forall|j: nat| j < k ==> pow2(j) != n,
        decreases 0x2_0000_0000 - p,
    {
        proof {
            assert forall|j: nat| j < k + 1 implies pow2(j) != n by {
                lemma_pow2_monotone(j, k as nat);
            }
        }
        p = p * 2;
        k = k + 1;
    }
    proof {
        if p != n {
            assert forall|j: nat| pow2(j) != n by {
                if j >= k {
                    lemma_pow2_monotone(k as nat, j);
                }
            }
        }
    }
    p == n as u64
}

/// Between `n` and twice `n` lies at most one power of two: the least power
/// of two that is no less than `n` is determined by `n`.
pub proof fn lemma_power_of_two_unique(n: nat, a: nat, b: nat)
    requires
        is_power_of_two(a),
        is_power_of_two(b),
        n <= a < 2 * n,
        n <= b < 2 * n,
    ensures
        a == b,
{
    let i = choose|k: nat| pow2(k) == a;
    let j = choose|k: nat| pow2(k) == b;
    if i < j {
        lemma_pow2_monotone(i + 1, j);
    } else if j < i {
        lemma_pow2_monotone(j + 1, i);
    }
}

/// The least power of two that is no less than `n`.
pub fn round_up_power_of_two(n: u32) -> (p: u32)
    requires
        0 < n <= 0x8000_0000,
    ensures
        is_power_of_two(p as nat),
        n <= p < 2 * n,
{
    let mut p: u32 = 1;
    let ghost mut k: nat = 0;
    while p < n
        invariant
            0 < n <= 0x8000_0000,
            p >= 1,
            p == pow2(k),
            p < 2 * n,
        decreases 0x1_0000_0000 - p,
    {
        p = p * 2;
        proof {
            k = k + 1;
        }
    }
    p
}

/// The number of bytes of a pool's storage.
pub fn storage_len(slot_size: REntrySize, slot_count: u32) -> (n: usize)
    requires
        slot_size * slot_count <= u32::MAX,
    ensures
        n == slot_size * slot_count,
{
    let n: u32 = slot_size * slot_count;
    n as usize
}

/// A pool as contracts see it.
pub struct PoolView {
    pub slot_size: nat,
    pub slot_count: nat,
    /// The indices of the slots that the kernel may write into.
    pub available: Set<int>,
}

impl PoolView {
    /// A pool right after registration: every slot is available.
    pub open spec fn seeded(slot_size: nat, slot_count: nat) -> PoolView {
        PoolView { slot_size, slot_count, available: Set::new(|i: int| 0 <= i < slot_count) }
    }

    /// The slot count is a power of two, the storage fits in 32 bits, and only
    /// slots that exist are available.
    pub open spec fn wf(self) -> bool {
        &&& is_power_of_two(self.slot_count)
        &&& self.slot_size * self.slot_count <= u32::MAX
        &&& forall|i: int| self.available.contains(i) ==> 0 <= i < self.slot_count
    }

    /// The pool after slot `idx` went to the application.
    pub open spec fn checkout(self, idx: int) -> PoolView {
        PoolView { available: self.available.remove(idx), ..self }
    }

    /// The pool after slot `idx` came back.
    pub open spec fn release(self, idx: int) -> PoolView {
        PoolView { available: self.available.insert(idx), ..self }
    }

    /// The pool after the slots `idxs` went to the application, one by one.
    pub open spec fn checkout_all(self, idxs: Seq<int>) -> PoolView
        decreases idxs.len(),
    {
        if idxs.len() == 0 {
            self
        } else {
            self.checkout_all(idxs.drop_last()).checkout(idxs.last())
        }
    }

    /// The pool after the slots `idxs` came back, one by one.
    pub open spec fn release_all(self, idxs: Seq<int>) -> PoolView
        decreases idxs.len(),
    {
        if idxs.len() == 0 {
            self
        } else {
            self.release_all(idxs.drop_last()).release(idxs.last())
        }
    }
}

/// A registered pool: its geometry, and for each slot whether the kernel owns
/// it (`true`) or the application holds it (`false`).
pub struct BufferPool {
    slot_size: u32,
    slot_count: u32,
    available: Vec<bool>,
}

impl View for BufferPool {
    type V = PoolView;

    closed spec fn view(&self) -> PoolView {
        PoolView {
            slot_size: self.slot_size as nat,
            slot_count: self.slot_count as nat,
            available: Set::new(|i: int| 0 <= i < self.available@.len() && self.available@[i]),
        }
    }
}

impl BufferPool {
    /// One flag per slot, a power of two of them, and the storage fits in 32
    /// bits.
    pub closed spec fn wf(&self) -> bool {
        &&& self.available@.len() == self.slot_count
        &&& is_power_of_two(self.slot_count as nat)
        &&& self.slot_size * self.slot_count <= u32::MAX
    }

    /// A well-formed pool is well formed as contracts see it.
    pub proof fn lemma_view_wf(&self)
        requires
            self.wf(),
        ensures
            self@.wf(),
    {
    }

    /// A fresh pool with every slot available to the kernel.
    pub fn new(slot_size: REntrySize, slot_count: u32) -> (pool: BufferPool)
        requires
            is_power_of_two(slot_count as nat),
            slot_size * slot_count <= u32::MAX,
        ensures
            pool.wf(),
            pool@ == PoolView::seeded(slot_size as nat, slot_count as nat),
    {
        let mut available: Vec<bool> = Vec::new();
        let mut i: u32 = 0;
        while i < slot_count
            invariant
                i <= slot_count,
                available@.len() == i,
                forall|j: int| 0 <= j < i ==> available@[j],
            decreases slot_count - i,
        {
            available.push(true);
            i = i + 1;
        }
        let pool = BufferPool { slot_size, slot_count, available };
        assert(pool@.available =~= PoolView::seeded(slot_size as nat, slot_count as nat).available);
        pool
    }

    /// Tells whether the kernel may write into slot `idx`.
    pub fn is_available(&self, idx: u32) -> (yes: bool)
        requires
            self.wf(),
        ensures
            yes == self@.available.contains(idx as int),
    {
        if idx < self.slot_count {
            self.available[idx as usize]
        } else {
            false
        }
    }

    /// Marks slot `idx` as held by the application (`false`) or as available
    /// to the kernel (`true`).
    pub fn mark(&mut self, idx: u32, available: bool)
        requires
            old(self).wf(),
            idx < old(self)@.slot_count,
        ensures
            final(self).wf(),
            final(self)@ == if available {
                old(self)@.release(idx as int)
            } else {
                old(self)@.checkout(idx as int)
            },
    {
        self.available[idx as usize] = available;
        assert(self@.available =~= if available {
            old(self)@.available.insert(idx as int)
        } else {
            old(self)@.available.remove(idx as int)
        });
    }
}

/// A handle as contracts see it.
pub struct HandleView {
    pub bgid: BgId,
    pub idx: nat,
    pub len: nat,
    pub slot_size: nat,
    pub slot_count: nat,
}

/// One slot of a pool while the application holds it: which slot of which
/// group, and how many of its bytes the kernel filled.
#[derive(Debug)]
pub struct ProvidedBuffer {
    bgid: BgId,
    len: usize,
    rentry_size: REntrySize,
    rentries: u32,
    idx: u32,
}

impl View for ProvidedBuffer {
    type V = HandleView;

    closed spec fn view(&self) -> HandleView {
        HandleView {
            bgid: self.bgid,
            idx: self.idx as nat,
            len: self.len as nat,
            slot_size: self.rentry_size as nat,
            slot_count: self.rentries as nat,
        }
    }
}

impl HandleView {
    /// The slot exists, the filled bytes fit in it, and its storage lies
    /// within 32 bits of the pool's base.
    pub open spec fn wf(self) -> bool {
        &&& self.idx < self.slot_count
        &&& self.len <= self.slot_size
        &&& self.slot_size * self.slot_count <= u32::MAX
    }
}

/// A slot of a pool ends where the pool ends, or before.
pub proof fn lemma_slot_within_pool(idx: nat, slot_size: nat, slot_count: nat)
    requires
        idx < slot_count,
    ensures
        idx * slot_size + slot_size <= slot_size * slot_count,
{
    assert(idx * slot_size + slot_size <= slot_size * slot_count) by (nonlinear_arith)
        requires
            idx + 1 <= slot_count,
    ;
}

impl ProvidedBuffer {
    /// A handle on slot `idx` of group `bgid`, of which `len` bytes are filled.
    pub fn new(len: usize, bgid: BgId, rentry_size: REntrySize, rentries: u32, idx: u32) -> (buf:
        ProvidedBuffer)
        requires
            idx < rentries,
            len <= rentry_size,
            rentry_size * rentries <= u32::MAX,
        ensures
            buf@.wf(),
            buf@ == (HandleView {
                bgid,
                idx: idx as nat,
                len: len as nat,
                slot_size: rentry_size as nat,
                slot_count: rentries as nat,
            }),
    {
        ProvidedBuffer { bgid, len, rentry_size, rentries, idx }
    }

    /// The group of the pool that the slot belongs to.
    pub fn group(&self) -> (g: BgId)
        ensures
            g == self@.bgid,
    {
        self.bgid
    }

    /// The slot's index in its pool.
    pub fn index(&self) -> (i: u32)
        ensures
            i == self@.idx,
    {
        self.idx
    }

    /// The number of bytes that the kernel filled.
    pub fn len(&self) -> (n: usize)
        ensures
            n == self@.len,
    {
        self.len
    }

    /// The size in bytes of each slot of the pool.
    pub fn slot_size(&self) -> (n: REntrySize)
        ensures
            n == self@.slot_size,
    {
        self.rentry_size
    }

    /// The number of slots of the pool.
    pub fn slot_count(&self) -> (n: u32)
        ensures
            n == self@.slot_count,
    {
        self.rentries
    }

    /// Where the slot starts, in bytes from the start of the pool's storage.
    pub fn offset(&self) -> (at: usize)
        requires
            self@.wf(),
        ensures
            at == self@.idx * self@.slot_size,
            at + self@.len <= self@.slot_size * self@.slot_count,
    {
        proof {
            lemma_slot_within_pool(self@.idx, self@.slot_size, self@.slot_count);
        }
        let at: u32 = self.idx * self.rentry_size;
        at as usize
    }
}

impl RingView {
    /// Whether a wait that returned `ret` and delivered `raw` hands a provided
    /// buffer over.
    pub open spec fn selects_buffer(ret: i32, raw: RawCompletion) -> bool {
        completed(ret, raw) && raw.flags & IORING_CQE_F_BUFFER != 0
    }

    /// The index of the slot that the completion's flags name.
    pub open spec fn selected_slot(raw: RawCompletion) -> u32 {
        raw.flags >> IORING_CQE_BUFFER_SHIFT
    }

    /// Whether the ring can be asked about the completion: where it is a
    /// success, its tag stands for an operation, and a group that the tag
    /// names has a pool, whether or not a buffer is handed over.
    pub open spec fn admits(self, ret: i32, raw: RawCompletion) -> bool {
        completed(ret, raw) ==> {
            &&& IOUringOp::is_encoding(raw.user_data)
            &&& match IOUringOp::decode(raw.user_data) {
                IOUringOp::Recv { sockfd, bgid } => self.pools.contains_key(bgid),
                _ => true,
            }
        }
    }

    /// Whether the buffer that the completion names is one that its pool can
    /// have given: the tag names a group, the slot exists and was available,
    /// and no more bytes are reported than a slot holds.
    pub open spec fn buffer_fits(self, raw: RawCompletion) -> bool {
        match IOUringOp::decode(raw.user_data) {
            IOUringOp::Recv { sockfd, bgid } => {
                &&& Self::selected_slot(raw) < self.pools[bgid].slot_count
                &&& self.pools[bgid].available.contains(Self::selected_slot(raw) as int)
                &&& raw.res <= self.pools[bgid].slot_size
            },
            _ => false,
        }
    }

    /// The group that the completion's tag names; 0 where it names none.
    pub open spec fn selected_group(raw: RawCompletion) -> BgId {
        match IOUringOp::decode(raw.user_data) {
            IOUringOp::Recv { sockfd, bgid } => bgid,
            _ => 0,
        }
    }

    /// Whether a handle belongs to a pool of this ring.
    pub open spec fn owns(self, buf: HandleView) -> bool {
        &&& self.pools.contains_key(buf.bgid)
        &&& self.pools[buf.bgid].slot_size == buf.slot_size
        &&& self.pools[buf.bgid].slot_count == buf.slot_count
        &&& buf.idx < buf.slot_count
    }
}

/// What is wrong with a pool of `slot_count` slots of `slot_size` bytes,
/// before any driver is asked: `None` where nothing is.
pub open spec fn pool_refusal(slot_size: u32, slot_count: u32) -> Option<RingError> {
    if !is_power_of_two(slot_count as nat) {
        Some(RingError::SlotCountNotPowerOfTwo)
    } else if slot_size * slot_count > u32::MAX {
        Some(RingError::PoolTooLarge)
    } else {
        None
    }
}

/// Why such a pool is not registered, given the driver's answer `ret` and
/// whether the group is `taken` by a pool already: what is wrong with the pool
/// itself comes first, then the driver's refusal, then the taken group.
pub open spec fn registration_refusal(
    slot_size: u32,
    slot_count: u32,
    ret: i32,
    taken: bool,
) -> Option<RingError> {
    if pool_refusal(slot_size, slot_count).is_some() {
        pool_refusal(slot_size, slot_count)
    } else if ret < 0 {
        Some(RingError::Os { errno: crate::errno_of(ret) })
    } else if taken {
        Some(RingError::DuplicateGroup)
    } else {
        None
    }
}

/// One slot as the driver is told of it.
#[derive(Clone, Copy, Debug, PartialEq, Eq, Structural)]
pub struct SlotAdvert {
    /// The slot's index in its pool, by which completions will name it.
    pub idx: u32,
    /// Where the slot starts, in bytes from the start of the pool's storage.
    pub offset: usize,
    /// The slot's size in bytes.
    pub len: u32,
    /// The slot's place in the kernel-visible ring, counted from its tail.
    pub position: u32,
}

/// What the driver is told to make slots available to the kernel: each of
/// the `count` slots from `first` on, in turn, and then to advance the
/// kernel-visible ring by `count`.
#[derive(Clone, Copy, Debug, PartialEq, Eq, Structural)]
pub struct Replenishment {
    pub bgid: BgId,
    pub first: u32,
    pub count: u32,
    pub slot_size: REntrySize,
    /// The pool's number of slots, from which ring positions are masked.
    pub slot_count: u32,
}

impl Replenishment {
    /// The slots exist and lie within the pool's storage.
    pub open spec fn wf(self) -> bool {
        &&& self.first + self.count <= self.slot_count
        &&& self.slot_size * self.slot_count <= u32::MAX
    }

    /// The `k`-th slot to tell of: slot `first + k`, at its natural offset,
    /// whole, at place `k` from the tail.
    pub open spec fn advert_at(self, k: u32) -> SlotAdvert {
        SlotAdvert {
            idx: (self.first + k) as u32,
            offset: ((self.first + k) * self.slot_size) as usize,
            len: self.slot_size,
            position: k,
        }
    }

    /// The `k`-th slot to tell the driver of.
    pub fn advert(&self, k: u32) -> (a: SlotAdvert)
        requires
            self.wf(),
            k < self.count,
        ensures
            a == self.advert_at(k),
    {
        let idx: u32 = self.first + k;
        proof {
            lemma_slot_within_pool(idx as nat, self.slot_size as nat, self.slot_count as nat);
        }
        let at: u32 = idx * self.slot_size;
        SlotAdvert { idx, offset: at as usize, len: self.slot_size, position: k }
    }
}

impl IOUring {
    /// Tells what is wrong with such a pool, before the driver is asked:
    /// `None` where nothing is.
    pub fn check_buffer_ring(rentry_size: REntrySize, rentries: u32) -> (out: Option<RingError>)
        ensures
            out == pool_refusal(rentry_size, rentries),
    {
        assert(rentry_size as u64 * rentries as u64 <= 0xffff_ffff * 0xffff_ffff) by (nonlinear_arith)
            requires
                rentry_size <= 0xffff_ffff,
                rentries <= 0xffff_ffff,
        ;
        if !power_of_two(rentries) {
            Some(RingError::SlotCountNotPowerOfTwo)
        } else if rentry_size as u64 * rentries as u64 > 0xffff_ffff {
            Some(RingError::PoolTooLarge)
        } else {
            None
        }
    }

    /// Records a pool of `rentries` slots of `rentry_size` bytes under `bgid`,
    /// every slot available, given the driver's answer `ret` to the
    /// registration. A slot count that is no power of two and storage that
    /// would not fit in 32 bits are refused whatever the driver said. Else a
    /// negative `ret` is the driver's refusal, which is how a group that has a
    /// pool is refused too. Where the driver did not refuse such a group, it
    /// is `DuplicateGroup`.
    pub fn setup_buffer_ring(
        self,
        rentry_size: REntrySize,
        rentries: u32,
        bgid: BgId,
        ret: i32,
    ) -> (out: Result<IOUring, RingError>)
        requires
            self.wf(),
        ensures
            match registration_refusal(rentry_size, rentries, ret, self@.pools.contains_key(bgid)) {
                Some(e) => out == Err::<IOUring, RingError>(e),
                None => {
                    &&& out.is_ok()
                    &&& out.unwrap().wf()
                    &&& out.unwrap()@ == self@.with_pool(
                        bgid,
                        PoolView::seeded(rentry_size as nat, rentries as nat),
                    )
                },
            },
    {
        broadcast use vstd::std_specs::hash::group_hash_axioms;

        match Self::check_buffer_ring(rentry_size, rentries) {
            Some(e) => {
                return Err(e);
            },
            None => {},
        }
        if ret < 0 {
            return Err(RingError::from_code(ret));
        }
        if self.buffer_groups.contains_key(&bgid) {
            return Err(RingError::DuplicateGroup);
        }
        let mut ring = self;
        let pool = BufferPool::new(rentry_size, rentries);
        ring.buffer_groups.insert(bgid, pool);
        assert(ring@.pools =~= self@.pools.insert(
            bgid,
            PoolView::seeded(rentry_size as nat, rentries as nat),
        ));
        Ok(ring)
    }

    /// What the driver is told right after the pool of `bgid` is registered:
    /// every slot, in order, and an advance by their number. `None` where the
    /// group has no pool.
    pub fn seeding(&self, bgid: BgId) -> (out: Option<Replenishment>)
        requires
            self.wf(),
        ensures
            out.is_some() == self@.pools.contains_key(bgid),
            out.is_some() ==> out.unwrap().wf() && out.unwrap() == (Replenishment {
                bgid,
                first: 0,
                count: self@.pools[bgid].slot_count as u32,
                slot_size: self@.pools[bgid].slot_size as u32,
                slot_count: self@.pools[bgid].slot_count as u32,
            }),
    {
        broadcast use vstd::std_specs::hash::group_hash_axioms;

        match self.buffer_groups.get(&bgid) {
            Some(pool) => Some(
                Replenishment {
                    bgid,
                    first: 0,
                    count: pool.slot_count,
                    slot_size: pool.slot_size,
                    slot_count: pool.slot_count,
                },
            ),
            None => None,
        }
    }

    /// Tells whether the kernel may write into slot `idx` of group `bgid`.
    pub fn is_available(&self, bgid: BgId, idx: u32) -> (yes: bool)
        requires
            self.wf(),
        ensures
            yes == (self@.pools.contains_key(bgid) && self@.pools[bgid].available.contains(
                idx as int,
            )),
    {
        broadcast use vstd::std_specs::hash::group_hash_axioms;

        match self.buffer_groups.get(&bgid) {
            Some(pool) => pool.is_available(idx),
            None => false,
        }
    }

    /// Tells whether the ring can be asked about a completion, so that
    /// `wait_read` may be given it.
    pub fn accepts(&self, ret: i32, raw: RawCompletion) -> (yes: bool)
        ensures
            yes == self@.admits(ret, raw),
    {
        broadcast use vstd::std_specs::hash::group_hash_axioms;

        if ret < 0 || raw.res < 0 {
            return true;
        }
        if !IOUringOp::is_valid(raw.user_data) {
            return false;
        }
        match IOUringOp::from_u64(raw.user_data) {
            IOUringOp::Recv { sockfd, bgid } => self.buffer_groups.contains_key(&bgid),
            _ => true,
        }
    }

    /// Tells whether a handle belongs to a pool of this ring, so that
    /// `release` may be given it.
    pub fn owns(&self, buf: &ProvidedBuffer) -> (yes: bool)
        ensures
            yes == self@.owns(buf@),
    {
        broadcast use vstd::std_specs::hash::group_hash_axioms;

        match self.buffer_groups.get(&buf.group()) {
            Some(pool) => pool.slot_size == buf.rentry_size && pool.slot_count == buf.rentries
                && buf.idx < buf.rentries,
            None => false,
        }
    }

    /// Decides what one answer of the driver's wait means, as `wait_cqe` does,
    /// and where the completion hands a provided buffer over, takes that slot
    /// out of its pool and returns the handle on it. A successful completion
    /// without a buffer is `NoBufferSelected`; one with a buffer that its pool
    /// cannot have given is `BufferMismatch`. Every handle returned is on a
    /// slot of a registered pool and holds no more bytes than the slot.
    pub fn wait_read(&mut self, ret: i32, raw: RawCompletion) -> (out: Result<
        ProvidedBuffer,
        RingError,
    >)
        requires
            old(self).wf(),
            old(self)@.admits(ret, raw),
        ensures
            final(self).wf(),
            !completed(ret, raw) ==> out.is_err() && Err::<IOUringCqe, RingError>(out.unwrap_err())
                == completion_outcome(ret, raw),
            completed(ret, raw) && !RingView::selects_buffer(ret, raw) ==> out.is_err()
                && out.unwrap_err() == RingError::NoBufferSelected,
            RingView::selects_buffer(ret, raw) && !old(self)@.buffer_fits(raw) ==> out.is_err()
                && out.unwrap_err() == RingError::BufferMismatch,
            out.is_err() ==> final(self)@ == old(self)@,
            out.is_ok() == (RingView::selects_buffer(ret, raw) && old(self)@.buffer_fits(raw)),
            out.is_ok() ==> {
                let bgid = RingView::selected_group(raw);
                let idx = RingView::selected_slot(raw);
                let pool = old(self)@.pools[bgid];
                &&& old(self)@.pools.contains_key(bgid)
                &&& out.unwrap()@.wf()
                &&& out.unwrap()@ == (HandleView {
                    bgid,
                    idx: idx as nat,
                    len: raw.res as nat,
                    slot_size: pool.slot_size,
                    slot_count: pool.slot_count,
                })
                &&& out.unwrap()@.len <= pool.slot_size
                &&& final(self)@ == old(self)@.with_pool(bgid, pool.checkout(idx as int))
            },
    {
        broadcast use vstd::std_specs::hash::group_hash_axioms;

        let cqe = match IOUringCqe::from_raw(ret, raw) {
            Ok(cqe) => cqe,
            Err(e) => {
                return Err(e);
            },
        };
        let idx: u32 = match cqe.buffer_id() {
            Some(idx) => idx,
            None => {
                return Err(RingError::NoBufferSelected);
            },
        };
        let bgid: BgId = match cqe.op {
            IOUringOp::Recv { sockfd, bgid } => bgid,
            _ => {
                return Err(RingError::BufferMismatch);
            },
        };
        let fits: bool = match self.buffer_groups.get(&bgid) {
            Some(pool) => idx < pool.slot_count && pool.is_available(idx) && cqe.res as u32
                <= pool.slot_size,
            None => false,
        };
        if !fits {
            return Err(RingError::BufferMismatch);
        }
        match self.buffer_groups.remove(&bgid) {
            Some(pool) => {
                let mut pool = pool;
                let size: REntrySize = pool.slot_size;
                let count: u32 = pool.slot_count;
                pool.mark(idx, false);
                self.buffer_groups.insert(bgid, pool);
                assert(self@.pools =~= old(self)@.pools.insert(
                    bgid,
                    old(self)@.pools[bgid].checkout(idx as int),
                ));
                Ok(ProvidedBuffer::new(cqe.res as usize, bgid, size, count, idx))
            },
            None => Err(RingError::BufferMismatch),
        }
    }

    /// Gives a slot back to its pool: the kernel may write into it again. The
    /// handle is used up. What comes back is what the driver is told: that one
    /// slot, whole, at the tail of the kernel-visible ring, and an advance by
    /// one.
    pub fn release(&mut self, buf: ProvidedBuffer) -> (told: Replenishment)
        requires
            old(self).wf(),
            old(self)@.owns(buf@),
        ensures
            final(self).wf(),
            final(self)@ == old(self)@.with_pool(
                buf@.bgid,
                old(self)@.pools[buf@.bgid].release(buf@.idx as int),
            ),
            told.wf(),
            told == (Replenishment {
                bgid: buf@.bgid,
                first: buf@.idx as u32,
                count: 1,
                slot_size: buf@.slot_size as u32,
                slot_count: buf@.slot_count as u32,
            }),
    {
        broadcast use vstd::std_specs::hash::group_hash_axioms;

        let told = Replenishment {
            bgid: buf.bgid,
            first: buf.idx,
            count: 1,
            slot_size: buf.rentry_size,
            slot_count: buf.rentries,
        };
        match self.buffer_groups.remove(&buf.bgid) {
            Some(pool) => {
                let mut pool = pool;
                pool.mark(buf.idx, true);
                self.buffer_groups.insert(buf.bgid, pool);
                assert(self@.pools =~= old(self)@.pools.insert(
                    buf@.bgid,
                    old(self)@.pools[buf@.bgid].release(buf@.idx as int),
                ));
            },
            None => {},
        }
        told
    }
}

/// A sequence holds what it held before its last item, and that item.
proof fn lemma_contains_last(s: Seq<int>, x: int)
    requires
        s.len() > 0,
    ensures
        s.contains(x) <==> (s.drop_last().contains(x) || x == s.last()),
{
    let d = s.drop_last();
    if d.contains(x) {
        let i = choose|i: int| 0 <= i < d.len() && d[i] == x;
        assert(s[i] == x);
    }
    if x == s.last() {
        assert(s[s.len() - 1] == x);
    }
    if s.contains(x) {
        let i = choose|i: int| 0 <= i < s.len() && s[i] == x;
        if i < d.len() {
            assert(d[i] == x);
        }
    }
}

/// After a run of checkouts the available slots are those that were
/// available and were not taken; the geometry is as before.
pub proof fn lemma_checkout_all(pool: PoolView, idxs: Seq<int>)
    ensures
        pool.checkout_all(idxs).slot_size == pool.slot_size,
        pool.checkout_all(idxs).slot_count == pool.slot_count,
        forall|x: int|
            #[trigger] pool.checkout_all(idxs).available.contains(x) <==> (
            pool.available.contains(x) && !idxs.contains(x)),
    decreases idxs.len(),
{
    if idxs.len() > 0 {
        lemma_checkout_all(pool, idxs.drop_last());
        assert forall|x: int|
            #[trigger] pool.checkout_all(idxs).available.contains(x) <==> (
            pool.available.contains(x) && !idxs.contains(x)) by {
            lemma_contains_last(idxs, x);
        }
    }
}

/// After a run of releases the available slots are those that were available
/// and those that came back; the geometry is as before.
pub proof fn lemma_release_all(pool: PoolView, idxs: Seq<int>)
    ensures
        pool.release_all(idxs).slot_size == pool.slot_size,
        pool.release_all(idxs).slot_count == pool.slot_count,
        forall|x: int|
            #[trigger] pool.release_all(idxs).available.contains(x) <==> (
            pool.available.contains(x) || idxs.contains(x)),
    decreases idxs.len(),
{
    if idxs.len() > 0 {
        lemma_release_all(pool, idxs.drop_last());
        assert forall|x: int|
            #[trigger] pool.release_all(idxs).available.contains(x) <==> (
            pool.available.contains(x) || idxs.contains(x)) by {
            lemma_contains_last(idxs, x);
        }
    }
}

/// Conservation: where the slots `taken` were available and went to the
/// application, and the slots `returned` came back, in any order, and these
/// are the same slots, the pool is what it was before. No slot is lost and
/// none is there twice.
pub proof fn lemma_checkout_release_conserves(pool: PoolView, taken: Seq<int>, returned: Seq<int>)
    requires
        forall|i: int| 0 <= i < taken.len() ==> pool.available.contains(taken[i]),
        forall|x: int| taken.contains(x) <==> returned.contains(x),
    ensures
        pool.checkout_all(taken).release_all(returned) == pool,
{
    let mid = pool.checkout_all(taken);
    let end = mid.release_all(returned);
    lemma_checkout_all(pool, taken);
    lemma_release_all(mid, returned);
    assert forall|x: int| end.available.contains(x) <==> pool.available.contains(x) by {
        if taken.contains(x) {
            let i = choose|i: int| 0 <= i < taken.len() && taken[i] == x;
            assert(pool.available.contains(taken[i]));
        }
    }
    assert(end.available =~= pool.available);
}

/// One checkout and the matching release leave a ring as it was.
pub proof fn lemma_release_restores_ring(ring: RingView, bgid: BgId, idx: int)
    requires
        ring.pools.contains_key(bgid),
        ring.pools[bgid].available.contains(idx),
    ensures
        ({
            let held = ring.with_pool(bgid, ring.pools[bgid].checkout(idx));
            held.with_pool(bgid, held.pools[bgid].release(idx))
        }) == ring,
{
    let held = ring.with_pool(bgid, ring.pools[bgid].checkout(idx));
    let back = held.with_pool(bgid, held.pools[bgid].release(idx));
    assert(held.pools[bgid].release(idx).available =~= ring.pools[bgid].available);
    assert(back.pools =~= ring.pools);
}

/// A pool is refused for its slot count exactly where the count is no power
/// of two, whatever else is asked of it and whatever the driver said. A pool
/// of a power of two of slots, with storage that fits, a driver that did not
/// refuse and a free group, is registered.
pub proof fn lemma_slot_count_refused(slot_size: u32, slot_count: u32, ret: i32, taken: bool)
    ensures
        !is_power_of_two(slot_count as nat) <==> registration_refusal(
            slot_size,
            slot_count,
            ret,
            taken,
        ) == Some(RingError::SlotCountNotPowerOfTwo),
        is_power_of_two(slot_count as nat) && slot_size * slot_count <= u32::MAX && ret >= 0
            && !taken ==> registration_refusal(slot_size, slot_count, ret, taken).is_none(),
{
}

} // verus!
