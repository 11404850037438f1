//! The backbuffer ring and the swapchain controller: the acquire → render
//! → present → reclaim cycle over a flip-discard presentation engine, with
//! the backpressure rule that the engine is never fully drained.

use vstd::prelude::*;
use crate::capability::{MAX_IMAGE_COUNT, MIN_IMAGE_COUNT};
use crate::format::{Format, format_catalog};
use crate::surface::{Extent2d, SurfaceDescriptor};

verus! {

/// Ownership state of one backbuffer in the ring. Each buffer is in
/// exactly one of these states at any time.
#[derive(Clone, Copy, PartialEq, Eq, Structural, Debug)]
pub enum BufferState {
    /// Owned by the display engine and ready to be handed out.
    Presentable,
    /// Handed to the caller as the current render target.
    Acquired,
    /// Render submitted; awaiting the presentation engine to reclaim it.
    Queued,
}

/// Whether the swapchain is still usable, or which loss retired it.
#[derive(Clone, Copy, PartialEq, Eq, Structural, Debug)]
pub enum SwapchainStatus {
    Operational,
    /// The surface the swapchain was built from became invalid (resize,
    /// window destroyed); recoverable by recreating the swapchain from a
    /// fresh surface descriptor.
    SurfaceLost,
    /// The device or driver failed during presentation; fatal to the
    /// device context, which must be recreated whole.
    DeviceLost,
}

/// Synchronization primitive handed to an acquisition, identified by the
/// id the device collaborator assigned it. The collaborator signals it
/// once the acquired buffer is ready; with the synchronous model here, a
/// successful acquisition means it may be signaled at once.
#[derive(Clone, Copy, PartialEq, Eq, Structural, Debug)]
pub enum FrameSync {
    Semaphore(u64),
    Fence(u64),
}

/// Caller-visible index of the backbuffer acquired for the current frame;
/// valid only until the next acquisition on the same swapchain, and never
/// owned independently of it.
#[derive(Clone, Copy, PartialEq, Eq, Structural, Debug)]
pub struct FrameHandle {
    pub index: u32,
}

/// Why an acquisition was refused.
#[derive(Clone, Copy, PartialEq, Eq, Structural, Debug)]
pub enum AcquireError {
    /// Backpressure: every buffer but one is in flight, or the engine has
    /// not yet reclaimed the candidate buffer. Recoverable: retry after a
    /// reclaim; never hand out a buffer still in use.
    NotReady,
    SurfaceLost,
    DeviceLost,
}

/// Why a presentation was refused.
#[derive(Clone, Copy, PartialEq, Eq, Structural, Debug)]
pub enum PresentError {
    /// The frame index is not currently in the Acquired state: present
    /// without a prior acquire violates the ordering precondition.
    NotAcquired,
    SurfaceLost,
    DeviceLost,
}

/// What the native present call reported, handed back by the caller that
/// performed it.
#[derive(Clone, Copy, PartialEq, Eq, Structural, Debug)]
pub enum PresentOutcome {
    Presented,
    SurfaceLost,
    DeviceLost,
}

/// Instruction emitted by a successful presentation: on the device/queue
/// timeline — never the CPU's — wait for every semaphore in
/// `wait_semaphores`, and only then ask the native engine to present
/// buffer `index` at the fixed `sync_interval`. Skipping the waits could
/// display a partially rendered image.
#[derive(Debug)]
pub struct PresentAction {
    pub index: u32,
    /// Vertical-sync interval; always 1 (vsync-locked cadence).
    pub sync_interval: u32,
    /// Semaphores that must signal before the native present may run.
    pub wait_semaphores: Vec<u64>,
}

/// Mathematical model of a swapchain: the ring of buffer states, the
/// engine's candidate index, the queue of buffers awaiting reclamation in
/// present order, and the lifecycle status.
pub ghost struct SwapchainModel {
    pub image_count: u32,
    pub states: Seq<BufferState>,
    pub next_frame: u32,
    pub frame_queue: Seq<u32>,
    pub status: SwapchainStatus,
    pub format: Format,
    pub extent: Extent2d,
}

/// A buffer is in flight when the caller holds it or it awaits
/// reclamation — in either case the engine cannot hand it out.
pub open spec fn is_in_flight(state: BufferState) -> bool {
    state == BufferState::Acquired || state == BufferState::Queued
}

/// How many buffers of the ring are in flight.
pub open spec fn in_flight_count(states: Seq<BufferState>) -> int
    decreases states.len(),
{
    if states.len() == 0 {
        0
    } else {
        in_flight_count(states.drop_last()) + if is_in_flight(states.last()) {
            1int
        } else {
            0int
        }
    }
}

impl SwapchainModel {
    /// Well-formedness of the model:
    /// - the ring holds between 2 and 16 buffers and the candidate index
    ///   is in range;
    /// - at most `image_count − 1` buffers are ever in flight, so the
    ///   engine always keeps at least one presentable buffer;
    /// - the reclaim queue lists exactly the queued buffers, each once,
    ///   in present order.
    pub open spec fn wf(self) -> bool {
        &&& MIN_IMAGE_COUNT <= self.image_count <= MAX_IMAGE_COUNT
        &&& self.states.len() == self.image_count
        &&& self.next_frame < self.image_count
        &&& in_flight_count(self.states) <= self.image_count - 1
        &&& forall|j: int|
            0 <= j < self.frame_queue.len() ==> #[trigger] self.frame_queue[j] < self.image_count
        &&& forall|j: int, k: int|
            0 <= j < k < self.frame_queue.len() ==> self.frame_queue[j] != self.frame_queue[k]
        &&& forall|b: u32|
            b < self.image_count ==> (self.states[b as int] == BufferState::Queued
                <==> #[trigger] self.frame_queue.contains(b))
    }

    /// Acquisition succeeds exactly when the swapchain is operational,
    /// acquiring would still leave the engine a presentable buffer
    /// (backpressure), and the engine has reclaimed the candidate buffer.
    pub open spec fn can_acquire(self) -> bool {
        &&& self.status == SwapchainStatus::Operational
        &&& in_flight_count(self.states) < self.image_count - 1
        &&& self.states[self.next_frame as int] == BufferState::Presentable
    }

    /// State after a successful acquisition: the candidate buffer is
    /// handed to the caller and the ring advances.
    pub open spec fn acquire_step(self) -> SwapchainModel {
        SwapchainModel {
            states: self.states.update(self.next_frame as int, BufferState::Acquired),
            next_frame: if self.next_frame + 1 < self.image_count {
                (self.next_frame + 1) as u32
            } else {
                0u32
            },
            ..self
        }
    }

    /// Which error a refused acquisition reports.
    pub open spec fn acquire_error(self) -> AcquireError
        recommends
            !self.can_acquire(),
    {
        match self.status {
            SwapchainStatus::Operational => AcquireError::NotReady,
            SwapchainStatus::SurfaceLost => AcquireError::SurfaceLost,
            SwapchainStatus::DeviceLost => AcquireError::DeviceLost,
        }
    }

    /// Presentation succeeds exactly when the swapchain is operational and
    /// the frame was previously acquired and not yet presented.
    pub open spec fn can_present(self, index: u32) -> bool {
        &&& self.status == SwapchainStatus::Operational
        &&& index < self.image_count
        &&& self.states[index as int] == BufferState::Acquired
    }

    /// State after a successful presentation: the buffer joins the back of
    /// the reclaim queue.
    pub open spec fn present_step(self, index: u32) -> SwapchainModel {
        SwapchainModel {
            states: self.states.update(index as int, BufferState::Queued),
            frame_queue: self.frame_queue.push(index),
            ..self
        }
    }

    /// Which error a refused presentation reports.
    pub open spec fn present_error(self, index: u32) -> PresentError
        recommends
            !self.can_present(index),
    {
        match self.status {
            SwapchainStatus::Operational => PresentError::NotAcquired,
            SwapchainStatus::SurfaceLost => PresentError::SurfaceLost,
            SwapchainStatus::DeviceLost => PresentError::DeviceLost,
        }
    }

    /// State after the engine reclaims the oldest queued buffer, which
    /// becomes presentable again.
    pub open spec fn reclaim_step(self) -> SwapchainModel
        recommends
            self.frame_queue.len() > 0,
    {
        SwapchainModel {
            states: self.states.update(self.frame_queue[0] as int, BufferState::Presentable),
            frame_queue: self.frame_queue.subrange(1, self.frame_queue.len() as int),
            ..self
        }
    }

    /// State after the native present outcome is applied: a reported loss
    /// retires the swapchain; a successful present changes nothing more.
    pub open spec fn outcome_step(self, outcome: PresentOutcome) -> SwapchainModel {
        SwapchainModel {
            status: match outcome {
                PresentOutcome::Presented => self.status,
                PresentOutcome::SurfaceLost => SwapchainStatus::SurfaceLost,
                PresentOutcome::DeviceLost => SwapchainStatus::DeviceLost,
            },
            ..self
        }
    }
}

/// Updating one slot of the ring changes the in-flight count by the
/// difference of the old and new slots' contributions.
proof fn lemma_in_flight_count_update(states: Seq<BufferState>, i: int, v: BufferState)
    requires
        0 <= i < states.len(),
    ensures
        in_flight_count(states.update(i, v)) == in_flight_count(states) - (if is_in_flight(
            states[i],
        ) {
            1int
        } else {
            0int
        }) + (if is_in_flight(v) {
            1int
        } else {
            0int
        }),
    decreases states.len(),
{
    let updated = states.update(i, v);
    if i == states.len() - 1 {
        assert(updated.drop_last() =~= states.drop_last());
    } else {
        assert(updated.drop_last() =~= states.drop_last().update(i, v));
        lemma_in_flight_count_update(states.drop_last(), i, v);
    }
}

/// A ring of presentable buffers has nothing in flight.
proof fn lemma_in_flight_count_all_presentable(states: Seq<BufferState>)
    requires
        forall|i: int| 0 <= i < states.len() ==> #[trigger] states[i] == BufferState::Presentable,
    ensures
        in_flight_count(states) == 0,
    decreases states.len(),
{
    if states.len() > 0 {
        lemma_in_flight_count_all_presentable(states.drop_last());
    }
}

/// Membership in a sequence extended by one element.
proof fn lemma_push_contains(s: Seq<u32>, v: u32, x: u32)
    ensures
        s.push(v).contains(x) <==> (s.contains(x) || x == v),
{
    if s.contains(x) {
        let j = choose|j: int| 0 <= j < s.len() && s[j] == x;
        assert(s.push(v)[j] == x);
    }
    assert(s.push(v)[s.len() as int] == v);
    if s.push(v).contains(x) && x != v {
        let j = choose|j: int| 0 <= j < s.push(v).len() && s.push(v)[j] == x;
        assert(s[j] == x);
    }
}

/// Acquisition preserves well-formedness and raises the in-flight count
/// by one.
pub proof fn lemma_acquire_preserves_wf(m: SwapchainModel)
    requires
        m.wf(),
        m.can_acquire(),
    ensures
        m.acquire_step().wf(),
        in_flight_count(m.acquire_step().states) == in_flight_count(m.states) + 1,
{
    lemma_in_flight_count_update(m.states, m.next_frame as int, BufferState::Acquired);
    let stepped = m.acquire_step();
    assert forall|b: u32|
        b < stepped.image_count implies (stepped.states[b as int] == BufferState::Queued
        <==> #[trigger] stepped.frame_queue.contains(b)) by {
        if b == m.next_frame {
            assert(m.states[b as int] == BufferState::Presentable);
            assert(!m.frame_queue.contains(b));
        } else {
            assert(stepped.states[b as int] == m.states[b as int]);
        }
    }
}

/// Presentation preserves well-formedness and keeps the in-flight count
/// unchanged.
pub proof fn lemma_present_preserves_wf(m: SwapchainModel, index: u32)
    requires
        m.wf(),
        m.can_present(index),
    ensures
        m.present_step(index).wf(),
        in_flight_count(m.present_step(index).states) == in_flight_count(m.states),
{
    lemma_in_flight_count_update(m.states, index as int, BufferState::Queued);
    let stepped = m.present_step(index);
    assert(!m.frame_queue.contains(index));
    assert forall|j: int, k: int|
        0 <= j < k < stepped.frame_queue.len() implies stepped.frame_queue[j]
        != stepped.frame_queue[k] by {
        if k == m.frame_queue.len() {
            if m.frame_queue[j] == index {
                assert(m.frame_queue.contains(index));
            }
        }
    }
    assert forall|b: u32|
        b < stepped.image_count implies (stepped.states[b as int] == BufferState::Queued
        <==> #[trigger] stepped.frame_queue.contains(b)) by {
        lemma_push_contains(m.frame_queue, index, b);
        if b != index {
            assert(stepped.states[b as int] == m.states[b as int]);
        }
    }
}

/// Reclamation preserves well-formedness, lowers the in-flight count by
/// one, and makes the reclaimed buffer presentable.
pub proof fn lemma_reclaim_preserves_wf(m: SwapchainModel)
    requires
        m.wf(),
        m.frame_queue.len() > 0,
    ensures
        m.reclaim_step().wf(),
        in_flight_count(m.reclaim_step().states) == in_flight_count(m.states) - 1,
        m.reclaim_step().states[m.frame_queue[0] as int] == BufferState::Presentable,
{
    let reclaimed = m.frame_queue[0];
    assert(m.frame_queue.contains(reclaimed));
    assert(m.states[reclaimed as int] == BufferState::Queued);
    lemma_in_flight_count_update(m.states, reclaimed as int, BufferState::Presentable);
    let stepped = m.reclaim_step();
    let rest = m.frame_queue.subrange(1, m.frame_queue.len() as int);
    assert forall|b: u32|
        b < stepped.image_count implies (stepped.states[b as int] == BufferState::Queued
        <==> #[trigger] stepped.frame_queue.contains(b)) by {
        if b == reclaimed {
            if rest.contains(b) {
                let j = choose|j: int| 0 <= j < rest.len() && rest[j] == b;
                assert(m.frame_queue[j + 1] == m.frame_queue[0]);
            }
        } else {
            assert(stepped.states[b as int] == m.states[b as int]);
            if rest.contains(b) {
                let j = choose|j: int| 0 <= j < rest.len() && rest[j] == b;
                assert(m.frame_queue[j + 1] == b);
                assert(m.frame_queue.contains(b));
            }
            if m.frame_queue.contains(b) {
                let j = choose|j: int| 0 <= j < m.frame_queue.len() && m.frame_queue[j] == b;
                assert(j != 0);
                assert(rest[j - 1] == b);
            }
        }
    }
}

/// The swapchain state after the engine has reclaimed `k` times.
pub open spec fn reclaim_steps(m: SwapchainModel, k: nat) -> SwapchainModel
    decreases k,
{
    if k == 0 {
        m
    } else {
        reclaim_steps(m, (k - 1) as nat).reclaim_step()
    }
}

/// Reclaiming `k` times pops the first `k` entries of the queue, makes
/// each of those buffers presentable, and keeps the swapchain well
/// formed; nothing else of the state moves.
proof fn lemma_reclaim_steps_props(m: SwapchainModel, k: nat)
    requires
        m.wf(),
        k <= m.frame_queue.len(),
    ensures
        reclaim_steps(m, k).wf(),
        reclaim_steps(m, k).image_count == m.image_count,
        reclaim_steps(m, k).next_frame == m.next_frame,
        reclaim_steps(m, k).status == m.status,
        reclaim_steps(m, k).frame_queue =~= m.frame_queue.subrange(
            k as int,
            m.frame_queue.len() as int,
        ),
        forall|j: int|
            0 <= j < k ==> reclaim_steps(m, k).states[#[trigger] m.frame_queue[j] as int]
                == BufferState::Presentable,
    decreases k,
{
    if k > 0 {
        lemma_reclaim_steps_props(m, (k - 1) as nat);
        let prev = reclaim_steps(m, (k - 1) as nat);
        assert(prev.frame_queue[0] == m.frame_queue[k - 1]);
        lemma_reclaim_preserves_wf(prev);
        let cur = prev.reclaim_step();
        assert(cur.frame_queue =~= m.frame_queue.subrange(k as int, m.frame_queue.len() as int));
        assert forall|j: int|
            0 <= j < k implies cur.states[#[trigger] m.frame_queue[j] as int]
            == BufferState::Presentable by {
            if j < k - 1 {
                assert(m.frame_queue[j] != m.frame_queue[k - 1]);
                assert(cur.states[m.frame_queue[j] as int] == prev.states[m.frame_queue[j] as int]);
            }
        }
    }
}

/// Eventual reclamation law: a buffer standing at position `j` of the
/// reclaim queue is owned by the engine again — presentable — once the
/// engine has reclaimed `j + 1` times, and the swapchain stays well
/// formed throughout with its candidate index untouched.
pub proof fn lemma_every_queued_buffer_is_reclaimed(m: SwapchainModel, j: int)
    requires
        m.wf(),
        0 <= j < m.frame_queue.len(),
    ensures
        reclaim_steps(m, (j + 1) as nat).wf(),
        reclaim_steps(m, (j + 1) as nat).states[m.frame_queue[j] as int]
            == BufferState::Presentable,
        reclaim_steps(m, (j + 1) as nat).next_frame == m.next_frame,
        reclaim_steps(m, (j + 1) as nat).status == m.status,
{
    lemma_reclaim_steps_props(m, (j + 1) as nat);
}

/// Ring-drain law: in every well-formed swapchain state, at most
/// `image_count − 1` buffers are concurrently acquired or queued, so the
/// ring is never fully drained.
pub proof fn lemma_in_flight_never_exceeds_count_minus_one(m: SwapchainModel)
    requires
        m.wf(),
    ensures
        in_flight_count(m.states) <= m.image_count - 1,
{
}

/// Backpressure law: with `image_count − 1` buffers already in flight, a
/// further acquisition is refused, so the display engine always keeps at
/// least one presentable buffer to hand out next.
pub proof fn lemma_backpressure(m: SwapchainModel)
    requires
        m.wf(),
        in_flight_count(m.states) == m.image_count - 1,
    ensures
        !m.can_acquire(),
{
}

/// Acquisition never hands out a buffer that is in the Queued state.
pub proof fn lemma_acquire_never_queued(m: SwapchainModel)
    requires
        m.can_acquire(),
    ensures
        m.states[m.next_frame as int] != BufferState::Queued,
{
}

/// A swapchain: the fixed ring of backbuffers cycled between the
/// application and the display engine, the engine's candidate index, and
/// the queue of buffers awaiting reclamation. It exclusively owns its ring
/// state; acquire/present calls on one swapchain must be serialized by the
/// caller.
pub struct Swapchain {
    image_count: u32,
    states: Vec<BufferState>,
    next_frame: u32,
    frame_queue: Vec<u32>,
    status: SwapchainStatus,
    format: Format,
    extent: Extent2d,
}

impl View for Swapchain {
    type V = SwapchainModel;

    closed spec fn view(&self) -> SwapchainModel {
        SwapchainModel {
            image_count: self.image_count,
            states: self.states@,
            next_frame: self.next_frame,
            frame_queue: self.frame_queue@,
            status: self.status,
            format: self.format,
            extent: self.extent,
        }
    }
}

impl Swapchain {
    /// A swapchain is well formed when its model is.
    pub open spec fn wf(self) -> bool {
        self@.wf()
    }

    /// Creates a swapchain of `image_count` backbuffers over `surface`,
    /// all initially owned by the engine (presentable), with an empty
    /// reclaim queue. The count and the format must lie within what
    /// `capabilities_and_formats` negotiated for the surface.
    pub fn create_swapchain(surface: &SurfaceDescriptor, format: Format, image_count: u32) -> (s:
        Swapchain)
        requires
            surface.wf(),
            MIN_IMAGE_COUNT <= image_count <= MAX_IMAGE_COUNT,
            format_catalog().contains(format),
        ensures
            s.wf(),
            s@.image_count == image_count,
            forall|i: int| 0 <= i < image_count ==> s@.states[i] == BufferState::Presentable,
            in_flight_count(s@.states) == 0,
            s@.next_frame == 0,
            s@.frame_queue == Seq::<u32>::empty(),
            s@.status == SwapchainStatus::Operational,
            s@.format == format,
            s@.extent == surface.spec_extent(),
    {
        let mut states: Vec<BufferState> = Vec::new();
        let mut i: u32 = 0;
        while i < image_count
            invariant
                i <= image_count,
                states@.len() == i,
                forall|j: int| 0 <= j < i ==> #[trigger] states@[j] == BufferState::Presentable,
            decreases image_count - i,
        {
            states.push(BufferState::Presentable);
            i = i + 1;
        }
        proof {
            lemma_in_flight_count_all_presentable(states@);
        }
        Swapchain {
            image_count,
            states,
            next_frame: 0,
            frame_queue: Vec::new(),
            status: SwapchainStatus::Operational,
            format,
            extent: Extent2d { width: surface.width, height: surface.height },
        }
    }

    /// How many backbuffers the ring holds.
    pub fn image_count(&self) -> (count: u32)
        ensures
            count == self@.image_count,
    {
        self.image_count
    }

    /// Whether the swapchain is still operational, or which loss retired
    /// it.
    pub fn status(&self) -> (status: SwapchainStatus)
        ensures
            status == self@.status,
    {
        self.status
    }

    /// How many buffers currently await reclamation by the engine.
    pub fn queued_len(&self) -> (count: usize)
        ensures
            count == self@.frame_queue.len(),
    {
        self.frame_queue.len()
    }

    /// Counts the buffers currently held by the caller or queued for the
    /// engine.
    pub fn in_flight(&self) -> (count: u32)
        requires
            self.wf(),
        ensures
            count == in_flight_count(self@.states),
    {
        let mut count: u32 = 0;
        let mut i: usize = 0;
        while i < self.states.len()
            invariant
                self.wf(),
                i <= self.states.len(),
                count <= i,
                count == in_flight_count(self@.states.subrange(0, i as int)),
            decreases self.states.len() - i,
        {
            let buffer_in_flight = match self.states[i] {
                BufferState::Presentable => false,
                BufferState::Acquired => true,
                BufferState::Queued => true,
            };
            proof {
                assert(self@.states.subrange(0, (i + 1) as int).drop_last() =~= self@.states
                    .subrange(0, i as int));
            }
            if buffer_in_flight {
                count = count + 1;
            }
            i = i + 1;
        }
        proof {
            assert(self@.states.subrange(0, self@.states.len() as int) =~= self@.states);
        }
        count
    }

    /// Acquires the next frame: asks the engine for its candidate buffer
    /// and hands it to the caller as the render target. The acquisition is
    /// refused with `NotReady` — rather than handing out a buffer still in
    /// use — while all buffers but one are in flight (backpressure) or the
    /// candidate has not been reclaimed yet; the caller retries after a
    /// reclaim. `sync` is the primitive the device collaborator signals
    /// once the buffer is ready; a successful return means it may be
    /// signaled at once.
    #[allow(unused_variables)]
    pub fn acquire_frame(&mut self, sync: FrameSync) -> (result: Result<FrameHandle, AcquireError>)
        requires
            old(self).wf(),
        ensures
            final(self).wf(),
            result is Ok <==> old(self)@.can_acquire(),
            result matches Ok(frame) ==> {
                &&& final(self)@ == old(self)@.acquire_step()
                &&& frame.index == old(self)@.next_frame
                &&& old(self)@.states[frame.index as int] == BufferState::Presentable
                &&& old(self)@.states[frame.index as int] != BufferState::Queued
                &&& in_flight_count(final(self)@.states) == in_flight_count(old(self)@.states) + 1
            },
            result is Err ==> final(self)@ == old(self)@,
            result matches Err(e) ==> e == old(self)@.acquire_error(),
            old(self)@.status == SwapchainStatus::Operational && in_flight_count(old(self)@.states)
                >= old(self)@.image_count - 1 ==> result == Err::<FrameHandle, AcquireError>(
                AcquireError::NotReady,
            ),
    {
        match self.status {
            SwapchainStatus::SurfaceLost => {
                return Err(AcquireError::SurfaceLost);
            },
            SwapchainStatus::DeviceLost => {
                return Err(AcquireError::DeviceLost);
            },
            SwapchainStatus::Operational => {},
        }
        let in_flight = self.in_flight();
        if in_flight + 1 >= self.image_count {
            return Err(AcquireError::NotReady);
        }
        let index = self.next_frame;
        match self.states[index as usize] {
            BufferState::Presentable => {},
            BufferState::Acquired => {
                return Err(AcquireError::NotReady);
            },
            BufferState::Queued => {
                return Err(AcquireError::NotReady);
            },
        }
        proof {
            lemma_acquire_preserves_wf(self@);
        }
        self.states[index as usize] = BufferState::Acquired;
        self.next_frame = if index + 1 < self.image_count {
            index + 1
        } else {
            0
        };
        proof {
            assert(self@.states =~= old(self)@.acquire_step().states);
            assert(self@ == old(self)@.acquire_step());
        }
        Ok(FrameHandle { index })
    }

    /// Orders presentation of an acquired frame. On success the buffer
    /// moves to the back of the reclaim queue and the returned action
    /// tells the caller what to perform: wait on the queue timeline for
    /// every semaphore in `wait_semaphores`, then ask the native engine to
    /// present the buffer at vsync interval 1. Presenting a frame index
    /// that was not acquired first is refused with `NotAcquired`.
    pub fn present(&mut self, frame_index: u32, wait_semaphores: &Vec<u64>) -> (result: Result<
        PresentAction,
        PresentError,
    >)
        requires
            old(self).wf(),
        ensures
            final(self).wf(),
            result is Ok <==> old(self)@.can_present(frame_index),
            result matches Ok(action) ==> {
                &&& final(self)@ == old(self)@.present_step(frame_index)
                &&& action.index == frame_index
                &&& action.sync_interval == 1
                &&& action.wait_semaphores@ == wait_semaphores@
                &&& in_flight_count(final(self)@.states) == in_flight_count(old(self)@.states)
            },
            result is Err ==> final(self)@ == old(self)@,
            result matches Err(e) ==> e == old(self)@.present_error(frame_index),
            old(self)@.status == SwapchainStatus::Operational && !old(self)@.can_present(
                frame_index,
            ) ==> (result matches Err(e) && e == PresentError::NotAcquired),
    {
        match self.status {
            SwapchainStatus::SurfaceLost => {
                return Err(PresentError::SurfaceLost);
            },
            SwapchainStatus::DeviceLost => {
                return Err(PresentError::DeviceLost);
            },
            SwapchainStatus::Operational => {},
        }
        if frame_index >= self.image_count {
            return Err(PresentError::NotAcquired);
        }
        match self.states[frame_index as usize] {
            BufferState::Acquired => {},
            BufferState::Presentable => {
                return Err(PresentError::NotAcquired);
            },
            BufferState::Queued => {
                return Err(PresentError::NotAcquired);
            },
        }
        proof {
            lemma_present_preserves_wf(self@, frame_index);
        }
        self.states[frame_index as usize] = BufferState::Queued;
        self.frame_queue.push(frame_index);
        let mut waits: Vec<u64> = Vec::new();
        let mut k: usize = 0;
        proof {
            assert(waits@ =~= wait_semaphores@.subrange(0, 0));
        }
        while k < wait_semaphores.len()
            invariant
                k <= wait_semaphores.len(),
                waits@ == wait_semaphores@.subrange(0, k as int),
            decreases wait_semaphores.len() - k,
        {
            waits.push(wait_semaphores[k]);
            proof {
                assert(waits@ =~= wait_semaphores@.subrange(0, (k + 1) as int));
            }
            k = k + 1;
        }
        proof {
            assert(waits@ =~= wait_semaphores@);
            assert(self@.states =~= old(self)@.present_step(frame_index).states);
            assert(self@.frame_queue =~= old(self)@.present_step(frame_index).frame_queue);
            assert(self@ == old(self)@.present_step(frame_index));
        }
        Ok(PresentAction { index: frame_index, sync_interval: 1, wait_semaphores: waits })
    }

    /// Applies what the native present call reported. A loss reported by
    /// the engine retires the swapchain — every later acquire or present
    /// fails with the corresponding loss error, never retrying silently —
    /// while a successful present changes nothing further.
    pub fn record_present_outcome(&mut self, outcome: PresentOutcome)
        requires
            old(self).wf(),
        ensures
            final(self).wf(),
            final(self)@ == old(self)@.outcome_step(outcome),
    {
        match outcome {
            PresentOutcome::Presented => {},
            PresentOutcome::SurfaceLost => {
                self.status = SwapchainStatus::SurfaceLost;
            },
            PresentOutcome::DeviceLost => {
                self.status = SwapchainStatus::DeviceLost;
            },
        }
    }

    /// The engine reclaims: the oldest queued buffer, if any, returns to
    /// the engine's ownership and becomes presentable again. In the real
    /// system the engine signals this after a presented frame leaves the
    /// screen; the caller invokes this when that signal arrives (or, in a
    /// simulation, on the fake engine's schedule).
    pub fn reclaim(&mut self) -> (result: Option<u32>)
        requires
            old(self).wf(),
        ensures
            final(self).wf(),
            result is Some <==> old(self)@.frame_queue.len() > 0,
            result matches Some(index) ==> {
                &&& index == old(self)@.frame_queue[0]
                &&& final(self)@ == old(self)@.reclaim_step()
                &&& final(self)@.states[index as int] == BufferState::Presentable
                &&& in_flight_count(final(self)@.states) == in_flight_count(old(self)@.states) - 1
            },
            result is None ==> final(self)@ == old(self)@,
    {
        if self.frame_queue.len() == 0 {
            return None;
        }
        proof {
            lemma_reclaim_preserves_wf(self@);
        }
        let index = self.frame_queue.remove(0);
        self.states[index as usize] = BufferState::Presentable;
        proof {
            assert(self@.states =~= old(self)@.reclaim_step().states);
            assert(self@.frame_queue =~= old(self)@.reclaim_step().frame_queue);
            assert(self@ == old(self)@.reclaim_step());
        }
        Some(index)
    }
}

/// Round trip: once the engine reclaims the oldest queued buffer and the
/// ring's candidate has wrapped back to it, acquisition succeeds again and
/// yields exactly that previously queued index.
pub proof fn lemma_reclaim_enables_reacquire(m: SwapchainModel)
    requires
        m.wf(),
        m.status == SwapchainStatus::Operational,
        m.frame_queue.len() > 0,
        m.next_frame == m.frame_queue[0],
    ensures
        m.reclaim_step().wf(),
        m.reclaim_step().can_acquire(),
        m.reclaim_step().next_frame == m.frame_queue[0],
{
    lemma_reclaim_preserves_wf(m);
}

} // verus!
