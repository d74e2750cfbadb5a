//! Work that takes longer than a response may: a short queue of jobs, and
//! the interim response that asks the client to wait.

use vstd::prelude::*;

use crate::uds::config::ConfigModel;
use crate::uds::config::UdsConfig;
use crate::uds::nrc::Nrc;
use crate::uds::state;
use crate::uds::state::SrvState;
use crate::uds::state::UdsModel;
use crate::uds::state::UdsState;

verus! {

/// Slots of the queue.
pub const PENDING_QUEUE_SIZE: usize = 4;

/// What came of a request.
#[derive(Copy, Clone, Debug, PartialEq, Eq, Structural)]
pub enum DispatchResult {
    /// The response is there.
    Ready,
    /// Work is queued; the response comes later.
    Pending,
}

/// A kind of queued work.
#[derive(Copy, Clone, Debug, PartialEq, Eq, Structural)]
pub enum PendingFn {
    /// Begin a download: erase the partition.
    Erase,
    /// Take a block of the image.
    Transfer,
    /// Finish a download.
    Exit,
}

/// A queued job. It finds its input in the request in flight.
#[derive(Copy, Clone, Debug, PartialEq, Eq, Structural)]
pub struct PendingJob {
    pub func: PendingFn,
}

impl PendingJob {
    pub fn new(f: PendingFn) -> (job: PendingJob)
        ensures
            job.func == f,
    {
        PendingJob { func: f }
    }
}

/// Index of the first free slot from `i` on, or the number of slots.
pub open spec fn free_slot(queue: Seq<Option<PendingJob>>, i: int) -> int
    decreases queue.len() - i,
{
    if i < 0 || i >= queue.len() {
        queue.len() as int
    } else if queue[i] is None {
        i
    } else {
        free_slot(queue, i + 1)
    }
}

/// Puts a job into the first free slot. Returns `false`, and changes nothing,
/// when the queue is full.
pub fn push_pending(state: &mut UdsState, config: &mut UdsConfig, f: PendingFn) -> (queued: bool)
    ensures
        ({
            let slot = free_slot(old(config)@.queue, 0);
            &&& queued == (slot < old(config)@.queue.len())
            &&& queued ==> {
                &&& final(state)@ == (UdsModel { state: SrvState::Pending, ..old(state)@ })
                &&& final(config)@ == (ConfigModel {
                    queue: old(config)@.queue.update(slot, Some(PendingJob { func: f })),
                    ..old(config)@
                })
            }
            &&& !queued ==> final(state)@ == old(state)@ && final(config)@ == old(config)@
        }),
{
    let ghost queue = config.pending_queue@;
    let mut i: usize = 0;
    while i < PENDING_QUEUE_SIZE
        invariant
            i <= PENDING_QUEUE_SIZE,
            config.pending_queue@ == queue,
            queue.len() == PENDING_QUEUE_SIZE,
            free_slot(queue, 0) == free_slot(queue, i as int),
            config@ == old(config)@,
            state@ == old(state)@,
        decreases PENDING_QUEUE_SIZE - i,
    {
        if config.pending_queue[i].is_none() {
            config.pending_queue[i] = Some(PendingJob::new(f));
            state.state = SrvState::Pending;
            return true;
        }
        i = i + 1;
    }
    false
}

/// Whether one of the queued jobs is among the completed ones.
pub open spec fn any_completed(queue: Seq<Option<PendingJob>>, completed: Seq<bool>) -> bool {
    exists|i: int| 0 <= i < queue.len() && queue[i] is Some && #[trigger] completed[i]
}

/// The queue without the jobs that have completed.
pub open spec fn remaining_jobs(queue: Seq<Option<PendingJob>>, completed: Seq<bool>) -> Seq<
    Option<PendingJob>,
> {
    Seq::new(
        queue.len(),
        |i: int|
            if completed[i] {
                None
            } else {
                queue[i]
            },
    )
}

/// The queue after a tick.
pub open spec fn config_ticked(s: UdsModel, c: ConfigModel, completed: Seq<bool>) -> ConfigModel {
    if s.state is Pending {
        ConfigModel { queue: remaining_jobs(c.queue, completed), ..c }
    } else {
        c
    }
}

/// The state once the completed jobs are out of the queue.
pub open spec fn collected(s: UdsModel, c: ConfigModel, completed: Seq<bool>) -> UdsModel {
    if any_completed(c.queue, completed) {
        UdsModel {
            response_pending: true,
            state: if config_ticked(s, c, completed).drained() {
                SrvState::Idle
            } else {
                s.state
            },
            ..s
        }
    } else {
        s
    }
}

/// Milliseconds from `since` to `now`, 0 if `now` is earlier.
pub open spec fn elapsed(now: u32, since: u32) -> int {
    if now >= since {
        now - since
    } else {
        0
    }
}

/// The state with the interim response, if there is a request to name.
pub open spec fn told_to_wait(s: UdsModel) -> UdsModel {
    if s.request.len() == 0 {
        s
    } else {
        s.refused(s.request[0], Nrc::RequestCorrectlyReceivedResponsePending)
    }
}

/// The state after a tick.
pub open spec fn state_ticked(s: UdsModel, c: ConfigModel, completed: Seq<bool>, now_ms: u32) -> UdsModel {
    let after = collected(s, c, completed);
    if !(s.state is Pending) {
        s
    } else if after.state is Pending && elapsed(now_ms, after.request_tick_ms) >= c.p2_server_ms {
        UdsModel { request_tick_ms: now_ms, ..told_to_wait(after) }
    } else {
        after
    }
}

/// Takes the completed jobs out of the queue. When the last one is out the
/// server is idle again; while it is not, the client is told to wait once
/// every `p2_server_ms`.
pub fn tick(state: &mut UdsState, config: &mut UdsConfig, completed: [bool; 4], now_ms: u32)
    ensures
        final(state)@ == state_ticked(old(state)@, old(config)@, completed@, now_ms),
        final(config)@ == config_ticked(old(state)@, old(config)@, completed@),
{
    if state.state != SrvState::Pending {
        return;
    }
    let ghost before = config@;
    let mut any_complete = false;
    let mut queue_empty = true;
    let mut i: usize = 0;
    while i < PENDING_QUEUE_SIZE
        invariant
            i <= PENDING_QUEUE_SIZE,
            before.queue.len() == PENDING_QUEUE_SIZE,
            before == old(config)@,
            state@ == old(state)@,
            config@ == (ConfigModel { queue: config@.queue, ..before }),
            config@.queue.len() == PENDING_QUEUE_SIZE,
            forall|j: int|
                0 <= j < i ==> #[trigger] config@.queue[j] == if completed@[j] {
                    None
                } else {
                    before.queue[j]
                },
            forall|j: int| i <= j < PENDING_QUEUE_SIZE ==> #[trigger] config@.queue[j] == before.queue[j],
            any_complete == (exists|j: int|
                0 <= j < i && before.queue[j] is Some && #[trigger] completed@[j]),
            queue_empty == (forall|j: int|
                0 <= j < i ==> completed@[j] || #[trigger] before.queue[j] is None),
        decreases PENDING_QUEUE_SIZE - i,
    {
        if config.pending_queue[i].is_some() && completed[i] {
            any_complete = true;
        }
        if completed[i] {
            config.pending_queue[i] = None;
        }
        if config.pending_queue[i].is_some() {
            queue_empty = false;
        }
        i = i + 1;
    }
    assert(config@.queue =~= remaining_jobs(before.queue, completed@));
    assert(any_complete == any_completed(before.queue, completed@));
    assert(queue_empty == config@.drained()) by {
        assert forall|j: int| 0 <= j < PENDING_QUEUE_SIZE implies (#[trigger] before.queue[j] is None
            || completed@[j]) == (config@.queue[j] is None) by {}
    }
    if any_complete {
        state.response_pending = true;
        if queue_empty {
            state.state = SrvState::Idle;
        }
    }
    if state.state == SrvState::Pending {
        if now_ms.saturating_sub(state.request_tick_ms) >= config.p2_server_ms {
            send_response_pending(state, config);
            state.request_tick_ms = now_ms;
        }
    }
}

/// Stores the interim response for the request in flight.
pub fn send_response_pending(state: &mut UdsState, _config: &UdsConfig)
    ensures
        final(state)@ == told_to_wait(old(state)@),
{
    if state.request_buf.len() == 0 {
        return;
    }
    let sid: u8 = state.request_buf[0];
    state::store_negative(state, sid, Nrc::RequestCorrectlyReceivedResponsePending);
}

/// The length of the response that waits to be fetched, which then no
/// longer waits. An empty one counts as none.
pub fn take_response(state: &mut UdsState) -> (len: Option<u8>)
    requires
        old(state)@.wf(),
    ensures
        final(state)@ == (UdsModel { response_pending: false, ..old(state)@ }),
        len == if old(state)@.response_pending && old(state)@.response.len() > 0 {
            Some(old(state)@.response.len() as u8)
        } else {
            None
        },
{
    if !state.response_pending {
        return None;
    }
    state.response_pending = false;
    if state.response_buf.len() == 0 {
        return None;
    }
    Some(state.response_buf.len() as u8)
}

/// A job that does not fit is refused only when every slot is taken.
pub proof fn law_full_queue_has_no_free_slot(queue: Seq<Option<PendingJob>>, i: int)
    requires
        free_slot(queue, 0) >= queue.len(),
        0 <= i < queue.len(),
    ensures
        queue[i] is Some,
{
    lemma_slots_before_are_taken(queue, 0, i);
}

proof fn lemma_slots_before_are_taken(queue: Seq<Option<PendingJob>>, from: int, i: int)
    requires
        0 <= from <= i < queue.len(),
        free_slot(queue, from) > i,
    ensures
        queue[i] is Some,
    decreases i - from,
{
    if from < i {
        lemma_slots_before_are_taken(queue, from + 1, i);
    }
}

/// When every queued job completes, a tick empties the queue, leaves the
/// server idle and its response ready to be fetched.
pub proof fn law_completed_work_leaves_the_server_idle(
    s: UdsModel,
    c: ConfigModel,
    completed: Seq<bool>,
    now_ms: u32,
)
    requires
        s.state is Pending,
        !c.drained(),
        completed.len() == c.queue.len(),
        forall|i: int| 0 <= i < completed.len() ==> #[trigger] completed[i],
    ensures
        config_ticked(s, c, completed).drained(),
        state_ticked(s, c, completed, now_ms) == (UdsModel {
            state: SrvState::Idle,
            response_pending: true,
            ..s
        }),
{
    let i = choose|i: int| 0 <= i < c.queue.len() && !(#[trigger] c.queue[i] is None);
    assert(completed[i]);
    assert(any_completed(c.queue, completed));
    assert(config_ticked(s, c, completed).drained());
}

/// After the client was told to wait it is not told again until
/// `p2_server_ms` have passed.
pub proof fn law_waiting_is_announced_once_per_period(
    s: UdsModel,
    c: ConfigModel,
    first_ms: u32,
    second_ms: u32,
    none: Seq<bool>,
)
    requires
        s.state is Pending,
        none.len() == c.queue.len(),
        forall|i: int| 0 <= i < none.len() ==> !#[trigger] none[i],
        elapsed(first_ms, s.request_tick_ms) >= c.p2_server_ms,
        elapsed(second_ms, first_ms) < c.p2_server_ms,
    ensures
        ({
            let told = state_ticked(s, c, none, first_ms);
            let c1 = config_ticked(s, c, none);
            &&& told.request.len() > 0 ==> told.response
                == Nrc::RequestCorrectlyReceivedResponsePending.refusal(told.request[0])
            &&& c1.queue == c.queue
            &&& state_ticked(told, c1, none, second_ms) == told
        }),
{
    assert(config_ticked(s, c, none).queue =~= c.queue);
}

/// A tick takes exactly the completed jobs out of the queue. If one of them was
/// queued its response is ready to be fetched, and the server is idle exactly if
/// no job is left; the response itself stays as it is while it is not told to
/// wait.
pub proof fn law_tick_collects_completed_work(
    s: UdsModel,
    c: ConfigModel,
    completed: Seq<bool>,
    now_ms: u32,
    i: int,
)
    requires
        s.state is Pending,
        c.queue.len() == 4,
        completed.len() == 4,
        0 <= i < 4,
    ensures
        ({
            let queue = config_ticked(s, c, completed).queue;
            let after = state_ticked(s, c, completed, now_ms);
            &&& queue.len() == 4
            &&& queue[i] == if completed[i] {
                None
            } else {
                c.queue[i]
            }
            &&& c.queue[i] is Some && completed[i] ==> {
                &&& after.response_pending
                &&& after.state is Idle <==> queue[0] is None && queue[1] is None && queue[2] is None
                    && queue[3] is None
                &&& after.state is Idle ==> after.response == s.response
                &&& !(after.state is Idle) ==> after.state is Pending
            }
        }),
{
    let queue = config_ticked(s, c, completed).queue;
    if c.queue[i] is Some && completed[i] {
        assert(any_completed(c.queue, completed));
        assert(config_ticked(s, c, completed).drained() <==> queue[0] is None && queue[1] is None
            && queue[2] is None && queue[3] is None);
    }
}

} // verus!
