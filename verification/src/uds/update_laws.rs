//! A firmware update as the client of the diagnostic server sees it, from the
//! announcement to the reset.

use vstd::prelude::*;

use crate::bytes;
use crate::drivers::flash;
use crate::drivers::flash::FlashOp;
use crate::drivers::flash::FlashOutcome;
use crate::ota;
use crate::ota::OtaModel;
use crate::ota::StepModel;
use crate::uds;
use crate::uds::download;
use crate::uds::pending;
use crate::uds::pending::PendingFn;
use crate::uds::pending::PendingJob;
use crate::uds::wire;
use crate::uds::ServerModel;
use crate::uds::TickStep;

verus! {

/// What a flash controller says of an operation, from the memory before it.
pub type Controller = spec_fn(flash::Memory, FlashOp) -> FlashOutcome;

/// A controller that carries out every operation.
pub open spec fn works(controller: Controller) -> bool {
    forall|mem: flash::Memory, op: FlashOp|
        match op {
            FlashOp::Read { start, len } => #[trigger] controller(mem, op) matches
                FlashOutcome::Words(words) && words@ == ota::laws::memory_words(
                mem,
                start as int,
                len,
            ),
            _ => controller(mem, op) matches FlashOutcome::Done(r) && r is Ok,
        }
}

/// Server, step and memory after the flash operations that `step` leads to.
/// `fuel` bounds their number.
pub open spec fn run(
    m: ServerModel,
    step: TickStep,
    mem: flash::Memory,
    controller: Controller,
    now_ms: u32,
    fuel: nat,
) -> (ServerModel, TickStep, flash::Memory)
    decreases fuel,
{
    match step {
        TickStep::Done => (m, step, mem),
        TickStep::Flash(op) => if fuel == 0 {
            (m, step, mem)
        } else {
            let next = m.resumed(controller(mem, op), now_ms);
            run(
                next.0,
                next.1,
                flash::carried_out(mem, op),
                controller,
                now_ms,
                (fuel - 1) as nat,
            )
        },
    }
}

/// Server and memory after a request, the tick that follows it and the flash
/// operations of that tick.
#[verifier::opaque]
pub open spec fn exchanged(
    m: ServerModel,
    mem: flash::Memory,
    request: Seq<u8>,
    controller: Controller,
    request_ms: u32,
    tick_ms: u32,
) -> (ServerModel, flash::Memory) {
    let after = uds::dispatched(m.state, m.config, request, request_ms);
    let waiting = ServerModel { state: after.0, config: after.1, ..m };
    let ticked = waiting.ticked(tick_ms);
    let end = run(ticked.0, ticked.1, mem, controller, tick_ms, 5);
    (end.0, end.2)
}

/// The request with number `n`: the announcement of `size` bytes, then the
/// blocks of `stream`, two bytes each, numbered from 1 modulo 256.
pub open spec fn request_number(stream: Seq<u8>, size: u32, n: int) -> Seq<u8> {
    if n == 0 {
        seq![0x34u8, 0x00] + bytes::u32_le(size)
    } else {
        seq![0x36u8, (n % 256) as u8, stream[2 * n - 2], stream[2 * n - 1]]
    }
}

/// Server and memory after the requests up to number `n`; `clock` gives the
/// times.
pub open spec fn after_requests(
    m: ServerModel,
    mem: flash::Memory,
    stream: Seq<u8>,
    size: u32,
    controller: Controller,
    clock: spec_fn(nat) -> u32,
    n: nat,
) -> (ServerModel, flash::Memory)
    decreases n,
{
    let before = if n == 0 {
        (m, mem)
    } else {
        after_requests(m, mem, stream, size, controller, clock, (n - 1) as nat)
    };
    exchanged(
        before.0,
        before.1,
        request_number(stream, size, n as int),
        controller,
        clock(2 * n),
        clock(2 * n + 1),
    )
}

/// A server that can take an update request: idle, in the programming session,
/// with security access and nothing queued.
pub open spec fn takes_updates(m: ServerModel) -> bool {
    &&& wire::runs_standard(m.config)
    &&& m.state.session is Programming
    &&& !(m.state.security is Locked)
    &&& !m.state.tx_disabled
    &&& m.state.state is Idle
    &&& m.config.queue == seq![None::<PendingJob>, None, None, None]
    &&& m.slot == 0
    &&& m.completed == seq![false, false, false, false]
}

/// The response `reply` is there to be fetched, and the server can take the
/// next update request.
pub open spec fn answers(m: ServerModel, reply: Seq<u8>) -> bool {
    &&& takes_updates(m)
    &&& m.state.response == reply
    &&& m.state.response_pending
}

/// A tick that is at its only job.
spec fn at_its_job(m: ServerModel, f: PendingFn) -> bool {
    &&& wire::runs_standard(m.config)
    &&& m.state.session is Programming
    &&& !(m.state.security is Locked)
    &&& !m.state.tx_disabled
    &&& m.state.state is Pending
    &&& m.config.queue == seq![Some(PendingJob { func: f }), None, None, None]
    &&& m.slot == 0
    &&& m.completed == seq![false, false, false, false]
}

proof fn lemma_job_ends(m: ServerModel, f: PendingFn, reply: Seq<u8>, now_ms: u32)
    requires
        at_its_job(m, f),
        reply.len() <= 7,
    ensures
        ({
            let end = m.job_answered(reply).jobs_done(now_ms);
            &&& end.1 == TickStep::Done
            &&& end.0.ota == m.ota
            &&& answers(end.0, reply)
        }),
{
    let m1 = m.job_answered(reply);
    let m2 = m1.next_slot();
    let m3 = m2.next_slot();
    let m4 = m3.next_slot();
    assert(m4.jobs_done(now_ms) == (m4.finished(now_ms), TickStep::Done));
    assert(m3.jobs_done(now_ms) == m4.jobs_done(now_ms));
    assert(m2.jobs_done(now_ms) == m3.jobs_done(now_ms));
    assert(m1.jobs_done(now_ms) == m2.jobs_done(now_ms));
    assert(m4.completed =~= seq![true, false, false, false]);
    assert(m4.completed[0]);
    assert(pending::any_completed(m4.config.queue, m4.completed));
    let end = m4.finished(now_ms);
    assert(end.config.queue =~= seq![None::<PendingJob>, None, None, None]);
    assert(end.config.drained());
}

/// The flash operations of a job are those of the update machine.
proof fn lemma_run_settles(
    m: ServerModel,
    f: PendingFn,
    op: FlashOp,
    mem: flash::Memory,
    controller: Controller,
    now_ms: u32,
    fuel: nat,
    reply: Seq<u8>,
)
    requires
        works(controller),
        at_its_job(m, f),
        reply.len() <= 7,
        ota::laws::settled(m.ota, StepModel::Flash(op), mem, fuel).1 == StepModel::Reply(reply),
    ensures
        ({
            let s = ota::laws::settled(m.ota, StepModel::Flash(op), mem, fuel);
            let end = run(m, TickStep::Flash(op), mem, controller, now_ms, fuel);
            &&& end.0.ota == s.0
            &&& end.2 == s.2
            &&& answers(end.0, reply)
        }),
    decreases fuel,
{
    let outcome = controller(mem, op);
    let went_on = match op {
        FlashOp::Read { start, len } => m.ota.read_done(
            ota::laws::memory_words(mem, start as int, len),
        ),
        _ => m.ota.done(true),
    };
    assert(m.ota.resumed(outcome) == went_on);
    let after = flash::carried_out(mem, op);
    let next = ServerModel { ota: went_on.0, ..m };
    let rest = (fuel - 1) as nat;
    assert(ota::laws::settled(m.ota, StepModel::Flash(op), mem, fuel) == ota::laws::settled(
        went_on.0,
        went_on.1,
        after,
        rest,
    ));
    match went_on.1 {
        StepModel::Reply(r) => {
            assert(r == reply);
            lemma_job_ends(next, f, reply, now_ms);
            let end = m.resumed(outcome, now_ms);
            assert(run(end.0, end.1, after, controller, now_ms, rest) == (end.0, end.1, after));
        },
        StepModel::Flash(op2) => {
            lemma_run_settles(next, f, op2, after, controller, now_ms, rest, reply);
        },
    }
}

/// The work of an update request.
spec fn work(o: OtaModel, request: Seq<u8>) -> (OtaModel, StepModel) {
    if request[0] == 0x34 {
        o.request_download(request.skip(1))
    } else if request[0] == 0x36 {
        o.transfer_data(request.skip(1))
    } else {
        o.transfer_exit(Seq::empty())
    }
}

/// An exchange is a step of the update machine.
proof fn lemma_exchange_settles(
    m: ServerModel,
    mem: flash::Memory,
    request: Seq<u8>,
    controller: Controller,
    request_ms: u32,
    tick_ms: u32,
    fuel: nat,
    reply: Seq<u8>,
)
    requires
        works(controller),
        takes_updates(m),
        wire::has_update_shape(request),
        reply.len() <= 7,
        fuel <= 5,
        ota::laws::settled(work(m.ota, request).0, work(m.ota, request).1, mem, fuel).1
            == StepModel::Reply(reply),
    ensures
        ({
            let s = ota::laws::settled(work(m.ota, request).0, work(m.ota, request).1, mem, fuel);
            let end = exchanged(m, mem, request, controller, request_ms, tick_ms);
            &&& end.0.ota == s.0
            &&& end.1 == s.2
            &&& answers(end.0, reply)
        }),
{
    reveal(exchanged);
    wire::law_update_requests_are_queued(m.state, m.config, request, request_ms, 0);
    let after = uds::dispatched(m.state, m.config, request, request_ms);
    let queued = ServerModel { state: after.0, config: after.1, ..m };
    let f = if request[0] == 0x34 {
        PendingFn::Erase
    } else if request[0] == 0x36 {
        PendingFn::Transfer
    } else {
        PendingFn::Exit
    };
    assert(queued.config.queue =~= seq![Some(PendingJob { func: f }), None, None, None]);
    assert(at_its_job(queued, f));
    let begun = work(m.ota, request);
    assert(download::job_begun(queued.state, queued.ota, PendingJob { func: f }) == begun);
    let busy = ServerModel { ota: begun.0, ..queued };
    lemma_more_fuel(begun.0, begun.1, mem, fuel, 5, reply);
    match begun.1 {
        StepModel::Reply(r) => {
            assert(r == reply);
            lemma_job_ends(busy, f, reply, tick_ms);
            let t = queued.ticked(tick_ms);
            assert(t == busy.job_answered(reply).jobs_done(tick_ms));
            assert(run(t.0, t.1, mem, controller, tick_ms, 5) == (t.0, t.1, mem));
        },
        StepModel::Flash(op) => {
            assert(queued.ticked(tick_ms) == (busy, TickStep::Flash(op)));
            lemma_run_settles(busy, f, op, mem, controller, tick_ms, 5, reply);
        },
    }
}

/// A step that has settled stays settled.
proof fn lemma_more_fuel(
    o: OtaModel,
    step: StepModel,
    mem: flash::Memory,
    fuel: nat,
    more: nat,
    reply: Seq<u8>,
)
    requires
        fuel <= more,
        ota::laws::settled(o, step, mem, fuel).1 == StepModel::Reply(reply),
    ensures
        ota::laws::settled(o, step, mem, more) == ota::laws::settled(o, step, mem, fuel),
    decreases fuel,
{
    if let StepModel::Flash(op) = step {
        let after = flash::carried_out(mem, op);
        let next = match op {
            FlashOp::Read { start, len } => o.read_done(
                ota::laws::memory_words(mem, start as int, len),
            ),
            _ => o.done(true),
        };
        lemma_more_fuel(next.0, next.1, after, (fuel - 1) as nat, (more - 1) as nat, reply);
    }
}

/// The requests do to server and memory what their payloads do to the update
/// machine.
proof fn lemma_requests_settle(
    m: ServerModel,
    mem: flash::Memory,
    stream: Seq<u8>,
    size: u32,
    controller: Controller,
    clock: spec_fn(nat) -> u32,
    n: nat,
)
    requires
        works(controller),
        takes_updates(m),
        m.ota.inv(),
        m.ota.ready(),
        m.ota.state is Idle,
        ota::laws::is_stream(stream, size),
        2 * n <= stream.len(),
    ensures
        ({
            let end = after_requests(m, mem, stream, size, controller, clock, n);
            let s = ota::laws::after_blocks(m.ota, mem, stream, size, n);
            &&& end.0.ota == s.0
            &&& end.1 == s.2
            &&& answers(end.0, ota::laws::acknowledgement(n as int))
        }),
    decreases n,
{
    ota::laws::law_blocks_are_acknowledged(m.ota, mem, stream, size, n);
    let request = request_number(stream, size, n as int);
    let reply = ota::laws::acknowledgement(n as int);
    let before = if n == 0 {
        (m, mem)
    } else {
        after_requests(m, mem, stream, size, controller, clock, (n - 1) as nat)
    };
    if n == 0 {
        assert(request.skip(1) =~= ota::laws::announcement(size));
    } else {
        lemma_requests_settle(m, mem, stream, size, controller, clock, (n - 1) as nat);
        assert(request.skip(1) =~= ota::laws::block(stream, n - 1));
    }
    lemma_exchange_settles(
        before.0,
        before.1,
        request,
        controller,
        clock(2 * n),
        clock(2 * n + 1),
        1,
        reply,
    );
}

/// With a flash controller that works, every request of an update is
/// acknowledged: the announcement of 1 to 51200 bytes with
/// `[0x74, 0x00, 0x00, 0x02]`, block number `n` with `[0x76, n modulo 256]`.
pub proof fn law_server_acknowledges_every_block(
    m: ServerModel,
    mem: flash::Memory,
    stream: Seq<u8>,
    size: u32,
    controller: Controller,
    clock: spec_fn(nat) -> u32,
    n: nat,
)
    requires
        works(controller),
        takes_updates(m),
        m.ota.inv(),
        m.ota.ready(),
        m.ota.state is Idle,
        0 < size <= 51200,
        stream.len() == size || (size % 2 == 1 && stream.len() == size + 1),
        2 * n <= stream.len(),
        stream.len() % 2 == 0,
    ensures
        answers(
            after_requests(m, mem, stream, size, controller, clock, n).0,
            if n == 0 {
                seq![0x74u8, 0x00, 0x00, 0x02]
            } else {
                seq![0x76u8, (n % 256) as u8]
            },
        ),
{
    lemma_requests_settle(m, mem, stream, size, controller, clock, n);
}

/// With a flash controller that works, an image of even size that is announced,
/// sent in blocks and closed with `[0x37]` is answered `[0x77]`; the image is
/// then in the download partition from 0x0801_3000 on, the swap mark 0xF0 is at
/// 0x0800_6000, and the reset is due.
pub proof fn law_server_installs_the_image(
    m: ServerModel,
    mem: flash::Memory,
    image: Seq<u8>,
    controller: Controller,
    clock: spec_fn(nat) -> u32,
    request_ms: u32,
    tick_ms: u32,
)
    requires
        works(controller),
        takes_updates(m),
        m.ota.inv(),
        m.ota.ready(),
        m.ota.state is Idle,
        0 < image.len() <= 51200,
        image.len() % 2 == 0,
    ensures
        ({
            let n = image.len() / 2;
            let size = image.len() as u32;
            let sent = after_requests(m, mem, image, size, controller, clock, n);
            let end = exchanged(sent.0, sent.1, seq![0x37u8], controller, request_ms, tick_ms);
            &&& answers(end.0, seq![0x77u8])
            &&& end.0.ota.reset_requested
            &&& end.1(0x0800_6000) == 0xF0
            &&& forall|i: int| 0 <= i < image.len() ==> #[trigger] end.1(0x0801_3000 + i) == image[i]
        }),
{
    let n = image.len() / 2;
    let size = image.len() as u32;
    lemma_requests_settle(m, mem, image, size, controller, clock, n);
    ota::laws::law_complete_download_is_installed(m.ota, mem, image, size);
    let sent = after_requests(m, mem, image, size, controller, clock, n);
    let done = ota::laws::after_download(m.ota, mem, image, size);
    lemma_exchange_settles(
        sent.0,
        sent.1,
        seq![0x37u8],
        controller,
        request_ms,
        tick_ms,
        5,
        seq![0x77u8],
    );
    assert forall|i: int| 0 <= i < image.len() implies #[trigger] done.2(0x0801_3000 + i)
        == image[i] by {
        assert(done.2(ota::DFU_START + i) == image[i]);
    }
}

} // verus!
