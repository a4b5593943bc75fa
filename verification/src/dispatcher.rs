//! The command dispatcher: the device core that consumes request bytes,
//! executes each decoded request against the event counter or the edge
//! generator, and produces the response frames to write back.
//!
//! The dispatcher determines a frame's total length from its leading
//! discriminant byte, then pulls exactly the remaining bytes of that frame.
//! An unrecognized discriminant is recovered from locally: the one byte is
//! discarded and the dispatcher returns to awaiting a request. The edge
//! generator's terminal report is forwarded by the dispatcher too, so the
//! transport has exactly one writer.

use vstd::bytes::*;
use vstd::prelude::*;
use vstd::slice::{slice_subrange, slice_to_vec};

use crate::actuator;
use crate::actuator::GENERATE_FRAME_LEN;
use crate::counter::{wrapping_succ, EventCounter};
use crate::generator::{spec_edge, spec_fault, spec_start, EdgeGenerator, GenModel, GeneratorState};
use crate::sensor;
use crate::sensor::{ResponseModel, IDENTITY_MAX_LEN};

verus! {

/// The wire's count width is 32 bits; a wider accumulator answers with its
/// low half, as the count register of the narrower revisions did.
pub open spec fn spec_count_on_wire(count: u64) -> u32 {
    (count % 0x1_0000_0000) as u32
}

/// The device core as the contracts see it.
pub struct DeviceModel {
    /// The event counter's accumulator.
    pub count: u64,
    /// The edge generator with its report slot.
    pub gen: GenModel,
    /// The bytes of the partially received request frame.
    pub inbuf: Seq<u8>,
    /// The identity sent in answer to an identity request.
    pub identity: Seq<u8>,
}

impl DeviceModel {
    /// The identity fits its frame; the partial frame is a strict prefix of
    /// a generation command, the only request longer than one byte; the
    /// generator is well formed.
    pub open spec fn wf(self) -> bool {
        &&& self.identity.len() <= IDENTITY_MAX_LEN
        &&& self.gen.wf()
        &&& (self.inbuf.len() == 0 || (self.inbuf[0] == 2 && self.inbuf.len()
            < GENERATE_FRAME_LEN))
    }
}

/// One dispatcher step: what one received byte does to the device and
/// which response frame, if any, it provokes.
///
/// A count query is answered from an atomic read-and-reset of the counter;
/// an identity query from the stored identity; a generation command is
/// collected byte by byte and then handed to the generator, whose answer
/// says whether it started; any other leading byte is discarded.
pub open spec fn spec_on_byte(d: DeviceModel, byte: u8) -> (DeviceModel, Option<Seq<u8>>) {
    if d.inbuf.len() == 0 {
        if byte == 0 {
            (
                (DeviceModel { count: 0, ..d }),
                Some(ResponseModel::Count(spec_count_on_wire(d.count)).spec_encode()),
            )
        } else if byte == 1 {
            (d, Some(ResponseModel::IAm(d.identity).spec_encode()))
        } else if byte == 2 {
            ((DeviceModel { inbuf: seq![2u8], ..d }), None)
        } else {
            (d, None)
        }
    } else {
        let buf = d.inbuf.push(byte);
        if buf.len() < GENERATE_FRAME_LEN {
            ((DeviceModel { inbuf: buf, ..d }), None)
        } else {
            let rising_edges = spec_u32_from_le_bytes(buf.subrange(1, 5));
            let period_picos = spec_u64_from_le_bytes(buf.subrange(5, 13));
            let started = spec_start(d.gen, rising_edges, period_picos);
            (
                (DeviceModel { gen: started.0, inbuf: Seq::empty(), ..d }),
                Some(started.1.spec_encode()),
            )
        }
    }
}

/// A whole received byte sequence, stepped through the dispatcher in
/// order: the final device and every response frame it provoked.
pub open spec fn spec_run(d: DeviceModel, input: Seq<u8>) -> (DeviceModel, Seq<Seq<u8>>)
    decreases input.len(),
{
    if input.len() == 0 {
        (d, Seq::empty())
    } else {
        let first = spec_on_byte(d, input[0]);
        let rest = spec_run(first.0, input.drop_first());
        (
            rest.0,
            match first.1 {
                Some(frame) => seq![frame] + rest.1,
                None => rest.1,
            },
        )
    }
}

/// Running one more byte after `input` is one more step on the run's
/// outcome.
pub proof fn lemma_run_snoc(d: DeviceModel, input: Seq<u8>, byte: u8)
    ensures
        spec_run(d, input.push(byte)).0 == spec_on_byte(spec_run(d, input).0, byte).0,
        spec_run(d, input.push(byte)).1 =~= (match spec_on_byte(spec_run(d, input).0, byte).1 {
            Some(frame) => spec_run(d, input).1.push(frame),
            None => spec_run(d, input).1,
        }),
    decreases input.len(),
{
    if input.len() == 0 {
        assert(input.push(byte) =~= seq![byte]);
        assert(input.push(byte)[0] == byte);
        assert(input.push(byte).drop_first() =~= Seq::<u8>::empty());
        assert(spec_run(d, input).1 =~= Seq::<Seq<u8>>::empty());
        let first = spec_on_byte(d, byte);
        assert(spec_run(first.0, Seq::<u8>::empty()).0 == first.0);
        assert(spec_run(first.0, Seq::<u8>::empty()).1 =~= Seq::<Seq<u8>>::empty());
        assert(spec_run(d, input.push(byte)).0 == first.0);
        match spec_on_byte(d, byte).1 {
            Some(frame) => {
                assert(seq![frame] + Seq::<Seq<u8>>::empty() =~= Seq::<Seq<u8>>::empty().push(
                    frame,
                ));
            },
            None => {
            },
        }
    } else {
        let snoc = input.push(byte);
        assert(snoc[0] == input[0]);
        assert(snoc.drop_first() =~= input.drop_first().push(byte));
        let first = spec_on_byte(d, input[0]);
        lemma_run_snoc(first.0, input.drop_first(), byte);
        let rest = spec_run(first.0, input.drop_first());
        match first.1 {
            Some(head) => {
                match spec_on_byte(rest.0, byte).1 {
                    Some(frame) => {
                        assert(seq![head] + rest.1.push(frame) =~= (seq![head] + rest.1).push(
                            frame,
                        ));
                    },
                    None => {
                    },
                }
            },
            None => {
            },
        }
    }
}

/// The device core: the dispatcher with the event counter, the edge
/// generator and the identity it serves.
///
/// The counter is reachable only as this type's contracts state: edge
/// notifications increment it, a served count query reads and resets it in
/// one indivisible step, and nothing else touches it.
pub struct Dispatcher {
    counter: EventCounter,
    generator: EdgeGenerator,
    inbuf: Vec<u8>,
    identity: Vec<u8>,
}

impl View for Dispatcher {
    type V = DeviceModel;

    closed spec fn view(&self) -> DeviceModel {
        DeviceModel {
            count: self.counter.count(),
            gen: self.generator@,
            inbuf: self.inbuf@,
            identity: self.identity@,
        }
    }
}

impl Dispatcher {
    /// A fresh device: counter at zero, generator idle, no partial frame.
    pub fn new(identity: Vec<u8>) -> (r: Self)
        requires
            identity@.len() <= IDENTITY_MAX_LEN,
        ensures
            r@ == (DeviceModel {
                count: 0,
                gen: GenModel { state: GeneratorState::Idle, report: None },
                inbuf: Seq::<u8>::empty(),
                identity: identity@,
            }),
            r@.wf(),
    {
        let r = Dispatcher {
            counter: EventCounter::new(),
            generator: EdgeGenerator::new(),
            inbuf: Vec::new(),
            identity,
        };
        proof {
            assert(r@.inbuf =~= Seq::<u8>::empty());
        }
        r
    }

    /// One qualifying edge was delivered: count it. Never blocks and never
    /// fails, whatever the dispatcher is doing.
    pub fn on_edge(&mut self)
        requires
            old(self)@.wf(),
        ensures
            final(self)@ == (DeviceModel { count: wrapping_succ(old(self)@.count), ..old(self)@ }),
            final(self)@.wf(),
    {
        self.counter.increment();
    }

    /// Consume one byte from the transport; hand back the response frame to
    /// write, if this byte completed a request.
    pub fn on_byte(&mut self, byte: u8) -> (r: Option<Vec<u8>>)
        requires
            old(self)@.wf(),
        ensures
            final(self)@ == spec_on_byte(old(self)@, byte).0,
            final(self)@.wf(),
            r matches Some(frame) ==> spec_on_byte(old(self)@, byte).1 == Some(frame@),
            r is None ==> spec_on_byte(old(self)@, byte).1 is None,
    {
        if self.inbuf.len() == 0 {
            if byte == 0 {
                let captured = self.counter.read_and_reset();
                let low = (captured % 0x1_0000_0000u64) as u32;
                let resp = sensor::Response::Count(low);
                Some(resp.encode())
            } else if byte == 1 {
                let id = slice_to_vec(self.identity.as_slice());
                let resp = sensor::Response::IAm(id);
                Some(resp.encode())
            } else if byte == 2 {
                self.inbuf.push(byte);
                proof {
                    assert(self@.inbuf =~= seq![2u8]);
                }
                None
            } else {
                None
            }
        } else {
            self.inbuf.push(byte);
            if self.inbuf.len() < GENERATE_FRAME_LEN {
                None
            } else {
                let rising_edges = u32_from_le_bytes(slice_subrange(self.inbuf.as_slice(), 1, 5));
                let period_picos = u64_from_le_bytes(slice_subrange(self.inbuf.as_slice(), 5, 13));
                let resp = self.generator.start(rising_edges, period_picos);
                self.inbuf = Vec::new();
                proof {
                    assert(self@.inbuf =~= Seq::<u8>::empty());
                }
                Some(resp.encode())
            }
        }
    }

    /// Consume a whole received byte sequence; hand back every response
    /// frame it provoked, in order.
    pub fn service(&mut self, input: &[u8]) -> (r: Vec<Vec<u8>>)
        requires
            old(self)@.wf(),
        ensures
            final(self)@ == spec_run(old(self)@, input@).0,
            final(self)@.wf(),
            r.deep_view() == spec_run(old(self)@, input@).1,
    {
        let mut out: Vec<Vec<u8>> = Vec::new();
        let mut i: usize = 0;
        proof {
            assert(input@.take(0) =~= Seq::<u8>::empty());
            assert(out.deep_view() =~= spec_run(old(self)@, input@.take(0)).1);
        }
        while i < input.len()
            invariant
                i <= input@.len(),
                self@ == spec_run(old(self)@, input@.take(i as int)).0,
                self@.wf(),
                out.deep_view() == spec_run(old(self)@, input@.take(i as int)).1,
            decreases input@.len() - i,
        {
            let byte = input[i];
            proof {
                lemma_run_snoc(old(self)@, input@.take(i as int), byte);
                assert(input@.take(i + 1) =~= input@.take(i as int).push(byte));
            }
            match self.on_byte(byte) {
                Some(frame) => {
                    out.push(frame);
                },
                None => {
                },
            }
            i += 1;
            proof {
                assert(out.deep_view() =~~= spec_run(old(self)@, input@.take(i as int)).1);
            }
        }
        proof {
            assert(input@.take(input@.len() as int) =~= input@);
        }
        out
    }

    /// The generator's state, for the harness that schedules edge driving.
    pub fn generation_status(&self) -> (s: GeneratorState)
        ensures
            s == self@.gen.state,
    {
        self.generator.status()
    }

    /// One output transition was driven for the running generation.
    pub fn generation_edge(&mut self)
        requires
            old(self)@.wf(),
            old(self)@.gen.state is Running,
        ensures
            final(self)@ == (DeviceModel { gen: spec_edge(old(self)@.gen), ..old(self)@ }),
            final(self)@.wf(),
    {
        self.generator.edge_emitted();
    }

    /// The hardware could not drive the output: the generation stops.
    pub fn generation_fault(&mut self)
        requires
            old(self)@.wf(),
            old(self)@.gen.state is Running,
        ensures
            final(self)@ == (DeviceModel { gen: spec_fault(old(self)@.gen), ..old(self)@ }),
            final(self)@.wf(),
    {
        self.generator.drive_fault();
    }

    /// Forward the generation's terminal report, if one is waiting, as the
    /// encoded frame to write. The slot empties: the report goes out
    /// exactly once.
    pub fn take_generation_report(&mut self) -> (r: Option<Vec<u8>>)
        requires
            old(self)@.wf(),
        ensures
            final(self)@ == (DeviceModel {
                gen: GenModel { state: old(self)@.gen.state, report: None },
                ..old(self)@
            }),
            final(self)@.wf(),
            old(self)@.gen.report matches Some(resp) ==> r matches Some(frame) && frame@
                == resp.spec_encode(),
            old(self)@.gen.report is None ==> r is None,
    {
        match self.generator.take_report() {
            Some(resp) => Some(resp.encode()),
            None => None,
        }
    }
}

/// One received byte served under the earlier protocol revision, as the
/// devices speaking [`sensor::Message`] do: the request byte is answered
/// with the captured count, 64 bits wide, and resets the counter in the
/// same indivisible read; any other byte is discarded.
pub fn service_message_byte(counter: &mut EventCounter, byte: u8) -> (r: Option<Vec<u8>>)
    ensures
        byte == 0 ==> final(counter).count() == 0 && (r matches Some(frame) && frame@
            == sensor::Message::Response(old(counter).count()).spec_encode()),
        byte != 0 ==> final(counter).count() == old(counter).count() && r is None,
{
    if byte == 0 {
        let captured = counter.read_and_reset();
        Some(sensor::Message::Response(captured).encode())
    } else {
        None
    }
}

/// Feeding the remainder of a generation command to a dispatcher that has
/// already collected a strict, nonempty prefix of it completes exactly that
/// command: the generator is asked to start with the assembled frame's
/// fields and its one answer is the one response of the run.
proof fn lemma_command_collection(d: DeviceModel, bytes: Seq<u8>)
    requires
        d.wf(),
        1 <= d.inbuf.len(),
        d.inbuf[0] == 2,
        d.inbuf.len() + bytes.len() == GENERATE_FRAME_LEN,
        bytes.len() >= 1,
    ensures
        ({
            let full = d.inbuf + bytes;
            let started = spec_start(
                d.gen,
                spec_u32_from_le_bytes(full.subrange(1, 5)),
                spec_u64_from_le_bytes(full.subrange(5, 13)),
            );
            let run = spec_run(d, bytes);
            &&& run.0.count == d.count
            &&& run.0.identity == d.identity
            &&& run.0.inbuf =~= Seq::<u8>::empty()
            &&& run.0.gen == started.0
            &&& run.1 =~= seq![started.1.spec_encode()]
        }),
    decreases bytes.len(),
{
    let buf = d.inbuf.push(bytes[0]);
    assert(d.inbuf + bytes.subrange(0, 1) =~= buf);
    if bytes.len() == 1 {
        assert(buf =~= d.inbuf + bytes);
        assert(bytes.drop_first() =~= Seq::<u8>::empty());
        let first = spec_on_byte(d, bytes[0]);
        assert(spec_run(first.0, Seq::<u8>::empty()).0 == first.0);
        assert(spec_run(first.0, Seq::<u8>::empty()).1 =~= Seq::<Seq<u8>>::empty());
        let started = spec_start(
            d.gen,
            spec_u32_from_le_bytes(buf.subrange(1, 5)),
            spec_u64_from_le_bytes(buf.subrange(5, 13)),
        );
        assert(spec_run(d, bytes).1 =~= seq![started.1.spec_encode()] + Seq::<Seq<u8>>::empty());
        assert(spec_run(d, bytes).1 =~= seq![started.1.spec_encode()]);
    } else {
        let d1 = DeviceModel { inbuf: buf, ..d };
        assert(spec_on_byte(d, bytes[0]) == (d1, None::<Seq<u8>>));
        lemma_command_collection(d1, bytes.drop_first());
        assert(d1.inbuf + bytes.drop_first() =~= d.inbuf + bytes);
    }
}

/// Dispatching one whole encoded generation command: a dispatcher awaiting
/// a request hands the command's fields to the generator and answers with
/// exactly the generator's one report — accepted and running, or refused
/// while one is already running; the counter and identity are untouched.
pub proof fn lemma_generate_command_dispatch(
    d: DeviceModel,
    rising_edges: u32,
    period_picos: u64,
)
    requires
        d.wf(),
        d.inbuf.len() == 0,
    ensures
        ({
            let frame = (actuator::Request::Generate { rising_edges, period_picos }).spec_encode();
            let started = spec_start(d.gen, rising_edges, period_picos);
            let run = spec_run(d, frame);
            &&& run.0.count == d.count
            &&& run.0.identity == d.identity
            &&& run.0.inbuf =~= Seq::<u8>::empty()
            &&& run.0.gen == started.0
            &&& run.1 =~= seq![started.1.spec_encode()]
        }),
{
    lemma_auto_spec_u32_to_from_le_bytes();
    lemma_auto_spec_u64_to_from_le_bytes();
    let frame = (actuator::Request::Generate { rising_edges, period_picos }).spec_encode();
    assert(frame.len() == GENERATE_FRAME_LEN);
    assert(frame[0] == 2);
    let d1 = DeviceModel { inbuf: seq![2u8], ..d };
    assert(spec_on_byte(d, frame[0]) == (d1, None::<Seq<u8>>));
    lemma_command_collection(d1, frame.drop_first());
    assert(d1.inbuf + frame.drop_first() =~= frame);
    assert(frame.subrange(1, 5) =~= spec_u32_to_le_bytes(rising_edges));
    assert(frame.subrange(5, 13) =~= spec_u64_to_le_bytes(period_picos));
}

/// What the device answers to a count query, the querier decodes back as
/// exactly the captured count — and the query left the counter at zero.
pub proof fn lemma_count_reply_reads_back(d: DeviceModel)
    requires
        d.wf(),
        d.inbuf.len() == 0,
    ensures
        ({
            let step = spec_on_byte(d, 0u8);
            &&& step.1 matches Some(frame) && ResponseModel::spec_decode(frame) == Some(
                ResponseModel::Count(spec_count_on_wire(d.count)),
            )
            &&& step.0.count == 0
        }),
{
    sensor::lemma_response_round_trip(ResponseModel::Count(spec_count_on_wire(d.count)));
}

/// What the device answers to an identity query, the querier decodes back
/// as exactly the stored identity; the counter and generator are untouched.
pub proof fn lemma_identity_reply_reads_back(d: DeviceModel)
    requires
        d.wf(),
        d.inbuf.len() == 0,
    ensures
        ({
            let step = spec_on_byte(d, 1u8);
            &&& step.1 matches Some(frame) && ResponseModel::spec_decode(frame) == Some(
                ResponseModel::IAm(d.identity),
            )
            &&& step.0 == d
        }),
{
    sensor::lemma_response_round_trip(ResponseModel::IAm(d.identity));
}

/// Dispatcher resynchronization: an unrecognized discriminant byte followed
/// by a valid count query yields exactly one response, and it is the count
/// frame.
pub proof fn lemma_dispatcher_resync(d: DeviceModel, junk: u8)
    requires
        d.wf(),
        d.inbuf.len() == 0,
        junk != 0,
        junk != 1,
        junk != 2,
    ensures
        ({
            let run = spec_run(d, seq![junk, 0u8]);
            &&& run.1.len() == 1
            &&& run.1[0] == ResponseModel::Count(spec_count_on_wire(d.count)).spec_encode()
            &&& run.0 == (DeviceModel { count: 0, ..d })
        }),
{
    let input = seq![junk, 0u8];
    let tail = input.drop_first();
    assert(tail =~= seq![0u8]);
    assert(spec_on_byte(d, junk) == (d, None::<Seq<u8>>));
    assert(tail.drop_first() =~= Seq::<u8>::empty());
    let second = spec_on_byte(d, 0u8);
    assert(spec_run(second.0, tail.drop_first()).1 =~= Seq::<Seq<u8>>::empty());
    assert(spec_run(d, tail).1 =~= seq![second.1->0] + Seq::<Seq<u8>>::empty());
    assert(spec_run(d, input).1 =~= seq![second.1->0]);
}

} // verus!
