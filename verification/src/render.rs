//! The render loop that the audio driver calls once per hardware buffer.
//!
//! A hardware buffer is filled chunk by chunk. Before each chunk the loop
//! takes every command that waits in the control channel and hands them to
//! the engine together with the clock's reading; what the engine answers is
//! copied into every output channel; then the clock moves on by one step.
//! An engine that has no answer for a chunk leaves that chunk silent.
use vstd::prelude::*;
use vstd::arithmetic::div_mod::{
    lemma_fundamental_div_mod,
    lemma_fundamental_div_mod_converse_div,
    lemma_fundamental_div_mod_converse_mod,
};
use crate::channel::ControlChannel;
use crate::clock::{saturated, RenderClock};
use crate::command::Command;

verus! {

/// Why a hardware buffer was not rendered.
#[derive(Clone, Copy, Debug, PartialEq, Eq, Structural)]
pub enum RenderError {
    /// The frame count is not a whole number of chunks.
    Misaligned,
    /// An output channel holds fewer samples than the frame count.
    ShortChannel,
}

/// Whether `frames` frames are a whole number of chunks of `chunk_frames`.
pub open spec fn aligned(frames: int, chunk_frames: int) -> bool {
    chunk_frames > 0 && frames % chunk_frames == 0
}

/// Whether every output channel has room for `frames` samples.
pub open spec fn has_room<S>(outputs: Seq<Vec<S>>, frames: int) -> bool {
    forall|c: int| 0 <= c < outputs.len() ==> (#[trigger] outputs[c])@.len() >= frames
}

/// Why a buffer of `frames` frames is refused, if it is: a misaligned
/// frame count comes before a short channel.
pub open spec fn refusal<S>(outputs: Seq<Vec<S>>, frames: int, chunk_frames: int) -> Option<
    RenderError,
> {
    if !aligned(frames, chunk_frames) {
        Some(RenderError::Misaligned)
    } else if !has_room(outputs, frames) {
        Some(RenderError::ShortChannel)
    } else {
        None
    }
}

/// The clock's reading at the start of chunk number `chunk`, for a clock
/// that read `start` before the first chunk.
pub open spec fn timestamp_at(start: u64, step: u64, chunk: int) -> u64 {
    saturated(start + chunk * step) as u64
}

/// Sample `at` of a chunk as it is played: the engine's answer, or silence
/// where the engine had none.
pub open spec fn sample_of<S, const N: usize>(answer: Option<[S; N]>, silence: S, at: int) -> S {
    match answer {
        Some(chunk) => chunk@[at],
        None => silence,
    }
}

/// The sample that belongs at `frame`, given the engine's answers chunk by
/// chunk.
pub open spec fn frame_sample<S, const N: usize>(
    answers: Seq<Option<[S; N]>>,
    silence: S,
    frame: int,
) -> S {
    sample_of(answers[frame / (N as int)], silence, frame % (N as int))
}

/// Whether `after` is `before` with its first `frames` frames replaced, in
/// every channel alike, by what `answers` play, and nothing else changed.
pub open spec fn filled<S, const N: usize>(
    before: Seq<Vec<S>>,
    after: Seq<Vec<S>>,
    answers: Seq<Option<[S; N]>>,
    silence: S,
    frames: int,
) -> bool {
    &&& after.len() == before.len()
    &&& forall|c: int|
        0 <= c < before.len() ==> (#[trigger] after[c])@.len() == before[c]@.len()
    &&& forall|c: int, i: int|
        0 <= c < before.len() && 0 <= i < before[c]@.len() ==> (#[trigger] after[c]@[i]) == (if i
            < frames {
            frame_sample(answers, silence, i)
        } else {
            before[c]@[i]
        })
}

/// Whether `answers` are what the engine gave, chunk by chunk, when it was
/// handed `batches` and the clock's readings.
///
/// The first batch is everything that waited in the channel, in its order;
/// the later ones are empty.
pub open spec fn asked<S, D, E: Fn(Vec<Command<D>>, u64) -> Option<[S; N]>, const N: usize>(
    engine: E,
    waiting: Seq<Command<D>>,
    batches: Seq<Vec<Command<D>>>,
    answers: Seq<Option<[S; N]>>,
    start: u64,
    step: u64,
) -> bool {
    &&& batches.len() == answers.len()
    &&& forall|chunk: int|
        0 <= chunk < answers.len() ==> {
            &&& (#[trigger] batches[chunk])@ == (if chunk == 0 {
                waiting
            } else {
                Seq::empty()
            })
            &&& call_ensures(
                engine,
                (batches[chunk], timestamp_at(start, step, chunk)),
                answers[chunk],
            )
        }
}

/// A frame inside chunk number `chunk` has that chunk as its quotient.
proof fn lemma_frame_in_chunk(frame: int, chunk: int, size: int)
    requires
        size > 0,
        chunk * size <= frame < chunk * size + size,
    ensures
        frame / size == chunk,
        frame % size == frame - chunk * size,
{
    lemma_fundamental_div_mod_converse_div(frame, size, chunk, frame - chunk * size);
    lemma_fundamental_div_mod_converse_mod(frame, size, chunk, frame - chunk * size);
}

/// Copies one chunk, or silence, into `channel` from `offset` on.
fn write_chunk<S: Copy, const N: usize>(
    channel: &mut Vec<S>,
    offset: usize,
    answer: &Option<[S; N]>,
    silence: S,
)
    requires
        offset + N <= old(channel)@.len(),
    ensures
        final(channel)@.len() == old(channel)@.len(),
        forall|i: int|
            0 <= i < old(channel)@.len() ==> (#[trigger] final(channel)@[i]) == (if offset <= i
                < offset + N {
                sample_of(*answer, silence, i - offset)
            } else {
                old(channel)@[i]
            }),
{
    let total = channel.len();
    let mut at: usize = 0;
    while at < N
        invariant
            at <= N,
            offset + N <= total,
            channel@.len() == total,
            total == old(channel)@.len(),
            forall|i: int|
                0 <= i < total ==> (#[trigger] channel@[i]) == (if offset <= i < offset + at {
                    sample_of(*answer, silence, i - offset)
                } else {
                    old(channel)@[i]
                }),
        decreases N - at,
    {
        let sample = match answer {
            Some(chunk) => chunk[at],
            None => silence,
        };
        channel[offset + at] = sample;
        at += 1;
    }
}

/// Copies one chunk, or silence, into every output channel from `offset`
/// on.
fn broadcast<S: Copy, const N: usize>(
    outputs: &mut Vec<Vec<S>>,
    offset: usize,
    answer: &Option<[S; N]>,
    silence: S,
)
    requires
        has_room(old(outputs)@, offset + N),
    ensures
        final(outputs)@.len() == old(outputs)@.len(),
        forall|c: int|
            0 <= c < old(outputs)@.len() ==> (#[trigger] final(outputs)@[c])@.len() == old(
                outputs,
            )@[c]@.len(),
        forall|c: int, i: int|
            0 <= c < old(outputs)@.len() && 0 <= i < old(outputs)@[c]@.len() ==> (
            #[trigger] final(outputs)@[c]@[i]) == (if offset <= i < offset + N {
                sample_of(*answer, silence, i - offset)
            } else {
                old(outputs)@[c]@[i]
            }),
{
    let mut channel: usize = 0;
    while channel < outputs.len()
        invariant
            channel <= outputs@.len(),
            outputs@.len() == old(outputs)@.len(),
            has_room(old(outputs)@, offset + N),
            forall|c: int|
                0 <= c < outputs@.len() ==> (#[trigger] outputs@[c])@.len() == old(
                    outputs,
                )@[c]@.len(),
            forall|c: int, i: int|
                0 <= c < outputs@.len() && 0 <= i < old(outputs)@[c]@.len() ==> (
                #[trigger] outputs@[c]@[i]) == (if c < channel && offset <= i < offset + N {
                    sample_of(*answer, silence, i - offset)
                } else {
                    old(outputs)@[c]@[i]
                }),
        decreases outputs@.len() - channel,
    {
        assert(old(outputs)@[channel as int]@.len() >= offset + N);
        write_chunk(&mut outputs[channel], offset, answer, silence);
        channel += 1;
    }
}

/// Whether every output channel has room for `frames` samples.
fn room_for<S>(outputs: &Vec<Vec<S>>, frames: usize) -> (room: bool)
    ensures
        room == has_room(outputs@, frames as int),
{
    let mut checked: usize = 0;
    while checked < outputs.len()
        invariant
            checked <= outputs@.len(),
            forall|c: int| 0 <= c < checked ==> (#[trigger] outputs@[c])@.len() >= frames,
        decreases outputs@.len() - checked,
    {
        if outputs[checked].len() < frames {
            return false;
        }
        checked += 1;
    }
    true
}

/// Moving a clock on by one step takes it from one chunk's reading to the
/// next.
proof fn lemma_next_timestamp(start: u64, step: u64, chunk: int)
    requires
        chunk >= 0,
    ensures
        saturated(timestamp_at(start, step, chunk) + step) == timestamp_at(
            start,
            step,
            chunk + 1,
        ),
{
    assert((chunk + 1) * step == chunk * step + step) by (nonlinear_arith);
    assert(chunk * step >= 0) by (nonlinear_arith)
        requires
            chunk >= 0,
            step >= 0,
    ;
}

/// The state the render loop keeps from one hardware buffer to the next.
pub struct RenderLoop<S> {
    /// The clock whose reading stamps each chunk.
    pub clock: RenderClock,
    /// The sample that is played where the engine has no answer.
    pub silence: S,
}

impl<S: Copy> RenderLoop<S> {
    /// A render loop that starts at `clock`'s reading.
    pub fn new(clock: RenderClock, silence: S) -> (made: Self)
        ensures
            made.clock == clock,
            made.silence == silence,
    {
        RenderLoop { clock, silence }
    }

    /// Fills the first `frames` frames of every output channel.
    ///
    /// `N` is the engine's chunk size. A frame count that is not a whole
    /// number of chunks, or an output channel too short for it, is refused
    /// before anything is touched. Otherwise, for each chunk in turn, the
    /// engine is handed the commands that wait in `channel` and the clock's
    /// reading, its answer (or silence) is written to the same frames of
    /// every channel, and the clock moves on by one step.
    pub fn render<D, E: Fn(Vec<Command<D>>, u64) -> Option<[S; N]>, const N: usize>(
        &mut self,
        engine: E,
        channel: &mut ControlChannel<Command<D>>,
        frames: usize,
        outputs: &mut Vec<Vec<S>>,
    ) -> (result: Result<(), RenderError>)
        requires
            old(channel).wf(),
            forall|commands: Vec<Command<D>>, timestamp: u64|
                call_requires(engine, (commands, timestamp)),
        ensures
            final(channel).wf(),
            final(channel).capacity() == old(channel).capacity(),
            final(self).silence == old(self).silence,
            final(self).clock.step() == old(self).clock.step(),
            final(self).clock.wf() == old(self).clock.wf(),
            match result {
                Err(error) => {
                    &&& refusal(old(outputs)@, frames as int, N as int) == Some(error)
                    &&& final(outputs)@ == old(outputs)@
                    &&& final(channel)@ == old(channel)@
                    &&& final(self).clock.now() == old(self).clock.now()
                },
                Ok(_) => {
                    let chunks = frames as int / N as int;
                    &&& refusal(old(outputs)@, frames as int, N as int).is_none()
                    &&& final(self).clock.now() == timestamp_at(
                        old(self).clock.now(),
                        old(self).clock.step(),
                        chunks,
                    )
                    &&& final(channel)@ == (if chunks > 0 {
                        Seq::empty()
                    } else {
                        old(channel)@
                    })
                    &&& exists|batches: Seq<Vec<Command<D>>>, answers: Seq<Option<[S; N]>>|
                        {
                            &&& answers.len() == chunks
                            &&& #[trigger] asked(
                                engine,
                                old(channel)@,
                                batches,
                                answers,
                                old(self).clock.now(),
                                old(self).clock.step(),
                            )
                            &&& filled(
                                old(outputs)@,
                                final(outputs)@,
                                answers,
                                old(self).silence,
                                frames as int,
                            )
                        }
                },
            },
    {
        if N == 0 || frames % N != 0 {
            return Err(RenderError::Misaligned);
        }
        if !room_for(outputs, frames) {
            return Err(RenderError::ShortChannel);
        }
        let chunks = frames / N;
        let ghost start = self.clock.now();
        let ghost step = self.clock.step();
        let ghost waiting = channel@;
        let ghost mut batches: Seq<Vec<Command<D>>> = Seq::empty();
        let ghost mut answers: Seq<Option<[S; N]>> = Seq::empty();
        proof {
            lemma_fundamental_div_mod(frames as int, N as int);
            assert(start + 0 * step == start) by (nonlinear_arith);
        }
        let mut done: usize = 0;
        let mut offset: usize = 0;
        while done < chunks
            invariant
                N > 0,
                frames == N * chunks,
                done <= chunks,
                offset == done * N,
                offset <= frames,
                has_room(old(outputs)@, frames as int),
                channel.wf(),
                channel.capacity() == old(channel).capacity(),
                self.silence == old(self).silence,
                self.clock.step() == step,
                self.clock.wf() == old(self).clock.wf(),
                self.clock.now() == timestamp_at(start, step, done as int),
                channel@ == (if done > 0 {
                    Seq::empty()
                } else {
                    waiting
                }),
                answers.len() == done,
                asked(engine, waiting, batches, answers, start, step),
                filled(old(outputs)@, outputs@, answers, self.silence, offset as int),
                forall|commands: Vec<Command<D>>, timestamp: u64|
                    call_requires(engine, (commands, timestamp)),
            decreases chunks - done,
        {
            assert(offset + N <= frames) by (nonlinear_arith)
                requires
                    offset == done * N,
                    frames == N * chunks,
                    done < chunks,
            ;
            let commands = channel.receive_all();
            let ghost batch = commands;
            let timestamp = self.clock.now();
            let answer = engine(commands, timestamp);
            let ghost before = outputs@;
            assert(has_room(before, offset + N)) by {
                assert forall|c: int| 0 <= c < before.len() implies (#[trigger] before[c])@.len()
                    >= offset + N by {
                    assert(old(outputs)@[c]@.len() >= frames);
                }
            }
            broadcast(outputs, offset, &answer, self.silence);
            self.clock.advance();
            proof {
                let earlier = answers;
                batches = batches.push(batch);
                answers = answers.push(answer);
                lemma_next_timestamp(start, step, done as int);
                assert forall|c: int, i: int|
                    0 <= c < old(outputs)@.len() && 0 <= i < old(outputs)@[c]@.len() implies (
                #[trigger] outputs@[c]@[i]) == (if i < offset + N {
                    frame_sample(answers, self.silence, i)
                } else {
                    old(outputs)@[c]@[i]
                }) by {
                    assert(before[c]@.len() == old(outputs)@[c]@.len());
                    if i < offset {
                        assert(before[c]@[i] == frame_sample(earlier, self.silence, i));
                        assert(i / (N as int) < done) by (nonlinear_arith)
                            requires
                                0 <= i < offset,
                                offset == done * N,
                                N > 0,
                        ;
                        assert(i / (N as int) >= 0) by (nonlinear_arith)
                            requires
                                0 <= i,
                                N > 0,
                        ;
                    } else if i < offset + N {
                        lemma_frame_in_chunk(i, done as int, N as int);
                    }
                }
            }
            assert((done + 1) * N == done * N + N) by (nonlinear_arith);
            offset += N;
            done += 1;
        }
        assert(offset == frames) by (nonlinear_arith)
            requires
                offset == done * N,
                frames == N * chunks,
                done == chunks,
        ;
        assert(answers.len() == chunks && asked(engine, waiting, batches, answers, start, step)
            && filled(old(outputs)@, outputs@, answers, self.silence, frames as int));
        Ok(())
    }
}

/// The render timestamps never regress, and while the clock has not run
/// into the largest timestamp each chunk's reading is exactly one step
/// beyond the reading of the chunk before.
pub proof fn timestamps_advance_by_step(start: u64, step: u64, chunk: int)
    requires
        chunk >= 0,
    ensures
        timestamp_at(start, step, 0) == start,
        timestamp_at(start, step, chunk) <= timestamp_at(start, step, chunk + 1),
        start + (chunk + 1) * step <= u64::MAX ==> timestamp_at(start, step, chunk + 1)
            == timestamp_at(start, step, chunk) + step,
        start + (chunk + 1) * step <= u64::MAX && step > 0 ==> timestamp_at(start, step, chunk)
            < timestamp_at(start, step, chunk + 1),
        start + chunk * step <= u64::MAX ==> timestamp_at(start, step, chunk) == start + chunk
            * step,
{
    lemma_next_timestamp(start, step, chunk);
    assert(0 * step == 0) by (nonlinear_arith);
    assert(chunk * step >= 0) by (nonlinear_arith)
        requires
            chunk >= 0,
            step >= 0,
    ;
    assert((chunk + 1) * step == chunk * step + step) by (nonlinear_arith);
}

/// Rendering one buffer after another continues the same timestamps: the
/// reading `later` chunks after the reading `earlier` chunks after `start`
/// is the reading `earlier + later` chunks after `start`.
pub proof fn timestamps_continue_across_buffers(start: u64, step: u64, earlier: int, later: int)
    requires
        earlier >= 0,
        later >= 0,
    ensures
        timestamp_at(timestamp_at(start, step, earlier), step, later) == timestamp_at(
            start,
            step,
            earlier + later,
        ),
{
    assert((earlier + later) * step == earlier * step + later * step) by (nonlinear_arith);
    assert(earlier * step >= 0 && later * step >= 0) by (nonlinear_arith)
        requires
            earlier >= 0,
            later >= 0,
            step >= 0,
    ;
}

} // verus!
