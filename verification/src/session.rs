//! The decisions of the read-decode-report loop.
//!
//! The surrounding program owns the stream: it opens the port, performs each
//! read, prints report lines and diagnostics, and loops forever. This module
//! holds the pure part: what one read result must produce, and what a whole
//! sequence of reads must emit. A timeout produces nothing; a chunk of the
//! wrong length produces one malformed-length diagnostic; any other read
//! error produces one error diagnostic and never ends the session; a 48-byte
//! chunk produces one report of the decoded sample.

use vstd::prelude::*;
use crate::frame::{decode_frame, is_decode_of, ImuSample, FRAME_LEN};

verus! {

/// The outcome of one read call on the byte stream: the bytes actually read,
/// a timeout (the expected idle condition), or any other I/O error carried as
/// its rendered message.
#[derive(Debug, PartialEq)]
pub enum ReadEvent {
    Data(Vec<u8>),
    Timeout,
    Failed(String),
}

/// What one read cycle emits: a report line for a decoded sample, one
/// malformed-length diagnostic citing the observed length, or one I/O-error
/// diagnostic carrying the error's message.
#[derive(Debug, PartialEq)]
pub enum LoopOutput {
    Report(ImuSample),
    BadLength(usize),
    IoError(String),
}

/// `out` is exactly what the read outcome `e` must emit.
pub open spec fn is_output_for(e: ReadEvent, out: LoopOutput) -> bool {
    match e {
        ReadEvent::Data(b) => {
            if b@.len() == FRAME_LEN {
                out matches LoopOutput::Report(s) && is_decode_of(b@, s)
            } else {
                out == LoopOutput::BadLength(b@.len() as usize)
            }
        },
        ReadEvent::Timeout => false,
        ReadEvent::Failed(m) => out matches LoopOutput::IoError(msg) && msg@ == m@,
    }
}

/// Handle the outcome of one read call. Exactly the timeout outcome is
/// silent; every other outcome emits exactly one output, and none of them
/// ends the loop.
pub fn handle_read(event: &ReadEvent) -> (r: Option<LoopOutput>)
    ensures
        r is None <==> event is Timeout,
        r matches Some(out) ==> is_output_for(*event, out),
{
    match event {
        ReadEvent::Data(chunk) => {
            match decode_frame(chunk.as_slice()) {
                Some(sample) => Some(LoopOutput::Report(sample)),
                None => Some(LoopOutput::BadLength(chunk.len())),
            }
        },
        ReadEvent::Timeout => None,
        ReadEvent::Failed(message) => Some(LoopOutput::IoError(message.clone())),
    }
}

/// `outputs` is exactly what the sequence of read outcomes `events` must
/// emit, in order: timeouts emit nothing, every other outcome emits exactly
/// one output.
pub open spec fn session_emits(events: Seq<ReadEvent>, outputs: Seq<LoopOutput>) -> bool
    decreases events.len(),
{
    if events.len() == 0 {
        outputs.len() == 0
    } else if events.last() is Timeout {
        session_emits(events.drop_last(), outputs)
    } else {
        &&& outputs.len() > 0
        &&& is_output_for(events.last(), outputs.last())
        &&& session_emits(events.drop_last(), outputs.drop_last())
    }
}

/// The read outcomes of `events` that are not timeouts, in read order.
pub open spec fn non_timeout_events(events: Seq<ReadEvent>) -> Seq<ReadEvent>
    decreases events.len(),
{
    if events.len() == 0 {
        Seq::empty()
    } else if events.last() is Timeout {
        non_timeout_events(events.drop_last())
    } else {
        non_timeout_events(events.drop_last()).push(events.last())
    }
}

/// A session emits exactly one output for every read outcome that is not a
/// timeout — one report or one diagnostic, never more — and nothing at all
/// for a timeout; the outputs come in read order, each one the output its
/// read outcome demands.
pub proof fn lemma_session_pairs_outputs_with_reads(
    events: Seq<ReadEvent>,
    outputs: Seq<LoopOutput>,
)
    requires
        session_emits(events, outputs),
    ensures
        outputs.len() == non_timeout_events(events).len(),
        forall|k: int| 0 <= k < outputs.len()
            ==> is_output_for(non_timeout_events(events)[k], outputs[k]),
    decreases events.len(),
{
    if events.len() > 0 {
        if events.last() is Timeout {
            lemma_session_pairs_outputs_with_reads(events.drop_last(), outputs);
        } else {
            lemma_session_pairs_outputs_with_reads(events.drop_last(), outputs.drop_last());
            let reads = non_timeout_events(events);
            assert forall|k: int| 0 <= k < outputs.len()
                implies is_output_for(reads[k], outputs[k]) by {
                if k < outputs.len() - 1 {
                    assert(reads[k] == non_timeout_events(events.drop_last())[k]);
                    assert(outputs[k] == outputs.drop_last()[k]);
                } else {
                    assert(reads[k] == events.last());
                    assert(outputs[k] == outputs.last());
                }
            }
        }
    }
}

/// Everything one session of the decode loop emits.
pub struct SessionLog {
    /// The fatal open diagnostic, if the stream could not be opened.
    pub fatal: Option<String>,
    /// The outputs of the read cycles, in read order.
    pub outputs: Vec<LoopOutput>,
}

/// Run the decode loop over the outcomes of a finite sequence of reads.
///
/// If the stream could not be opened, the loop never runs: the log holds the
/// fatal diagnostic and no output at all. Otherwise every read outcome is
/// handled in order, and no outcome — not even a read error — cuts the
/// session short.
pub fn run_session(open_result: Result<(), String>, events: &Vec<ReadEvent>) -> (log: SessionLog)
    ensures
        open_result matches Err(m) ==> {
            &&& log.fatal matches Some(f) && f@ == m@
            &&& log.outputs@.len() == 0
        },
        open_result is Ok ==> {
            &&& log.fatal is None
            &&& session_emits(events@, log.outputs@)
        },
{
    match open_result {
        Err(message) => SessionLog { fatal: Some(message), outputs: Vec::new() },
        Ok(()) => {
            let mut outputs: Vec<LoopOutput> = Vec::new();
            let mut i: usize = 0;
            while i < events.len()
                invariant
                    i <= events@.len(),
                    session_emits(events@.take(i as int), outputs@),
                decreases events@.len() - i,
            {
                let ghost prev = outputs@;
                match handle_read(&events[i]) {
                    Some(out) => {
                        outputs.push(out);
                        proof {
                            assert(events@.take(i as int + 1).drop_last()
                                =~= events@.take(i as int));
                            assert(outputs@.drop_last() =~= prev);
                        }
                    },
                    None => {
                        proof {
                            assert(events@.take(i as int + 1).drop_last()
                                =~= events@.take(i as int));
                        }
                    },
                }
                i = i + 1;
            }
            proof {
                assert(events@.take(events@.len() as int) =~= events@);
            }
            SessionLog { fatal: None, outputs }
        },
    }
}

} // verus!
