//! The decoding loop of the pipelines as a state machine: packets of one
//! stream are sent to the decoder, which is drained after each packet; at the
//! end of the input the decoder is told so and drained once more.
use vstd::prelude::*;

verus! {

/// What the caller does next.
#[derive(Clone, Copy, Debug, PartialEq, Eq, Structural)]
pub enum DecodeAction {
    /// Read the next packet of the input.
    ReadPacket,
    /// Send the packet just read to the decoder.
    SendPacket,
    /// Ask the decoder for a frame (and take it where one comes).
    ReceiveFrame,
    /// Tell the decoder that no packet follows.
    SendEof,
    /// Nothing is left to do.
    Finished,
}

/// What the last action gave.
#[derive(Clone, Copy, Debug, PartialEq, Eq, Structural)]
pub enum DecodeInput {
    /// A packet of the stream with this index was read.
    Packet { stream_index: usize },
    /// The input has no packet left.
    EndOfInput,
    /// The status code of a call to the decoder (negative: no frame).
    Status { code: i32 },
}

/// Where the decoding loop stands.
#[derive(Clone, Copy, Debug, PartialEq, Eq, Structural)]
pub enum DecodeStage {
    /// Waiting for a packet (or the end of the input).
    Reading,
    /// A packet or the end-of-stream marker was sent.
    Sent,
    /// Asking the decoder for frames.
    Receiving,
    Done,
}

/// The decoding loop's state as plain values.
#[derive(Clone, Copy, Debug, PartialEq, Eq, Structural)]
pub struct DecodeDriver {
    /// Index of the stream whose packets are decoded.
    pub stream_index: usize,
    pub stage: DecodeStage,
    /// Whether the end of the input was reached.
    pub at_end: bool,
}

/// One step of the decoding loop.
pub open spec fn spec_decode_step(d: DecodeDriver, input: DecodeInput) -> (DecodeDriver, DecodeAction) {
    match d.stage {
        DecodeStage::Reading => match input {
            DecodeInput::Packet { stream_index } => if stream_index == d.stream_index {
                (DecodeDriver { stage: DecodeStage::Sent, ..d }, DecodeAction::SendPacket)
            } else {
                (d, DecodeAction::ReadPacket)
            },
            DecodeInput::EndOfInput => (
                DecodeDriver { stage: DecodeStage::Sent, at_end: true, ..d },
                DecodeAction::SendEof,
            ),
            DecodeInput::Status { .. } => (d, DecodeAction::ReadPacket),
        },
        DecodeStage::Sent => (
            DecodeDriver { stage: DecodeStage::Receiving, ..d },
            DecodeAction::ReceiveFrame,
        ),
        DecodeStage::Receiving => if input matches DecodeInput::Status { code } && code >= 0 {
            (d, DecodeAction::ReceiveFrame)
        } else if d.at_end {
            (DecodeDriver { stage: DecodeStage::Done, ..d }, DecodeAction::Finished)
        } else {
            (DecodeDriver { stage: DecodeStage::Reading, ..d }, DecodeAction::ReadPacket)
        },
        DecodeStage::Done => (d, DecodeAction::Finished),
    }
}

impl DecodeDriver {
    /// A decoding loop over the packets of stream `stream_index`; its first
    /// action is to read a packet.
    pub fn new(stream_index: usize) -> (d: DecodeDriver)
        ensures
            d == (DecodeDriver { stream_index, stage: DecodeStage::Reading, at_end: false }),
    {
        DecodeDriver { stream_index, stage: DecodeStage::Reading, at_end: false }
    }

    /// The next action, given what the last one gave.
    pub fn advance(&mut self, input: DecodeInput) -> (action: DecodeAction)
        ensures
            (*final(self), action) == spec_decode_step(*old(self), input),
            action == DecodeAction::SendEof ==> input == DecodeInput::EndOfInput,
            input matches DecodeInput::Packet { stream_index } ==> (old(self).stage
                == DecodeStage::Reading ==> (stream_index == old(self).stream_index <==> action
                == DecodeAction::SendPacket)),
            input matches DecodeInput::Packet { stream_index } ==> (old(self).stage
                == DecodeStage::Reading && stream_index != old(self).stream_index ==> *final(self)
                == *old(self) && action == DecodeAction::ReadPacket),
    {
        match self.stage {
            DecodeStage::Reading => match input {
                DecodeInput::Packet { stream_index } => {
                    if stream_index == self.stream_index {
                        self.stage = DecodeStage::Sent;
                        DecodeAction::SendPacket
                    } else {
                        DecodeAction::ReadPacket
                    }
                },
                DecodeInput::EndOfInput => {
                    self.stage = DecodeStage::Sent;
                    self.at_end = true;
                    DecodeAction::SendEof
                },
                DecodeInput::Status { .. } => DecodeAction::ReadPacket,
            },
            DecodeStage::Sent => {
                self.stage = DecodeStage::Receiving;
                DecodeAction::ReceiveFrame
            },
            DecodeStage::Receiving => {
                let got_frame = match input {
                    DecodeInput::Status { code } => code >= 0,
                    _ => false,
                };
                if got_frame {
                    DecodeAction::ReceiveFrame
                } else if self.at_end {
                    self.stage = DecodeStage::Done;
                    DecodeAction::Finished
                } else {
                    self.stage = DecodeStage::Reading;
                    DecodeAction::ReadPacket
                }
            },
            DecodeStage::Done => DecodeAction::Finished,
        }
    }
}

/// A packet is sent only when it belongs to the chosen stream, and a packet of
/// the chosen stream read while waiting for one is always sent.
pub proof fn lemma_only_chosen_stream_sent(d: DecodeDriver, input: DecodeInput)
    requires
        d.stage == DecodeStage::Reading,
    ensures
        spec_decode_step(d, input).1 == DecodeAction::SendPacket <==> input
            == (DecodeInput::Packet { stream_index: d.stream_index }),
{
}

/// While waiting for a packet, one of another stream is skipped: the state
/// stays as it was and the next packet is read. The end-of-stream marker is
/// sent only when the input has ended, and only while waiting for a packet;
/// a packet never ends the input.
pub proof fn lemma_other_streams_skipped(d: DecodeDriver, input: DecodeInput)
    ensures
        input matches DecodeInput::Packet { stream_index } ==> (d.stage == DecodeStage::Reading
            && stream_index != d.stream_index ==> spec_decode_step(d, input) == (
        d,
        DecodeAction::ReadPacket,
        )),
        spec_decode_step(d, input).1 == DecodeAction::SendEof ==> input == DecodeInput::EndOfInput
            && d.stage == DecodeStage::Reading,
        input is Packet ==> spec_decode_step(d, input).0.at_end == d.at_end,
        d.stage == DecodeStage::Reading && input == DecodeInput::EndOfInput ==> spec_decode_step(
            d,
            input,
        ) == (DecodeDriver { stage: DecodeStage::Sent, at_end: true, ..d }, DecodeAction::SendEof),
{
}

/// After a packet or the end-of-stream marker is sent, the decoder is asked
/// for frames until it has none; only then is another packet read, or, at the
/// end of the input, the loop finishes.
pub proof fn lemma_drain_after_send(d: DecodeDriver, input: DecodeInput, code: i32)
    ensures
        d.stage == DecodeStage::Sent ==> spec_decode_step(d, input).1 == DecodeAction::ReceiveFrame,
        d.stage == DecodeStage::Receiving && code >= 0 ==> spec_decode_step(
            d,
            DecodeInput::Status { code },
        ) == (d, DecodeAction::ReceiveFrame),
        d.stage == DecodeStage::Receiving && code < 0 ==> spec_decode_step(
            d,
            DecodeInput::Status { code },
        ).1 == if d.at_end {
            DecodeAction::Finished
        } else {
            DecodeAction::ReadPacket
        },
{
}

/// The end-of-stream marker is sent once: after it no packet is read or sent,
/// and once finished the loop stays finished.
pub proof fn lemma_end_is_final(d: DecodeDriver, input: DecodeInput)
    requires
        d.at_end,
    ensures
        spec_decode_step(d, input).0.at_end,
        d.stage != DecodeStage::Reading ==> spec_decode_step(d, input).1 != DecodeAction::SendPacket
            && spec_decode_step(d, input).1 != DecodeAction::SendEof && spec_decode_step(d, input).1
            != DecodeAction::ReadPacket,
        d.stage == DecodeStage::Done ==> spec_decode_step(d, input) == (d, DecodeAction::Finished),
{
}

/// A loop that has reached the end of its input is never back at reading.
pub proof fn lemma_never_reads_after_end(d: DecodeDriver, input: DecodeInput)
    requires
        d.at_end,
        d.stage != DecodeStage::Reading,
    ensures
        spec_decode_step(d, input).0.stage != DecodeStage::Reading,
{
}

} // verus!
