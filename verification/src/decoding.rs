//! Decisions of a deck's decoding thread: what to do with each packet the
//! file yields, when to write into the ring buffer, and the playback
//! position it reports. Decoding and resampling themselves work on
//! floating-point samples and are done by the caller.

use vstd::prelude::*;

verus! {

/// What came of asking the file for its next packet and decoding it.
#[derive(Clone, Copy, Debug, PartialEq, Eq, Structural)]
pub enum PacketOutcome {
    /// No packet could be read: the end of the file, or a read error.
    NoPacket,
    /// The packet belongs to another track of the file.
    OtherTrack,
    /// The packet is corrupt; the decoder can go on with the next one.
    DecodeError,
    /// The decoder failed in a way it cannot recover from.
    DecodeFailed,
    /// The packet decoded into samples.
    Decoded,
}

/// What the decoding thread does next.
#[derive(Clone, Copy, Debug, PartialEq, Eq, Structural)]
pub enum PacketStep {
    /// Stop decoding: the track is done.
    Finish,
    /// Go on with the next packet.
    Skip,
    /// Write the decoded samples out.
    Write,
}

/// The step for a packet: decoded samples are written; packets of other
/// tracks and corrupt packets are skipped; anything else ends decoding.
pub fn packet_step(outcome: PacketOutcome) -> (r: PacketStep)
    ensures
        outcome == PacketOutcome::Decoded ==> r == PacketStep::Write,
        (outcome == PacketOutcome::OtherTrack || outcome == PacketOutcome::DecodeError) ==> r == PacketStep::Skip,
        (outcome == PacketOutcome::NoPacket || outcome == PacketOutcome::DecodeFailed) ==> r == PacketStep::Finish,
{
    match outcome {
        PacketOutcome::Decoded => PacketStep::Write,
        PacketOutcome::OtherTrack => PacketStep::Skip,
        PacketOutcome::DecodeError => PacketStep::Skip,
        PacketOutcome::NoPacket => PacketStep::Finish,
        PacketOutcome::DecodeFailed => PacketStep::Finish,
    }
}

/// What the decoding thread does before writing one stereo frame.
#[derive(Clone, Copy, Debug, PartialEq, Eq, Structural)]
pub enum RoomStep {
    /// The deck was stopped: give up.
    GiveUp,
    /// There is room for the frame: write it.
    Write,
    /// The buffer is full: sleep a little and look again.
    Wait,
}

/// The step before writing a frame of two samples: give up once the deck is
/// stopped, write when at least two slots are free, wait otherwise.
pub fn room_step(stopped: bool, free_slots: usize) -> (r: RoomStep)
    ensures
        r == (if stopped {
            RoomStep::GiveUp
        } else if free_slots >= 2 {
            RoomStep::Write
        } else {
            RoomStep::Wait
        }),
{
    if stopped {
        RoomStep::GiveUp
    } else if free_slots >= 2 {
        RoomStep::Write
    } else {
        RoomStep::Wait
    }
}

/// The playback position, in output frames, that decoding starts from: where
/// a successful seek landed, or the start of the track.
pub fn start_position(seeked_to: Option<u64>) -> (r: u64)
    ensures
        r == (match seeked_to {
            Some(p) => p,
            None => 0,
        }),
{
    match seeked_to {
        Some(p) => p,
        None => 0,
    }
}

/// The playback position after `written` more frames were written.
pub fn advance_position(position: u64, written: u64) -> (r: u64)
    requires
        position + written <= u64::MAX,
    ensures
        r == position + written,
{
    position + written
}

} // verus!
