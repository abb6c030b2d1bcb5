use lightseek::decoding::{advance_position, packet_step, room_step, start_position, PacketOutcome, PacketStep, RoomStep};

#[test]
fn packet_steps() {
    assert_eq!(packet_step(PacketOutcome::Decoded), PacketStep::Write);
    assert_eq!(packet_step(PacketOutcome::OtherTrack), PacketStep::Skip);
    assert_eq!(packet_step(PacketOutcome::DecodeError), PacketStep::Skip);
    assert_eq!(packet_step(PacketOutcome::NoPacket), PacketStep::Finish);
    assert_eq!(packet_step(PacketOutcome::DecodeFailed), PacketStep::Finish);
}

#[test]
fn room_steps() {
    assert_eq!(room_step(true, 100), RoomStep::GiveUp);
    assert_eq!(room_step(true, 0), RoomStep::GiveUp);
    assert_eq!(room_step(false, 2), RoomStep::Write);
    assert_eq!(room_step(false, 1), RoomStep::Wait);
    assert_eq!(room_step(false, 0), RoomStep::Wait);
}

#[test]
fn positions_continue_after_seek() {
    assert_eq!(start_position(None), 0);
    assert_eq!(start_position(Some(441_000)), 441_000);
    assert_eq!(advance_position(start_position(Some(441_000)), 1024), 442_024);
    assert_eq!(advance_position(0, 0), 0);
    assert_eq!(advance_position(u64::MAX - 1, 1), u64::MAX);
}
