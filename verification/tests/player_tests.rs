use std::sync::mpsc::channel;
use tello::player::{
    parse_png_from_bytes, plan_update, rgba_len, video_payload, Frame, FrameUpdate, Player,
};

const PNG_2X2: [u8; 78] = [
    0x89, 0x50, 0x4e, 0x47, 0x0d, 0x0a, 0x1a, 0x0a, 0x00, 0x00, 0x00, 0x0d, 0x49, 0x48, 0x44, 0x52,
    0x00, 0x00, 0x00, 0x02, 0x00, 0x00, 0x00, 0x02, 0x08, 0x06, 0x00, 0x00, 0x00, 0x72, 0xb6, 0x0d,
    0x24, 0x00, 0x00, 0x00, 0x15, 0x49, 0x44, 0x41, 0x54, 0x78, 0xda, 0x63, 0xf8, 0xcf, 0xc0, 0xf0,
    0x1f, 0x0c, 0x81, 0xf4, 0x7f, 0x2e, 0x11, 0x39, 0x0d, 0x00, 0x40, 0x9a, 0x06, 0x5f, 0xa0, 0x9b,
    0xc2, 0x63, 0x00, 0x00, 0x00, 0x00, 0x49, 0x45, 0x4e, 0x44, 0xae, 0x42, 0x60, 0x82,
];

const PNG_1X1_RGB: [u8; 69] = [
    0x89, 0x50, 0x4e, 0x47, 0x0d, 0x0a, 0x1a, 0x0a, 0x00, 0x00, 0x00, 0x0d, 0x49, 0x48, 0x44, 0x52,
    0x00, 0x00, 0x00, 0x01, 0x00, 0x00, 0x00, 0x01, 0x08, 0x02, 0x00, 0x00, 0x00, 0x90, 0x77, 0x53,
    0xde, 0x00, 0x00, 0x00, 0x0c, 0x49, 0x44, 0x41, 0x54, 0x78, 0xda, 0x63, 0x60, 0x64, 0x62, 0x06,
    0x00, 0x00, 0x0e, 0x00, 0x07, 0xe9, 0x92, 0x37, 0xd4, 0x00, 0x00, 0x00, 0x00, 0x49, 0x45, 0x4e,
    0x44, 0xae, 0x42, 0x60, 0x82,
];

fn frame(width: u32, height: u32, len: usize) -> Frame {
    Frame { width, height, data: vec![7u8; len] }
}

#[test]
fn rgba_len_values() {
    assert_eq!(rgba_len(0, 0), Some(0));
    assert_eq!(rgba_len(1, 1), Some(4));
    assert_eq!(rgba_len(960, 720), Some(2_764_800));
    assert_eq!(rgba_len(0, 4_000_000_000), Some(0));
    assert_eq!(rgba_len(1, 1_073_741_823), Some(4_294_967_292));
}

#[test]
fn rgba_len_beyond_32_bits() {
    assert_eq!(rgba_len(1, 1_073_741_824), None);
    assert_eq!(rgba_len(65_536, 65_536), None);
    assert_eq!(rgba_len(32_768, 32_768), None);
    assert_eq!(rgba_len(u32::MAX, u32::MAX), None);
    assert_eq!(rgba_len(u32::MAX, 1), None);
}

#[test]
fn video_payload_strips_two_bytes() {
    assert_eq!(video_payload(&[1, 2, 3, 4, 5], 5), Some(vec![3, 4, 5]));
    assert_eq!(video_payload(&[1, 2, 3, 4, 5], 3), Some(vec![3]));
    assert_eq!(video_payload(&[1, 2], 2), Some(vec![]));
    assert_eq!(video_payload(&[1, 2, 3], 100), Some(vec![3]));
}

#[test]
fn video_payload_of_a_short_datagram() {
    assert_eq!(video_payload(&[], 0), None);
    assert_eq!(video_payload(&[1], 1), None);
    assert_eq!(video_payload(&[1, 2, 3], 1), None);
    assert_eq!(video_payload(&[1, 2, 3], 0), None);
}

#[test]
fn video_payload_of_a_full_buffer() {
    let buffer: Vec<u8> = (0..4096usize).map(|i| (i % 256) as u8).collect();
    let payload = video_payload(&buffer, 1462).expect("long enough");
    assert_eq!(payload.len(), 1460);
    assert_eq!(payload, buffer[2..1462].to_vec());
}

#[test]
fn plan_without_a_frame() {
    assert_eq!(plan_update(None, 4), FrameUpdate::Keep);
    assert_eq!(plan_update(None, 0), FrameUpdate::Keep);
}

#[test]
fn plan_with_a_fitting_frame() {
    assert_eq!(plan_update(Some(frame(1, 1, 4)), 4), FrameUpdate::Upload(frame(1, 1, 4)));
    assert_eq!(plan_update(Some(frame(0, 0, 0)), 0), FrameUpdate::Upload(frame(0, 0, 0)));
}

#[test]
fn plan_with_a_frame_of_another_size() {
    assert_eq!(plan_update(Some(frame(2, 2, 16)), 4), FrameUpdate::Reallocate(frame(2, 2, 16)));
    assert_eq!(plan_update(Some(frame(1, 1, 4)), 16), FrameUpdate::Reallocate(frame(1, 1, 4)));
    // Only the length of the data counts, not the size that the frame names.
    assert_eq!(plan_update(Some(frame(9, 9, 4)), 4), FrameUpdate::Upload(frame(9, 9, 4)));
}

#[test]
fn player_takes_frames_in_order() {
    let (sender, receiver) = channel();
    let player = Player::new(receiver);
    assert_eq!(player.poll(4), FrameUpdate::Keep);
    sender.send(frame(1, 1, 4)).expect("the player holds the channel");
    sender.send(frame(2, 1, 8)).expect("the player holds the channel");
    assert_eq!(player.poll(4), FrameUpdate::Upload(frame(1, 1, 4)));
    assert_eq!(player.poll(4), FrameUpdate::Reallocate(frame(2, 1, 8)));
    assert_eq!(player.poll(8), FrameUpdate::Keep);
}

#[test]
fn player_outlives_the_sender() {
    let (sender, receiver) = channel();
    let player = Player::new(receiver);
    sender.send(frame(1, 1, 4)).expect("the player holds the channel");
    drop(sender);
    assert_eq!(player.poll(4), FrameUpdate::Upload(frame(1, 1, 4)));
    assert_eq!(player.poll(4), FrameUpdate::Keep);
    assert_eq!(player.poll(4), FrameUpdate::Keep);
}

#[test]
fn parse_png_rgba() {
    let parsed = parse_png_from_bytes(PNG_2X2.to_vec());
    assert_eq!(
        parsed,
        Some(Frame {
            width: 2,
            height: 2,
            data: vec![255, 0, 0, 255, 0, 255, 0, 255, 0, 0, 255, 255, 10, 20, 30, 40],
        })
    );
}

#[test]
fn parse_png_rgb_leaves_the_rest_of_the_buffer_zero() {
    // Three bytes are decoded into a buffer of four.
    let parsed = parse_png_from_bytes(PNG_1X1_RGB.to_vec());
    assert_eq!(parsed, Some(Frame { width: 1, height: 1, data: vec![1, 2, 3, 0] }));
}

#[test]
fn parse_png_refuses_what_is_no_png() {
    assert_eq!(parse_png_from_bytes(Vec::new()), None);
    assert_eq!(parse_png_from_bytes(b"conn_ack:".to_vec()), None);
    assert_eq!(parse_png_from_bytes(PNG_2X2[..30].to_vec()), None);
    assert_eq!(parse_png_from_bytes(PNG_2X2[..50].to_vec()), None);
}

#[test]
fn parse_png_refuses_a_damaged_image() {
    let mut damaged = PNG_2X2.to_vec();
    damaged[45] ^= 0xff;
    assert_eq!(parse_png_from_bytes(damaged), None);
}

#[test]
fn video_frame_size() {
    assert_eq!(tello::player::VIDEO_WIDTH, 960);
    assert_eq!(tello::player::VIDEO_HEIGHT, 720);
    assert_eq!(tello::player::VIDEO_HEADER_LEN, 2);
    assert_eq!(tello::player::BYTES_PER_PIXEL, 4);
    assert_eq!(
        rgba_len(tello::player::VIDEO_WIDTH, tello::player::VIDEO_HEIGHT),
        Some(2_764_800)
    );
}
