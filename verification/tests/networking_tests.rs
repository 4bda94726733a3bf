use frakt::network::FrameError;
use frakt::networking::server::{
    calculate_resolution, next_fractal_index, next_task_parts, previous_fractal_index,
    take_random_tile, tile_position,
    tile_positions,
};
use frakt::networking::worker::{worker_name_or_generated, Worker};
use frakt::networking::{json_message_frame, message_frame, read_message_raw, result_frame};

#[test]
fn message_frame_layout_and_roundtrip() {
    let frame = message_frame(b"{\"x\":1}", Some(&[9, 8, 7]));
    assert_eq!(&frame[0..4], &10u32.to_be_bytes());
    assert_eq!(&frame[4..8], &7u32.to_be_bytes());
    assert_eq!(&frame[8..15], b"{\"x\":1}");
    assert_eq!(&frame[15..], &[9, 8, 7]);
    let raw = read_message_raw(&frame).unwrap();
    assert_eq!(raw.message_length, 10);
    assert_eq!(raw.json_length, 7);
    assert_eq!(raw.json_message, "{\"x\":1}");
    assert_eq!(raw.data, vec![9, 8, 7]);
}

#[test]
fn message_frame_without_data() {
    let frame = message_frame(b"{}", None);
    assert_eq!(frame, vec![0, 0, 0, 2, 0, 0, 0, 2, b'{', b'}']);
    let raw = read_message_raw(&frame).unwrap();
    assert!(raw.data.is_empty());
}

#[test]
fn json_frame_is_length_prefixed() {
    assert_eq!(json_message_frame("abc"), vec![0, 0, 0, 3, b'a', b'b', b'c']);
    assert_eq!(json_message_frame(""), vec![0, 0, 0, 0]);
}

#[test]
fn result_frame_roundtrip() {
    let signature = [0u8; 16];
    let frame = result_frame("{\"r\":true}", &[1, 2, 3, 4], &signature);
    assert_eq!(&frame[0..4], &(10u32 + 4 + 16).to_be_bytes());
    assert_eq!(&frame[4..8], &10u32.to_be_bytes());
    let raw = read_message_raw(&frame).unwrap();
    assert_eq!(raw.json_message, "{\"r\":true}");
    let mut expected = signature.to_vec();
    expected.extend_from_slice(&[1, 2, 3, 4]);
    assert_eq!(raw.data, expected);
}

#[test]
fn raw_message_with_invalid_utf8_is_lossy() {
    let frame = message_frame(&[b'a', 0xff, b'b'], Some(&[1]));
    let raw = read_message_raw(&frame).unwrap();
    assert_eq!(raw.json_message, "a\u{FFFD}b");
    assert_eq!(raw.data, vec![1]);
}

#[test]
fn raw_message_too_short() {
    assert!(matches!(read_message_raw(&[0, 0, 0]), Err(FrameError::UnexpectedEof)));
    let mut frame = message_frame(b"{}", Some(&[1, 2]));
    frame.pop();
    assert!(matches!(read_message_raw(&frame), Err(FrameError::UnexpectedEof)));
    let frame = vec![0, 0, 0, 5, 0, 0, 0, 5, b'{'];
    assert!(matches!(read_message_raw(&frame), Err(FrameError::UnexpectedEof)));
}

#[test]
fn fractal_cycling_wraps() {
    assert_eq!(next_fractal_index(0, 9), 1);
    assert_eq!(next_fractal_index(8, 9), 0);
    assert_eq!(previous_fractal_index(0, 9), 8);
    assert_eq!(previous_fractal_index(5, 9), 4);
    for i in 0..9 {
        assert_eq!(previous_fractal_index(next_fractal_index(i, 9), 9), i);
        assert_eq!(next_fractal_index(previous_fractal_index(i, 9), 9), i);
    }
}

#[test]
fn tile_resolution() {
    let r = calculate_resolution(300, 300, 4);
    assert_eq!((r.nx, r.ny), (75, 75));
    let r = calculate_resolution(1000, 301, 3);
    assert_eq!((r.nx, r.ny), (333, 100));
    // each side is kept modulo 2^16
    let r = calculate_resolution(70_000, 65_536, 1);
    assert_eq!((r.nx as u32, r.ny as u32), (70_000 - 65_536, 0));
}

#[test]
fn tile_grid() {
    assert_eq!(tile_position(5, 4), (1, 1));
    assert_eq!(tile_position(15, 4), (3, 3));
    let cells = tile_positions(4);
    assert_eq!(cells.len(), 16);
    for (k, cell) in cells.iter().enumerate() {
        assert_eq!(*cell, ((k % 4) as u8, (k / 4) as u8));
    }
    assert!(tile_positions(0).is_empty());
    // with more than 256 tiles the tile number wraps around as a byte
    let cells = tile_positions(17);
    assert_eq!(cells.len(), 289);
    assert_eq!(cells[256], (0, 0));
    assert_eq!(cells[255], (255 % 17, 255 / 17));
}

#[test]
fn worker_fields() {
    let w = Worker::new("w1".to_string(), 500, "localhost".to_string(), 8787);
    assert_eq!(w.name, "w1");
    assert_eq!(w.maximal_work_load, 500);
    assert_eq!(w.address, "localhost");
    assert_eq!(w.port, 8787);
}

#[test]
fn worker_names() {
    assert_eq!(worker_name_or_generated(Some("bob".to_string())), "bob");
    let a = worker_name_or_generated(None);
    let b = worker_name_or_generated(None);
    assert_eq!(a.len(), 43);
    assert!(a.starts_with("worker-"));
    assert_eq!(&a[15..16], "-");
    assert_ne!(a, b);
}

#[test]
fn random_tiles_are_taken_out() {
    let mut tiles = vec![10, 20, 30];
    let mut taken = Vec::new();
    while let Some(t) = take_random_tile(&mut tiles) {
        taken.push(t);
    }
    taken.sort();
    assert_eq!(taken, vec![10, 20, 30]);
    assert!(tiles.is_empty());
    assert_eq!(take_random_tile(&mut tiles), None);
}

#[test]
fn next_task_parts_take_a_tile() {
    let mut tiles = vec![10u32, 20, 30];
    let parts = next_task_parts(&mut tiles, 300, 200, 4).unwrap();
    assert!([10, 20, 30].contains(&parts.tile));
    assert_eq!(tiles.len(), 2);
    assert!(!tiles.contains(&parts.tile));
    assert_eq!(parts.id.offset, 0);
    assert_eq!(parts.id.count, 16);
    assert_eq!(parts.max_iteration, 256);
    assert_eq!(parts.resolution.nx, 75);
    assert_eq!(parts.resolution.ny, 50);
}

#[test]
fn next_task_parts_without_tiles() {
    let mut tiles: Vec<u32> = Vec::new();
    assert!(next_task_parts(&mut tiles, 300, 200, 0).is_none());
    assert!(tiles.is_empty());
}

#[test]
fn raw_message_json_larger_than_total_but_missing() {
    let frame = vec![0, 0, 0, 2, 0, 0, 0, 5, b'{', b'}', b' '];
    assert!(matches!(read_message_raw(&frame), Err(FrameError::UnexpectedEof)));
}

#[test]
fn generated_worker_name_is_hyphenated() {
    let name = worker_name_or_generated(None);
    for i in [15, 20, 25, 30] {
        assert_eq!(&name[i..i + 1], "-");
    }
}
