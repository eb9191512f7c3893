use orbital::frame::{
    copy_capture, downsample, face_accepted, outline_faces, paint_frame, swap_red_blue, FaceBox, CAPTURE_PIXELS,
    FRAME_PIXELS, OUTLINE_COLOUR, SMALL_PIXELS,
};

#[test]
fn swap_red_blue_matches_byte_reversal_and_rotation() {
    for p in [0u32, 0x11223344, 0xaabbccdd, 0xff000000, 0x000000ff, 0x00ff0000, 0xdeadbeef, u32::MAX] {
        assert_eq!(swap_red_blue(p), p.swap_bytes().rotate_right(8));
    }
    assert_eq!(swap_red_blue(0x11223344), 0x11443322);
}

#[test]
fn swap_red_blue_twice_is_identity() {
    for p in [0x12345678u32, 0x00ff00ff, 0xcafebabe] {
        assert_eq!(swap_red_blue(swap_red_blue(p)), p);
    }
}

#[test]
fn paint_frame_puts_the_shared_square_in_the_corner() {
    let shared: Vec<u32> = (0..CAPTURE_PIXELS as u32).collect();
    let mut texture = vec![7u32; FRAME_PIXELS + 3];
    paint_frame(&shared, &mut texture);
    for (row, col) in [(0usize, 0usize), (0, 511), (511, 0), (511, 511), (200, 300)] {
        assert_eq!(texture[row * 1280 + col], shared[row * 512 + col].swap_bytes().rotate_right(8));
    }
    assert_eq!(texture[512], 7);
    assert_eq!(texture[512 * 1280], 7);
    assert_eq!(texture[719 * 1280 + 1279], 7);
    assert_eq!(&texture[FRAME_PIXELS..], &[7, 7, 7]);
}

#[test]
fn paint_frame_of_a_uniform_camera_frame() {
    let shared = vec![0x11223344u32; CAPTURE_PIXELS];
    let mut texture = vec![0u32; FRAME_PIXELS];
    paint_frame(&shared, &mut texture);
    assert_eq!(texture[0], 0x11443322);
}

#[test]
fn downsample_takes_every_other_pixel_of_every_other_row() {
    let shared: Vec<u32> = (0..CAPTURE_PIXELS as u32).collect();
    let mut buffer = vec![0u8; SMALL_PIXELS + 1];
    buffer[SMALL_PIXELS] = 9;
    downsample(&shared, &mut buffer);
    for (row, col) in [(0usize, 0usize), (0, 1), (1, 0), (255, 255), (100, 121)] {
        let expected = shared[row * 2 * 512 + col * 2] as u8;
        assert_eq!(buffer[row * 256 + col], expected);
    }
    assert_eq!(buffer[1], 2);
    assert_eq!(buffer[256], (1024u32 & 0xff) as u8);
    assert_eq!(buffer[SMALL_PIXELS], 9);
}

#[test]
fn copy_capture_copies_the_top_left_square() {
    let stride = 1280usize;
    let raw: Vec<u32> = (0..(stride * 512) as u32).collect();
    let mut memory = vec![0u32; 262144];
    copy_capture(&raw, stride, &mut memory);
    for (row, col) in [(0usize, 0usize), (0, 511), (511, 0), (511, 511), (200, 300)] {
        assert_eq!(memory[row * 512 + col], raw[row * stride + col].swap_bytes().rotate_right(8));
    }
}

fn face(x: i32, y: i32, width: u32, height: u32) -> FaceBox {
    FaceBox { x, y, width, height }
}

#[test]
fn face_acceptance_follows_the_display_limits() {
    assert!(face_accepted(&face(20, 20, 10, 10)));
    assert!(face_accepted(&face(20, 20, 200, 200)));
    assert!(!face_accepted(&face(20, 20, 9, 10)));
    assert!(!face_accepted(&face(20, 20, 10, 201)));
    assert!(!face_accepted(&face(19, 20, 10, 10)));
    assert!(!face_accepted(&face(20, 19, 10, 10)));
    assert!(!face_accepted(&face(600, 20, 21, 10)));
    assert!(face_accepted(&face(600, 20, 20, 10)));
    assert!(!face_accepted(&face(20, 340, 10, 11)));
    assert!(!face_accepted(&face(-5, 20, 10, 10)));
}

#[test]
fn outline_draws_the_box_border_only() {
    let mut texture = vec![1u32; FRAME_PIXELS];
    let faces = vec![face(50, 50, 20, 20)];
    let n = outline_faces(&mut texture, &faces);
    assert_eq!(n, 1);
    let (x, y, w, h) = (100usize, 100usize, 40usize, 40usize);
    let px = |r: usize, c: usize| texture[r * 1280 + c];
    assert_eq!(px(y, x), OUTLINE_COLOUR);
    assert_eq!(px(y + 2, x + w - 1), OUTLINE_COLOUR);
    assert_eq!(px(y + h + 2, x + 10), OUTLINE_COLOUR);
    assert_eq!(px(y + 20, x + w + 2), OUTLINE_COLOUR);
    assert_eq!(px(y + 20, x + 1), OUTLINE_COLOUR);
    assert_eq!(px(y + 20, x + 20), 1);
    assert_eq!(px(y + 3, x + 3), 1);
    assert_eq!(px(y + h + 3, x), 1);
    assert_eq!(px(y, x + w), OUTLINE_COLOUR);
    assert_eq!(px(y + h, x + w), 1);
    assert_eq!(px(y - 1, x), 1);
    let green = texture.iter().filter(|&&p| p == OUTLINE_COLOUR).count();
    // top and bottom bands: 2 * 3 * w; sides: 2 * 3 * h, less the overlaps
    // of the side columns x..x+3 with the top band (3 * 3 pixels).
    assert_eq!(green, 2 * 3 * w + 2 * 3 * h - 3 * 3);
}

#[test]
fn outline_stops_at_the_first_rejected_face() {
    let mut texture = vec![0u32; FRAME_PIXELS];
    let faces = vec![face(50, 50, 20, 20), face(0, 0, 20, 20), face(200, 200, 20, 20)];
    let n = outline_faces(&mut texture, &faces);
    assert_eq!(n, 1);
    assert_eq!(texture[400 * 1280 + 400], 0);
    assert_eq!(texture[100 * 1280 + 100], OUTLINE_COLOUR);
}

#[test]
fn outline_of_no_faces_changes_nothing() {
    let mut texture = vec![5u32; FRAME_PIXELS];
    assert_eq!(outline_faces(&mut texture, &Vec::new()), 0);
    assert!(texture.iter().all(|&p| p == 5));
}
