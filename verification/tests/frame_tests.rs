use xcontrol::frame::{encode_frame, frame_buffer_len};

fn gradient(width: u32, height: u32) -> Vec<u8> {
    let mut v = Vec::new();
    for y in 0..height {
        for x in 0..width {
            v.extend_from_slice(&[(x * 16) as u8, (y * 16) as u8, 128, 255]);
        }
    }
    v
}

#[test]
fn frames_are_jpeg() {
    let jpeg = encode_frame(8, 4, gradient(8, 4)).expect("encodes");
    assert_eq!(&jpeg[..2], &[0xFF, 0xD8]);
    assert_eq!(&jpeg[jpeg.len() - 2..], &[0xFF, 0xD9]);
    assert_ne!(jpeg, gradient(8, 4));
}

#[test]
fn alpha_does_not_change_the_frame() {
    let a = gradient(8, 8);
    let mut b = a.clone();
    for i in 0..64 {
        b[4 * i + 3] = (i * 3) as u8;
    }
    assert_eq!(encode_frame(8, 8, a), encode_frame(8, 8, b));
}

fn solid_bgra(b: u8, g: u8, r: u8, side: u32) -> Vec<u8> {
    let mut v = Vec::new();
    for _ in 0..side * side {
        v.extend_from_slice(&[b, g, r, 255]);
    }
    v
}

#[test]
fn pixels_are_read_as_bgra() {
    // a blue screen: the BGRA bytes are (255, 0, 0, 255)
    let jpeg = encode_frame(16, 16, solid_bgra(255, 0, 0, 16)).expect("encodes");
    let img = image::load_from_memory(&jpeg).expect("decodes").to_rgb8();
    let px = img.get_pixel(8, 8);
    assert!(px[2] > 200 && px[0] < 60, "{:?}", px);
    // a red screen: the BGRA bytes are (0, 0, 255, 255)
    let jpeg = encode_frame(16, 16, solid_bgra(0, 0, 255, 16)).expect("encodes");
    let img = image::load_from_memory(&jpeg).expect("decodes").to_rgb8();
    let px = img.get_pixel(8, 8);
    assert!(px[0] > 200 && px[2] < 60, "{:?}", px);
}

#[test]
fn extra_bytes_are_ignored() {
    let a = gradient(4, 4);
    let mut b = a.clone();
    b.extend_from_slice(&[1, 2, 3, 4, 5]);
    assert_eq!(encode_frame(4, 4, a), encode_frame(4, 4, b));
}

#[test]
fn short_buffers_and_empty_frames_fail() {
    assert_eq!(encode_frame(4, 4, vec![0; 63]), None);
    assert_eq!(encode_frame(0, 4, vec![]), None);
    assert_eq!(encode_frame(4, 0, vec![]), None);
    assert_eq!(encode_frame(70000, 1, vec![0; 280000]), None);
}

#[test]
fn buffer_length_is_four_bytes_per_pixel() {
    assert_eq!(frame_buffer_len(1920, 1080), 1920 * 1080 * 4);
    assert_eq!(frame_buffer_len(0, 1080), 0);
}
