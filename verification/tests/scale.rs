use eztopaz::video::scale::{bgra_to_rgba, scale_bgra, scale_bgra_into};

#[test]
fn scale_identity() {
    let src = vec![7u8; 4 * 4 * 4]; // 4x4 BGRA
    let dst = scale_bgra(&src, 4, 4, 4, 4);
    assert_eq!(dst.len(), 64);
    assert!(dst.chunks(4).all(|px| px == [7, 7, 7, 255]));
}

#[test]
fn scale_downsamples_with_letterbox() {
    // 4x4 source into 8x4 dest: fits to 4x4, centered with 2px bars each side
    let src = vec![10u8; 4 * 4 * 4];
    let dst = scale_bgra(&src, 4, 4, 8, 4);
    assert_eq!(dst.len(), 8 * 4 * 4);
    assert_eq!(&dst[0..4], &[0, 0, 0, 255]);
    assert_eq!(&dst[4 * 4..4 * 4 + 4], &[10, 10, 10, 255]);
    assert_eq!(&dst[7 * 4..8 * 4], &[0, 0, 0, 255]);
}

#[test]
fn scale_rejects_bad_source() {
    let dst = scale_bgra(&[0u8; 3], 4, 4, 4, 4);
    assert_eq!(dst.len(), 64);
    assert!(dst.chunks(4).all(|px| px == [0, 0, 0, 255]));
}

#[test]
fn bgra_rgba_swap() {
    let rgba = bgra_to_rgba(&[1, 2, 3, 4, 5, 6, 7, 8]);
    assert_eq!(rgba, vec![3, 2, 1, 4, 7, 6, 5, 8]);
}

#[test]
fn scale_preserves_gradient_corners() {
    let mut src = vec![0u8; 4 * 2 * 4];
    for x in 0..4 {
        for y in 0..2 {
            let i = (y * 4 + x) * 4;
            src[i] = (x * 60) as u8;
            src[i + 1] = (y * 120) as u8;
            src[i + 2] = 200;
            src[i + 3] = 255;
        }
    }
    let dst = scale_bgra(&src, 4, 2, 4, 2);
    assert_eq!(&dst[0..3], &[0, 0, 200]);
    assert_eq!(&dst[(3 * 4)..(3 * 4 + 3)], &[180, 0, 200]);
}

#[test]
fn scale_large_parallel_matches_single() {
    // 256x144 → 1280x720 exercises the large-frame path.
    let sw = 256u32;
    let sh = 144u32;
    let mut src = vec![0u8; (sw * sh * 4) as usize];
    for y in 0..sh {
        for x in 0..sw {
            let i = ((y * sw + x) * 4) as usize;
            src[i] = (x % 251) as u8;
            src[i + 1] = (y % 251) as u8;
            src[i + 2] = ((x + y) % 251) as u8;
            src[i + 3] = 255;
        }
    }
    let dst = scale_bgra(&src, sw, sh, 1280, 720);
    assert_eq!(dst.len(), 1280 * 720 * 4);
    assert!(dst.chunks_exact(4).all(|px| px[3] == 255));
    let center = ((360 * 1280 + 640) * 4) as usize;
    assert_ne!(&dst[center..center + 3], &[0, 0, 0]);
}

#[test]
fn upscale_and_vertical_letterbox_exact() {
    // 2x1 source into 4x4: fits to 4x2 at rows 1..3
    let src = [1, 2, 3, 9, 4, 5, 6, 9];
    let dst = scale_bgra(&src, 2, 1, 4, 4);
    let px = |x: usize, y: usize| &dst[(y * 4 + x) * 4..(y * 4 + x) * 4 + 4];
    assert_eq!(px(0, 0), &[0, 0, 0, 255]);
    assert_eq!(px(0, 1), &[1, 2, 3, 255]);
    assert_eq!(px(1, 1), &[1, 2, 3, 255]);
    assert_eq!(px(2, 2), &[4, 5, 6, 255]);
    assert_eq!(px(3, 3), &[0, 0, 0, 255]);
}

#[test]
fn short_destination_is_untouched() {
    let mut dst = vec![5u8; 10];
    scale_bgra_into(&mut dst, &[1u8; 16], 2, 2, 2, 2);
    assert_eq!(dst, vec![5u8; 10]);
    let mut dst = vec![5u8; 20];
    scale_bgra_into(&mut dst, &[1u8; 16], 2, 2, 2, 2);
    assert_eq!(&dst[..16], &[1, 1, 1, 255].repeat(4)[..]);
    assert_eq!(&dst[16..], &[5, 5, 5, 5]);
    assert!(scale_bgra(&[], 0, 0, 0, 0).is_empty());
    assert_eq!(bgra_to_rgba(&[1, 2, 3, 4, 5]), vec![3, 2, 1, 4]);
}
