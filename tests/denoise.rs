use rapidraw::denoise::{denoise_chroma, remove_raw_artifacts_and_enhance, rgb_to_ycc, ycc_to_rgb};
use rapidraw::fixed::UNIT;
use rapidraw::intermediate::Pixels;

fn noisy(w: usize, h: usize) -> Pixels {
    let mut data = Vec::new();
    let mut seed: u32 = 12345;
    for _ in 0..w * h * 3 {
        seed = seed.wrapping_mul(1103515245).wrapping_add(12345);
        data.push((seed >> 8) % (UNIT + 1));
    }
    Pixels { width: w, height: h, data }
}

#[test]
fn luma_is_unchanged() {
    let ycc = rgb_to_ycc(&noisy(9, 7));
    let out = denoise_chroma(&ycc);
    for k in (0..ycc.data.len()).step_by(3) {
        assert_eq!(out.data[k], ycc.data[k]);
    }
}

#[test]
fn chroma_magnitude_never_grows() {
    let ycc = rgb_to_ycc(&noisy(11, 8));
    let out = denoise_chroma(&ycc);
    for k in (0..ycc.data.len()).step_by(3) {
        let (a, b) = (ycc.data[k + 1] as i128, ycc.data[k + 2] as i128);
        let (c, d) = (out.data[k + 1] as i128, out.data[k + 2] as i128);
        assert!(c * c + d * d <= a * a + b * b);
    }
}

#[test]
fn tiny_image_keeps_chroma() {
    // No neighbor offset of a 1x1 image lies inside it.
    let ycc = rgb_to_ycc(&Pixels { width: 1, height: 1, data: vec![1000, 2000, 3000] });
    let out = denoise_chroma(&ycc);
    assert_eq!(out.data, ycc.data);
}

#[test]
fn luma_chroma_of_gray_and_red() {
    let ycc = rgb_to_ycc(&Pixels { width: 2, height: 1, data: vec![1000, 1000, 1000, 1000, 0, 0] });
    assert_eq!(&ycc.data[0..3], &[1000, 0, 0]);
    // y = 0.299 * 1000, cb = -0.168736 * 1000, cr = 0.5 * 1000 (toward zero).
    assert_eq!(&ycc.data[3..6], &[299, -168, 500]);
    let back = ycc_to_rgb(&ycc);
    assert_eq!(&back.data[0..3], &[1000, 1000, 1000]);
    // r = 299 + 1.402 * 500 = 1000; g = 299 - (0.344136 * -168 + 0.714136 * 500); b = 299 + 1.772 * -168.
    assert_eq!(back.data[3], 1000);
    assert_eq!(back.data[4], 0);
    assert_eq!(back.data[5], 2);
}

#[test]
fn uniform_image_stays_uniform() {
    let mut img = Pixels { width: 8, height: 8, data: vec![20000; 8 * 8 * 3] };
    remove_raw_artifacts_and_enhance(&mut img);
    assert!(img.data.iter().all(|&v| v == 20000));
}

#[test]
fn denoise_keeps_dimensions() {
    let mut img = noisy(6, 5);
    remove_raw_artifacts_and_enhance(&mut img);
    assert_eq!((img.width, img.height, img.data.len()), (6, 5, 90));
}
