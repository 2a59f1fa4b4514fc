use fairplay::{
    apply, box_blur, convolve, gaussian_blur, Kernel, channels, grayscale, histogram, laplace, lightness_correction, median,
    median_blur, negative, pitagora, sharpening, sobel, thresholding, unsharp_masking,
    BoxBlurOptions, ChannelOptions, GrayscaleOptions, MedianBlurOptions, Modifier,
    NegativeOptions, PixelBuffer, Precomputed, SobelOptions, ThresholdingOptions,
    UnsharpMaskingOptions,
};

fn image(width: u32, height: u32, pixels: Vec<u8>) -> PixelBuffer {
    PixelBuffer::from_raw(width, height, pixels).unwrap()
}

#[test]
fn from_raw_checks_length() {
    assert!(PixelBuffer::from_raw(2, 2, vec![0; 16]).is_some());
    assert!(PixelBuffer::from_raw(2, 2, vec![0; 15]).is_none());
    assert!(PixelBuffer::from_raw(0, 5, vec![]).is_some());
}

#[test]
fn grayscale_red_pixel_gives_weighted_luma() {
    let img = image(1, 1, vec![255, 0, 0, 255]);
    let opts = GrayscaleOptions { red_weight: 72, green_weight: 149, blue_weight: 34 };
    let out = grayscale(opts, &img);
    assert_eq!(out.pixels, vec![72, 72, 72, 255]);
}

#[test]
fn grayscale_rounds_half_away_from_zero() {
    // (1 * 1 + 1 * 2 + 0) / 2 = 1.5 rounds to 2
    let img = image(1, 1, vec![1, 2, 200, 9]);
    let opts = GrayscaleOptions { red_weight: 1, green_weight: 1, blue_weight: 0 };
    assert_eq!(grayscale(opts, &img).pixels, vec![2, 2, 2, 9]);
}

#[test]
fn grayscale_zero_weights_leave_pixels() {
    let img = image(1, 1, vec![10, 20, 30, 40]);
    let opts = GrayscaleOptions { red_weight: 0, green_weight: 0, blue_weight: 0 };
    assert_eq!(grayscale(opts, &img).pixels, vec![10, 20, 30, 40]);
}

#[test]
fn negative_twice_is_identity() {
    let px: Vec<u8> = (0..24).map(|i| (i * 11) as u8).collect();
    let img = image(3, 2, px.clone());
    let opts = NegativeOptions { grayscale: false };
    let once = negative(opts, &img);
    assert_eq!(once.pixels[0..4].to_vec(), vec![255, 244, 233, 33]);
    let twice = negative(opts, &once);
    assert_eq!(twice.pixels, px);
}

#[test]
fn negative_with_grayscale() {
    let img = image(1, 1, vec![255, 0, 0, 7]);
    let out = negative(NegativeOptions { grayscale: true }, &img);
    assert_eq!(out.pixels, vec![183, 183, 183, 7]);
}

#[test]
fn thresholding_outputs_only_extremes() {
    let px: Vec<u8> = (0..64).map(|i| (i * 4) as u8).collect();
    let img = image(4, 4, px.clone());
    let opts = ThresholdingOptions { grayscale: false, threshold: 100 };
    let out = thresholding(opts, &img);
    for (k, v) in out.pixels.iter().enumerate() {
        if k % 4 == 3 {
            assert_eq!(*v, px[k]);
        } else {
            assert!(*v == 0 || *v == 255);
            assert_eq!(*v, if px[k] < 100 { 0 } else { 255 });
        }
    }
}

#[test]
fn thresholding_value_equal_to_threshold_is_white() {
    let img = image(1, 1, vec![128, 127, 255, 1]);
    let opts = ThresholdingOptions { grayscale: false, threshold: 128 };
    assert_eq!(thresholding(opts, &img).pixels, vec![255, 0, 255, 1]);
}

#[test]
fn channels_scale_and_disable() {
    let img = image(1, 1, vec![100, 101, 200, 50]);
    let opts = ChannelOptions {
        red_enabled: true,
        red_weight: 150,
        green_enabled: true,
        green_weight: 50,
        blue_enabled: false,
        blue_weight: 100,
    };
    // 101 * 0.5 = 50.5 rounds to 51
    assert_eq!(channels(opts, &img).pixels, vec![150, 51, 0, 50]);
    let over = ChannelOptions { red_weight: 200, ..opts };
    assert_eq!(channels(over, &image(1, 1, vec![200, 0, 0, 0])).pixels[0], 255);
}

#[test]
fn lightness_curve_lookup() {
    let curve: Vec<u8> = (0..256).map(|i| (255 - i) as u8).collect();
    let img = image(1, 1, vec![0, 10, 255, 77]);
    assert_eq!(lightness_correction(&curve, &img).pixels, vec![255, 245, 0, 77]);
}

#[test]
fn box_blur_uniform_image_unchanged() {
    let px: Vec<u8> = [12u8, 34, 56, 78].iter().cycle().take(5 * 4 * 4).cloned().collect();
    let img = image(5, 4, px.clone());
    for size in [3u8, 5, 25] {
        assert_eq!(box_blur(BoxBlurOptions { size }, &img).pixels, px);
    }
}

#[test]
fn box_blur_excludes_outside_cells() {
    // 2x1 image: each window holds both pixels; 4.5 rounds to 5
    let img = image(2, 1, vec![0, 0, 0, 255, 9, 9, 9, 0]);
    let out = box_blur(BoxBlurOptions { size: 3 }, &img);
    assert_eq!(out.pixels, vec![5, 5, 5, 255, 5, 5, 5, 0]);
}

#[test]
fn median_blur_removes_single_outlier() {
    let mut px: Vec<u8> = [50u8, 60, 70, 255].iter().cycle().take(4 * 4 * 4).cloned().collect();
    let center = (1 * 4 + 1) * 4;
    px[center] = 250;
    px[center + 1] = 0;
    px[center + 2] = 250;
    let img = image(4, 4, px);
    let out = median_blur(MedianBlurOptions { size: 3 }, &img);
    for p in 0..16 {
        assert_eq!(out.pixels[p * 4..p * 4 + 4].to_vec(), vec![50, 60, 70, 255]);
    }
}

#[test]
fn median_blur_keeps_center_alpha() {
    let img = image(2, 1, vec![10, 10, 10, 1, 20, 20, 20, 2]);
    let out = median_blur(MedianBlurOptions { size: 3 }, &img);
    assert_eq!(out.pixels, vec![15, 15, 15, 1, 15, 15, 15, 2]);
}

#[test]
fn median_of_odd_and_even() {
    let mut odd = vec![9u8, 1, 5];
    assert_eq!(median(&mut odd), 5);
    assert_eq!(odd, vec![1, 5, 9]);
    let mut even = vec![4u8, 1, 3, 2];
    assert_eq!(median(&mut even), 3);
    let mut big = vec![255u8, 254];
    assert_eq!(median(&mut big), 255);
    let mut half = vec![2u8, 1];
    assert_eq!(median(&mut half), 2);
}

#[test]
fn pitagora_rounds_and_saturates() {
    assert_eq!(pitagora(3, 4), 5);
    assert_eq!(pitagora(-3, 4), 5);
    assert_eq!(pitagora(1, 1), 1);
    assert_eq!(pitagora(1, 2), 2);
    assert_eq!(pitagora(0, 0), 0);
    assert_eq!(pitagora(i16::MIN, i16::MIN), i16::MAX);
}

#[test]
fn laplace_of_flat_image_is_black() {
    let img = image(3, 3, [90u8, 90, 90, 200].iter().cycle().take(36).cloned().collect());
    let out = laplace(&img);
    for p in 0..9 {
        assert_eq!(out.pixels[p * 4..p * 4 + 4].to_vec(), vec![0, 0, 0, 200]);
    }
}

#[test]
fn laplace_and_sharpening_on_a_dot() {
    let mut px = vec![0u8; 36];
    for p in 0..9 {
        px[p * 4 + 3] = 255;
    }
    px[16] = 10;
    let img = image(3, 3, px);
    let l = laplace(&img);
    // center: -8 * 10, neighbors: +10
    assert_eq!(l.pixels[16], 0);
    assert_eq!(l.pixels[0], 10);
    let s = sharpening(&img);
    assert_eq!(s.pixels[16], 90);
    assert_eq!(s.pixels[0], 0);
}

#[test]
fn sobel_edge_and_disabled() {
    // left column black, right columns white
    let mut px = vec![0u8; 36];
    for y in 0..3 {
        for x in 0..3 {
            let k = (y * 3 + x) * 4;
            let v = if x == 0 { 0 } else { 100 };
            px[k] = v;
            px[k + 1] = v;
            px[k + 2] = v;
            px[k + 3] = 255;
        }
    }
    let img = image(3, 3, px.clone());
    let h = sobel(SobelOptions { horizontal: true, vertical: false }, &img);
    // horizontal kernel weights left minus right: negative response clamps to 0
    assert_eq!(h.pixels[4], 0);
    let v = sobel(SobelOptions { horizontal: false, vertical: true }, &img);
    assert_eq!(v.pixels[4], 0);
    let both = sobel(SobelOptions { horizontal: true, vertical: true }, &img);
    // at (1,1): horizontal = -400, vertical = 0, length 400 clamps to 255
    assert_eq!(both.pixels[16], 255);
    let none = sobel(SobelOptions { horizontal: false, vertical: false }, &img);
    assert_eq!(none.pixels, px);
}

#[test]
fn unsharp_masking_sharpens_a_step() {
    // 3x1 row 0, 90, 90: blurs are 45, 60, 90
    let img = image(3, 1, vec![0, 0, 0, 1, 90, 90, 90, 2, 90, 90, 90, 3]);
    let out = unsharp_masking(UnsharpMaskingOptions { blur_size: 3 }, &img);
    assert_eq!(out.pixels, vec![0, 0, 0, 1, 120, 120, 120, 2, 90, 90, 90, 3]);
}

#[test]
fn unsharp_masking_of_flat_image_unchanged() {
    let px: Vec<u8> = [30u8, 40, 50, 60].iter().cycle().take(16).cloned().collect();
    let img = image(2, 2, px.clone());
    assert_eq!(unsharp_masking(UnsharpMaskingOptions { blur_size: 3 }, &img).pixels, px);
}

#[test]
fn histogram_counts_sum_to_pixel_count() {
    let px: Vec<u8> = (0..(7 * 5 * 4)).map(|i| ((i * 37) % 256) as u8).collect();
    let img = image(7, 5, px);
    let h = histogram(&img);
    for bucket in [&h.red, &h.green, &h.blue, &h.lightness] {
        assert_eq!(bucket.len(), 32);
        assert_eq!(bucket.iter().sum::<u32>(), 35);
    }
}

#[test]
fn histogram_buckets() {
    let img = image(2, 1, vec![7, 8, 255, 0, 255, 255, 255, 0]);
    let h = histogram(&img);
    assert_eq!(h.red[0], 1);
    assert_eq!(h.green[1], 1);
    assert_eq!(h.blue[31], 2);
    assert_eq!(h.red[31], 1);
    // (7 + 8 + 255) / 24 = 11
    assert_eq!(h.lightness[11], 1);
    assert_eq!(h.lightness[31], 1);
}

#[test]
fn pipeline_red_to_black() {
    let img = image(2, 2, [255u8, 0, 0, 255].iter().cycle().take(16).cloned().collect());
    let mods = vec![
        Modifier::Grayscale(GrayscaleOptions::default()),
        Modifier::Thresholding(ThresholdingOptions { grayscale: false, threshold: 128 }),
    ];
    let aux = vec![Precomputed::Nothing, Precomputed::Nothing];
    let out = apply(&img, &mods, &aux);
    assert_eq!(out.width, 2);
    assert_eq!(out.height, 2);
    assert_eq!(out.pixels, [0u8, 0, 0, 255].iter().cycle().take(16).cloned().collect::<Vec<u8>>());
}

#[test]
fn pipeline_empty_chain_returns_base() {
    let img = image(1, 2, vec![1, 2, 3, 4, 5, 6, 7, 8]);
    let out = apply(&img, &vec![], &vec![]);
    assert_eq!(out, img);
}

#[test]
fn modifier_names() {
    assert_eq!(Modifier::Laplace.name(), "Laplace");
    assert_eq!(Modifier::BoxBlur(BoxBlurOptions::default()).name(), "Box blur");
}

#[test]
fn convolution_rounds_half_away_from_zero() {
    let img = image(1, 1, vec![5, 4, 3, 8]);
    let halve = Kernel { side: 1, weights: vec![1], divisor: 2 };
    assert_eq!(convolve(&halve, &img).values, vec![3, 2, 2, 8]);
    let negate_halve = Kernel { side: 1, weights: vec![-1], divisor: 2 };
    assert_eq!(convolve(&negate_halve, &img).values, vec![-3, -2, -2, 8]);
    assert_eq!(gaussian_blur(&negate_halve, &img).pixels, vec![0, 0, 0, 8]);
}

#[test]
fn convolution_clamps_to_nearest_edge() {
    // 3x1 image; a 5-wide row kernel picking the sample two to the left
    let img = image(3, 1, vec![10, 0, 0, 1, 20, 0, 0, 1, 30, 0, 0, 1]);
    let mut weights = vec![0i64; 25];
    weights[2 * 5] = 1;
    let k = Kernel { side: 5, weights, divisor: 1 };
    let out = convolve(&k, &img);
    assert_eq!(out.values[0], 10);
    assert_eq!(out.values[4], 10);
    assert_eq!(out.values[8], 10);
}
