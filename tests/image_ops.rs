use image_wasm_logic::color::grayscale;
use image_wasm_logic::convolve::{apply3x3, noise_reduction, smoothing_kernel};
use image_wasm_logic::equalize::{cumulative_histogram, equalization_table, equalize, histogram};
use image_wasm_logic::facade::ImageOps;
use image_wasm_logic::geometry::{resize, rotate};
use image_wasm_logic::raster::{ImageError, PixelBuffer};

fn buffer(width: u32, height: u32, data: Vec<u8>) -> PixelBuffer {
    PixelBuffer::new(width, height, data).unwrap()
}

fn uniform(width: u32, height: u32, px: [u8; 4]) -> PixelBuffer {
    let mut data = Vec::new();
    for _ in 0..(width * height) {
        data.extend_from_slice(&px);
    }
    buffer(width, height, data)
}

/// A 3x2 image whose pixel (x, y) is (10x + y, 100 + y, 200 - x, 255).
fn numbered() -> PixelBuffer {
    let mut data = Vec::new();
    for y in 0..2u8 {
        for x in 0..3u8 {
            data.extend_from_slice(&[10 * x + y, 100 + y, 200 - x, 255]);
        }
    }
    buffer(3, 2, data)
}

fn pixel(b: &PixelBuffer, x: u32, y: u32) -> [u8; 4] {
    let i = ((y * b.width() + x) * 4) as usize;
    let d = b.data();
    [d[i], d[i + 1], d[i + 2], d[i + 3]]
}

fn gradient(width: u32, height: u32) -> PixelBuffer {
    let mut data = Vec::new();
    for y in 0..height {
        for x in 0..width {
            data.extend_from_slice(&[(x * 30) as u8, (y * 40) as u8, 90, 255]);
        }
    }
    buffer(width, height, data)
}

#[test]
fn test_image_scaling() {
    let img_ops = ImageOps::new("./sample.jpg".to_string(), gradient(8, 6));
    let scaled = img_ops.scale(800, 600).unwrap();
    assert_eq!(scaled.width(), 800);
    assert_eq!(scaled.height(), 600);
    assert_eq!(scaled.data().len(), 800 * 600 * 4);
}

#[test]
fn new_rejects_wrong_length() {
    assert_eq!(PixelBuffer::new(2, 2, vec![0; 15]).err(), Some(ImageError::InvalidDimension));
    assert_eq!(PixelBuffer::new(2, 2, vec![0; 17]).err(), Some(ImageError::InvalidDimension));
    let b = PixelBuffer::new(2, 2, vec![0; 16]).unwrap();
    assert_eq!(b.channels(), 4);
    assert!(!b.is_empty());
    assert!(PixelBuffer::new(0, 5, vec![]).unwrap().is_empty());
}

#[test]
fn resize_gives_requested_dimensions() {
    for (w, h) in [(1u32, 1u32), (3, 7), (16, 2), (5, 5)] {
        let r = resize(&gradient(4, 3), w, h).unwrap();
        assert_eq!((r.width(), r.height()), (w, h));
        assert_eq!(r.data().len(), (w * h * 4) as usize);
    }
}

#[test]
fn resize_to_same_size_copies() {
    let src = gradient(4, 3);
    let r = resize(&src, 4, 3).unwrap();
    assert_eq!(r.data(), src.data());
}

#[test]
fn resize_of_uniform_image_stays_uniform() {
    let r = resize(&uniform(4, 4, [77, 77, 77, 255]), 9, 2).unwrap();
    for x in 0..9 {
        for y in 0..2 {
            assert_eq!(pixel(&r, x, y), [77, 77, 77, 255]);
        }
    }
}

#[test]
fn resize_rejects_zero_and_huge_sizes() {
    let src = gradient(4, 3);
    assert_eq!(resize(&src, 0, 5).err(), Some(ImageError::InvalidDimension));
    assert_eq!(resize(&src, 5, 0).err(), Some(ImageError::InvalidDimension));
    assert_eq!(resize(&src, 100_000, 100_000).err(), Some(ImageError::InvalidDimension));
    assert_eq!(resize(&buffer(0, 3, vec![]), 5, 5).err(), Some(ImageError::EmptyImage));
}

#[test]
fn rotate_90_moves_pixels() {
    let src = numbered();
    let r = rotate(&src, 90).unwrap();
    assert_eq!((r.width(), r.height()), (2, 3));
    for y in 0..2 {
        for x in 0..3 {
            assert_eq!(pixel(&r, 2 - 1 - y, x), pixel(&src, x, y));
        }
    }
}

#[test]
fn rotate_180_and_270_move_pixels() {
    let src = numbered();
    let half = rotate(&src, 180).unwrap();
    assert_eq!((half.width(), half.height()), (3, 2));
    let three = rotate(&src, 270).unwrap();
    assert_eq!((three.width(), three.height()), (2, 3));
    for y in 0..2 {
        for x in 0..3 {
            assert_eq!(pixel(&half, 3 - 1 - x, 2 - 1 - y), pixel(&src, x, y));
            assert_eq!(pixel(&three, y, 3 - 1 - x), pixel(&src, x, y));
        }
    }
}

#[test]
fn four_quarter_turns_restore_image() {
    let src = numbered();
    let mut b = rotate(&src, 90).unwrap();
    for _ in 0..3 {
        b = rotate(&b, 90).unwrap();
    }
    assert_eq!((b.width(), b.height()), (3, 2));
    assert_eq!(b.data(), src.data());
}

#[test]
fn rotate_zero_and_invalid_angles() {
    let src = numbered();
    assert_eq!(rotate(&src, 0).unwrap().data(), src.data());
    assert_eq!(rotate(&src, 45).err(), Some(ImageError::InvalidArgument));
    assert_eq!(rotate(&src, 360).err(), Some(ImageError::InvalidArgument));
    assert_eq!(rotate(&buffer(3, 0, vec![]), 90).err(), Some(ImageError::EmptyImage));
}

#[test]
fn grayscale_projects_luma_and_keeps_alpha() {
    let src = buffer(2, 1, vec![255, 0, 0, 7, 10, 200, 30, 255]);
    let g = grayscale(&src).unwrap();
    // (2126 * 255) / 10000 = 54; (2126 * 10 + 7152 * 200 + 722 * 30) / 10000 = 147
    assert_eq!(pixel(&g, 0, 0), [54, 54, 54, 7]);
    assert_eq!(pixel(&g, 1, 0), [147, 147, 147, 255]);
}

#[test]
fn grayscale_twice_equals_once() {
    let once = grayscale(&numbered()).unwrap();
    let twice = grayscale(&once).unwrap();
    assert_eq!(once.data(), twice.data());
    assert_eq!(grayscale(&buffer(0, 0, vec![])).err(), Some(ImageError::EmptyImage));
}

#[test]
fn histogram_counts_and_accumulates() {
    let lumas = vec![3u8, 3, 0, 255, 3];
    let h = histogram(&lumas);
    assert_eq!(h.len(), 256);
    assert_eq!((h[0], h[3], h[255], h[4]), (1, 3, 1, 0));
    let cum = cumulative_histogram(&lumas);
    assert_eq!((cum[0], cum[2], cum[3], cum[254], cum[255]), (1, 1, 4, 4, 5));
}

#[test]
fn equalization_table_rounds_and_never_decreases() {
    let norm = equalization_table(&vec![0u8, 255]);
    assert_eq!(norm[0], 128);
    assert_eq!(norm[100], 128);
    assert_eq!(norm[255], 255);
    let norm = equalization_table(&vec![10u8, 20, 20, 200, 7, 7, 7]);
    for i in 0..255 {
        assert!(norm[i] <= norm[i + 1]);
    }
    // 3 of 7 are at most 7: round(3 * 255 / 7) = 109
    assert_eq!(norm[7], 109);
    let empty = equalization_table(&vec![]);
    for i in 0..256 {
        assert_eq!(empty[i] as usize, i);
    }
}

#[test]
fn equalizing_uniform_gray_maps_to_white() {
    let out = equalize(&uniform(4, 4, [128, 128, 128, 255])).unwrap();
    assert_eq!((out.width(), out.height()), (4, 4));
    for x in 0..4 {
        for y in 0..4 {
            assert_eq!(pixel(&out, x, y), [255, 255, 255, 255]);
        }
    }
}

#[test]
fn equalize_makes_alpha_opaque() {
    let out = equalize(&buffer(2, 1, vec![0, 0, 0, 9, 255, 255, 255, 0])).unwrap();
    assert_eq!(pixel(&out, 0, 0), [128, 128, 128, 255]);
    assert_eq!(pixel(&out, 1, 0), [255, 255, 255, 255]);
    assert_eq!(equalize(&buffer(0, 2, vec![])).err(), Some(ImageError::EmptyImage));
}

#[test]
fn smoothing_uniform_image_is_unchanged() {
    let src = uniform(5, 4, [200, 13, 99, 40]);
    let out = noise_reduction(&src).unwrap();
    assert_eq!(out.data(), src.data());
    let sharpen = [0, -1, 0, -1, 5, -1, 0, -1, 0];
    assert_eq!(apply3x3(&src, &sharpen).unwrap().data(), src.data());
}

#[test]
fn smoothing_replicates_edges() {
    let mut data = vec![0u8; 36];
    for i in 0..9 {
        data[i * 4 + 3] = 255;
    }
    data[16] = 160;
    let out = noise_reduction(&buffer(3, 3, data)).unwrap();
    assert_eq!(pixel(&out, 1, 1), [40, 0, 0, 255]);
    assert_eq!(pixel(&out, 0, 0), [10, 0, 0, 255]);
    assert_eq!(pixel(&out, 1, 0), [20, 0, 0, 255]);
    let corner = noise_reduction(&buffer(1, 1, vec![60, 70, 80, 5])).unwrap();
    assert_eq!(pixel(&corner, 0, 0), [60, 70, 80, 5]);
}

#[test]
fn zero_sum_kernel_divides_by_one_and_clamps() {
    let edge = [-1, -1, -1, -1, 8, -1, -1, -1, -1];
    let src = buffer(3, 1, vec![0, 0, 0, 1, 10, 0, 0, 2, 0, 0, 0, 3]);
    let out = apply3x3(&src, &edge).unwrap();
    // middle, rows replicated: -10 + 80 - 10 = 60; left: -10 - 10 - 10 -> clamped to 0
    assert_eq!(pixel(&out, 1, 0), [60, 0, 0, 2]);
    assert_eq!(pixel(&out, 0, 0), [0, 0, 0, 1]);
    assert_eq!(apply3x3(&buffer(0, 0, vec![]), &edge).err(), Some(ImageError::EmptyImage));
}

#[test]
fn smoothing_kernel_weights() {
    let k = smoothing_kernel();
    assert_eq!(k, [1, 2, 1, 2, 4, 2, 1, 2, 1]);
    assert_eq!(k.iter().sum::<i32>(), 16);
}

#[test]
fn facade_dispatches_on_source() {
    let ops = ImageOps::new("mem".to_string(), numbered());
    assert_eq!(ops.location(), "mem");
    assert_eq!(ops.rotate(90).unwrap().width(), 2);
    assert_eq!(ops.rotate(7).err(), Some(ImageError::InvalidArgument));
    assert_eq!(ops.gray_scale().unwrap().data(), grayscale(&numbered()).unwrap().data());
    assert_eq!(ops.noise_reduction().unwrap().height(), 2);
    assert_eq!(ops.histo_equilizer().unwrap().data().len(), 24);
    assert_eq!(ops.scale(0, 1).err(), Some(ImageError::InvalidDimension));
    assert_eq!(ops.image().data(), numbered().data());
}
