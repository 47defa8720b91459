use nifti2png::raster::{Raster, Rgb};
use nifti2png::rescaled_intensity_nifti_image::RescaledIntensityNiftiImage;
use nifti2png::rescaled_intensity_nii_slice::{gray2ubyte_rgb, quantize};
use nifti2png::ErrorTy;

fn px(v: u8) -> Rgb {
    Rgb { r: v, g: v.wrapping_add(1), b: v.wrapping_add(2) }
}

fn gray(v: u8) -> Rgb {
    Rgb { r: v, g: v, b: v }
}

fn rows(raster: &Raster) -> Vec<Vec<Rgb>> {
    (0..raster.height())
        .map(|row| (0..raster.width()).map(|col| raster.pixel(row, col)).collect())
        .collect()
}

#[test]
fn fractions_become_the_nearest_byte() {
    assert_eq!(quantize(0, 1), 0);
    assert_eq!(quantize(1, 1), 255);
    assert_eq!(quantize(1, 2), 128);
    assert_eq!(quantize(1, 3), 85);
    assert_eq!(quantize(2, 3), 170);
    assert_eq!(quantize(1, 255), 1);
    assert_eq!(quantize(254, 255), 254);
    assert_eq!(quantize(1, 510), 1);
    assert_eq!(quantize(1, 511), 0);
    assert_eq!(quantize(1, 1000), 0);
    assert_eq!(quantize(2, 1000), 1);
    assert_eq!(quantize(998, 1000), 254);
    assert_eq!(quantize(999, 1000), 255);
    assert_eq!(quantize(0, u64::MAX), 0);
    assert_eq!(quantize(u64::MAX, u64::MAX), 255);
    assert_eq!(quantize(u64::MAX / 2, u64::MAX), 127);
    assert_eq!(quantize(u64::MAX / 2 + 1, u64::MAX), 128);
}

#[test]
fn a_plane_of_zeros_becomes_black_and_a_plane_of_ones_white() {
    let zeros =
        RescaledIntensityNiftiImage::new("z.nii", &[3, 2, 1], vec![0; 6], Some((0, 9))).unwrap();
    let black = gray2ubyte_rgb(&zeros.slice([0, 0]).unwrap());
    assert_eq!((black.height(), black.width()), (3, 2));
    assert_eq!(rows(&black), vec![vec![gray(0); 2]; 3]);
    assert_eq!(black.into_raw(), vec![0u8; 18]);

    let ones =
        RescaledIntensityNiftiImage::new("o.nii", &[3, 2, 1], vec![9; 6], Some((0, 9))).unwrap();
    let white = gray2ubyte_rgb(&ones.slice([0, 0]).unwrap());
    assert_eq!(rows(&white), vec![vec![gray(255); 2]; 3]);
    assert_eq!(white.into_raw(), vec![255u8; 18]);

    let stored = ones.slice([0, 0]).unwrap().as_rgb_image();
    assert_eq!(rows(&stored), vec![vec![gray(255); 3]; 2]);
}

#[test]
fn grey_pixels_keep_rows_and_columns() {
    let image =
        RescaledIntensityNiftiImage::new("g.nii", &[2, 3, 1], vec![0, 1, 2, 3, 4, 5], None)
            .unwrap();
    let raster = gray2ubyte_rgb(&image.slice([0, 0]).unwrap());
    assert_eq!(
        rows(&raster),
        vec![vec![gray(0), gray(51), gray(102)], vec![gray(153), gray(204), gray(255)]]
    );
}

#[test]
fn a_raster_needs_pixels_for_all_rows_and_columns() {
    assert!(Raster::from_pixels(vec![px(0); 6], 3, 2).is_some());
    assert!(Raster::from_pixels(vec![px(0); 6], 2, 3).is_some());
    assert!(Raster::from_pixels(vec![px(0); 6], 3, 3).is_none());
    assert!(Raster::from_pixels(vec![px(0); 5], 3, 2).is_none());
    assert!(Raster::from_pixels(Vec::new(), 0, 9).is_some());
    assert!(Raster::from_pixels(Vec::new(), usize::MAX, usize::MAX).is_none());
}

#[test]
fn a_quarter_turn_brings_the_left_column_to_the_top() {
    // A B C
    // D E F
    let raster = Raster::from_pixels((10..16).map(px).collect(), 3, 2).unwrap();
    let turned = raster.rotate90();
    assert_eq!((turned.width(), turned.height()), (2, 3));
    assert_eq!(
        rows(&turned),
        vec![vec![px(13), px(10)], vec![px(14), px(11)], vec![px(15), px(12)]]
    );
    let back = turned.rotate90().rotate90().rotate90();
    assert_eq!(rows(&back), rows(&raster));
}

#[test]
fn mirroring_exchanges_left_and_right() {
    let raster = Raster::from_pixels((10..16).map(px).collect(), 3, 2).unwrap();
    let mirrored = raster.mirror();
    assert_eq!((mirrored.width(), mirrored.height()), (3, 2));
    assert_eq!(
        rows(&mirrored),
        vec![vec![px(12), px(11), px(10)], vec![px(15), px(14), px(13)]]
    );
    assert_eq!(rows(&mirrored.mirror()), rows(&raster));
}

#[test]
fn turning_and_mirroring_exchanges_rows_and_columns() {
    let raster = Raster::from_pixels((10..16).map(px).collect(), 3, 2).unwrap();
    let stored = raster.rotate_and_mirror();
    assert_eq!((stored.width(), stored.height()), (2, 3));
    assert_eq!(
        rows(&stored),
        vec![vec![px(10), px(13)], vec![px(11), px(14)], vec![px(12), px(15)]]
    );
    assert_eq!(rows(&raster.rotate90().mirror()), rows(&stored));
}

#[test]
fn raw_bytes_are_three_for_each_pixel() {
    let raster = Raster::from_pixels(vec![px(1), px(20), px(40), px(60)], 2, 2).unwrap();
    assert_eq!(raster.into_raw(), vec![1, 2, 3, 20, 21, 22, 40, 41, 42, 60, 61, 62]);
}

#[test]
fn opaque_bytes_are_four_for_each_pixel() {
    let raster = Raster::from_pixels(vec![px(1), px(20), px(40), px(60)], 2, 2).unwrap();
    assert_eq!(
        raster.into_raw_rgba().unwrap(),
        vec![1, 2, 3, 255, 20, 21, 22, 255, 40, 41, 42, 255, 60, 61, 62, 255]
    );
    let none = Raster::from_pixels(Vec::new(), 0, 0).unwrap();
    assert_eq!(none.into_raw_rgba().unwrap(), Vec::<u8>::new());
}

#[test]
fn a_raster_wider_than_an_image_buffer_is_rejected() {
    let width: usize = u32::MAX as usize + 1;
    let raster = Raster::from_pixels(Vec::new(), width, 0).unwrap();
    assert_eq!(raster.into_raw_rgba().unwrap_err(), ErrorTy::ImageTooLarge(width, 0));
    let tall = Raster::from_pixels(Vec::new(), 0, width).unwrap();
    assert_eq!(tall.into_raw_rgba().unwrap_err(), ErrorTy::ImageTooLarge(0, width));
}

#[test]
fn a_slice_as_opaque_bytes() {
    let image =
        RescaledIntensityNiftiImage::new("v.nii", &[2, 2, 3], (0..12).collect(), None).unwrap();
    assert_eq!(
        image.slice_as_raw_rgba([0, 0]).unwrap(),
        vec![0, 0, 0, 255, 139, 139, 139, 255, 70, 70, 70, 255, 209, 209, 209, 255]
    );
    assert_eq!(
        image.slice_as_raw_rgba([2, 0]).unwrap(),
        vec![46, 46, 46, 255, 185, 185, 185, 255, 116, 116, 116, 255, 255, 255, 255, 255]
    );
    assert_eq!(
        image.slice([1, 0]).unwrap().as_raw_rgb_image_buffer(),
        vec![23, 23, 23, 162, 162, 162, 93, 93, 93, 232, 232, 232]
    );
}

#[test]
fn a_stored_slice_shows_the_first_axis_from_left_to_right() {
    let image =
        RescaledIntensityNiftiImage::new("v.nii", &[3, 2, 1], vec![0, 1, 2, 3, 4, 5], None)
            .unwrap();
    let stored = image.slice([0, 0]).unwrap().as_rgb_image();
    assert_eq!((stored.width(), stored.height()), (3, 2));
    assert_eq!(
        rows(&stored),
        vec![vec![gray(0), gray(102), gray(204)], vec![gray(51), gray(153), gray(255)]]
    );
}

fn outside_image(raster: &Raster) -> image::RgbImage {
    let mut raw = Vec::new();
    for row in rows(raster) {
        for pixel in row {
            raw.extend([pixel.r, pixel.g, pixel.b]);
        }
    }
    image::RgbImage::from_raw(raster.width() as u32, raster.height() as u32, raw).unwrap()
}

#[test]
fn turning_agrees_with_the_image_crate() {
    for (width, height) in [(1usize, 1usize), (3, 2), (2, 5), (7, 7), (1, 4), (6, 1)] {
        let pixels: Vec<Rgb> = (0..width * height).map(|i| px((i * 3) as u8)).collect();
        let raster = Raster::from_pixels(pixels, width, height).unwrap();
        let expected = image::imageops::rotate90(&outside_image(&raster));
        let turned = raster.rotate90();
        assert_eq!((turned.width() as u32, turned.height() as u32), expected.dimensions());
        assert_eq!(turned.into_raw(), expected.into_raw());
    }
}

#[test]
fn mirroring_agrees_with_the_image_crate() {
    for (width, height) in [(1usize, 1usize), (3, 2), (2, 5), (7, 7), (1, 4), (6, 1)] {
        let pixels: Vec<Rgb> = (0..width * height).map(|i| px((i * 3) as u8)).collect();
        let raster = Raster::from_pixels(pixels, width, height).unwrap();
        let expected = image::imageops::flip_horizontal(&outside_image(&raster));
        let mirrored = raster.mirror();
        assert_eq!((mirrored.width() as u32, mirrored.height() as u32), expected.dimensions());
        assert_eq!(mirrored.into_raw(), expected.into_raw());
    }
}

#[test]
fn turning_and_mirroring_agrees_with_the_image_crate() {
    let pixels: Vec<Rgb> = (0..12).map(|i| px((i * 20) as u8)).collect();
    let raster = Raster::from_pixels(pixels, 4, 3).unwrap();
    let expected =
        image::imageops::flip_horizontal(&image::imageops::rotate90(&outside_image(&raster)));
    assert_eq!(raster.rotate_and_mirror().into_raw(), expected.into_raw());
}
