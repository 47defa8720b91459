use nifti2png::rescaled_intensity_nifti_image::RescaledIntensityNiftiImage;
use nifti2png::ErrorTy;

fn volume(shape: &[isize]) -> RescaledIntensityNiftiImage {
    let count: isize = shape.iter().product();
    let fdata: Vec<i64> = (0..count as i64).collect();
    RescaledIntensityNiftiImage::new("v.nii", shape, fdata, Some((0, count as u64))).unwrap()
}

#[test]
fn slices_of_a_volume_are_disjoint_planes() {
    let image = volume(&[4, 4, 2, 1]);
    let first = image.slice([0, 0]).unwrap();
    let second = image.slice([1, 0]).unwrap();
    assert_eq!((first.height(), first.width()), (4, 4));
    assert_eq!((second.height(), second.width()), (4, 4));
    assert_eq!(first.levels().len(), 16);
    assert_eq!(second.levels().len(), 16);
    let evens: Vec<u64> = (0..16).map(|p| 2 * p).collect();
    let odds: Vec<u64> = (0..16).map(|p| 2 * p + 1).collect();
    assert_eq!(first.levels(), &evens);
    assert_eq!(second.levels(), &odds);
    for level in first.levels() {
        assert!(!second.levels().contains(level));
    }
    assert_eq!(first.span(), 32);
}

#[test]
fn a_depth_beyond_the_volume_is_out_of_bounds() {
    let image = volume(&[4, 4, 2, 1]);
    assert_eq!(image.slice([2, 0]).unwrap_err(), ErrorTy::SliceOutOfBounds(2, 0));
    assert_eq!(image.slice([-1, 0]).unwrap_err(), ErrorTy::SliceOutOfBounds(-1, 0));
    assert_eq!(
        image.slice([isize::MAX, 0]).unwrap_err(),
        ErrorTy::SliceOutOfBounds(isize::MAX, 0)
    );
    assert_eq!(image.slice_as_raw_rgba([2, 0]).unwrap_err(), ErrorTy::SliceOutOfBounds(2, 0));
}

#[test]
fn a_single_time_step_is_addressed_by_depth_alone() {
    let image = volume(&[2, 3, 2]);
    let plain = image.slice([1, 0]).unwrap();
    for t in [1, 7, -3, isize::MIN] {
        let other = image.slice([1, t]).unwrap();
        assert_eq!(other.levels(), plain.levels());
    }
    assert_eq!(plain.levels(), &vec![1, 3, 5, 7, 9, 11]);
    assert_eq!((plain.height(), plain.width()), (2, 3));
}

#[test]
fn several_time_steps_are_addressed_by_depth_and_time() {
    let image = volume(&[2, 2, 3, 2]);
    // voxel (x, y, z, t) holds ((x * 2 + y) * 3 + z) * 2 + t
    assert_eq!(image.slice([0, 0]).unwrap().levels(), &vec![0, 6, 12, 18]);
    assert_eq!(image.slice([0, 1]).unwrap().levels(), &vec![1, 7, 13, 19]);
    assert_eq!(image.slice([2, 0]).unwrap().levels(), &vec![4, 10, 16, 22]);
    assert_eq!(image.slice([2, 1]).unwrap().levels(), &vec![5, 11, 17, 23]);
    assert_eq!(image.slice([1, 2]).unwrap_err(), ErrorTy::SliceOutOfBounds(1, 2));
    assert_eq!(image.slice([1, -1]).unwrap_err(), ErrorTy::SliceOutOfBounds(1, -1));
    assert_eq!(image.slice([3, 1]).unwrap_err(), ErrorTy::SliceOutOfBounds(3, 1));
}

#[test]
fn all_slices_together_hold_every_voxel_once() {
    let image = volume(&[3, 2, 4, 3]);
    let mut seen: Vec<u64> = Vec::new();
    for t in 0..3 {
        for z in 0..4 {
            seen.extend(image.slice([z, t]).unwrap().levels().iter());
        }
    }
    seen.sort();
    let all: Vec<u64> = (0..72).collect();
    assert_eq!(seen, all);
}
