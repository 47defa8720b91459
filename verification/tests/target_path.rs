use nifti2png::target_path::{join, slice_file_name, Existence, TargetImageDir, TargetPath};

#[test]
fn slice_files_are_named_by_depth_in_four_digits() {
    assert_eq!(slice_file_name(0), "0000.png");
    assert_eq!(slice_file_name(1), "0001.png");
    assert_eq!(slice_file_name(42), "0042.png");
    assert_eq!(slice_file_name(999), "0999.png");
    assert_eq!(slice_file_name(1000), "1000.png");
    assert_eq!(slice_file_name(9999), "9999.png");
}

#[test]
fn slice_file_names_widen_beyond_four_digits() {
    assert_eq!(slice_file_name(10000), "10000.png");
    assert_eq!(slice_file_name(123456789), "123456789.png");
    assert_eq!(slice_file_name(usize::MAX), format!("{}.png", usize::MAX));
}

#[test]
fn slice_file_names_from_zero_to_ten_thousand() {
    for z in 0..=10000usize {
        assert_eq!(slice_file_name(z), format!("{z:04}.png"));
    }
}

#[test]
fn joining_puts_a_separator_between_the_parts() {
    assert_eq!(join("out", "a.nii"), "out/a.nii");
    assert_eq!(join("out/", "a.nii"), "out/a.nii");
    assert_eq!(join("", "a.nii"), "a.nii");
    assert_eq!(join("out", ""), "out/");
    assert_eq!(join("/", "a"), "/a");
    assert_eq!(join("a/b", "c/d"), "a/b/c/d");
    assert_eq!(join("données", "é.nii"), "données/é.nii");
}

#[test]
fn joining_a_rooted_name_gives_the_name() {
    assert_eq!(join("out", "/abs/a.nii"), "/abs/a.nii");
    assert_eq!(join("", "/"), "/");
}

#[test]
fn a_target_directory_is_named_after_the_volume_file() {
    let target = TargetPath::png_stub("slice", "avg152T1_LR_nifti.nii.gz");
    assert_eq!(target.path, "slice/avg152T1_LR_nifti.nii.gz");
    assert_eq!(target.existence, Existence::Unknown);
    assert_eq!(target.slice_file(0), "slice/avg152T1_LR_nifti.nii.gz/0000.png");
    assert_eq!(target.slice_file(90), "slice/avg152T1_LR_nifti.nii.gz/0090.png");
    assert_eq!(target.slice_file(10000), "slice/avg152T1_LR_nifti.nii.gz/10000.png");
}

#[test]
fn a_new_target_directory_is_of_unknown_existence() {
    let target = TargetImageDir("some/dir".to_string());
    assert_eq!(target.path, "some/dir");
    assert_eq!(target.existence, Existence::Unknown);
}
