use ggoled::device::DeviceError;
use ggoled::device::HidCandidate;
use ggoled::device::assign_roles;
use ggoled::device::matches_filter;
use ggoled::device::paths_equal;
use ggoled::device::select_pair;
use ggoled::device::validate_brightness;

fn cand(vendor_id: u16, product_id: u16, interface_number: i32) -> HidCandidate {
    HidCandidate { vendor_id, product_id, interface_number, path: vec![1, 2, 3] }
}

#[test]
fn filter_accepts_the_known_sub_interfaces() {
    for pid in [0x12cb, 0x12cd, 0x12e0, 0x12e5] {
        assert!(matches_filter(&cand(0x1038, pid, 4)));
    }
}

#[test]
fn filter_rejects_other_devices() {
    assert!(!matches_filter(&cand(0x1234, 0x12cb, 4)));
    assert!(!matches_filter(&cand(0x1038, 0x1290, 4)));
    assert!(!matches_filter(&cand(0x1038, 0x12cb, 3)));
}

#[test]
fn select_pair_no_matching_devices() {
    let list = vec![cand(0x1111, 1, 4), cand(0x2222, 2, 0)];
    assert_eq!(select_pair(&list), Err(DeviceError::NoDevices));
    assert_eq!(select_pair(&Vec::new()), Err(DeviceError::NoDevices));
}

#[test]
fn select_pair_exactly_one_match_is_too_few() {
    let list = vec![cand(0x1111, 1, 4), cand(0x1038, 0x12e0, 4)];
    assert_eq!(select_pair(&list), Err(DeviceError::TooFewDevices));
}

#[test]
fn select_pair_three_matches_is_too_many() {
    let list = vec![
        cand(0x1038, 0x12cb, 4),
        cand(0x1038, 0x12cb, 4),
        cand(0x1038, 0x12e0, 4),
    ];
    assert_eq!(select_pair(&list), Err(DeviceError::TooManyDevices));
}

#[test]
fn select_pair_two_matches_in_order() {
    let list = vec![
        cand(0x9999, 7, 4),
        cand(0x1038, 0x12cb, 4),
        cand(0x1038, 0x12cb, 0),
        cand(0x1038, 0x12e5, 4),
    ];
    assert_eq!(select_pair(&list), Ok((1, 3)));
}

#[test]
fn assign_roles_in_either_order() {
    assert_eq!(assign_roles(0xc0, 0x00), Ok((0, 1)));
    assert_eq!(assign_roles(0x00, 0xc0), Ok((1, 0)));
}

#[test]
fn assign_roles_without_oled_descriptor() {
    assert_eq!(assign_roles(0x10, 0x20), Err(DeviceError::NoOledDevice));
    assert_eq!(assign_roles(0x00, 0x00), Err(DeviceError::NoOledDevice));
}

#[test]
fn assign_roles_without_info_descriptor() {
    assert_eq!(assign_roles(0xc0, 0x55), Err(DeviceError::NoInfoDevice));
    assert_eq!(assign_roles(0xc0, 0xc0), Err(DeviceError::NoInfoDevice));
    assert_eq!(assign_roles(0x55, 0xc0), Err(DeviceError::NoInfoDevice));
}

#[test]
fn paths_compare_by_bytes() {
    assert!(paths_equal(&vec![1, 2, 3], &vec![1, 2, 3]));
    assert!(!paths_equal(&vec![1, 2, 3], &vec![1, 2, 4]));
    assert!(!paths_equal(&vec![1, 2], &vec![1, 2, 3]));
    assert!(paths_equal(&Vec::new(), &Vec::new()));
}

#[test]
fn brightness_range_is_validated_not_clamped() {
    assert_eq!(validate_brightness(0), Err(DeviceError::BrightnessTooLow));
    assert_eq!(validate_brightness(11), Err(DeviceError::BrightnessTooHigh));
    assert_eq!(validate_brightness(255), Err(DeviceError::BrightnessTooHigh));
    assert_eq!(validate_brightness(1), Ok(()));
    assert_eq!(validate_brightness(10), Ok(()));
}
