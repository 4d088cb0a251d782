use knx_usb::{find_device, KnxError, KNX_VENDOR_ID};

#[test]
fn empty_list_is_not_found() {
    assert_eq!(find_device(&vec![]), Err(KnxError::DeviceNotFound));
}

#[test]
fn no_matching_vendor_is_not_found() {
    let ids = vec![Some(0x046d), Some(0x8087), Some(0x1d6b)];
    assert_eq!(find_device(&ids), Err(KnxError::DeviceNotFound));
}

#[test]
fn first_match_is_returned() {
    let ids = vec![Some(0x046d), Some(0x135e), Some(0x8087), Some(0x135e)];
    assert_eq!(find_device(&ids), Ok(1));
}

#[test]
fn match_at_start_and_end() {
    assert_eq!(find_device(&vec![Some(KNX_VENDOR_ID), Some(0x1d6b)]), Ok(0));
    assert_eq!(find_device(&vec![Some(0x1d6b), Some(0x046d), Some(KNX_VENDOR_ID)]), Ok(2));
}

#[test]
fn unreadable_descriptor_before_match_fails() {
    let ids = vec![Some(0x046d), None, Some(0x135e)];
    assert_eq!(find_device(&ids), Err(KnxError::DescriptorUnavailable));
}

#[test]
fn unreadable_descriptor_after_match_is_not_read() {
    let ids = vec![Some(0x135e), None];
    assert_eq!(find_device(&ids), Ok(0));
}

#[test]
fn locating_twice_gives_the_same_answer() {
    let ids = vec![Some(0x046d), Some(0x8087), Some(0x135e)];
    assert_eq!(find_device(&ids), find_device(&ids));
    let none = vec![Some(0x046d)];
    assert_eq!(find_device(&none), find_device(&none));
}
