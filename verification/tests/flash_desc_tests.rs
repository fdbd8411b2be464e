//! Tests of the flash layout and its named sections.

use frankly_fw_update::device::flash::{FlashDesc, FlashDescError};

#[test]
fn flash_desc_new() {
    let flash_desc = FlashDesc::new(0x08000000, 0x10000, 0x400);

    assert_eq!(flash_desc.get_address(), 0x08000000);
    assert_eq!(flash_desc.get_size(), 0x10000);
    assert_eq!(flash_desc.get_page_size(), 0x400);
    assert_eq!(flash_desc.get_num_pages(), 0x40);
}

#[test]
fn flash_desc_add_section() {
    let mut flash_desc = FlashDesc::new(0x08000000, 0x10000, 0x400);

    let name = String::from("test");
    let address = 0x08000000;
    let size = 0x1000;

    flash_desc.add_section(&name, address, size).unwrap();

    assert_eq!(flash_desc.get_num_section(), 1);
    assert_eq!(flash_desc.get_section_name_list(), vec![name.clone()]);
    assert_eq!(flash_desc.get_section_address(&name), Some(address));
    assert_eq!(flash_desc.get_section_size(&name), Some(size));
    assert_eq!(flash_desc.get_section_page_id(&name), Some(0));
}

#[test]
fn flash_desc_add_section_name_error() {
    let mut flash_desc = FlashDesc::new(0x08000000, 0x10000, 0x400);

    let name = String::from("test");
    let address = 0x08000000;
    let size = 0x1000;

    flash_desc.add_section(&name, address, size).unwrap();

    let result = flash_desc.add_section(&name, address, size);

    assert_eq!(result, Err(FlashDescError::FlashNameAlreadyUsed));
}

#[test]
fn flash_desc_add_section_invalid_address() {
    let mut flash_desc = FlashDesc::new(0x08000000, 0x10000, 0x400);

    let name = String::from("test");
    let address = 0x08000001;
    let size = 0x1000;

    let result = flash_desc.add_section(&name, address, size);

    assert_eq!(result.is_err(), true);
    assert_eq!(result.unwrap_err(), FlashDescError::FlashSectionAddressInvalid);
}

#[test]
fn flash_desc_add_section_invalid_size() {
    let mut flash_desc = FlashDesc::new(0x08000000, 0x10000, 0x400);

    let name = String::from("test");
    let address = 0x08000000;
    let size = 0x1001;

    let result = flash_desc.add_section(&name, address, size);

    assert_eq!(result.is_err(), true);
    assert_eq!(result.unwrap_err(), FlashDescError::FlashSectionSizeInvalid);
}

#[test]
fn flash_desc_add_section_too_big() {
    let mut flash_desc = FlashDesc::new(0x08000000, 0x10000, 0x400);

    let name = String::from("test");
    let address = 0x08000000;
    let size = 0x20000;

    let result = flash_desc.add_section(&name, address, size);

    assert_eq!(result.is_err(), true);
    assert_eq!(result.unwrap_err(), FlashDescError::FlashSectionSizeTooBig);
}

#[test]
fn flash_desc_add_section_overlaps() {
    let mut flash_desc = FlashDesc::new(0x08000000, 0x10000, 0x400);

    let name = String::from("test");
    let address = 0x08000000;
    let size = 0x1000;

    flash_desc.add_section(&name, address, size).unwrap();

    let name = String::from("test2");
    let address = 0x08000400;
    let size = 0x1000;

    let result = flash_desc.add_section(&name, address, size);

    assert_eq!(result.is_err(), true);
    assert_eq!(result.unwrap_err(), FlashDescError::FlashAreaAlreadyUsed);
}

#[test]
fn flash_desc_add_section_contains_earlier() {
    // A section enclosing an earlier one entirely is an overlap too
    let mut flash_desc = FlashDesc::new(0x08000000, 0x10000, 0x400);

    flash_desc.add_section("test", 0x08000400, 0x400).unwrap();

    let result = flash_desc.add_section("test2", 0x08000000, 0x1000);
    assert_eq!(result.unwrap_err(), FlashDescError::FlashAreaAlreadyUsed);
}

#[test]
fn flash_desc_get_section_by_name() {
    let mut flash_desc = FlashDesc::new(0x08000000, 0x10000, 0x400);

    let name = String::from("test");
    let address = 0x08000000;
    let size = 0x1000;

    flash_desc.add_section(&name, address, size).unwrap();

    let result = flash_desc.get_section(&name);

    assert_eq!(result.is_some(), true);
    assert_eq!(result.unwrap().get_name(), &name);
    assert_eq!(result.unwrap().get_address(), address);
    assert_eq!(result.unwrap().get_size(), size);
}

#[test]
fn flash_desc_get_section_by_name_none() {
    let mut flash_desc = FlashDesc::new(0x08000000, 0x10000, 0x400);

    let name = String::from("test");
    let address = 0x08000000;
    let size = 0x1000;

    flash_desc.add_section(&name, address, size).unwrap();

    let name = String::from("test2");

    let result = flash_desc.get_section(&name);

    assert_eq!(result.is_none(), true);
}

#[test]
fn flash_desc_get_section_address_by_name() {
    let mut flash_desc = FlashDesc::new(0x08000000, 0x10000, 0x400);

    let name = String::from("test");
    let address = 0x08000000;
    let size = 0x1000;

    flash_desc.add_section(&name, address, size).unwrap();

    let result = flash_desc.get_section_address(&name);

    assert_eq!(result.is_some(), true);
    assert_eq!(result.unwrap(), address);
}

#[test]
fn flash_desc_get_section_size_by_name() {
    let mut flash_desc = FlashDesc::new(0x08000000, 0x10000, 0x400);

    let name = String::from("test");
    let address = 0x08000000;
    let size = 0x1000;

    flash_desc.add_section(&name, address, size).unwrap();

    let result = flash_desc.get_section_size(&name);

    assert_eq!(result.is_some(), true);
    assert_eq!(result.unwrap(), size);
}

#[test]
fn flash_desc_get_section_page_id_by_name() {
    let mut flash_desc = FlashDesc::new(0x08000000, 0x10000, 0x400);

    let name = String::from("test");
    let address = 0x08000000;
    let size = 0x1000;

    flash_desc.add_section(&name, address, size).unwrap();

    let result = flash_desc.get_section_page_id(&name);

    assert_eq!(result.is_some(), true);
    assert_eq!(result.unwrap(), 0);
}

#[test]
fn flash_desc_get_section_num_pages_by_name() {
    let mut flash_desc = FlashDesc::new(0x08000000, 0x10000, 0x400);

    let name = String::from("test");
    let address = 0x08000000;
    let size = 0x1000;

    flash_desc.add_section(&name, address, size).unwrap();

    let result = flash_desc.get_section_num_pages(&name);

    assert_eq!(result.is_some(), true);
    assert_eq!(result.unwrap(), 4);
}

#[test]
fn flash_desc_add_section_below_flash() {
    let mut flash_desc = FlashDesc::new(0x08000000, 0x10000, 0x400);

    let result = flash_desc.add_section("test", 0x07000000, 0x400);
    assert_eq!(result.unwrap_err(), FlashDescError::FlashSectionAddressInvalid);
}
