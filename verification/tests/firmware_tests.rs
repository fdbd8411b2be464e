//! Tests of the firmware assembler, the flash pages and the CRC-32.

use frankly_fw_update::firmware::flash_page::FlashPage;
use frankly_fw_update::firmware::{AppFirmware, FirmwareDataRaw, FlashPageList, crc32};

#[test]
fn from_firmware_map_invalid_address() {
    let mut map = FirmwareDataRaw::new();
    map.insert(0x07000000, 0x00);

    let mut app_fw = AppFirmware::new(0x08000000, 0x400, 0x10);
    let result = app_fw.append_firmware(&map);
    assert!(result.is_err());
}

#[test]
fn from_firmware_map_one_page() {
    let mut map = FirmwareDataRaw::new();
    map.insert(0x08000000, 0x00);
    map.insert(0x08000001, 0x01);
    map.insert(0x08000002, 0x02);
    map.insert(0x08000003, 0x03);
    map.insert(0x08000005, 0x04);

    let mut app_fw = AppFirmware::new(0x08000000, 0x400, 0x10);
    let result = app_fw.append_firmware(&map);
    assert!(result.is_ok());

    assert_eq!(app_fw.get_page_lst().len(), 1);

    let page = app_fw.get_page(0).unwrap();
    assert_eq!(page.get_address(), 0x08000000);
    assert_eq!(page.get_byte_vec().len(), 0x400);
    assert_eq!(page.get_byte_vec()[0], 0x00);
    assert_eq!(page.get_byte_vec()[1], 0x01);
    assert_eq!(page.get_byte_vec()[2], 0x02);
    assert_eq!(page.get_byte_vec()[3], 0x03);
    assert_eq!(page.get_byte_vec()[4], 0xFF);
    assert_eq!(page.get_byte_vec()[5], 0x04);
}

#[test]
fn from_firmware_map_two_pages() {
    let mut map = FirmwareDataRaw::new();
    map.insert(0x08000000, 0x00);
    map.insert(0x08000001, 0x01);
    map.insert(0x08000002, 0x02);
    map.insert(0x08000003, 0x03);
    map.insert(0x08000005, 0x04);

    map.insert(0x08000800, 0x10);
    map.insert(0x08000801, 0x11);
    map.insert(0x0800080F, 0x12);

    let mut app_fw = AppFirmware::new(0x08000000, 0x400, 0x10);
    let result = app_fw.append_firmware(&map);
    assert!(result.is_ok());

    assert_eq!(app_fw.get_page_lst().len(), 2);
    assert!(app_fw.get_page(1).is_none());

    let page = app_fw.get_page(0).unwrap();
    assert_eq!(page.get_address(), 0x08000000);
    assert_eq!(page.get_byte_vec().len(), 0x400);
    assert_eq!(page.get_byte_vec()[0], 0x00);
    assert_eq!(page.get_byte_vec()[1], 0x01);
    assert_eq!(page.get_byte_vec()[2], 0x02);
    assert_eq!(page.get_byte_vec()[3], 0x03);
    assert_eq!(page.get_byte_vec()[4], 0xFF);
    assert_eq!(page.get_byte_vec()[5], 0x04);

    let page = app_fw.get_page(2).unwrap();
    assert_eq!(page.get_address(), 0x08000800);
    assert_eq!(page.get_byte_vec().len(), 0x400);
    assert_eq!(page.get_byte_vec()[0], 0x10);
    assert_eq!(page.get_byte_vec()[1], 0x11);
    assert_eq!(page.get_byte_vec()[2], 0xFF);
    assert_eq!(page.get_byte_vec()[3], 0xFF);
    assert_eq!(page.get_byte_vec()[4], 0xFF);
    assert_eq!(page.get_byte_vec()[5], 0xFF);
    assert_eq!(page.get_byte_vec()[6], 0xFF);
    assert_eq!(page.get_byte_vec()[7], 0xFF);
    assert_eq!(page.get_byte_vec()[8], 0xFF);
    assert_eq!(page.get_byte_vec()[9], 0xFF);
    assert_eq!(page.get_byte_vec()[10], 0xFF);
    assert_eq!(page.get_byte_vec()[11], 0xFF);
    assert_eq!(page.get_byte_vec()[12], 0xFF);
    assert_eq!(page.get_byte_vec()[13], 0xFF);
    assert_eq!(page.get_byte_vec()[14], 0xFF);
    assert_eq!(page.get_byte_vec()[15], 0x12);
}

fn check_crc32_checksum_algo() {
    let bytes = [1, 2, 3, 4, 5, 6, 7, 8, 9];
    let checksum = crc32(&bytes);
    let checksum_exp = 0x40EFAB9E;

    println!("Calculated: {:#X}, Expected: {:#X}", checksum, checksum_exp);
    assert_eq!(checksum, checksum_exp);
}

#[test]
fn firmware_address_below_base_fails() {
    // An address strictly below the application base makes append fail
    let mut map = FirmwareDataRaw::new();
    map.insert(0x08000000, 0xAA);

    let mut app_fw = AppFirmware::new(0x08000001, 0x400, 0x10);
    assert!(app_fw.append_firmware(&map).is_err());
}

#[test]
fn firmware_address_past_end_fails() {
    let mut map = FirmwareDataRaw::new();
    map.insert(0x08004000, 0xAA);

    // Sixteen pages of 0x400 end at 0x08004000 exclusive
    let mut app_fw = AppFirmware::new(0x08000000, 0x400, 0x10);
    assert!(app_fw.append_firmware(&map).is_err());
}

#[test]
fn firmware_page_crcs_match_bytes() {
    let mut map = FirmwareDataRaw::new();
    map.insert(0x08000000, 0x5A);

    let mut app_fw = AppFirmware::new(0x08000000, 0x400, 0x04);
    app_fw.append_firmware(&map).unwrap();

    let page = app_fw.get_page(0).unwrap();
    assert_eq!(page.get_crc(), crc32(page.get_bytes().as_slice()));
}

#[test]
fn firmware_whole_image_crc_skips_stored_slot() {
    // One byte at the region start; the whole-image hash runs over all four
    // pages (missing ones erased) minus the last four bytes
    let mut map = FirmwareDataRaw::new();
    map.insert(0x08000000, 0x5A);

    let mut app_fw = AppFirmware::new(0x08000000, 0x400, 0x04);
    app_fw.append_firmware(&map).unwrap();

    let mut image: Vec<u8> = vec![0xFF; 4 * 0x400];
    image[0] = 0x5A;
    image.truncate(4 * 0x400 - 4);
    assert_eq!(app_fw.get_crc(), crc32(&image));
}

#[test]
fn firmware_append_twice_keeps_earlier_bytes() {
    let mut first = FirmwareDataRaw::new();
    first.insert(0x08000000, 0x11);
    let mut second = FirmwareDataRaw::new();
    second.insert(0x08000001, 0x22);

    let mut app_fw = AppFirmware::new(0x08000000, 0x400, 0x04);
    app_fw.append_firmware(&first).unwrap();
    app_fw.append_firmware(&second).unwrap();

    let page = app_fw.get_page(0).unwrap();
    assert_eq!(page.get_byte_vec()[0], 0x11);
    assert_eq!(page.get_byte_vec()[1], 0x22);
}

#[test]
fn firmware_from_section_takes_geometry() {
    let mut flash_desc = frankly_fw_update::device::flash::FlashDesc::new(
        0x08000000, 0x3C00, 0x400,
    );
    flash_desc.add_section("Application", 0x08000800, 0x3400).unwrap();
    let section = flash_desc.get_section("Application").unwrap();

    let app_fw = AppFirmware::from_section(section);
    assert_eq!(app_fw.get_app_start_address(), 0x08000800);
    assert_eq!(app_fw.get_flash_page_size(), 0x400);
    assert_eq!(app_fw.get_flash_num_pages(), 13);
}

#[test]
fn flash_page_list_from_firmware_data() {
    let mut map = FirmwareDataRaw::new();
    map.insert(0x08000000, 0x00);
    map.insert(0x08000001, 0x01);
    map.insert(0x08000002, 0x02);
    map.insert(0x08000003, 0x03);
    map.insert(0x08000005, 0x04);

    let result = FlashPageList::from_firmware_data(&map, 0x08000000, 0x400, 0x10);
    assert!(result.is_ok());

    let page_map = result.unwrap();
    assert_eq!(page_map.len(), 1);

    let page = page_map.get(0).unwrap();
    assert_eq!(page.get_address(), 0x08000000);
    assert_eq!(page.get_byte_vec().len(), 0x400);
    assert_eq!(page.get_byte_vec()[0], 0x00);
    assert_eq!(page.get_byte_vec()[4], 0xFF);
    assert_eq!(page.get_byte_vec()[5], 0x04);
}

#[test]
fn flash_page_list_invalid_address() {
    let mut map = FirmwareDataRaw::new();
    map.insert(0x07000000, 0x00);

    let result = FlashPageList::from_firmware_data(&map, 0x08000000, 0x400, 0x10);
    assert!(result.is_err());
}

#[test]
fn flash_page_new_and_crc() {
    let mut page = FlashPage::new(3, 0x08000C00, vec![0xFF; 0x400]);
    assert_eq!(page.get_id(), 3);
    assert_eq!(page.get_address(), 0x08000C00);
    assert_eq!(page.get_bytes().len(), 0x400);
    assert_eq!(page.get_crc(), 0);

    page.set_byte(0, 0xAB);
    assert_eq!(page.get_byte_vec()[0], 0xAB);

    page.calculate_crc();
    assert_eq!(page.get_crc(), crc32(page.get_bytes().as_slice()));
}

#[test]
fn firmware_map_insert_and_get() {
    let mut map = FirmwareDataRaw::new();
    assert!(map.is_empty());
    map.insert(0x10, 0xAA);
    map.insert(0x08, 0xBB);
    map.insert(0x10, 0xCC);
    assert_eq!(map.len(), 2);
    assert_eq!(map.entry_at(0), (0x08, 0xBB));
    assert_eq!(map.entry_at(1), (0x10, 0xCC));
    assert_eq!(map.get(0x10), Some(0xCC));
    assert_eq!(map.get(0x08), Some(0xBB));
    assert_eq!(map.get(0x09), None);
}

#[test]
fn test_crc32_checksum_algo() {
    check_crc32_checksum_algo();
}

#[test]
fn mod_test_crc32_checksum_algo() {
    check_crc32_checksum_algo();
}

#[test]
fn mod_from_firmware_map_invalid_address() {
    let mut map = FirmwareDataRaw::new();
    map.insert(0x07000000, 0x00);

    let result = FlashPageList::from_firmware_data(&map, 0x08000000, 0x400, 0x10);
    assert!(result.is_err());
}

#[test]
fn mod_from_firmware_map_one_page() {
    let mut map = FirmwareDataRaw::new();
    map.insert(0x08000000, 0x00);
    map.insert(0x08000001, 0x01);
    map.insert(0x08000002, 0x02);
    map.insert(0x08000003, 0x03);
    map.insert(0x08000005, 0x04);

    let result = FlashPageList::from_firmware_data(&map, 0x08000000, 0x400, 0x10);
    assert!(result.is_ok());

    let page_map = result.unwrap();
    assert_eq!(page_map.len(), 1);

    let page = page_map.get(0).unwrap();
    assert_eq!(page.get_address(), 0x08000000);
    assert_eq!(page.get_byte_vec().len(), 0x400);
    assert_eq!(page.get_byte_vec()[0], 0x00);
    assert_eq!(page.get_byte_vec()[1], 0x01);
    assert_eq!(page.get_byte_vec()[2], 0x02);
    assert_eq!(page.get_byte_vec()[3], 0x03);
    assert_eq!(page.get_byte_vec()[4], 0xFF);
    assert_eq!(page.get_byte_vec()[5], 0x04);
}

#[test]
fn mod_from_firmware_map_two_pages() {
    let mut map = FirmwareDataRaw::new();
    map.insert(0x08000000, 0x00);
    map.insert(0x08000001, 0x01);
    map.insert(0x08000002, 0x02);
    map.insert(0x08000003, 0x03);
    map.insert(0x08000005, 0x04);

    map.insert(0x08000800, 0x10);
    map.insert(0x08000801, 0x11);
    map.insert(0x0800080F, 0x12);

    let result = FlashPageList::from_firmware_data(&map, 0x08000000, 0x400, 0x10);
    assert!(result.is_ok());

    let page_map = result.unwrap();
    assert_eq!(page_map.len(), 2);

    let page = page_map.get(0).unwrap();
    assert_eq!(page.get_address(), 0x08000000);
    assert_eq!(page.get_byte_vec().len(), 0x400);
    assert_eq!(page.get_byte_vec()[0], 0x00);
    assert_eq!(page.get_byte_vec()[1], 0x01);
    assert_eq!(page.get_byte_vec()[2], 0x02);
    assert_eq!(page.get_byte_vec()[3], 0x03);
    assert_eq!(page.get_byte_vec()[4], 0xFF);
    assert_eq!(page.get_byte_vec()[5], 0x04);

    let page = page_map.get(2).unwrap();
    assert_eq!(page.get_address(), 0x08000800);
    assert_eq!(page.get_byte_vec().len(), 0x400);
    assert_eq!(page.get_byte_vec()[0], 0x10);
    assert_eq!(page.get_byte_vec()[1], 0x11);
    assert_eq!(page.get_byte_vec()[2], 0xFF);
    assert_eq!(page.get_byte_vec()[3], 0xFF);
    assert_eq!(page.get_byte_vec()[4], 0xFF);
    assert_eq!(page.get_byte_vec()[5], 0xFF);
    assert_eq!(page.get_byte_vec()[6], 0xFF);
    assert_eq!(page.get_byte_vec()[7], 0xFF);
    assert_eq!(page.get_byte_vec()[8], 0xFF);
    assert_eq!(page.get_byte_vec()[9], 0xFF);
    assert_eq!(page.get_byte_vec()[10], 0xFF);
    assert_eq!(page.get_byte_vec()[11], 0xFF);
    assert_eq!(page.get_byte_vec()[12], 0xFF);
    assert_eq!(page.get_byte_vec()[13], 0xFF);
    assert_eq!(page.get_byte_vec()[14], 0xFF);
    assert_eq!(page.get_byte_vec()[15], 0x12);
}
