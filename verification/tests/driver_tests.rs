//! Tests of the update driver: initialization, flash layout, entry caching,
//! the flash sequence, CRC verification and its recovery pass.

use frankly_fw_update::com::ComSimulator;
use frankly_fw_update::com::msg::{Msg, MsgData, RequestType, ResultType};
use frankly_fw_update::device::device::Device;
use frankly_fw_update::device::entry::{Entry, EntryType};
use frankly_fw_update::firmware::{AppFirmware, FirmwareDataInterface, FirmwareDataRaw, crc32};
use frankly_fw_update::{Error, ProgressLog, ProgressUpdate};

/// Firmware provider handing out a fixed byte map.
struct MapFirmware {
    data: FirmwareDataRaw,
}

impl FirmwareDataInterface for MapFirmware {
    fn get_firmware_data(&self) -> Option<&FirmwareDataRaw> {
        Some(&self.data)
    }
}

fn ok_response(request: RequestType, word: u32) -> Msg {
    Msg::new(request, ResultType::OkCode, 0, &MsgData::from_word(word))
}

/// Queue the responses of the init sequence: version 0x00030201, bootloader
/// CRC 0xDEADBEEF, VID 1, PID 2, PRD 3, UID words 4..7, flash start
/// 0x08000000, page size 0x400, 15 pages, application page index 2.
fn queue_init_responses(interface: &mut ComSimulator) {
    interface.add_response(ok_response(RequestType::DevInfoBootloaderVersion, 0x00030201));
    interface.add_response(ok_response(RequestType::DevInfoBootloaderCRC, 0xDEADBEEF));
    interface.add_response(ok_response(RequestType::DevInfoVID, 0x00000001));
    interface.add_response(ok_response(RequestType::DevInfoPID, 0x00000002));
    interface.add_response(ok_response(RequestType::DevInfoPRD, 0x00000003));
    interface.add_response(ok_response(RequestType::DevInfoUID, 0x00000004));
    interface.add_response(ok_response(RequestType::DevInfoUID2, 0x00000005));
    interface.add_response(ok_response(RequestType::DevInfoUID3, 0x00000006));
    interface.add_response(ok_response(RequestType::DevInfoUID4, 0x00000007));
    interface.add_response(ok_response(RequestType::FlashInfoStartAddr, 0x08000000));
    interface.add_response(ok_response(RequestType::FlashInfoPageSize, 0x00000400));
    interface.add_response(ok_response(RequestType::FlashInfoNumPages, 0x0000000F));
    interface.add_response(ok_response(RequestType::AppInfoPageIdx, 0x00000002));
}

fn new_com_sim_with_data() -> ComSimulator {
    let mut interface = ComSimulator::new();
    queue_init_responses(&mut interface);
    interface
}

/// The single-page firmware image of the flash scenarios: one byte 0xAA at
/// 0x08000800, laid out over the application section of the init scenario.
fn single_byte_image() -> AppFirmware {
    let mut map = FirmwareDataRaw::new();
    map.insert(0x08000800, 0xAA);
    let mut app_fw = AppFirmware::new(0x08000800, 0x400, 13);
    app_fw.append_firmware(&map).unwrap();
    app_fw
}

/// Queue the page-streaming responses for the single-page image: buffer
/// clear, 256 word writes with packet ids 0..255, and the buffer CRC.
fn queue_page_responses(interface: &mut ComSimulator, page_crc: u32) {
    interface.add_response(ok_response(RequestType::PageBufferClear, 0));
    let mut bytes: Vec<u8> = vec![0xFF; 0x400];
    bytes[0] = 0xAA;
    for i in 0..256u32 {
        let offset = (i * 4) as usize;
        let word = MsgData::from_array(&[
            bytes[offset],
            bytes[offset + 1],
            bytes[offset + 2],
            bytes[offset + 3],
        ]);
        interface.add_response(Msg::new(
            RequestType::PageBufferWriteWord,
            ResultType::OkCode,
            i as u8,
            &word,
        ));
    }
    interface.add_response(ok_response(RequestType::PageBufferCalcCRC, page_crc));
}

#[test]
fn device_new_and_init() {
    let com = new_com_sim_with_data();
    let mut device = Device::new(com);
    device.init().unwrap();

    assert_eq!(device.entries.get_entry_value(RequestType::DevInfoBootloaderVersion), 0x00030201);

    assert_eq!(device.entries.get_entry_value(RequestType::DevInfoBootloaderCRC), 0xDEADBEEF);

    assert_eq!(device.entries.get_entry_value(RequestType::DevInfoVID), 1);
    assert_eq!(device.entries.get_entry_value(RequestType::DevInfoPID), 2);
    assert_eq!(device.entries.get_entry_value(RequestType::DevInfoPRD), 3);
    assert_eq!(device.entries.get_entry_value(RequestType::DevInfoUID), 4);
    assert_eq!(device.entries.get_entry_value(RequestType::DevInfoUID2), 5);
    assert_eq!(device.entries.get_entry_value(RequestType::DevInfoUID3), 6);
    assert_eq!(device.entries.get_entry_value(RequestType::DevInfoUID4), 7);

    assert_eq!(device.entries.get_entry_value(RequestType::FlashInfoStartAddr), 0x08000000);
    assert_eq!(device.entries.get_entry_value(RequestType::FlashInfoPageSize), 0x0400);
    assert_eq!(device.entries.get_entry_value(RequestType::FlashInfoNumPages), 0x000F);
    assert_eq!(device.entries.get_entry_value(RequestType::AppInfoPageIdx), 0x0002);
}

#[test]
fn device_new_no_init_get_entry() {
    let device = Device::new(ComSimulator::new());

    assert!(device.entries.get_entry(RequestType::DevInfoBootloaderVersion).get_value().is_none());

    assert!(device.entries.get_entry(RequestType::DevInfoBootloaderCRC).get_value().is_none());

    assert!(device.entries.get_entry(RequestType::DevInfoVID).get_value().is_none());

    assert!(device.entries.get_entry(RequestType::DevInfoPID).get_value().is_none());

    assert!(device.entries.get_entry(RequestType::DevInfoPRD).get_value().is_none());

    assert!(device.entries.get_entry(RequestType::DevInfoUID).get_value().is_none());

    assert!(device.entries.get_entry(RequestType::DevInfoUID2).get_value().is_none());

    assert!(device.entries.get_entry(RequestType::DevInfoUID3).get_value().is_none());

    assert!(device.entries.get_entry(RequestType::DevInfoUID4).get_value().is_none());

    assert!(device.entries.get_entry(RequestType::FlashInfoStartAddr).get_value().is_none());

    assert!(device.entries.get_entry(RequestType::FlashInfoPageSize).get_value().is_none());

    assert!(device.entries.get_entry(RequestType::FlashInfoNumPages).get_value().is_none());

    assert!(device.entries.get_entry(RequestType::AppInfoPageIdx).get_value().is_none());
}

#[test]
fn device_init_flash_layout() {
    // Bootloader at the flash start covering two pages, application right
    // after it with the remaining thirteen
    let com = new_com_sim_with_data();
    let mut device = Device::new(com);
    device.init().unwrap();

    let desc = device.get_flash_desc();
    assert_eq!(desc.get_address(), 0x08000000);
    assert_eq!(desc.get_size(), 0x0F * 0x400);
    assert_eq!(desc.get_page_size(), 0x400);

    assert_eq!(desc.get_section_address("Bootloader"), Some(0x08000000));
    assert_eq!(desc.get_section_size("Bootloader"), Some(0x800));
    assert_eq!(desc.get_section_page_id("Bootloader"), Some(0));

    assert_eq!(desc.get_section_address("Application"), Some(0x08000800));
    assert_eq!(desc.get_section_size("Application"), Some(0x3400));
    assert_eq!(desc.get_section_page_id("Application"), Some(2));
    assert_eq!(desc.get_section_num_pages("Application"), Some(13));
}

#[test]
fn device_getters_after_init() {
    let com = new_com_sim_with_data();
    let mut device = Device::new(com);
    device.init().unwrap();

    assert_eq!(device.get_device_info_vid(), 1);
    assert_eq!(device.get_device_info_pid(), 2);
    assert_eq!(device.get_device_info_prd(), 3);
    assert_eq!(
        device.get_device_info_uid(),
        4u128 | (5u128 << 32) | (6u128 << 64) | (7u128 << 96)
    );
    assert_eq!(device.get_bootloader_version(), "1.2.3");
}

#[test]
fn entry_const_read_is_cached() {
    // A Const entry, once read, never issues a second request
    let mut entry = Entry::new(EntryType::Const, RequestType::DevInfoVID);
    let mut com = ComSimulator::new();
    com.add_response(ok_response(RequestType::DevInfoVID, 0x46524352));

    let first = entry.read_value(&mut com).unwrap();
    assert_eq!(first.to_word(), 0x46524352);

    // The queue is now empty: a second request would time out
    let second = entry.read_value(&mut com).unwrap();
    assert_eq!(second.to_word(), 0x46524352);
    assert_eq!(com.get_result(), None);
}

#[test]
fn entry_ro_read_is_fresh() {
    // An RO entry issues a request on every read
    let mut entry = Entry::new(EntryType::RO, RequestType::AppInfoCRCCalc);
    let mut com = ComSimulator::new();
    com.add_response(ok_response(RequestType::AppInfoCRCCalc, 0x11111111));
    com.add_response(ok_response(RequestType::AppInfoCRCCalc, 0x22222222));

    assert_eq!(entry.read_value(&mut com).unwrap().to_word(), 0x11111111);
    assert_eq!(entry.read_value(&mut com).unwrap().to_word(), 0x22222222);
    assert!(entry.read_value(&mut com).is_err());
}

#[test]
fn entry_category_rules() {
    let mut com = ComSimulator::new();

    // A command entry is not readable
    let mut cmd = Entry::new(EntryType::Cmd, RequestType::PageBufferClear);
    assert!(matches!(cmd.read_value(&mut com), Err(Error::Error(_))));

    // A constant entry is not writeable and not executable
    let mut konst = Entry::new(EntryType::Const, RequestType::DevInfoVID);
    assert!(matches!(konst.write_value(&mut com, 0, &MsgData::new()), Err(Error::Error(_))));
    assert!(matches!(konst.exec(&mut com, 0), Err(Error::Error(_))));
}

#[test]
fn entry_write_checks_echo() {
    // A write whose response does not echo the payload is corruption
    let mut entry = Entry::new(EntryType::RW, RequestType::PageBufferWriteWord);
    let mut com = ComSimulator::new();
    com.add_response(Msg::new(
        RequestType::PageBufferWriteWord,
        ResultType::OkCode,
        7,
        &MsgData::from_word(0x12345678),
    ));

    let result = entry.write_value(&mut com, 7, &MsgData::from_word(0x12345679));
    assert!(matches!(result, Err(Error::MsgCorruption(_))));
}

#[test]
fn device_erase_emits_progress() {
    // The application section holds thirteen pages starting at flash page 2
    // and each erase command is echoed
    let mut com = new_com_sim_with_data();
    let mut expected_events = Vec::new();
    for i in 0..13u32 {
        com.add_response(ok_response(RequestType::FlashWriteErasePage, 2 + i));
        expected_events.push(ProgressUpdate::EraseProgress { current: i + 1, total: 13 });
    }

    let mut device = Device::new_with_progress(com, Some(ProgressLog::new()));
    device.init().unwrap();
    device.erase().unwrap();

    let log = device.get_progress().as_ref().unwrap();
    assert_eq!(log.get_events().as_slice(), expected_events.as_slice());
}

#[test]
fn device_flash_happy_path() {
    // Single page: 0xAA at the application start; the driver clears the
    // buffer, writes 256 words with packet ids 0..255, checks the page CRC,
    // erases and commits flash page 2, verifies the whole-image CRC, commits
    // it and starts the application
    let app_fw = single_byte_image();
    let page_crc = app_fw.get_page(0).unwrap().get_crc();
    let image_crc = app_fw.get_crc();

    let mut com = new_com_sim_with_data();
    let mut map = FirmwareDataRaw::new();
    map.insert(0x08000800, 0xAA);
    let fwi = MapFirmware { data: map };

    // Responses past init, in driver order
    queue_page_responses(&mut com, page_crc);
    com.add_response(ok_response(RequestType::FlashWriteErasePage, 2));
    com.add_response(ok_response(RequestType::PageBufferWriteToFlash, 2));
    com.add_response(ok_response(RequestType::AppInfoCRCCalc, image_crc));
    com.add_response(ok_response(RequestType::FlashWriteAppCRC, image_crc));
    com.add_response(ok_response(RequestType::StartApp, 0));

    let mut device = Device::new_with_progress(com, Some(ProgressLog::new()));
    device.init().unwrap();
    device.flash(&fwi).unwrap();

    // Exactly one flash progress event: page 1 of 1
    let log = device.get_progress().as_ref().unwrap();
    let flash_events: Vec<&ProgressUpdate> = log
        .get_events()
        .iter()
        .filter(|e| matches!(e, ProgressUpdate::FlashProgress { .. }))
        .collect();
    assert_eq!(flash_events.len(), 1);
    assert_eq!(*flash_events[0], ProgressUpdate::FlashProgress { current: 1, total: 1 });
}

#[test]
fn device_flash_crc_mismatch_recovers_once() {
    // The first whole-image CRC read disagrees; no page of the single-page
    // image is missing, so the driver re-reads at once, and a second
    // disagreement is fatal
    let app_fw = single_byte_image();
    let page_crc = app_fw.get_page(0).unwrap().get_crc();
    let image_crc = app_fw.get_crc();

    let mut com = new_com_sim_with_data();
    let mut map = FirmwareDataRaw::new();
    map.insert(0x08000800, 0xAA);
    let fwi = MapFirmware { data: map };

    queue_page_responses(&mut com, page_crc);
    com.add_response(ok_response(RequestType::FlashWriteErasePage, 2));
    com.add_response(ok_response(RequestType::PageBufferWriteToFlash, 2));
    // Both CRC reads disagree with the host's whole-image CRC
    com.add_response(ok_response(RequestType::AppInfoCRCCalc, image_crc ^ 1));
    com.add_response(ok_response(RequestType::AppInfoCRCCalc, image_crc ^ 1));

    let mut device = Device::new(com);
    device.init().unwrap();
    let result = device.flash(&fwi);
    assert_eq!(result, Err(Error::Error("CRC check failed".to_string())));
}

#[test]
fn device_flash_recovery_pass_succeeds() {
    // The first whole-image CRC read disagrees, the re-read agrees: the
    // flash succeeds
    let app_fw = single_byte_image();
    let page_crc = app_fw.get_page(0).unwrap().get_crc();
    let image_crc = app_fw.get_crc();

    let mut com = new_com_sim_with_data();
    let mut map = FirmwareDataRaw::new();
    map.insert(0x08000800, 0xAA);
    let fwi = MapFirmware { data: map };

    queue_page_responses(&mut com, page_crc);
    com.add_response(ok_response(RequestType::FlashWriteErasePage, 2));
    com.add_response(ok_response(RequestType::PageBufferWriteToFlash, 2));
    com.add_response(ok_response(RequestType::AppInfoCRCCalc, image_crc ^ 1));
    com.add_response(ok_response(RequestType::AppInfoCRCCalc, image_crc));
    com.add_response(ok_response(RequestType::FlashWriteAppCRC, image_crc));
    com.add_response(ok_response(RequestType::StartApp, 0));

    let mut device = Device::new(com);
    device.init().unwrap();
    device.flash(&fwi).unwrap();
}

#[test]
fn device_flash_page_crc_mismatch_is_fatal() {
    // A page-buffer CRC unequal to the host's per-page CRC fails before any
    // erase: the application region is not modified
    let app_fw = single_byte_image();
    let page_crc = app_fw.get_page(0).unwrap().get_crc();

    let mut com = new_com_sim_with_data();
    let mut map = FirmwareDataRaw::new();
    map.insert(0x08000800, 0xAA);
    let fwi = MapFirmware { data: map };

    // The buffer CRC the device reports disagrees; nothing is queued past
    // it, so any further request would fail differently
    queue_page_responses(&mut com, page_crc ^ 1);

    let mut device = Device::new(com);
    device.init().unwrap();
    let result = device.flash(&fwi);
    assert_eq!(result, Err(Error::Error("Page buffer CRC invalid".to_string())));
}

#[test]
fn device_flash_rejects_address_below_application() {
    // A firmware byte below the application base fails before any exchange
    let com = new_com_sim_with_data();
    let mut map = FirmwareDataRaw::new();
    map.insert(0x08000400, 0xAA);
    let fwi = MapFirmware { data: map };

    let mut device = Device::new(com);
    device.init().unwrap();
    assert!(device.flash(&fwi).is_err());
}

#[test]
fn device_reset_sends_command() {
    let mut com = new_com_sim_with_data();
    com.add_response(ok_response(RequestType::ResetDevice, 0));

    let mut device = Device::new(com);
    device.init().unwrap();
    device.reset().unwrap();
}

#[test]
fn device_is_app_crc_valid_reads_device() {
    let mut com = new_com_sim_with_data();
    com.add_response(ok_response(RequestType::AppInfoCRCCalc, 0x12345678));
    com.add_response(ok_response(RequestType::AppInfoCRCCalc, 0x12345678));

    let mut device = Device::new(com);
    device.init().unwrap();

    let app_fw = single_byte_image();
    let valid = device.is_app_crc_valid(&app_fw).unwrap();
    assert_eq!(valid, app_fw.get_crc() == 0x12345678);
    // A second read consumes the second queued response
    device.is_app_crc_valid(&app_fw).unwrap();
}

#[test]
fn whole_image_crc_of_single_byte_image() {
    // The host-side whole-image CRC equals a direct hash of the padded
    // region minus its stored-CRC slot
    let app_fw = single_byte_image();
    let mut image: Vec<u8> = vec![0xFF; 13 * 0x400];
    image[0] = 0xAA;
    image.truncate(13 * 0x400 - 4);
    assert_eq!(app_fw.get_crc(), crc32(&image));
}

#[test]
fn device_flash_data_happy_path() {
    // The verified core of flash, fed the byte map directly
    let app_fw = single_byte_image();
    let page_crc = app_fw.get_page(0).unwrap().get_crc();
    let image_crc = app_fw.get_crc();

    let mut com = new_com_sim_with_data();
    queue_page_responses(&mut com, page_crc);
    com.add_response(ok_response(RequestType::FlashWriteErasePage, 2));
    com.add_response(ok_response(RequestType::PageBufferWriteToFlash, 2));
    com.add_response(ok_response(RequestType::AppInfoCRCCalc, image_crc));
    com.add_response(ok_response(RequestType::FlashWriteAppCRC, image_crc));
    com.add_response(ok_response(RequestType::StartApp, 0));

    let mut device = Device::new(com);
    device.init().unwrap();

    let mut map = FirmwareDataRaw::new();
    map.insert(0x08000800, 0xAA);
    device.flash_data(&map).unwrap();
}
