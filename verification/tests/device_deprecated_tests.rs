//! Tests of the older device layer.

use frankly_fw_update::Error;
use frankly_fw_update::com::msg::{Msg, MsgData, RequestType, ResultType};
use frankly_fw_update::com::{ComError, ComSimulator};
use frankly_fw_update::device_deprecated::{Device, DeviceEntry};
use frankly_fw_update::firmware::FirmwareDataRaw;

#[test]
fn device_deprecated_device_entry_new() {
    let entry = DeviceEntry::new("Bootloader Version", RequestType::DevInfoBootloaderVersion);

    assert_eq!(entry.get_name(), "Bootloader Version");
    assert_eq!(entry.get_request_type(), RequestType::DevInfoBootloaderVersion);
    assert_eq!(entry.get_value(), None);
}

#[test]
fn device_deprecated_device_entry_read() {
    let mut entry = DeviceEntry::new("Bootloader Version", RequestType::DevInfoBootloaderVersion);

    let mut com = ComSimulator::new();
    com.add_response(Msg::new(
        RequestType::DevInfoBootloaderVersion,
        ResultType::OkCode,
        0,
        &MsgData::from_word(0x01020304),
    ));

    let result = entry.read_from_device(&mut com);
    assert_eq!(result, Ok(true));
    assert_eq!(entry.get_value(), Some(0x01020304));
}

#[test]
fn device_deprecated_device_entry_read_send_error() {
    let mut entry = DeviceEntry::new("Bootloader Version", RequestType::DevInfoBootloaderVersion);

    let mut com = ComSimulator::new();
    com.add_response(Msg::new(
        RequestType::DevInfoBootloaderVersion,
        ResultType::OkCode,
        0,
        &MsgData::from_word(0x01020304),
    ));
    com.set_send_error(Error::ComError("Send error".to_string()));

    let result = entry.read_from_device(&mut com);
    assert_eq!(result, Err(ComError::Error("Send error".to_string())));
    assert_eq!(entry.get_value(), None);
}

#[test]
fn device_deprecated_device_entry_read_recv_error() {
    let mut entry = DeviceEntry::new("Bootloader Version", RequestType::DevInfoBootloaderVersion);

    let mut com = ComSimulator::new();
    com.add_response(Msg::new(
        RequestType::DevInfoBootloaderVersion,
        ResultType::OkCode,
        0,
        &MsgData::from_word(0x01020304),
    ));
    com.set_recv_error(Error::ComError("Recv error".to_string()));

    let result = entry.read_from_device(&mut com);
    assert_eq!(result, Err(ComError::Error("Recv error".to_string())));
    assert_eq!(entry.get_value(), None);
}

#[test]
fn device_deprecated_device_entry_read_recv_timeout() {
    let mut entry = DeviceEntry::new("Bootloader Version", RequestType::DevInfoBootloaderVersion);

    let mut com = ComSimulator::new();
    com.add_response(Msg::new(
        RequestType::DevInfoBootloaderVersion,
        ResultType::OkCode,
        0,
        &MsgData::from_word(0x01020304),
    ));
    com.set_recv_timeout_error();

    let result = entry.read_from_device(&mut com);
    assert_eq!(result, Ok(false));
    assert_eq!(entry.get_value(), None);
}

#[test]
fn device_deprecated_device_read_const_data() {
    let mut device = Device::new();

    let mut com = ComSimulator::new();
    com.add_response(Msg::new(
        RequestType::DevInfoBootloaderVersion,
        ResultType::OkCode,
        0,
        &MsgData::from_word(0x01020304),
    ));

    com.add_response(Msg::new(
        RequestType::DevInfoBootloaderCRC,
        ResultType::OkCode,
        0,
        &MsgData::from_word(0x05060708),
    ));

    com.add_response(Msg::new(
        RequestType::DevInfoVID,
        ResultType::OkCode,
        0,
        &MsgData::from_word(0xDEADBEFF),
    ));

    com.add_response(Msg::new(RequestType::DevInfoPID, ResultType::OkCode, 0, &MsgData::from_word(0x1)));

    com.add_response(Msg::new(RequestType::DevInfoPRD, ResultType::OkCode, 0, &MsgData::from_word(0x2)));

    com.add_response(Msg::new(
        RequestType::DevInfoUID,
        ResultType::OkCode,
        0,
        &MsgData::from_word(0x11223344),
    ));

    com.add_response(Msg::new(
        RequestType::FlashInfoStartAddr,
        ResultType::OkCode,
        0,
        &MsgData::from_word(0x08000000),
    ));

    com.add_response(Msg::new(
        RequestType::FlashInfoPageSize,
        ResultType::OkCode,
        0,
        &MsgData::from_word(0x0800),
    ));

    com.add_response(Msg::new(
        RequestType::FlashInfoNumPages,
        ResultType::OkCode,
        0,
        &MsgData::from_word(16),
    ));

    com.add_response(Msg::new(
        RequestType::AppInfoPageIdx,
        ResultType::OkCode,
        0,
        &MsgData::from_word(8),
    ));

    // Read data from device
    assert!(device.read_const_data(&mut com).is_ok());

    // Check const data
    assert_eq!(
        device.get_const_data(RequestType::DevInfoBootloaderVersion).get_value(),
        Some(0x01020304)
    );

    assert_eq!(
        device.get_const_data(RequestType::DevInfoBootloaderCRC).get_value(),
        Some(0x05060708)
    );

    assert_eq!(device.get_const_data(RequestType::DevInfoVID).get_value(), Some(0xDEADBEFF));

    assert_eq!(device.get_const_data(RequestType::DevInfoPID).get_value(), Some(0x1));

    assert_eq!(device.get_const_data(RequestType::DevInfoPRD).get_value(), Some(0x2));

    assert_eq!(device.get_const_data(RequestType::DevInfoUID).get_value(), Some(0x11223344));

    assert_eq!(
        device.get_const_data(RequestType::FlashInfoStartAddr).get_value(),
        Some(0x08000000)
    );

    assert_eq!(device.get_const_data(RequestType::FlashInfoPageSize).get_value(), Some(0x0800));

    assert_eq!(device.get_const_data(RequestType::FlashInfoNumPages).get_value(), Some(16));

    assert_eq!(device.get_const_data(RequestType::AppInfoPageIdx).get_value(), Some(8));
}

#[test]
fn device_deprecated_commands() {
    let mut device = Device::new();
    let mut com = ComSimulator::new();

    // Reset: the device echoes the command
    com.add_response(Msg::new(RequestType::ResetDevice, ResultType::OkCode, 0, &MsgData::new()));
    assert_eq!(device.reset_device(&mut com), Ok(true));

    // Start app
    com.add_response(Msg::new(RequestType::StartApp, ResultType::OkCode, 0, &MsgData::new()));
    assert_eq!(device.start_app(&mut com), Ok(true));

    // Clear page buffer, timing out
    assert_eq!(device.clear_page_buffer(&mut com), Ok(false));
}

#[test]
fn device_deprecated_flash_firmware_rejections() {
    // Geometry not read yet: the stream is refused before any exchange
    let mut device = Device::new();
    let mut com = ComSimulator::new();
    let mut map = FirmwareDataRaw::new();
    map.insert(0x08000000, 0xAA);
    assert!(device.flash_firmware_data(&mut com, &map).is_err());

    // Read the geometry (flash at 0x08000000, 16 pages of 0x800, app at 8);
    // a byte in the bootloader area is then refused before any exchange
    let requests = [
        (RequestType::DevInfoBootloaderVersion, 0x01020304u32),
        (RequestType::DevInfoBootloaderCRC, 0x05060708),
        (RequestType::DevInfoVID, 1),
        (RequestType::DevInfoPID, 2),
        (RequestType::DevInfoPRD, 3),
        (RequestType::DevInfoUID, 4),
        (RequestType::FlashInfoStartAddr, 0x08000000),
        (RequestType::FlashInfoPageSize, 0x800),
        (RequestType::FlashInfoNumPages, 16),
        (RequestType::AppInfoPageIdx, 8),
    ];
    for (rt, word) in requests.iter() {
        com.add_response(Msg::new(*rt, ResultType::OkCode, 0, &MsgData::from_word(*word)));
    }
    device.read_const_data(&mut com).unwrap();
    assert!(device.flash_firmware_data(&mut com, &map).is_err());

    // A byte past the flash end is refused as well
    let mut past = FirmwareDataRaw::new();
    past.insert(0x08000000 + 16 * 0x800, 0xAA);
    assert!(device.flash_firmware_data(&mut com, &past).is_err());
}
