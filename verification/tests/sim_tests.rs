//! Tests of the simulated network and the CAN binding logic.

use frankly_fw_update::com::can::{
    CAN_BROADCAST_ID, can_node_of_id, can_response_id, can_scan_collect,
};
use frankly_fw_update::com::msg::{Msg, MsgData, RequestType, ResultType};
use frankly_fw_update::Error;
use frankly_fw_update::com::sim::SIMInterface;
use frankly_fw_update::com::{ComConnParams, ComInterface, ComMode, ComSimulator};

fn check_ping_network() {
    let node_lst = vec![1, 20, 3, 52];

    let mut interface = SIMInterface::create().unwrap();
    interface.config_nodes(node_lst.clone()).unwrap();
    interface.open(&ComConnParams::for_sim_device()).unwrap();
    let node_lst_found = interface.scan_network().unwrap();

    assert_eq!(node_lst, node_lst_found);
}

#[test]
fn test_sim_net_ping() {
    let node_lst = vec![1, 3, 31, 8];
    let mut interface = SIMInterface::create().unwrap();
    interface.config_nodes(node_lst).unwrap();
}

#[test]
fn sim_config_rejects_duplicates() {
    let mut interface = SIMInterface::create().unwrap();
    assert!(interface.config_nodes(vec![1, 2, 1]).is_err());
    // The network stays empty, so a scan finds nothing
    assert_eq!(interface.scan_network().unwrap(), Vec::<u8>::new());
}

#[test]
fn sim_specific_node_answers_ping() {
    let mut interface = SIMInterface::create().unwrap();
    interface.config_nodes(vec![5]).unwrap();
    interface.open(&ComConnParams::for_sim_device()).unwrap();
    interface.set_mode(ComMode::Specific(5)).unwrap();

    let ping = Msg::new_std_request(RequestType::Ping);
    interface.send(&ping).unwrap();
    let response = interface.recv().unwrap();
    assert!(ping.is_response_ok(&response).is_ok());

    // A node that is not on the network stays silent
    interface.set_mode(ComMode::Specific(9)).unwrap();
    interface.send(&ping).unwrap();
    assert!(interface.recv().is_err());
}

#[test]
fn can_identifier_arithmetic() {
    // Requests are broadcast on 0x780; node N answers on 0x781 + 2 N
    assert_eq!(CAN_BROADCAST_ID, 0x780);
    assert_eq!(can_response_id(0), 0x781);
    assert_eq!(can_response_id(1), 0x783);
    assert_eq!(can_response_id(3), 0x787);
    assert_eq!(can_node_of_id(0x783), 1);
    assert_eq!(can_node_of_id(0x787), 3);
}

#[test]
fn can_scan_collects_nodes_in_arrival_order() {
    // A broadcast ping answered by nodes 1 and 3 on 0x783 and 0x787
    let ping = Msg::new_std_request(RequestType::Ping);
    let response = Msg::new(
        RequestType::Ping,
        ResultType::OkCode,
        0,
        &MsgData::from_word(0x00030201),
    );
    let frames = vec![(0x783u32, response.to_raw_data_array()), (0x787u32, response.to_raw_data_array())];
    assert_eq!(can_scan_collect(&ping, &frames), vec![1, 3]);
}

#[test]
fn can_scan_ignores_foreign_traffic() {
    let ping = Msg::new_std_request(RequestType::Ping);
    let good = Msg::new(RequestType::Ping, ResultType::OkCode, 0, &MsgData::new());
    let wrong_request = Msg::new(RequestType::DevInfoVID, ResultType::OkCode, 0, &MsgData::new());
    let error_result = Msg::new(RequestType::Ping, ResultType::Error, 0, &MsgData::new());

    let frames = vec![
        (0x123u32, good.to_raw_data_array()),             // identifier of no node
        (0x784u32, good.to_raw_data_array()),             // odd identifier, no node
        (0x783u32, wrong_request.to_raw_data_array()),    // wrong request code
        (0x785u32, error_result.to_raw_data_array()),     // failure result
        (0x787u32, [0xFF, 0xFF, 0, 0, 0, 0, 0, 0]),       // undecodable frame
        (0x789u32, good.to_raw_data_array()),             // node 4 answers properly
    ];
    assert_eq!(can_scan_collect(&ping, &frames), vec![4]);
}

#[test]
fn test_ping_network() {
    check_ping_network();
}

#[test]
fn sim_test_ping_network() {
    check_ping_network();
}

#[test]
fn com_conn_params_fields() {
    let p = ComConnParams::for_serial_conn("ttyACM0", 115200);
    assert_eq!(p.name.as_deref(), Some("ttyACM0"));
    assert_eq!(p.baud_rate, Some(115200));

    let p = ComConnParams::for_can_conn("can0");
    assert_eq!(p.name.as_deref(), Some("can0"));
    assert_eq!(p.baud_rate, None);

    let p = ComConnParams::for_sim_device();
    assert!(p.name.is_none() && p.baud_rate.is_none());
}

#[test]
fn com_simulator_queue_and_errors() {
    // The simulator is constructed directly, never through create
    assert!(matches!(ComSimulator::create(), Err(Error::NotSupported)));
    assert!(!ComSimulator::is_network());

    let mut com = ComSimulator::new();
    let msg = Msg::new_std_request(RequestType::Ping);
    com.add_response(msg);
    assert!(com.get_result().is_some());
    assert!(com.get_result().is_none());

    // An empty queue times out
    assert!(matches!(com.recv(), Err(Error::ComNoResponse)));
}

#[test]
fn device_scan_delegates_to_transport() {
    let mut interface = SIMInterface::create().unwrap();
    interface.config_nodes(vec![2, 7]).unwrap();
    let mut device = frankly_fw_update::device::device::Device::new(interface);
    assert_eq!(device.scan().unwrap(), vec![2, 7]);
}
