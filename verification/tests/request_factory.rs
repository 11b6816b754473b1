//! The requests for the well-known services.
use ads_client::proto::AddDeviceNotificationRequest;
use ads_client::proto::AdsState;
use ads_client::proto::AdsTransMode;
use ads_client::proto::DeleteDeviceNotificationRequest;
use ads_client::proto::ReadRequest;
use ads_client::proto::ReadWriteRequest;
use ads_client::proto::WriteControlRequest;
use ads_client::proto::WriteRequest;
use ads_client::request_factory::get_add_device_notification;
use ads_client::request_factory::get_delete_device_notification;
use ads_client::request_factory::get_read_request;
use ads_client::request_factory::get_read_write_request;
use ads_client::request_factory::get_release_handle_request;
use ads_client::request_factory::get_sumup_read_request;
use ads_client::request_factory::get_sumup_read_write_request;
use ads_client::request_factory::get_sumup_write_request;
use ads_client::request_factory::get_var_handle_request;
use ads_client::request_factory::get_write_control_request;
use ads_client::request_factory::get_write_request;

#[test]
fn var_handle_request_carries_the_name() {
    assert_eq!(
        get_var_handle_request("Main.counter"),
        ReadWriteRequest {
            index_group: 0xF003,
            index_offset: 0,
            read_length: 4,
            data: b"Main.counter".to_vec(),
        }
    );
    assert_eq!(get_var_handle_request("").data, Vec::<u8>::new());
    assert_eq!(get_var_handle_request("ä").data, vec![0xC3, 0xA4]);
}

#[test]
fn release_handle_request_carries_the_handle_little_endian() {
    assert_eq!(
        get_release_handle_request(0x11223344),
        WriteRequest { index_group: 0xF006, index_offset: 0, data: vec![0x44, 0x33, 0x22, 0x11] }
    );
}

#[test]
fn read_and_write_requests_address_by_handle() {
    assert_eq!(
        get_read_request(77, 2),
        ReadRequest { index_group: 0xF005, index_offset: 77, length: 2 }
    );
    assert_eq!(
        get_write_request(77, vec![0xFA, 0xFF]),
        WriteRequest { index_group: 0xF005, index_offset: 77, data: vec![0xFA, 0xFF] }
    );
}

#[test]
fn write_control_request_has_no_data() {
    assert_eq!(
        get_write_control_request(AdsState::AdsStateRun, 3),
        WriteControlRequest {
            ads_state: AdsState::AdsStateRun,
            device_state: 3,
            length: 0,
            data: Vec::new(),
        }
    );
}

#[test]
fn read_write_requests_differ_in_their_group() {
    assert_eq!(
        get_read_write_request(1, 2, vec![3]),
        ReadWriteRequest { index_group: 0xF003, index_offset: 1, read_length: 2, data: vec![3] }
    );
    assert_eq!(
        get_sumup_read_write_request(1, 2, vec![3]),
        ReadWriteRequest { index_group: 0xF083, index_offset: 1, read_length: 2, data: vec![3] }
    );
    assert_eq!(
        get_sumup_read_request(1, 2, vec![3]),
        ReadWriteRequest { index_group: 0xF083, index_offset: 1, read_length: 2, data: vec![3] }
    );
    assert_eq!(
        get_sumup_write_request(1, 2, vec![3]),
        ReadWriteRequest { index_group: 0xF081, index_offset: 1, read_length: 2, data: vec![3] }
    );
}

#[test]
fn notification_requests_address_by_handle() {
    assert_eq!(
        get_add_device_notification(5, 2, AdsTransMode::OnChange, 1, 1),
        AddDeviceNotificationRequest {
            index_group: 0xF005,
            index_offset: 5,
            length: 2,
            transmission_mode: AdsTransMode::OnChange,
            max_delay: 1,
            cycle_time: 1,
        }
    );
    assert_eq!(get_delete_device_notification(9), DeleteDeviceNotificationRequest { handle: 9 });
}
