//! Requests for the well-known ADS services: handles by name, values by
//! handle, bundled reads and writes, and notifications.
use crate::codec::release_symhandle_group;
use crate::codec::sumup_readex_group;
use crate::codec::sumup_write_group;
use crate::codec::symhandle_by_name_group;
use crate::codec::symval_by_handle_group;
pub use crate::codec::ADSIGRP_SUMUP_READEX;
pub use crate::codec::ADSIGRP_SUMUP_WRITE;
pub use crate::codec::GET_SYMHANDLE_BY_NAME;
pub use crate::codec::READ_WRITE_SYMVAL_BY_HANDLE;
pub use crate::codec::RELEASE_SYMHANDLE;
use crate::proto::AddDeviceNotificationRequest;
use crate::proto::AdsState;
use crate::proto::AdsTransMode;
use crate::proto::DeleteDeviceNotificationRequest;
use crate::proto::ReadRequest;
use crate::proto::ReadWriteRequest;
use crate::proto::WriteControlRequest;
use crate::proto::WriteRequest;
use vstd::bytes::spec_u32_to_le_bytes;
use vstd::bytes::u32_to_le_bytes;
use vstd::prelude::*;
use vstd::string::StringSliceAdditionalSpecFns;
use vstd::string::StrSliceExecFns;

verus! {

/// The request for the handle of the variable `var_name`: the name travels as
/// the data, and four bytes are asked back.
pub fn get_var_handle_request(var_name: &str) -> (request: ReadWriteRequest)
    ensures
        request.index_group == GET_SYMHANDLE_BY_NAME,
        request.index_offset == 0,
        request.read_length == 4,
        request.data@ == var_name.spec_bytes(),
{
    ReadWriteRequest {
        index_group: symhandle_by_name_group(),
        index_offset: 0,
        read_length: 4,
        data: var_name.as_bytes_vec(),
    }
}

/// The request that releases `handle`: the handle travels as the data, in
/// little-endian order.
pub fn get_release_handle_request(handle: u32) -> (request: WriteRequest)
    ensures
        request.index_group == RELEASE_SYMHANDLE,
        request.index_offset == 0,
        request.data@ == spec_u32_to_le_bytes(handle),
{
    WriteRequest { index_group: release_symhandle_group(), index_offset: 0, data: u32_to_le_bytes(handle) }
}

/// The request that reads `len` bytes of the variable behind `handle`.
pub fn get_read_request(handle: u32, len: u32) -> (request: ReadRequest)
    ensures
        request == (ReadRequest {
            index_group: READ_WRITE_SYMVAL_BY_HANDLE,
            index_offset: handle,
            length: len,
        }),
{
    ReadRequest { index_group: symval_by_handle_group(), index_offset: handle, length: len }
}

/// The request that writes `data` to the variable behind `handle`.
pub fn get_write_request(handle: u32, data: Vec<u8>) -> (request: WriteRequest)
    ensures
        request == (WriteRequest {
            index_group: READ_WRITE_SYMVAL_BY_HANDLE,
            index_offset: handle,
            data,
        }),
{
    WriteRequest { index_group: symval_by_handle_group(), index_offset: handle, data }
}

/// The request that sets the ADS state and the device state, without data.
pub fn get_write_control_request(ads_state: AdsState, device_state: u16) -> (request:
    WriteControlRequest)
    ensures
        request.ads_state == ads_state,
        request.device_state == device_state,
        request.length == 0,
        request.data@ == Seq::<u8>::empty(),
{
    WriteControlRequest { ads_state, device_state, length: 0, data: Vec::new() }
}

/// A read-write request in the index group of the handle service.
pub fn get_read_write_request(index_offset: u32, read_len: u32, write_data: Vec<u8>) -> (request:
    ReadWriteRequest)
    ensures
        request == (ReadWriteRequest {
            index_group: GET_SYMHANDLE_BY_NAME,
            index_offset,
            read_length: read_len,
            data: write_data,
        }),
{
    ReadWriteRequest {
        index_group: symhandle_by_name_group(),
        index_offset,
        read_length: read_len,
        data: write_data,
    }
}

/// A read-write request in the index group of the bundled reads.
pub fn get_sumup_read_write_request(index_offset: u32, read_len: u32, write_data: Vec<u8>) -> (request:
    ReadWriteRequest)
    ensures
        request == (ReadWriteRequest {
            index_group: ADSIGRP_SUMUP_READEX,
            index_offset,
            read_length: read_len,
            data: write_data,
        }),
{
    ReadWriteRequest {
        index_group: sumup_readex_group(),
        index_offset,
        read_length: read_len,
        data: write_data,
    }
}

/// The request that carries `request_count` bundled reads in `write_data` and
/// asks `read_len` bytes back.
pub fn get_sumup_read_request(request_count: u32, read_len: u32, write_data: Vec<u8>) -> (request:
    ReadWriteRequest)
    ensures
        request == (ReadWriteRequest {
            index_group: ADSIGRP_SUMUP_READEX,
            index_offset: request_count,
            read_length: read_len,
            data: write_data,
        }),
{
    get_sumup_read_write_request(request_count, read_len, write_data)
}

/// The request that carries `request_count` bundled writes in `write_data`
/// and asks `read_len` bytes back.
pub fn get_sumup_write_request(request_count: u32, read_len: u32, write_data: Vec<u8>) -> (request:
    ReadWriteRequest)
    ensures
        request == (ReadWriteRequest {
            index_group: ADSIGRP_SUMUP_WRITE,
            index_offset: request_count,
            read_length: read_len,
            data: write_data,
        }),
{
    ReadWriteRequest {
        index_group: sumup_write_group(),
        index_offset: request_count,
        read_length: read_len,
        data: write_data,
    }
}

/// The request that subscribes to `length` bytes of the variable behind
/// `handle`.
pub fn get_add_device_notification(
    handle: u32,
    length: u32,
    transmission_mode: AdsTransMode,
    max_delay: u32,
    cycle_time: u32,
) -> (request: AddDeviceNotificationRequest)
    ensures
        request == (AddDeviceNotificationRequest {
            index_group: READ_WRITE_SYMVAL_BY_HANDLE,
            index_offset: handle,
            length,
            transmission_mode,
            max_delay,
            cycle_time,
        }),
{
    AddDeviceNotificationRequest {
        index_group: symval_by_handle_group(),
        index_offset: handle,
        length,
        transmission_mode,
        max_delay,
        cycle_time,
    }
}

/// The request that ends the subscription with notification handle `handle`.
pub fn get_delete_device_notification(handle: u32) -> (request: DeleteDeviceNotificationRequest)
    ensures
        request == (DeleteDeviceNotificationRequest { handle }),
{
    DeleteDeviceNotificationRequest { handle }
}

} // verus!
