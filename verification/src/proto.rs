//! Plain data of the ADS/AMS protocol: addresses, requests and responses.
//!
//! The values hold exactly what travels on the wire; the byte layout itself is
//! the business of the codec.
use vstd::prelude::*;

verus! {

/// An ADS endpoint: a six byte net id and a port.
#[derive(Debug, Clone, Copy, PartialEq, Eq)]
pub struct AmsAddress {
    pub net_id: [u8; 6],
    pub port: u16,
}

impl AmsAddress {
    pub fn new(net_id: [u8; 6], port: u16) -> (address: AmsAddress)
        ensures
            address.net_id == net_id,
            address.port == port,
    {
        AmsAddress { net_id, port }
    }

    /// The address that stands for "not yet known": net id 0.0.0.0.0.0, port 0.
    pub open spec fn spec_unset() -> AmsAddress {
        AmsAddress { net_id: [0u8, 0u8, 0u8, 0u8, 0u8, 0u8], port: 0 }
    }

    #[verifier::when_used_as_spec(spec_unset)]
    pub fn unset() -> (address: AmsAddress)
        ensures
            address == Self::spec_unset(),
    {
        AmsAddress { net_id: [0u8, 0u8, 0u8, 0u8, 0u8, 0u8], port: 0 }
    }

    /// The address of the client behind the IPv4 socket `ip:port`: the four
    /// octets followed by `.1.1`, and the socket's port.
    pub open spec fn spec_from_socket(ip: [u8; 4], port: u16) -> AmsAddress {
        AmsAddress { net_id: [ip[0], ip[1], ip[2], ip[3], 1u8, 1u8], port }
    }

    #[verifier::when_used_as_spec(spec_from_socket)]
    pub fn from_socket(ip: [u8; 4], port: u16) -> (address: AmsAddress)
        ensures
            address == Self::spec_from_socket(ip, port),
    {
        AmsAddress { net_id: [ip[0], ip[1], ip[2], ip[3], 1u8, 1u8], port }
    }
}

/// The command of an AMS frame.
#[derive(Debug, Clone, Copy, PartialEq, Eq, Structural)]
pub enum CommandID {
    Invalid,
    ReadDeviceInfo,
    Read,
    Write,
    ReadState,
    WriteControl,
    AddDeviceNotification,
    DeleteDeviceNotification,
    DeviceNotification,
    ReadWrite,
}

impl CommandID {
    pub open spec fn spec_as_u16(&self) -> u16 {
        match *self {
            CommandID::Invalid => 0,
            CommandID::ReadDeviceInfo => 1,
            CommandID::Read => 2,
            CommandID::Write => 3,
            CommandID::ReadState => 4,
            CommandID::WriteControl => 5,
            CommandID::AddDeviceNotification => 6,
            CommandID::DeleteDeviceNotification => 7,
            CommandID::DeviceNotification => 8,
            CommandID::ReadWrite => 9,
        }
    }

    #[verifier::when_used_as_spec(spec_as_u16)]
    pub fn as_u16(&self) -> (value: u16)
        ensures
            value == self.spec_as_u16(),
    {
        match self {
            CommandID::Invalid => 0,
            CommandID::ReadDeviceInfo => 1,
            CommandID::Read => 2,
            CommandID::Write => 3,
            CommandID::ReadState => 4,
            CommandID::WriteControl => 5,
            CommandID::AddDeviceNotification => 6,
            CommandID::DeleteDeviceNotification => 7,
            CommandID::DeviceNotification => 8,
            CommandID::ReadWrite => 9,
        }
    }

    /// The command with the given number; every number above 9 is `Invalid`.
    pub open spec fn spec_from_u16(value: u16) -> CommandID {
        if value == 1 {
            CommandID::ReadDeviceInfo
        } else if value == 2 {
            CommandID::Read
        } else if value == 3 {
            CommandID::Write
        } else if value == 4 {
            CommandID::ReadState
        } else if value == 5 {
            CommandID::WriteControl
        } else if value == 6 {
            CommandID::AddDeviceNotification
        } else if value == 7 {
            CommandID::DeleteDeviceNotification
        } else if value == 8 {
            CommandID::DeviceNotification
        } else if value == 9 {
            CommandID::ReadWrite
        } else {
            CommandID::Invalid
        }
    }

    #[verifier::when_used_as_spec(spec_from_u16)]
    pub fn from_u16(value: u16) -> (command: CommandID)
        ensures
            command == Self::spec_from_u16(value),
    {
        match value {
            1 => CommandID::ReadDeviceInfo,
            2 => CommandID::Read,
            3 => CommandID::Write,
            4 => CommandID::ReadState,
            5 => CommandID::WriteControl,
            6 => CommandID::AddDeviceNotification,
            7 => CommandID::DeleteDeviceNotification,
            8 => CommandID::DeviceNotification,
            9 => CommandID::ReadWrite,
            _ => CommandID::Invalid,
        }
    }
}

/// The state of an ADS device.
#[derive(Debug, Clone, Copy, PartialEq, Eq, Structural)]
pub enum AdsState {
    AdsStateInvalid,
    AdsStateIdle,
    AdsStateReset,
    AdsStateInit,
    AdsStateStart,
    AdsStateRun,
    AdsStateStop,
    AdsStateSaveCFG,
    AdsStateLoadCFG,
    AdsStatePowerFailure,
    AdsStatePowerGood,
    AdsStateError,
    AdsStateShutDown,
    AdsStateSuspend,
    AdsStateResume,
    AdsStateConfig,
    AdsStateReconfig,
}

impl AdsState {
    pub open spec fn spec_as_u16(&self) -> u16 {
        match *self {
            AdsState::AdsStateInvalid => 0,
            AdsState::AdsStateIdle => 1,
            AdsState::AdsStateReset => 2,
            AdsState::AdsStateInit => 3,
            AdsState::AdsStateStart => 4,
            AdsState::AdsStateRun => 5,
            AdsState::AdsStateStop => 6,
            AdsState::AdsStateSaveCFG => 7,
            AdsState::AdsStateLoadCFG => 8,
            AdsState::AdsStatePowerFailure => 9,
            AdsState::AdsStatePowerGood => 10,
            AdsState::AdsStateError => 11,
            AdsState::AdsStateShutDown => 12,
            AdsState::AdsStateSuspend => 13,
            AdsState::AdsStateResume => 14,
            AdsState::AdsStateConfig => 15,
            AdsState::AdsStateReconfig => 16,
        }
    }

    #[verifier::when_used_as_spec(spec_as_u16)]
    pub fn as_u16(&self) -> (value: u16)
        ensures
            value == self.spec_as_u16(),
    {
        match self {
            AdsState::AdsStateInvalid => 0,
            AdsState::AdsStateIdle => 1,
            AdsState::AdsStateReset => 2,
            AdsState::AdsStateInit => 3,
            AdsState::AdsStateStart => 4,
            AdsState::AdsStateRun => 5,
            AdsState::AdsStateStop => 6,
            AdsState::AdsStateSaveCFG => 7,
            AdsState::AdsStateLoadCFG => 8,
            AdsState::AdsStatePowerFailure => 9,
            AdsState::AdsStatePowerGood => 10,
            AdsState::AdsStateError => 11,
            AdsState::AdsStateShutDown => 12,
            AdsState::AdsStateSuspend => 13,
            AdsState::AdsStateResume => 14,
            AdsState::AdsStateConfig => 15,
            AdsState::AdsStateReconfig => 16,
        }
    }

    /// The state with the given number; every number above 16 is `AdsStateInvalid`.
    pub open spec fn spec_from_u16(value: u16) -> AdsState {
        if value == 1 {
            AdsState::AdsStateIdle
        } else if value == 2 {
            AdsState::AdsStateReset
        } else if value == 3 {
            AdsState::AdsStateInit
        } else if value == 4 {
            AdsState::AdsStateStart
        } else if value == 5 {
            AdsState::AdsStateRun
        } else if value == 6 {
            AdsState::AdsStateStop
        } else if value == 7 {
            AdsState::AdsStateSaveCFG
        } else if value == 8 {
            AdsState::AdsStateLoadCFG
        } else if value == 9 {
            AdsState::AdsStatePowerFailure
        } else if value == 10 {
            AdsState::AdsStatePowerGood
        } else if value == 11 {
            AdsState::AdsStateError
        } else if value == 12 {
            AdsState::AdsStateShutDown
        } else if value == 13 {
            AdsState::AdsStateSuspend
        } else if value == 14 {
            AdsState::AdsStateResume
        } else if value == 15 {
            AdsState::AdsStateConfig
        } else if value == 16 {
            AdsState::AdsStateReconfig
        } else {
            AdsState::AdsStateInvalid
        }
    }

    #[verifier::when_used_as_spec(spec_from_u16)]
    pub fn from_u16(value: u16) -> (state: AdsState)
        ensures
            state == Self::spec_from_u16(value),
    {
        match value {
            1 => AdsState::AdsStateIdle,
            2 => AdsState::AdsStateReset,
            3 => AdsState::AdsStateInit,
            4 => AdsState::AdsStateStart,
            5 => AdsState::AdsStateRun,
            6 => AdsState::AdsStateStop,
            7 => AdsState::AdsStateSaveCFG,
            8 => AdsState::AdsStateLoadCFG,
            9 => AdsState::AdsStatePowerFailure,
            10 => AdsState::AdsStatePowerGood,
            11 => AdsState::AdsStateError,
            12 => AdsState::AdsStateShutDown,
            13 => AdsState::AdsStateSuspend,
            14 => AdsState::AdsStateResume,
            15 => AdsState::AdsStateConfig,
            16 => AdsState::AdsStateReconfig,
            _ => AdsState::AdsStateInvalid,
        }
    }
}

/// When the controller sends the notifications of a subscription.
#[derive(Debug, Clone, Copy, PartialEq, Eq, Structural)]
pub enum AdsTransMode {
    NoTransmission,
    ClientCylcle,
    ClientOnChange,
    Cyclic,
    OnChange,
    CyclicInContext,
    OnChangeInContext,
}

impl AdsTransMode {
    pub open spec fn spec_as_u32(&self) -> u32 {
        match *self {
            AdsTransMode::NoTransmission => 0,
            AdsTransMode::ClientCylcle => 1,
            AdsTransMode::ClientOnChange => 2,
            AdsTransMode::Cyclic => 3,
            AdsTransMode::OnChange => 4,
            AdsTransMode::CyclicInContext => 5,
            AdsTransMode::OnChangeInContext => 6,
        }
    }

    #[verifier::when_used_as_spec(spec_as_u32)]
    pub fn as_u32(&self) -> (value: u32)
        ensures
            value == self.spec_as_u32(),
    {
        match self {
            AdsTransMode::NoTransmission => 0,
            AdsTransMode::ClientCylcle => 1,
            AdsTransMode::ClientOnChange => 2,
            AdsTransMode::Cyclic => 3,
            AdsTransMode::OnChange => 4,
            AdsTransMode::CyclicInContext => 5,
            AdsTransMode::OnChangeInContext => 6,
        }
    }
}

/// Read `length` bytes at (`index_group`, `index_offset`).
#[derive(Debug, Clone, Copy, PartialEq, Eq, Structural)]
pub struct ReadRequest {
    pub index_group: u32,
    pub index_offset: u32,
    pub length: u32,
}

/// Write `data` at (`index_group`, `index_offset`).
#[derive(Debug, Clone, PartialEq, Eq)]
pub struct WriteRequest {
    pub index_group: u32,
    pub index_offset: u32,
    pub data: Vec<u8>,
}

/// Write `data` at (`index_group`, `index_offset`) and read `read_length` bytes back.
#[derive(Debug, Clone, PartialEq, Eq)]
pub struct ReadWriteRequest {
    pub index_group: u32,
    pub index_offset: u32,
    pub read_length: u32,
    pub data: Vec<u8>,
}

/// Change the ADS state and the device state of the controller.
#[derive(Debug, Clone, PartialEq, Eq)]
pub struct WriteControlRequest {
    pub ads_state: AdsState,
    pub device_state: u16,
    pub length: u32,
    pub data: Vec<u8>,
}

/// Subscribe to `length` bytes at (`index_group`, `index_offset`).
#[derive(Debug, Clone, Copy, PartialEq, Eq, Structural)]
pub struct AddDeviceNotificationRequest {
    pub index_group: u32,
    pub index_offset: u32,
    pub length: u32,
    pub transmission_mode: AdsTransMode,
    pub max_delay: u32,
    pub cycle_time: u32,
}

/// End the subscription with the given notification handle.
#[derive(Debug, Clone, Copy, PartialEq, Eq, Structural)]
pub struct DeleteDeviceNotificationRequest {
    pub handle: u32,
}

/// A request of the client to the controller.
#[derive(Debug, Clone, PartialEq, Eq)]
pub enum Request {
    ReadDeviceInfo,
    ReadState,
    Read(ReadRequest),
    Write(WriteRequest),
    WriteControl(WriteControlRequest),
    AddDeviceNotification(AddDeviceNotificationRequest),
    DeleteDeviceNotification(DeleteDeviceNotificationRequest),
    ReadWrite(ReadWriteRequest),
}

impl Request {
    /// The command that the request travels under.
    pub open spec fn spec_command_id(&self) -> CommandID {
        match *self {
            Request::ReadDeviceInfo => CommandID::ReadDeviceInfo,
            Request::ReadState => CommandID::ReadState,
            Request::Read(_) => CommandID::Read,
            Request::Write(_) => CommandID::Write,
            Request::WriteControl(_) => CommandID::WriteControl,
            Request::AddDeviceNotification(_) => CommandID::AddDeviceNotification,
            Request::DeleteDeviceNotification(_) => CommandID::DeleteDeviceNotification,
            Request::ReadWrite(_) => CommandID::ReadWrite,
        }
    }

    #[verifier::when_used_as_spec(spec_command_id)]
    pub fn command_id(&self) -> (command: CommandID)
        ensures
            command == self.spec_command_id(),
    {
        match self {
            Request::ReadDeviceInfo => CommandID::ReadDeviceInfo,
            Request::ReadState => CommandID::ReadState,
            Request::Read(_) => CommandID::Read,
            Request::Write(_) => CommandID::Write,
            Request::WriteControl(_) => CommandID::WriteControl,
            Request::AddDeviceNotification(_) => CommandID::AddDeviceNotification,
            Request::DeleteDeviceNotification(_) => CommandID::DeleteDeviceNotification,
            Request::ReadWrite(_) => CommandID::ReadWrite,
        }
    }
}

#[derive(Debug, Clone, Copy, PartialEq, Eq)]
pub struct ReadDeviceInfoResponse {
    pub result: u32,
    pub major_version: u8,
    pub minor_version: u8,
    pub version_build: u16,
    pub device_name: [u8; 16],
}

#[derive(Debug, Clone, PartialEq, Eq)]
pub struct ReadResponse {
    pub result: u32,
    pub length: u32,
    pub data: Vec<u8>,
}

#[derive(Debug, Clone, Copy, PartialEq, Eq, Structural)]
pub struct WriteResponse {
    pub result: u32,
}

#[derive(Debug, Clone, Copy, PartialEq, Eq, Structural)]
pub struct ReadStateResponse {
    pub result: u32,
    pub ads_state: AdsState,
    pub device_state: u16,
}

#[derive(Debug, Clone, Copy, PartialEq, Eq, Structural)]
pub struct WriteControlResponse {
    pub result: u32,
}

#[derive(Debug, Clone, Copy, PartialEq, Eq, Structural)]
pub struct AddDeviceNotificationResponse {
    pub result: u32,
    pub notification_handle: u32,
}

#[derive(Debug, Clone, Copy, PartialEq, Eq, Structural)]
pub struct DeleteDeviceNotificationResponse {
    pub result: u32,
}

#[derive(Debug, Clone, PartialEq, Eq)]
pub struct ReadWriteResponse {
    pub result: u32,
    pub length: u32,
    pub data: Vec<u8>,
}

/// One value of one subscription inside a notification frame.
#[derive(Debug, Clone, PartialEq, Eq)]
pub struct AdsNotificationSample {
    pub notification_handle: u32,
    pub sample_size: u32,
    pub data: Vec<u8>,
}

/// The samples that share one time stamp.
#[derive(Debug, Clone, PartialEq, Eq)]
pub struct AdsStampHeader {
    pub time_stamp: u64,
    pub samples: u32,
    pub notification_samples: Vec<AdsNotificationSample>,
}

/// The body of a device notification frame.
#[derive(Debug, Clone, PartialEq, Eq)]
pub struct AdsNotificationStream {
    pub length: u32,
    pub stamps: u32,
    pub ads_stamp_headers: Vec<AdsStampHeader>,
}

/// A notification stream as a mathematical value: for each stamp header its
/// time stamp, its announced number of samples and its samples, each sample as
/// handle, announced size and data.
pub type StreamView = (u32, u32, Seq<(u64, u32, Seq<(u32, u32, Seq<u8>)>)>);

impl AdsNotificationSample {
    pub open spec fn view(&self) -> (u32, u32, Seq<u8>) {
        (self.notification_handle, self.sample_size, self.data@)
    }
}

impl AdsStampHeader {
    pub open spec fn view(&self) -> (u64, u32, Seq<(u32, u32, Seq<u8>)>) {
        (
            self.time_stamp,
            self.samples,
            Seq::new(self.notification_samples@.len(), |i: int| self.notification_samples@[i]@),
        )
    }
}

impl AdsNotificationStream {
    pub open spec fn view(&self) -> StreamView {
        (
            self.length,
            self.stamps,
            Seq::new(self.ads_stamp_headers@.len(), |i: int| self.ads_stamp_headers@[i]@),
        )
    }
}

/// What the controller sends: the answer to a request, or a notification.
#[derive(Debug, Clone, PartialEq, Eq)]
pub enum Response {
    ReadDeviceInfo(ReadDeviceInfoResponse),
    Read(ReadResponse),
    Write(WriteResponse),
    ReadState(ReadStateResponse),
    WriteControl(WriteControlResponse),
    AddDeviceNotification(AddDeviceNotificationResponse),
    DeleteDeviceNotification(DeleteDeviceNotificationResponse),
    DeviceNotification(AdsNotificationStream),
    ReadWrite(ReadWriteResponse),
}

/// A received AMS header, as far as the client reads it: command, state flags,
/// error code, invoke id and the data section.
#[derive(Debug, Clone, PartialEq, Eq)]
pub struct AmsHeader {
    pub command_id: CommandID,
    pub state_flags: u16,
    pub ads_error: u32,
    pub invoke_id: u32,
    pub data: Vec<u8>,
}

} // verus!
