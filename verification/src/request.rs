//! What the search asks the system for, and what the system answers.

use vstd::prelude::*;

use crate::device::StorageDeviceNumber;
use crate::text;

verus! {

/// The firmware tables that may hold the runtime parameter of Ventoy.
#[derive(Clone, Copy, Debug, PartialEq, Eq, Structural)]
pub enum TableName {
    /// The table of Ventoy itself.
    Vtoy,
    /// The boot table of iSCSI.
    Ibft,
}

/// The signature of the provider of the ACPI tables: `ACPI`, low byte first.
pub const ACPI_PROVIDER: u32 = 0x4950_4341;

/// The signature of the table of Ventoy: `VTOY`, low byte first.
pub const VTOY_SIGNATURE: u32 = 0x594F_5456;

/// The signature of the boot table of iSCSI: `iBFT`, low byte first.
pub const IBFT_SIGNATURE: u32 = 0x5446_4269;

impl TableName {
    /// The number by which the firmware knows the table.
    pub open spec fn id(self) -> u32 {
        match self {
            TableName::Vtoy => VTOY_SIGNATURE,
            TableName::Ibft => IBFT_SIGNATURE,
        }
    }

    /// The name of the table.
    pub open spec fn label(self) -> Seq<char> {
        match self {
            TableName::Vtoy => "VTOY"@,
            TableName::Ibft => "iBFT"@,
        }
    }

    /// The number by which the firmware knows the table.
    pub fn signature(&self) -> (r: u32)
        ensures
            r == self.id(),
    {
        match self {
            TableName::Vtoy => VTOY_SIGNATURE,
            TableName::Ibft => IBFT_SIGNATURE,
        }
    }

    /// The name of the table.
    pub fn name(&self) -> (r: &'static str)
        ensures
            r@ == self.label(),
    {
        match self {
            TableName::Vtoy => "VTOY",
            TableName::Ibft => "iBFT",
        }
    }
}

/// Something that only the system can tell.
#[derive(Debug)]
pub enum Request {
    /// The name of the device that the firmware booted from.
    FirmwareBootDevice,
    /// The target of the link with this object name.
    ArcLink(String),
    /// The drive letters in use, one bit each.
    LogicalDrives,
    /// The drive type of this root.
    DriveType(String),
    /// The NT name of this drive.
    DosDevice(String),
    /// The partition behind this device path.
    DeviceNumber(String),
    /// The bus type of this disk.
    BusType(u32),
    /// The privilege to read firmware variables.
    SystemEnvironmentPrivilege,
    /// The firmware variable that holds the runtime parameter of Ventoy.
    VentoyVariable,
    /// The size of this firmware table.
    TableSize(TableName),
    /// The contents of this firmware table, in a buffer of this size.
    Table(TableName, u32),
    /// The identifier that Ventoy gave this disk.
    DiskGuid(u32),
    /// Whether there is a file or a directory at this path.
    PathExists(String),
}

/// What the system tells.
#[derive(Debug)]
pub enum Reply {
    /// The boot device, or why it is not known.
    FirmwareBootDevice(Result<String, String>),
    /// The target of the link, or the status that refused it.
    ArcLink(Result<String, i32>),
    /// The drive letters in use.
    LogicalDrives(u32),
    /// The drive type.
    DriveType(u32),
    /// The NT name, where it is known.
    DosDevice(Option<String>),
    /// The partition, where it is known.
    DeviceNumber(Option<StorageDeviceNumber>),
    /// The bus type, where it is known.
    BusType(Option<i32>),
    /// Whether the privilege is held, or why not.
    SystemEnvironmentPrivilege(Result<(), String>),
    /// The number of bytes that the variable has, and the buffer they were read to.
    VentoyVariable(u32, Vec<u8>),
    /// The size of the table.
    TableSize(u32),
    /// The number of bytes that the table has, and the buffer they were read to.
    Table(u32, Vec<u8>),
    /// The identifier, where it is known.
    DiskGuid(Option<[u8; 16]>),
    /// Whether there is something at the path.
    PathExists(bool),
}

/// What a request asks for.
pub enum Question {
    FirmwareBootDevice,
    ArcLink(Seq<char>),
    LogicalDrives,
    DriveType(Seq<char>),
    DosDevice(Seq<char>),
    DeviceNumber(Seq<char>),
    BusType(u32),
    SystemEnvironmentPrivilege,
    VentoyVariable,
    TableSize(TableName),
    Table(TableName, u32),
    DiskGuid(u32),
    PathExists(Seq<char>),
}

/// What a reply tells.
pub enum Answer {
    FirmwareBootDevice(Result<Seq<char>, Seq<char>>),
    ArcLink(Result<Seq<char>, i32>),
    LogicalDrives(u32),
    DriveType(u32),
    DosDevice(Option<Seq<char>>),
    DeviceNumber(Option<StorageDeviceNumber>),
    BusType(Option<i32>),
    SystemEnvironmentPrivilege(Result<(), Seq<char>>),
    VentoyVariable(u32, Seq<u8>),
    TableSize(u32),
    Table(u32, Seq<u8>),
    DiskGuid(Option<Seq<u8>>),
    PathExists(bool),
}

impl View for Request {
    type V = Question;

    open spec fn view(&self) -> Question {
        match *self {
            Request::FirmwareBootDevice => Question::FirmwareBootDevice,
            Request::ArcLink(name) => Question::ArcLink(name@),
            Request::LogicalDrives => Question::LogicalDrives,
            Request::DriveType(root) => Question::DriveType(root@),
            Request::DosDevice(drive) => Question::DosDevice(drive@),
            Request::DeviceNumber(path) => Question::DeviceNumber(path@),
            Request::BusType(disk) => Question::BusType(disk),
            Request::SystemEnvironmentPrivilege => Question::SystemEnvironmentPrivilege,
            Request::VentoyVariable => Question::VentoyVariable,
            Request::TableSize(table) => Question::TableSize(table),
            Request::Table(table, size) => Question::Table(table, size),
            Request::DiskGuid(disk) => Question::DiskGuid(disk),
            Request::PathExists(path) => Question::PathExists(path@),
        }
    }
}

impl View for Reply {
    type V = Answer;

    open spec fn view(&self) -> Answer {
        match *self {
            Reply::FirmwareBootDevice(device) => Answer::FirmwareBootDevice(
                match device {
                    Ok(device) => Ok(device@),
                    Err(error) => Err(error@),
                },
            ),
            Reply::ArcLink(target) => Answer::ArcLink(
                match target {
                    Ok(target) => Ok(target@),
                    Err(status) => Err(status),
                },
            ),
            Reply::LogicalDrives(mask) => Answer::LogicalDrives(mask),
            Reply::DriveType(drive_type) => Answer::DriveType(drive_type),
            Reply::DosDevice(name) => Answer::DosDevice(text::optional(name)),
            Reply::DeviceNumber(number) => Answer::DeviceNumber(number),
            Reply::BusType(bus_type) => Answer::BusType(bus_type),
            Reply::SystemEnvironmentPrivilege(held) => Answer::SystemEnvironmentPrivilege(
                match held {
                    Ok(()) => Ok(()),
                    Err(error) => Err(error@),
                },
            ),
            Reply::VentoyVariable(size, buffer) => Answer::VentoyVariable(size, buffer@),
            Reply::TableSize(size) => Answer::TableSize(size),
            Reply::Table(bytes_read, table) => Answer::Table(bytes_read, table@),
            Reply::DiskGuid(guid) => Answer::DiskGuid(
                match guid {
                    Some(guid) => Some(guid@),
                    None => None,
                },
            ),
            Reply::PathExists(exists) => Answer::PathExists(exists),
        }
    }
}

/// A computer, as far as the search can ask about it: what it answers to each
/// request.
pub struct Computer {
    pub firmware_boot_device: Result<Seq<char>, Seq<char>>,
    pub arc_link: spec_fn(Seq<char>) -> Result<Seq<char>, i32>,
    pub logical_drives: u32,
    pub drive_type: spec_fn(Seq<char>) -> u32,
    pub dos_device: spec_fn(Seq<char>) -> Option<Seq<char>>,
    pub device_number: spec_fn(Seq<char>) -> Option<StorageDeviceNumber>,
    pub bus_type: spec_fn(u32) -> Option<i32>,
    pub privilege: Result<(), Seq<char>>,
    pub ventoy_variable: (u32, Seq<u8>),
    pub table_size: spec_fn(TableName) -> u32,
    pub table: spec_fn(TableName, u32) -> (u32, Seq<u8>),
    pub disk_guid: spec_fn(u32) -> Option<Seq<u8>>,
    pub path_exists: spec_fn(Seq<char>) -> bool,
}

impl Computer {
    /// What the computer answers to a question.
    pub open spec fn answer(self, question: Question) -> Answer {
        match question {
            Question::FirmwareBootDevice => Answer::FirmwareBootDevice(self.firmware_boot_device),
            Question::ArcLink(name) => Answer::ArcLink((self.arc_link)(name)),
            Question::LogicalDrives => Answer::LogicalDrives(self.logical_drives),
            Question::DriveType(root) => Answer::DriveType((self.drive_type)(root)),
            Question::DosDevice(drive) => Answer::DosDevice((self.dos_device)(drive)),
            Question::DeviceNumber(path) => Answer::DeviceNumber((self.device_number)(path)),
            Question::BusType(disk) => Answer::BusType((self.bus_type)(disk)),
            Question::SystemEnvironmentPrivilege => Answer::SystemEnvironmentPrivilege(
                self.privilege,
            ),
            Question::VentoyVariable => Answer::VentoyVariable(
                self.ventoy_variable.0,
                self.ventoy_variable.1,
            ),
            Question::TableSize(table) => Answer::TableSize((self.table_size)(table)),
            Question::Table(table, size) => {
                let read = (self.table)(table, size);
                Answer::Table(read.0, read.1)
            },
            Question::DiskGuid(disk) => Answer::DiskGuid((self.disk_guid)(disk)),
            Question::PathExists(path) => Answer::PathExists((self.path_exists)(path)),
        }
    }
}

/// What a request asks for is what it holds.
pub proof fn requests_ask_for_what_they_hold(text: String, disk: u32, table: TableName, size: u32)
    ensures
        Request::FirmwareBootDevice@ == Question::FirmwareBootDevice,
        Request::ArcLink(text)@ == Question::ArcLink(text@),
        Request::LogicalDrives@ == Question::LogicalDrives,
        Request::DriveType(text)@ == Question::DriveType(text@),
        Request::DosDevice(text)@ == Question::DosDevice(text@),
        Request::DeviceNumber(text)@ == Question::DeviceNumber(text@),
        Request::BusType(disk)@ == Question::BusType(disk),
        Request::SystemEnvironmentPrivilege@ == Question::SystemEnvironmentPrivilege,
        Request::VentoyVariable@ == Question::VentoyVariable,
        Request::TableSize(table)@ == Question::TableSize(table),
        Request::Table(table, size)@ == Question::Table(table, size),
        Request::DiskGuid(disk)@ == Question::DiskGuid(disk),
        Request::PathExists(text)@ == Question::PathExists(text@),
{
}

/// What a reply tells is what it holds.
pub proof fn replies_tell_what_they_hold(
    text: String,
    status: i32,
    number: u32,
    partition: StorageDeviceNumber,
    bytes: Vec<u8>,
    guid: [u8; 16],
    exists: bool,
)
    ensures
        Reply::FirmwareBootDevice(Ok(text))@ == Answer::FirmwareBootDevice(Ok(text@)),
        Reply::FirmwareBootDevice(Err(text))@ == Answer::FirmwareBootDevice(Err(text@)),
        Reply::ArcLink(Ok(text))@ == Answer::ArcLink(Ok(text@)),
        Reply::ArcLink(Err(status))@ == Answer::ArcLink(Err(status)),
        Reply::LogicalDrives(number)@ == Answer::LogicalDrives(number),
        Reply::DriveType(number)@ == Answer::DriveType(number),
        Reply::DosDevice(Some(text))@ == Answer::DosDevice(Some(text@)),
        Reply::DosDevice(None)@ == Answer::DosDevice(None),
        Reply::DeviceNumber(Some(partition))@ == Answer::DeviceNumber(Some(partition)),
        Reply::DeviceNumber(None)@ == Answer::DeviceNumber(None),
        Reply::BusType(Some(status))@ == Answer::BusType(Some(status)),
        Reply::BusType(None)@ == Answer::BusType(None),
        Reply::SystemEnvironmentPrivilege(Ok(()))@ == Answer::SystemEnvironmentPrivilege(Ok(())),
        Reply::SystemEnvironmentPrivilege(Err(text))@ == Answer::SystemEnvironmentPrivilege(
            Err(text@),
        ),
        Reply::VentoyVariable(number, bytes)@ == Answer::VentoyVariable(number, bytes@),
        Reply::TableSize(number)@ == Answer::TableSize(number),
        Reply::Table(number, bytes)@ == Answer::Table(number, bytes@),
        Reply::DiskGuid(Some(guid))@ == Answer::DiskGuid(Some(guid@)),
        Reply::DiskGuid(None)@ == Answer::DiskGuid(None),
        Reply::PathExists(exists)@ == Answer::PathExists(exists),
{
}

/// A computer answers each question with what it has for just that question.
pub proof fn answers_are_those_asked_for(
    computer: Computer,
    text: Seq<char>,
    disk: u32,
    table: TableName,
    size: u32,
)
    ensures
        computer.answer(Question::FirmwareBootDevice) == Answer::FirmwareBootDevice(
            computer.firmware_boot_device,
        ),
        computer.answer(Question::ArcLink(text)) == Answer::ArcLink((computer.arc_link)(text)),
        computer.answer(Question::LogicalDrives) == Answer::LogicalDrives(computer.logical_drives),
        computer.answer(Question::DriveType(text)) == Answer::DriveType(
            (computer.drive_type)(text),
        ),
        computer.answer(Question::DosDevice(text)) == Answer::DosDevice(
            (computer.dos_device)(text),
        ),
        computer.answer(Question::DeviceNumber(text)) == Answer::DeviceNumber(
            (computer.device_number)(text),
        ),
        computer.answer(Question::BusType(disk)) == Answer::BusType((computer.bus_type)(disk)),
        computer.answer(Question::SystemEnvironmentPrivilege)
            == Answer::SystemEnvironmentPrivilege(computer.privilege),
        computer.answer(Question::VentoyVariable) == Answer::VentoyVariable(
            computer.ventoy_variable.0,
            computer.ventoy_variable.1,
        ),
        computer.answer(Question::TableSize(table)) == Answer::TableSize(
            (computer.table_size)(table),
        ),
        computer.answer(Question::Table(table, size)) == Answer::Table(
            (computer.table)(table, size).0,
            (computer.table)(table, size).1,
        ),
        computer.answer(Question::DiskGuid(disk)) == Answer::DiskGuid((computer.disk_guid)(disk)),
        computer.answer(Question::PathExists(text)) == Answer::PathExists(
            (computer.path_exists)(text),
        ),
{
}

} // verus!
