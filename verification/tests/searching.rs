use std::collections::{BTreeMap, BTreeSet};

use find_winpe_profile_path::device::StorageDeviceNumber;
use find_winpe_profile_path::note::{volume_line, Note};
use find_winpe_profile_path::request::{Reply, Request, TableName};
use find_winpe_profile_path::search::{Action, MarkerSearch, SearchError};
use find_winpe_profile_path::ventoy::{
    VENTOY_DISK_GUID_OFFSET, VENTOY_IMAGE_PATH_OFFSET, VENTOY_MAGIC, VENTOY_PARTITION_ID_OFFSET,
};
use find_winpe_profile_path::volume::Volume;

/// A drive of a computer: its type, its NT name, its disk and partition.
#[derive(Clone)]
struct Drive {
    drive_type: u32,
    name: Option<&'static str>,
    partition: Option<(u32, u32)>,
    device_type: u32,
}

/// A computer that answers from tables.
#[derive(Clone)]
struct Machine {
    boot_device: Result<&'static str, &'static str>,
    link: Result<&'static str, i32>,
    drives: BTreeMap<char, Drive>,
    unmounted: BTreeMap<&'static str, StorageDeviceNumber>,
    buses: BTreeMap<u32, i32>,
    privilege: Result<(), &'static str>,
    variable: Vec<u8>,
    tables: BTreeMap<&'static str, Vec<u8>>,
    guids: BTreeMap<u32, [u8; 16]>,
    files: BTreeSet<&'static str>,
}

impl Machine {
    fn new() -> Machine {
        Machine {
            boot_device: Err("no key"),
            link: Err(-1),
            drives: BTreeMap::new(),
            unmounted: BTreeMap::new(),
            buses: BTreeMap::new(),
            privilege: Ok(()),
            variable: Vec::new(),
            tables: BTreeMap::new(),
            guids: BTreeMap::new(),
            files: BTreeSet::new(),
        }
    }

    fn drive(mut self, letter: char, drive_type: u32, partition: Option<(u32, u32)>) -> Machine {
        self.drives.insert(
            letter,
            Drive {
                drive_type,
                name: None,
                partition,
                device_type: 7,
            },
        );
        self
    }

    fn reply(&self, request: Request) -> Reply {
        match request {
            Request::FirmwareBootDevice => Reply::FirmwareBootDevice(
                self.boot_device.map(str::to_owned).map_err(str::to_owned),
            ),
            Request::ArcLink(name) => {
                assert_eq!(name, format!("\\ArcName\\{}", self.boot_device.unwrap()));
                Reply::ArcLink(self.link.map(str::to_owned))
            }
            Request::LogicalDrives => Reply::LogicalDrives(
                self.drives
                    .keys()
                    .fold(0u32, |mask, letter| mask | 1 << (*letter as u32 - 'A' as u32)),
            ),
            Request::DriveType(root) => {
                assert_eq!(root.len(), 3);
                Reply::DriveType(self.at(&root).drive_type)
            }
            Request::DosDevice(name) => Reply::DosDevice(self.at(&name).name.map(str::to_owned)),
            Request::DeviceNumber(path) => {
                if let Some(nt_path) = path.strip_prefix(r"\\?\GLOBALROOT") {
                    return Reply::DeviceNumber(self.unmounted.get(nt_path).copied());
                }
                assert!(path.starts_with(r"\\.\"));
                let drive = self.at(&path[4..]);
                Reply::DeviceNumber(drive.partition.map(|(disk, partition)| {
                    StorageDeviceNumber {
                        device_type: drive.device_type,
                        device_number: disk,
                        partition_number: partition,
                    }
                }))
            }
            Request::BusType(disk) => Reply::BusType(self.buses.get(&disk).copied()),
            Request::SystemEnvironmentPrivilege => {
                Reply::SystemEnvironmentPrivilege(self.privilege.map_err(str::to_owned))
            }
            Request::VentoyVariable => {
                let mut buffer = self.variable.clone();
                buffer.resize(512, 0);
                Reply::VentoyVariable(self.variable.len() as u32, buffer)
            }
            Request::TableSize(table) => Reply::TableSize(self.table(table).len() as u32),
            Request::Table(table, size) => {
                assert_eq!(size as usize, self.table(table).len());
                Reply::Table(size, self.table(table))
            }
            Request::DiskGuid(disk) => Reply::DiskGuid(self.guids.get(&disk).copied()),
            Request::PathExists(path) => Reply::PathExists(self.files.contains(path.as_str())),
        }
    }

    fn at(&self, name: &str) -> &Drive {
        assert_eq!(&name[1..2], ":");
        &self.drives[&name.chars().next().unwrap()]
    }

    fn table(&self, table: TableName) -> Vec<u8> {
        self.tables.get(table.name()).cloned().unwrap_or_default()
    }

    fn run(&self, path: &str, verbose: bool) -> (Result<Option<String>, String>, Vec<String>) {
        let mut search = MarkerSearch::new(path, verbose);
        let mut told: Vec<String> = Vec::new();
        loop {
            match search.action() {
                Action::Finish(Ok(found)) => return (Ok(found), told),
                Action::Finish(Err(SearchError::System(error))) => return (Err(error), told),
                Action::Ask(request) => {
                    let (next, notes) = search.answer(self.reply(request));
                    told.extend(notes.iter().map(Note::line));
                    search = next;
                }
            }
        }
    }

    fn find(&self, path: &str) -> Option<String> {
        let (loud, told) = self.run(path, true);
        let (quiet, silence) = self.run(path, false);
        assert_eq!(loud, quiet);
        assert!(silence.is_empty());
        assert!(!told.is_empty());
        quiet.unwrap()
    }
}

fn param(partition: u16, guid: u8, image: &[u8]) -> Vec<u8> {
    let mut buffer = vec![0u8; 512];
    buffer[..16].copy_from_slice(&VENTOY_MAGIC);
    buffer[VENTOY_DISK_GUID_OFFSET..VENTOY_DISK_GUID_OFFSET + 16].copy_from_slice(&[guid; 16]);
    buffer[VENTOY_PARTITION_ID_OFFSET..VENTOY_PARTITION_ID_OFFSET + 2]
        .copy_from_slice(&partition.to_le_bytes());
    buffer[VENTOY_IMAGE_PATH_OFFSET..VENTOY_IMAGE_PATH_OFFSET + image.len()].copy_from_slice(image);
    buffer[511] = 0u8.wrapping_sub(buffer.iter().fold(0u8, |sum, byte| sum.wrapping_add(*byte)));
    buffer
}

/// Nine drives, one of each group, in the reverse order of their letters.
fn machine() -> Machine {
    let mut machine = Machine::new()
        .drive('C', 4, None)
        .drive('D', 6, None)
        .drive('E', 3, Some((6, 1)))
        .drive('F', 5, None)
        .drive('G', 2, None)
        .drive('H', 3, Some((3, 1)))
        .drive('I', 2, Some((2, 1)))
        .drive('J', 3, Some((1, 1)))
        .drive('K', 3, Some((1, 2)));
    machine.boot_device = Ok("multi(0)disk(0)rdisk(1)partition(2)");
    machine.link = Ok(r"\Device\Harddisk1\Partition2");
    machine.buses.insert(2, 7);
    machine.buses.insert(3, 7);
    machine.variable = param(1, 0xA5, b"/ISO/pe.iso\0");
    machine.guids.insert(2, [0xA5; 16]);
    machine.guids.insert(3, [0x5A; 16]);
    machine.files.insert("I:\\ISO\\pe.iso");
    machine
}

#[test]
fn the_first_volume_in_order_wins() {
    let mut machine = machine();
    assert_eq!(machine.find("WinPE"), None);
    for path in [
        "C:\\WinPE", "D:\\WinPE", "E:\\WinPE", "F:\\WinPE", "G:\\WinPE", "H:\\WinPE", "I:\\WinPE",
        "J:\\WinPE", "K:\\WinPE",
    ] {
        machine.files.insert(path);
        assert_eq!(machine.find("WinPE").as_deref(), Some(path));
    }
}

#[test]
fn letters_decide_within_a_group() {
    let mut machine = Machine::new().drive('Q', 3, None).drive('B', 3, None);
    machine.files.insert("Q:\\a\\b");
    assert_eq!(machine.find("a/b").as_deref(), Some("Q:\\a\\b"));
    machine.files.insert("B:\\a\\b");
    assert_eq!(machine.find("a/b").as_deref(), Some("B:\\a\\b"));
}

#[test]
fn a_verbose_search_tells_all_it_does() {
    let mut machine = machine();
    machine.drives.get_mut(&'E').unwrap().name = Some("\\Device\\Hard\"disk\u{1}");
    machine.files.insert("J:\\WinPE");
    let (found, told) = machine.run("WinPE", true);
    assert_eq!(found, Ok(Some("J:\\WinPE".to_owned())));
    assert_eq!(
        told,
        [
            "volume C:\\ type=4 nt=None device=None bus=None",
            "volume D:\\ type=6 nt=None device=None bus=None",
            "volume E:\\ type=3 nt=Some(\"\\\\Device\\\\Hard\\\"disk\\u{1}\") device=Some(STORAGE_DEVICE_NUMBER { DeviceType: 7, DeviceNumber: 6, PartitionNumber: 1 }) bus=None",
            "volume F:\\ type=5 nt=None device=None bus=None",
            "volume G:\\ type=2 nt=None device=None bus=None",
            "volume H:\\ type=3 nt=None device=Some(STORAGE_DEVICE_NUMBER { DeviceType: 7, DeviceNumber: 3, PartitionNumber: 1 }) bus=Some(7)",
            "volume I:\\ type=2 nt=None device=Some(STORAGE_DEVICE_NUMBER { DeviceType: 7, DeviceNumber: 2, PartitionNumber: 1 }) bus=Some(7)",
            "volume J:\\ type=3 nt=None device=Some(STORAGE_DEVICE_NUMBER { DeviceType: 7, DeviceNumber: 1, PartitionNumber: 1 }) bus=None",
            "volume K:\\ type=3 nt=None device=Some(STORAGE_DEVICE_NUMBER { DeviceType: 7, DeviceNumber: 1, PartitionNumber: 2 }) bus=None",
            "Ventoy runtime parameter read from the UEFI variable.",
            "Ventoy data volume I:\\ contains the current ISO ISO\\pe.iso; assigning Ventoy priority.",
            "[boot] checking K:\\WinPE",
            "[same-disk] checking J:\\WinPE",
        ]
    );
}

#[test]
fn no_drives_is_an_error() {
    let (found, told) = Machine::new().run("WinPE", true);
    assert_eq!(found, Err("GetLogicalDrives returned no drives".to_owned()));
    assert_eq!(
        told,
        ["Warning: cannot read FirmwareBootDevice: no key; continuing without boot-volume priority."]
    );
    let (found, told) = Machine::new().run("WinPE", false);
    assert_eq!(found, Err("GetLogicalDrives returned no drives".to_owned()));
    assert!(told.is_empty());
}

#[test]
fn an_unresolved_link_gives_no_priority() {
    let mut machine = machine();
    machine.link = Err(0xC000_0034u32 as i32);
    machine.variable.clear();
    machine.files.insert("H:\\x");
    machine.files.insert("K:\\x");
    let (found, told) = machine.run("x", true);
    assert_eq!(found, Ok(Some("H:\\x".to_owned())));
    assert_eq!(
        told[0],
        "Warning: ARC link unavailable (NTSTATUS 0xC0000034); continuing without boot-volume priority."
    );
    assert_eq!(told[10], "Ventoy runtime parameter was not found in UEFI or ACPI data.");
    assert_eq!(told[11], "[usb] checking H:\\x");
    machine.link = Err(-1);
    let (_, told) = machine.run("x", true);
    assert!(told[0].contains("(NTSTATUS 0xFFFFFFFF)"));
}

#[test]
fn an_unmounted_boot_partition_still_names_its_disk() {
    let mut machine = machine();
    machine.link = Ok(r"\Device\Harddisk6\Partition9");
    machine.files.insert("E:\\x");
    machine.files.insert("I:\\x");
    let (found, told) = machine.run("x", true);
    assert_eq!(found, Ok(Some("E:\\x".to_owned())));
    assert_eq!(
        told[9],
        r"Warning: boot partition \Device\Harddisk6\Partition9 has no mounted DOS drive; continuing with remaining volumes."
    );
    assert_eq!(told.last().unwrap(), "[same-disk] checking E:\\x");
}

#[test]
fn an_unmounted_boot_partition_is_asked_for_its_disk() {
    let mut machine = Machine::new()
        .drive('A', 3, Some((4, 1)))
        .drive('B', 3, Some((5, 1)));
    machine.buses.insert(5, 7);
    machine.boot_device = Ok("multi(0)disk(0)rdisk(0)partition(2)");
    machine.link = Ok(r"\Device\HarddiskVolume9");
    machine.files.insert("A:\\dir\\x");
    machine.files.insert("B:\\dir\\x");
    assert_eq!(machine.find("dir/x").as_deref(), Some("B:\\dir\\x"));
    let mut number = StorageDeviceNumber {
        device_type: 7,
        device_number: 4,
        partition_number: 2,
    };
    machine.unmounted.insert(r"\Device\HarddiskVolume9", number);
    let (found, told) = machine.run("dir/x", true);
    assert_eq!(found, Ok(Some("A:\\dir\\x".to_owned())));
    assert_eq!(
        told[2],
        r"Warning: boot partition \Device\HarddiskVolume9 has no mounted DOS drive; continuing with remaining volumes."
    );
    assert_eq!(told.last().unwrap(), "[same-disk] checking A:\\dir\\x");
    number.device_type = 2;
    machine.unmounted.insert(r"\Device\HarddiskVolume9", number);
    assert_eq!(machine.find("dir/x").as_deref(), Some("B:\\dir\\x"));
}

#[test]
fn the_disk_is_asked_for_only_where_it_is_not_told() {
    let path = r"\Device\Harddisk1\Partition2";
    let mut machine = machine();
    machine.unmounted.insert(
        path,
        StorageDeviceNumber {
            device_type: 7,
            device_number: 6,
            partition_number: 1,
        },
    );
    machine.files.insert("E:\\x");
    machine.files.insert("J:\\x");
    assert_eq!(machine.find("x").as_deref(), Some("J:\\x"));
}

#[test]
fn optical_discs_are_not_taken_for_disks_of_their_number() {
    let mut machine = Machine::new()
        .drive('C', 5, Some((1, u32::MAX)))
        .drive('D', 2, None)
        .drive('E', 3, Some((1, 1)));
    machine.drives.get_mut(&'C').unwrap().device_type = 2;
    machine.buses.insert(1, 7);
    machine.boot_device = Ok("boot");
    machine.link = Ok(r"\Device\Harddisk1\Partition9");
    machine.files.insert("C:\\x");
    machine.files.insert("D:\\x");
    let (found, told) = machine.run("x", true);
    assert_eq!(found, Ok(Some("D:\\x".to_owned())));
    assert_eq!(
        told[0],
        "volume C:\\ type=5 nt=None device=Some(STORAGE_DEVICE_NUMBER { DeviceType: 2, DeviceNumber: 1, PartitionNumber: 4294967295 }) bus=None"
    );
    machine.files.remove("D:\\x");
    let (found, told) = machine.run("x", true);
    assert_eq!(found, Ok(Some("C:\\x".to_owned())));
    assert_eq!(told.last().unwrap(), "[optical] checking C:\\x");
}

#[test]
fn boot_volumes_are_known_by_their_names() {
    let mut machine = machine();
    machine.link = Ok(r"\Device\HarddiskVolume5");
    machine.drives.get_mut(&'C').unwrap().name = Some(r"\Device\HarddiskVolume5");
    machine.files.insert("C:\\x");
    machine.files.insert("I:\\x");
    assert_eq!(machine.find("x").as_deref(), Some("C:\\x"));
}

#[test]
fn ventoy_is_found_in_the_firmware_tables() {
    let mut machine = machine();
    machine.boot_device = Err("no value");
    machine.privilege = Err("denied");
    machine.files.insert("I:\\x");
    machine.files.insert("H:\\x");
    let sound = machine.variable.split_off(0);
    assert_eq!(machine.find("x").as_deref(), Some("H:\\x"));
    let mut table = vec![9u8; 36];
    table.extend_from_slice(&sound);
    for name in ["iBFT", "VTOY"] {
        machine.tables.insert(name, table.clone());
        let (found, told) = machine.run("x", true);
        assert_eq!(found, Ok(Some("I:\\x".to_owned())));
        assert_eq!(
            told[10],
            "Warning: cannot enable SeSystemEnvironmentPrivilege for Ventoy UEFI data: denied; checking available firmware tables."
        );
        assert_eq!(
            told[11],
            format!("Ventoy runtime parameter read from ACPI {name}.")
        );
    }
    machine.tables.insert("VTOY", vec![0; 511]);
    let (_, told) = machine.run("x", true);
    assert_eq!(told[11], "Ventoy runtime parameter read from ACPI iBFT.");
}

#[test]
fn ventoy_priority_needs_partition_disk_and_image() {
    let mut machine = machine();
    machine.boot_device = Err("no value");
    machine.files.insert("I:\\x");
    machine.files.insert("H:\\x");
    assert_eq!(machine.find("x").as_deref(), Some("I:\\x"));

    let mut other = machine.clone();
    other.variable = param(2, 0xA5, b"/ISO/pe.iso\0");
    assert_eq!(other.find("x").as_deref(), Some("H:\\x"));

    let mut other = machine.clone();
    other.guids.insert(2, [0xA4; 16]);
    assert_eq!(other.find("x").as_deref(), Some("H:\\x"));
    other.guids.remove(&2);
    assert_eq!(other.find("x").as_deref(), Some("H:\\x"));

    let mut other = machine.clone();
    other.files.remove("I:\\ISO\\pe.iso");
    let (found, told) = other.run("x", true);
    assert_eq!(found, Ok(Some("H:\\x".to_owned())));
    assert_eq!(
        told[11],
        "Warning: Ventoy runtime data was found, but its data volume or ISO ISO\\pe.iso is not mounted."
    );
}

#[test]
fn a_device_that_is_no_disk_is_not_the_ventoy_disk() {
    let mut machine = machine();
    machine.boot_device = Err("no value");
    machine.files.insert("I:\\x");
    machine.files.insert("H:\\x");
    machine.drives.get_mut(&'I').unwrap().device_type = 2;
    assert_eq!(machine.find("x").as_deref(), Some("H:\\x"));
}

#[test]
fn the_ventoy_volume_may_be_a_later_one() {
    let mut machine = machine();
    machine.boot_device = Err("no value");
    machine.guids.insert(6, [0xA5; 16]);
    machine.guids.insert(3, [0xA5; 16]);
    machine.files.insert("H:\\x");
    machine.files.insert("I:\\x");
    assert_eq!(machine.find("x").as_deref(), Some("I:\\x"));
    machine.files.insert("E:\\ISO\\pe.iso");
    machine.files.insert("E:\\x");
    assert_eq!(machine.find("x").as_deref(), Some("E:\\x"));
}

#[test]
fn unusable_drives_are_not_searched() {
    let mut machine = Machine::new().drive('A', 1, None).drive('B', 0, None);
    machine.files.insert("A:\\x");
    machine.files.insert("B:\\x");
    assert_eq!(machine.find("x"), None);
}

#[test]
fn answers_to_other_questions_change_nothing() {
    let search = MarkerSearch::new("x", true);
    let (search, notes) = search.answer(Reply::PathExists(true));
    assert!(notes.is_empty());
    assert!(matches!(search.action(), Action::Ask(Request::FirmwareBootDevice)));
}

#[test]
fn volume_lines_are_written_in_full() {
    let volume = Volume {
        root: "Q:\\".to_owned(),
        dos_device: None,
        drive_type: 4294967295,
        device_number: None,
        bus_type: Some(-2147483648),
    };
    assert_eq!(
        volume_line(&volume, Some("name")),
        "volume Q:\\ type=4294967295 nt=Some(name) device=None bus=Some(-2147483648)"
    );
    let number = StorageDeviceNumber {
        device_type: 7,
        device_number: 10,
        partition_number: 0,
    };
    let volume = Volume {
        device_number: Some(number),
        bus_type: Some(0),
        ..volume
    };
    assert_eq!(
        volume_line(&volume, None),
        "volume Q:\\ type=4294967295 nt=None device=Some(STORAGE_DEVICE_NUMBER { DeviceType: 7, DeviceNumber: 10, PartitionNumber: 0 }) bus=Some(0)"
    );
    let theirs = windows::Win32::System::Ioctl::STORAGE_DEVICE_NUMBER {
        DeviceType: 7,
        DeviceNumber: 10,
        PartitionNumber: 0,
    };
    assert!(volume_line(&volume, None).contains(&format!("device={:?} ", Some(theirs))));
}

#[test]
fn a_hit_is_the_last_path_asked_for() {
    let mut machine = machine();
    machine.files.insert("J:\\x");
    machine.files.insert("C:\\x");
    let (found, told) = machine.run("x", true);
    assert_eq!(found, Ok(Some("J:\\x".to_owned())));
    let checked: Vec<&String> = told.iter().filter(|line| line.starts_with('[')).collect();
    assert_eq!(checked, ["[boot] checking K:\\x", "[same-disk] checking J:\\x"]);
}
