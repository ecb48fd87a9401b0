use find_winpe_profile_path::device::{
    arc_object_name, check_status, dos_device_target, global_device_path, link_target, object_name_units,
    parse_arc_device_number, physical_drive_path, DosDeviceError, StorageDeviceNumber,
    FILE_DEVICE_DISK, STATUS_BUFFER_TOO_SMALL, STATUS_PROCEDURE_NOT_FOUND,
};
use find_winpe_profile_path::number::{decimal_u32, parse_u32};
use find_winpe_profile_path::text::chars_of;
use find_winpe_profile_path::utf16::{decode_utf16, encode_utf16, wide, zero_position};

fn disk(disk: u32, partition: u32) -> Option<StorageDeviceNumber> {
    Some(StorageDeviceNumber {
        device_type: FILE_DEVICE_DISK,
        device_number: disk,
        partition_number: partition,
    })
}

#[test]
fn parses_arc_disk_and_partition_paths() {
    assert_eq!(
        parse_arc_device_number(r"\Device\Harddisk12\Partition34"),
        Some(StorageDeviceNumber {
            device_type: FILE_DEVICE_DISK,
            device_number: 12,
            partition_number: 34,
        })
    );
    assert_eq!(parse_arc_device_number(r"\Device\HarddiskVolume3"), None);
}

#[test]
fn arc_paths_have_exact_shape() {
    assert_eq!(parse_arc_device_number(r"\DEVICE\hardDISK0\pARTITION1"), disk(0, 1));
    assert_eq!(parse_arc_device_number(r"\Device\Harddisk+7\Partition007"), disk(7, 7));
    assert_eq!(
        parse_arc_device_number(r"\Device\Harddisk4294967295\Partition4294967295"),
        disk(4294967295, 4294967295)
    );
    for path in [
        "",
        r"\Device\Harddisk",
        r"\Device\Harddisk\Partition1",
        r"\Device\Harddisk1\Partition",
        r"\Device\Harddisk1",
        r"Device\Harddisk1\Partition1",
        r" \Device\Harddisk1\Partition1",
        r"\Device\Harddisk-1\Partition1",
        r"\Device\Harddisk1\Partition1 ",
        r"\Device\Harddisk1\Partition1\Partition2",
        r"\Device\Harddisk4294967296\Partition1",
        r"\Device\Harddisk1\Partition+",
        r"\Device\CdRom0",
    ] {
        assert_eq!(parse_arc_device_number(path), None, "{path}");
    }
}

#[test]
fn arc_paths_read_back() {
    for (d, p) in [(0u32, 0u32), (1, 2), (10, 99), (4294967295, 1000000000)] {
        let path = format!("\\Device\\Harddisk{}\\Partition{}", decimal_u32(d), decimal_u32(p));
        assert_eq!(parse_arc_device_number(&path), disk(d, p));
        assert_eq!(parse_arc_device_number(&path.to_ascii_uppercase()), disk(d, p));
    }
}

#[test]
fn numbers_are_read_and_written_as_std_does() {
    for value in [0u32, 1, 9, 10, 11, 99, 100, 12345, 4294967294, 4294967295] {
        assert_eq!(decimal_u32(value), value.to_string());
        assert_eq!(parse_u32(&chars_of(&decimal_u32(value))), Some(value));
    }
    for text in [
        "", "+", "-", "-0", "+0", "00", "1a", "a1", " 1", "1 ", "++1", "4294967296",
        "00000000000000000004294967295", "99999999999999999999", "\u{661}",
    ] {
        assert_eq!(parse_u32(&chars_of(text)), text.parse::<u32>().ok(), "{text}");
    }
}

#[test]
fn utf16_is_written_and_read_as_std_does() {
    for text in ["", "C:\\", "\u{d7ff}\u{e000}\u{ffff}", "\u{10000}a\u{10ffff}", "\u{76ee}\u{5f55}"] {
        let units: Vec<u16> = text.encode_utf16().collect();
        assert_eq!(encode_utf16(text), units);
        assert_eq!(decode_utf16(&units), Some(text.to_owned()));
        let mut with_zero = units.clone();
        with_zero.push(0);
        assert_eq!(wide(text), with_zero);
        assert_eq!(zero_position(&wide(text)), units.len());
        assert_eq!(decode_utf16(&wide(text)[..units.len()]), Some(text.to_owned()));
    }
    for units in [
        vec![0xd800u16],
        vec![0xdc00],
        vec![0xd800, 0x41],
        vec![0xd800, 0xd800, 0xdc00],
        vec![0x41, 0xdbff],
        vec![0xdc00, 0xd800],
    ] {
        assert!(String::from_utf16(&units).is_err());
        assert_eq!(decode_utf16(&units), None);
    }
}

#[test]
fn device_names_are_composed() {
    assert_eq!(
        global_device_path(r"\Device\HarddiskVolume3"),
        r"\\?\GLOBALROOT\Device\HarddiskVolume3"
    );
    assert_eq!(physical_drive_path(0), r"\\.\PhysicalDrive0");
    assert_eq!(physical_drive_path(12), r"\\.\PhysicalDrive12");
    assert_eq!(
        arc_object_name("multi(0)disk(0)rdisk(0)partition(1)"),
        r"\ArcName\multi(0)disk(0)rdisk(0)partition(1)"
    );
}

#[test]
fn statuses_have_their_values() {
    assert_eq!(STATUS_BUFFER_TOO_SMALL, 0xC000_0023u32 as i32);
    assert_eq!(STATUS_PROCEDURE_NOT_FOUND, 0xC000_007Au32 as i32);
    assert_eq!(check_status(0), Ok(()));
    assert_eq!(check_status(0x4000_0000), Ok(()));
    assert_eq!(check_status(STATUS_PROCEDURE_NOT_FOUND), Err(STATUS_PROCEDURE_NOT_FOUND));
}

#[test]
fn long_object_names_are_refused() {
    let longest = "x".repeat(32767);
    assert_eq!(object_name_units(&longest).unwrap().len(), 32767);
    assert_eq!(object_name_units(&"x".repeat(32768)), Err(STATUS_BUFFER_TOO_SMALL));
    assert_eq!(object_name_units(&"\u{10000}".repeat(16384)), Err(STATUS_BUFFER_TOO_SMALL));
    assert_eq!(object_name_units("ab"), Ok(vec![97, 98]));
}

#[test]
fn link_targets_are_read() {
    let target = r"\Device\Harddisk0\Partition1";
    let mut buffer = encode_utf16(target);
    let length = (buffer.len() * 2) as u16;
    buffer.push(0);
    buffer.push(0xd800);
    assert_eq!(link_target(0, &buffer, length), Ok(target.to_owned()));
    assert_eq!(link_target(0, &buffer, length + 1), Ok(target.to_owned()));
    assert_eq!(link_target(0, &buffer, 0), Ok(String::new()));
    assert_eq!(link_target(0, &buffer, length + 4), Err(STATUS_BUFFER_TOO_SMALL));
    assert_eq!(link_target(-1, &buffer, length), Err(-1));
}

#[test]
fn dos_devices_are_read_up_to_the_first_zero() {
    let mut buffer = wide(r"\Device\HarddiskVolume1");
    let first = buffer.len() as u32;
    buffer.extend(wide(r"\Device\Other"));
    buffer.push(0);
    let length = buffer.len() as u32;
    buffer.resize(32768, 0);
    assert_eq!(
        dos_device_target(&buffer, length),
        Ok(r"\Device\HarddiskVolume1".to_owned())
    );
    assert_eq!(
        dos_device_target(&buffer, first - 1),
        Ok(r"\Device\HarddiskVolume1".to_owned())
    );
    assert_eq!(dos_device_target(&buffer, 7), Ok(r"\Device".to_owned()));
    assert_eq!(dos_device_target(&buffer, 0), Err(DosDeviceError::QueryFailed));
    assert_eq!(dos_device_target(&[0xdc00, 0], 2), Err(DosDeviceError::InvalidText));
    assert_eq!(dos_device_target(&[0, 0xdc00], 2), Ok(String::new()));
}
