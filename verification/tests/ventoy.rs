use find_winpe_profile_path::request::{TableName, ACPI_PROVIDER};
use find_winpe_profile_path::ventoy::{
    disk_guid_in_sector, find_param_in_table, parse_ventoy_os_param, privilege_assigned,
    PrivilegeError, SectorError, ERROR_NOT_ALL_ASSIGNED, SECTOR_SIZE,
    VENTOY_DISK_GUID_OFFSET, VENTOY_DISK_GUID_SECTOR_OFFSET, VENTOY_IMAGE_PATH_LENGTH,
    VENTOY_IMAGE_PATH_OFFSET, VENTOY_MAGIC, VENTOY_OS_PARAM_SIZE, VENTOY_PARTITION_ID_OFFSET,
};
use find_winpe_profile_path::ventoy_search::{read_table, read_variable};

fn sign(buffer: &mut [u8; VENTOY_OS_PARAM_SIZE]) {
    let checksum_index = VENTOY_OS_PARAM_SIZE - 1;
    buffer[checksum_index] = 0u8.wrapping_sub(
        buffer[..checksum_index]
            .iter()
            .fold(0u8, |sum, byte| sum.wrapping_add(*byte)),
    );
}

fn block(partition: u16, image_path: &[u8]) -> [u8; VENTOY_OS_PARAM_SIZE] {
    let mut buffer = [0u8; VENTOY_OS_PARAM_SIZE];
    buffer[..VENTOY_MAGIC.len()].copy_from_slice(&VENTOY_MAGIC);
    for i in 0..16u8 {
        buffer[VENTOY_DISK_GUID_OFFSET + i as usize] = i + 1;
    }
    buffer[VENTOY_PARTITION_ID_OFFSET..VENTOY_PARTITION_ID_OFFSET + 2]
        .copy_from_slice(&partition.to_le_bytes());
    buffer[VENTOY_IMAGE_PATH_OFFSET..VENTOY_IMAGE_PATH_OFFSET + image_path.len()]
        .copy_from_slice(image_path);
    sign(&mut buffer);
    buffer
}

#[test]
fn validates_ventoy_runtime_data() {
    let mut buffer = [0u8; VENTOY_OS_PARAM_SIZE];
    buffer[..VENTOY_MAGIC.len()].copy_from_slice(&VENTOY_MAGIC);
    buffer[VENTOY_DISK_GUID_OFFSET..VENTOY_DISK_GUID_OFFSET + 16].copy_from_slice(&[0xA5; 16]);
    buffer[VENTOY_PARTITION_ID_OFFSET..VENTOY_PARTITION_ID_OFFSET + 2]
        .copy_from_slice(&1u16.to_le_bytes());
    let image_path = b"/ISO/WinPE.iso\0";
    buffer[VENTOY_IMAGE_PATH_OFFSET..VENTOY_IMAGE_PATH_OFFSET + image_path.len()]
        .copy_from_slice(image_path);
    let checksum_index = VENTOY_OS_PARAM_SIZE - 1;
    buffer[checksum_index] = 0u8.wrapping_sub(
        buffer[..checksum_index]
            .iter()
            .fold(0u8, |sum, byte| sum.wrapping_add(*byte)),
    );

    let param = parse_ventoy_os_param(&buffer).unwrap();
    assert_eq!(param.disk_guid, [0xA5; 16]);
    assert_eq!(param.partition_number, 1);
    assert_eq!(param.image_path, "ISO\\WinPE.iso");

    buffer[0] ^= 1;
    assert!(parse_ventoy_os_param(&buffer).is_none());
}

#[test]
fn ventoy_fields_are_read() {
    let param = parse_ventoy_os_param(&block(0x1234, b"//\\a/b\\c.iso\0")).unwrap();
    assert_eq!(param.disk_guid, [1, 2, 3, 4, 5, 6, 7, 8, 9, 10, 11, 12, 13, 14, 15, 16]);
    assert_eq!(param.partition_number, 0x1234);
    assert_eq!(param.image_path, "a\\b\\c.iso");
    let param = parse_ventoy_os_param(&block(0xFF00, b"x\0")).unwrap();
    assert_eq!(param.partition_number, 0xFF00);
    let param =
        parse_ventoy_os_param(&block(1, "/\u{76ee}\u{5f55}/\u{1f4be}.iso\0".as_bytes())).unwrap();
    assert_eq!(param.image_path, "\u{76ee}\u{5f55}\\\u{1f4be}.iso");
}

#[test]
fn unsound_ventoy_data_is_refused() {
    assert!(parse_ventoy_os_param(&block(1, b"a.iso\0")).is_some());
    assert!(parse_ventoy_os_param(&block(0, b"a.iso\0")).is_none());
    for image in [
        &b"\0"[..],
        b"/\0",
        b"//\0",
        b"a/../b\0",
        b"a//b\0",
        b"a/\0",
        b"c:/a\0",
        b"\xff\xfe\0",
        b"a\xc3\0",
        b"\xed\xa0\x80\0",
        b"\xc0\x80a\0",
    ] {
        assert!(parse_ventoy_os_param(&block(1, image)).is_none(), "{image:?}");
    }
    assert!(parse_ventoy_os_param(&block(1, &[b'a'; VENTOY_IMAGE_PATH_LENGTH])).is_none());
    let mut longest = [b'a'; VENTOY_IMAGE_PATH_LENGTH];
    longest[VENTOY_IMAGE_PATH_LENGTH - 1] = 0;
    assert_eq!(
        parse_ventoy_os_param(&block(1, &longest)).unwrap().image_path,
        "a".repeat(VENTOY_IMAGE_PATH_LENGTH - 1)
    );
    let sound = block(1, b"a.iso\0");
    assert!(parse_ventoy_os_param(&sound[..VENTOY_OS_PARAM_SIZE - 1]).is_none());
    let mut long = sound.to_vec();
    long.push(0);
    assert!(parse_ventoy_os_param(&long).is_none());
    assert!(parse_ventoy_os_param(&[]).is_none());
}

#[test]
fn every_changed_byte_is_noticed() {
    let sound = block(1, b"a.iso\0");
    for at in 0..VENTOY_OS_PARAM_SIZE {
        for change in [1u8, 0x80, 0xff] {
            let mut changed = sound;
            changed[at] = changed[at].wrapping_add(change);
            assert!(parse_ventoy_os_param(&changed).is_none(), "{at}");
        }
    }
}

#[test]
fn the_first_parameter_of_a_table_is_found() {
    let first = block(1, b"first.iso\0");
    let second = block(2, b"second.iso\0");
    let mut table = vec![0x20u8; 37];
    table.extend_from_slice(&first);
    table.extend_from_slice(&second);
    table.push(1);
    assert_eq!(find_param_in_table(&table).unwrap().image_path, "first.iso");
    assert_eq!(find_param_in_table(&table[38..]).unwrap().image_path, "second.iso");
    assert_eq!(find_param_in_table(&first).unwrap().partition_number, 1);
    assert!(find_param_in_table(&table[..37 + 511]).is_none());
    assert!(find_param_in_table(&vec![0u8; 2000]).is_none());
    assert!(find_param_in_table(&[]).is_none());
}

#[test]
fn variables_and_tables_are_read_by_their_sizes() {
    let sound = block(3, b"a.iso\0");
    assert_eq!(read_variable(512, &sound).unwrap().partition_number, 3);
    assert!(read_variable(511, &sound).is_none());
    assert!(read_variable(0, &sound).is_none());
    assert!(read_variable(512, &[0; 512]).is_none());
    let mut table = vec![1u8; 40];
    table.extend_from_slice(&sound);
    table.extend_from_slice(&[0; 48]);
    assert_eq!(read_table(552, &table).unwrap().partition_number, 3);
    assert_eq!(read_table(600, &table).unwrap().partition_number, 3);
    assert!(read_table(551, &table).is_none());
    assert!(read_table(0, &table).is_none());
    assert!(read_table(601, &table).is_none());
}

#[test]
fn disk_identifiers_stand_in_the_first_sector() {
    let mut sector = [0u8; SECTOR_SIZE];
    for i in 0..16u8 {
        sector[VENTOY_DISK_GUID_SECTOR_OFFSET + i as usize] = 0xF0 - i;
    }
    sector[VENTOY_DISK_GUID_SECTOR_OFFSET - 1] = 1;
    sector[VENTOY_DISK_GUID_SECTOR_OFFSET + 16] = 2;
    assert_eq!(VENTOY_DISK_GUID_SECTOR_OFFSET, 0x180);
    let guid = disk_guid_in_sector(&sector, 512).unwrap();
    assert_eq!(guid[..], sector[0x180..0x190]);
    assert_eq!(disk_guid_in_sector(&sector, 511), Err(SectorError::Short));
    assert_eq!(disk_guid_in_sector(&sector, 513), Err(SectorError::Short));
    assert_eq!(disk_guid_in_sector(&sector, 0), Err(SectorError::Short));
}

#[test]
fn privileges_that_were_not_assigned_are_noticed() {
    assert_eq!(
        ERROR_NOT_ALL_ASSIGNED,
        windows::Win32::Foundation::ERROR_NOT_ALL_ASSIGNED.0
    );
    assert_eq!(privilege_assigned(0), Ok(()));
    assert_eq!(privilege_assigned(5), Ok(()));
    assert_eq!(
        privilege_assigned(ERROR_NOT_ALL_ASSIGNED),
        Err(PrivilegeError::NotAssigned)
    );
}

#[test]
fn tables_have_signatures_and_names() {
    assert_eq!(ACPI_PROVIDER, u32::from_le_bytes(*b"ACPI"));
    assert_eq!(TableName::Vtoy.signature(), u32::from_le_bytes(*b"VTOY"));
    assert_eq!(TableName::Ibft.signature(), u32::from_le_bytes(*b"iBFT"));
    assert_eq!(TableName::Vtoy.name(), "VTOY");
    assert_eq!(TableName::Ibft.name(), "iBFT");
}
