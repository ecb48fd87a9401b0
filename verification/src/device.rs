//! Storage devices and the names under which Windows knows them.

use vstd::prelude::*;

use crate::number;
use crate::text;
use crate::utf16;

verus! {

/// The device type of a disk.
pub const FILE_DEVICE_DISK: u32 = 7;

/// The status that stands for a name or a target that cannot be represented
/// (0xC0000023).
pub const STATUS_BUFFER_TOO_SMALL: i32 = -1073741789;

/// The status that stands for a missing system call (0xC000007A).
pub const STATUS_PROCEDURE_NOT_FOUND: i32 = -1073741702;

/// What identifies a partition of a storage device.
#[derive(Clone, Copy, Debug, PartialEq, Eq, Structural)]
pub struct StorageDeviceNumber {
    /// The kind of device.
    pub device_type: u32,
    /// The number of the device among those of its kind.
    pub device_number: u32,
    /// The number of the partition on the device.
    pub partition_number: u32,
}

/// The device that the NT path of a disk partition names:
/// `\Device\Harddisk<disk>\Partition<partition>`, in any case of letters.
pub open spec fn arc_device_number(path: Seq<char>) -> Option<StorageDeviceNumber> {
    let lower = text::ascii_lowercase(path);
    let prefix = "\\device\\harddisk"@;
    let middle = "\\partition"@;
    if !prefix.is_prefix_of(lower) {
        None
    } else {
        let suffix = lower.skip(prefix.len() as int);
        match text::first_occurrence(suffix, middle, 0) {
            None => None,
            Some(at) => disk_partition(
                number::u32_of(suffix.take(at)),
                number::u32_of(suffix.skip(at + middle.len())),
            ),
        }
    }
}

/// The partition of a disk, where both numbers are known.
pub open spec fn disk_partition(
    disk: Option<u32>,
    partition: Option<u32>,
) -> Option<StorageDeviceNumber> {
    match (disk, partition) {
        (Some(disk), Some(partition)) => Some(
            StorageDeviceNumber {
                device_type: FILE_DEVICE_DISK,
                device_number: disk,
                partition_number: partition,
            },
        ),
        _ => None,
    }
}

/// The name of the link to the NT path of a firmware boot device.
pub open spec fn arc_link_name(boot_device: Seq<char>) -> Seq<char> {
    "\\ArcName\\"@ + boot_device
}

/// The path that opens a whole disk.
pub open spec fn physical_drive(disk: u32) -> Seq<char> {
    "\\\\.\\PhysicalDrive"@ + number::decimal(disk as nat)
}

/// The path that opens the device with an NT path.
pub open spec fn global_path(nt_path: Seq<char>) -> Seq<char> {
    "\\\\?\\GLOBALROOT"@ + nt_path
}

/// Reads the device numbers from the NT path of a disk partition.
pub fn parse_arc_device_number(path: &str) -> (r: Option<StorageDeviceNumber>)
    ensures
        r == arc_device_number(path@),
{
    let chars = text::chars_of(path);
    let lower = text::to_ascii_lowercase(&chars);
    let prefix = text::chars_of("\\device\\harddisk");
    let middle = text::chars_of("\\partition");
    if prefix.len() > lower.len() || !text::stands_at(&lower, &prefix, 0) {
        proof {
            if prefix@.is_prefix_of(lower@) {
                assert(lower@.subrange(0, prefix@.len() as int) == prefix@);
            }
        }
        return None;
    }
    assert(prefix@.is_prefix_of(lower@)) by {
        assert(lower@.subrange(0, prefix@.len() as int) == prefix@);
    }
    let suffix = vstd::slice::slice_subrange(lower.as_slice(), prefix.len(), lower.len());
    assert(suffix@ == lower@.skip(prefix@.len() as int));
    match text::find(suffix, &middle) {
        None => None,
        Some(at) => {
            let disk = vstd::slice::slice_subrange(suffix, 0, at);
            let partition = vstd::slice::slice_subrange(suffix, at + middle.len(), suffix.len());
            assert(disk@ == suffix@.take(at as int));
            assert(partition@ == suffix@.skip(at + middle@.len()));
            match (number::parse_u32(disk), number::parse_u32(partition)) {
                (Some(disk), Some(partition)) => Some(
                    StorageDeviceNumber {
                        device_type: FILE_DEVICE_DISK,
                        device_number: disk,
                        partition_number: partition,
                    },
                ),
                _ => None,
            }
        },
    }
}

/// The name of the link to the NT path of a firmware boot device.
pub fn arc_object_name(boot_device: &str) -> (r: String)
    ensures
        r@ == arc_link_name(boot_device@),
{
    text::join("\\ArcName\\", boot_device)
}

/// The path that opens a whole disk.
pub fn physical_drive_path(disk: u32) -> (r: String)
    ensures
        r@ == physical_drive(disk),
{
    text::join("\\\\.\\PhysicalDrive", &number::decimal_u32(disk))
}

/// The path that opens the device with an NT path.
pub fn global_device_path(nt_path: &str) -> (r: String)
    ensures
        r@ == global_path(nt_path@),
{
    text::join("\\\\?\\GLOBALROOT", nt_path)
}

/// The units of an object name. A name of more than 65535 bytes cannot be
/// handed over.
pub fn object_name_units(name: &str) -> (r: Result<Vec<u16>, i32>)
    ensures
        match r {
            Ok(units) => units@ == utf16::encode(name@) && 2 * units@.len() <= u16::MAX,
            Err(status) => status == STATUS_BUFFER_TOO_SMALL && 2 * utf16::encode(name@).len()
                > u16::MAX,
        },
{
    let units = utf16::encode_utf16(name);
    if units.len() > 32767 {
        Err(STATUS_BUFFER_TOO_SMALL)
    } else {
        Ok(units)
    }
}

/// What an NT status says: a negative one is an error.
pub fn check_status(status: i32) -> (r: Result<(), i32>)
    ensures
        status >= 0 ==> r == Ok::<(), i32>(()),
        status < 0 ==> r == Err::<(), i32>(status),
{
    if status < 0 {
        Err(status)
    } else {
        Ok(())
    }
}

/// The target of a link, from the status of the query, the buffer that it
/// filled and the number of bytes that it wrote.
pub fn link_target(status: i32, buffer: &[u16], length: u16) -> (r: Result<String, i32>)
    requires
        status >= 0 ==> length / 2 <= buffer.len(),
    ensures
        status < 0 ==> r == Err::<String, i32>(status),
        status >= 0 ==> match utf16::decode(buffer@.take(length as int / 2)) {
            Some(target) => r matches Ok(text) && text@ == target,
            None => r == Err::<String, i32>(STATUS_BUFFER_TOO_SMALL),
        },
{
    match check_status(status) {
        Err(status) => Err(status),
        Ok(()) => {
            let units = vstd::slice::slice_subrange(buffer, 0, length as usize / 2);
            assert(units@ == buffer@.take(length as int / 2));
            match utf16::decode_utf16(units) {
                Some(target) => Ok(target),
                None => Err(STATUS_BUFFER_TOO_SMALL),
            }
        },
    }
}

/// Why the NT name of a drive is not known.
#[derive(Clone, Copy, Debug, PartialEq, Eq, Structural)]
pub enum DosDeviceError {
    /// The query wrote nothing.
    QueryFailed,
    /// The query wrote something else than UTF-16.
    InvalidText,
}

/// The NT name of a drive, from the buffer that the query filled and the
/// number of units that it wrote: the first of the names in it.
pub fn dos_device_target(buffer: &[u16], length: u32) -> (r: Result<String, DosDeviceError>)
    requires
        length <= buffer.len(),
    ensures
        length == 0 ==> r == Err::<String, DosDeviceError>(DosDeviceError::QueryFailed),
        length > 0 ==> match utf16::decode(utf16::before_zero(buffer@.take(length as int))) {
            Some(target) => r matches Ok(text) && text@ == target,
            None => r == Err::<String, DosDeviceError>(DosDeviceError::InvalidText),
        },
{
    if length == 0 {
        return Err(DosDeviceError::QueryFailed);
    }
    let written = vstd::slice::slice_subrange(buffer, 0, length as usize);
    assert(written@ == buffer@.take(length as int));
    let first_zero: usize = utf16::zero_position(written);
    let name = vstd::slice::slice_subrange(written, 0, first_zero);
    assert(name@ == written@.take(first_zero as int));
    match utf16::decode_utf16(name) {
        Some(target) => Ok(target),
        None => Err(DosDeviceError::InvalidText),
    }
}

/// The case of the letters of a path does not matter.
pub proof fn arc_path_case_is_ignored(a: Seq<char>, b: Seq<char>)
    requires
        text::ascii_lowercase(a) == text::ascii_lowercase(b),
    ensures
        arc_device_number(a) == arc_device_number(b),
{
}

/// Every disk and partition is read back from the NT path that names it.
pub proof fn arc_path_reads_back(disk: u32, partition: u32)
    ensures
        arc_device_number(
            "\\Device\\Harddisk"@ + number::decimal(disk as nat) + "\\Partition"@
                + number::decimal(partition as nat),
        ) == Some(
            (StorageDeviceNumber {
                device_type: FILE_DEVICE_DISK,
                device_number: disk,
                partition_number: partition,
            }),
        ),
{
    let disk_text = number::decimal(disk as nat);
    let partition_text = number::decimal(partition as nat);
    let path = "\\Device\\Harddisk"@ + disk_text + "\\Partition"@ + partition_text;
    let lower = text::ascii_lowercase(path);
    let prefix = "\\device\\harddisk"@;
    let middle = "\\partition"@;
    reveal_strlit("\\Device\\Harddisk");
    reveal_strlit("\\Partition");
    reveal_strlit("\\device\\harddisk");
    reveal_strlit("\\partition");
    number::decimal_is_digits(disk as nat);
    number::decimal_is_digits(partition as nat);
    number::decimal_reads_back(disk);
    number::decimal_reads_back(partition);
    assert forall|i: int| 0 <= i < disk_text.len() implies text::ascii_lower(disk_text[i])
        == disk_text[i] by {
        assert(number::is_digit(disk_text[i]));
    }
    assert forall|i: int| 0 <= i < partition_text.len() implies text::ascii_lower(partition_text[i])
        == partition_text[i] by {
        assert(number::is_digit(partition_text[i]));
    }
    assert(lower =~= prefix + disk_text + middle + partition_text);
    let suffix = lower.skip(prefix.len() as int);
    assert(suffix =~= disk_text + middle + partition_text);
    assert(prefix.is_prefix_of(lower));
    backslash_behind_digits(disk_text, middle, partition_text, 0);
    assert(suffix.take(disk_text.len() as int) =~= disk_text);
    assert(suffix.skip((disk_text.len() + middle.len()) as int) =~= partition_text);
}

/// Behind digits, a pattern that starts with a backslash is first found where
/// the digits end.
proof fn backslash_behind_digits(
    digits: Seq<char>,
    pattern: Seq<char>,
    rest: Seq<char>,
    from: int,
)
    requires
        number::is_digits(digits),
        pattern.len() > 0,
        pattern[0] == '\\',
        0 <= from <= digits.len(),
    ensures
        text::first_occurrence(digits + pattern + rest, pattern, from) == Some(digits.len() as int),
    decreases digits.len() - from,
{
    let text = digits + pattern + rest;
    if from == digits.len() {
        assert(text.subrange(from, from + pattern.len()) == pattern);
    } else {
        assert(number::is_digit(digits[from]));
        assert(text[from] == digits[from]);
        if text::occurs_at(text, pattern, from) {
            assert(text.subrange(from, from + pattern.len())[0] == pattern[0]);
        }
        backslash_behind_digits(digits, pattern, rest, from + 1);
    }
}

/// Whether `a` is `b`, which has no capitals, but for the case of its letters.
pub open spec fn same_but_for_case(a: Seq<char>, b: Seq<char>) -> bool {
    &&& a.len() == b.len()
    &&& forall|i: int|
        0 <= i < a.len() ==> #[trigger] a[i] == b[i] || (97 <= b[i] as int <= 122 && a[i] as int
            + 32 == b[i] as int)
}

/// Whether four texts are the parts of an NT path that names a partition: the
/// words `\device\harddisk` and `\partition`, in any case of letters, each with
/// a text behind it, of which the first holds no backslash.
pub open spec fn are_arc_parts(
    prefix: Seq<char>,
    disk: Seq<char>,
    middle: Seq<char>,
    partition: Seq<char>,
) -> bool {
    &&& same_but_for_case(
        prefix,
        seq!['\\', 'd', 'e', 'v', 'i', 'c', 'e', '\\', 'h', 'a', 'r', 'd', 'd', 'i', 's', 'k'],
    )
    &&& same_but_for_case(middle, seq!['\\', 'p', 'a', 'r', 't', 'i', 't', 'i', 'o', 'n'])
    &&& !disk.contains('\\')
}

/// An NT path names a partition where `\device\harddisk`, a number,
/// `\partition` and a number stand behind each other, in any case of letters:
/// the partition of a disk with these two numbers. Where one of them is no
/// number, it names none.
pub proof fn arc_path_names_its_numbers(
    prefix: Seq<char>,
    disk: Seq<char>,
    middle: Seq<char>,
    partition: Seq<char>,
)
    requires
        are_arc_parts(prefix, disk, middle, partition),
    ensures
        arc_device_number(prefix + disk + middle + partition) == (match (
            number::u32_of(disk),
            number::u32_of(partition),
        ) {
            (Some(disk), Some(partition)) => Some(
                StorageDeviceNumber {
                    device_type: 7,
                    device_number: disk,
                    partition_number: partition,
                },
            ),
            _ => None,
        }),
{
    let path = prefix + disk + middle + partition;
    let lower = text::ascii_lowercase(path);
    let lower_disk = text::ascii_lowercase(disk);
    let lower_partition = text::ascii_lowercase(partition);
    let head = "\\device\\harddisk"@;
    let mid = "\\partition"@;
    reveal_strlit("\\device\\harddisk");
    reveal_strlit("\\partition");
    text::only_ascii_capitals_are_lowered(path);
    text::only_ascii_capitals_are_lowered(disk);
    text::only_ascii_capitals_are_lowered(partition);
    lowered_is(prefix, head);
    lowered_is(middle, mid);
    assert(lower =~= text::ascii_lowercase(prefix) + lower_disk + text::ascii_lowercase(middle)
        + lower_partition);
    assert(lower =~= head + lower_disk + mid + lower_partition);
    let suffix = lower.skip(head.len() as int);
    assert(suffix =~= lower_disk + mid + lower_partition);
    assert(head.is_prefix_of(lower));
    assert forall|i: int| 0 <= i < lower_disk.len() implies #[trigger] lower_disk[i] != '\\' by {
        assert(disk.contains(disk[i]));
    }
    first_behind_other_characters(lower_disk, mid, lower_partition, 0);
    assert(suffix.take(lower_disk.len() as int) =~= lower_disk);
    assert(suffix.skip((lower_disk.len() + mid.len()) as int) =~= lower_partition);
    lowered_number(disk);
    lowered_number(partition);
}

/// A text that is another but for the case of its letters has that one as its
/// lower case.
proof fn lowered_is(a: Seq<char>, b: Seq<char>)
    requires
        same_but_for_case(a, b),
        forall|i: int| 0 <= i < b.len() ==> !(65 <= (#[trigger] b[i]) as int <= 90),
    ensures
        text::ascii_lowercase(a) == b,
{
    text::only_ascii_capitals_are_lowered(a);
    assert forall|i: int| 0 <= i < a.len() implies text::ascii_lowercase(a)[i] == b[i] by {
        same_characters(text::ascii_lowercase(a)[i], b[i], a[i]);
    }
    assert(text::ascii_lowercase(a) =~= b);
}

/// Characters with one code point are one character.
proof fn same_characters(a: char, b: char, c: char)
    ensures
        a as int == b as int ==> a == b,
        0 <= c as int,
{
}

/// Lower case neither makes a number nor changes one.
proof fn lowered_number(text: Seq<char>)
    ensures
        number::u32_of(text::ascii_lowercase(text)) == number::u32_of(text),
{
    let lower = text::ascii_lowercase(text);
    text::only_ascii_capitals_are_lowered(text);
    assert(number::is_digits(number::without_sign(lower)) == number::is_digits(
        number::without_sign(text),
    )) by {
        let a = number::without_sign(lower);
        let b = number::without_sign(text);
        let shift: int = if text.len() > 0 && text[0] == '+' {
            1
        } else {
            0
        };
        assert(lower.len() > 0 && lower[0] == '+' <==> text.len() > 0 && text[0] == '+');
        if number::is_digits(a) {
            assert forall|i: int| 0 <= i < b.len() implies number::is_digit(#[trigger] b[i]) by {
                assert(b[i] == text[i + shift]);
                assert(a[i] == lower[i + shift]);
                assert(number::is_digit(a[i]));
            }
        }
        if number::is_digits(b) {
            assert forall|i: int| 0 <= i < a.len() implies number::is_digit(#[trigger] a[i]) by {
                assert(b[i] == text[i + shift]);
                assert(a[i] == lower[i + shift]);
                assert(number::is_digit(b[i]));
            }
        }
    }
    if number::is_digits(number::without_sign(text)) {
        assert forall|i: int| 0 <= i < text.len() implies lower[i] == text[i] by {
            let b = number::without_sign(text);
            if text[0] == '+' && i > 0 {
                assert(number::is_digit(b[i - 1]));
            } else if text[0] != '+' {
                assert(number::is_digit(b[i]));
            }
        }
        assert(lower =~= text);
    }
}

/// Behind characters that are no backslashes, a pattern that starts with one is
/// first found where they end.
proof fn first_behind_other_characters(
    others: Seq<char>,
    pattern: Seq<char>,
    rest: Seq<char>,
    from: int,
)
    requires
        forall|i: int| 0 <= i < others.len() ==> #[trigger] others[i] != '\\',
        pattern.len() > 0,
        pattern[0] == '\\',
        0 <= from <= others.len(),
    ensures
        text::first_occurrence(others + pattern + rest, pattern, from) == Some(others.len() as int),
    decreases others.len() - from,
{
    let text = others + pattern + rest;
    if from == others.len() {
        assert(text.subrange(from, from + pattern.len()) == pattern);
    } else {
        assert(text[from] == others[from]);
        if text::occurs_at(text, pattern, from) {
            assert(text.subrange(from, from + pattern.len())[0] == pattern[0]);
        }
        first_behind_other_characters(others, pattern, rest, from + 1);
    }
}

/// Only a path with these four parts, of which two are numbers, names a
/// partition.
#[verifier::spinoff_prover]
pub proof fn only_arc_paths_name_partitions(path: Seq<char>)
    requires
        arc_device_number(path) is Some,
    ensures
        exists|prefix: Seq<char>, disk: Seq<char>, middle: Seq<char>, partition: Seq<char>|
            {
                &&& #[trigger] are_arc_parts(prefix, disk, middle, partition)
                &&& prefix + disk + middle + partition == path
                &&& number::u32_of(disk) is Some
                &&& number::u32_of(partition) is Some
            },
{
    let lower = text::ascii_lowercase(path);
    let head = "\\device\\harddisk"@;
    let mid = "\\partition"@;
    let suffix = lower.skip(head.len() as int);
    let at = text::first_occurrence(suffix, mid, 0)->0;
    let h = head.len() as int;
    let m = mid.len() as int;
    let prefix = path.take(h);
    let disk = path.subrange(h, h + at);
    let middle = path.subrange(h + at, h + at + m);
    let partition = path.skip(h + at + m);
    text::only_ascii_capitals_are_lowered(path);
    text::pattern_is_found_where_it_stands(suffix, mid, 0);
    assert(prefix + disk + middle + partition =~= path);
    assert(head == text::ascii_lowercase(prefix)) by {
        lowered_piece(path, 0, h);
        assert(path.subrange(0, h) == prefix);
        assert(lower.subrange(0, h) =~= head);
    }
    assert(mid == text::ascii_lowercase(middle)) by {
        lowered_piece(path, h + at, h + at + m);
        assert forall|i: int| 0 <= i < m implies lower.subrange(h + at, h + at + m)[i] == mid[i] by {
            assert(suffix[at + i] == mid[i]);
        }
        assert(lower.subrange(h + at, h + at + m) =~= mid);
    }
    assert(suffix.take(at) == text::ascii_lowercase(disk)) by {
        lowered_piece(path, h, h + at);
        assert(suffix.take(at) =~= lower.subrange(h, h + at));
    }
    assert(suffix.skip(at + m) == text::ascii_lowercase(partition)) by {
        lowered_piece(path, h + at + m, path.len() as int);
        assert(partition =~= path.subrange(h + at + m, path.len() as int));
        assert(suffix.skip(at + m) =~= lower.subrange(h + at + m, path.len() as int));
    }
    lowered_number(disk);
    lowered_number(partition);
    number_has_no_backslash(disk);
    arc_words(prefix, middle);
    assert(are_arc_parts(prefix, disk, middle, partition));
}

/// The lower case of a piece is the piece of the lower case.
proof fn lowered_piece(text: Seq<char>, i: int, j: int)
    requires
        0 <= i <= j <= text.len(),
    ensures
        text::ascii_lowercase(text.subrange(i, j)) == text::ascii_lowercase(text).subrange(i, j),
{
    assert(text::ascii_lowercase(text.subrange(i, j)) =~= text::ascii_lowercase(text).subrange(
        i,
        j,
    ));
}

/// A number holds no backslash.
proof fn number_has_no_backslash(text: Seq<char>)
    requires
        number::u32_of(text) is Some,
    ensures
        !text.contains('\\'),
{
    if text.contains('\\') {
        let i = text.index_of('\\');
        let digits = number::without_sign(text);
        if text[0] == '+' {
            assert(number::is_digit(digits[i - 1]));
        } else {
            assert(number::is_digit(digits[i]));
        }
    }
}

/// Texts with the words of the path as their lower case are these words but for
/// the case of their letters.
proof fn arc_words(prefix: Seq<char>, middle: Seq<char>)
    requires
        text::ascii_lowercase(prefix) == "\\device\\harddisk"@,
        text::ascii_lowercase(middle) == "\\partition"@,
    ensures
        are_arc_parts(prefix, Seq::empty(), middle, Seq::empty()),
{
    reveal_strlit("\\device\\harddisk");
    reveal_strlit("\\partition");
    text::only_ascii_capitals_are_lowered(prefix);
    text::only_ascii_capitals_are_lowered(middle);
    assert(text::ascii_lowercase(prefix) =~= seq![
        '\\', 'd', 'e', 'v', 'i', 'c', 'e', '\\', 'h', 'a', 'r', 'd', 'd', 'i', 's', 'k',
    ]);
    assert(text::ascii_lowercase(middle) =~= seq![
        '\\', 'p', 'a', 'r', 't', 'i', 't', 'i', 'o', 'n',
    ]);
    lower_case_of(prefix);
    lower_case_of(middle);
}

/// A text is its lower case but for the case of its letters.
proof fn lower_case_of(text: Seq<char>)
    ensures
        same_but_for_case(text, text::ascii_lowercase(text)),
{
    text::only_ascii_capitals_are_lowered(text);
    let lower = text::ascii_lowercase(text);
    assert forall|i: int| 0 <= i < text.len() implies #[trigger] text[i] == lower[i] || (97
        <= lower[i] as int <= 122 && text[i] as int + 32 == lower[i] as int) by {
        let same = lower[i] == text[i];
    }
}

/// The path that opens a whole disk is `\\.\PhysicalDrive` and the number of the
/// disk, in digits.
pub proof fn physical_drive_names_its_disk(disk: u32)
    ensures
        physical_drive(disk).len() > 17,
        physical_drive(disk).take(17) == seq![
            '\\', '\\', '.', '\\', 'P', 'h', 'y', 's', 'i', 'c', 'a', 'l', 'D', 'r', 'i', 'v', 'e',
        ],
        number::u32_of(physical_drive(disk).skip(17)) == Some(disk),
        physical_drive(disk)[17] == '0' ==> physical_drive(disk).len() == 18,
        physical_drive(disk)[17] != '+',
{
    reveal_strlit("\\\\.\\PhysicalDrive");
    number::decimal_reads_back(disk);
    number::decimal_has_no_leading_zero(disk as nat);
    let text = number::decimal(disk as nat);
    assert(physical_drive(disk).skip(17) =~= text);
    assert(physical_drive(disk)[17] == text[0]);
}

/// The names under which links and devices are opened end with all of the name
/// that is given, behind `\ArcName\` and `\\?\GLOBALROOT`.
pub proof fn opened_names_end_with_the_given_one(name: Seq<char>)
    ensures
        arc_link_name(name).len() == 9 + name.len(),
        arc_link_name(name).take(9) == seq!['\\', 'A', 'r', 'c', 'N', 'a', 'm', 'e', '\\'],
        arc_link_name(name).skip(9) == name,
        global_path(name).len() == 14 + name.len(),
        global_path(name).take(14) == seq![
            '\\', '\\', '?', '\\', 'G', 'L', 'O', 'B', 'A', 'L', 'R', 'O', 'O', 'T',
        ],
        global_path(name).skip(14) == name,
{
    reveal_strlit("\\ArcName\\");
    reveal_strlit("\\\\?\\GLOBALROOT");
}

} // verus!
