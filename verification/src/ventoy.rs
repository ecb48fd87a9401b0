//! What Ventoy tells the system that it booted: which image, on which
//! partition of which disk.

use vstd::prelude::*;

use crate::path;
use crate::text;

verus! {

/// The size of the runtime parameter.
pub const VENTOY_OS_PARAM_SIZE: usize = 512;

/// Where the identifier of the disk stands in the parameter.
pub const VENTOY_DISK_GUID_OFFSET: usize = 17;

/// Where the number of the partition stands in the parameter.
pub const VENTOY_PARTITION_ID_OFFSET: usize = 41;

/// Where the path of the image stands in the parameter.
pub const VENTOY_IMAGE_PATH_OFFSET: usize = 45;

/// How many bytes the parameter has for the path of the image.
pub const VENTOY_IMAGE_PATH_LENGTH: usize = 384;

/// Where the identifier of the disk stands in the first sector of the disk.
pub const VENTOY_DISK_GUID_SECTOR_OFFSET: usize = 384;

/// The size of a sector.
pub const SECTOR_SIZE: usize = 512;

/// The bytes that the parameter starts with.
pub const VENTOY_MAGIC: [u8; 16] = [
    0x20, 0x20, 0x77, 0x77, 0x77, 0x2e, 0x76, 0x65, 0x6e, 0x74, 0x6f, 0x79, 0x2e, 0x6e, 0x65, 0x74,
];

/// The error that Windows leaves behind where a privilege could not be
/// assigned to a token that does not hold it.
pub const ERROR_NOT_ALL_ASSIGNED: u32 = 1300;

/// The runtime parameter of Ventoy.
#[derive(Debug)]
pub struct VentoyOsParam {
    /// The identifier of the disk that holds the image.
    pub disk_guid: [u8; 16],
    /// The number of the partition that holds the image.
    pub partition_number: u32,
    /// The path of the image below the root of its volume.
    pub image_path: String,
}

/// What the runtime parameter of Ventoy says.
pub struct ParamFacts {
    pub disk_guid: Seq<u8>,
    pub partition_number: u32,
    pub image_path: Seq<char>,
}

impl View for VentoyOsParam {
    type V = ParamFacts;

    open spec fn view(&self) -> ParamFacts {
        ParamFacts {
            disk_guid: self.disk_guid@,
            partition_number: self.partition_number,
            image_path: self.image_path@,
        }
    }
}

/// What an optional parameter says.
pub open spec fn optional_facts(param: Option<VentoyOsParam>) -> Option<ParamFacts> {
    match param {
        Some(param) => Some(param@),
        None => None,
    }
}

/// The sum of bytes.
pub open spec fn byte_sum(bytes: Seq<u8>) -> int
    decreases bytes.len(),
{
    if bytes.len() == 0 {
        0
    } else {
        byte_sum(bytes.drop_last()) + bytes.last()
    }
}

/// The first position, from `from` on, at which a byte is zero.
pub open spec fn first_zero(bytes: Seq<u8>, from: int) -> Option<int>
    decreases bytes.len() - from,
{
    if from >= bytes.len() {
        None
    } else if bytes[from] == 0 {
        Some(from)
    } else {
        first_zero(bytes, from + 1)
    }
}

/// The path below the root of a volume that the bytes of an image path name.
pub open spec fn image_path_of(bytes: Seq<u8>) -> Seq<char> {
    text::backslashed(text::without_leading_separators(vstd::utf8::decode_utf8(bytes)))
}

/// Whether `buffer` has the size of a parameter, starts with the magic bytes
/// and sums up to zero, modulo 256.
pub open spec fn is_ventoy_block(buffer: Seq<u8>) -> bool {
    &&& buffer.len() == VENTOY_OS_PARAM_SIZE
    &&& buffer.take(16) == VENTOY_MAGIC@
    &&& byte_sum(buffer) % 256 == 0
}

/// The bytes that a parameter has for the path of the image.
pub open spec fn image_field(buffer: Seq<u8>) -> Seq<u8> {
    buffer.subrange(
        VENTOY_IMAGE_PATH_OFFSET as int,
        VENTOY_IMAGE_PATH_OFFSET + VENTOY_IMAGE_PATH_LENGTH,
    )
}

/// The number of the partition in a parameter: two bytes, low byte first.
pub open spec fn partition_field(buffer: Seq<u8>) -> int {
    buffer[VENTOY_PARTITION_ID_OFFSET as int] + 256 * buffer[VENTOY_PARTITION_ID_OFFSET + 1]
}

/// What the parameter in `buffer` says. There is none where the block is not
/// sound, where the path of the image has no end, is no UTF-8 or is no path
/// below a root, or where the number of the partition is zero.
pub open spec fn param_in(buffer: Seq<u8>) -> Option<ParamFacts> {
    if !is_ventoy_block(buffer) {
        None
    } else {
        match first_zero(image_field(buffer), 0) {
            None => None,
            Some(end) => {
                let bytes = image_field(buffer).take(end);
                if !vstd::utf8::valid_utf8(bytes) || partition_field(buffer) == 0
                    || !path::is_relative(image_path_of(bytes)) {
                    None
                } else {
                    Some(
                        ParamFacts {
                            disk_guid: buffer.subrange(
                                VENTOY_DISK_GUID_OFFSET as int,
                                VENTOY_DISK_GUID_OFFSET + 16,
                            ),
                            partition_number: partition_field(buffer) as u32,
                            image_path: image_path_of(bytes),
                        },
                    )
                }
            },
        }
    }
}

/// What the first parameter in `table`, from position `from` on, says.
pub open spec fn param_in_table(table: Seq<u8>, from: int) -> Option<ParamFacts>
    decreases table.len() - from,
{
    if from + VENTOY_OS_PARAM_SIZE > table.len() {
        None
    } else {
        let here = param_in(table.subrange(from, from + VENTOY_OS_PARAM_SIZE));
        if here is Some {
            here
        } else {
            param_in_table(table, from + 1)
        }
    }
}

/// `std::str::from_utf8`: the text that bytes write in UTF-8. There is one
/// exactly where the bytes are valid UTF-8.
#[verifier::external_body]
fn utf8_text(bytes: &[u8]) -> (r: Option<&str>)
    ensures
        r is Some <==> vstd::utf8::valid_utf8(bytes@),
        r matches Some(text) ==> text@ == vstd::utf8::decode_utf8(bytes@),
{
    std::str::from_utf8(bytes).ok()
}

/// Reads the runtime parameter of Ventoy.
pub fn parse_ventoy_os_param(buffer: &[u8]) -> (r: Option<VentoyOsParam>)
    ensures
        optional_facts(r) == param_in(buffer@),
{
    if buffer.len() != VENTOY_OS_PARAM_SIZE || !starts_with_magic(buffer) || wrapping_sum(buffer)
        != 0 {
        return None;
    }
    let disk_guid = guid_at(buffer, VENTOY_DISK_GUID_OFFSET);
    let low: u32 = buffer[VENTOY_PARTITION_ID_OFFSET] as u32;
    let high: u32 = buffer[VENTOY_PARTITION_ID_OFFSET + 1] as u32;
    let partition_number: u32 = low + 256 * high;
    let field = vstd::slice::slice_subrange(
        buffer,
        VENTOY_IMAGE_PATH_OFFSET,
        VENTOY_IMAGE_PATH_OFFSET + VENTOY_IMAGE_PATH_LENGTH,
    );
    assert(field@ == image_field(buffer@));
    let end: usize = match zero_position(field) {
        Some(end) => end,
        None => {
            return None;
        },
    };
    let bytes = vstd::slice::slice_subrange(field, 0, end);
    assert(bytes@ == image_field(buffer@).take(end as int));
    let decoded = match utf8_text(bytes) {
        Some(decoded) => text::chars_of(decoded),
        None => {
            return None;
        },
    };
    let image_path = text::to_backslashes(text::skip_separators(&decoded));
    assert(image_path@ == image_path_of(bytes@));
    if partition_number == 0 {
        return None;
    }
    match path::validate(&image_path) {
        Ok(()) => Some(
            VentoyOsParam { disk_guid, partition_number, image_path: text::text_of(&image_path) },
        ),
        Err(_) => None,
    }
}

/// Whether a buffer starts with the magic bytes.
fn starts_with_magic(buffer: &[u8]) -> (r: bool)
    requires
        buffer.len() >= 16,
    ensures
        r == (buffer@.take(16) == VENTOY_MAGIC@),
{
    let magic: [u8; 16] = VENTOY_MAGIC;
    let mut i: usize = 0;
    while i < 16
        invariant
            i <= 16,
            buffer.len() >= 16,
            magic == VENTOY_MAGIC,
            forall|k: int| 0 <= k < i ==> buffer@[k] == magic@[k],
        decreases 16 - i,
    {
        if buffer[i] != magic[i] {
            assert(buffer@.take(16)[i as int] != VENTOY_MAGIC@[i as int]);
            return false;
        }
        i = i + 1;
    }
    assert(buffer@.take(16) =~= VENTOY_MAGIC@);
    true
}

/// The sum of bytes, modulo 256.
fn wrapping_sum(bytes: &[u8]) -> (sum: u8)
    ensures
        sum == byte_sum(bytes@) % 256,
{
    let mut sum: u8 = 0;
    let mut i: usize = 0;
    while i < bytes.len()
        invariant
            i <= bytes.len(),
            sum == byte_sum(bytes@.take(i as int)) % 256,
        decreases bytes.len() - i,
    {
        assert(bytes@.take(i + 1).drop_last() == bytes@.take(i as int));
        sum = sum.wrapping_add(bytes[i]);
        i = i + 1;
    }
    assert(bytes@.take(i as int) == bytes@);
    sum
}

/// The position of the first zero.
fn zero_position(bytes: &[u8]) -> (r: Option<usize>)
    ensures
        r is Some == first_zero(bytes@, 0) is Some,
        r matches Some(end) ==> end < bytes.len() && first_zero(bytes@, 0) == Some(end as int),
{
    let mut i: usize = 0;
    while i < bytes.len()
        invariant
            i <= bytes.len(),
            first_zero(bytes@, 0) == first_zero(bytes@, i as int),
        decreases bytes.len() - i,
    {
        if bytes[i] == 0 {
            return Some(i);
        }
        i = i + 1;
    }
    None
}

/// The sixteen bytes from `at` on.
fn guid_at(bytes: &[u8], at: usize) -> (guid: [u8; 16])
    requires
        at + 16 <= bytes.len(),
    ensures
        guid@ == bytes@.subrange(at as int, at + 16),
{
    let mut guid: [u8; 16] = [0u8; 16];
    let mut i: usize = 0;
    while i < 16
        invariant
            i <= 16,
            at + 16 <= bytes.len(),
            forall|k: int| 0 <= k < i ==> guid@[k] == bytes@[at + k],
        decreases 16 - i,
    {
        guid[i] = bytes[at + i];
        i = i + 1;
    }
    assert(guid@ =~= bytes@.subrange(at as int, at + 16));
    guid
}

/// Reads the first parameter that stands anywhere in a firmware table.
pub fn find_param_in_table(table: &[u8]) -> (r: Option<VentoyOsParam>)
    ensures
        optional_facts(r) == param_in_table(table@, 0),
{
    let mut from: usize = 0;
    while VENTOY_OS_PARAM_SIZE <= table.len() - from
        invariant
            from <= table.len(),
            param_in_table(table@, from as int) == param_in_table(table@, 0),
        decreases table.len() - from,
    {
        let block = vstd::slice::slice_subrange(table, from, from + VENTOY_OS_PARAM_SIZE);
        let param = parse_ventoy_os_param(block);
        if param.is_some() {
            return param;
        }
        from = from + 1;
    }
    None
}

/// Why the identifier of a disk is not known.
#[derive(Clone, Copy, Debug, PartialEq, Eq, Structural)]
pub enum SectorError {
    /// Less than a sector was read.
    Short,
}

/// The identifier that Ventoy gave a disk, from the first sector of the disk
/// and the number of bytes that were read of it.
pub fn disk_guid_in_sector(sector: &[u8; 512], bytes_read: u32) -> (r: Result<
    [u8; 16],
    SectorError,
>)
    ensures
        bytes_read != SECTOR_SIZE ==> r == Err::<[u8; 16], SectorError>(SectorError::Short),
        bytes_read == SECTOR_SIZE ==> (r matches Ok(guid) && guid@ == sector@.subrange(
            VENTOY_DISK_GUID_SECTOR_OFFSET as int,
            VENTOY_DISK_GUID_SECTOR_OFFSET + 16,
        )),
        bytes_read == 512 ==> r is Ok && forall|k: int|
            #![trigger r->Ok_0@[k]]
            0 <= k < 16 ==> r->Ok_0@[k] == sector@[384 + k],
{
    if bytes_read as usize != SECTOR_SIZE {
        Err(SectorError::Short)
    } else {
        Ok(guid_at(sector, VENTOY_DISK_GUID_SECTOR_OFFSET))
    }
}

/// Why the privilege to read firmware variables is not held.
#[derive(Clone, Copy, Debug, PartialEq, Eq, Structural)]
pub enum PrivilegeError {
    /// The token of the process does not hold the privilege.
    NotAssigned,
}

/// Whether a privilege was assigned, from the error that adjusting the token
/// left behind: the adjustment itself succeeds without assigning it.
pub fn privilege_assigned(last_error: u32) -> (r: Result<(), PrivilegeError>)
    ensures
        last_error == ERROR_NOT_ALL_ASSIGNED ==> r == Err::<(), PrivilegeError>(
            PrivilegeError::NotAssigned,
        ),
        last_error != ERROR_NOT_ALL_ASSIGNED ==> r == Ok::<(), PrivilegeError>(()),
{
    if last_error == ERROR_NOT_ALL_ASSIGNED {
        Err(PrivilegeError::NotAssigned)
    } else {
        Ok(())
    }
}

/// What the parameter at position `at` of a table says.
pub open spec fn param_at(table: Seq<u8>, at: int) -> Option<ParamFacts> {
    param_in(table.subrange(at, at + VENTOY_OS_PARAM_SIZE))
}

/// Whether the first parameter of a table, from position `from` on, stands at
/// position `at`.
pub open spec fn is_first_param(table: Seq<u8>, from: int, at: int) -> bool {
    &&& from <= at
    &&& at + VENTOY_OS_PARAM_SIZE <= table.len()
    &&& param_at(table, at) is Some
    &&& forall|before: int| from <= before < at ==> #[trigger] param_at(table, before) is None
}

/// No parameter is found in a table exactly where no position holds one.
#[verifier::spinoff_prover]
pub proof fn no_param_where_none_stands(table: Seq<u8>, from: int)
    requires
        0 <= from,
    ensures
        param_in_table(table, from) is None <==> forall|at: int|
            from <= at && at + VENTOY_OS_PARAM_SIZE <= table.len() ==> #[trigger] param_at(
                table,
                at,
            ) is None,
    decreases table.len() - from,
{
    if from + VENTOY_OS_PARAM_SIZE <= table.len() {
        let here = param_at(table, from);
        if here is None {
            no_param_where_none_stands(table, from + 1);
        }
    }
}

/// The parameter that a table holds is found wherever it stands, and it is the
/// first of them.
#[verifier::spinoff_prover]
pub proof fn table_param_is_the_first(table: Seq<u8>, from: int)
    requires
        0 <= from,
    ensures
        param_in_table(table, from) is Some ==> exists|at: int| #[trigger]
            is_first_param(table, from, at) && param_at(table, at) == param_in_table(table, from),
    decreases table.len() - from,
{
    if from + VENTOY_OS_PARAM_SIZE <= table.len() {
        let here = param_at(table, from);
        if here is Some {
            assert(is_first_param(table, from, from));
        } else {
            table_param_is_the_first(table, from + 1);
            if param_in_table(table, from + 1) is Some {
                let at = choose|at: int| #[trigger]
                    is_first_param(table, from + 1, at) && param_at(table, at) == param_in_table(
                        table,
                        from + 1,
                    );
                assert(is_first_param(table, from, at));
            }
        }
    }
}

/// A parameter that was read names a partition by a number of 16 bits that is
/// not zero, and an image below the root of its volume, whose path holds neither
/// a slash nor a zero character.
pub proof fn read_param_is_sound(buffer: Seq<u8>)
    requires
        param_in(buffer) is Some,
    ensures
        0 < param_in(buffer)->0.partition_number <= 65535,
        param_in(buffer)->0.disk_guid.len() == 16,
        path::is_relative(param_in(buffer)->0.image_path),
        !param_in(buffer)->0.image_path.contains('/'),
        !param_in(buffer)->0.image_path.contains('\0'),
{
    let field = image_field(buffer);
    let end = first_zero(field, 0)->0;
    let bytes = field.take(end);
    let decoded = vstd::utf8::decode_utf8(bytes);
    let kept = text::without_leading_separators(decoded);
    let image = image_path_of(bytes);
    assert(0 <= buffer[VENTOY_PARTITION_ID_OFFSET as int] < 256);
    assert(0 <= buffer[VENTOY_PARTITION_ID_OFFSET + 1] < 256);
    first_zero_is_the_first(field, 0);
    decoded_without_zero(bytes);
    kept_characters(decoded);
    assert forall|i: int| 0 <= i < image.len() implies image[i] != '/' && image[i] != '\0' by {
        assert(decoded.contains(kept[i]));
    }
}

/// Before the first zero there is none.
proof fn first_zero_is_the_first(bytes: Seq<u8>, from: int)
    requires
        0 <= from,
        first_zero(bytes, from) is Some,
    ensures
        from <= first_zero(bytes, from)->0 < bytes.len(),
        forall|i: int| from <= i < first_zero(bytes, from)->0 ==> #[trigger] bytes[i] != 0,
    decreases bytes.len() - from,
{
    if from < bytes.len() && bytes[from] != 0 {
        first_zero_is_the_first(bytes, from + 1);
    }
}

/// Bytes without a zero write no zero character.
proof fn decoded_without_zero(bytes: Seq<u8>)
    requires
        vstd::utf8::valid_utf8(bytes),
        forall|i: int| 0 <= i < bytes.len() ==> #[trigger] bytes[i] != 0,
    ensures
        !vstd::utf8::decode_utf8(bytes).contains('\0'),
    decreases bytes.len(),
{
    let decoded = vstd::utf8::decode_utf8(bytes);
    if bytes.len() > 0 {
        let rest = vstd::utf8::pop_first_scalar(bytes);
        assert forall|i: int| 0 <= i < rest.len() implies #[trigger] rest[i] != 0 by {
            assert(rest[i] == bytes[i + vstd::utf8::length_of_first_scalar(bytes)]);
        }
        decoded_without_zero(rest);
        vstd::utf8::decode_utf8_first_scalar(bytes);
        assert(0u32 & 0x7F == 0) by (bit_vector);
        assert(decoded[0] != '\0') by {
            assert(vstd::utf8::take_first_scalar(bytes)[0] == bytes[0]);
        }
        assert forall|i: int| 0 <= i < decoded.len() implies decoded[i] != '\0' by {
            if i > 0 {
                assert(decoded[i] == vstd::utf8::decode_utf8(rest)[i - 1]);
                assert(vstd::utf8::decode_utf8(rest).contains(decoded[i]));
            }
        }
    }
}

/// Dropping leading separators adds no character.
proof fn kept_characters(chars: Seq<char>)
    ensures
        forall|i: int|
            0 <= i < text::without_leading_separators(chars).len() ==> chars.contains(
                #[trigger] text::without_leading_separators(chars)[i],
            ),
    decreases chars.len(),
{
    let kept = text::without_leading_separators(chars);
    if chars.len() > 0 && text::is_separator(chars[0]) {
        let rest = chars.drop_first();
        kept_characters(rest);
        assert(kept == text::without_leading_separators(rest));
        assert forall|i: int| 0 <= i < kept.len() implies chars.contains(#[trigger] kept[i]) by {
            assert(rest.contains(text::without_leading_separators(rest)[i]));
            assert(chars[rest.index_of(kept[i]) + 1] == kept[i]);
        }
    }
}

/// A block of which a single byte was changed is not taken for a parameter.
pub proof fn one_changed_byte_is_noticed(buffer: Seq<u8>, at: int, byte: u8)
    requires
        param_in(buffer) is Some,
        0 <= at < buffer.len(),
        byte != buffer[at],
    ensures
        param_in(buffer.update(at, byte)) is None,
{
    sum_after_update(buffer, at, byte);
    assert(0 <= buffer[at] < 256);
}

/// Changing a byte changes the sum by as much.
proof fn sum_after_update(bytes: Seq<u8>, at: int, byte: u8)
    requires
        0 <= at < bytes.len(),
    ensures
        byte_sum(bytes.update(at, byte)) == byte_sum(bytes) - bytes[at] + byte,
    decreases bytes.len(),
{
    let changed = bytes.update(at, byte);
    if at == bytes.len() - 1 {
        assert(changed.drop_last() == bytes.drop_last());
    } else {
        sum_after_update(bytes.drop_last(), at, byte);
        assert(changed.drop_last() == bytes.drop_last().update(at, byte));
    }
}

/// What is said of a parameter is what it holds.
pub proof fn param_says_what_it_holds(param: VentoyOsParam, optional: Option<VentoyOsParam>)
    ensures
        param@.disk_guid == param.disk_guid@,
        param@.partition_number == param.partition_number,
        param@.image_path == param.image_path@,
        optional_facts(optional) is Some <==> optional is Some,
        optional is Some ==> optional_facts(optional)->0 == optional->0@,
{
}

/// The sum of bytes counts each of them once, with its value.
pub proof fn byte_sum_counts_every_byte(a: Seq<u8>, b: Seq<u8>, byte: u8)
    ensures
        byte_sum(Seq::empty()) == 0,
        byte_sum(seq![byte]) == byte,
        byte_sum(a + b) == byte_sum(a) + byte_sum(b),
    decreases b.len(),
{
    assert(seq![byte].drop_last() == Seq::<u8>::empty());
    assert(byte_sum(Seq::<u8>::empty()) == 0);
    if b.len() == 0 {
        assert(a + b == a);
    } else {
        byte_sum_counts_every_byte(a, b.drop_last(), byte);
        assert((a + b).drop_last() == a + b.drop_last());
    }
}

/// Whether a block has the size of a parameter, starts with two spaces and
/// `www.ventoy.net`, has bytes that sum up to zero modulo 256, and names a
/// partition whose number is not zero.
pub open spec fn has_sound_frame(block: Seq<u8>) -> bool {
    &&& block.len() == 512
    &&& block[0] == 32 && block[1] == 32
    &&& block[2] == 119 && block[3] == 119 && block[4] == 119 && block[5] == 46
    &&& block[6] == 118 && block[7] == 101 && block[8] == 110 && block[9] == 116
    &&& block[10] == 111 && block[11] == 121 && block[12] == 46
    &&& block[13] == 110 && block[14] == 101 && block[15] == 116
    &&& byte_sum(block) % 256 == 0
    &&& block[41] != 0 || block[42] != 0
}

/// Whether a parameter has the identifier and the number of the partition that
/// a block holds, byte by byte.
pub open spec fn has_fields_of(param: ParamFacts, block: Seq<u8>) -> bool {
    &&& param.disk_guid.len() == 16
    &&& forall|k: int| 0 <= k < 16 ==> #[trigger] param.disk_guid[k] == block[17 + k]
    &&& param.partition_number == block[41] + 256 * block[42]
}

/// A block with the frame of a parameter is sound.
proof fn sound_frame(block: Seq<u8>)
    requires
        block.len() == 512,
    ensures
        has_sound_frame(block) <==> is_ventoy_block(block) && partition_field(block) != 0,
{
    let magic = VENTOY_MAGIC@;
    let start = block.take(16);
    assert(magic =~= seq![
        32u8, 32, 119, 119, 119, 46, 118, 101, 110, 116, 111, 121, 46, 110, 101, 116,
    ]);
    if has_sound_frame(block) {
        assert(start =~= magic);
    }
    if start == magic {
        assert(forall|k: int| 0 <= k < 16 ==> #[trigger] start[k] == magic[k]);
        assert(forall|k: int| 0 <= k < 16 ==> #[trigger] start[k] == block[k]);
        assert(block[0] == start[0] && block[1] == start[1] && block[2] == start[2] && block[3]
            == start[3]);
        assert(block[4] == start[4] && block[5] == start[5] && block[6] == start[6] && block[7]
            == start[7]);
        assert(block[8] == start[8] && block[9] == start[9] && block[10] == start[10] && block[11]
            == start[11]);
        assert(block[12] == start[12] && block[13] == start[13] && block[14] == start[14]
            && block[15] == start[15]);
    }
    assert(0 <= block[41] && 0 <= block[42]);
}

/// A sound block is read back: where its image field holds a path that is
/// accepted, in UTF-8, with slashes or backslashes before it or not, and a zero
/// byte behind it, that path is read, with a backslash for each slash, along with
/// the identifier and the partition. No character of the path but a zero ends it.
#[verifier::spinoff_prover]
pub proof fn image_path_is_read_back(block: Seq<u8>, lead: Seq<char>, image: Seq<char>)
    requires
        has_sound_frame(block),
        forall|i: int| 0 <= i < lead.len() ==> #[trigger] lead[i] == '/' || lead[i] == '\\',
        forall|i: int| 0 <= i < image.len() ==> #[trigger] image[i] != '\0',
        path::is_relative(image),
        vstd::utf8::encode_utf8(lead + image).len() < 384,
        forall|k: int|
            0 <= k < vstd::utf8::encode_utf8(lead + image).len() ==> block[45 + k]
                == #[trigger] vstd::utf8::encode_utf8(lead + image)[k],
        block[45 + vstd::utf8::encode_utf8(lead + image).len() as int] == 0,
    ensures
        param_in(block) is Some,
        has_fields_of(param_in(block)->0, block),
        param_in(block)->0.image_path.len() == image.len(),
        forall|i: int|
            #![trigger image[i]]
            0 <= i < image.len() ==> param_in(block)->0.image_path[i] == (if image[i] == '/' {
                '\\'
            } else {
                image[i]
            }),
{
    let all = lead + image;
    let bytes = vstd::utf8::encode_utf8(all);
    let field = image_field(block);
    let end = bytes.len() as int;
    sound_frame(block);
    assert forall|i: int| 0 <= i < all.len() implies #[trigger] all[i] != '\0' by {
        if i >= lead.len() {
            assert(all[i] == image[i - lead.len()]);
        } else {
            assert(all[i] == lead[i]);
        }
    }
    encoded_without_zero(all);
    vstd::utf8::encode_utf8_valid_utf8(all);
    vstd::utf8::encode_utf8_decode_utf8(all);
    assert forall|k: int| 0 <= k < end implies #[trigger] field[k] != 0 by {
        assert(field[k] == block[45 + k]);
        assert(bytes[k] != 0);
    }
    assert(field[end] == block[45 + end]);
    zero_ends_the_field(field, 0, end);
    assert(field.take(end) =~= bytes) by {
        assert forall|k: int| 0 <= k < end implies field[k] == bytes[k] by {
            assert(field[k] == block[45 + k]);
        }
    }
    path::rooted_paths_by_character(image);
    leading_separators_go(lead, image);
    text::only_slashes_are_rewritten(image);
    path::backslashes_keep_relative(image);
    assert(image_path_of(bytes) == text::backslashed(image));
    assert(0 <= block[41] < 256 && 0 <= block[42] < 256);
    let guid = block.subrange(17, 33);
    assert forall|k: int| 0 <= k < 16 implies #[trigger] guid[k] == block[17 + k] by {}
}

/// Separators before a path that starts with none are the ones dropped.
proof fn leading_separators_go(lead: Seq<char>, rest: Seq<char>)
    requires
        forall|i: int| 0 <= i < lead.len() ==> #[trigger] lead[i] == '/' || lead[i] == '\\',
        rest.len() > 0,
        rest[0] != '/',
        rest[0] != '\\',
    ensures
        text::without_leading_separators(lead + rest) == rest,
    decreases lead.len(),
{
    if lead.len() == 0 {
        assert(lead + rest == rest);
    } else {
        assert((lead + rest)[0] == lead[0]);
        assert((lead + rest).drop_first() == lead.drop_first() + rest);
        assert forall|i: int| 0 <= i < lead.drop_first().len() implies #[trigger] lead.drop_first()[i]
            == '/' || lead.drop_first()[i] == '\\' by {
            assert(lead.drop_first()[i] == lead[i + 1]);
        }
        leading_separators_go(lead.drop_first(), rest);
    }
}

/// The first zero of bytes is where one stands with none before it.
proof fn zero_ends_the_field(bytes: Seq<u8>, from: int, end: int)
    requires
        0 <= from <= end < bytes.len(),
        bytes[end] == 0,
        forall|i: int| from <= i < end ==> #[trigger] bytes[i] != 0,
    ensures
        first_zero(bytes, from) == Some(end),
    decreases end - from,
{
    if from < end {
        assert(bytes[from] != 0);
        zero_ends_the_field(bytes, from + 1, end);
    }
}

/// A text without zero characters is written without zero bytes.
proof fn encoded_without_zero(chars: Seq<char>)
    requires
        forall|i: int| 0 <= i < chars.len() ==> #[trigger] chars[i] != '\0',
    ensures
        forall|k: int|
            0 <= k < vstd::utf8::encode_utf8(chars).len() ==> #[trigger] vstd::utf8::encode_utf8(
                chars,
            )[k] != 0,
    decreases chars.len(),
{
    if chars.len() > 0 {
        let rest = chars.drop_first();
        let first = vstd::utf8::encode_scalar(chars[0] as u32);
        assert forall|i: int| 0 <= i < rest.len() implies #[trigger] rest[i] != '\0' by {
            assert(rest[i] == chars[i + 1]);
        }
        encoded_without_zero(rest);
        scalar_without_zero(chars[0]);
        let all = vstd::utf8::encode_utf8(chars);
        assert forall|k: int| 0 <= k < all.len() implies #[trigger] all[k] != 0 by {
            if k < first.len() {
                assert(all[k] == first[k]);
            } else {
                assert(all[k] == vstd::utf8::encode_utf8(rest)[k - first.len()]);
            }
        }
    }
}

/// A character other than zero is written without zero bytes.
proof fn scalar_without_zero(c: char)
    requires
        c != '\0',
    ensures
        forall|k: int|
            0 <= k < vstd::utf8::encode_scalar(c as u32).len() ==> #[trigger]
                vstd::utf8::encode_scalar(c as u32)[k] != 0,
{
    let v = c as u32;
    assert(0 < v <= 0x7F ==> (v & 0x7F) as u8 != 0) by (bit_vector);
    assert(0xC0 | ((v >> 6) & 0x1F) as u8 != 0) by (bit_vector);
    assert(0xE0 | ((v >> 12) & 0x0F) as u8 != 0) by (bit_vector);
    assert(0xF0 | ((v >> 18) & 0x7) as u8 != 0) by (bit_vector);
    assert(0x80 | (v & 0x3F) as u8 != 0) by (bit_vector);
    assert(0x80 | ((v >> 6) & 0x3F) as u8 != 0) by (bit_vector);
    assert(0x80 | ((v >> 12) & 0x3F) as u8 != 0) by (bit_vector);
}

/// Whether the image path of a parameter is the one that a block writes: the
/// bytes of its image field up to the first zero, read as UTF-8, without the
/// slashes and backslashes at the start, and with a backslash for each slash.
pub open spec fn has_image_of(param: ParamFacts, block: Seq<u8>, end: int) -> bool {
    let written = vstd::utf8::decode_utf8(block.subrange(45, 45 + end));
    let dropped = written.len() - param.image_path.len();
    &&& 0 <= end < 384
    &&& block[45 + end] == 0
    &&& forall|k: int| 45 <= k < 45 + end ==> #[trigger] block[k] != 0
    &&& vstd::utf8::valid_utf8(block.subrange(45, 45 + end))
    &&& 0 <= dropped
    &&& forall|i: int| 0 <= i < dropped ==> #[trigger] written[i] == '/' || written[i] == '\\'
    &&& forall|i: int|
        #![trigger param.image_path[i]]
        0 <= i < param.image_path.len() ==> param.image_path[i] == (if written[dropped + i] == '/' {
            '\\'
        } else {
            written[dropped + i]
        })
}

/// Only a sound block is read, and what is read are its fields: the bytes of the
/// identifier, the number of the partition, low byte first, and the image path
/// up to the first zero byte.
#[verifier::spinoff_prover]
pub proof fn read_param_has_the_fields_of_the_block(block: Seq<u8>)
    requires
        param_in(block) is Some,
    ensures
        has_sound_frame(block),
        has_fields_of(param_in(block)->0, block),
        exists|end: int| #[trigger] has_image_of(param_in(block)->0, block, end),
        path::is_relative(param_in(block)->0.image_path),
{
    let field = image_field(block);
    let end = first_zero(field, 0)->0;
    let bytes = field.take(end);
    let written = vstd::utf8::decode_utf8(bytes);
    let param = param_in(block)->0;
    sound_frame(block);
    first_zero_is_the_first(field, 0);
    first_zero_is_zero(field, 0);
    assert(block[45 + end] == field[end]);
    assert forall|k: int| 45 <= k < 45 + end implies #[trigger] block[k] != 0 by {
        assert(field[k - 45] == block[k]);
    }
    assert(bytes =~= block.subrange(45, 45 + end));
    text::only_leading_separators_are_dropped(written);
    let kept = text::without_leading_separators(written);
    text::only_slashes_are_rewritten(kept);
    let dropped = written.len() - kept.len();
    assert forall|i: int| 0 <= i < kept.len() implies kept[i] == written[dropped + i] by {}
    assert(0 <= block[41] < 256 && 0 <= block[42] < 256);
    let guid = block.subrange(17, 33);
    assert forall|k: int| 0 <= k < 16 implies #[trigger] guid[k] == block[17 + k] by {}
    assert(has_image_of(param, block, end));
}

/// At the first zero there is a zero.
proof fn first_zero_is_zero(bytes: Seq<u8>, from: int)
    requires
        0 <= from,
        first_zero(bytes, from) is Some,
    ensures
        from <= first_zero(bytes, from)->0 < bytes.len(),
        bytes[first_zero(bytes, from)->0] == 0,
    decreases bytes.len() - from,
{
    if from < bytes.len() && bytes[from] != 0 {
        first_zero_is_zero(bytes, from + 1);
    }
}

/// A table is read as the first block of 512 of its bytes that is a parameter:
/// with `at` the position of such a block and none before it, what that block
/// says is what the table says.
pub proof fn table_is_read_at_its_first_param(table: Seq<u8>, at: int)
    requires
        0 <= at,
        at + 512 <= table.len(),
        param_in(table.subrange(at, at + 512)) is Some,
        forall|before: int|
            0 <= before < at ==> param_in(#[trigger] table.subrange(before, before + 512)) is None,
    ensures
        param_in_table(table, 0) == param_in(table.subrange(at, at + 512)),
{
    table_param_is_the_first(table, 0);
    no_param_where_none_stands(table, 0);
    assert(param_at(table, at) is Some);
    let found = choose|p: int| #[trigger]
        is_first_param(table, 0, p) && param_at(table, p) == param_in_table(table, 0);
    if at < found {
        assert(param_at(table, at) is None);
    } else if found < at {
        assert(param_in(table.subrange(found, found + 512)) is None);
    }
}

/// A table in which no block of 512 bytes is a parameter says nothing.
pub proof fn table_without_param_says_nothing(table: Seq<u8>)
    requires
        forall|at: int|
            0 <= at && at + 512 <= table.len() ==> param_in(
                #[trigger] table.subrange(at, at + 512),
            ) is None,
    ensures
        param_in_table(table, 0) is None,
{
    no_param_where_none_stands(table, 0);
    assert forall|at: int| 0 <= at && at + 512 <= table.len() implies #[trigger] param_at(
        table,
        at,
    ) is None by {
        assert(param_in(table.subrange(at, at + 512)) is None);
    }
}

} // verus!
