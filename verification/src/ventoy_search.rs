//! Finding the Ventoy data volume that holds the booted image.

use vstd::prelude::*;

use crate::request::{Answer, Computer, Question, Reply, Request, TableName};
use crate::text;
use crate::ventoy;
use crate::ventoy::{ParamFacts, VentoyOsParam};
use crate::volume;
use crate::volume::{Volume, VolumeFacts};

verus! {

/// The parameter that a firmware variable holds, from its size and the buffer
/// that it was read to.
pub open spec fn param_in_variable(size: u32, buffer: Seq<u8>) -> Option<ParamFacts> {
    if size == ventoy::VENTOY_OS_PARAM_SIZE {
        ventoy::param_in(buffer)
    } else {
        None
    }
}

/// The parameter that a firmware table holds, from the number of bytes that
/// were read and the buffer that they were read to.
pub open spec fn param_in_read_table(bytes_read: u32, table: Seq<u8>) -> Option<ParamFacts> {
    if bytes_read == 0 || bytes_read > table.len() {
        None
    } else {
        ventoy::param_in_table(table.take(bytes_read as int), 0)
    }
}

/// The parameter that a computer has in a firmware table.
pub open spec fn table_param(computer: Computer, table: TableName) -> Option<ParamFacts> {
    let size = (computer.table_size)(table);
    if size < ventoy::VENTOY_OS_PARAM_SIZE {
        None
    } else {
        let read = (computer.table)(table, size);
        param_in_read_table(read.0, read.1)
    }
}

/// The runtime parameter of a computer: that of the firmware variable, or else
/// that of the table of Ventoy, or else that of the boot table of iSCSI.
pub open spec fn param_of(computer: Computer) -> Option<ParamFacts> {
    let variable = param_in_variable(computer.ventoy_variable.0, computer.ventoy_variable.1);
    if variable is Some {
        variable
    } else if table_param(computer, TableName::Vtoy) is Some {
        table_param(computer, TableName::Vtoy)
    } else {
        table_param(computer, TableName::Ibft)
    }
}

/// How far the search for the runtime parameter has come.
#[derive(Debug)]
pub enum ParamSearch {
    /// The privilege to read the variable has to be acquired.
    Privilege,
    /// The variable has to be read.
    Variable,
    /// The size of this table has to be read.
    TableSize(TableName),
    /// This table, of this size, has to be read.
    Table(TableName, u32),
    /// The search is over.
    Done(Option<VentoyOsParam>),
}

/// What [`ParamSearch`] holds.
pub enum ParamSearchFacts {
    Privilege,
    Variable,
    TableSize(TableName),
    Table(TableName, u32),
    Done(Option<ParamFacts>),
}

impl View for ParamSearch {
    type V = ParamSearchFacts;

    open spec fn view(&self) -> ParamSearchFacts {
        match *self {
            ParamSearch::Privilege => ParamSearchFacts::Privilege,
            ParamSearch::Variable => ParamSearchFacts::Variable,
            ParamSearch::TableSize(table) => ParamSearchFacts::TableSize(table),
            ParamSearch::Table(table, size) => ParamSearchFacts::Table(table, size),
            ParamSearch::Done(param) => ParamSearchFacts::Done(ventoy::optional_facts(param)),
        }
    }
}

impl ParamSearchFacts {
    /// What has to be known next.
    pub open spec fn question(self) -> Option<Question> {
        match self {
            ParamSearchFacts::Privilege => Some(Question::SystemEnvironmentPrivilege),
            ParamSearchFacts::Variable => Some(Question::VentoyVariable),
            ParamSearchFacts::TableSize(table) => Some(Question::TableSize(table)),
            ParamSearchFacts::Table(table, size) => Some(Question::Table(table, size)),
            ParamSearchFacts::Done(_) => None,
        }
    }

    /// The search after a table that holds no parameter.
    pub open spec fn after(table: TableName) -> ParamSearchFacts {
        match table {
            TableName::Vtoy => ParamSearchFacts::TableSize(TableName::Ibft),
            TableName::Ibft => ParamSearchFacts::Done(None),
        }
    }

    /// The search after an answer. An answer to another question changes nothing.
    pub open spec fn step(self, answer: Answer) -> ParamSearchFacts {
        match (self, answer) {
            (ParamSearchFacts::Privilege, Answer::SystemEnvironmentPrivilege(_)) => {
                ParamSearchFacts::Variable
            },
            (ParamSearchFacts::Variable, Answer::VentoyVariable(size, buffer)) => {
                let param = param_in_variable(size, buffer);
                if param is Some {
                    ParamSearchFacts::Done(param)
                } else {
                    ParamSearchFacts::TableSize(TableName::Vtoy)
                }
            },
            (ParamSearchFacts::TableSize(table), Answer::TableSize(size)) => {
                if size < ventoy::VENTOY_OS_PARAM_SIZE {
                    Self::after(table)
                } else {
                    ParamSearchFacts::Table(table, size)
                }
            },
            (ParamSearchFacts::Table(table, _), Answer::Table(bytes_read, contents)) => {
                let param = param_in_read_table(bytes_read, contents);
                if param is Some {
                    ParamSearchFacts::Done(param)
                } else {
                    Self::after(table)
                }
            },
            _ => self,
        }
    }

    /// Whether what the search has found out is what `computer` answers.
    pub open spec fn agrees_with(self, computer: Computer) -> bool {
        let variable = param_in_variable(computer.ventoy_variable.0, computer.ventoy_variable.1);
        match self {
            ParamSearchFacts::Privilege => true,
            ParamSearchFacts::Variable => true,
            ParamSearchFacts::TableSize(table) => {
                &&& variable is None
                &&& table == TableName::Ibft ==> table_param(computer, TableName::Vtoy) is None
            },
            ParamSearchFacts::Table(table, size) => {
                &&& variable is None
                &&& table == TableName::Ibft ==> table_param(computer, TableName::Vtoy) is None
                &&& size == (computer.table_size)(table)
                &&& size >= ventoy::VENTOY_OS_PARAM_SIZE
            },
            ParamSearchFacts::Done(param) => param == param_of(computer),
        }
    }

    /// How many answers the search can still take.
    pub open spec fn remaining(self) -> int {
        match self {
            ParamSearchFacts::Privilege => 6,
            ParamSearchFacts::Variable => 5,
            ParamSearchFacts::TableSize(TableName::Vtoy) => 4,
            ParamSearchFacts::Table(TableName::Vtoy, _) => 3,
            ParamSearchFacts::TableSize(TableName::Ibft) => 2,
            ParamSearchFacts::Table(TableName::Ibft, _) => 1,
            ParamSearchFacts::Done(_) => 0,
        }
    }
}

impl ParamSearch {
    /// What has to be known next; nothing where the search is over.
    pub fn request(&self) -> (r: Option<Request>)
        ensures
            match r {
                Some(request) => self@.question() == Some(request@),
                None => self@.question() is None,
            },
    {
        match self {
            ParamSearch::Privilege => Some(Request::SystemEnvironmentPrivilege),
            ParamSearch::Variable => Some(Request::VentoyVariable),
            ParamSearch::TableSize(table) => Some(Request::TableSize(*table)),
            ParamSearch::Table(table, size) => Some(Request::Table(*table, *size)),
            ParamSearch::Done(_) => None,
        }
    }

    /// Takes an answer.
    pub fn answer(self, reply: Reply) -> (r: ParamSearch)
        ensures
            r@ == self@.step(reply@),
    {
        match (self, reply) {
            (ParamSearch::Privilege, Reply::SystemEnvironmentPrivilege(_)) => ParamSearch::Variable,
            (ParamSearch::Variable, Reply::VentoyVariable(size, buffer)) => {
                match read_variable(size, &buffer) {
                    Some(param) => ParamSearch::Done(Some(param)),
                    None => ParamSearch::TableSize(TableName::Vtoy),
                }
            },
            (ParamSearch::TableSize(table), Reply::TableSize(size)) => {
                if (size as usize) < ventoy::VENTOY_OS_PARAM_SIZE {
                    Self::next_table(table)
                } else {
                    ParamSearch::Table(table, size)
                }
            },
            (ParamSearch::Table(table, _), Reply::Table(bytes_read, contents)) => {
                match read_table(bytes_read, &contents) {
                    Some(param) => ParamSearch::Done(Some(param)),
                    None => Self::next_table(table),
                }
            },
            (search, _) => search,
        }
    }

    /// The search after a table that holds no parameter.
    fn next_table(table: TableName) -> (r: ParamSearch)
        ensures
            r@ == ParamSearchFacts::after(table),
    {
        match table {
            TableName::Vtoy => ParamSearch::TableSize(TableName::Ibft),
            TableName::Ibft => ParamSearch::Done(None),
        }
    }
}

/// Reads the parameter that a firmware variable holds.
pub fn read_variable(size: u32, buffer: &[u8]) -> (r: Option<VentoyOsParam>)
    ensures
        ventoy::optional_facts(r) == param_in_variable(size, buffer@),
{
    if size as usize == ventoy::VENTOY_OS_PARAM_SIZE {
        ventoy::parse_ventoy_os_param(buffer)
    } else {
        None
    }
}

/// Reads the parameter that a firmware table holds.
pub fn read_table(bytes_read: u32, table: &[u8]) -> (r: Option<VentoyOsParam>)
    ensures
        ventoy::optional_facts(r) == param_in_read_table(bytes_read, table@),
{
    if bytes_read == 0 || bytes_read as usize > table.len() {
        None
    } else {
        let contents = vstd::slice::slice_subrange(table, 0, bytes_read as usize);
        assert(contents@ == table@.take(bytes_read as int));
        ventoy::find_param_in_table(contents)
    }
}

/// An answer of the computer keeps the search for the parameter in agreement
/// with it and brings it nearer to its end.
pub proof fn param_search_stays_in_agreement(search: ParamSearchFacts, computer: Computer)
    requires
        search.agrees_with(computer),
        search.question() is Some,
    ensures
        search.step(computer.answer(search.question()->0)).agrees_with(computer),
        0 <= search.step(computer.answer(search.question()->0)).remaining() < search.remaining(),
{
}

/// Whether a volume is the Ventoy data volume that holds the booted image: it
/// is the partition that the parameter names, its disk has the identifier that
/// the parameter names, and the image is there.
pub open spec fn is_data_volume(
    computer: Computer,
    volume: VolumeFacts,
    param: ParamFacts,
) -> bool {
    match volume::disk_of(volume.device_number) {
        None => false,
        Some(disk) => {
            &&& volume.device_number->0.partition_number == param.partition_number
            &&& (computer.disk_guid)(disk) == Some(param.disk_guid)
            &&& (computer.path_exists)(volume.root + param.image_path)
        },
    }
}

/// The root of the first of `volumes`, from `from` on, that is the Ventoy data
/// volume.
pub open spec fn data_root_from(
    computer: Computer,
    volumes: Seq<VolumeFacts>,
    param: ParamFacts,
    from: int,
) -> Option<Seq<char>>
    decreases volumes.len() - from,
{
    if from >= volumes.len() {
        None
    } else if is_data_volume(computer, volumes[from], param) {
        Some(volumes[from].root)
    } else {
        data_root_from(computer, volumes, param, from + 1)
    }
}

/// The root of the Ventoy data volume of a computer.
pub open spec fn ventoy_root_of(computer: Computer, volumes: Seq<VolumeFacts>) -> Option<
    Seq<char>,
> {
    match param_of(computer) {
        Some(param) => data_root_from(computer, volumes, param, 0),
        None => None,
    }
}

/// A volume that is the partition which the parameter names.
#[derive(Debug)]
pub struct DataCandidate {
    /// Its index among the volumes.
    pub index: usize,
    /// Its disk.
    pub disk: u32,
    /// Its root.
    pub root: String,
    /// The path of the image on it.
    pub image: String,
}

/// What [`DataCandidate`] holds.
pub struct DataCandidateFacts {
    pub index: int,
    pub disk: u32,
    pub root: Seq<char>,
    pub image: Seq<char>,
}

impl View for DataCandidate {
    type V = DataCandidateFacts;

    open spec fn view(&self) -> DataCandidateFacts {
        DataCandidateFacts {
            index: self.index as int,
            disk: self.disk,
            root: self.root@,
            image: self.image@,
        }
    }
}

/// How far the search for the data volume has come.
#[derive(Debug)]
pub enum DataVolumeSearch {
    /// The identifier of the disk of this volume has to be read.
    DiskGuid(DataCandidate),
    /// It has to be found out whether the image is on this volume.
    Image(DataCandidate),
    /// The search is over: the root of the data volume, where there is one.
    Done(Option<String>),
}

/// What [`DataVolumeSearch`] holds.
pub enum DataVolumeSearchFacts {
    DiskGuid(DataCandidateFacts),
    Image(DataCandidateFacts),
    Done(Option<Seq<char>>),
}

impl View for DataVolumeSearch {
    type V = DataVolumeSearchFacts;

    open spec fn view(&self) -> DataVolumeSearchFacts {
        match *self {
            DataVolumeSearch::DiskGuid(candidate) => DataVolumeSearchFacts::DiskGuid(candidate@),
            DataVolumeSearch::Image(candidate) => DataVolumeSearchFacts::Image(candidate@),
            DataVolumeSearch::Done(root) => DataVolumeSearchFacts::Done(text::optional(root)),
        }
    }
}

impl DataVolumeSearchFacts {
    /// The search from volume `from` on: it goes on at the next volume that is
    /// the partition which the parameter names.
    pub open spec fn at(
        volumes: Seq<VolumeFacts>,
        param: ParamFacts,
        from: int,
    ) -> DataVolumeSearchFacts
        decreases volumes.len() - from,
    {
        if from >= volumes.len() {
            DataVolumeSearchFacts::Done(None)
        } else {
            match volume::disk_of(volumes[from].device_number) {
                Some(disk) if volumes[from].device_number->0.partition_number
                    == param.partition_number => {
                    DataVolumeSearchFacts::DiskGuid(
                        DataCandidateFacts {
                            index: from,
                            disk,
                            root: volumes[from].root,
                            image: volumes[from].root + param.image_path,
                        },
                    )
                },
                _ => Self::at(volumes, param, from + 1),
            }
        }
    }

    /// What has to be known next.
    pub open spec fn question(self) -> Option<Question> {
        match self {
            DataVolumeSearchFacts::DiskGuid(candidate) => Some(Question::DiskGuid(candidate.disk)),
            DataVolumeSearchFacts::Image(candidate) => Some(Question::PathExists(candidate.image)),
            DataVolumeSearchFacts::Done(_) => None,
        }
    }

    /// The search after an answer. An answer to another question changes nothing.
    pub open spec fn step(
        self,
        volumes: Seq<VolumeFacts>,
        param: ParamFacts,
        answer: Answer,
    ) -> DataVolumeSearchFacts {
        match (self, answer) {
            (DataVolumeSearchFacts::DiskGuid(candidate), Answer::DiskGuid(guid)) => {
                if guid == Some(param.disk_guid) {
                    DataVolumeSearchFacts::Image(candidate)
                } else {
                    Self::at(volumes, param, candidate.index + 1)
                }
            },
            (DataVolumeSearchFacts::Image(candidate), Answer::PathExists(exists)) => {
                if exists {
                    DataVolumeSearchFacts::Done(Some(candidate.root))
                } else {
                    Self::at(volumes, param, candidate.index + 1)
                }
            },
            _ => self,
        }
    }

    /// Whether a candidate is a volume that may still be the data volume, while
    /// none before it is.
    pub open spec fn is_open(
        computer: Computer,
        volumes: Seq<VolumeFacts>,
        param: ParamFacts,
        candidate: DataCandidateFacts,
    ) -> bool {
        &&& 0 <= candidate.index < volumes.len()
        &&& volume::disk_of(volumes[candidate.index].device_number) == Some(candidate.disk)
        &&& volumes[candidate.index].device_number->0.partition_number == param.partition_number
        &&& candidate.root == volumes[candidate.index].root
        &&& candidate.image == candidate.root + param.image_path
        &&& data_root_from(computer, volumes, param, 0) == data_root_from(
            computer,
            volumes,
            param,
            candidate.index,
        )
    }

    /// Whether what the search has found out is what `computer` answers.
    pub open spec fn agrees_with(
        self,
        computer: Computer,
        volumes: Seq<VolumeFacts>,
        param: ParamFacts,
    ) -> bool {
        match self {
            DataVolumeSearchFacts::DiskGuid(candidate) => Self::is_open(
                computer,
                volumes,
                param,
                candidate,
            ),
            DataVolumeSearchFacts::Image(candidate) => {
                &&& Self::is_open(computer, volumes, param, candidate)
                &&& (computer.disk_guid)(candidate.disk) == Some(param.disk_guid)
            },
            DataVolumeSearchFacts::Done(root) => root == data_root_from(
                computer,
                volumes,
                param,
                0,
            ),
        }
    }

    /// How many answers the search can still take.
    pub open spec fn remaining(self, volumes: Seq<VolumeFacts>) -> int {
        match self {
            DataVolumeSearchFacts::DiskGuid(candidate) => 2 * (volumes.len() - candidate.index),
            DataVolumeSearchFacts::Image(candidate) => 2 * (volumes.len() - candidate.index) - 1,
            DataVolumeSearchFacts::Done(_) => 0,
        }
    }
}

impl DataVolumeSearch {
    /// Starts the search.
    pub fn new(volumes: &Vec<Volume>, param: &VentoyOsParam) -> (r: DataVolumeSearch)
        ensures
            r@ == DataVolumeSearchFacts::at(volume::facts(volumes@), param@, 0),
    {
        Self::from_volume(volumes, param, 0)
    }

    /// What has to be known next; nothing where the search is over.
    pub fn request(&self) -> (r: Option<Request>)
        ensures
            match r {
                Some(request) => self@.question() == Some(request@),
                None => self@.question() is None,
            },
    {
        match self {
            DataVolumeSearch::DiskGuid(candidate) => Some(Request::DiskGuid(candidate.disk)),
            DataVolumeSearch::Image(candidate) => Some(
                Request::PathExists(candidate.image.clone()),
            ),
            DataVolumeSearch::Done(_) => None,
        }
    }

    /// Takes an answer.
    pub fn answer(self, volumes: &Vec<Volume>, param: &VentoyOsParam, reply: Reply) -> (r:
        DataVolumeSearch)
        ensures
            r@ == self@.step(volume::facts(volumes@), param@, reply@),
    {
        match (self, reply) {
            (DataVolumeSearch::DiskGuid(candidate), Reply::DiskGuid(guid)) => {
                let same = match guid {
                    Some(guid) => same_guid(&guid, &param.disk_guid),
                    None => false,
                };
                if same {
                    DataVolumeSearch::Image(candidate)
                } else {
                    Self::behind(volumes, param, candidate.index)
                }
            },
            (DataVolumeSearch::Image(candidate), Reply::PathExists(exists)) => {
                if exists {
                    DataVolumeSearch::Done(Some(candidate.root))
                } else {
                    Self::behind(volumes, param, candidate.index)
                }
            },
            (search, _) => search,
        }
    }

    /// The search behind volume `index`.
    fn behind(volumes: &Vec<Volume>, param: &VentoyOsParam, index: usize) -> (r: DataVolumeSearch)
        ensures
            r@ == DataVolumeSearchFacts::at(volume::facts(volumes@), param@, index + 1),
    {
        if index >= volumes.len() {
            DataVolumeSearch::Done(None)
        } else {
            Self::from_volume(volumes, param, index + 1)
        }
    }

    /// The search from volume `from` on.
    fn from_volume(volumes: &Vec<Volume>, param: &VentoyOsParam, from: usize) -> (r:
        DataVolumeSearch)
        ensures
            r@ == DataVolumeSearchFacts::at(volume::facts(volumes@), param@, from as int),
    {
        let mut i: usize = from;
        while i < volumes.len()
            invariant
                DataVolumeSearchFacts::at(volume::facts(volumes@), param@, from as int)
                    == DataVolumeSearchFacts::at(volume::facts(volumes@), param@, i as int),
            decreases volumes.len() - i,
        {
            assert(volume::facts(volumes@)[i as int] == volumes@[i as int]@);
            let disk = volume::disk_number(volumes[i].device_number);
            if let (Some(number), Some(disk)) = (volumes[i].device_number, disk) {
                if number.partition_number == param.partition_number {
                    return DataVolumeSearch::DiskGuid(
                        DataCandidate {
                            index: i,
                            disk,
                            root: volumes[i].root.clone(),
                            image: text::join(&volumes[i].root, &param.image_path),
                        },
                    );
                }
            }
            i = i + 1;
        }
        DataVolumeSearch::Done(None)
    }
}

/// Whether two identifiers are equal.
fn same_guid(a: &[u8; 16], b: &[u8; 16]) -> (r: bool)
    ensures
        r == (a@ == b@),
{
    let mut i: usize = 0;
    while i < 16
        invariant
            i <= 16,
            forall|k: int| 0 <= k < i ==> a@[k] == b@[k],
        decreases 16 - i,
    {
        if a[i] != b[i] {
            return false;
        }
        i = i + 1;
    }
    assert(a@ =~= b@);
    true
}

/// Going on from volume `from` agrees with a computer on which no volume
/// before it is the data volume.
proof fn going_on_agrees(
    computer: Computer,
    volumes: Seq<VolumeFacts>,
    param: ParamFacts,
    from: int,
)
    requires
        0 <= from,
        data_root_from(computer, volumes, param, 0) == data_root_from(
            computer,
            volumes,
            param,
            from,
        ),
    ensures
        DataVolumeSearchFacts::at(volumes, param, from).agrees_with(computer, volumes, param),
        0 <= DataVolumeSearchFacts::at(volumes, param, from).remaining(volumes),
        from <= volumes.len() ==> DataVolumeSearchFacts::at(volumes, param, from).remaining(volumes)
            <= 2 * (volumes.len() - from),
    decreases volumes.len() - from,
{
    if from < volumes.len() {
        let here = volumes[from].device_number;
        if volume::disk_of(here) is None || here->0.partition_number != param.partition_number {
            going_on_agrees(computer, volumes, param, from + 1);
        }
    }
}

/// The search for the data volume agrees with the computer from the start.
pub proof fn data_search_starts_in_agreement(
    computer: Computer,
    volumes: Seq<VolumeFacts>,
    param: ParamFacts,
)
    ensures
        DataVolumeSearchFacts::at(volumes, param, 0).agrees_with(computer, volumes, param),
        0 <= DataVolumeSearchFacts::at(volumes, param, 0).remaining(volumes),
{
    going_on_agrees(computer, volumes, param, 0);
}

/// An answer of the computer keeps the search for the data volume in agreement
/// with it and brings it nearer to its end.
pub proof fn data_search_stays_in_agreement(
    search: DataVolumeSearchFacts,
    computer: Computer,
    volumes: Seq<VolumeFacts>,
    param: ParamFacts,
)
    requires
        search.agrees_with(computer, volumes, param),
        search.question() is Some,
    ensures
        ({
            let after = search.step(volumes, param, computer.answer(search.question()->0));
            &&& after.agrees_with(computer, volumes, param)
            &&& 0 <= after.remaining(volumes) < search.remaining(volumes)
        }),
{
    let index = match search {
        DataVolumeSearchFacts::DiskGuid(candidate) => candidate.index,
        DataVolumeSearchFacts::Image(candidate) => candidate.index,
        DataVolumeSearchFacts::Done(_) => 0,
    };
    if !is_data_volume(computer, volumes[index], param) {
        going_on_agrees(computer, volumes, param, index + 1);
    }
}

/// The root of the data volume is that of the first of the volumes that match
/// the parameter in all three respects: partition, disk and image. There is
/// none only where no volume does.
pub proof fn ventoy_root_matches_in_full(
    computer: Computer,
    volumes: Seq<VolumeFacts>,
    param: ParamFacts,
    from: int,
)
    requires
        0 <= from,
    ensures
        data_root_from(computer, volumes, param, from) matches Some(root) ==> exists|i: int|
            {
                &&& from <= i < volumes.len()
                &&& is_data_volume(computer, #[trigger] volumes[i], param)
                &&& volumes[i].root == root
                &&& forall|j: int|
                    from <= j < i ==> !is_data_volume(computer, #[trigger] volumes[j], param)
            },
        data_root_from(computer, volumes, param, from) is None ==> forall|i: int|
            from <= i < volumes.len() ==> !is_data_volume(computer, #[trigger] volumes[i], param),
    decreases volumes.len() - from,
{
    if from < volumes.len() && !is_data_volume(computer, volumes[from], param) {
        ventoy_root_matches_in_full(computer, volumes, param, from + 1);
    }
}

/// A firmware variable is read where it has 512 bytes, and a table where some of
/// it was read and no more than the buffer holds: of the buffer just what was
/// read counts.
pub proof fn only_what_was_read_counts(size: u32, buffer: Seq<u8>)
    ensures
        size == 512 ==> param_in_variable(size, buffer) == ventoy::param_in(buffer),
        size != 512 ==> param_in_variable(size, buffer) is None,
        0 < size <= buffer.len() ==> param_in_read_table(size, buffer) == ventoy::param_in_table(
            buffer.subrange(0, size as int),
            0,
        ),
        size == 0 || size > buffer.len() ==> param_in_read_table(size, buffer) is None,
{
    if size <= buffer.len() {
        assert(buffer.take(size as int) == buffer.subrange(0, size as int));
    }
}

/// The runtime parameter of a computer comes from the first of its three sources
/// that has one: the variable, the table `VTOY`, the table `iBFT`. A table of
/// less than 512 bytes has none, and a privilege that is refused changes nothing.
pub proof fn first_source_gives_the_param(computer: Computer)
    ensures
        ({
            let variable = param_in_variable(
                computer.ventoy_variable.0,
                computer.ventoy_variable.1,
            );
            let vtoy_size = (computer.table_size)(TableName::Vtoy);
            let vtoy = (computer.table)(TableName::Vtoy, vtoy_size);
            let in_vtoy = param_in_read_table(vtoy.0, vtoy.1);
            let ibft_size = (computer.table_size)(TableName::Ibft);
            let ibft = (computer.table)(TableName::Ibft, ibft_size);
            let in_ibft = param_in_read_table(ibft.0, ibft.1);
            let no_vtoy = vtoy_size < 512 || in_vtoy is None;
            &&& variable is Some ==> param_of(computer) == variable
            &&& variable is None && !no_vtoy ==> param_of(computer) == in_vtoy
            &&& variable is None && no_vtoy && ibft_size >= 512 ==> param_of(computer) == in_ibft
            &&& variable is None && no_vtoy && ibft_size < 512 ==> param_of(computer) is None
        }),
{
}

/// A volume is the Ventoy data volume where it is on a disk, its partition has
/// the number that the parameter names, the identifier of the disk has the bytes
/// of the one that the parameter names, each at its place, and the image is
/// there. A single other byte makes it none.
pub proof fn data_volume_is_known_byte_by_byte(
    computer: Computer,
    volume: VolumeFacts,
    param: ParamFacts,
    guid: Seq<u8>,
)
    requires
        volume.device_number is Some,
        volume.device_number->0.device_type == 7,
        (computer.disk_guid)(volume.device_number->0.device_number) == Some(guid),
        guid.len() == 16,
        param.disk_guid.len() == 16,
    ensures
        is_data_volume(computer, volume, param) <==> {
            &&& volume.device_number->0.partition_number == param.partition_number
            &&& forall|k: int| 0 <= k < 16 ==> #[trigger] guid[k] == param.disk_guid[k]
            &&& (computer.path_exists)(volume.root + param.image_path)
        },
{
    if forall|k: int| 0 <= k < 16 ==> #[trigger] guid[k] == param.disk_guid[k] {
        assert(guid =~= param.disk_guid);
    }
}

/// A volume that is on no disk, or on one whose identifier is not known, is not
/// the Ventoy data volume.
pub proof fn data_volume_is_on_a_known_disk(
    computer: Computer,
    volume: VolumeFacts,
    param: ParamFacts,
)
    requires
        is_data_volume(computer, volume, param),
    ensures
        volume.device_number is Some,
        volume.device_number->0.device_type == 7,
        (computer.disk_guid)(volume.device_number->0.device_number) is Some,
{
}

/// The data volume that a block of the runtime parameter leads to has, on its
/// disk, the bytes 17 to 32 of the block as its identifier, and as its partition
/// the number in the bytes 41 and 42.
pub proof fn data_volume_has_the_marks_of_the_block(
    computer: Computer,
    volume: VolumeFacts,
    block: Seq<u8>,
    guid: Seq<u8>,
)
    requires
        ventoy::param_in(block) is Some,
        volume.device_number is Some,
        volume.device_number->0.device_type == 7,
        (computer.disk_guid)(volume.device_number->0.device_number) == Some(guid),
        guid.len() == 16,
    ensures
        is_data_volume(computer, volume, ventoy::param_in(block)->0) <==> {
            &&& volume.device_number->0.partition_number == block[41] + 256 * block[42]
            &&& forall|k: int| 0 <= k < 16 ==> #[trigger] guid[k] == block[17 + k]
            &&& (computer.path_exists)(volume.root + ventoy::param_in(block)->0.image_path)
        },
{
    let param = ventoy::param_in(block)->0;
    ventoy::read_param_has_the_fields_of_the_block(block);
    data_volume_is_known_byte_by_byte(computer, volume, param, guid);
    assert forall|k: int| 0 <= k < 16 implies (#[trigger] guid[k] == block[17 + k]) == (guid[k]
        == param.disk_guid[k]) by {}
}

/// The Ventoy root of a computer is that of a data volume before which there is
/// none: with `i` such a volume, its root is the one, and with no data volume
/// there is none.
pub proof fn first_data_volume_gives_the_root(
    computer: Computer,
    volumes: Seq<VolumeFacts>,
    param: ParamFacts,
    i: int,
)
    requires
        param_of(computer) == Some(param),
    ensures
        0 <= i < volumes.len() && is_data_volume(computer, volumes[i], param) && (forall|j: int|
            0 <= j < i ==> !is_data_volume(computer, #[trigger] volumes[j], param))
            ==> ventoy_root_of(computer, volumes) == Some(volumes[i].root),
        (forall|j: int|
            0 <= j < volumes.len() ==> !is_data_volume(computer, #[trigger] volumes[j], param))
            ==> ventoy_root_of(computer, volumes) is None,
{
    ventoy_root_matches_in_full(computer, volumes, param, 0);
    let root = data_root_from(computer, volumes, param, 0);
    if root is Some {
        let k = choose|k: int|
            {
                &&& 0 <= k < volumes.len()
                &&& is_data_volume(computer, #[trigger] volumes[k], param)
                &&& volumes[k].root == root->0
                &&& forall|j: int|
                    0 <= j < k ==> !is_data_volume(computer, #[trigger] volumes[j], param)
            };
        assert(is_data_volume(computer, volumes[k], param));
        if 0 <= i < volumes.len() && is_data_volume(computer, volumes[i], param) && k < i {
            assert(is_data_volume(computer, volumes[k], param));
        }
    }
}

/// Without a runtime parameter there is no Ventoy root.
pub proof fn no_param_gives_no_root(computer: Computer, volumes: Seq<VolumeFacts>)
    requires
        param_of(computer) is None,
    ensures
        ventoy_root_of(computer, volumes) is None,
{
}

} // verus!
