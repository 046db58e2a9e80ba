//! Rawprogram files: the program and erase tasks of a firmware package.

use crate::image::error::ImageError;
use crate::text::{push_str, str_eq, to_owned_string};
use crate::xml::{
    attrs_view, get_attr, get_attr_u32, get_attr_u64, get_attr_u8, lookup, num32, num64, num8,
    scan_xml, tag_key, tag_lower, token_view, tokens_view, xml_scan, AttrView, TokenView, XmlAttr,
    XmlToken,
};
use vstd::prelude::*;

verus! {

#[derive(Debug, Clone, Copy, PartialEq, Eq, Structural)]
pub enum TaskType {
    Program,
    Erase,
}

#[derive(Debug, Clone)]
pub struct TaskEntry {
    pub task_type: TaskType,
    pub sector_size: u32,
    pub start_sector: u64,
    pub num_sectors: u64,
    pub physical_partition: u8,
    pub filename: Option<String>,
    pub label: Option<String>,
    pub sparse: bool,
    pub file_sector_offset: u64,
    pub size_in_kb: u64,
}

/// A task as plain values.
pub struct TaskView {
    pub task_type: TaskType,
    pub sector_size: u32,
    pub start_sector: u64,
    pub num_sectors: u64,
    pub physical_partition: u8,
    pub filename: Option<Seq<char>>,
    pub label: Option<Seq<char>>,
    pub sparse: bool,
    pub file_sector_offset: u64,
    pub size_in_kb: u64,
}

pub open spec fn task_view(e: TaskEntry) -> TaskView {
    TaskView {
        task_type: e.task_type,
        sector_size: e.sector_size,
        start_sector: e.start_sector,
        num_sectors: e.num_sectors,
        physical_partition: e.physical_partition,
        filename: crate::text::opt_view(e.filename),
        label: crate::text::opt_view(e.label),
        sparse: e.sparse,
        file_sector_offset: e.file_sector_offset,
        size_in_kb: e.size_in_kb,
    }
}

/// The attributes every task needs are present and numbers.
pub open spec fn has_range(a: Seq<AttrView>) -> bool {
    num32(a, "SECTOR_SIZE_IN_BYTES") is Some && num64(a, "start_sector") is Some && num64(
        a,
        "num_partition_sectors",
    ) is Some && num8(a, "physical_partition_number") is Some
}

/// `o`'s value, else zero.
pub open spec fn or_zero(o: Option<u64>) -> u64 {
    match o {
        Some(v) => v,
        None => 0,
    }
}

/// The task that a `<program>` (`program`) or `<erase>` tag's attributes
/// describe. An erase task has no file, is not sparse and has no offset or
/// size.
pub open spec fn task_of(a: Seq<AttrView>, program: bool) -> Option<TaskView> {
    if has_range(a) {
        Some(
            TaskView {
                task_type: if program {
                    TaskType::Program
                } else {
                    TaskType::Erase
                },
                sector_size: num32(a, "SECTOR_SIZE_IN_BYTES").unwrap(),
                start_sector: num64(a, "start_sector").unwrap(),
                num_sectors: num64(a, "num_partition_sectors").unwrap(),
                physical_partition: num8(a, "physical_partition_number").unwrap(),
                filename: if program {
                    lookup(a, "filename")
                } else {
                    None
                },
                label: lookup(a, "label"),
                sparse: program && lookup(a, "sparse") == Some("true"@),
                file_sector_offset: if program {
                    or_zero(num64(a, "file_sector_offset"))
                } else {
                    0
                },
                size_in_kb: if program {
                    or_zero(num64(a, "size_in_KB"))
                } else {
                    0
                },
            },
        )
    } else {
        None
    }
}

/// The tasks of a document's reader events, in order.
pub open spec fn tasks_in(toks: Seq<TokenView>) -> Seq<TaskView>
    decreases toks.len(),
{
    if toks.len() == 0 {
        seq![]
    } else {
        let rest = tasks_in(toks.drop_last());
        match toks.last() {
            TokenView::Tag(_, name, attrs) => if tag_key(name) == "program"@ && task_of(attrs, true) is Some {
                rest.push(task_of(attrs, true).unwrap())
            } else if tag_key(name) == "erase"@ && task_of(attrs, false) is Some {
                rest.push(task_of(attrs, false).unwrap())
            } else {
                rest
            },
            _ => rest,
        }
    }
}

fn or_zero_of(o: Option<u64>) -> (r: u64)
    ensures
        r == or_zero(o),
{
    match o {
        Some(v) => v,
        None => 0,
    }
}

fn parse_task(a: &Vec<Option<XmlAttr>>, program: bool) -> (r: Option<TaskEntry>)
    ensures
        match task_of(attrs_view(a@), program) {
            Some(v) => r matches Some(e) && task_view(e) == v,
            None => r is None,
        },
{
    let sector_size = match get_attr_u32(a, "SECTOR_SIZE_IN_BYTES") {
        Some(v) => v,
        None => return None,
    };
    let start_sector = match get_attr_u64(a, "start_sector") {
        Some(v) => v,
        None => return None,
    };
    let num_sectors = match get_attr_u64(a, "num_partition_sectors") {
        Some(v) => v,
        None => return None,
    };
    let physical_partition = match get_attr_u8(a, "physical_partition_number") {
        Some(v) => v,
        None => return None,
    };
    let label = get_attr(a, "label");
    if program {
        let filename = get_attr(a, "filename");
        let sparse = match get_attr(a, "sparse") {
            Some(s) => str_eq(s.as_str(), "true"),
            None => false,
        };
        let file_sector_offset = or_zero_of(get_attr_u64(a, "file_sector_offset"));
        let size_in_kb = or_zero_of(get_attr_u64(a, "size_in_KB"));
        Some(
            TaskEntry {
                task_type: TaskType::Program,
                sector_size,
                start_sector,
                num_sectors,
                physical_partition,
                filename,
                label,
                sparse,
                file_sector_offset,
                size_in_kb,
            },
        )
    } else {
        Some(
            TaskEntry {
                task_type: TaskType::Erase,
                sector_size,
                start_sector,
                num_sectors,
                physical_partition,
                filename: None,
                label,
                sparse: false,
                file_sector_offset: 0,
                size_in_kb: 0,
            },
        )
    }
}

/// The text of the path `file` under `dir`, as `Path::join` makes it by the
/// rules of the platform the program is built for (an absolute `file`
/// replaces `dir`).
pub uninterp spec fn joined_path(dir: Seq<char>, file: Seq<char>) -> Seq<char>;

/// `Path::join`, taken back as text: `file` under `dir`; the result is
/// named, its form is left unsaid.
#[verifier::external_body]
fn join_path(dir: &str, file: &str) -> (r: String)
    ensures
        r@ == joined_path(dir@, file@),
{
    std::path::Path::new(dir).join(file).to_string_lossy().into_owned()
}

/// The first task from `i` on that has a file which is not present.
pub open spec fn first_missing(entries: Seq<TaskEntry>, present: Seq<bool>, i: int) -> Option<int>
    decreases entries.len() - i,
{
    if i < 0 || i >= entries.len() {
        None
    } else if entries[i].filename is Some && !present[i] {
        Some(i)
    } else {
        first_missing(entries, present, i + 1)
    }
}

impl TaskEntry {
    /// The path of the task's image file under `image_dir`, where the task
    /// has a file.
    pub fn image_path(&self, image_dir: &str) -> (r: Option<String>)
        ensures
            match self.filename {
                Some(f) => r matches Some(p) && p@ == joined_path(image_dir@, f@),
                None => r is None,
            },
    {
        match &self.filename {
            Some(f) => Some(join_path(image_dir, f.as_str())),
            None => None,
        }
    }
}

#[derive(Debug, Clone)]
pub struct TaskList {
    pub entries: Vec<TaskEntry>,
    /// The file the list was read from.
    pub source_file: String,
}

impl TaskList {
    pub fn new(source_file: String) -> (r: Self)
        ensures
            r.entries@.len() == 0,
            r.source_file == source_file,
    {
        TaskList { entries: Vec::new(), source_file }
    }

    /// The task list of a document's reader events: one task per
    /// `<program>` or `<erase>` tag whose attributes are complete, in order.
    pub fn from_tokens(tokens: &Vec<XmlToken>, source: &str) -> (r: Self)
        ensures
            r.entries@.map_values(|e: TaskEntry| task_view(e)) == tasks_in(tokens_view(tokens@)),
            r.source_file@ == source@,
    {
        let mut list = TaskList::new(to_owned_string(source));
        let ghost tv = tokens_view(tokens@);
        let mut i: usize = 0;
        while i < tokens.len()
            invariant
                i <= tokens@.len(),
                tv == tokens_view(tokens@),
                list.source_file@ == source@,
                list.entries@.map_values(|e: TaskEntry| task_view(e)) == tasks_in(tv.subrange(0, i as int)),
            decreases tokens@.len() - i,
        {
            assert(tv.subrange(0, i + 1).drop_last() =~= tv.subrange(0, i as int));
            assert(tv[i as int] == token_view(tokens@[i as int]));
            let ghost before = list.entries@;
            match &tokens[i] {
                XmlToken::Tag(_, name, attrs) => {
                    let key = tag_lower(name);
                    let found = if str_eq(key.as_str(), "program") {
                        parse_task(attrs, true)
                    } else if str_eq(key.as_str(), "erase") {
                        parse_task(attrs, false)
                    } else {
                        None
                    };
                    match found {
                        Some(e) => {
                            list.entries.push(e);
                            assert(list.entries@.map_values(|e: TaskEntry| task_view(e)) =~= before.map_values(
                                |e: TaskEntry| task_view(e),
                            ).push(task_view(e)));
                        },
                        None => {},
                    }
                },
                _ => {},
            }
            i = i + 1;
        }
        assert(tv.subrange(0, tv.len() as int) =~= tv);
        list
    }

    /// Reads a rawprogram document; `source` names it in errors. Malformed
    /// XML fails with `XML parse error: ` and the reader's message.
    pub fn from_str(xml: &str, source: &str) -> (r: Result<Self, ImageError>)
        ensures
            match xml_scan(xml@) {
                Some(toks) => r matches Ok(list) && list.entries@.map_values(|e: TaskEntry| task_view(e))
                    == tasks_in(toks) && list.source_file@ == source@,
                None => r matches Err(ImageError::ParseFailed { path, reason }) && path@ == source@
                    && reason@.len() >= 17 && reason@.subrange(0, 17) == "XML parse error: "@,
            },
    {
        match scan_xml(xml) {
            Ok(tokens) => Ok(TaskList::from_tokens(&tokens, source)),
            Err(msg) => {
                let mut reason = to_owned_string("XML parse error: ");
                push_str(&mut reason, msg.as_str());
                proof {
                    reveal_strlit("XML parse error: ");
                }
                assert(reason@.subrange(0, 17) =~= "XML parse error: "@);
                Err(ImageError::ParseFailed { path: to_owned_string(source), reason })
            },
        }
    }

    /// Checks that the image file of every task that has one exists under
    /// `image_dir`; `present[i]` tells whether the file of task `i` exists
    /// (its value does not matter for a task without a file). The first
    /// missing one fails, naming its path.
    pub fn validate_files(&self, image_dir: &str, present: &Vec<bool>) -> (r: Result<(), ImageError>)
        requires
            present@.len() == self.entries@.len(),
        ensures
            match first_missing(self.entries@, present@, 0) {
                None => r is Ok,
                Some(i) => r matches Err(ImageError::FileNotFound { expected }) && 0 <= i < self.entries@.len()
                    && expected@ == joined_path(image_dir@, self.entries@[i].filename.unwrap()@),
            },
    {
        let mut i: usize = 0;
        while i < self.entries.len()
            invariant
                i <= self.entries@.len(),
                present@.len() == self.entries@.len(),
                first_missing(self.entries@, present@, 0) == first_missing(self.entries@, present@, i as int),
            decreases self.entries@.len() - i,
        {
            match self.entries[i].image_path(image_dir) {
                Some(path) => {
                    if !present[i] {
                        return Err(ImageError::FileNotFound { expected: path });
                    }
                },
                None => {},
            }
            i = i + 1;
        }
        Ok(())
    }

    pub fn len(&self) -> (r: usize)
        ensures
            r == self.entries@.len(),
    {
        self.entries.len()
    }

    pub fn is_empty(&self) -> (r: bool)
        ensures
            r == (self.entries@.len() == 0),
    {
        self.entries.len() == 0
    }
}

/// A task takes its place from its own attributes: the first sector from
/// `start_sector`, the length from `num_partition_sectors`, the LUN from
/// `physical_partition_number` and the sector size from
/// `SECTOR_SIZE_IN_BYTES`; a program task's file from `filename`, an erase
/// task has none; a tag without the four numbers gives no task.
pub proof fn lemma_task_fields(a: Seq<AttrView>, program: bool)
    ensures
        task_of(a, program) is Some <==> (num32(a, "SECTOR_SIZE_IN_BYTES") is Some && num64(a, "start_sector")
            is Some && num64(a, "num_partition_sectors") is Some && num8(a, "physical_partition_number") is Some),
        task_of(a, program) matches Some(t) ==> {
            &&& num64(a, "start_sector") == Some(t.start_sector)
            &&& num64(a, "num_partition_sectors") == Some(t.num_sectors)
            &&& num8(a, "physical_partition_number") == Some(t.physical_partition)
            &&& num32(a, "SECTOR_SIZE_IN_BYTES") == Some(t.sector_size)
            &&& lookup(a, "label") == t.label
            &&& (t.task_type == TaskType::Program) == program
            &&& (program ==> lookup(a, "filename") == t.filename)
            &&& (!program ==> t.filename is None && !t.sparse)
            &&& (t.sparse ==> lookup(a, "sparse") == Some("true"@))
        },
{
}

} // verus!
