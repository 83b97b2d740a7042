use vstd::prelude::*;
use crate::text::{
    pad_right, pad_left_zeros, decimal, repeat_char, padded_right, padded_left_zeros,
    decimal_string, repeated,
};

verus! {

/// The three table shapes in which archive contents are listed.
#[derive(Clone, Copy, Debug, PartialEq, Eq, Structural)]
pub enum Layout {
    /// Size, entry type and path of tar entries.
    Tar,
    /// Size, modification time and name of zip entries.
    Zip,
    /// Size, file-or-directory attribute and name of 7z and RAR entries.
    Attributes,
}

/// The kind of a tar entry, as far as the listing tells kinds apart.
#[derive(Clone, Copy, Debug, PartialEq, Eq, Structural)]
pub enum TarEntryKind {
    Regular,
    Directory,
    Symlink,
    Link,
    Other,
}

/// One entry of a tar archive.
pub struct TarEntry {
    pub size: u64,
    pub kind: TarEntryKind,
    pub path: String,
}

/// A zip modification time, as its fields are stored.
#[derive(Clone, Copy, Debug, PartialEq, Eq, Structural)]
pub struct Timestamp {
    pub year: u16,
    pub month: u8,
    pub day: u8,
    pub hour: u8,
    pub minute: u8,
}

/// One entry of a zip archive.
pub struct ZipEntry {
    pub size: u64,
    pub modified: Option<Timestamp>,
    pub name: String,
    /// The compression method number in the entry's header (0 stored, 8 deflated).
    pub method: u16,
}

/// One entry of a 7z or RAR archive.
pub struct ArchiveEntry {
    pub size: u64,
    pub is_directory: bool,
    pub name: String,
}

/// Width of the size column.
pub const SIZE_WIDTH: usize = 10;

/// Number of dashes under the header.
pub const RULE_WIDTH: usize = 60;

/// Width of the middle column of a layout.
pub open spec fn middle_width(layout: Layout) -> nat {
    match layout {
        Layout::Tar => 12,
        Layout::Zip => 20,
        Layout::Attributes => 8,
    }
}

/// Title of the middle column of a layout.
pub open spec fn middle_title(layout: Layout) -> Seq<char> {
    match layout {
        Layout::Tar => "类型"@,
        Layout::Zip => "修改时间"@,
        Layout::Attributes => "属性"@,
    }
}

/// A table line: the size column padded to its width, a space, the middle
/// column padded to the layout's width, a space and the name.
pub open spec fn table_line(layout: Layout, first: Seq<char>, middle: Seq<char>, name: Seq<char>) -> Seq<char> {
    pad_right(first, SIZE_WIDTH as nat) + " "@ + pad_right(middle, middle_width(layout)) + " "@ + name
}

/// The header line of a layout.
pub open spec fn header_line(layout: Layout) -> Seq<char> {
    table_line(layout, "大小"@, middle_title(layout), "文件名"@)
}

/// The rule under the header.
pub open spec fn rule_line() -> Seq<char> {
    repeat_char('-', RULE_WIDTH as nat)
}

/// The line for an entry of `size` bytes.
pub open spec fn entry_line(layout: Layout, size: u64, middle: Seq<char>, name: Seq<char>) -> Seq<char> {
    table_line(layout, decimal(size as nat), middle, name)
}

/// The label shown for a tar entry kind.
pub open spec fn tar_kind_label(kind: TarEntryKind) -> Seq<char> {
    match kind {
        TarEntryKind::Regular => "文件"@,
        TarEntryKind::Directory => "目录"@,
        TarEntryKind::Symlink => "符号链接"@,
        TarEntryKind::Link => "硬链接"@,
        TarEntryKind::Other => "其他"@,
    }
}

/// The attribute shown for a 7z or RAR entry.
pub open spec fn attribute_label(is_directory: bool) -> Seq<char> {
    if is_directory {
        "目录"@
    } else {
        "文件"@
    }
}

/// A modification time as `YYYY-MM-DD hh:mm`, or `N/A` when there is none.
pub open spec fn timestamp_text(t: Option<Timestamp>) -> Seq<char> {
    match t {
        Some(t) => pad_left_zeros(decimal(t.year as nat), 4) + "-"@ + pad_left_zeros(decimal(t.month as nat), 2)
            + "-"@ + pad_left_zeros(decimal(t.day as nat), 2) + " "@ + pad_left_zeros(decimal(t.hour as nat), 2)
            + ":"@ + pad_left_zeros(decimal(t.minute as nat), 2),
        None => "N/A"@,
    }
}

/// Width of the middle column of a layout.
pub fn middle_column_width(layout: Layout) -> (r: usize)
    ensures
        r == middle_width(layout),
{
    match layout {
        Layout::Tar => 12,
        Layout::Zip => 20,
        Layout::Attributes => 8,
    }
}

/// A table line in `layout` from its three columns.
pub fn format_line(layout: Layout, first: &str, middle: &str, name: &str) -> (r: String)
    ensures
        r@ == table_line(layout, first@, middle@, name@),
{
    proof {
        reveal_strlit(" ");
    }
    let width = middle_column_width(layout);
    padded_right(first, SIZE_WIDTH).concat(" ").concat(padded_right(middle, width).as_str()).concat(" ").concat(
        name,
    )
}

/// The header line of a layout.
pub fn header(layout: Layout) -> (r: String)
    ensures
        r@ == header_line(layout),
{
    let title = match layout {
        Layout::Tar => "类型",
        Layout::Zip => "修改时间",
        Layout::Attributes => "属性",
    };
    format_line(layout, "大小", title, "文件名")
}

/// The rule under the header.
pub fn rule() -> (r: String)
    ensures
        r@ == rule_line(),
{
    proof {
        reveal_strlit("-");
    }
    repeated("-", RULE_WIDTH)
}

/// The line for an entry of `size` bytes.
pub fn entry_row(layout: Layout, size: u64, middle: &str, name: &str) -> (r: String)
    ensures
        r@ == entry_line(layout, size, middle@, name@),
{
    format_line(layout, decimal_string(size).as_str(), middle, name)
}

/// The label shown for a tar entry kind.
pub fn tar_kind_text(kind: TarEntryKind) -> (r: &'static str)
    ensures
        r@ == tar_kind_label(kind),
{
    match kind {
        TarEntryKind::Regular => "文件",
        TarEntryKind::Directory => "目录",
        TarEntryKind::Symlink => "符号链接",
        TarEntryKind::Link => "硬链接",
        TarEntryKind::Other => "其他",
    }
}

/// The attribute shown for a 7z or RAR entry.
pub fn attribute_text(is_directory: bool) -> (r: &'static str)
    ensures
        r@ == attribute_label(is_directory),
{
    if is_directory {
        "目录"
    } else {
        "文件"
    }
}

/// A modification time as `YYYY-MM-DD hh:mm`, or `N/A` when there is none.
pub fn timestamp_string(t: Option<Timestamp>) -> (r: String)
    ensures
        r@ == timestamp_text(t),
{
    match t {
        Some(t) => {
            proof {
                reveal_strlit("-");
                reveal_strlit(" ");
                reveal_strlit(":");
            }
            let year = padded_left_zeros(decimal_string(t.year as u64).as_str(), 4);
            let month = padded_left_zeros(decimal_string(t.month as u64).as_str(), 2);
            let day = padded_left_zeros(decimal_string(t.day as u64).as_str(), 2);
            let hour = padded_left_zeros(decimal_string(t.hour as u64).as_str(), 2);
            let minute = padded_left_zeros(decimal_string(t.minute as u64).as_str(), 2);
            year.concat("-").concat(month.as_str()).concat("-").concat(day.as_str()).concat(" ").concat(
                hour.as_str(),
            ).concat(":").concat(minute.as_str())
        },
        None => String::from_str("N/A"),
    }
}

/// The lines listing the tar entries `entries`: header, rule, then one line per entry.
pub fn tar_listing(entries: &Vec<TarEntry>) -> (r: Vec<String>)
    ensures
        r.len() == entries.len() + 2,
        r[0]@ == header_line(Layout::Tar),
        r[1]@ == rule_line(),
        forall|i: int|
            0 <= i < entries.len() ==> #[trigger] r[i + 2]@ == entry_line(
                Layout::Tar,
                entries[i].size,
                tar_kind_label(entries[i].kind),
                entries[i].path@,
            ),
{
    let mut lines: Vec<String> = Vec::new();
    lines.push(header(Layout::Tar));
    lines.push(rule());
    let mut i: usize = 0;
    while i < entries.len()
        invariant
            i <= entries.len(),
            lines.len() == i + 2,
            lines[0]@ == header_line(Layout::Tar),
            lines[1]@ == rule_line(),
            forall|j: int|
                0 <= j < i ==> #[trigger] lines[j + 2]@ == entry_line(
                    Layout::Tar,
                    entries[j].size,
                    tar_kind_label(entries[j].kind),
                    entries[j].path@,
                ),
        decreases entries.len() - i,
    {
        let e = &entries[i];
        lines.push(entry_row(Layout::Tar, e.size, tar_kind_text(e.kind), e.path.as_str()));
        i = i + 1;
    }
    lines
}

/// The lines listing the zip entries `entries`: header, rule, then one line per entry.
pub fn zip_listing(entries: &Vec<ZipEntry>) -> (r: Vec<String>)
    ensures
        r.len() == entries.len() + 2,
        r[0]@ == header_line(Layout::Zip),
        r[1]@ == rule_line(),
        forall|i: int|
            0 <= i < entries.len() ==> #[trigger] r[i + 2]@ == entry_line(
                Layout::Zip,
                entries[i].size,
                timestamp_text(entries[i].modified),
                entries[i].name@,
            ),
{
    let mut lines: Vec<String> = Vec::new();
    lines.push(header(Layout::Zip));
    lines.push(rule());
    let mut i: usize = 0;
    while i < entries.len()
        invariant
            i <= entries.len(),
            lines.len() == i + 2,
            lines[0]@ == header_line(Layout::Zip),
            lines[1]@ == rule_line(),
            forall|j: int|
                0 <= j < i ==> #[trigger] lines[j + 2]@ == entry_line(
                    Layout::Zip,
                    entries[j].size,
                    timestamp_text(entries[j].modified),
                    entries[j].name@,
                ),
        decreases entries.len() - i,
    {
        let e = &entries[i];
        let time = timestamp_string(e.modified);
        lines.push(entry_row(Layout::Zip, e.size, time.as_str(), e.name.as_str()));
        i = i + 1;
    }
    lines
}

/// The lines listing 7z or RAR entries: header, rule, then one line per entry.
pub fn attribute_listing(entries: &Vec<ArchiveEntry>) -> (r: Vec<String>)
    ensures
        r.len() == entries.len() + 2,
        r[0]@ == header_line(Layout::Attributes),
        r[1]@ == rule_line(),
        forall|i: int|
            0 <= i < entries.len() ==> #[trigger] r[i + 2]@ == entry_line(
                Layout::Attributes,
                entries[i].size,
                attribute_label(entries[i].is_directory),
                entries[i].name@,
            ),
{
    let mut lines: Vec<String> = Vec::new();
    lines.push(header(Layout::Attributes));
    lines.push(rule());
    let mut i: usize = 0;
    while i < entries.len()
        invariant
            i <= entries.len(),
            lines.len() == i + 2,
            lines[0]@ == header_line(Layout::Attributes),
            lines[1]@ == rule_line(),
            forall|j: int|
                0 <= j < i ==> #[trigger] lines[j + 2]@ == entry_line(
                    Layout::Attributes,
                    entries[j].size,
                    attribute_label(entries[j].is_directory),
                    entries[j].name@,
                ),
        decreases entries.len() - i,
    {
        let e = &entries[i];
        lines.push(entry_row(Layout::Attributes, e.size, attribute_text(e.is_directory), e.name.as_str()));
        i = i + 1;
    }
    lines
}

/// A listing line starts with the entry's size in decimal and ends with the
/// entry's name, whole, after a space.
pub proof fn lemma_entry_line_shape(layout: Layout, size: u64, middle: Seq<char>, name: Seq<char>)
    ensures
        name.is_suffix_of(entry_line(layout, size, middle, name)),
        entry_line(layout, size, middle, name)[entry_line(layout, size, middle, name).len() - name.len() - 1] == ' ',
        decimal(size as nat).is_prefix_of(entry_line(layout, size, middle, name)),
{
    reveal_strlit(" ");
    let d = decimal(size as nat);
    let first = pad_right(d, SIZE_WIDTH as nat);
    let rest = " "@ + pad_right(middle, middle_width(layout)) + " "@;
    let l = entry_line(layout, size, middle, name);
    assert(l == first + rest + name);
    assert(l.subrange(l.len() - name.len(), l.len() as int) =~= name);
    assert(l[l.len() - name.len() - 1] == rest[rest.len() - 1]);
    assert(first.subrange(0, d.len() as int) =~= d);
    assert(l.subrange(0, d.len() as int) =~= d) by {
        assert forall|k: int| 0 <= k < d.len() implies l[k] == d[k] by {
            assert(l[k] == first[k]);
            assert(first[k] == d[k]);
        }
    }
}

} // verus!
