use vstd::prelude::*;
use crate::error::ArchiveError;
use std::io::Cursor;
use std::io::Read;
use zip::ZipArchive;
use crate::parts::{split_path, join_path, normal_parts, plain_path, lemma_plain_path_parts};
use crate::text::decimal;
use crate::listing::{lemma_entry_line_shape, 
    TarEntry, TarEntryKind, Layout, tar_listing, header_line, rule_line, entry_line, tar_kind_label,
    Timestamp, ZipEntry, ArchiveEntry, zip_listing, attribute_listing, timestamp_text, attribute_label,
};

verus! {

/// A tar entry as its header records it: the size, the type flag byte and the path.
pub struct TarRecord {
    pub size: u64,
    pub type_flag: u8,
    pub path: String,
}

/// The records of a tar entry, as plain values.
pub open spec fn record_view(r: TarRecord) -> (u64, u8, Seq<char>) {
    (r.size, r.type_flag, r.path@)
}

/// The entries that the `tar` crate reads from the tar stream `data`: size,
/// normalised type flag and displayed path of each, in order, when the whole
/// stream reads without error.
pub uninterp spec fn tar_records(data: Seq<u8>) -> Option<Seq<(u64, u8, Seq<char>)>>;

/// `tar::Archive::entries` over `data`, each entry taken as its size, type flag
/// (`EntryType::as_byte`) and path (`Path::display`). Claimed: it succeeds
/// exactly when the crate reads the whole stream without error (reading a
/// slice depends on the data alone), and then returns the entries it reads.
#[verifier::external_body]
fn read_tar_records(data: &[u8]) -> (r: Result<Vec<TarRecord>, String>)
    ensures
        r is Ok <==> tar_records(data@) is Some,
        r matches Ok(v) ==> tar_records(data@) == Some(v@.map_values(|e: TarRecord| record_view(e))),
{
    let mut records = Vec::new();
    let mut archive = tar::Archive::new(data);
    let entries = match archive.entries() { Ok(es) => es, Err(e) => return Err(e.to_string()) };
    for entry in entries {
        let entry = match entry { Ok(en) => en, Err(e) => return Err(e.to_string()) };
        let path = match entry.path() { Ok(p) => p.display().to_string(), Err(e) => return Err(e.to_string()) };
        let type_flag = entry.header().entry_type().as_byte();
        records.push(TarRecord { size: entry.size(), type_flag, path });
    }
    Ok(records)
}

/// The listing kind of a tar type flag: `0` (or a zero byte, in old archives) a regular file, `5` a directory,
/// `2` a symbolic link, `1` a hard link, anything else another kind.
pub open spec fn kind_of_flag(flag: u8) -> TarEntryKind {
    if flag == 0x30 || flag == 0 {
        TarEntryKind::Regular
    } else if flag == 0x35 {
        TarEntryKind::Directory
    } else if flag == 0x32 {
        TarEntryKind::Symlink
    } else if flag == 0x31 {
        TarEntryKind::Link
    } else {
        TarEntryKind::Other
    }
}

/// The listing kind of a tar type flag.
pub fn tar_kind(flag: u8) -> (r: TarEntryKind)
    ensures
        r == kind_of_flag(flag),
{
    if flag == 0x30 || flag == 0 {
        TarEntryKind::Regular
    } else if flag == 0x35 {
        TarEntryKind::Directory
    } else if flag == 0x32 {
        TarEntryKind::Symlink
    } else if flag == 0x31 {
        TarEntryKind::Link
    } else {
        TarEntryKind::Other
    }
}

/// Whether `lines` list the tar records `records`: header, rule, then one
/// line per record with its size, kind label and path.
pub open spec fn lists_records(lines: Seq<String>, records: Seq<(u64, u8, Seq<char>)>) -> bool {
    &&& lines.len() == records.len() + 2
    &&& lines[0]@ == header_line(Layout::Tar)
    &&& lines[1]@ == rule_line()
    &&& forall|i: int|
        0 <= i < records.len() ==> #[trigger] lines[i + 2]@ == entry_line(
            Layout::Tar,
            records[i].0,
            tar_kind_label(kind_of_flag(records[i].1)),
            records[i].2,
        )
}

/// A tar listing shows each record whole: after the header and rule there is
/// one line per record, in order, starting with its size in decimal and
/// ending, after a space, with its path exactly as read from the archive.
pub proof fn lemma_tar_lines_show_paths(lines: Seq<String>, records: Seq<(u64, u8, Seq<char>)>)
    requires
        lists_records(lines, records),
    ensures
        lines.len() == records.len() + 2,
        forall|i: int|
            0 <= i < records.len() ==> records[i].2.is_suffix_of(#[trigger] lines[i + 2]@) && lines[i + 2]@[lines[i
                + 2]@.len() - records[i].2.len() - 1] == ' ' && decimal(records[i].0 as nat).is_prefix_of(lines[i + 2]@),
{
    assert forall|i: int| 0 <= i < records.len() implies records[i].2.is_suffix_of(#[trigger] lines[i + 2]@) && lines[i
        + 2]@[lines[i + 2]@.len() - records[i].2.len() - 1] == ' ' && decimal(records[i].0 as nat).is_prefix_of(
        lines[i + 2]@,
    ) by {
        lemma_entry_line_shape(Layout::Tar, records[i].0, tar_kind_label(kind_of_flag(records[i].1)), records[i].2);
    }
}

/// The listing lines of tar records.
pub fn records_listing(records: &Vec<TarRecord>) -> (r: Vec<String>)
    ensures
        lists_records(r@, records@.map_values(|e: TarRecord| record_view(e))),
{
    let mut entries: Vec<TarEntry> = Vec::new();
    let mut i: usize = 0;
    while i < records.len()
        invariant
            i <= records.len(),
            entries.len() == i,
            forall|j: int|
                #![trigger entries[j]]
                0 <= j < i ==> entries[j].size == records[j].size && entries[j].kind == kind_of_flag(
                    records[j].type_flag,
                ) && entries[j].path@ == records[j].path@,
        decreases records.len() - i,
    {
        let rec = &records[i];
        let path = rec.path.clone();
        let entry = TarEntry { size: rec.size, kind: tar_kind(rec.type_flag), path };
        assert(entry.path@ == records[i as int].path@);
        entries.push(entry);
        i = i + 1;
    }
    let lines = tar_listing(&entries);
    let ghost recs = records@.map_values(|e: TarRecord| record_view(e));
    assert forall|i: int| 0 <= i < recs.len() implies #[trigger] lines@[i + 2]@ == entry_line(
        Layout::Tar,
        recs[i].0,
        tar_kind_label(kind_of_flag(recs[i].1)),
        recs[i].2,
    ) by {
        assert(entries[i].size == records[i].size);
    }
    lines
}

/// Lists the entries of the tar stream `data`.
pub fn list_tar(data: &[u8]) -> (r: Result<Vec<String>, ArchiveError>)
    ensures
        match tar_records(data@) {
            Some(recs) => r matches Ok(lines) && lists_records(lines@, recs),
            None => r matches Err(ArchiveError::Codec(_)),
        },
{
    match read_tar_records(data) {
        Ok(records) => Ok(records_listing(&records)),
        Err(reason) => Err(ArchiveError::Codec(reason)),
    }
}

/// A zip entry as plain values: size, modification time, name and
/// compression method number.
pub open spec fn zip_view(e: ZipEntry) -> (u64, Option<Timestamp>, Seq<char>, u16) {
    (e.size, e.modified, e.name@, e.method)
}

/// The entries that the `zip` crate reads from the zip archive `data`, in
/// central-directory order, when the archive and every entry read without error.
pub uninterp spec fn zip_records(data: Seq<u8>) -> Option<Seq<(u64, Option<Timestamp>, Seq<char>, u16)>>;

/// `zip::ZipArchive` over `data`, each entry taken by index as its size,
/// modification time fields, name and compression method number. Claimed:
/// it succeeds exactly when the crate reads the archive and every entry
/// without error, and then returns the entries it reads.
#[verifier::external_body]
#[allow(deprecated)]
fn read_zip_records(data: &[u8]) -> (r: Result<Vec<ZipEntry>, String>)
    ensures
        r is Ok <==> zip_records(data@) is Some,
        r matches Ok(v) ==> zip_records(data@) == Some(v@.map_values(|e: ZipEntry| zip_view(e))),
{
    let mut archive = match ZipArchive::new(Cursor::new(data)) { Ok(a) => a, Err(e) => return Err(e.to_string()) };
    let mut records = Vec::new();
    for i in 0..archive.len() {
        let entry = match archive.by_index(i) { Ok(en) => en, Err(e) => return Err(e.to_string()) };
        let modified = entry.last_modified().map(|t| Timestamp { year: t.year(), month: t.month(), day: t.day(), hour: t.hour(), minute: t.minute() });
        records.push(ZipEntry { size: entry.size(), modified, name: entry.name().to_string(), method: entry.compression().to_u16() });
    }
    Ok(records)
}

/// Whether `lines` list the zip entries `entries`: header, rule, then one line
/// per entry with its size, modification time and name.
pub open spec fn lists_zip(lines: Seq<String>, entries: Seq<(u64, Option<Timestamp>, Seq<char>, u16)>) -> bool {
    &&& lines.len() == entries.len() + 2
    &&& lines[0]@ == header_line(Layout::Zip)
    &&& lines[1]@ == rule_line()
    &&& forall|i: int|
        0 <= i < entries.len() ==> #[trigger] lines[i + 2]@ == entry_line(
            Layout::Zip,
            entries[i].0,
            timestamp_text(entries[i].1),
            entries[i].2,
        )
}

/// A zip listing shows each entry whole: after the header and rule there is
/// one line per entry, in order, starting with its size in decimal and
/// ending, after a space, with its name exactly as read from the archive.
pub proof fn lemma_zip_lines_show_names(lines: Seq<String>, entries: Seq<(u64, Option<Timestamp>, Seq<char>, u16)>)
    requires
        lists_zip(lines, entries),
    ensures
        lines.len() == entries.len() + 2,
        forall|i: int|
            0 <= i < entries.len() ==> entries[i].2.is_suffix_of(#[trigger] lines[i + 2]@) && lines[i + 2]@[lines[i
                + 2]@.len() - entries[i].2.len() - 1] == ' ' && decimal(entries[i].0 as nat).is_prefix_of(lines[i + 2]@),
{
    assert forall|i: int| 0 <= i < entries.len() implies entries[i].2.is_suffix_of(#[trigger] lines[i + 2]@) && lines[i
        + 2]@[lines[i + 2]@.len() - entries[i].2.len() - 1] == ' ' && decimal(entries[i].0 as nat).is_prefix_of(
        lines[i + 2]@,
    ) by {
        lemma_entry_line_shape(Layout::Zip, entries[i].0, timestamp_text(entries[i].1), entries[i].2);
    }
}

/// Lists the entries of the zip archive `data`.
pub fn list_zip(data: &[u8]) -> (r: Result<Vec<String>, ArchiveError>)
    ensures
        match zip_records(data@) {
            Some(entries) => r matches Ok(lines) && lists_zip(lines@, entries),
            None => r matches Err(ArchiveError::Codec(_)),
        },
{
    match read_zip_records(data) {
        Ok(entries) => {
            let lines = zip_listing(&entries);
            let ghost recs = entries@.map_values(|e: ZipEntry| zip_view(e));
            assert forall|i: int| 0 <= i < recs.len() implies #[trigger] lines@[i + 2]@ == entry_line(
                Layout::Zip,
                recs[i].0,
                timestamp_text(recs[i].1),
                recs[i].2,
            ) by {
                assert(lines[i + 2]@ == entry_line(Layout::Zip, entries[i].size, timestamp_text(entries[i].modified), entries[i].name@));
            }
            Ok(lines)
        },
        Err(reason) => Err(ArchiveError::Codec(reason)),
    }
}

/// A zip entry ready to unpack: its path under the output directory, whether
/// it is a directory, and its decompressed content.
pub struct ZipMember {
    pub path: String,
    pub is_directory: bool,
    pub data: Vec<u8>,
}

/// A zip member as plain values.
pub open spec fn member_view(m: ZipMember) -> (Seq<char>, bool, Seq<u8>) {
    (m.path@, m.is_directory, m.data@)
}

/// Whether `c` is one of the `/`-separated components of `p`.
pub open spec fn has_component(p: Seq<char>, c: Seq<char>) -> bool {
    exists|i: int|
        0 <= i <= p.len() - c.len() && #[trigger] p.subrange(i, i + c.len()) == c && (i == 0 || p[i - 1] == '/')
            && (i + c.len() == p.len() || p[i + c.len()] == '/')
}

/// Whether a path stays under the directory it is joined to: it is not
/// absolute and has no `..` component.
pub open spec fn stays_inside(p: Seq<char>) -> bool {
    (p.len() == 0 || p[0] != '/') && !has_component(p, seq!['.', '.'])
}

/// `s` up to its first NUL character, or all of it when it has none.
pub open spec fn before_nul(s: Seq<char>) -> Seq<char>
    decreases s.len(),
{
    if s.len() == 0 {
        s
    } else if s[0] == '\0' {
        Seq::empty()
    } else {
        seq![s[0]] + before_nul(s.drop_first())
    }
}

/// The path the zip crate unpacks an entry named `name` to (its
/// `mangled_name`, on a system whose separator is `/`): the name up to any
/// NUL, each `\` read as `/`, keeping only the parts that name entries,
/// joined with `/`.
pub open spec fn unpacked_path(name: Seq<char>) -> Seq<char> {
    join_path(normal_parts(split_path(before_nul(name).map_values(|c: char| if c == '\\' { '/' } else { c }))))
}

/// A plain relative name unpacks to itself, and so does it with a `/` added.
pub proof fn lemma_unpacked_plain(p: Seq<char>)
    requires
        plain_path(p),
    ensures
        unpacked_path(p) == p,
        unpacked_path(p.push('/')) == p,
        p.len() > 0 && p.last() != '/' && p.last() != '\\',
{
    lemma_plain_path_parts(p);
    lemma_before_nul_none(p);
    assert(!p.push('/').contains('\0')) by {
        if p.push('/').contains('\0') {
            let k = choose|k: int| 0 <= k < p.push('/').len() && p.push('/')[k] == '\0';
            assert(p[k] == '\0');
        }
    }
    lemma_before_nul_none(p.push('/'));
    assert(p.map_values(|c: char| if c == '\\' { '/' } else { c }) =~= p);
    assert(p.push('/').map_values(|c: char| if c == '\\' { '/' } else { c }) =~= p.push('/'));
    let parts = split_path(p);
    assert(parts.last() == parts[parts.len() - 1]);
    if p.len() == 0 {
        assert(parts =~= seq![Seq::<char>::empty()]);
    } else if p.last() == '/' {
        assert(parts.last() =~= Seq::<char>::empty());
    } else if p.last() == '\\' {
        assert(p.contains('\\')) by {
            assert(p[p.len() - 1] == '\\');
        }
    }
}

/// A name free of NUL is kept whole.
proof fn lemma_before_nul_none(s: Seq<char>)
    requires
        !s.contains('\0'),
    ensures
        before_nul(s) == s,
    decreases s.len(),
{
    if s.len() > 0 {
        assert(s[0] != '\0');
        assert(!s.drop_first().contains('\0')) by {
            if s.drop_first().contains('\0') {
                let k = choose|k: int| 0 <= k < s.drop_first().len() && s.drop_first()[k] == '\0';
                assert(s[k + 1] == '\0');
            }
        }
        lemma_before_nul_none(s.drop_first());
        assert(seq![s[0]] + s.drop_first() =~= s);
    }
}

/// A zip entry as the zip crate reads it: its sanitised path, whether it is
/// a directory, and its content read to the end, or why that failed.
pub struct ZipEntryRead {
    pub path: String,
    pub is_directory: bool,
    pub content: Result<Vec<u8>, String>,
}

/// A read zip entry as plain values, a failed read as `None`.
pub open spec fn read_view(m: ZipEntryRead) -> (Seq<char>, bool, Option<Seq<u8>>) {
    (
        m.path@,
        m.is_directory,
        match m.content {
            Ok(c) => Some(c@),
            Err(_) => None,
        },
    )
}

/// The entries that the `zip` crate finds in the zip archive `data`, in
/// central-directory order: each entry's sanitised name (`mangled_name`), its
/// directory flag and its decompressed content (`None` when reading it to the
/// end fails), when the archive and every entry's header read without error.
pub uninterp spec fn zip_members(data: Seq<u8>) -> Option<Seq<(Seq<char>, bool, Option<Seq<u8>>)>>;

/// `zip::ZipArchive` over `data`, each entry taken by index, with its
/// `mangled_name`, its directory flag and the outcome of reading it to the
/// end. Claimed: it succeeds exactly when the crate reads the archive and
/// every entry's header without error, and then returns the entries it reads;
/// every path is relative and free of `..`, as `mangled_name` keeps only the
/// normal components of a name (absolute prefixes, `.` and `..` are dropped).
#[verifier::external_body]
fn read_zip_members(data: &[u8]) -> (r: Result<Vec<ZipEntryRead>, String>)
    ensures
        r is Ok <==> zip_members(data@) is Some,
        r matches Ok(v) ==> zip_members(data@) == Some(v@.map_values(|m: ZipEntryRead| read_view(m))),
        r matches Ok(v) ==> forall|i: int| 0 <= i < v.len() ==> stays_inside(#[trigger] v[i].path@),
{
    let mut archive = match ZipArchive::new(Cursor::new(data)) { Ok(a) => a, Err(e) => return Err(e.to_string()) };
    let mut members = Vec::new();
    for i in 0..archive.len() {
        let mut entry = match archive.by_index(i) { Ok(en) => en, Err(e) => return Err(e.to_string()) };
        let mut buf = Vec::new();
        let content = match Read::read_to_end(&mut entry, &mut buf) { Ok(_) => Ok(buf), Err(e) => Err(e.to_string()) };
        members.push(ZipEntryRead { path: entry.mangled_name().to_string_lossy().into_owned(), is_directory: entry.is_dir(), content });
    }
    Ok(members)
}

/// Whether an entry can be unpacked: it is a directory, or its content reads.
pub open spec fn unpackable(m: (Seq<char>, bool, Option<Seq<u8>>)) -> bool {
    m.1 || m.2 is Some
}

/// Whether every entry can be unpacked.
pub open spec fn all_unpackable(ms: Seq<(Seq<char>, bool, Option<Seq<u8>>)>) -> bool {
    forall|i: int| 0 <= i < ms.len() ==> unpackable(#[trigger] ms[i])
}

/// What is unpacked for an entry: a directory with no content, or a file with
/// the content read.
pub open spec fn member_unpacked(m: (Seq<char>, bool, Option<Seq<u8>>)) -> (Seq<char>, bool, Seq<u8>) {
    (m.0, m.1, if m.1 { Seq::empty() } else { m.2->Some_0 })
}

/// The members to unpack from the zip archive `data`, each with a path that
/// stays under the output directory: directories with no content, files
/// with their content. It fails exactly when the archive or an entry's header
/// cannot be read, or a file's content cannot; a directory's is never used.
pub fn zip_extraction(data: &[u8]) -> (r: Result<Vec<ZipMember>, ArchiveError>)
    ensures
        match zip_members(data@) {
            Some(ms) => if all_unpackable(ms) {
                r matches Ok(v) && v@.map_values(|m: ZipMember| member_view(m)) == ms.map_values(
                    |m: (Seq<char>, bool, Option<Seq<u8>>)| member_unpacked(m),
                )
            } else {
                r matches Err(ArchiveError::Codec(_))
            },
            None => r matches Err(ArchiveError::Codec(_)),
        },
        r matches Ok(v) ==> forall|i: int| 0 <= i < v.len() ==> stays_inside(#[trigger] v[i].path@),
{
    let mut reads = match read_zip_members(data) {
        Ok(reads) => reads,
        Err(reason) => return Err(ArchiveError::Codec(reason)),
    };
    let ghost ms = reads@.map_values(|m: ZipEntryRead| read_view(m));
    let n = reads.len();
    let mut i: usize = 0;
    while i < n
        invariant
            n == reads.len(),
            i <= n,
            ms == reads@.map_values(|m: ZipEntryRead| read_view(m)),
            zip_members(data@) == Some(ms),
            forall|j: int| 0 <= j < reads.len() ==> stays_inside(#[trigger] reads[j].path@),
            forall|j: int| 0 <= j < i ==> unpackable(#[trigger] ms[j]),
        decreases n - i,
    {
        if !reads[i].is_directory {
            if let Err(reason) = &reads[i].content {
                assert(!unpackable(ms[i as int]));
                return Err(ArchiveError::Codec(reason.clone()));
            }
        }
        assert(unpackable(ms[i as int]));
        i = i + 1;
    }
    let ghost us = ms.map_values(|m: (Seq<char>, bool, Option<Seq<u8>>)| member_unpacked(m));
    let mut backwards: Vec<ZipEntryRead> = Vec::new();
    while reads.len() > 0
        invariant
            reads.len() + backwards.len() == n,
            ms.len() == n,
            zip_members(data@) == Some(ms),
            forall|j: int| 0 <= j < n ==> unpackable(#[trigger] ms[j]),
            forall|j: int| 0 <= j < reads.len() ==> #[trigger] read_view(reads[j]) == ms[j] && stays_inside(reads[j].path@),
            forall|k: int|
                0 <= k < backwards.len() ==> #[trigger] read_view(backwards[k]) == ms[n - 1 - k] && stays_inside(backwards[k].path@),
        decreases reads.len(),
    {
        let m = reads.pop().unwrap();
        backwards.push(m);
    }
    let mut members: Vec<ZipMember> = Vec::new();
    while backwards.len() > 0
        invariant
            backwards.len() + members.len() == n,
            ms.len() == n,
            zip_members(data@) == Some(ms),
            us == ms.map_values(|m: (Seq<char>, bool, Option<Seq<u8>>)| member_unpacked(m)),
            forall|j: int| 0 <= j < n ==> unpackable(#[trigger] ms[j]),
            forall|k: int|
                0 <= k < backwards.len() ==> #[trigger] read_view(backwards[k]) == ms[n - 1 - k] && stays_inside(backwards[k].path@),
            forall|j: int| 0 <= j < members.len() ==> #[trigger] member_view(members[j]) == us[j] && stays_inside(members[j].path@),
        decreases backwards.len(),
    {
        let ghost k = backwards.len() - 1;
        let m = backwards.pop().unwrap();
        assert(read_view(m) == ms[members.len() as int]);
        let data = if m.is_directory {
            Vec::new()
        } else {
            match m.content {
                Ok(c) => c,
                Err(_) => Vec::new(),
            }
        };
        members.push(ZipMember { path: m.path, is_directory: m.is_directory, data });
    }
    assert(members@.map_values(|m: ZipMember| member_view(m)) =~= us);
    assert forall|j: int| 0 <= j < members.len() implies stays_inside(#[trigger] members[j].path@) by {
        assert(member_view(members[j]) == us[j]);
    }
    Ok(members)
}

/// A 7z entry as plain values: size, whether it is a directory, and name.
pub open spec fn sevenz_view(e: ArchiveEntry) -> (u64, bool, Seq<char>) {
    (e.size, e.is_directory, e.name@)
}

/// The entries that `sevenz_rust2` reads from the 7z archive `data`, in
/// archive order, when the archive reads without error and needs no password.
pub uninterp spec fn sevenz_records(data: Seq<u8>) -> Option<Seq<(u64, bool, Seq<char>)>>;

/// `sevenz_rust2::Archive::read` over `data` with no password, each file of
/// the archive taken as its size, directory flag and name. Claimed: it
/// succeeds exactly when the crate reads the archive without error, and then
/// returns the entries it reads.
#[verifier::external_body]
fn read_sevenz_records(data: &[u8]) -> (r: Result<Vec<ArchiveEntry>, String>)
    ensures
        r is Ok <==> sevenz_records(data@) is Some,
        r matches Ok(v) ==> sevenz_records(data@) == Some(v@.map_values(|e: ArchiveEntry| sevenz_view(e))),
{
    let mut cursor = Cursor::new(data);
    match sevenz_rust2::Archive::read(&mut cursor, &sevenz_rust2::Password::empty()) {
        Ok(archive) => Ok(archive.files.iter().map(|f| ArchiveEntry { size: f.size(), is_directory: f.is_directory(), name: f.name().to_string() }).collect()),
        Err(e) => Err(e.to_string()),
    }
}

/// Whether `lines` list 7z or RAR entries `entries`: header, rule, then one
/// line per entry with its size, attribute and name.
pub open spec fn lists_attributes(lines: Seq<String>, entries: Seq<(u64, bool, Seq<char>)>) -> bool {
    &&& lines.len() == entries.len() + 2
    &&& lines[0]@ == header_line(Layout::Attributes)
    &&& lines[1]@ == rule_line()
    &&& forall|i: int|
        0 <= i < entries.len() ==> #[trigger] lines[i + 2]@ == entry_line(
            Layout::Attributes,
            entries[i].0,
            attribute_label(entries[i].1),
            entries[i].2,
        )
}

/// A 7z or RAR listing shows each entry whole: after the header and rule
/// there is one line per entry, in order, starting with its size in decimal
/// and ending, after a space, with its name exactly as read from the archive.
pub proof fn lemma_attribute_lines_show_names(lines: Seq<String>, entries: Seq<(u64, bool, Seq<char>)>)
    requires
        lists_attributes(lines, entries),
    ensures
        lines.len() == entries.len() + 2,
        forall|i: int|
            0 <= i < entries.len() ==> entries[i].2.is_suffix_of(#[trigger] lines[i + 2]@) && lines[i + 2]@[lines[i
                + 2]@.len() - entries[i].2.len() - 1] == ' ' && decimal(entries[i].0 as nat).is_prefix_of(lines[i + 2]@),
{
    assert forall|i: int| 0 <= i < entries.len() implies entries[i].2.is_suffix_of(#[trigger] lines[i + 2]@) && lines[i
        + 2]@[lines[i + 2]@.len() - entries[i].2.len() - 1] == ' ' && decimal(entries[i].0 as nat).is_prefix_of(
        lines[i + 2]@,
    ) by {
        lemma_entry_line_shape(Layout::Attributes, entries[i].0, attribute_label(entries[i].1), entries[i].2);
    }
}

/// Lists the entries of the 7z archive `data`.
pub fn list_7z(data: &[u8]) -> (r: Result<Vec<String>, ArchiveError>)
    ensures
        match sevenz_records(data@) {
            Some(entries) => r matches Ok(lines) && lists_attributes(lines@, entries),
            None => r matches Err(ArchiveError::Codec(_)),
        },
{
    match read_sevenz_records(data) {
        Ok(entries) => {
            let lines = attribute_listing(&entries);
            let ghost recs = entries@.map_values(|e: ArchiveEntry| sevenz_view(e));
            assert forall|i: int| 0 <= i < recs.len() implies #[trigger] lines@[i + 2]@ == entry_line(
                Layout::Attributes,
                recs[i].0,
                attribute_label(recs[i].1),
                recs[i].2,
            ) by {
                assert(lines[i + 2]@ == entry_line(Layout::Attributes, entries[i].size, attribute_label(entries[i].is_directory), entries[i].name@));
            }
            Ok(lines)
        },
        Err(reason) => Err(ArchiveError::Codec(reason)),
    }
}

} // verus!
