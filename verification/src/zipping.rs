use vstd::prelude::*;
use crate::error::ArchiveError;
use crate::packing::ZipStep;
use crate::listing::{Layout, entry_line, timestamp_text};
use crate::contents::{lists_zip, zip_records, zip_members, unpacked_path, lemma_unpacked_plain, all_unpackable, unpackable, member_unpacked};
use crate::parts::plain_path;

verus! {

/// A zip archive being written into a growing in-memory buffer through a
/// `zip::ZipWriter`. Its entries so far are named by `zip_written`, and
/// whether writes go to its last entry by `zip_open`.
#[verifier::external_body]
pub struct ZipBuilder {
    writer: zip::ZipWriter<std::io::Cursor<Vec<u8>>>,
}

/// How the content of a zip entry is stored.
#[derive(Clone, Copy, Debug, PartialEq, Eq, Structural)]
pub enum ZipCompression {
    Stored,
    Deflated,
}

/// How the tool stores file contents in a zip archive.
pub const ENTRY_COMPRESSION: ZipCompression = ZipCompression::Deflated;

/// The number that a zip entry's header holds for its compression method.
pub open spec fn method_code(m: ZipCompression) -> u16 {
    match m {
        ZipCompression::Stored => 0,
        ZipCompression::Deflated => 8,
    }
}

/// The entries a zip writer holds so far, in the order they were added: each
/// name, compression method number and the content written to it.
pub uninterp spec fn zip_written(w: ZipBuilder) -> Seq<(Seq<char>, u16, Seq<u8>)>;

/// Whether the zip writer has a file entry open, to which writes go.
pub uninterp spec fn zip_open(w: ZipBuilder) -> bool;

/// Whether the zip crate takes a name for a directory: it ends in a separator.
pub open spec fn is_directory_name(name: Seq<char>) -> bool {
    name.len() > 0 && (name.last() == '/' || name.last() == '\\')
}

/// The name the zip crate stores for a directory: the name itself when it
/// ends in a separator, the name followed by `/` otherwise.
pub open spec fn directory_entry_name(name: Seq<char>) -> Seq<char> {
    if is_directory_name(name) {
        name
    } else {
        name + "/"@
    }
}

/// Whether no entry of `entries` has the name `name`.
pub open spec fn fresh_name(entries: Seq<(Seq<char>, u16, Seq<u8>)>, name: Seq<char>) -> bool {
    forall|j: int| 0 <= j < entries.len() ==> #[trigger] entries[j].0 != name
}

/// Whether the names of `entries` are pairwise distinct.
pub open spec fn names_distinct(entries: Seq<(Seq<char>, u16, Seq<u8>)>) -> bool {
    forall|j: int, k: int| 0 <= j < k < entries.len() ==> #[trigger] entries[j].0 != #[trigger] entries[k].0
}

/// An upper bound on the bytes that `entries` take in an archive: per entry a
/// local header (30 bytes and the UTF-8 name) and the deflated content, which
/// is never more than twice the content and a few bytes.
pub open spec fn entries_size(entries: Seq<(Seq<char>, u16, Seq<u8>)>) -> int
    decreases entries.len(),
{
    if entries.len() == 0 {
        0
    } else {
        entries_size(entries.drop_last()) + vstd::utf8::encode_utf8(entries.last().0).len() + 2 * entries.last().2.len() + 64
    }
}

/// The size under which an archive is read back as written: no entry or
/// offset reaches the 4 GiB limit of a zip file without the large-file option.
pub const ZIP_SIZE_BOUND: u64 = 0x8000_0000;

/// The content size under which an entry is written: deflated, it stays
/// under the 4 GiB limit of an entry without the large-file option.
pub const ZIP_ENTRY_BOUND: u64 = 0x8000_0000;

/// Whether every entry's content is under `ZIP_ENTRY_BOUND`.
pub open spec fn entries_fit(entries: Seq<(Seq<char>, u16, Seq<u8>)>) -> bool {
    forall|i: int| 0 <= i < entries.len() ==> #[trigger] entries[i].2.len() < ZIP_ENTRY_BOUND
}

/// Whether the entry the writer has open, if any, has content under
/// `ZIP_ENTRY_BOUND`.
pub open spec fn open_fits(w: ZipBuilder) -> bool {
    zip_open(w) ==> zip_written(w).len() > 0 && zip_written(w).last().2.len() < ZIP_ENTRY_BOUND
}

/// Whether an archive of `entries` stays under `ZIP_SIZE_BOUND`.
pub open spec fn within_bound(entries: Seq<(Seq<char>, u16, Seq<u8>)>) -> bool {
    entries_size(entries) < ZIP_SIZE_BOUND
}

/// `entries` with `data` appended to the content of the last one.
pub open spec fn appended(entries: Seq<(Seq<char>, u16, Seq<u8>)>, data: Seq<u8>) -> Seq<(Seq<char>, u16, Seq<u8>)> {
    entries.update(entries.len() - 1, (entries.last().0, entries.last().1, entries.last().2 + data))
}

/// Whether the zip crate reads the archive `data` back as `entries`: the
/// listing records carry each name, content size and compression method, and
/// the unpacked members each path, directory flag and content, in order.
pub open spec fn reads_back(data: Seq<u8>, entries: Seq<(Seq<char>, u16, Seq<u8>)>) -> bool {
    &&& zip_records(data) matches Some(recs) && recs.len() == entries.len() && forall|i: int|
        0 <= i < recs.len() ==> #[trigger] recs[i].2 == entries[i].0 && recs[i].0 == entries[i].2.len() && recs[i].3 == entries[i].1
    &&& zip_members(data) matches Some(ms) && ms.len() == entries.len() && forall|i: int|
        0 <= i < ms.len() ==> #[trigger] ms[i].2 == Some(entries[i].2) && ms[i].1 == is_directory_name(entries[i].0)
            && ms[i].0 == unpacked_path(entries[i].0)
}

/// `zip::ZipWriter::new` over an empty in-memory cursor. Claimed: it holds no
/// entries and has none open.
#[verifier::external_body]
fn new_zip_writer() -> (w: ZipBuilder)
    ensures
        zip_written(w) == Seq::<(Seq<char>, u16, Seq<u8>)>::empty(),
        !zip_open(w),
{
    ZipBuilder { writer: zip::ZipWriter::new(std::io::Cursor::new(Vec::new())) }
}

/// `ZipWriter::start_file` with the given compression. Claimed: it fails on a
/// name already present (the entry map refuses it), and succeeds when the name
/// is new and the open entry, if any, has content under `ZIP_ENTRY_BOUND`
/// (closing it then passes the size check); on success the writer holds one
/// more entry, open, under `name` with that method and no content yet.
/// The crate panics on a name of 64 KiB or more, so names are kept shorter.
#[verifier::external_body]
fn zip_start_file(w: &mut ZipBuilder, name: &str, method: ZipCompression) -> (r: Result<(), String>)
    requires
        vstd::utf8::encode_utf8(name@).len() < 65536,
    ensures
        fresh_name(zip_written(*old(w)), name@) && open_fits(*old(w)) ==> r is Ok,
        r is Ok ==> fresh_name(zip_written(*old(w)), name@) && zip_open(*final(w)) && zip_written(*final(w))
            == zip_written(*old(w)).push((name@, method_code(method), Seq::empty())),
{
    let method = match method { ZipCompression::Stored => zip::CompressionMethod::Stored, ZipCompression::Deflated => zip::CompressionMethod::Deflated };
    let options = zip::write::SimpleFileOptions::default().compression_method(method);
    match w.writer.start_file(name, options) { Ok(()) => Ok(()), Err(e) => Err(e.to_string()) }
}

/// `ZipWriter::add_directory` with the given options' compression, which the
/// crate replaces by storing. Claimed: it fails on a name (with the separator
/// it adds) already present, and succeeds when that name is new and the open
/// entry, if any, has content under `ZIP_ENTRY_BOUND`; on success the writer holds
/// one more entry, stored and empty, and none open. The crate panics on a name
/// of 64 KiB or more, so names (with the separator) are kept shorter.
#[verifier::external_body]
fn zip_add_directory(w: &mut ZipBuilder, name: &str, method: ZipCompression) -> (r: Result<(), String>)
    requires
        vstd::utf8::encode_utf8(name@).len() < 65535,
    ensures
        fresh_name(zip_written(*old(w)), directory_entry_name(name@)) && open_fits(*old(w)) ==> r is Ok,
        r is Ok ==> fresh_name(zip_written(*old(w)), directory_entry_name(name@)) && !zip_open(*final(w))
            && zip_written(*final(w)) == zip_written(*old(w)).push(
            (directory_entry_name(name@), method_code(ZipCompression::Stored), Seq::empty()),
        ),
{
    let method = match method { ZipCompression::Stored => zip::CompressionMethod::Stored, ZipCompression::Deflated => zip::CompressionMethod::Deflated };
    let options = zip::write::SimpleFileOptions::default().compression_method(method);
    match w.writer.add_directory(name, options) { Ok(()) => Ok(()), Err(e) => Err(e.to_string()) }
}

/// `Write::write_all` on the writer. Claimed: empty `data` succeeds and
/// changes nothing (no write is made); other data fails when no file entry is
/// open, succeeds when one is and its content with `data` added stays under
/// `ZIP_ENTRY_BOUND`, and on success is appended to the open entry's content.
#[verifier::external_body]
fn zip_write(w: &mut ZipBuilder, data: &[u8]) -> (r: Result<(), String>)
    ensures
        data@.len() == 0 ==> r is Ok && zip_written(*final(w)) == zip_written(*old(w)) && zip_open(*final(w)) == zip_open(*old(w)),
        data@.len() > 0 && !zip_open(*old(w)) ==> r is Err,
        zip_open(*old(w)) && zip_written(*old(w)).len() > 0 && zip_written(*old(w)).last().2.len() + data@.len()
            < ZIP_ENTRY_BOUND ==> r is Ok,
        r is Ok && data@.len() > 0 ==> zip_open(*old(w)) && zip_written(*old(w)).len() > 0 && zip_open(*final(w))
            && zip_written(*final(w)) == appended(zip_written(*old(w)), data@),
{
    match std::io::Write::write_all(&mut w.writer, data) { Ok(()) => Ok(()), Err(e) => Err(e.to_string()) }
}

/// `ZipWriter::finish`, taking the bytes out of the cursor. Claimed: it
/// succeeds when the open entry, if any, has content under `ZIP_ENTRY_BOUND`
/// (closing it then passes the size check), and when the archive stays under
/// `ZIP_SIZE_BOUND` the zip crate reads it back as the entries written; of
/// what larger archives read back as nothing is said.
#[verifier::external_body]
fn zip_finish(w: ZipBuilder) -> (r: Result<Vec<u8>, String>)
    ensures
        open_fits(w) ==> r is Ok,
        within_bound(zip_written(w)) ==> (r matches Ok(out) ==> reads_back(out@, zip_written(w))),
{
    match w.writer.finish() { Ok(cursor) => Ok(cursor.into_inner()), Err(e) => Err(e.to_string()) }
}

/// The entries that a sequence of zip steps adds, with `contents[i]` the
/// content of the file of step `i`: nothing for a skip, an empty stored
/// directory entry, or a deflated file entry holding its content.
pub open spec fn planned_entries(steps: Seq<ZipStep>, contents: Seq<Seq<u8>>) -> Seq<(Seq<char>, u16, Seq<u8>)>
    decreases steps.len(),
{
    if steps.len() == 0 {
        Seq::empty()
    } else {
        let before = planned_entries(steps.drop_last(), contents.take(steps.len() - 1));
        match steps.last() {
            ZipStep::Skip => before,
            ZipStep::AddDirectory(name) => before.push(
                (directory_entry_name(name@), method_code(ZipCompression::Stored), Seq::empty()),
            ),
            ZipStep::AddFile(name) => before.push(
                (name@, method_code(ZipCompression::Deflated), contents[steps.len() - 1]),
            ),
        }
    }
}

/// Whether every name of the steps is short enough for the zip crate.
pub open spec fn names_fit(steps: Seq<ZipStep>) -> bool {
    forall|i: int|
        0 <= i < steps.len() ==> match #[trigger] steps[i] {
            ZipStep::Skip => true,
            ZipStep::AddDirectory(name) => vstd::utf8::encode_utf8(name@).len() < 65535,
            ZipStep::AddFile(name) => vstd::utf8::encode_utf8(name@).len() < 65536,
        }
}

/// The entries planned for the first `i` steps come first among those
/// planned for all of them.
proof fn lemma_planned_prefix(steps: Seq<ZipStep>, contents: Seq<Seq<u8>>, i: int)
    requires
        0 <= i <= steps.len(),
        contents.len() == steps.len(),
    ensures
        planned_entries(steps.take(i), contents.take(i)).len() <= planned_entries(steps, contents).len(),
        planned_entries(steps.take(i), contents.take(i)) == planned_entries(steps, contents).take(
            planned_entries(steps.take(i), contents.take(i)).len() as int,
        ),
    decreases steps.len(),
{
    let p = planned_entries(steps.take(i), contents.take(i));
    let full = planned_entries(steps, contents);
    if i == steps.len() {
        assert(steps.take(i) =~= steps);
        assert(contents.take(i) =~= contents);
        assert(full.take(full.len() as int) =~= full);
    } else {
        let n = steps.len();
        lemma_planned_prefix(steps.drop_last(), contents.take(n - 1), i);
        assert(steps.drop_last().take(i) =~= steps.take(i));
        assert(contents.take(n - 1).take(i) =~= contents.take(i));
        let before = planned_entries(steps.drop_last(), contents.take(n - 1));
        assert(full.take(p.len() as int) =~= before.take(p.len() as int));
    }
}

/// When all planned entries have distinct names and fit the entry bound, the
/// entry of step `i`, if any, has a name that none before it has and content
/// under the bound.
proof fn lemma_step_fits(steps: Seq<ZipStep>, contents: Seq<Seq<u8>>, i: int)
    requires
        0 <= i < steps.len(),
        contents.len() == steps.len(),
        names_distinct(planned_entries(steps, contents)),
        entries_fit(planned_entries(steps, contents)),
    ensures
        planned_entries(steps.take(i + 1), contents.take(i + 1)).len() > planned_entries(steps.take(i), contents.take(i)).len()
            ==> fresh_name(
            planned_entries(steps.take(i), contents.take(i)),
            planned_entries(steps.take(i + 1), contents.take(i + 1)).last().0,
        ) && planned_entries(steps.take(i + 1), contents.take(i + 1)).last().2.len() < ZIP_ENTRY_BOUND,
{
    let full = planned_entries(steps, contents);
    let before = planned_entries(steps.take(i), contents.take(i));
    let after = planned_entries(steps.take(i + 1), contents.take(i + 1));
    lemma_planned_prefix(steps, contents, i + 1);
    assert(steps.take(i + 1).drop_last() =~= steps.take(i));
    assert(contents.take(i + 1).take(i) =~= contents.take(i));
    if after.len() > before.len() {
        assert(after == before.push(after.last()));
        assert(after.last() == full[before.len() as int]);
        assert forall|j: int| 0 <= j < before.len() implies #[trigger] before[j].0 != after.last().0 by {
            assert(before[j] == after[j]);
            assert(after[j] == full[j]);
        }
    }
}

/// Whether every name of the steps is a plain relative path.
pub open spec fn plain_names(steps: Seq<ZipStep>) -> bool {
    forall|i: int|
        0 <= i < steps.len() ==> match #[trigger] steps[i] {
            ZipStep::Skip => true,
            ZipStep::AddDirectory(name) => plain_path(name@),
            ZipStep::AddFile(name) => plain_path(name@),
        }
}

/// What the steps should unpack to, with `contents[i]` the content of the
/// file of step `i`: for each file step its name, not a directory, with its
/// content; for each directory step its name, a directory, empty.
pub open spec fn planned_members(steps: Seq<ZipStep>, contents: Seq<Seq<u8>>) -> Seq<(Seq<char>, bool, Seq<u8>)>
    decreases steps.len(),
{
    if steps.len() == 0 {
        Seq::empty()
    } else {
        let before = planned_members(steps.drop_last(), contents.take(steps.len() - 1));
        match steps.last() {
            ZipStep::Skip => before,
            ZipStep::AddDirectory(name) => before.push((name@, true, Seq::empty())),
            ZipStep::AddFile(name) => before.push((name@, false, contents[steps.len() - 1])),
        }
    }
}

/// How the zip crate unpacks an entry: its path, directory flag and content.
pub open spec fn unpacked(e: (Seq<char>, u16, Seq<u8>)) -> (Seq<char>, bool, Seq<u8>) {
    (unpacked_path(e.0), is_directory_name(e.0), e.2)
}

/// With plain names, the planned entries unpack to the planned members.
proof fn lemma_planned_unpack(steps: Seq<ZipStep>, contents: Seq<Seq<u8>>)
    requires
        contents.len() == steps.len(),
        plain_names(steps),
    ensures
        planned_entries(steps, contents).map_values(|e: (Seq<char>, u16, Seq<u8>)| unpacked(e)) == planned_members(
            steps,
            contents,
        ),
        forall|i: int|
            0 <= i < planned_members(steps, contents).len() && (#[trigger] planned_members(steps, contents)[i]).1
                ==> planned_members(steps, contents)[i].2 == Seq::<u8>::empty(),
    decreases steps.len(),
{
    if steps.len() > 0 {
        let n = steps.len();
        assert forall|i: int| 0 <= i < steps.drop_last().len() implies match #[trigger] steps.drop_last()[i] {
            ZipStep::Skip => true,
            ZipStep::AddDirectory(name) => plain_path(name@),
            ZipStep::AddFile(name) => plain_path(name@),
        } by {
            assert(steps.drop_last()[i] == steps[i]);
        }
        lemma_planned_unpack(steps.drop_last(), contents.take(n - 1));
        let before = planned_entries(steps.drop_last(), contents.take(n - 1));
        assert(steps.last() == steps[n - 1]);
        match steps.last() {
            ZipStep::Skip => {},
            ZipStep::AddDirectory(name) => {
                lemma_unpacked_plain(name@);
                reveal_strlit("/");
                assert(name@ + "/"@ =~= name@.push('/'));
                let e = (directory_entry_name(name@), method_code(ZipCompression::Stored), Seq::<u8>::empty());
                assert(is_directory_name(name@.push('/')));
                assert(unpacked(e) == (name@, true, Seq::<u8>::empty()));
                assert(before.push(e).map_values(|e: (Seq<char>, u16, Seq<u8>)| unpacked(e)) =~= before.map_values(
                    |e: (Seq<char>, u16, Seq<u8>)| unpacked(e),
                ).push(unpacked(e)));
            },
            ZipStep::AddFile(name) => {
                lemma_unpacked_plain(name@);
                let e = (name@, method_code(ZipCompression::Deflated), contents[n - 1]);
                assert(unpacked(e) == (name@, false, contents[n - 1]));
                assert(before.push(e).map_values(|e: (Seq<char>, u16, Seq<u8>)| unpacked(e)) =~= before.map_values(
                    |e: (Seq<char>, u16, Seq<u8>)| unpacked(e),
                ).push(unpacked(e)));
            },
        }
    }
}

/// What is unpacked from a built archive is what was put in: when an archive
/// reads back as the entries that steps with plain names plan, every entry
/// of it can be unpacked, and the members unpacked are exactly the planned
/// ones, in order: each file at its name with its content, each directory at
/// its name.
pub proof fn lemma_zip_round_trip(steps: Seq<ZipStep>, contents: Seq<Seq<u8>>, data: Seq<u8>)
    requires
        contents.len() == steps.len(),
        plain_names(steps),
        reads_back(data, planned_entries(steps, contents)),
    ensures
        zip_members(data) matches Some(ms) && all_unpackable(ms) && ms.map_values(
            |m: (Seq<char>, bool, Option<Seq<u8>>)| member_unpacked(m),
        ) == planned_members(steps, contents),
{
    let entries = planned_entries(steps, contents);
    lemma_planned_unpack(steps, contents);
    let pm = planned_members(steps, contents);
    let ms = zip_members(data)->Some_0;
    assert forall|i: int| 0 <= i < ms.len() implies unpackable(#[trigger] ms[i]) && member_unpacked(ms[i]) == pm[i] by {
        assert(ms[i].2 == Some(entries[i].2));
        assert(pm[i] == unpacked(entries[i]));
    }
    assert(ms.map_values(|m: (Seq<char>, bool, Option<Seq<u8>>)| member_unpacked(m)) =~= pm);
}

/// A built archive lists what was put in: when an archive reads back as
/// `entries` and `lines` list its records, there is one line per entry after
/// the header and rule, in order, each with the entry's content size and
/// ending in its name.
pub proof fn lemma_zip_listing(data: Seq<u8>, entries: Seq<(Seq<char>, u16, Seq<u8>)>, lines: Seq<String>)
    requires
        reads_back(data, entries),
        zip_records(data) matches Some(recs) && lists_zip(lines, recs),
    ensures
        lines.len() == entries.len() + 2,
        forall|i: int|
            0 <= i < entries.len() ==> #[trigger] lines[i + 2]@ == entry_line(
                Layout::Zip,
                entries[i].2.len() as u64,
                timestamp_text(zip_records(data)->Some_0[i].1),
                entries[i].0,
            ),
{
    let recs = zip_records(data)->Some_0;
    assert forall|i: int| 0 <= i < entries.len() implies #[trigger] lines[i + 2]@ == entry_line(
        Layout::Zip,
        entries[i].2.len() as u64,
        timestamp_text(recs[i].1),
        entries[i].0,
    ) by {
        assert(recs[i].2 == entries[i].0);
        assert(lines[i + 2]@ == entry_line(Layout::Zip, recs[i].0, timestamp_text(recs[i].1), recs[i].2));
    }
}

/// Builds a zip archive from planned steps, storing file contents deflated.
/// It fails when two planned entries share a name, and succeeds when the
/// names are distinct and every content is under `ZIP_ENTRY_BOUND`; when the
/// archive stays under `ZIP_SIZE_BOUND` it then reads back with the planned
/// entries, in order, under the planned names, methods and contents.
pub fn zip_archive(steps: &Vec<ZipStep>, contents: &Vec<Vec<u8>>) -> (r: Result<Vec<u8>, ArchiveError>)
    requires
        contents.len() == steps.len(),
        names_fit(steps@),
    ensures
        names_distinct(planned_entries(steps@, contents@.map_values(|c: Vec<u8>| c@))) && entries_fit(
            planned_entries(steps@, contents@.map_values(|c: Vec<u8>| c@)),
        ) ==> r is Ok,
        r is Ok ==> names_distinct(planned_entries(steps@, contents@.map_values(|c: Vec<u8>| c@))),
        within_bound(planned_entries(steps@, contents@.map_values(|c: Vec<u8>| c@))) ==> (r matches Ok(out) ==> reads_back(
            out@,
            planned_entries(steps@, contents@.map_values(|c: Vec<u8>| c@)),
        )),
        r is Err ==> r matches Err(ArchiveError::Codec(_)),
{
    let ghost cv = contents@.map_values(|c: Vec<u8>| c@);
    let ghost full = planned_entries(steps@, cv);
    let ghost fits = names_distinct(full) && entries_fit(full);
    let mut w = new_zip_writer();
    let mut i: usize = 0;
    while i < steps.len()
        invariant
            i <= steps.len() == contents.len(),
            names_fit(steps@),
            cv == contents@.map_values(|c: Vec<u8>| c@),
            full == planned_entries(steps@, cv),
            fits == (names_distinct(full) && entries_fit(full)),
            zip_written(w) == planned_entries(steps@.take(i as int), cv.take(i as int)),
            names_distinct(zip_written(w)),
            fits ==> open_fits(w),
        decreases steps.len() - i,
    {
        let ghost before = zip_written(w);
        proof {
            assert(steps@.take(i + 1).drop_last() =~= steps@.take(i as int));
            assert(cv.take(i + 1).take(i as int) =~= cv.take(i as int));
            assert(steps@.take(i + 1).last() == steps@[i as int]);
            assert(cv.take(i + 1)[i as int] == contents@[i as int]@);
            if fits {
                lemma_step_fits(steps@, cv, i as int);
            }
        }
        match &steps[i] {
            ZipStep::Skip => {},
            ZipStep::AddDirectory(name) => {
                if let Err(reason) = zip_add_directory(&mut w, name.as_str(), ENTRY_COMPRESSION) {
                    return Err(ArchiveError::Codec(reason));
                }
            },
            ZipStep::AddFile(name) => {
                if let Err(reason) = zip_start_file(&mut w, name.as_str(), ENTRY_COMPRESSION) {
                    return Err(ArchiveError::Codec(reason));
                }
                let ghost started = zip_written(w);
                proof {
                    assert(appended(started, contents@[i as int]@) =~= before.push(
                        (name@, method_code(ZipCompression::Deflated), contents@[i as int]@),
                    ));
                }
                if let Err(reason) = zip_write(&mut w, contents[i].as_slice()) {
                    return Err(ArchiveError::Codec(reason));
                }
                proof {
                    assert(Seq::<u8>::empty() + contents@[i as int]@ =~= contents@[i as int]@);
                    assert(zip_written(w) =~= before.push((name@, method_code(ZipCompression::Deflated), contents@[i as int]@)));
                }
            },
        }
        i = i + 1;
    }
    proof {
        assert(steps@.take(steps.len() as int) =~= steps@);
        assert(cv.take(steps.len() as int) =~= cv);
    }
    match zip_finish(w) {
        Ok(out) => Ok(out),
        Err(reason) => Err(ArchiveError::Codec(reason)),
    }
}

} // verus!
