use vstd::prelude::*;
use crate::error::ArchiveError;
use crate::format::Format;

verus! {

/// What the file system says a walked path is.
#[derive(Clone, Copy, Debug, PartialEq, Eq, Structural)]
pub enum PathKind {
    File,
    Directory,
    /// Neither a regular file nor a directory (a dangling link, a device, ...).
    Other,
}

/// A path met while walking a source directory, relative to that directory.
pub struct WalkedPath {
    pub relative: String,
    pub kind: PathKind,
}

/// What to add to a zip archive for a walked path.
pub enum ZipStep {
    /// The source directory itself: nothing to add.
    Skip,
    /// A directory entry under this name (ending in `/`).
    AddDirectory(String),
    /// A file entry under this name, holding the file's content.
    AddFile(String),
}

/// What to add to a tar archive for a walked path.
pub enum TarStep {
    /// The source directory itself, or a path that is neither file nor directory.
    Skip,
    /// The file, stored under this relative name.
    AppendFile(String),
    /// The directory, stored under this relative name.
    AppendDirectory(String),
}

/// Whether a zip step is the one for `relative` of kind `kind`: the source
/// directory itself adds nothing, a directory adds an entry named with a final
/// `/`, and anything else is added as a file.
pub open spec fn is_zip_step(step: ZipStep, relative: Seq<char>, kind: PathKind) -> bool {
    if relative.len() == 0 {
        step is Skip
    } else if kind == PathKind::Directory {
        step matches ZipStep::AddDirectory(name) && name@ == relative + "/"@
    } else {
        step matches ZipStep::AddFile(name) && name@ == relative
    }
}

/// Whether a tar step is the one for `relative` of kind `kind`: the source
/// directory itself and paths that are neither files nor directories add
/// nothing; files and directories are stored under their relative name.
pub open spec fn is_tar_step(step: TarStep, relative: Seq<char>, kind: PathKind) -> bool {
    if relative.len() == 0 || kind == PathKind::Other {
        step is Skip
    } else if kind == PathKind::File {
        step matches TarStep::AppendFile(name) && name@ == relative
    } else {
        step matches TarStep::AppendDirectory(name) && name@ == relative
    }
}

/// The zip step for a walked path.
pub fn zip_step(relative: &str, kind: PathKind) -> (r: ZipStep)
    ensures
        is_zip_step(r, relative@, kind),
        relative@.len() > 0 && kind == PathKind::Directory ==> (r matches ZipStep::AddDirectory(name) && name@.len()
            == relative@.len() + 1 && name@.subrange(0, relative@.len() as int) == relative@ && name@.last() == '/'),
        relative@.len() > 0 && kind != PathKind::Directory ==> (r matches ZipStep::AddFile(name) && name@ == relative@),
{
    if relative.unicode_len() == 0 {
        ZipStep::Skip
    } else if kind == PathKind::Directory {
        let name = String::from_str(relative).concat("/");
        proof {
            reveal_strlit("/");
            assert(name@.subrange(0, relative@.len() as int) =~= relative@);
        }
        ZipStep::AddDirectory(name)
    } else {
        ZipStep::AddFile(String::from_str(relative))
    }
}

/// The tar step for a walked path.
pub fn tar_step(relative: &str, kind: PathKind) -> (r: TarStep)
    ensures
        is_tar_step(r, relative@, kind),
        relative@.len() > 0 && kind == PathKind::File ==> (r matches TarStep::AppendFile(name) && name@ == relative@),
        relative@.len() > 0 && kind == PathKind::Directory ==> (r matches TarStep::AppendDirectory(name) && name@
            == relative@),
{
    if relative.unicode_len() == 0 {
        TarStep::Skip
    } else {
        match kind {
            PathKind::File => TarStep::AppendFile(String::from_str(relative)),
            PathKind::Directory => TarStep::AppendDirectory(String::from_str(relative)),
            PathKind::Other => TarStep::Skip,
        }
    }
}

/// A walked path goes into a tar archive under its whole relative path: a
/// file or directory is stored under exactly that path, nothing of it
/// dropped; only the source directory itself and paths that are neither are
/// skipped.
pub proof fn lemma_tar_step_keeps_path(step: TarStep, relative: Seq<char>, kind: PathKind)
    requires
        is_tar_step(step, relative, kind),
    ensures
        match step {
            TarStep::AppendFile(name) => kind == PathKind::File && name@ == relative && relative.len() > 0,
            TarStep::AppendDirectory(name) => kind == PathKind::Directory && name@ == relative && relative.len() > 0,
            TarStep::Skip => relative.len() == 0 || kind == PathKind::Other,
        },
{
}

/// A walked path goes into a zip archive under its whole relative path: a
/// directory under that path with one `/` added, anything else under exactly
/// that path; only the source directory itself is skipped.
pub proof fn lemma_zip_step_keeps_path(step: ZipStep, relative: Seq<char>, kind: PathKind)
    requires
        is_zip_step(step, relative, kind),
    ensures
        match step {
            ZipStep::AddFile(name) => kind != PathKind::Directory && name@ == relative && relative.len() > 0,
            ZipStep::AddDirectory(name) => kind == PathKind::Directory && relative.len() > 0 && name@.len() == relative.len() + 1
                && name@.subrange(0, relative.len() as int) == relative && name@.last() == '/',
            ZipStep::Skip => relative.len() == 0,
        },
{
    reveal_strlit("/");
    if let ZipStep::AddDirectory(name) = step {
        assert(name@.subrange(0, relative.len() as int) =~= relative);
    }
}

/// The zip steps for the paths of a walk, in walk order.
pub fn zip_plan(walk: &Vec<WalkedPath>) -> (r: Vec<ZipStep>)
    ensures
        r.len() == walk.len(),
        forall|i: int| 0 <= i < walk.len() ==> is_zip_step(#[trigger] r[i], walk[i].relative@, walk[i].kind),
{
    let mut steps: Vec<ZipStep> = Vec::new();
    let mut i: usize = 0;
    while i < walk.len()
        invariant
            i <= walk.len(),
            steps.len() == i,
            forall|j: int| 0 <= j < i ==> is_zip_step(#[trigger] steps[j], walk[j].relative@, walk[j].kind),
        decreases walk.len() - i,
    {
        steps.push(zip_step(walk[i].relative.as_str(), walk[i].kind));
        i = i + 1;
    }
    steps
}

/// The tar steps for the paths of a walk, in walk order.
pub fn tar_plan(walk: &Vec<WalkedPath>) -> (r: Vec<TarStep>)
    ensures
        r.len() == walk.len(),
        forall|i: int| 0 <= i < walk.len() ==> is_tar_step(#[trigger] r[i], walk[i].relative@, walk[i].kind),
{
    let mut steps: Vec<TarStep> = Vec::new();
    let mut i: usize = 0;
    while i < walk.len()
        invariant
            i <= walk.len(),
            steps.len() == i,
            forall|j: int| 0 <= j < i ==> is_tar_step(#[trigger] steps[j], walk[j].relative@, walk[j].kind),
        decreases walk.len() - i,
    {
        steps.push(tar_step(walk[i].relative.as_str(), walk[i].kind));
        i = i + 1;
    }
    steps
}

/// What reading the next header of a RAR archive gave.
pub enum RarEvent {
    /// A header, for a regular file or not.
    Header { is_file: bool },
    /// No more headers.
    End,
    /// Reading the header failed, for the reason given.
    Failed(String),
}

/// What to do next while extracting a RAR archive.
pub enum RarAction {
    /// Unpack the entry under the output directory, then read the next header.
    Extract,
    /// Pass over the entry, then read the next header.
    Skip,
    /// Extraction is complete.
    Finish,
    /// Stop with this error.
    Abort(ArchiveError),
}

/// The next action of a RAR extraction after `event`: files are unpacked,
/// other entries passed over, the end finishes and a failed read aborts.
pub fn rar_step(event: RarEvent) -> (r: RarAction)
    ensures
        match event {
            RarEvent::Header { is_file } => if is_file {
                r is Extract
            } else {
                r is Skip
            },
            RarEvent::End => r is Finish,
            RarEvent::Failed(reason) => r matches RarAction::Abort(ArchiveError::RarHeader(m)) && m@ == reason@,
        },
{
    match event {
        RarEvent::Header { is_file } => if is_file {
            RarAction::Extract
        } else {
            RarAction::Skip
        },
        RarEvent::End => RarAction::Finish,
        RarEvent::Failed(reason) => RarAction::Abort(ArchiveError::RarHeader(reason)),
    }
}

/// Refuses a source to compress that does not exist.
pub fn check_compress_source(source: &str, exists: bool) -> (r: Result<(), ArchiveError>)
    ensures
        exists <==> r is Ok,
        r matches Err(ArchiveError::SourcePathMissing(p)) ==> p@ == source@,
        r is Err ==> r matches Err(ArchiveError::SourcePathMissing(_)),
{
    if exists {
        Ok(())
    } else {
        Err(ArchiveError::SourcePathMissing(String::from_str(source)))
    }
}

/// Refuses an archive to read that does not exist.
pub fn check_archive_source(source: &str, exists: bool) -> (r: Result<(), ArchiveError>)
    ensures
        exists <==> r is Ok,
        r matches Err(ArchiveError::SourceFileMissing(p)) ==> p@ == source@,
        r is Err ==> r matches Err(ArchiveError::SourceFileMissing(_)),
{
    if exists {
        Ok(())
    } else {
        Err(ArchiveError::SourceFileMissing(String::from_str(source)))
    }
}

/// Refuses a source for a single-file format that does not exist or is not a
/// regular file.
pub fn check_single_file_source(source: &str, exists: bool, is_file: bool, format: Format) -> (r: Result<
    (),
    ArchiveError,
>)
    ensures
        (exists && is_file) <==> r is Ok,
        !exists ==> (r matches Err(ArchiveError::SourcePathMissing(p)) && p@ == source@),
        exists && !is_file ==> (r matches Err(ArchiveError::SingleFileOnly(f, p)) && f == format && p@
            == source@),
{
    check_compress_source(source, exists)?;
    if is_file {
        Ok(())
    } else {
        Err(ArchiveError::SingleFileOnly(format, String::from_str(source)))
    }
}

/// The line reported once an archive has been written.
pub fn compressed_message(output: &str) -> (r: String)
    ensures
        r@ == "已压缩到: "@ + output@,
{
    String::from_str("已压缩到: ").concat(output)
}

/// The line reported once an archive has been unpacked.
pub fn extracted_message(output: &str) -> (r: String)
    ensures
        r@ == "已解压到: "@ + output@,
{
    String::from_str("已解压到: ").concat(output)
}

/// The line reported once a tar archive has been packed.
pub fn packed_message(output: &str) -> (r: String)
    ensures
        r@ == "已打包到: "@ + output@,
{
    String::from_str("已打包到: ").concat(output)
}

/// The line reported once a tar archive has been unpacked.
pub fn unpacked_message(output: &str) -> (r: String)
    ensures
        r@ == "已解包到: "@ + output@,
{
    String::from_str("已解包到: ").concat(output)
}

} // verus!
