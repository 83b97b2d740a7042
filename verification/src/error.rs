use vstd::prelude::*;
use crate::format::Format;

verus! {

/// What the tool refuses or fails at.
#[derive(Debug)]
pub enum ArchiveError {
    /// The path to compress does not exist.
    SourcePathMissing(String),
    /// The archive to read does not exist.
    SourceFileMissing(String),
    /// A single-file format (gz, bz2 or xz) was asked to compress a directory.
    SingleFileOnly(Format, String),
    /// RAR archives can be read but not written.
    RarCompressUnsupported,
    /// No format was given and none could be told from the extension.
    FormatNotDetected,
    /// Single-file formats hold no list of entries.
    ListUnsupported,
    /// Reading the next header of a RAR archive failed, for the reason given.
    RarHeader(String),
    /// A codec or archive library reported the failure described.
    Codec(String),
}

/// The file extension of a single-file format and that of its tar form.
pub open spec fn single_file_extensions(format: Format) -> (Seq<char>, Seq<char>) {
    match format {
        Format::Gz => ("gz"@, "tar.gz"@),
        Format::Bz2 => ("bz2"@, "tar.bz2"@),
        _ => ("xz"@, "tar.xz"@),
    }
}

/// The message shown for an error.
pub open spec fn message_of(e: ArchiveError) -> Seq<char> {
    match e {
        ArchiveError::SourcePathMissing(p) => "源路径不存在: "@ + p@,
        ArchiveError::SourceFileMissing(p) => "源文件不存在: "@ + p@,
        ArchiveError::SingleFileOnly(f, p) => single_file_extensions(f).0 + " 只支持单文件压缩，目录请使用 "@
            + single_file_extensions(f).1 + " 格式: "@ + p@,
        ArchiveError::RarCompressUnsupported => "RAR 格式不支持压缩，仅支持解压"@,
        ArchiveError::FormatNotDetected => "无法自动检测格式，请使用 -f 指定格式"@,
        ArchiveError::ListUnsupported => "单文件压缩格式不支持列出内容，请直接解压"@,
        ArchiveError::RarHeader(reason) => "读取 RAR 头部失败: "@ + reason@,
        ArchiveError::Codec(reason) => reason@,
    }
}

impl ArchiveError {
    /// The message shown for this error.
    pub fn message(&self) -> (r: String)
        ensures
            r@ == message_of(*self),
    {
        match self {
            ArchiveError::SourcePathMissing(p) => String::from_str("源路径不存在: ").concat(p.as_str()),
            ArchiveError::SourceFileMissing(p) => String::from_str("源文件不存在: ").concat(p.as_str()),
            ArchiveError::SingleFileOnly(f, p) => {
                let (ext, tar_ext) = match f {
                    Format::Gz => ("gz", "tar.gz"),
                    Format::Bz2 => ("bz2", "tar.bz2"),
                    _ => ("xz", "tar.xz"),
                };
                String::from_str(ext).concat(" 只支持单文件压缩，目录请使用 ").concat(tar_ext).concat(
                    " 格式: ",
                ).concat(p.as_str())
            },
            ArchiveError::RarCompressUnsupported => String::from_str("RAR 格式不支持压缩，仅支持解压"),
            ArchiveError::FormatNotDetected => String::from_str("无法自动检测格式，请使用 -f 指定格式"),
            ArchiveError::ListUnsupported => String::from_str("单文件压缩格式不支持列出内容，请直接解压"),
            ArchiveError::RarHeader(reason) => String::from_str("读取 RAR 头部失败: ").concat(
                reason.as_str(),
            ),
            ArchiveError::Codec(reason) => String::from_str(reason.as_str()),
        }
    }
}

} // verus!
