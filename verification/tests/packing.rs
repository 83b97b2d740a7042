use archive::codec::{bzip2_compress, bzip2_decompress, gzip_compress, gzip_decompress, xz_compress, xz_decompress};
use archive::command::{plan_compress, plan_extract, Task};
use archive::error::ArchiveError;
use archive::format::Format;
use archive::packing::{
    check_archive_source, check_compress_source, check_single_file_source, compressed_message,
    extracted_message, packed_message, unpacked_message, rar_step, tar_plan, tar_step, zip_plan, zip_step, PathKind, RarAction, RarEvent,
    TarStep, WalkedPath, ZipStep,
};
use std::path::Path;

#[test]
fn zip_steps() {
    assert!(matches!(zip_step("", PathKind::Directory), ZipStep::Skip));
    match zip_step("sub", PathKind::Directory) {
        ZipStep::AddDirectory(n) => assert_eq!(n, "sub/"),
        _ => panic!("directory expected"),
    }
    match zip_step("sub/b.txt", PathKind::File) {
        ZipStep::AddFile(n) => assert_eq!(n, "sub/b.txt"),
        _ => panic!("file expected"),
    }
    match zip_step("odd", PathKind::Other) {
        ZipStep::AddFile(n) => assert_eq!(n, "odd"),
        _ => panic!("anything but a directory is added as a file"),
    }
}

#[test]
fn tar_steps() {
    assert!(matches!(tar_step("", PathKind::File), TarStep::Skip));
    assert!(matches!(tar_step("link", PathKind::Other), TarStep::Skip));
    match tar_step("a.txt", PathKind::File) {
        TarStep::AppendFile(n) => assert_eq!(n, "a.txt"),
        _ => panic!("file expected"),
    }
    match tar_step("sub", PathKind::Directory) {
        TarStep::AppendDirectory(n) => assert_eq!(n, "sub"),
        _ => panic!("directory expected"),
    }
}

#[test]
fn plans_follow_the_walk() {
    let walk = vec![
        WalkedPath { relative: "".to_string(), kind: PathKind::Directory },
        WalkedPath { relative: "a.txt".to_string(), kind: PathKind::File },
        WalkedPath { relative: "sub".to_string(), kind: PathKind::Directory },
        WalkedPath { relative: "sub/b.txt".to_string(), kind: PathKind::File },
    ];
    let z = zip_plan(&walk);
    assert_eq!(z.len(), 4);
    assert!(matches!(z[0], ZipStep::Skip));
    assert!(matches!(&z[2], ZipStep::AddDirectory(n) if n == "sub/"));
    assert!(matches!(&z[3], ZipStep::AddFile(n) if n == "sub/b.txt"));
    let t = tar_plan(&walk);
    assert_eq!(t.len(), 4);
    assert!(matches!(t[0], TarStep::Skip));
    assert!(matches!(&t[1], TarStep::AppendFile(n) if n == "a.txt"));
    assert!(matches!(&t[2], TarStep::AppendDirectory(n) if n == "sub"));
}

#[test]
fn rar_steps() {
    assert!(matches!(rar_step(RarEvent::Header { is_file: true }), RarAction::Extract));
    assert!(matches!(rar_step(RarEvent::Header { is_file: false }), RarAction::Skip));
    assert!(matches!(rar_step(RarEvent::End), RarAction::Finish));
    match rar_step(RarEvent::Failed("bad header".to_string())) {
        RarAction::Abort(e) => assert_eq!(e.message(), "读取 RAR 头部失败: bad header"),
        _ => panic!("a failed read aborts"),
    }
}

#[test]
fn test_compress_nonexistent_source() {
    let source = "/nonexistent/path";
    match check_compress_source(source, Path::new(source).exists()) {
        Err(e) => assert_eq!(e.message(), "源路径不存在: /nonexistent/path"),
        Ok(()) => panic!("a missing source must be refused"),
    }
}

#[test]
fn source_checks() {
    assert!(check_compress_source("x", true).is_ok());
    assert!(check_archive_source("x", true).is_ok());
    match check_archive_source("a.7z", false) {
        Err(e) => assert_eq!(e.message(), "源文件不存在: a.7z"),
        Ok(()) => panic!("missing archive"),
    }
    assert!(check_single_file_source("f", true, true, Format::Xz).is_ok());
    match check_single_file_source("dir", true, false, Format::Xz) {
        Err(e) => {
            assert!(matches!(e, ArchiveError::SingleFileOnly(Format::Xz, _)));
            assert_eq!(e.message(), "xz 只支持单文件压缩，目录请使用 tar.xz 格式: dir");
        },
        Ok(()) => panic!("directories are refused"),
    }
    match check_single_file_source("dir", false, false, Format::Gz) {
        Err(e) => assert!(matches!(e, ArchiveError::SourcePathMissing(_))),
        Ok(()) => panic!("missing source"),
    }
}

#[test]
fn messages() {
    assert_eq!(compressed_message("out.zip"), "已压缩到: out.zip");
    assert_eq!(extracted_message("dir"), "已解压到: dir");
    assert_eq!(packed_message("out.tar"), "已打包到: out.tar");
    assert_eq!(unpacked_message("dir"), "已解包到: dir");
}

fn sample() -> Vec<u8> {
    let mut v = b"Hello, Archive!\n".to_vec();
    for i in 0..5000u32 {
        v.push((i % 251) as u8);
    }
    v
}

#[test]
fn xz_round_trip() {
    let data = sample();
    let packed = xz_compress(&data);
    assert_ne!(packed, data);
    assert_eq!(&packed[..6], &[0xFD, b'7', b'z', b'X', b'Z', 0x00]);
    assert_eq!(xz_decompress(&packed).ok().unwrap(), data);
    let empty = xz_compress(&[]);
    assert_eq!(xz_decompress(&empty).ok().unwrap(), Vec::<u8>::new());
}

#[test]
fn gzip_round_trip() {
    let data = sample();
    let packed = gzip_compress(&data);
    assert_eq!(&packed[..2], &[0x1f, 0x8b]);
    assert_eq!(gzip_decompress(&packed).ok().unwrap(), data);
}

#[test]
fn bzip2_round_trip() {
    let data = sample();
    let packed = bzip2_compress(&data);
    assert_eq!(&packed[..4], b"BZh6");
    assert_eq!(bzip2_decompress(&packed).ok().unwrap(), data);
}

#[test]
fn corrupt_data_is_refused() {
    let junk = b"this is not compressed".to_vec();
    assert!(matches!(xz_decompress(&junk), Err(ArchiveError::Codec(_))));
    assert!(matches!(gzip_decompress(&junk), Err(ArchiveError::Codec(_))));
    assert!(matches!(bzip2_decompress(&junk), Err(ArchiveError::Codec(_))));
}

#[test]
fn auto_detected_gz_round_trip() {
    let content = "Hello, Archive!\n这是一个测试文件。\n".as_bytes().to_vec();
    let archive_name = match plan_compress("hello.txt".to_string(), Format::Gz, Some("auto.gz".to_string())) {
        Ok(Task::Compress { output, .. }) => output,
        _ => panic!("gz compression is planned"),
    };
    let packed = gzip_compress(&content);
    match plan_extract(archive_name, None, Some("auto_restored.txt".to_string())) {
        Ok(Task::Extract { format, output, .. }) => {
            assert_eq!(format, Format::Gz);
            assert_eq!(output, "auto_restored.txt");
        },
        _ => panic!("gz is detected"),
    }
    let restored = gzip_decompress(&packed).ok().unwrap();
    assert!(String::from_utf8(restored).unwrap().contains("Hello, Archive!"));
}
