use archive::listing::{
    attribute_listing, entry_row, header, rule, tar_listing, timestamp_string, zip_listing, ArchiveEntry,
    Layout, TarEntry, TarEntryKind, Timestamp, ZipEntry,
};
use archive::contents::tar_kind;
use archive::packing::{zip_plan, PathKind, WalkedPath, ZipStep};
use std::io::Write;
use archive::text::{decimal_string, padded_left_zeros, padded_right};

#[test]
fn headers_match_the_table_layouts() {
    assert_eq!(header(Layout::Tar), format!("{:<10} {:<12} {}", "大小", "类型", "文件名"));
    assert_eq!(header(Layout::Zip), format!("{:<10} {:<20} {}", "大小", "修改时间", "文件名"));
    assert_eq!(header(Layout::Attributes), format!("{:<10} {:<8} {}", "大小", "属性", "文件名"));
    assert_eq!(rule(), "-".repeat(60));
}

#[test]
fn rows_pad_like_formatting() {
    assert_eq!(entry_row(Layout::Tar, 15, "文件", "a.txt"), format!("{:<10} {:<12} {}", 15, "文件", "a.txt"));
    assert_eq!(
        entry_row(Layout::Attributes, 12345678901, "目录", "sub"),
        format!("{:<10} {:<8} {}", 12345678901u64, "目录", "sub")
    );
    assert_eq!(
        entry_row(Layout::Zip, 0, "a-very-long-middle-column-text", "n"),
        format!("{:<10} {:<20} {}", 0, "a-very-long-middle-column-text", "n")
    );
}

#[test]
fn decimal_and_padding() {
    for n in [0u64, 7, 10, 99, 100, 65535, 4294967296, u64::MAX] {
        assert_eq!(decimal_string(n), n.to_string());
    }
    assert_eq!(padded_right("ab", 5), "ab   ");
    assert_eq!(padded_right("abcdef", 5), "abcdef");
    assert_eq!(padded_left_zeros("7", 2), "07");
    assert_eq!(padded_left_zeros("2024", 4), "2024");
    assert_eq!(padded_left_zeros("12345", 4), "12345");
}

#[test]
fn timestamps() {
    let t = Timestamp { year: 2024, month: 1, day: 5, hour: 9, minute: 7 };
    assert_eq!(timestamp_string(Some(t)), "2024-01-05 09:07");
    let early = Timestamp { year: 980, month: 12, day: 31, hour: 23, minute: 59 };
    assert_eq!(timestamp_string(Some(early)), "0980-12-31 23:59");
    assert_eq!(timestamp_string(None), "N/A");
}

#[test]
fn tar_listing_lines() {
    let entries = vec![
        TarEntry { size: 15, kind: TarEntryKind::Regular, path: "a.txt".to_string() },
        TarEntry { size: 0, kind: TarEntryKind::Directory, path: "sub".to_string() },
        TarEntry { size: 0, kind: TarEntryKind::Symlink, path: "l".to_string() },
        TarEntry { size: 0, kind: TarEntryKind::Link, path: "h".to_string() },
        TarEntry { size: 3, kind: TarEntryKind::Other, path: "f".to_string() },
    ];
    let lines = tar_listing(&entries);
    assert_eq!(lines.len(), 7);
    assert_eq!(lines[0], format!("{:<10} {:<12} {}", "大小", "类型", "文件名"));
    assert_eq!(lines[1], "-".repeat(60));
    assert_eq!(lines[2], format!("{:<10} {:<12} {}", 15, "文件", "a.txt"));
    assert_eq!(lines[3], format!("{:<10} {:<12} {}", 0, "目录", "sub"));
    assert_eq!(lines[4], format!("{:<10} {:<12} {}", 0, "符号链接", "l"));
    assert_eq!(lines[5], format!("{:<10} {:<12} {}", 0, "硬链接", "h"));
    assert_eq!(lines[6], format!("{:<10} {:<12} {}", 3, "其他", "f"));
}

#[test]
fn zip_listing_lines() {
    let entries = vec![
        ZipEntry {
            size: 28,
            modified: Some(Timestamp { year: 2023, month: 11, day: 2, hour: 8, minute: 30 }),
            name: "hello.txt".to_string(),
            method: 8,
        },
        ZipEntry { size: 0, modified: None, name: "sub/".to_string(), method: 0 },
    ];
    let lines = zip_listing(&entries);
    assert_eq!(lines.len(), 4);
    assert_eq!(lines[2], format!("{:<10} {:<20} {}", 28, "2023-11-02 08:30", "hello.txt"));
    assert_eq!(lines[3], format!("{:<10} {:<20} {}", 0, "N/A", "sub/"));
}

#[test]
fn attribute_listing_lines() {
    let entries = vec![
        ArchiveEntry { size: 15, is_directory: false, name: "a.txt".to_string() },
        ArchiveEntry { size: 0, is_directory: true, name: "sub".to_string() },
    ];
    let lines = attribute_listing(&entries);
    assert_eq!(lines.len(), 4);
    assert_eq!(lines[0], format!("{:<10} {:<8} {}", "大小", "属性", "文件名"));
    assert_eq!(lines[2], format!("{:<10} {:<8} {}", 15, "文件", "a.txt"));
    assert_eq!(lines[3], format!("{:<10} {:<8} {}", 0, "目录", "sub"));
}

#[test]
fn empty_archives_list_header_and_rule() {
    assert_eq!(tar_listing(&Vec::new()).len(), 2);
    assert_eq!(zip_listing(&Vec::new()).len(), 2);
    assert_eq!(attribute_listing(&Vec::new()).len(), 2);
}

fn sample_tarball() -> Vec<u8> {
    let mut builder = tar::Builder::new(Vec::new());
    let mut file = tar::Header::new_gnu();
    file.set_size(15);
    file.set_entry_type(tar::EntryType::Regular);
    file.set_mode(0o644);
    file.set_cksum();
    builder.append_data(&mut file, "a.txt", "file a content\n".as_bytes()).unwrap();
    let mut dir = tar::Header::new_gnu();
    dir.set_size(0);
    dir.set_entry_type(tar::EntryType::Directory);
    dir.set_mode(0o755);
    dir.set_cksum();
    builder.append_data(&mut dir, "sub", std::io::empty()).unwrap();
    let mut link = tar::Header::new_gnu();
    link.set_size(0);
    link.set_entry_type(tar::EntryType::Symlink);
    link.set_mode(0o777);
    builder.append_link(&mut link, "l", "a.txt").unwrap();
    builder.into_inner().unwrap()
}

#[test]
fn tar_streams_are_listed() {
    let lines = archive::contents::list_tar(&sample_tarball()).ok().unwrap();
    assert_eq!(lines.len(), 5);
    assert_eq!(lines[0], format!("{:<10} {:<12} {}", "大小", "类型", "文件名"));
    assert_eq!(lines[1], "-".repeat(60));
    assert_eq!(lines[2], format!("{:<10} {:<12} {}", 15, "文件", "a.txt"));
    assert_eq!(lines[3], format!("{:<10} {:<12} {}", 0, "目录", "sub"));
    assert_eq!(lines[4], format!("{:<10} {:<12} {}", 0, "符号链接", "l"));
}

#[test]
fn tar_type_flags() {
    assert_eq!(tar_kind(b'0'), TarEntryKind::Regular);
    assert_eq!(tar_kind(b'5'), TarEntryKind::Directory);
    assert_eq!(tar_kind(b'2'), TarEntryKind::Symlink);
    assert_eq!(tar_kind(b'1'), TarEntryKind::Link);
    assert_eq!(tar_kind(b'3'), TarEntryKind::Other);
    assert_eq!(tar_kind(0), TarEntryKind::Regular);
    assert_eq!(tar_kind(b'x'), TarEntryKind::Other);
}

#[test]
fn empty_tar_stream_lists_header_only() {
    let empty = tar::Builder::new(Vec::new()).into_inner().unwrap();
    assert_eq!(archive::contents::list_tar(&empty).ok().unwrap().len(), 2);
}

#[test]
fn zip_archives_are_listed() {
    let mut writer = zip::ZipWriter::new(std::io::Cursor::new(Vec::new()));
    let when = zip::DateTime::from_date_and_time(2024, 3, 9, 14, 5, 0).unwrap();
    let options = zip::write::SimpleFileOptions::default().last_modified_time(when);
    writer.add_directory("sub/", options).unwrap();
    writer.start_file("sub/b.txt", options).unwrap();
    writer.write_all(b"file b content\n").unwrap();
    let data = writer.finish().unwrap().into_inner();
    let lines = archive::contents::list_zip(&data).ok().unwrap();
    assert_eq!(lines.len(), 4);
    assert_eq!(lines[0], format!("{:<10} {:<20} {}", "大小", "修改时间", "文件名"));
    assert_eq!(lines[2], format!("{:<10} {:<20} {}", 0, "2024-03-09 14:05", "sub/"));
    assert_eq!(lines[3], format!("{:<10} {:<20} {}", 15, "2024-03-09 14:05", "sub/b.txt"));
}

#[test]
fn corrupt_archives_are_refused() {
    let junk = b"definitely not an archive".to_vec();
    assert!(archive::contents::list_zip(&junk).is_err());
    assert!(archive::contents::list_7z(&junk).is_err());
}

#[test]
fn sevenz_archives_are_listed() {
    let mut writer = sevenz_rust2::ArchiveWriter::new(std::io::Cursor::new(Vec::new())).unwrap();
    writer.push_archive_entry::<&[u8]>(sevenz_rust2::ArchiveEntry::new_directory("sub"), None).unwrap();
    writer
        .push_archive_entry(sevenz_rust2::ArchiveEntry::new_file("a.txt"), Some("file a content\n".as_bytes()))
        .unwrap();
    let data = writer.finish().unwrap().into_inner();
    let lines = archive::contents::list_7z(&data).ok().unwrap();
    assert_eq!(lines.len(), 4);
    assert_eq!(lines[0], format!("{:<10} {:<8} {}", "大小", "属性", "文件名"));
    assert!(lines.contains(&format!("{:<10} {:<8} {}", 0, "目录", "sub")));
    assert!(lines.contains(&format!("{:<10} {:<8} {}", 15, "文件", "a.txt")));
}

#[test]
fn zip_members_stay_inside_the_output() {
    let mut writer = zip::ZipWriter::new(std::io::Cursor::new(Vec::new()));
    let options = zip::write::SimpleFileOptions::default();
    writer.add_directory("sub/", options).unwrap();
    writer.start_file("sub/b.txt", options).unwrap();
    writer.write_all(b"file b content\n").unwrap();
    writer.start_file("../evil.txt", options).unwrap();
    writer.write_all(b"x").unwrap();
    writer.start_file("/abs/./a.txt", options).unwrap();
    writer.write_all(b"y").unwrap();
    let data = writer.finish().unwrap().into_inner();
    let members = archive::contents::zip_extraction(&data).ok().unwrap();
    let paths: Vec<String> = members.iter().map(|m| m.path.clone()).collect();
    assert_eq!(paths, vec!["sub", "sub/b.txt", "evil.txt", "abs/a.txt"]);
    assert!(members[0].is_directory);
    assert!(!members[1].is_directory);
    assert_eq!(members[1].data, b"file b content\n".to_vec());
    assert!(archive::contents::zip_extraction(b"not a zip").is_err());
}

#[test]
fn planned_zip_archives_read_back() {
    let walk = vec![
        WalkedPath { relative: "".to_string(), kind: PathKind::Directory },
        WalkedPath { relative: "a.txt".to_string(), kind: PathKind::File },
        WalkedPath { relative: "sub".to_string(), kind: PathKind::Directory },
        WalkedPath { relative: "sub/b.txt".to_string(), kind: PathKind::File },
    ];
    let steps = zip_plan(&walk);
    let contents = vec![Vec::new(), b"file a content\n".to_vec(), Vec::new(), b"file b content\n".to_vec()];
    let data = archive::zipping::zip_archive(&steps, &contents).ok().unwrap();
    let members = archive::contents::zip_extraction(&data).ok().unwrap();
    let paths: Vec<String> = members.iter().map(|m| m.path.clone()).collect();
    assert_eq!(paths, vec!["a.txt", "sub", "sub/b.txt"]);
    assert_eq!(members[0].data, b"file a content\n".to_vec());
    assert!(members[1].is_directory);
    assert_eq!(members[2].data, b"file b content\n".to_vec());
    let lines = archive::contents::list_zip(&data).ok().unwrap();
    assert_eq!(lines.len(), 5);
    assert!(lines[3].ends_with(" sub/"));
}

#[test]
fn duplicate_zip_names_are_refused() {
    let steps = vec![ZipStep::AddFile("a".to_string()), ZipStep::AddFile("a".to_string())];
    let contents = vec![b"1".to_vec(), b"2".to_vec()];
    assert!(archive::zipping::zip_archive(&steps, &contents).is_err());
}

#[test]
fn zip_entries_keep_their_method_and_content() {
    let steps = vec![ZipStep::AddFile("a.txt".to_string()), ZipStep::AddDirectory("sub".to_string())];
    let contents = vec![b"file a content\nfile a content\n".to_vec(), Vec::new()];
    let data = archive::zipping::zip_archive(&steps, &contents).ok().unwrap();
    let mut reader = zip::ZipArchive::new(std::io::Cursor::new(data)).unwrap();
    assert_eq!(reader.len(), 2);
    {
        let mut file = reader.by_index(0).unwrap();
        assert_eq!(file.name(), "a.txt");
        assert_eq!(file.compression(), zip::CompressionMethod::Deflated);
        let mut read = Vec::new();
        std::io::Read::read_to_end(&mut file, &mut read).unwrap();
        assert_eq!(read, b"file a content\nfile a content\n".to_vec());
    }
    let dir = reader.by_index(1).unwrap();
    assert_eq!(dir.name(), "sub/");
    assert_eq!(dir.compression(), zip::CompressionMethod::Stored);
}

#[test]
fn empty_zip_contents_and_plans_are_archived() {
    let steps = vec![ZipStep::AddFile("empty.txt".to_string())];
    let contents = vec![Vec::new()];
    let data = archive::zipping::zip_archive(&steps, &contents).ok().unwrap();
    let members = archive::contents::zip_extraction(&data).ok().unwrap();
    assert_eq!(members.len(), 1);
    assert_eq!(members[0].path, "empty.txt");
    assert!(!members[0].is_directory);
    assert!(members[0].data.is_empty());

    let data = archive::zipping::zip_archive(&Vec::new(), &Vec::new()).ok().unwrap();
    assert!(archive::contents::zip_extraction(&data).ok().unwrap().is_empty());
    assert_eq!(archive::contents::list_zip(&data).ok().unwrap().len(), 2);
}

#[test]
fn directory_and_file_names_clash_after_the_separator() {
    let steps = vec![ZipStep::AddDirectory("a".to_string()), ZipStep::AddFile("a/".to_string())];
    let contents = vec![Vec::new(), b"x".to_vec()];
    assert!(archive::zipping::zip_archive(&steps, &contents).is_err());
}

#[test]
fn unpacked_paths_keep_only_normal_parts() {
    let steps = vec![
        ZipStep::AddFile("a\\b.txt".to_string()),
        ZipStep::AddFile("./c/../d.txt".to_string()),
        ZipStep::AddDirectory("e//f".to_string()),
    ];
    let contents = vec![b"1".to_vec(), b"2".to_vec(), Vec::new()];
    let data = archive::zipping::zip_archive(&steps, &contents).ok().unwrap();
    let members = archive::contents::zip_extraction(&data).ok().unwrap();
    let paths: Vec<String> = members.iter().map(|m| m.path.clone()).collect();
    assert_eq!(paths, vec!["a/b.txt", "c/d.txt", "e/f"]);
    assert_eq!(members[1].data, b"2".to_vec());
    assert!(members[2].is_directory);
    assert!(members[2].data.is_empty());
}
