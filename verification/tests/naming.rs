use archive::command::{plan, plan_compress, plan_extract, plan_list, Command, Task};
use archive::error::ArchiveError;
use archive::format::{default_compress_output, default_extract_output, detect_format, Format};
use archive::path::{file_name, file_stem};
use std::path::Path;

#[test]
fn detects_compound_extensions_first() {
    assert_eq!(detect_format("backup.tar.gz"), Some(Format::TarGz));
    assert_eq!(detect_format("backup.tgz"), Some(Format::TarGz));
    assert_eq!(detect_format("backup.tar.bz2"), Some(Format::TarBz2));
    assert_eq!(detect_format("backup.tbz2"), Some(Format::TarBz2));
    assert_eq!(detect_format("backup.tar.xz"), Some(Format::TarXz));
    assert_eq!(detect_format("backup.txz"), Some(Format::TarXz));
}

#[test]
fn detects_single_extensions() {
    assert_eq!(detect_format("notes.txt.gz"), Some(Format::Gz));
    assert_eq!(detect_format("notes.txt.bz2"), Some(Format::Bz2));
    assert_eq!(detect_format("notes.txt.xz"), Some(Format::Xz));
    assert_eq!(detect_format("dir.tar"), Some(Format::Tar));
    assert_eq!(detect_format("dir.zip"), Some(Format::Zip));
    assert_eq!(detect_format("dir.7z"), Some(Format::SevenZ));
    assert_eq!(detect_format("dir.rar"), Some(Format::Rar));
}

#[test]
fn detection_ignores_letter_case() {
    assert_eq!(detect_format("/Data/BACKUP.TAR.GZ"), Some(Format::TarGz));
    assert_eq!(detect_format("Photos.ZiP"), Some(Format::Zip));
    assert_eq!(detect_format("X.7Z"), Some(Format::SevenZ));
    assert_eq!(detect_format("a.Tar.Xz"), Some(Format::TarXz));
}

#[test]
fn detection_agrees_with_full_lowercasing() {
    let paths = [
        "a.TAR.gz", "b.tgz", "c.Tbz2", "d.GZ", "e.txt", "ü.ZIP", "ÄÖ.tar", "İ.zip", "x.zİp", "k.tar.xz",
        "data.unknown", "", ".", "a/b/", "x.rar.gz", "x.gz.rar",
    ];
    for p in paths {
        let lower = p.to_lowercase();
        let expected = if lower.ends_with(".tar.gz") || lower.ends_with(".tgz") {
            Some(Format::TarGz)
        } else if lower.ends_with(".tar.bz2") || lower.ends_with(".tbz2") {
            Some(Format::TarBz2)
        } else if lower.ends_with(".tar.xz") || lower.ends_with(".txz") {
            Some(Format::TarXz)
        } else if lower.ends_with(".gz") {
            Some(Format::Gz)
        } else if lower.ends_with(".bz2") {
            Some(Format::Bz2)
        } else if lower.ends_with(".xz") {
            Some(Format::Xz)
        } else if lower.ends_with(".tar") {
            Some(Format::Tar)
        } else if lower.ends_with(".zip") {
            Some(Format::Zip)
        } else if lower.ends_with(".7z") {
            Some(Format::SevenZ)
        } else if lower.ends_with(".rar") {
            Some(Format::Rar)
        } else {
            None
        };
        assert_eq!(detect_format(p), expected, "path {:?}", p);
    }
}

#[test]
fn unknown_extension_is_not_detected() {
    assert_eq!(detect_format("data.unknown"), None);
    assert_eq!(detect_format("archive"), None);
    assert_eq!(detect_format(""), None);
}

#[test]
fn file_name_and_stem_agree_with_std_path() {
    let paths = [
        "", "/", ".", "..", "./", "a", "a/", "a/.", "a/..", "/a/b.txt", "dir/sub/", "x/./", "./.",
        ".bashrc", "..x", "...", "a.b.c", "archive.tar.gz", "trailing.", "//double//slash//", "a/b/./",
        "名前.tar.gz", "x/.hidden.txt",
    ];
    for p in paths {
        let std_name = Path::new(p).file_name().map(|s| s.to_string_lossy().into_owned());
        let std_stem = Path::new(p).file_stem().map(|s| s.to_string_lossy().into_owned());
        assert_eq!(file_name(p), std_name, "file name of {:?}", p);
        assert_eq!(file_stem(p), std_stem, "file stem of {:?}", p);
    }
}

#[test]
fn default_compress_names() {
    let source = "work/hello.txt";
    let expect = [
        (Format::Zip, "hello.zip"),
        (Format::Tar, "hello.tar"),
        (Format::Gz, "work/hello.txt.gz"),
        (Format::TarGz, "hello.tar.gz"),
        (Format::Bz2, "work/hello.txt.bz2"),
        (Format::TarBz2, "hello.tar.bz2"),
        (Format::Xz, "work/hello.txt.xz"),
        (Format::TarXz, "hello.tar.xz"),
        (Format::SevenZ, "hello.7z"),
    ];
    for (f, name) in expect {
        match default_compress_output(source, f) {
            Ok(out) => assert_eq!(out, name),
            Err(_) => panic!("no default name for {:?}", f),
        }
    }
}

#[test]
fn default_compress_name_of_root_has_empty_stem() {
    match default_compress_output("/", Format::Zip) {
        Ok(out) => assert_eq!(out, ".zip"),
        Err(_) => panic!("zip has a default name"),
    }
}

#[test]
fn rar_has_no_default_compress_name() {
    match default_compress_output("hello.txt", Format::Rar) {
        Err(e) => {
            assert!(matches!(e, ArchiveError::RarCompressUnsupported));
            assert_eq!(e.message(), "RAR 格式不支持压缩，仅支持解压");
        },
        Ok(_) => panic!("rar must be refused"),
    }
}

#[test]
fn default_extract_targets() {
    assert_eq!(default_extract_output("tmp/hello.txt.gz", Format::Gz), "hello.txt");
    assert_eq!(default_extract_output("tmp/out.tar.gz", Format::TarGz), "out");
    assert_eq!(default_extract_output("tmp/out.tgz", Format::TarGz), "out");
    assert_eq!(default_extract_output("tmp/out.tar.bz2", Format::TarBz2), "out.tar");
    assert_eq!(default_extract_output("dir.zip", Format::Zip), "dir");
    assert_eq!(default_extract_output("a.7z", Format::SevenZ), "a");
    assert_eq!(default_extract_output("/", Format::Zip), "output");
    assert_eq!(default_extract_output(".tar.gz", Format::TarGz), "output");
    assert_eq!(default_extract_output("..", Format::Gz), "output");
}

#[test]
fn default_names_round_trip() {
    for f in [Format::Zip, Format::Tar, Format::TarGz, Format::SevenZ] {
        let name = default_compress_output("project", f).ok().unwrap();
        assert_eq!(detect_format(&name), Some(f));
        assert_eq!(default_extract_output(&name, f), "project");
    }
    for f in [Format::Gz, Format::Bz2, Format::Xz] {
        let name = default_compress_output("notes.txt", f).ok().unwrap();
        assert_eq!(detect_format(&name), Some(f));
        assert_eq!(default_extract_output(&name, f), "notes.txt");
    }
}

#[test]
fn single_file_name_of_tar_reads_as_tar_form() {
    let name = default_compress_output("bundle.tar", Format::Gz).ok().unwrap();
    assert_eq!(name, "bundle.tar.gz");
    assert_eq!(detect_format(&name), Some(Format::TarGz));
}

#[test]
fn test_rar_compress_should_fail() {
    let r = plan(Command::Compress {
        source: "tmp/hello.txt".to_string(),
        format: Format::Rar,
        output: Some("tmp/out.rar".to_string()),
    });
    match r {
        Err(e) => assert!(e.message().contains("RAR")),
        Ok(_) => panic!("rar compression must fail"),
    }
}

#[test]
fn test_extract_unknown_format() {
    match plan_extract("tmp/data.unknown".to_string(), None, None) {
        Err(e) => {
            assert!(matches!(e, ArchiveError::FormatNotDetected));
            assert!(e.message().contains("无法自动检测格式"));
        },
        Ok(_) => panic!("format must not be detected"),
    }
}

#[test]
fn compress_plan_uses_given_or_default_output() {
    match plan_compress("src/dir".to_string(), Format::TarXz, None) {
        Ok(Task::Compress { format, source, output }) => {
            assert_eq!(format, Format::TarXz);
            assert_eq!(source, "src/dir");
            assert_eq!(output, "dir.tar.xz");
        },
        _ => panic!("expected a compress task"),
    }
    match plan_compress("src/dir".to_string(), Format::Zip, Some("x.zip".to_string())) {
        Ok(Task::Compress { output, .. }) => assert_eq!(output, "x.zip"),
        _ => panic!("expected a compress task"),
    }
}

#[test]
fn extract_plan_detects_format_and_output() {
    match plan_extract("t/auto.gz".to_string(), None, None) {
        Ok(Task::Extract { format, output, .. }) => {
            assert_eq!(format, Format::Gz);
            assert_eq!(output, "auto");
        },
        _ => panic!("expected an extract task"),
    }
    match plan_extract("t/auto.gz".to_string(), Some(Format::Zip), Some("o".to_string())) {
        Ok(Task::Extract { format, output, .. }) => {
            assert_eq!(format, Format::Zip);
            assert_eq!(output, "o");
        },
        _ => panic!("expected an extract task"),
    }
}

#[test]
fn list_plan_refuses_single_file_formats() {
    for name in ["a.gz", "a.bz2", "a.xz"] {
        match plan_list(name.to_string(), None) {
            Err(e) => {
                assert!(matches!(e, ArchiveError::ListUnsupported));
                assert_eq!(e.message(), "单文件压缩格式不支持列出内容，请直接解压");
            },
            Ok(_) => panic!("single-file formats hold no list"),
        }
    }
    match plan_list("a.tar.gz".to_string(), None) {
        Ok(Task::List { format, .. }) => assert_eq!(format, Format::TarGz),
        _ => panic!("expected a list task"),
    }
    assert!(matches!(plan_list("a.dat".to_string(), None), Err(ArchiveError::FormatNotDetected)));
}
