use vstd::prelude::*;
use crate::text::{
    ends_with_ignore_case, ends_with_ignore_ascii_case, without_suffix, strip_suffix, ascii_lowercase,
    lemma_lowercase_concat, lemma_lowercase_idempotent,
};
use crate::path::{stem_or_empty, file_stem, stem_of_name, last_index_of, lemma_last_index_bounds, lemma_last_index_is};
use crate::error::ArchiveError;

verus! {

/// The archive and compression formats the tool handles.
#[derive(Clone, Copy, Debug, PartialEq, Eq, Structural)]
pub enum Format {
    Zip,
    Tar,
    Gz,
    TarGz,
    Bz2,
    TarBz2,
    Xz,
    TarXz,
    SevenZ,
    Rar,
}

/// The format that a path's extension names, compared without regard to the case
/// of ASCII letters; compound extensions are recognised before single ones.
pub open spec fn detected_format(path: Seq<char>) -> Option<Format> {
    if ends_with_ignore_case(path, ".tar.gz"@) || ends_with_ignore_case(path, ".tgz"@) {
        Some(Format::TarGz)
    } else if ends_with_ignore_case(path, ".tar.bz2"@) || ends_with_ignore_case(path, ".tbz2"@) {
        Some(Format::TarBz2)
    } else if ends_with_ignore_case(path, ".tar.xz"@) || ends_with_ignore_case(path, ".txz"@) {
        Some(Format::TarXz)
    } else if ends_with_ignore_case(path, ".gz"@) {
        Some(Format::Gz)
    } else if ends_with_ignore_case(path, ".bz2"@) {
        Some(Format::Bz2)
    } else if ends_with_ignore_case(path, ".xz"@) {
        Some(Format::Xz)
    } else if ends_with_ignore_case(path, ".tar"@) {
        Some(Format::Tar)
    } else if ends_with_ignore_case(path, ".zip"@) {
        Some(Format::Zip)
    } else if ends_with_ignore_case(path, ".7z"@) {
        Some(Format::SevenZ)
    } else if ends_with_ignore_case(path, ".rar"@) {
        Some(Format::Rar)
    } else {
        None
    }
}

/// Detects the format of `path` from its extension.
///
/// The extensions are all ASCII; the only characters outside ASCII whose
/// lower-case form is an ASCII letter lower-case to `k` or to an `i` followed by
/// a combining mark, so comparing under ASCII case folding recognises exactly
/// the paths whose full lower-case form ends with the extension.
pub fn detect_format(path: &str) -> (r: Option<Format>)
    ensures
        r == detected_format(path@),
{
    if ends_with_ignore_ascii_case(path, ".tar.gz") || ends_with_ignore_ascii_case(path, ".tgz") {
        Some(Format::TarGz)
    } else if ends_with_ignore_ascii_case(path, ".tar.bz2") || ends_with_ignore_ascii_case(path, ".tbz2") {
        Some(Format::TarBz2)
    } else if ends_with_ignore_ascii_case(path, ".tar.xz") || ends_with_ignore_ascii_case(path, ".txz") {
        Some(Format::TarXz)
    } else if ends_with_ignore_ascii_case(path, ".gz") {
        Some(Format::Gz)
    } else if ends_with_ignore_ascii_case(path, ".bz2") {
        Some(Format::Bz2)
    } else if ends_with_ignore_ascii_case(path, ".xz") {
        Some(Format::Xz)
    } else if ends_with_ignore_ascii_case(path, ".tar") {
        Some(Format::Tar)
    } else if ends_with_ignore_ascii_case(path, ".zip") {
        Some(Format::Zip)
    } else if ends_with_ignore_ascii_case(path, ".7z") {
        Some(Format::SevenZ)
    } else if ends_with_ignore_ascii_case(path, ".rar") {
        Some(Format::Rar)
    } else {
        None
    }
}

/// The name under which `source` is compressed by default in `format`, given the
/// stem of its final component: single-file formats append their extension to
/// the whole source path, the others put theirs after the stem; RAR archives
/// cannot be written, so there is none.
pub open spec fn compressed_name(source: Seq<char>, stem: Seq<char>, format: Format) -> Option<Seq<char>> {
    match format {
        Format::Zip => Some(stem + ".zip"@),
        Format::Tar => Some(stem + ".tar"@),
        Format::Gz => Some(source + ".gz"@),
        Format::TarGz => Some(stem + ".tar.gz"@),
        Format::Bz2 => Some(source + ".bz2"@),
        Format::TarBz2 => Some(stem + ".tar.bz2"@),
        Format::Xz => Some(source + ".xz"@),
        Format::TarXz => Some(stem + ".tar.xz"@),
        Format::SevenZ => Some(stem + ".7z"@),
        Format::Rar => None,
    }
}

/// The default output of compressing `source` in `format`, given the stem of
/// its final component.
pub fn compressed_name_for_stem(source: &str, stem: &str, format: Format) -> (r: Result<String, ArchiveError>)
    ensures
        match r {
            Ok(name) => compressed_name(source@, stem@, format) == Some(name@),
            Err(e) => compressed_name(source@, stem@, format) is None && e is RarCompressUnsupported,
        },
{
    match format {
        Format::Zip => Ok(String::from_str(stem).concat(".zip")),
        Format::Tar => Ok(String::from_str(stem).concat(".tar")),
        Format::Gz => Ok(String::from_str(source).concat(".gz")),
        Format::TarGz => Ok(String::from_str(stem).concat(".tar.gz")),
        Format::Bz2 => Ok(String::from_str(source).concat(".bz2")),
        Format::TarBz2 => Ok(String::from_str(stem).concat(".tar.bz2")),
        Format::Xz => Ok(String::from_str(source).concat(".xz")),
        Format::TarXz => Ok(String::from_str(stem).concat(".tar.xz")),
        Format::SevenZ => Ok(String::from_str(stem).concat(".7z")),
        Format::Rar => Err(ArchiveError::RarCompressUnsupported),
    }
}

/// The default output path of compressing `source` in `format`.
pub fn default_compress_output(source: &str, format: Format) -> (r: Result<String, ArchiveError>)
    ensures
        match r {
            Ok(name) => compressed_name(source@, stem_or_empty(source@), format) == Some(name@),
            Err(e) => compressed_name(source@, stem_or_empty(source@), format) is None
                && e is RarCompressUnsupported,
        },
{
    let stem = match file_stem(source) {
        Some(s) => s,
        None => String::new(),
    };
    compressed_name_for_stem(source, stem.as_str(), format)
}

/// The default output of extracting an archive in `format` whose final
/// component has the stem `stem`: the stem, without a final `.tar` for
/// tar.gz, or `output` when that leaves nothing.
pub open spec fn extract_output_for_stem(stem: Seq<char>, format: Format) -> Seq<char> {
    let base = if format == Format::TarGz {
        without_suffix(stem, ".tar"@)
    } else {
        stem
    };
    if base.len() == 0 {
        "output"@
    } else {
        base
    }
}

/// The default output of extracting `source` in `format`.
pub fn default_extract_output(source: &str, format: Format) -> (r: String)
    ensures
        r@ == extract_output_for_stem(stem_or_empty(source@), format),
        r@.len() > 0,
        format != Format::TarGz && stem_or_empty(source@).len() > 0 ==> r@ == stem_or_empty(source@),
        stem_or_empty(source@).len() == 0 ==> r@ == "output"@,
{
    let stem = match file_stem(source) {
        Some(s) => s,
        None => String::new(),
    };
    let base = match format {
        Format::TarGz => strip_suffix(stem.as_str(), ".tar"),
        _ => stem,
    };
    if base.unicode_len() == 0 {
        proof {
            reveal_strlit("output");
        }
        String::from_str("output")
    } else {
        base
    }
}

/// Whether a format compresses one file only and so holds no list of entries.
pub open spec fn is_single_file(format: Format) -> bool {
    format == Format::Gz || format == Format::Bz2 || format == Format::Xz
}

/// A name `x + ext`, for an extension `ext` in lower case, does not end with
/// `suffix` (ignoring case) when the two differ `k` characters from the end.
proof fn lemma_mismatch(x: Seq<char>, ext: Seq<char>, suffix: Seq<char>, k: int)
    requires
        ascii_lowercase(ext) == ext,
        1 <= k <= ext.len(),
        k <= suffix.len(),
        suffix[suffix.len() - k] != ext[ext.len() - k],
    ensures
        !ends_with_ignore_case(x + ext, suffix),
{
    lemma_lowercase_concat(x, ext);
    let l = ascii_lowercase(x) + ext;
    if ends_with_ignore_case(x + ext, suffix) {
        assert(l.subrange(l.len() - suffix.len(), l.len() as int)[suffix.len() - k] == l[l.len() - k]);
        assert(l[l.len() - k] == ext[ext.len() - k]);
    }
}

/// A name `x + ext`, for an extension `ext` in lower case, ends with every suffix of `ext`.
proof fn lemma_match(x: Seq<char>, ext: Seq<char>, suffix: Seq<char>)
    requires
        ascii_lowercase(ext) == ext,
        suffix.is_suffix_of(ext),
    ensures
        ends_with_ignore_case(x + ext, suffix),
{
    lemma_lowercase_concat(x, ext);
    let l = ascii_lowercase(x) + ext;
    assert forall|i: int| 0 <= i < suffix.len() implies suffix[i] == l.subrange(
        l.len() - suffix.len(),
        l.len() as int,
    )[i] by {
        assert(suffix[i] == ext.subrange(ext.len() - suffix.len(), ext.len() as int)[i]);
    }
    assert(suffix =~= l.subrange(l.len() - suffix.len(), l.len() as int));
}

/// A name `x + ext`, for an extension `ext` in lower case, ends with `pre + ext`
/// exactly when `x` ends with `pre` (ignoring case).
proof fn lemma_through(x: Seq<char>, ext: Seq<char>, pre: Seq<char>)
    requires
        ascii_lowercase(ext) == ext,
    ensures
        ends_with_ignore_case(x + ext, pre + ext) == ends_with_ignore_case(x, pre),
{
    lemma_lowercase_concat(x, ext);
    let lx = ascii_lowercase(x);
    let l = lx + ext;
    let s = pre + ext;
    if ends_with_ignore_case(x + ext, s) {
        assert forall|i: int| 0 <= i < pre.len() implies pre[i] == lx.subrange(
            lx.len() - pre.len(),
            lx.len() as int,
        )[i] by {
            assert(s[i] == pre[i]);
            assert(l.subrange(l.len() - s.len(), l.len() as int)[i] == l[l.len() - s.len() + i]);
        }
        assert(pre =~= lx.subrange(lx.len() - pre.len(), lx.len() as int));
    }
    if ends_with_ignore_case(x, pre) {
        assert forall|i: int| 0 <= i < s.len() implies s[i] == l.subrange(
            l.len() - s.len(),
            l.len() as int,
        )[i] by {
            if i < pre.len() {
                assert(pre[i] == lx.subrange(lx.len() - pre.len(), lx.len() as int)[i]);
            }
        }
        assert(s =~= l.subrange(l.len() - s.len(), l.len() as int));
    }
}

/// Detection looks at a path only through its ASCII-case-folded form: a path
/// and its lower-case form are detected alike.
pub proof fn lemma_detection_ignores_case(path: Seq<char>)
    ensures
        detected_format(path) == detected_format(ascii_lowercase(path)),
{
    lemma_lowercase_idempotent(path);
}

/// The name that `format` gives to a compressed `source` by default is
/// detected back as `format`, unless a single-file format is applied to a path
/// that already ends in `.tar` (then the name reads as the tar form).
pub proof fn lemma_compressed_name_detected(source: Seq<char>, stem: Seq<char>, format: Format)
    requires
        format != Format::Rar,
        !(is_single_file(format) && ends_with_ignore_case(source, ".tar"@)),
    ensures
        compressed_name(source, stem, format) matches Some(name) && detected_format(name) == Some(format),
{
    match format {
        Format::Zip => {
            reveal_strlit(".bz2");
            reveal_strlit(".gz");
            reveal_strlit(".tar");
            reveal_strlit(".tar.bz2");
            reveal_strlit(".tar.gz");
            reveal_strlit(".tar.xz");
            reveal_strlit(".tbz2");
            reveal_strlit(".tgz");
            reveal_strlit(".txz");
            reveal_strlit(".xz");
            reveal_strlit(".zip");
            assert(ascii_lowercase(".zip"@) =~= ".zip"@);
            lemma_mismatch(stem, ".zip"@, ".tar.gz"@, 1);
            lemma_mismatch(stem, ".zip"@, ".tgz"@, 1);
            lemma_mismatch(stem, ".zip"@, ".tar.bz2"@, 1);
            lemma_mismatch(stem, ".zip"@, ".tbz2"@, 1);
            lemma_mismatch(stem, ".zip"@, ".tar.xz"@, 1);
            lemma_mismatch(stem, ".zip"@, ".txz"@, 1);
            lemma_mismatch(stem, ".zip"@, ".gz"@, 1);
            lemma_mismatch(stem, ".zip"@, ".bz2"@, 1);
            lemma_mismatch(stem, ".zip"@, ".xz"@, 1);
            lemma_mismatch(stem, ".zip"@, ".tar"@, 1);
            lemma_match(stem, ".zip"@, ".zip"@);
        },
        Format::Tar => {
            reveal_strlit(".bz2");
            reveal_strlit(".gz");
            reveal_strlit(".tar");
            reveal_strlit(".tar.bz2");
            reveal_strlit(".tar.gz");
            reveal_strlit(".tar.xz");
            reveal_strlit(".tbz2");
            reveal_strlit(".tgz");
            reveal_strlit(".txz");
            reveal_strlit(".xz");
            assert(ascii_lowercase(".tar"@) =~= ".tar"@);
            lemma_mismatch(stem, ".tar"@, ".tar.gz"@, 1);
            lemma_mismatch(stem, ".tar"@, ".tgz"@, 1);
            lemma_mismatch(stem, ".tar"@, ".tar.bz2"@, 1);
            lemma_mismatch(stem, ".tar"@, ".tbz2"@, 1);
            lemma_mismatch(stem, ".tar"@, ".tar.xz"@, 1);
            lemma_mismatch(stem, ".tar"@, ".txz"@, 1);
            lemma_mismatch(stem, ".tar"@, ".gz"@, 1);
            lemma_mismatch(stem, ".tar"@, ".bz2"@, 1);
            lemma_mismatch(stem, ".tar"@, ".xz"@, 1);
            lemma_match(stem, ".tar"@, ".tar"@);
        },
        Format::Gz => {
            reveal_strlit(".gz");
            reveal_strlit(".tar");
            reveal_strlit(".tar.bz2");
            reveal_strlit(".tar.gz");
            reveal_strlit(".tar.xz");
            reveal_strlit(".tbz2");
            reveal_strlit(".tgz");
            reveal_strlit(".txz");
            assert(ascii_lowercase(".gz"@) =~= ".gz"@);
            lemma_through(source, ".gz"@, ".tar"@);
            assert(".tar"@ + ".gz"@ =~= ".tar.gz"@);
            lemma_mismatch(source, ".gz"@, ".tgz"@, 3);
            lemma_mismatch(source, ".gz"@, ".tar.bz2"@, 1);
            lemma_mismatch(source, ".gz"@, ".tbz2"@, 1);
            lemma_mismatch(source, ".gz"@, ".tar.xz"@, 2);
            lemma_mismatch(source, ".gz"@, ".txz"@, 2);
            lemma_match(source, ".gz"@, ".gz"@);
        },
        Format::TarGz => {
            reveal_strlit(".tar.gz");
            assert(ascii_lowercase(".tar.gz"@) =~= ".tar.gz"@);
            lemma_match(stem, ".tar.gz"@, ".tar.gz"@);
        },
        Format::Bz2 => {
            reveal_strlit(".bz2");
            reveal_strlit(".gz");
            reveal_strlit(".tar");
            reveal_strlit(".tar.bz2");
            reveal_strlit(".tar.gz");
            reveal_strlit(".tar.xz");
            reveal_strlit(".tbz2");
            reveal_strlit(".tgz");
            reveal_strlit(".txz");
            assert(ascii_lowercase(".bz2"@) =~= ".bz2"@);
            lemma_mismatch(source, ".bz2"@, ".tar.gz"@, 1);
            lemma_mismatch(source, ".bz2"@, ".tgz"@, 1);
            lemma_through(source, ".bz2"@, ".tar"@);
            assert(".tar"@ + ".bz2"@ =~= ".tar.bz2"@);
            lemma_mismatch(source, ".bz2"@, ".tbz2"@, 4);
            lemma_mismatch(source, ".bz2"@, ".tar.xz"@, 1);
            lemma_mismatch(source, ".bz2"@, ".txz"@, 1);
            lemma_mismatch(source, ".bz2"@, ".gz"@, 1);
            lemma_match(source, ".bz2"@, ".bz2"@);
        },
        Format::TarBz2 => {
            reveal_strlit(".tar.bz2");
            reveal_strlit(".tar.gz");
            reveal_strlit(".tgz");
            assert(ascii_lowercase(".tar.bz2"@) =~= ".tar.bz2"@);
            lemma_mismatch(stem, ".tar.bz2"@, ".tar.gz"@, 1);
            lemma_mismatch(stem, ".tar.bz2"@, ".tgz"@, 1);
            lemma_match(stem, ".tar.bz2"@, ".tar.bz2"@);
        },
        Format::Xz => {
            reveal_strlit(".bz2");
            reveal_strlit(".gz");
            reveal_strlit(".tar");
            reveal_strlit(".tar.bz2");
            reveal_strlit(".tar.gz");
            reveal_strlit(".tar.xz");
            reveal_strlit(".tbz2");
            reveal_strlit(".tgz");
            reveal_strlit(".txz");
            reveal_strlit(".xz");
            assert(ascii_lowercase(".xz"@) =~= ".xz"@);
            lemma_mismatch(source, ".xz"@, ".tar.gz"@, 2);
            lemma_mismatch(source, ".xz"@, ".tgz"@, 2);
            lemma_mismatch(source, ".xz"@, ".tar.bz2"@, 1);
            lemma_mismatch(source, ".xz"@, ".tbz2"@, 1);
            lemma_through(source, ".xz"@, ".tar"@);
            assert(".tar"@ + ".xz"@ =~= ".tar.xz"@);
            lemma_mismatch(source, ".xz"@, ".txz"@, 3);
            lemma_mismatch(source, ".xz"@, ".gz"@, 2);
            lemma_mismatch(source, ".xz"@, ".bz2"@, 1);
            lemma_match(source, ".xz"@, ".xz"@);
        },
        Format::TarXz => {
            reveal_strlit(".tar.bz2");
            reveal_strlit(".tar.gz");
            reveal_strlit(".tar.xz");
            reveal_strlit(".tbz2");
            reveal_strlit(".tgz");
            assert(ascii_lowercase(".tar.xz"@) =~= ".tar.xz"@);
            lemma_mismatch(stem, ".tar.xz"@, ".tar.gz"@, 2);
            lemma_mismatch(stem, ".tar.xz"@, ".tgz"@, 2);
            lemma_mismatch(stem, ".tar.xz"@, ".tar.bz2"@, 1);
            lemma_mismatch(stem, ".tar.xz"@, ".tbz2"@, 1);
            lemma_match(stem, ".tar.xz"@, ".tar.xz"@);
        },
        Format::SevenZ => {
            reveal_strlit(".7z");
            reveal_strlit(".bz2");
            reveal_strlit(".gz");
            reveal_strlit(".tar");
            reveal_strlit(".tar.bz2");
            reveal_strlit(".tar.gz");
            reveal_strlit(".tar.xz");
            reveal_strlit(".tbz2");
            reveal_strlit(".tgz");
            reveal_strlit(".txz");
            reveal_strlit(".xz");
            reveal_strlit(".zip");
            assert(ascii_lowercase(".7z"@) =~= ".7z"@);
            lemma_mismatch(stem, ".7z"@, ".tar.gz"@, 2);
            lemma_mismatch(stem, ".7z"@, ".tgz"@, 2);
            lemma_mismatch(stem, ".7z"@, ".tar.bz2"@, 1);
            lemma_mismatch(stem, ".7z"@, ".tbz2"@, 1);
            lemma_mismatch(stem, ".7z"@, ".tar.xz"@, 2);
            lemma_mismatch(stem, ".7z"@, ".txz"@, 2);
            lemma_mismatch(stem, ".7z"@, ".gz"@, 2);
            lemma_mismatch(stem, ".7z"@, ".bz2"@, 1);
            lemma_mismatch(stem, ".7z"@, ".xz"@, 2);
            lemma_mismatch(stem, ".7z"@, ".tar"@, 1);
            lemma_mismatch(stem, ".7z"@, ".zip"@, 1);
            lemma_match(stem, ".7z"@, ".7z"@);
        },
        Format::Rar => {},
    }
}

/// The last `c` of `x + e` is the last one of `e` when `e` holds a `c`.
proof fn lemma_last_index_concat(x: Seq<char>, e: Seq<char>, c: char)
    requires
        last_index_of(e, c) >= 0,
    ensures
        last_index_of(x + e, c) == x.len() + last_index_of(e, c),
{
    lemma_last_index_bounds(e, c);
    let k = x.len() + last_index_of(e, c);
    assert((x + e)[k] == e[last_index_of(e, c)]);
    assert forall|j: int| k < j < (x + e).len() implies (x + e)[j] != c by {
        assert((x + e)[j] == e[j - x.len()]);
    }
    lemma_last_index_is(x + e, c, k);
}

/// The base that the default output name of `format` extends: the whole
/// source path for single-file formats, the stem otherwise.
pub open spec fn name_base(source: Seq<char>, stem: Seq<char>, format: Format) -> Seq<char> {
    if is_single_file(format) {
        source
    } else {
        stem
    }
}

/// Extracting an archive whose file name is the default compressed name gives,
/// by default, the name it was made from: the stem for zip, tar, tar.gz and
/// 7z, the whole source name for gz, bz2 and xz. (tar.bz2 and tar.xz keep the
/// `.tar`, so they are left out.)
pub proof fn lemma_extract_output_inverts_name(source: Seq<char>, stem: Seq<char>, format: Format)
    requires
        format != Format::Rar,
        format != Format::TarBz2,
        format != Format::TarXz,
        name_base(source, stem, format).len() > 0,
    ensures
        compressed_name(source, stem, format) matches Some(name) && extract_output_for_stem(
            stem_of_name(name),
            format,
        ) == name_base(source, stem, format),
{
    let x = name_base(source, stem, format);
    let ext = match format {
        Format::Zip => ".zip"@,
        Format::Tar => ".tar"@,
        Format::Gz => ".gz"@,
        Format::TarGz => ".tar.gz"@,
        Format::Bz2 => ".bz2"@,
        Format::Xz => ".xz"@,
        _ => ".7z"@,
    };
    reveal_strlit(".zip");
    reveal_strlit(".tar");
    reveal_strlit(".gz");
    reveal_strlit(".tar.gz");
    reveal_strlit(".bz2");
    reveal_strlit(".xz");
    reveal_strlit(".7z");
    assert(compressed_name(source, stem, format) == Some(x + ext));
    let d = if format == Format::TarGz { 4int } else { 0int };
    lemma_last_index_is(ext, '.', d);
    lemma_last_index_concat(x, ext, '.');
    let name = x + ext;
    assert(stem_of_name(name) == name.subrange(0, x.len() + d));
    if format == Format::TarGz {
        assert(name.subrange(0, x.len() + d) =~= x + ".tar"@);
        assert(".tar"@.is_suffix_of(x + ".tar"@)) by {
            assert((x + ".tar"@).subrange(x.len() as int, x.len() + 4int) =~= ".tar"@);
        }
        assert((x + ".tar"@).subrange(0, x.len() as int) =~= x);
    } else {
        assert(name.subrange(0, x.len() + d) =~= x);
    }
}

/// The default extraction target is the archive's stem: unchanged for every
/// format but tar.gz, which drops one final `.tar` from it; `output` is used
/// only when that leaves nothing.
pub proof fn lemma_extract_output_is_stem(stem: Seq<char>, format: Format)
    ensures
        stem.len() == 0 ==> extract_output_for_stem(stem, format) == "output"@,
        stem.len() > 0 && format != Format::TarGz ==> extract_output_for_stem(stem, format) == stem,
        stem.len() > 0 && !".tar"@.is_suffix_of(stem) ==> extract_output_for_stem(stem, format) == stem,
        forall|x: Seq<char>|
            x.len() > 0 && stem == x + ".tar"@ ==> extract_output_for_stem(stem, Format::TarGz) == x,
{
    reveal_strlit(".tar");
    assert forall|x: Seq<char>| x.len() > 0 && stem == x + ".tar"@ implies extract_output_for_stem(
        stem,
        Format::TarGz,
    ) == x by {
        assert(stem.subrange(x.len() as int, stem.len() as int) =~= ".tar"@);
        assert(stem.subrange(0, x.len() as int) =~= x);
    }
}

/// Every extension in the table is recognised after any name: `.tar.gz` and
/// `.tgz` name tar.gz, `.tar.bz2` and `.tbz2` tar.bz2, `.tar.xz` and `.txz`
/// tar.xz, `.tar` tar, `.zip` zip, `.7z` 7z and `.rar` RAR, whatever comes
/// before them (directories included).
pub proof fn lemma_archive_extensions_detected(x: Seq<char>)
    ensures
        detected_format(x + ".tar.gz"@) == Some(Format::TarGz),
        detected_format(x + ".tgz"@) == Some(Format::TarGz),
        detected_format(x + ".tar.bz2"@) == Some(Format::TarBz2),
        detected_format(x + ".tbz2"@) == Some(Format::TarBz2),
        detected_format(x + ".tar.xz"@) == Some(Format::TarXz),
        detected_format(x + ".txz"@) == Some(Format::TarXz),
        detected_format(x + ".tar"@) == Some(Format::Tar),
        detected_format(x + ".zip"@) == Some(Format::Zip),
        detected_format(x + ".7z"@) == Some(Format::SevenZ),
        detected_format(x + ".rar"@) == Some(Format::Rar),
{
    lemma_compressed_name_detected(x, x, Format::TarGz);
    lemma_compressed_name_detected(x, x, Format::TarBz2);
    lemma_compressed_name_detected(x, x, Format::TarXz);
    lemma_compressed_name_detected(x, x, Format::Tar);
    lemma_compressed_name_detected(x, x, Format::Zip);
    lemma_compressed_name_detected(x, x, Format::SevenZ);
    lemma_tgz_detected(x);
    lemma_tbz2_detected(x);
    lemma_txz_detected(x);
    lemma_rar_detected(x);
}

/// A name ending in `.gz`, `.bz2` or `.xz` is detected as that single-file
/// format, unless the name before the extension ends in `.tar`: then it is
/// the tar form.
pub proof fn lemma_single_file_extensions_detected(x: Seq<char>)
    ensures
        detected_format(x + ".gz"@) == if ends_with_ignore_case(x, ".tar"@) {
            Some(Format::TarGz)
        } else {
            Some(Format::Gz)
        },
        detected_format(x + ".bz2"@) == if ends_with_ignore_case(x, ".tar"@) {
            Some(Format::TarBz2)
        } else {
            Some(Format::Bz2)
        },
        detected_format(x + ".xz"@) == if ends_with_ignore_case(x, ".tar"@) {
            Some(Format::TarXz)
        } else {
            Some(Format::Xz)
        },
{
    reveal_strlit(".tar");
    reveal_strlit(".gz");
    reveal_strlit(".bz2");
    reveal_strlit(".xz");
    reveal_strlit(".tar.gz");
    reveal_strlit(".tar.bz2");
    reveal_strlit(".tar.xz");
    if ends_with_ignore_case(x, ".tar"@) {
        assert(ascii_lowercase(".gz"@) =~= ".gz"@);
        assert(ascii_lowercase(".bz2"@) =~= ".bz2"@);
        assert(ascii_lowercase(".xz"@) =~= ".xz"@);
        lemma_through(x, ".gz"@, ".tar"@);
        assert(".tar"@ + ".gz"@ =~= ".tar.gz"@);
        lemma_through(x, ".bz2"@, ".tar"@);
        assert(".tar"@ + ".bz2"@ =~= ".tar.bz2"@);
        lemma_through(x, ".xz"@, ".tar"@);
        assert(".tar"@ + ".xz"@ =~= ".tar.xz"@);
        lemma_single_tar_rest(x);
    } else {
        lemma_compressed_name_detected(x, x, Format::Gz);
        lemma_compressed_name_detected(x, x, Format::Bz2);
        lemma_compressed_name_detected(x, x, Format::Xz);
    }
}

/// After a name ending in `.tar`, `.bz2` and `.xz` are not read as an earlier
/// extension of the table.
proof fn lemma_single_tar_rest(x: Seq<char>)
    ensures
        !ends_with_ignore_case(x + ".bz2"@, ".tar.gz"@),
        !ends_with_ignore_case(x + ".bz2"@, ".tgz"@),
        !ends_with_ignore_case(x + ".xz"@, ".tar.gz"@),
        !ends_with_ignore_case(x + ".xz"@, ".tgz"@),
        !ends_with_ignore_case(x + ".xz"@, ".tar.bz2"@),
        !ends_with_ignore_case(x + ".xz"@, ".tbz2"@),
{
    reveal_strlit(".bz2");
    reveal_strlit(".xz");
    reveal_strlit(".tar.gz");
    reveal_strlit(".tgz");
    reveal_strlit(".tar.bz2");
    reveal_strlit(".tbz2");
    assert(ascii_lowercase(".bz2"@) =~= ".bz2"@);
    assert(ascii_lowercase(".xz"@) =~= ".xz"@);
    lemma_mismatch(x, ".bz2"@, ".tar.gz"@, 1);
    lemma_mismatch(x, ".bz2"@, ".tgz"@, 1);
    lemma_mismatch(x, ".xz"@, ".tar.gz"@, 2);
    lemma_mismatch(x, ".xz"@, ".tgz"@, 2);
    lemma_mismatch(x, ".xz"@, ".tar.bz2"@, 1);
    lemma_mismatch(x, ".xz"@, ".tbz2"@, 1);
}

/// `.tgz` after any name is tar.gz.
proof fn lemma_tgz_detected(x: Seq<char>)
    ensures
        detected_format(x + ".tgz"@) == Some(Format::TarGz),
{
    reveal_strlit(".tgz");
    assert(ascii_lowercase(".tgz"@) =~= ".tgz"@);
    lemma_match(x, ".tgz"@, ".tgz"@);
}

/// `.tbz2` after any name is tar.bz2.
proof fn lemma_tbz2_detected(x: Seq<char>)
    ensures
        detected_format(x + ".tbz2"@) == Some(Format::TarBz2),
{
    reveal_strlit(".tbz2");
    reveal_strlit(".tar.gz");
    reveal_strlit(".tgz");
    assert(ascii_lowercase(".tbz2"@) =~= ".tbz2"@);
    lemma_mismatch(x, ".tbz2"@, ".tar.gz"@, 1);
    lemma_mismatch(x, ".tbz2"@, ".tgz"@, 1);
    lemma_match(x, ".tbz2"@, ".tbz2"@);
}

/// `.txz` after any name is tar.xz.
proof fn lemma_txz_detected(x: Seq<char>)
    ensures
        detected_format(x + ".txz"@) == Some(Format::TarXz),
{
    reveal_strlit(".txz");
    reveal_strlit(".tar.gz");
    reveal_strlit(".tgz");
    reveal_strlit(".tar.bz2");
    reveal_strlit(".tbz2");
    assert(ascii_lowercase(".txz"@) =~= ".txz"@);
    lemma_mismatch(x, ".txz"@, ".tar.gz"@, 2);
    lemma_mismatch(x, ".txz"@, ".tgz"@, 2);
    lemma_mismatch(x, ".txz"@, ".tar.bz2"@, 1);
    lemma_mismatch(x, ".txz"@, ".tbz2"@, 1);
    lemma_match(x, ".txz"@, ".txz"@);
}

/// `.rar` after any name is RAR.
proof fn lemma_rar_detected(x: Seq<char>)
    ensures
        detected_format(x + ".rar"@) == Some(Format::Rar),
{
    reveal_strlit(".rar");
    reveal_strlit(".tar.gz");
    reveal_strlit(".tgz");
    reveal_strlit(".tar.bz2");
    reveal_strlit(".tbz2");
    reveal_strlit(".tar.xz");
    reveal_strlit(".txz");
    reveal_strlit(".gz");
    reveal_strlit(".bz2");
    reveal_strlit(".xz");
    reveal_strlit(".tar");
    reveal_strlit(".zip");
    reveal_strlit(".7z");
    assert(ascii_lowercase(".rar"@) =~= ".rar"@);
    lemma_mismatch(x, ".rar"@, ".tar.gz"@, 1);
    lemma_mismatch(x, ".rar"@, ".tgz"@, 1);
    lemma_mismatch(x, ".rar"@, ".tar.bz2"@, 1);
    lemma_mismatch(x, ".rar"@, ".tbz2"@, 1);
    lemma_mismatch(x, ".rar"@, ".tar.xz"@, 1);
    lemma_mismatch(x, ".rar"@, ".txz"@, 1);
    lemma_mismatch(x, ".rar"@, ".gz"@, 1);
    lemma_mismatch(x, ".rar"@, ".bz2"@, 1);
    lemma_mismatch(x, ".rar"@, ".xz"@, 1);
    lemma_mismatch(x, ".rar"@, ".tar"@, 3);
    lemma_mismatch(x, ".rar"@, ".zip"@, 1);
    lemma_mismatch(x, ".rar"@, ".7z"@, 1);
    lemma_match(x, ".rar"@, ".rar"@);
}

/// The default compressed name extends what it is made from: gz, bz2 and xz
/// add their extension to the whole source path; the other formats add
/// theirs to the stem alone, so the rest of the source path plays no part.
pub proof fn lemma_compressed_name_extends(source: Seq<char>, stem: Seq<char>, format: Format)
    requires
        format != Format::Rar,
    ensures
        compressed_name(source, stem, format) matches Some(name) && name.len() > name_base(source, stem, format).len()
            && name_base(source, stem, format).is_prefix_of(name),
        !is_single_file(format) ==> forall|other: Seq<char>| #[trigger]
            compressed_name(other, stem, format) == compressed_name(source, stem, format),
{
    reveal_strlit(".zip");
    reveal_strlit(".tar");
    reveal_strlit(".gz");
    reveal_strlit(".tar.gz");
    reveal_strlit(".bz2");
    reveal_strlit(".tar.bz2");
    reveal_strlit(".xz");
    reveal_strlit(".tar.xz");
    reveal_strlit(".7z");
    let base = name_base(source, stem, format);
    let name = compressed_name(source, stem, format)->Some_0;
    assert(name.subrange(0, base.len() as int) =~= base);
}

} // verus!
