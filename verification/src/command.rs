use vstd::prelude::*;
use crate::error::ArchiveError;
use crate::format::{
    Format, detected_format, detect_format, compressed_name, default_compress_output,
    extract_output_for_stem, default_extract_output, is_single_file,
};
use crate::path::stem_or_empty;

verus! {

/// What the user asked for: a source path and, where given, a format and an output path.
pub enum Command {
    Compress { source: String, format: Format, output: Option<String> },
    Extract { source: String, format: Option<Format>, output: Option<String> },
    List { source: String, format: Option<Format> },
}

/// The work to do, with every choice made.
pub enum Task {
    Compress { format: Format, source: String, output: String },
    Extract { format: Format, source: String, output: String },
    List { format: Format, source: String },
}

/// The format given, or else the one the extension of `source` names.
pub open spec fn chosen_format(source: Seq<char>, given: Option<Format>) -> Option<Format> {
    match given {
        Some(f) => Some(f),
        None => detected_format(source),
    }
}

/// The output path of a compression: the one given, or the default name.
pub open spec fn compress_target(source: Seq<char>, format: Format, output: Option<Seq<char>>) -> Option<Seq<char>> {
    if format == Format::Rar {
        None
    } else {
        match output {
            Some(o) => Some(o),
            None => compressed_name(source, stem_or_empty(source), format),
        }
    }
}

/// The output path of an extraction: the one given, or the default.
pub open spec fn extract_target(source: Seq<char>, format: Format, output: Option<Seq<char>>) -> Seq<char> {
    match output {
        Some(o) => o,
        None => extract_output_for_stem(stem_or_empty(source), format),
    }
}

/// The view of an optional string.
pub open spec fn opt_view(s: Option<String>) -> Option<Seq<char>> {
    match s {
        Some(s) => Some(s@),
        None => None,
    }
}

/// Compressing uses the output path given, whatever the format (but RAR,
/// which cannot be written): the default name is only for when none is given.
pub proof fn lemma_given_output_is_used(source: Seq<char>, format: Format, output: Seq<char>)
    requires
        format != Format::Rar,
    ensures
        compress_target(source, format, Some(output)) == Some(output),
{
}

/// Without an output path, compressing in any format but RAR still has a
/// target, and it is not empty.
pub proof fn lemma_default_target_exists(source: Seq<char>, format: Format)
    requires
        format != Format::Rar,
    ensures
        compress_target(source, format, None) matches Some(t) && t.len() > 0,
{
    reveal_strlit(".zip");
    reveal_strlit(".tar");
    reveal_strlit(".gz");
    reveal_strlit(".tar.gz");
    reveal_strlit(".bz2");
    reveal_strlit(".tar.bz2");
    reveal_strlit(".xz");
    reveal_strlit(".tar.xz");
    reveal_strlit(".7z");
}

/// Extracting uses the output path given, whatever the format; the default
/// is only for when none is given.
pub proof fn lemma_given_extract_output_is_used(source: Seq<char>, format: Format, output: Seq<char>)
    ensures
        extract_target(source, format, Some(output)) == output,
{
}

/// The format to use for `source`: the one given, or the one its extension names.
pub fn choose_format(source: &str, given: Option<Format>) -> (r: Result<Format, ArchiveError>)
    ensures
        match r {
            Ok(f) => chosen_format(source@, given) == Some(f),
            Err(e) => chosen_format(source@, given) is None && e is FormatNotDetected,
        },
{
    match given {
        Some(f) => Ok(f),
        None => match detect_format(source) {
            Some(f) => Ok(f),
            None => Err(ArchiveError::FormatNotDetected),
        },
    }
}

/// Plans a compression: RAR is refused; otherwise the output is the one given or the default name.
pub fn plan_compress(source: String, format: Format, output: Option<String>) -> (r: Result<Task, ArchiveError>)
    ensures
        match r {
            Ok(Task::Compress { format: f, source: s, output: o }) => f == format && s@ == source@
                && compress_target(source@, format, opt_view(output)) == Some(o@),
            Ok(_) => false,
            Err(e) => compress_target(source@, format, opt_view(output)) is None && e is RarCompressUnsupported,
        },
        format != Format::Rar ==> (r matches Ok(Task::Compress { output: o, .. }) && match output {
            Some(given) => o@ == given@,
            None => compressed_name(source@, stem_or_empty(source@), format) == Some(o@),
        }),
{
    if format == Format::Rar {
        return Err(ArchiveError::RarCompressUnsupported);
    }
    let target = match output {
        Some(o) => o,
        None => default_compress_output(source.as_str(), format)?,
    };
    Ok(Task::Compress { format, source, output: target })
}

/// Plans an extraction: the format is the one given or detected, the output the one given or the default.
pub fn plan_extract(source: String, format: Option<Format>, output: Option<String>) -> (r: Result<Task, ArchiveError>)
    ensures
        match r {
            Ok(Task::Extract { format: f, source: s, output: o }) => chosen_format(source@, format) == Some(f)
                && s@ == source@ && o@ == extract_target(source@, f, opt_view(output)),
            Ok(_) => false,
            Err(e) => chosen_format(source@, format) is None && e is FormatNotDetected,
        },
        output matches Some(given) ==> (r matches Ok(Task::Extract { output: o, .. }) ==> o@ == given@),
        format matches Some(f) ==> (r matches Ok(Task::Extract { format: g, .. }) && g == f),
{
    let f = choose_format(source.as_str(), format)?;
    let target = match output {
        Some(o) => o,
        None => default_extract_output(source.as_str(), f),
    };
    Ok(Task::Extract { format: f, source, output: target })
}

/// Plans a listing: the format is the one given or detected, and must not be a single-file format.
pub fn plan_list(source: String, format: Option<Format>) -> (r: Result<Task, ArchiveError>)
    ensures
        match r {
            Ok(Task::List { format: f, source: s }) => chosen_format(source@, format) == Some(f) && !is_single_file(f)
                && s@ == source@,
            Ok(_) => false,
            Err(ArchiveError::FormatNotDetected) => chosen_format(source@, format) is None,
            Err(ArchiveError::ListUnsupported) => chosen_format(source@, format) matches Some(f)
                && is_single_file(f),
            Err(_) => false,
        },
{
    let f = choose_format(source.as_str(), format)?;
    match f {
        Format::Gz | Format::Bz2 | Format::Xz => Err(ArchiveError::ListUnsupported),
        _ => Ok(Task::List { format: f, source }),
    }
}

/// Turns a command into the task it asks for, or the reason it cannot be done.
pub fn plan(command: Command) -> (r: Result<Task, ArchiveError>)
    ensures
        match command {
            Command::Compress { source, format, output } => match r {
                Ok(Task::Compress { format: f, source: s, output: o }) => f == format && s@ == source@
                    && compress_target(source@, format, opt_view(output)) == Some(o@),
                Ok(_) => false,
                Err(e) => compress_target(source@, format, opt_view(output)) is None
                    && e is RarCompressUnsupported,
            },
            Command::Extract { source, format, output } => match r {
                Ok(Task::Extract { format: f, source: s, output: o }) => chosen_format(source@, format)
                    == Some(f) && s@ == source@ && o@ == extract_target(source@, f, opt_view(output)),
                Ok(_) => false,
                Err(e) => chosen_format(source@, format) is None && e is FormatNotDetected,
            },
            Command::List { source, format } => match r {
                Ok(Task::List { format: f, source: s }) => chosen_format(source@, format) == Some(f)
                    && !is_single_file(f) && s@ == source@,
                Ok(_) => false,
                Err(ArchiveError::FormatNotDetected) => chosen_format(source@, format) is None,
                Err(ArchiveError::ListUnsupported) => chosen_format(source@, format) matches Some(f)
                    && is_single_file(f),
                Err(_) => false,
            },
        },
{
    match command {
        Command::Compress { source, format, output } => plan_compress(source, format, output),
        Command::Extract { source, format, output } => plan_extract(source, format, output),
        Command::List { source, format } => plan_list(source, format),
    }
}

} // verus!
