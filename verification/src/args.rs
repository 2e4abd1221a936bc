//! What the command line decides before any work is done: what to do, in which
//! format to say it, and against what to compare.

use vstd::prelude::*;
use crate::text::same_text;

verus! {

/// What is to be done.
#[derive(Copy, Clone, Debug, PartialEq, Eq, Structural)]
pub enum Mode {
    /// Print the documentation tree as it is.
    DumpRaw,
    /// Print the catalogue.
    Api,
    /// Print what has changed since the base.
    Diff,
}

/// How the result is written.
#[derive(Copy, Clone, Debug, PartialEq, Eq, Structural)]
pub enum Format {
    Silent,
    Pretty,
    Md,
    Json,
}

/// Where the catalogue to compare with comes from.
#[derive(Clone, Debug, PartialEq, Eq)]
pub enum Source {
    /// A revision of the repository.
    Git(String),
    /// A manifest on disk.
    Path(String),
    /// A package of the registry.
    Registry(String),
}

/// A `Source` as the contracts see it.
pub enum SourceView {
    Git(Seq<char>),
    Path(Seq<char>),
    Registry(Seq<char>),
}

impl View for Source {
    type V = SourceView;

    open spec fn view(&self) -> SourceView {
        match *self {
            Source::Git(rev) => SourceView::Git(rev@),
            Source::Path(path) => SourceView::Path(path@),
            Source::Registry(package) => SourceView::Registry(package@),
        }
    }
}

/// The view of a source that may be absent.
pub open spec fn source_view(source: Option<Source>) -> Option<SourceView> {
    match source {
        Some(s) => Some(s@),
        None => None,
    }
}

/// The format that a name stands for; `markdown` is another name for `md`.
pub open spec fn format_named(name: Seq<char>) -> Option<Format> {
    if name == "silent"@ {
        Some(Format::Silent)
    } else if name == "pretty"@ {
        Some(Format::Pretty)
    } else if name == "md"@ || name == "markdown"@ {
        Some(Format::Md)
    } else if name == "json"@ {
        Some(Format::Json)
    } else {
        None
    }
}

/// The name of a format.
pub open spec fn format_name(format: Format) -> Seq<char> {
    match format {
        Format::Silent => "silent"@,
        Format::Pretty => "pretty"@,
        Format::Md => "md"@,
        Format::Json => "json"@,
    }
}

impl Format {
    /// The names of the formats, in the order in which they are offered.
    pub fn variants() -> (names: [&'static str; 4])
        ensures
            names@.len() == 4,
            names@[0]@ == format_name(Format::Silent),
            names@[1]@ == format_name(Format::Pretty),
            names@[2]@ == format_name(Format::Md),
            names@[3]@ == format_name(Format::Json),
    {
        ["silent", "pretty", "md", "json"]
    }

    /// The format of the given name, or the list of the names that are valid.
    pub fn from_name(name: &str) -> (found: Result<Format, String>)
        ensures
            match format_named(name@) {
                Some(format) => found == Ok::<Format, String>(format),
                None => found matches Err(valid) && valid@
                    == "valid values: silent, pretty, md, json"@,
            },
    {
        if same_text(name, "silent") {
            Ok(Format::Silent)
        } else if same_text(name, "pretty") {
            Ok(Format::Pretty)
        } else if same_text(name, "md") || same_text(name, "markdown") {
            Ok(Format::Md)
        } else if same_text(name, "json") {
            Ok(Format::Json)
        } else {
            Err("valid values: silent, pretty, md, json".to_owned())
        }
    }

    /// The name of this format.
    pub fn to_string(&self) -> (name: String)
        ensures
            name@ == format_name(*self),
    {
        match self {
            Format::Silent => "silent".to_owned(),
            Format::Pretty => "pretty".to_owned(),
            Format::Md => "md".to_owned(),
            Format::Json => "json".to_owned(),
        }
    }
}

impl Default for Format {
    fn default() -> (format: Format)
        ensures
            format == Format::Pretty,
    {
        Format::Pretty
    }
}

impl core::str::FromStr for Format {
    type Err = String;

    /// The format of the given name, or the list of the names that are valid.
    fn from_str(s: &str) -> (found: Result<Format, String>)
        ensures
            match format_named(s@) {
                Some(format) => found == Ok::<Format, String>(format),
                None => found matches Err(valid) && valid@
                    == "valid values: silent, pretty, md, json"@,
            },
    {
        Format::from_name(s)
    }
}

/// What is to be done, given which of the three was asked for: the first of
/// dumping, cataloguing and comparing that was; cataloguing where none was.
pub fn mode(dump_raw: bool, api: bool, diff: bool) -> (chosen: Mode)
    ensures
        chosen == if dump_raw {
            Mode::DumpRaw
        } else if api {
            Mode::Api
        } else if diff {
            Mode::Diff
        } else {
            Mode::Api
        },
{
    if dump_raw {
        Mode::DumpRaw
    } else if api {
        Mode::Api
    } else if diff {
        Mode::Diff
    } else {
        Mode::Api
    }
}

/// What to compare with, given what was named: the revision where one was
/// named, else the manifest, else the package; nothing where none was.
pub fn base(git: Option<&String>, path: Option<&String>, registry: Option<&String>) -> (chosen:
    Option<Source>)
    ensures
        source_view(chosen) == match (git, path, registry) {
            (Some(rev), _, _) => Some(SourceView::Git(rev@)),
            (None, Some(manifest), _) => Some(SourceView::Path(manifest@)),
            (None, None, Some(package)) => Some(SourceView::Registry(package@)),
            (None, None, None) => None,
        },
{
    if let Some(git) = git {
        Some(Source::Git(git.clone()))
    } else if let Some(path) = path {
        Some(Source::Path(path.clone()))
    } else if let Some(registry) = registry {
        Some(Source::Registry(registry.clone()))
    } else {
        None
    }
}

} // verus!
