//! What is decided before an entry goes to disk: whether it may be written
//! at all, under which file name, with which content, and whether a file
//! already there may be replaced. The writing itself is left to the caller.

use crate::entry::{validation, DesktopEntry, EntryView, ValidationError};
use crate::serialize::serialized;
use crate::text::{is_blank, to_chars, trim, trimmed};
use vstd::prelude::*;
use vstd::string::StringExecFns;

verus! {

/// Whether `c` may stand in a file name as it is: an ASCII letter or digit,
/// a hyphen, an underscore or a dot.
pub open spec fn is_file_char(c: char) -> bool {
    ('a' <= c && c <= 'z') || ('A' <= c && c <= 'Z') || ('0' <= c && c <= '9') || c == '-' || c
        == '_' || c == '.'
}

/// `c` as it stands in a file name: itself, or a hyphen in its place.
pub open spec fn file_char(c: char) -> char {
    if is_file_char(c) {
        c
    } else {
        '-'
    }
}

/// The file name, without extension, for a free-form title: the title
/// trimmed, or `desktop-entry` where nothing is left of it, with a hyphen in
/// place of every character that may not stand in a file name.
pub open spec fn sanitized(title: Seq<char>) -> Seq<char> {
    let base = if is_blank(title) {
        "desktop-entry"@
    } else {
        trimmed(title)
    };
    Seq::new(base.len(), |i: int| file_char(base[i]))
}

/// The file name for a title: the sanitized title and the extension.
pub open spec fn file_name_for(title: Seq<char>) -> Seq<char> {
    sanitized(title) + ".desktop"@
}

/// The file name, without extension, for a free-form title.
pub fn sanitize_file_name(input: &str) -> (out: String)
    ensures
        out@ == sanitized(input@),
{
    let kept = trim(&to_chars(input));
    let base = if kept.len() == 0 {
        to_chars("desktop-entry")
    } else {
        kept
    };
    let mut out = String::new();
    let mut i: usize = 0;
    while i < base.len()
        invariant
            i <= base.len(),
            out@ == Seq::new(i as nat, |k: int| file_char(base@[k])),
        decreases base.len() - i,
    {
        let c = base[i];
        let safe = ('a' <= c && c <= 'z') || ('A' <= c && c <= 'Z') || ('0' <= c && c <= '9') || c
            == '-' || c == '_' || c == '.';
        let ghost before = out@;
        if safe {
            out.push(c);
        } else {
            out.push('-');
        }
        i += 1;
        assert(out@ =~= Seq::new(i as nat, |k: int| file_char(base@[k])));
    }
    assert(out@ =~= sanitized(input@));
    out
}

/// What a write is going to put on disk.
#[derive(Debug, Clone, PartialEq, Eq)]
pub struct WritePlan {
    /// The name of the file, extension included, within the target directory.
    pub file_name: String,
    /// The text of the file.
    pub content: String,
}

/// Why a write does not go ahead.
#[derive(Debug, Clone, Copy, PartialEq, Eq, Structural)]
pub enum WriteRefusal {
    /// The entry does not pass validation.
    Invalid(ValidationError),
    /// The target exists and may not be replaced.
    AlreadyExists,
}

/// The text of a valid entry, or the refusal to write one that is not valid.
pub open spec fn content_of(e: EntryView) -> Result<Seq<char>, WriteRefusal> {
    match validation(e) {
        Ok(()) => Ok(serialized(e)),
        Err(reason) => Err(WriteRefusal::Invalid(reason)),
    }
}

/// Whether a target may be written: it is not present yet, or it may be
/// replaced.
pub open spec fn may_write(present: bool, overwrite: bool) -> bool {
    !present || overwrite
}

/// The decisions around writing an entry to disk.
pub struct DesktopWriter;

impl DesktopWriter {
    /// Where the user's entries are kept, below the home directory.
    pub fn applications_subdir() -> (dir: String)
        ensures
            dir@ == ".local/share/applications"@,
    {
        ".local/share/applications".to_owned()
    }

    /// The permission bits given to a written file.
    pub fn file_mode() -> (mode: u32)
        ensures
            mode == 0o644,
    {
        0o644
    }

    /// The title under which an entry is saved where the user gave none: its
    /// name, or `desktop-entry` for an entry without one.
    pub fn default_title(entry: &DesktopEntry) -> (title: String)
        ensures
            title@ == if is_blank(entry@.name) {
                "desktop-entry"@
            } else {
                entry@.name
            },
    {
        if trim(&to_chars(entry.name.as_str())).len() == 0 {
            "desktop-entry".to_owned()
        } else {
            entry.name.clone()
        }
    }

    /// The name of the file, extension included, for a title.
    pub fn file_name(title: &str) -> (name: String)
        ensures
            name@ == file_name_for(title@),
    {
        let mut name = sanitize_file_name(title);
        name.append(".desktop");
        name
    }

    /// The text to write for an entry. An entry that is not valid is not
    /// written: the refusal says why it is not valid.
    pub fn content(entry: &DesktopEntry) -> (r: Result<String, WriteRefusal>)
        ensures
            match r {
                Ok(text) => content_of(entry@) == Ok::<Seq<char>, WriteRefusal>(text@),
                Err(refusal) => content_of(entry@) == Err::<Seq<char>, WriteRefusal>(refusal),
            },
    {
        match entry.validate() {
            Ok(()) => Ok(entry.to_ini_string()),
            Err(reason) => Err(WriteRefusal::Invalid(reason)),
        }
    }

    /// What to write for an entry that is saved under a title, and under
    /// which file name. An entry that is not valid is not written: the
    /// refusal says why it is not valid.
    pub fn plan(entry: &DesktopEntry, title: &str) -> (r: Result<WritePlan, WriteRefusal>)
        ensures
            match r {
                Ok(plan) => plan.file_name@ == file_name_for(title@) && content_of(entry@) == Ok::<
                    Seq<char>,
                    WriteRefusal,
                >(plan.content@),
                Err(refusal) => content_of(entry@) == Err::<Seq<char>, WriteRefusal>(refusal),
            },
    {
        match entry.validate() {
            Ok(()) => Ok(
                WritePlan {
                    file_name: DesktopWriter::file_name(title),
                    content: entry.to_ini_string(),
                },
            ),
            Err(reason) => Err(WriteRefusal::Invalid(reason)),
        }
    }

    /// Whether the target may be written: a file that is already there is
    /// replaced only where `overwrite` says so.
    pub fn check_target(present: bool, overwrite: bool) -> (r: Result<(), WriteRefusal>)
        ensures
            may_write(present, overwrite) ==> r == Ok::<(), WriteRefusal>(()),
            !may_write(present, overwrite) ==> r == Err::<(), WriteRefusal>(
                WriteRefusal::AlreadyExists,
            ),
    {
        if present && !overwrite {
            Err(WriteRefusal::AlreadyExists)
        } else {
            Ok(())
        }
    }
}

} // verus!
