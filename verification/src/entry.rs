//! The desktop entry itself: its fields, its mathematical view and the rules
//! an entry has to meet before it may be written out.

use crate::text::{is_blank, is_blank_str, same_str};
use vstd::prelude::*;

verus! {

/// One launcher descriptor, as edited in memory.
///
/// Optional scalars distinguish "absent" from "present but empty"; the list
/// fields keep their order and are never deduplicated; the localized fields
/// and `extra` keep every pair in the order in which it was added.
#[derive(Debug, Clone, PartialEq, Eq)]
pub struct DesktopEntry {
    /// `Type`: `Application`, `Link` or `Directory`.
    pub type_field: String,
    /// `Name`.
    pub name: String,
    /// `GenericName`.
    pub generic_name: Option<String>,
    /// `Comment`.
    pub comment: Option<String>,
    /// `Exec`.
    pub exec_field: String,
    /// `Icon`: a path or a theme name.
    pub icon: Option<String>,
    /// `Terminal`.
    pub terminal: bool,
    /// `Categories`.
    pub categories: Vec<String>,
    /// `MimeType`.
    pub mime_type: Vec<String>,
    /// `Keywords`.
    pub keywords: Vec<String>,
    /// `OnlyShowIn`.
    pub only_show_in: Vec<String>,
    /// `NotShowIn`.
    pub not_show_in: Vec<String>,
    /// `NoDisplay`.
    pub no_display: bool,
    /// `StartupNotify`.
    pub startup_notify: bool,
    /// `TryExec`.
    pub try_exec: Option<String>,
    /// `Path`: the working directory.
    pub path: Option<String>,
    /// `URL`, for entries of type `Link`.
    pub url: Option<String>,
    /// `Actions`.
    pub actions: Vec<String>,
    /// Keys this model does not know, kept verbatim.
    pub extra: Vec<(String, String)>,
    /// `Name[lang]` pairs.
    pub name_localized: Vec<(String, String)>,
    /// `GenericName[lang]` pairs.
    pub generic_name_localized: Vec<(String, String)>,
    /// `Comment[lang]` pairs.
    pub comment_localized: Vec<(String, String)>,
}

/// The mathematical value of a [`DesktopEntry`]: every string as its
/// sequence of characters.
pub struct EntryView {
    pub type_field: Seq<char>,
    pub name: Seq<char>,
    pub generic_name: Option<Seq<char>>,
    pub comment: Option<Seq<char>>,
    pub exec_field: Seq<char>,
    pub icon: Option<Seq<char>>,
    pub terminal: bool,
    pub categories: Seq<Seq<char>>,
    pub mime_type: Seq<Seq<char>>,
    pub keywords: Seq<Seq<char>>,
    pub only_show_in: Seq<Seq<char>>,
    pub not_show_in: Seq<Seq<char>>,
    pub no_display: bool,
    pub startup_notify: bool,
    pub try_exec: Option<Seq<char>>,
    pub path: Option<Seq<char>>,
    pub url: Option<Seq<char>>,
    pub actions: Seq<Seq<char>>,
    pub extra: Seq<(Seq<char>, Seq<char>)>,
    pub name_localized: Seq<(Seq<char>, Seq<char>)>,
    pub generic_name_localized: Seq<(Seq<char>, Seq<char>)>,
    pub comment_localized: Seq<(Seq<char>, Seq<char>)>,
}

/// The characters of an optional string.
pub open spec fn option_view(o: Option<String>) -> Option<Seq<char>> {
    match o {
        Some(s) => Some(s@),
        None => None,
    }
}

/// The characters of each string of a list.
pub open spec fn strings_view(v: Seq<String>) -> Seq<Seq<char>> {
    Seq::new(v.len(), |i: int| v[i]@)
}

/// The characters of each side of each pair of a list.
pub open spec fn pairs_view(v: Seq<(String, String)>) -> Seq<(Seq<char>, Seq<char>)> {
    Seq::new(v.len(), |i: int| (v[i].0@, v[i].1@))
}

impl View for DesktopEntry {
    type V = EntryView;

    open spec fn view(&self) -> EntryView {
        EntryView {
            type_field: self.type_field@,
            name: self.name@,
            generic_name: option_view(self.generic_name),
            comment: option_view(self.comment),
            exec_field: self.exec_field@,
            icon: option_view(self.icon),
            terminal: self.terminal,
            categories: strings_view(self.categories@),
            mime_type: strings_view(self.mime_type@),
            keywords: strings_view(self.keywords@),
            only_show_in: strings_view(self.only_show_in@),
            not_show_in: strings_view(self.not_show_in@),
            no_display: self.no_display,
            startup_notify: self.startup_notify,
            try_exec: option_view(self.try_exec),
            path: option_view(self.path),
            url: option_view(self.url),
            actions: strings_view(self.actions@),
            extra: pairs_view(self.extra@),
            name_localized: pairs_view(self.name_localized@),
            generic_name_localized: pairs_view(self.generic_name_localized@),
            comment_localized: pairs_view(self.comment_localized@),
        }
    }
}

/// The entry with nothing set: empty strings, absent options, empty lists and
/// every flag off.
pub open spec fn empty_entry() -> EntryView {
    EntryView {
        type_field: Seq::empty(),
        name: Seq::empty(),
        generic_name: None,
        comment: None,
        exec_field: Seq::empty(),
        icon: None,
        terminal: false,
        categories: Seq::empty(),
        mime_type: Seq::empty(),
        keywords: Seq::empty(),
        only_show_in: Seq::empty(),
        not_show_in: Seq::empty(),
        no_display: false,
        startup_notify: false,
        try_exec: None,
        path: None,
        url: None,
        actions: Seq::empty(),
        extra: Seq::empty(),
        name_localized: Seq::empty(),
        generic_name_localized: Seq::empty(),
        comment_localized: Seq::empty(),
    }
}

/// Why an entry may not be written out.
#[derive(Debug, Clone, Copy, PartialEq, Eq, Structural)]
pub enum ValidationError {
    /// The type is empty or none of `Application`, `Link`, `Directory`.
    MissingType,
    /// The name is empty or blank.
    MissingName,
    /// The entry is an `Application` without a command.
    MissingExec,
    /// The entry is a `Link` without a target.
    MissingUrl,
}

/// The characters of an optional value, or none where it is absent.
pub open spec fn or_empty(o: Option<Seq<char>>) -> Seq<char> {
    match o {
        Some(s) => s,
        None => Seq::empty(),
    }
}

/// The verdict on an entry.
///
/// An empty type is reported first, then a blank name, then what the type
/// itself asks for: a command for an `Application`, a target for a `Link`,
/// nothing for a `Directory`. Any other type is reported as missing.
pub open spec fn validation(e: EntryView) -> Result<(), ValidationError> {
    if e.type_field.len() == 0 {
        Err(ValidationError::MissingType)
    } else if is_blank(e.name) {
        Err(ValidationError::MissingName)
    } else if e.type_field == "Application"@ {
        if is_blank(e.exec_field) {
            Err(ValidationError::MissingExec)
        } else {
            Ok(())
        }
    } else if e.type_field == "Link"@ {
        if is_blank(or_empty(e.url)) {
            Err(ValidationError::MissingUrl)
        } else {
            Ok(())
        }
    } else if e.type_field == "Directory"@ {
        Ok(())
    } else {
        Err(ValidationError::MissingType)
    }
}

/// Whether an entry may be written out.
pub open spec fn is_valid(e: EntryView) -> bool {
    validation(e) is Ok
}

impl ValidationError {
    /// A sentence for the user.
    pub fn message(&self) -> (out: String)
        ensures
            out@ == match *self {
                ValidationError::MissingType => "Type must be one of Application, Link, Directory"@,
                ValidationError::MissingName => "Name is required"@,
                ValidationError::MissingExec => "Exec is required for Type=Application"@,
                ValidationError::MissingUrl => "URL is required for Type=Link"@,
            },
    {
        match self {
            ValidationError::MissingType => "Type must be one of Application, Link, Directory".to_owned(),
            ValidationError::MissingName => "Name is required".to_owned(),
            ValidationError::MissingExec => "Exec is required for Type=Application".to_owned(),
            ValidationError::MissingUrl => "URL is required for Type=Link".to_owned(),
        }
    }
}

impl Default for DesktopEntry {
    fn default() -> (out: DesktopEntry)
        ensures
            out@ == empty_entry(),
    {
        let out = DesktopEntry {
            type_field: String::new(),
            name: String::new(),
            generic_name: None,
            comment: None,
            exec_field: String::new(),
            icon: None,
            terminal: false,
            categories: Vec::new(),
            mime_type: Vec::new(),
            keywords: Vec::new(),
            only_show_in: Vec::new(),
            not_show_in: Vec::new(),
            no_display: false,
            startup_notify: false,
            try_exec: None,
            path: None,
            url: None,
            actions: Vec::new(),
            extra: Vec::new(),
            name_localized: Vec::new(),
            generic_name_localized: Vec::new(),
            comment_localized: Vec::new(),
        };
        assert(out@.categories =~= Seq::empty());
        assert(out@.mime_type =~= Seq::empty());
        assert(out@.keywords =~= Seq::empty());
        assert(out@.only_show_in =~= Seq::empty());
        assert(out@.not_show_in =~= Seq::empty());
        assert(out@.actions =~= Seq::empty());
        assert(out@.extra =~= Seq::empty());
        assert(out@.name_localized =~= Seq::empty());
        assert(out@.generic_name_localized =~= Seq::empty());
        assert(out@.comment_localized =~= Seq::empty());
        out
    }
}

impl DesktopEntry {
    /// Checks the rules an entry has to meet before it is written out.
    ///
    /// Nothing is changed, and the same entry always gets the same verdict.
    pub fn validate(&self) -> (r: Result<(), ValidationError>)
        ensures
            r == validation(self@),
    {
        if self.type_field.as_str().is_empty() {
            return Err(ValidationError::MissingType);
        }
        if is_blank_str(self.name.as_str()) {
            return Err(ValidationError::MissingName);
        }
        if same_str(self.type_field.as_str(), "Application") {
            if is_blank_str(self.exec_field.as_str()) {
                return Err(ValidationError::MissingExec);
            }
            Ok(())
        } else if same_str(self.type_field.as_str(), "Link") {
            let blank = match &self.url {
                Some(u) => is_blank_str(u.as_str()),
                None => true,
            };
            if blank {
                return Err(ValidationError::MissingUrl);
            }
            Ok(())
        } else if same_str(self.type_field.as_str(), "Directory") {
            Ok(())
        } else {
            Err(ValidationError::MissingType)
        }
    }
}

/// A blank name is reported as missing whatever the type is, as long as
/// there is a type at all.
pub proof fn lemma_blank_name(e: EntryView)
    requires
        e.type_field.len() > 0,
        is_blank(e.name),
    ensures
        validation(e) == Err::<(), ValidationError>(ValidationError::MissingName),
{
}

/// A named `Application` is valid exactly if its command is not blank, and
/// is otherwise reported as lacking its command.
pub proof fn lemma_application(e: EntryView)
    requires
        e.type_field == "Application"@,
        !is_blank(e.name),
    ensures
        validation(e) == if is_blank(e.exec_field) {
            Err::<(), ValidationError>(ValidationError::MissingExec)
        } else {
            Ok::<(), ValidationError>(())
        },
{
    reveal_strlit("Application");
}

/// A named `Link` is valid exactly if it has a target that is not blank, and
/// is otherwise reported as lacking its target.
pub proof fn lemma_link(e: EntryView)
    requires
        e.type_field == "Link"@,
        !is_blank(e.name),
    ensures
        validation(e) == if is_blank(or_empty(e.url)) {
            Err::<(), ValidationError>(ValidationError::MissingUrl)
        } else {
            Ok::<(), ValidationError>(())
        },
{
    reveal_strlit("Link");
    reveal_strlit("Application");
}

/// A named `Directory` is valid: it needs neither a command nor a target.
pub proof fn lemma_directory(e: EntryView)
    requires
        e.type_field == "Directory"@,
        !is_blank(e.name),
    ensures
        validation(e) == Ok::<(), ValidationError>(()),
{
    reveal_strlit("Directory");
    reveal_strlit("Link");
    reveal_strlit("Application");
}

/// A valid entry has one of the three types and a name.
pub proof fn lemma_valid(e: EntryView)
    requires
        is_valid(e),
    ensures
        e.type_field == "Application"@ || e.type_field == "Link"@ || e.type_field
            == "Directory"@,
        !is_blank(e.name),
        e.type_field == "Application"@ ==> !is_blank(e.exec_field),
        e.type_field == "Link"@ ==> !is_blank(or_empty(e.url)),
{
    reveal_strlit("Directory");
    reveal_strlit("Link");
    reveal_strlit("Application");
}

} // verus!
