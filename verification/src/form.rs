//! The editing form as plain values: what the user typed into each control,
//! how an entry is read from it, and how an entry is shown in it.

use crate::entry::{
    is_valid, option_view, or_empty, pairs_view, strings_view, validation, DesktopEntry,
    EntryView, ValidationError,
};
use crate::lemmas::lemma_first_index_absent;
use crate::parse::{list_items, read_list};
use crate::serialize::{key_value, serialized};
use crate::text::{
    chars_view, find_from, is_blank, push_chars, same_str, split, split_on, split_once,
    split_once_at, to_chars, to_string, trim, trimmed,
};
use vstd::prelude::*;

verus! {

/// What the controls of the form hold.
///
/// Lists are held as the one line of text in which the user separates the
/// items by semicolons; localized variants and extra keys as a block of text
/// with one `key=value` per line.
#[derive(Debug, Clone, PartialEq, Eq)]
pub struct FormValues {
    /// The type that is selected, if one is.
    pub type_text: Option<String>,
    pub name: String,
    pub generic_name: String,
    pub comment: String,
    pub exec_field: String,
    pub icon: String,
    pub terminal: bool,
    pub no_display: bool,
    pub startup_notify: bool,
    pub categories: String,
    pub mime_type: String,
    pub keywords: String,
    pub only_show_in: String,
    pub not_show_in: String,
    pub try_exec: String,
    pub path: String,
    pub url: String,
    pub actions: String,
    pub name_localized: String,
    pub generic_name_localized: String,
    pub comment_localized: String,
    pub extra: String,
}

/// The mathematical value of [`FormValues`].
pub struct FormView {
    pub type_text: Option<Seq<char>>,
    pub name: Seq<char>,
    pub generic_name: Seq<char>,
    pub comment: Seq<char>,
    pub exec_field: Seq<char>,
    pub icon: Seq<char>,
    pub terminal: bool,
    pub no_display: bool,
    pub startup_notify: bool,
    pub categories: Seq<char>,
    pub mime_type: Seq<char>,
    pub keywords: Seq<char>,
    pub only_show_in: Seq<char>,
    pub not_show_in: Seq<char>,
    pub try_exec: Seq<char>,
    pub path: Seq<char>,
    pub url: Seq<char>,
    pub actions: Seq<char>,
    pub name_localized: Seq<char>,
    pub generic_name_localized: Seq<char>,
    pub comment_localized: Seq<char>,
    pub extra: Seq<char>,
}

impl View for FormValues {
    type V = FormView;

    open spec fn view(&self) -> FormView {
        FormView {
            type_text: option_view(self.type_text),
            name: self.name@,
            generic_name: self.generic_name@,
            comment: self.comment@,
            exec_field: self.exec_field@,
            icon: self.icon@,
            terminal: self.terminal,
            no_display: self.no_display,
            startup_notify: self.startup_notify,
            categories: self.categories@,
            mime_type: self.mime_type@,
            keywords: self.keywords@,
            only_show_in: self.only_show_in@,
            not_show_in: self.not_show_in@,
            try_exec: self.try_exec@,
            path: self.path@,
            url: self.url@,
            actions: self.actions@,
            name_localized: self.name_localized@,
            generic_name_localized: self.generic_name_localized@,
            comment_localized: self.comment_localized@,
            extra: self.extra@,
        }
    }
}

// ---------------------------------------------------------------------------
// From the form to an entry
// ---------------------------------------------------------------------------

/// The value of an optional control: absent where the text is blank, else
/// the text trimmed.
pub open spec fn optional_text(text: Seq<char>) -> Option<Seq<char>> {
    if is_blank(text) {
        None
    } else {
        Some(trimmed(text))
    }
}

/// The pair on one line of a block: the two sides of the first `=` of the
/// trimmed line, each trimmed. A line without `=` holds no pair.
pub open spec fn line_pair(raw: Seq<char>) -> Option<(Seq<char>, Seq<char>)> {
    match split_once_at(trimmed(raw), '=') {
        Some((left, right)) => Some((trimmed(left), trimmed(right))),
        None => None,
    }
}

/// Whether a pair of a block is kept: its key is not empty, and neither is
/// its value where one is asked for.
pub open spec fn keeps_pair(p: (Seq<char>, Seq<char>), need_value: bool) -> bool {
    p.0.len() > 0 && (!need_value || p.1.len() > 0)
}

/// The pairs of the lines of a block, in order, without the lines that hold
/// no pair and the pairs that are not kept.
pub open spec fn block_pairs(lines: Seq<Seq<char>>, need_value: bool) -> Seq<
    (Seq<char>, Seq<char>),
>
    decreases lines.len(),
{
    if lines.len() == 0 {
        Seq::empty()
    } else {
        let before = block_pairs(lines.drop_last(), need_value);
        match line_pair(lines.last()) {
            Some(p) => if keeps_pair(p, need_value) {
                before.push(p)
            } else {
                before
            },
            None => before,
        }
    }
}

/// The localized variants that a block of `lang=value` lines holds: pairs
/// with a tag and a value.
pub open spec fn lang_pairs(text: Seq<char>) -> Seq<(Seq<char>, Seq<char>)> {
    block_pairs(split_on(text, '\n'), true)
}

/// The extra keys that a block of `key=value` lines holds: pairs with a key.
pub open spec fn kv_pairs(text: Seq<char>) -> Seq<(Seq<char>, Seq<char>)> {
    block_pairs(split_on(text, '\n'), false)
}

/// The type of a form: the one selected, or `Application` where none is.
pub open spec fn form_type(type_text: Option<Seq<char>>) -> Seq<char> {
    match type_text {
        Some(t) => t,
        None => "Application"@,
    }
}

/// The entry that a form holds.
pub open spec fn form_entry(f: FormView) -> EntryView {
    EntryView {
        type_field: form_type(f.type_text),
        name: f.name,
        generic_name: optional_text(f.generic_name),
        comment: optional_text(f.comment),
        exec_field: f.exec_field,
        icon: optional_text(f.icon),
        terminal: f.terminal,
        categories: list_items(f.categories),
        mime_type: list_items(f.mime_type),
        keywords: list_items(f.keywords),
        only_show_in: list_items(f.only_show_in),
        not_show_in: list_items(f.not_show_in),
        no_display: f.no_display,
        startup_notify: f.startup_notify,
        try_exec: optional_text(f.try_exec),
        path: optional_text(f.path),
        url: optional_text(f.url),
        actions: list_items(f.actions),
        extra: kv_pairs(f.extra),
        name_localized: lang_pairs(f.name_localized),
        generic_name_localized: lang_pairs(f.generic_name_localized),
        comment_localized: lang_pairs(f.comment_localized),
    }
}

/// The items of a list control.
pub fn split_semicolon(text: &str) -> (items: Vec<String>)
    ensures
        strings_view(items@) == list_items(text@),
{
    read_list(&to_chars(text))
}

/// The value of an optional control.
pub fn opt_text(text: &str) -> (value: Option<String>)
    ensures
        option_view(value) == optional_text(text@),
{
    let kept = trim(&to_chars(text));
    if kept.len() == 0 {
        None
    } else {
        Some(to_string(&kept))
    }
}

/// The pairs of a block of lines.
fn read_block(text: &str, need_value: bool) -> (pairs: Vec<(String, String)>)
    ensures
        pairs_view(pairs@) == block_pairs(split_on(text@, '\n'), need_value),
{
    let lines = split(&to_chars(text), '\n');
    let ghost all = chars_view(lines@);
    let mut pairs: Vec<(String, String)> = Vec::new();
    let mut i: usize = 0;
    assert(all.take(0) =~= Seq::<Seq<char>>::empty());
    assert(pairs_view(pairs@) =~= Seq::<(Seq<char>, Seq<char>)>::empty());
    while i < lines.len()
        invariant
            i <= lines.len(),
            all == chars_view(lines@),
            pairs_view(pairs@) == block_pairs(all.take(i as int), need_value),
        decreases lines.len() - i,
    {
        proof {
            assert(all.take(i + 1).drop_last() =~= all.take(i as int));
            assert(all.take(i + 1).last() == lines@[i as int]@);
        }
        let line = trim(&lines[i]);
        match split_once(&line, '=') {
            Some((left, right)) => {
                let key = trim(&left);
                let value = trim(&right);
                if key.len() != 0 && (!need_value || value.len() != 0) {
                    let ghost before = pairs_view(pairs@);
                    pairs.push((to_string(&key), to_string(&value)));
                    assert(pairs_view(pairs@) =~= before.push((key@, value@)));
                }
            },
            None => {},
        }
        i += 1;
    }
    assert(all.take(lines.len() as int) =~= all);
    pairs
}

/// The localized variants that a block of `lang=value` lines holds.
pub fn parse_lang_lines(s: &str) -> (pairs: Vec<(String, String)>)
    ensures
        pairs_view(pairs@) == lang_pairs(s@),
{
    read_block(s, true)
}

/// The extra keys that a block of `key=value` lines holds.
pub fn parse_kv_lines(s: &str) -> (pairs: Vec<(String, String)>)
    ensures
        pairs_view(pairs@) == kv_pairs(s@),
{
    read_block(s, false)
}

/// The entry that the form holds, valid or not.
pub fn read_form(form: &FormValues) -> (entry: DesktopEntry)
    ensures
        entry@ == form_entry(form@),
{
    let type_field = match &form.type_text {
        Some(t) => t.clone(),
        None => "Application".to_owned(),
    };
    DesktopEntry {
        type_field,
        name: form.name.clone(),
        generic_name: opt_text(form.generic_name.as_str()),
        comment: opt_text(form.comment.as_str()),
        exec_field: form.exec_field.clone(),
        icon: opt_text(form.icon.as_str()),
        terminal: form.terminal,
        categories: split_semicolon(form.categories.as_str()),
        mime_type: split_semicolon(form.mime_type.as_str()),
        keywords: split_semicolon(form.keywords.as_str()),
        only_show_in: split_semicolon(form.only_show_in.as_str()),
        not_show_in: split_semicolon(form.not_show_in.as_str()),
        no_display: form.no_display,
        startup_notify: form.startup_notify,
        try_exec: opt_text(form.try_exec.as_str()),
        path: opt_text(form.path.as_str()),
        url: opt_text(form.url.as_str()),
        actions: split_semicolon(form.actions.as_str()),
        extra: parse_kv_lines(form.extra.as_str()),
        name_localized: parse_lang_lines(form.name_localized.as_str()),
        generic_name_localized: parse_lang_lines(form.generic_name_localized.as_str()),
        comment_localized: parse_lang_lines(form.comment_localized.as_str()),
    }
}

/// The entry that the form holds, if it is valid, or else the reason why it
/// is not.
pub fn collect_entry(form: &FormValues) -> (r: Result<DesktopEntry, ValidationError>)
    ensures
        match r {
            Ok(entry) => entry@ == form_entry(form@) && is_valid(entry@),
            Err(reason) => validation(form_entry(form@)) == Err::<(), ValidationError>(reason),
        },
{
    let entry = read_form(form);
    match entry.validate() {
        Ok(()) => Ok(entry),
        Err(reason) => Err(reason),
    }
}

/// The text that the text view shows for the form: the text of the entry
/// that the form holds, valid or not.
pub fn update_source(form: &FormValues) -> (text: String)
    ensures
        text@ == serialized(form_entry(form@)),
{
    read_form(form).to_ini_string()
}

// ---------------------------------------------------------------------------
// From an entry to the form
// ---------------------------------------------------------------------------

/// The items with `sep` between them.
pub open spec fn joined(items: Seq<Seq<char>>, sep: char) -> Seq<char>
    decreases items.len(),
{
    if items.len() == 0 {
        Seq::empty()
    } else if items.len() == 1 {
        items.last()
    } else {
        joined(items.drop_last(), sep).push(sep) + items.last()
    }
}

/// One `key=value` line per pair.
pub open spec fn pair_lines(pairs: Seq<(Seq<char>, Seq<char>)>) -> Seq<Seq<char>> {
    Seq::new(pairs.len(), |i: int| key_value(pairs[i].0, pairs[i].1))
}

/// The position of a type in the selection: `Application` first, then `Link`,
/// then `Directory`. Any other type is shown as the first.
pub open spec fn type_position(type_field: Seq<char>) -> u32 {
    if type_field == "Link"@ {
        1
    } else if type_field == "Directory"@ {
        2
    } else {
        0
    }
}

/// The type that the selection shows at a position.
pub open spec fn type_at(position: u32) -> Seq<char> {
    if position == 1 {
        "Link"@
    } else if position == 2 {
        "Directory"@
    } else {
        "Application"@
    }
}

/// The form that shows an entry.
pub open spec fn entry_form(e: EntryView) -> FormView {
    FormView {
        type_text: Some(type_at(type_position(e.type_field))),
        name: e.name,
        generic_name: or_empty(e.generic_name),
        comment: or_empty(e.comment),
        exec_field: e.exec_field,
        icon: or_empty(e.icon),
        terminal: e.terminal,
        no_display: e.no_display,
        startup_notify: e.startup_notify,
        categories: joined(e.categories, ';'),
        mime_type: joined(e.mime_type, ';'),
        keywords: joined(e.keywords, ';'),
        only_show_in: joined(e.only_show_in, ';'),
        not_show_in: joined(e.not_show_in, ';'),
        try_exec: or_empty(e.try_exec),
        path: or_empty(e.path),
        url: or_empty(e.url),
        actions: joined(e.actions, ';'),
        name_localized: joined(pair_lines(e.name_localized), '\n'),
        generic_name_localized: joined(pair_lines(e.generic_name_localized), '\n'),
        comment_localized: joined(pair_lines(e.comment_localized), '\n'),
        extra: joined(pair_lines(e.extra), '\n'),
    }
}

/// The position of a type in the selection.
pub fn type_index(type_field: &str) -> (position: u32)
    ensures
        position == type_position(type_field@),
{
    if same_str(type_field, "Link") {
        1
    } else if same_str(type_field, "Directory") {
        2
    } else {
        0
    }
}

/// The type that the selection shows at a position.
pub fn type_label(position: u32) -> (name: String)
    ensures
        name@ == type_at(position),
{
    if position == 1 {
        "Link".to_owned()
    } else if position == 2 {
        "Directory".to_owned()
    } else {
        "Application".to_owned()
    }
}

/// The text of an optional value: empty where it is absent.
fn text_or_empty(value: &Option<String>) -> (text: String)
    ensures
        text@ == or_empty(option_view(*value)),
{
    match value {
        Some(v) => v.clone(),
        None => String::new(),
    }
}

/// The items with `sep` between them.
fn join_items(items: &Vec<String>, sep: char) -> (text: String)
    ensures
        text@ == joined(strings_view(items@), sep),
{
    let ghost all = strings_view(items@);
    let mut text = String::new();
    let mut i: usize = 0;
    assert(all.take(0) =~= Seq::<Seq<char>>::empty());
    while i < items.len()
        invariant
            i <= items.len(),
            all == strings_view(items@),
            text@ == joined(all.take(i as int), sep),
        decreases items.len() - i,
    {
        proof {
            assert(all.take(i + 1).drop_last() =~= all.take(i as int));
            assert(all.take(i + 1).last() == items@[i as int]@);
        }
        if i > 0 {
            text.push(sep);
        }
        let ghost before = text@;
        push_chars(&mut text, &to_chars(items[i].as_str()));
        proof {
            if i == 0 {
                assert(text@ =~= items@[i as int]@);
            }
        }
        i += 1;
    }
    assert(all.take(items.len() as int) =~= all);
    text
}

/// One `key=value` line per pair, with newlines between them.
fn join_pairs(pairs: &Vec<(String, String)>) -> (text: String)
    ensures
        text@ == joined(pair_lines(pairs_view(pairs@)), '\n'),
{
    let ghost all = pair_lines(pairs_view(pairs@));
    let mut text = String::new();
    let mut i: usize = 0;
    assert(all.take(0) =~= Seq::<Seq<char>>::empty());
    while i < pairs.len()
        invariant
            i <= pairs.len(),
            all == pair_lines(pairs_view(pairs@)),
            text@ == joined(all.take(i as int), '\n'),
        decreases pairs.len() - i,
    {
        proof {
            assert(all.take(i + 1).drop_last() =~= all.take(i as int));
            assert(all.take(i + 1).last() == key_value(pairs@[i as int].0@, pairs@[i as int].1@));
        }
        if i > 0 {
            text.push('\n');
        }
        let ghost before = text@;
        push_chars(&mut text, &to_chars(pairs[i].0.as_str()));
        text.push('=');
        push_chars(&mut text, &to_chars(pairs[i].1.as_str()));
        proof {
            let line = key_value(pairs@[i as int].0@, pairs@[i as int].1@);
            assert(text@ =~= before + line);
            if i == 0 {
                assert(text@ =~= line);
            }
        }
        i += 1;
    }
    assert(all.take(pairs.len() as int) =~= all);
    text
}

/// The form that shows `de`.
pub fn set_form_from_entry(de: &DesktopEntry) -> (form: FormValues)
    ensures
        form@ == entry_form(de@),
{
    FormValues {
        type_text: Some(type_label(type_index(de.type_field.as_str()))),
        name: de.name.clone(),
        generic_name: text_or_empty(&de.generic_name),
        comment: text_or_empty(&de.comment),
        exec_field: de.exec_field.clone(),
        icon: text_or_empty(&de.icon),
        terminal: de.terminal,
        no_display: de.no_display,
        startup_notify: de.startup_notify,
        categories: join_items(&de.categories, ';'),
        mime_type: join_items(&de.mime_type, ';'),
        keywords: join_items(&de.keywords, ';'),
        only_show_in: join_items(&de.only_show_in, ';'),
        not_show_in: join_items(&de.not_show_in, ';'),
        try_exec: text_or_empty(&de.try_exec),
        path: text_or_empty(&de.path),
        url: text_or_empty(&de.url),
        actions: join_items(&de.actions, ';'),
        name_localized: join_pairs(&de.name_localized),
        generic_name_localized: join_pairs(&de.generic_name_localized),
        comment_localized: join_pairs(&de.comment_localized),
        extra: join_pairs(&de.extra),
    }
}

// ---------------------------------------------------------------------------
// The icon preview
// ---------------------------------------------------------------------------

/// What the preview beside the icon control shows.
#[derive(Debug, Clone, Copy, PartialEq, Eq, Structural)]
pub enum IconPreview {
    /// The placeholder for a missing image.
    Missing,
    /// The image file at the path that the control holds.
    File,
    /// The themed icon of the name that the control holds.
    Themed,
}

/// The preview for the text of the icon control: the placeholder for a blank
/// text, a file for a text with a slash in it, a themed icon for any other.
pub open spec fn preview_of(text: Seq<char>) -> IconPreview {
    if is_blank(text) {
        IconPreview::Missing
    } else if text.contains('/') {
        IconPreview::File
    } else {
        IconPreview::Themed
    }
}

/// The preview for the text of the icon control.
pub fn icon_preview(text: &str) -> (preview: IconPreview)
    ensures
        preview == preview_of(text@),
{
    let chars = to_chars(text);
    if trim(&chars).len() == 0 {
        return IconPreview::Missing;
    }
    let at = find_from(&chars, 0, '/');
    proof {
        assert(chars@.subrange(0, chars@.len() as int) =~= chars@);
        lemma_first_index_absent(chars@, '/');
    }
    if at < chars.len() {
        IconPreview::File
    } else {
        IconPreview::Themed
    }
}

} // verus!
