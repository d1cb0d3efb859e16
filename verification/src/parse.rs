//! Reading an entry back from text.
//!
//! The reader never fails: it takes what it understands, line by line, and
//! leaves the rest. Only lines under the `[Desktop Entry]` header count.

use crate::entry::{empty_entry, strings_view, DesktopEntry, EntryView};
use crate::text::{
    begins_with, chars_view, copy_range, equals_str, split, split_on, split_once,
    split_once_at, starts_with, to_chars, to_string, trim, trimmed,
};
use vstd::prelude::*;

verus! {

// ---------------------------------------------------------------------------
// What a text means
// ---------------------------------------------------------------------------

/// What a key stands for.
#[derive(Debug, Clone, Copy, PartialEq, Eq, Structural)]
pub enum KeyKind {
    Type,
    Name,
    NameLocalized,
    GenericName,
    GenericNameLocalized,
    Comment,
    CommentLocalized,
    Exec,
    TryExec,
    Icon,
    Path,
    Url,
    Terminal,
    NoDisplay,
    StartupNotify,
    Categories,
    MimeType,
    Keywords,
    OnlyShowIn,
    NotShowIn,
    Actions,
    Other,
}

/// Whether `key` has the form `base[...]`.
pub open spec fn is_localized_key(key: Seq<char>, base: Seq<char>) -> bool {
    begins_with(key, base.push('[')) && key.last() == ']'
}

/// What `key` stands for. The plain keys are matched exactly and in full;
/// anything unknown is `Other`.
pub open spec fn kind_of(key: Seq<char>) -> KeyKind {
    if key == "Type"@ {
        KeyKind::Type
    } else if key == "Name"@ {
        KeyKind::Name
    } else if is_localized_key(key, "Name"@) {
        KeyKind::NameLocalized
    } else if key == "GenericName"@ {
        KeyKind::GenericName
    } else if is_localized_key(key, "GenericName"@) {
        KeyKind::GenericNameLocalized
    } else if key == "Comment"@ {
        KeyKind::Comment
    } else if is_localized_key(key, "Comment"@) {
        KeyKind::CommentLocalized
    } else if key == "Exec"@ {
        KeyKind::Exec
    } else if key == "TryExec"@ {
        KeyKind::TryExec
    } else if key == "Icon"@ {
        KeyKind::Icon
    } else if key == "Path"@ {
        KeyKind::Path
    } else if key == "URL"@ {
        KeyKind::Url
    } else if key == "Terminal"@ {
        KeyKind::Terminal
    } else if key == "NoDisplay"@ {
        KeyKind::NoDisplay
    } else if key == "StartupNotify"@ {
        KeyKind::StartupNotify
    } else if key == "Categories"@ {
        KeyKind::Categories
    } else if key == "MimeType"@ {
        KeyKind::MimeType
    } else if key == "Keywords"@ {
        KeyKind::Keywords
    } else if key == "OnlyShowIn"@ {
        KeyKind::OnlyShowIn
    } else if key == "NotShowIn"@ {
        KeyKind::NotShowIn
    } else if key == "Actions"@ {
        KeyKind::Actions
    } else {
        KeyKind::Other
    }
}

/// `s` without any leading repetition of `prefix`.
pub open spec fn without_leading(s: Seq<char>, prefix: Seq<char>) -> Seq<char>
    decreases s.len(),
{
    if prefix.len() > 0 && begins_with(s, prefix) {
        without_leading(s.subrange(prefix.len() as int, s.len() as int), prefix)
    } else {
        s
    }
}

/// `s` without any trailing repetition of `c`.
pub open spec fn without_trailing(s: Seq<char>, c: char) -> Seq<char>
    decreases s.len(),
{
    if s.len() > 0 && s.last() == c {
        without_trailing(s.drop_last(), c)
    } else {
        s
    }
}

/// The language tag of a key of the form `base[tag]`: what is left of the
/// key once every leading `base[` and every trailing `]` is taken away.
pub open spec fn language_tag(key: Seq<char>, base: Seq<char>) -> Seq<char> {
    without_trailing(without_leading(key, base.push('[')), ']')
}

/// Whether `value` is the word `true`, in any mix of upper and lower case.
pub open spec fn is_true_word(value: Seq<char>) -> bool {
    &&& value.len() == 4
    &&& (value[0] == 't' || value[0] == 'T')
    &&& (value[1] == 'r' || value[1] == 'R')
    &&& (value[2] == 'u' || value[2] == 'U')
    &&& (value[3] == 'e' || value[3] == 'E')
}

/// The pieces, each trimmed, without those that are then empty.
pub open spec fn kept_pieces(pieces: Seq<Seq<char>>) -> Seq<Seq<char>>
    decreases pieces.len(),
{
    if pieces.len() == 0 {
        Seq::empty()
    } else {
        let before = kept_pieces(pieces.drop_last());
        let piece = trimmed(pieces.last());
        if piece.len() == 0 {
            before
        } else {
            before.push(piece)
        }
    }
}

/// The items of a list value: the pieces between semicolons, trimmed, the
/// empty ones dropped.
pub open spec fn list_items(value: Seq<char>) -> Seq<Seq<char>> {
    kept_pieces(split_on(value, ';'))
}

/// The entry after `key=value` has been taken in.
///
/// A scalar or a list replaces what was there; a localized key and an
/// unknown key each add one pair at the end.
pub open spec fn assigned(e: EntryView, key: Seq<char>, value: Seq<char>) -> EntryView {
    match kind_of(key) {
        KeyKind::Type => EntryView { type_field: value, ..e },
        KeyKind::Name => EntryView { name: value, ..e },
        KeyKind::NameLocalized => EntryView {
            name_localized: e.name_localized.push((language_tag(key, "Name"@), value)),
            ..e
        },
        KeyKind::GenericName => EntryView { generic_name: Some(value), ..e },
        KeyKind::GenericNameLocalized => EntryView {
            generic_name_localized: e.generic_name_localized.push(
                (language_tag(key, "GenericName"@), value),
            ),
            ..e
        },
        KeyKind::Comment => EntryView { comment: Some(value), ..e },
        KeyKind::CommentLocalized => EntryView {
            comment_localized: e.comment_localized.push((language_tag(key, "Comment"@), value)),
            ..e
        },
        KeyKind::Exec => EntryView { exec_field: value, ..e },
        KeyKind::TryExec => EntryView { try_exec: Some(value), ..e },
        KeyKind::Icon => EntryView { icon: Some(value), ..e },
        KeyKind::Path => EntryView { path: Some(value), ..e },
        KeyKind::Url => EntryView { url: Some(value), ..e },
        KeyKind::Terminal => EntryView { terminal: is_true_word(value), ..e },
        KeyKind::NoDisplay => EntryView { no_display: is_true_word(value), ..e },
        KeyKind::StartupNotify => EntryView { startup_notify: is_true_word(value), ..e },
        KeyKind::Categories => EntryView { categories: list_items(value), ..e },
        KeyKind::MimeType => EntryView { mime_type: list_items(value), ..e },
        KeyKind::Keywords => EntryView { keywords: list_items(value), ..e },
        KeyKind::OnlyShowIn => EntryView { only_show_in: list_items(value), ..e },
        KeyKind::NotShowIn => EntryView { not_show_in: list_items(value), ..e },
        KeyKind::Actions => EntryView { actions: list_items(value), ..e },
        KeyKind::Other => EntryView { extra: e.extra.push((key, value)), ..e },
    }
}

/// Where the reader stands: the entry so far, and whether the lines it is
/// reading belong to the `[Desktop Entry]` section.
pub struct ReaderView {
    pub entry: EntryView,
    pub active: bool,
}

/// The reader before the first line.
pub open spec fn reader_start() -> ReaderView {
    ReaderView { entry: empty_entry(), active: false }
}

/// Whether a trimmed line is a comment.
pub open spec fn is_comment(line: Seq<char>) -> bool {
    line.len() > 0 && (line.first() == '#' || line.first() == ';')
}

/// Whether a trimmed line is a section header.
pub open spec fn is_header(line: Seq<char>) -> bool {
    line.len() > 0 && line.first() == '[' && line.last() == ']'
}

/// The reader after one more line.
///
/// The line is trimmed first. Blank lines and comments change nothing. A
/// header switches the reader on if it is `[Desktop Entry]` and off if it is
/// anything else. While the reader is off, and for a line without `=`,
/// nothing changes. Otherwise the line is cut at its first `=`, both sides
/// are trimmed, and the pair is taken in.
pub open spec fn read_line(r: ReaderView, raw: Seq<char>) -> ReaderView {
    let line = trimmed(raw);
    if line.len() == 0 || is_comment(line) {
        r
    } else if is_header(line) {
        ReaderView { active: line == "[Desktop Entry]"@, ..r }
    } else if !r.active {
        r
    } else {
        match split_once_at(line, '=') {
            Some((key, value)) => ReaderView {
                entry: assigned(r.entry, trimmed(key), trimmed(value)),
                ..r
            },
            None => r,
        }
    }
}

/// The reader after the given lines, in order.
pub open spec fn read_lines(r: ReaderView, lines: Seq<Seq<char>>) -> ReaderView
    decreases lines.len(),
{
    if lines.len() == 0 {
        r
    } else {
        read_line(read_lines(r, lines.drop_last()), lines.last())
    }
}

/// The entry with its type set to `Application` where no type was read.
pub open spec fn with_default_type(e: EntryView) -> EntryView {
    if e.type_field.len() == 0 {
        EntryView { type_field: "Application"@, ..e }
    } else {
        e
    }
}

/// The entry that a text stands for.
///
/// The text is cut at every newline; a carriage return before the newline
/// counts as whitespace and is trimmed with the rest of the line.
pub open spec fn parsed(text: Seq<char>) -> EntryView {
    with_default_type(read_lines(reader_start(), split_on(text, '\n')).entry)
}

// ---------------------------------------------------------------------------
// Reading it
// ---------------------------------------------------------------------------

/// Whether `key` has the form `base[...]`.
fn has_localized_form(key: &Vec<char>, base: &str) -> (r: bool)
    ensures
        r == is_localized_key(key@, base@),
{
    let mut prefix = to_chars(base);
    prefix.push('[');
    starts_with(key, &prefix) && key[key.len() - 1] == ']'
}

/// What `key` stands for.
pub fn classify(key: &Vec<char>) -> (kind: KeyKind)
    ensures
        kind == kind_of(key@),
{
    if equals_str(key, "Type") {
        KeyKind::Type
    } else if equals_str(key, "Name") {
        KeyKind::Name
    } else if has_localized_form(key, "Name") {
        KeyKind::NameLocalized
    } else if equals_str(key, "GenericName") {
        KeyKind::GenericName
    } else if has_localized_form(key, "GenericName") {
        KeyKind::GenericNameLocalized
    } else if equals_str(key, "Comment") {
        KeyKind::Comment
    } else if has_localized_form(key, "Comment") {
        KeyKind::CommentLocalized
    } else if equals_str(key, "Exec") {
        KeyKind::Exec
    } else if equals_str(key, "TryExec") {
        KeyKind::TryExec
    } else if equals_str(key, "Icon") {
        KeyKind::Icon
    } else if equals_str(key, "Path") {
        KeyKind::Path
    } else if equals_str(key, "URL") {
        KeyKind::Url
    } else if equals_str(key, "Terminal") {
        KeyKind::Terminal
    } else if equals_str(key, "NoDisplay") {
        KeyKind::NoDisplay
    } else if equals_str(key, "StartupNotify") {
        KeyKind::StartupNotify
    } else if equals_str(key, "Categories") {
        KeyKind::Categories
    } else if equals_str(key, "MimeType") {
        KeyKind::MimeType
    } else if equals_str(key, "Keywords") {
        KeyKind::Keywords
    } else if equals_str(key, "OnlyShowIn") {
        KeyKind::OnlyShowIn
    } else if equals_str(key, "NotShowIn") {
        KeyKind::NotShowIn
    } else if equals_str(key, "Actions") {
        KeyKind::Actions
    } else {
        KeyKind::Other
    }
}

/// The language tag of a key of the form `base[tag]`.
fn tag_of(key: &Vec<char>, base: &str) -> (tag: String)
    ensures
        tag@ == language_tag(key@, base@),
{
    let mut prefix = to_chars(base);
    prefix.push('[');
    let n: usize = key.len();
    let mut from: usize = 0;
    assert(key@.subrange(0, n as int) =~= key@);
    loop
        invariant_except_break
            without_leading(key@, prefix@) == without_leading(
                key@.subrange(from as int, n as int),
                prefix@,
            ),
        invariant
            from <= n == key.len(),
            prefix@.len() > 0,
        ensures
            from <= n,
            without_leading(key@, prefix@) == key@.subrange(from as int, n as int),
        decreases n - from,
    {
        let rest = copy_range(key, from, n);
        if !starts_with(&rest, &prefix) {
            break ;
        }
        assert(rest@.subrange(prefix.len() as int, rest.len() as int) =~= key@.subrange(
            from + prefix.len(),
            n as int,
        ));
        from = from + prefix.len();
    }
    let mut to: usize = n;
    assert(key@.subrange(from as int, n as int) =~= key@.subrange(from as int, to as int));
    while to > from && key[to - 1] == ']'
        invariant
            from <= to <= n == key.len(),
            without_trailing(key@.subrange(from as int, n as int), ']') == without_trailing(
                key@.subrange(from as int, to as int),
                ']',
            ),
        decreases to,
    {
        assert(key@.subrange(from as int, to as int).drop_last() =~= key@.subrange(
            from as int,
            to - 1,
        ));
        to -= 1;
    }
    to_string(&copy_range(key, from, to))
}

/// Whether `value` is the word `true`, in any mix of upper and lower case.
pub fn says_true(value: &Vec<char>) -> (r: bool)
    ensures
        r == is_true_word(value@),
{
    value.len() == 4 && (value[0] == 't' || value[0] == 'T') && (value[1] == 'r' || value[1]
        == 'R') && (value[2] == 'u' || value[2] == 'U') && (value[3] == 'e' || value[3] == 'E')
}

/// The items of a list value.
pub fn read_list(value: &Vec<char>) -> (items: Vec<String>)
    ensures
        strings_view(items@) == list_items(value@),
{
    let pieces = split(value, ';');
    let ghost all = chars_view(pieces@);
    let mut items: Vec<String> = Vec::new();
    let mut i: usize = 0;
    assert(all.take(0) =~= Seq::<Seq<char>>::empty());
    assert(strings_view(items@) =~= Seq::<Seq<char>>::empty());
    while i < pieces.len()
        invariant
            i <= pieces.len(),
            all == chars_view(pieces@),
            strings_view(items@) == kept_pieces(all.take(i as int)),
        decreases pieces.len() - i,
    {
        let piece = trim(&pieces[i]);
        proof {
            assert(all.take(i + 1).drop_last() =~= all.take(i as int));
            assert(all.take(i + 1).last() == pieces@[i as int]@);
        }
        if piece.len() != 0 {
            let ghost before = strings_view(items@);
            items.push(to_string(&piece));
            assert(strings_view(items@) =~= before.push(piece@));
        }
        i += 1;
    }
    assert(all.take(pieces.len() as int) =~= all);
    items
}

/// Takes `key=value` into the entry.
fn assign(entry: &mut DesktopEntry, key: &Vec<char>, value: &Vec<char>)
    ensures
        final(entry)@ == assigned(old(entry)@, key@, value@),
{
    match classify(key) {
        KeyKind::Type => {
            entry.type_field = to_string(value);
        },
        KeyKind::Name => {
            entry.name = to_string(value);
        },
        KeyKind::NameLocalized => {
            let tag = tag_of(key, "Name");
            entry.name_localized.push((tag, to_string(value)));
            assert(entry@.name_localized =~= old(entry)@.name_localized.push((tag@, value@)));
        },
        KeyKind::GenericName => {
            entry.generic_name = Some(to_string(value));
        },
        KeyKind::GenericNameLocalized => {
            let tag = tag_of(key, "GenericName");
            entry.generic_name_localized.push((tag, to_string(value)));
            assert(entry@.generic_name_localized =~= old(entry)@.generic_name_localized.push(
                (tag@, value@),
            ));
        },
        KeyKind::Comment => {
            entry.comment = Some(to_string(value));
        },
        KeyKind::CommentLocalized => {
            let tag = tag_of(key, "Comment");
            entry.comment_localized.push((tag, to_string(value)));
            assert(entry@.comment_localized =~= old(entry)@.comment_localized.push(
                (tag@, value@),
            ));
        },
        KeyKind::Exec => {
            entry.exec_field = to_string(value);
        },
        KeyKind::TryExec => {
            entry.try_exec = Some(to_string(value));
        },
        KeyKind::Icon => {
            entry.icon = Some(to_string(value));
        },
        KeyKind::Path => {
            entry.path = Some(to_string(value));
        },
        KeyKind::Url => {
            entry.url = Some(to_string(value));
        },
        KeyKind::Terminal => {
            entry.terminal = says_true(value);
        },
        KeyKind::NoDisplay => {
            entry.no_display = says_true(value);
        },
        KeyKind::StartupNotify => {
            entry.startup_notify = says_true(value);
        },
        KeyKind::Categories => {
            entry.categories = read_list(value);
        },
        KeyKind::MimeType => {
            entry.mime_type = read_list(value);
        },
        KeyKind::Keywords => {
            entry.keywords = read_list(value);
        },
        KeyKind::OnlyShowIn => {
            entry.only_show_in = read_list(value);
        },
        KeyKind::NotShowIn => {
            entry.not_show_in = read_list(value);
        },
        KeyKind::Actions => {
            entry.actions = read_list(value);
        },
        KeyKind::Other => {
            entry.extra.push((to_string(key), to_string(value)));
            assert(entry@.extra =~= old(entry)@.extra.push((key@, value@)));
        },
    }
}

/// Takes one line into the entry; `active` says whether the line stands
/// under the `[Desktop Entry]` header, and the result says whether the next
/// one does.
fn take_line(entry: &mut DesktopEntry, active: bool, raw: &Vec<char>) -> (next: bool)
    ensures
        (ReaderView { entry: final(entry)@, active: next }) == read_line(
            ReaderView { entry: old(entry)@, active },
            raw@,
        ),
{
    let line = trim(raw);
    if line.len() == 0 || line[0] == '#' || line[0] == ';' {
        return active;
    }
    if line[0] == '[' && line[line.len() - 1] == ']' {
        return equals_str(&line, "[Desktop Entry]");
    }
    if !active {
        return active;
    }
    match split_once(&line, '=') {
        Some((left, right)) => {
            let key = trim(&left);
            let value = trim(&right);
            assign(entry, &key, &value);
        },
        None => {},
    }
    active
}

/// The entry that `content` stands for.
///
/// Never fails: lines that cannot be understood are passed over, and a text
/// that names no type yields an `Application`.
pub fn parse_desktop_source(content: &str) -> (entry: DesktopEntry)
    ensures
        entry@ == parsed(content@),
{
    let chars = to_chars(content);
    let lines = split(&chars, '\n');
    let ghost all = chars_view(lines@);
    let mut entry = DesktopEntry::default();
    let mut active = false;
    let mut i: usize = 0;
    assert(all.take(0) =~= Seq::<Seq<char>>::empty());
    while i < lines.len()
        invariant
            i <= lines.len(),
            all == chars_view(lines@),
            (ReaderView { entry: entry@, active }) == read_lines(
                reader_start(),
                all.take(i as int),
            ),
        decreases lines.len() - i,
    {
        proof {
            assert(all.take(i + 1).drop_last() =~= all.take(i as int));
            assert(all.take(i + 1).last() == lines@[i as int]@);
        }
        active = take_line(&mut entry, active, &lines[i]);
        i += 1;
    }
    assert(all.take(lines.len() as int) =~= all);
    if entry.type_field.as_str().is_empty() {
        entry.type_field = "Application".to_owned();
    }
    entry
}

} // verus!
