//! The laws of the codec: what reading gives back of what was written.

use crate::entry::{empty_entry, is_valid, EntryView};
use crate::lemmas::{lemma_escaped_lacks_newline, lemma_escaped_same};
use crate::outputs::{are_filed, is_filed_pair, lemma_parsed_is_read};
use crate::parse::{kind_of, parsed, read_lines, reader_start, KeyKind};
use crate::read_back::lemma_parse_serialized;
use crate::serialize::{
    escaped, extra_lines, flag_lines, launch_lines, list_lines, localized_lines, name_lines,
    serialized,
};
use crate::text::{
    begins_with, is_blank, is_trimmed, lemma_trimmed_is_trimmed, split_on, trimmed,
};
use vstd::prelude::*;

verus! {

// ---------------------------------------------------------------------------
// An entry as it is written
// ---------------------------------------------------------------------------

/// An optional value, escaped.
pub open spec fn escaped_option(o: Option<Seq<char>>) -> Option<Seq<char>> {
    match o {
        Some(v) => Some(escaped(v)),
        None => None,
    }
}

/// An optional value, trimmed.
pub open spec fn trimmed_option(o: Option<Seq<char>>) -> Option<Seq<char>> {
    match o {
        Some(v) => Some(trimmed(v)),
        None => None,
    }
}

/// The pairs with their values escaped.
pub open spec fn escaped_values(pairs: Seq<(Seq<char>, Seq<char>)>) -> Seq<
    (Seq<char>, Seq<char>),
> {
    Seq::new(pairs.len(), |i: int| (pairs[i].0, escaped(pairs[i].1)))
}

/// The pairs whose key is not blank, key and value trimmed.
pub open spec fn trimmed_pairs(pairs: Seq<(Seq<char>, Seq<char>)>) -> Seq<
    (Seq<char>, Seq<char>),
>
    decreases pairs.len(),
{
    if pairs.len() == 0 {
        Seq::empty()
    } else {
        let before = trimmed_pairs(pairs.drop_last());
        let (k, v) = pairs.last();
        if is_blank(k) {
            before
        } else {
            before.push((trimmed(k), trimmed(v)))
        }
    }
}

/// The entry as its text shows it: names and comments escaped, the command
/// and the other launch values trimmed, the extra pairs trimmed and those
/// with a blank key left out. Type, flags and lists are written as they are.
pub open spec fn as_written(e: EntryView) -> EntryView {
    EntryView {
        name: escaped(e.name),
        generic_name: escaped_option(e.generic_name),
        comment: escaped_option(e.comment),
        exec_field: trimmed(e.exec_field),
        icon: trimmed_option(e.icon),
        try_exec: trimmed_option(e.try_exec),
        path: trimmed_option(e.path),
        url: trimmed_option(e.url),
        extra: trimmed_pairs(e.extra),
        name_localized: escaped_values(e.name_localized),
        generic_name_localized: escaped_values(e.generic_name_localized),
        comment_localized: escaped_values(e.comment_localized),
        ..e
    }
}

// ---------------------------------------------------------------------------
// The values that reading yields
// ---------------------------------------------------------------------------

/// A value that reading leaves as it is: trimmed, and on one line.
pub open spec fn is_plain(s: Seq<char>) -> bool {
    is_trimmed(s) && !s.contains('\n')
}

/// An item that a list gives back: plain, not empty, without a semicolon.
pub open spec fn is_item(s: Seq<char>) -> bool {
    s.len() > 0 && is_plain(s) && !s.contains(';')
}

/// Whether every member is such an item.
pub open spec fn are_items(items: Seq<Seq<char>>) -> bool {
    forall|i: int| 0 <= i < items.len() ==> is_item(#[trigger] items[i])
}

/// An optional value that is absent or plain.
pub open spec fn is_plain_option(o: Option<Seq<char>>) -> bool {
    match o {
        Some(v) => is_plain(v),
        None => true,
    }
}

/// A language tag that reading yields for the key `base[tag]`: it holds no
/// `=` and no newline, does not itself begin with `base[`, and does not end
/// with `]`.
pub open spec fn is_tag(tag: Seq<char>, base: Seq<char>) -> bool {
    &&& !tag.contains('=')
    &&& !tag.contains('\n')
    &&& !begins_with(tag, base.push('['))
    &&& (tag.len() == 0 || tag.last() != ']')
}

/// Whether every pair has such a tag and a plain value.
pub open spec fn are_localized(pairs: Seq<(Seq<char>, Seq<char>)>, base: Seq<char>) -> bool {
    forall|i: int|
        0 <= i < pairs.len() ==> is_tag((#[trigger] pairs[i]).0, base) && is_plain(pairs[i].1)
}

/// A pair that reading files under `extra`: its key is not empty, is
/// trimmed, holds no `=` and no newline, does not open a comment, is not one
/// of the known keys, and does not make the line look like a section header;
/// its value is plain.
pub open spec fn is_extra_pair(p: (Seq<char>, Seq<char>)) -> bool {
    let (key, value) = p;
    &&& key.len() > 0
    &&& is_trimmed(key)
    &&& !key.contains('=')
    &&& !key.contains('\n')
    &&& key.first() != '#'
    &&& key.first() != ';'
    &&& !(key.first() == '[' && value.len() > 0 && value.last() == ']')
    &&& kind_of(key) == KeyKind::Other
    &&& is_plain(value)
}

/// Whether every pair is such a pair.
pub open spec fn are_extra(pairs: Seq<(Seq<char>, Seq<char>)>) -> bool {
    forall|i: int| 0 <= i < pairs.len() ==> is_extra_pair(#[trigger] pairs[i])
}

/// Whether every value of the entry is one that reading can yield: scalars
/// trimmed and on one line, list items also free of semicolons and not empty,
/// tags and extra keys such that the line is read as it was meant.
pub open spec fn reads_back(e: EntryView) -> bool {
    &&& is_plain(e.type_field)
    &&& is_plain(e.name)
    &&& is_plain_option(e.generic_name)
    &&& is_plain_option(e.comment)
    &&& is_plain(e.exec_field)
    &&& is_plain_option(e.try_exec)
    &&& is_plain_option(e.icon)
    &&& is_plain_option(e.path)
    &&& is_plain_option(e.url)
    &&& are_items(e.categories)
    &&& are_items(e.mime_type)
    &&& are_items(e.keywords)
    &&& are_items(e.only_show_in)
    &&& are_items(e.not_show_in)
    &&& are_items(e.actions)
    &&& are_localized(e.name_localized, "Name"@)
    &&& are_localized(e.generic_name_localized, "GenericName"@)
    &&& are_localized(e.comment_localized, "Comment"@)
    &&& are_extra(e.extra)
}

/// Whether the entry is written so that its text can be read back: its
/// written values are values that reading can yield, and its command is
/// either empty or not blank.
pub open spec fn writes_cleanly(e: EntryView) -> bool {
    &&& reads_back(as_written(e))
    &&& (e.exec_field.len() == 0 || !is_blank(e.exec_field))
}

/// Whether the text of the entry is the text of some entry that has a type
/// and holds only values that reading can yield.
pub open spec fn has_clean_text(e: EntryView) -> bool {
    exists|p: EntryView|
        p.type_field.len() > 0 && reads_back(p) && #[trigger] serialized(p) == serialized(e)
}

// ---------------------------------------------------------------------------
// Steps on the way
// ---------------------------------------------------------------------------

/// Escaping twice is escaping once.
proof fn lemma_escaped_twice(s: Seq<char>)
    ensures
        escaped(escaped(s)) == escaped(s),
{
    lemma_escaped_lacks_newline(s);
    lemma_escaped_same(escaped(s));
}

/// Trimming twice is trimming once.
proof fn lemma_trimmed_twice(s: Seq<char>)
    ensures
        trimmed(trimmed(s)) == trimmed(s),
{
    lemma_trimmed_is_trimmed(s);
}

/// Extra pairs that reading can yield are written as they are.
proof fn lemma_trimmed_pairs_same(pairs: Seq<(Seq<char>, Seq<char>)>)
    requires
        are_extra(pairs),
    ensures
        trimmed_pairs(pairs) == pairs,
    decreases pairs.len(),
{
    if pairs.len() == 0 {
        assert(trimmed_pairs(pairs) =~= pairs);
    } else {
        let before = pairs.drop_last();
        assert forall|i: int| 0 <= i < before.len() implies is_extra_pair(#[trigger] before[i]) by {
            assert(before[i] == pairs[i]);
        }
        lemma_trimmed_pairs_same(before);
        assert(is_extra_pair(pairs.last()));
        assert(before.push(pairs.last()) =~= pairs);
    }
}

/// Localized pairs with plain values are written as they are.
proof fn lemma_escaped_values_same(pairs: Seq<(Seq<char>, Seq<char>)>, base: Seq<char>)
    requires
        are_localized(pairs, base),
    ensures
        escaped_values(pairs) == pairs,
{
    assert forall|i: int| 0 <= i < pairs.len() implies escaped_values(pairs)[i] == pairs[i] by {
        assert(is_plain(pairs[i].1));
        lemma_escaped_same(pairs[i].1);
    }
    assert(escaped_values(pairs) =~= pairs);
}

/// The extra pairs as written are written as the pairs themselves.
proof fn lemma_extra_lines_written(pairs: Seq<(Seq<char>, Seq<char>)>)
    ensures
        extra_lines(trimmed_pairs(pairs)) == extra_lines(pairs),
    decreases pairs.len(),
{
    if pairs.len() > 0 {
        let before = pairs.drop_last();
        let (k, v) = pairs.last();
        lemma_extra_lines_written(before);
        if !is_blank(k) {
            lemma_trimmed_twice(k);
            lemma_trimmed_twice(v);
            assert(trimmed_pairs(pairs).drop_last() =~= trimmed_pairs(before));
        }
    }
}

/// The localized pairs as written are written as the pairs themselves.
proof fn lemma_localized_lines_written(base: Seq<char>, pairs: Seq<(Seq<char>, Seq<char>)>)
    ensures
        localized_lines(base, escaped_values(pairs)) == localized_lines(base, pairs),
{
    assert forall|i: int| 0 <= i < pairs.len() implies localized_lines(
        base,
        escaped_values(pairs),
    )[i] == localized_lines(base, pairs)[i] by {
        lemma_escaped_twice(pairs[i].1);
    }
    assert(localized_lines(base, escaped_values(pairs)) =~= localized_lines(base, pairs));
}

/// The names as written are written as the names themselves.
proof fn lemma_name_lines_written(e: EntryView)
    ensures
        name_lines(as_written(e)) == name_lines(e),
{
    lemma_escaped_twice(e.name);
    if let Some(v) = e.generic_name {
        lemma_escaped_twice(v);
    }
    if let Some(v) = e.comment {
        lemma_escaped_twice(v);
    }
    lemma_localized_lines_written("Name"@, e.name_localized);
    lemma_localized_lines_written("GenericName"@, e.generic_name_localized);
    lemma_localized_lines_written("Comment"@, e.comment_localized);
}

/// The launch values as written are written as the values themselves,
/// unless the command is blank without being empty.
proof fn lemma_launch_lines_written(e: EntryView)
    requires
        e.exec_field.len() == 0 || !is_blank(e.exec_field),
    ensures
        launch_lines(as_written(e)) == launch_lines(e),
{
    lemma_trimmed_twice(e.exec_field);
    if let Some(v) = e.try_exec {
        lemma_trimmed_twice(v);
    }
    if let Some(v) = e.icon {
        lemma_trimmed_twice(v);
    }
    if let Some(v) = e.path {
        lemma_trimmed_twice(v);
    }
    if let Some(v) = e.url {
        lemma_trimmed_twice(v);
    }
}

/// Of pairs that the reader files, those with a key are written as they
/// are, and only they are written.
proof fn lemma_filed_written(pairs: Seq<(Seq<char>, Seq<char>)>)
    requires
        are_filed(pairs),
    ensures
        are_extra(trimmed_pairs(pairs)),
        trimmed_pairs(pairs).len() <= pairs.len(),
        trimmed_pairs(pairs).len() == pairs.len() ==> are_extra(pairs),
    decreases pairs.len(),
{
    if pairs.len() > 0 {
        let before = pairs.drop_last();
        let (k, v) = pairs.last();
        assert forall|i: int| 0 <= i < before.len() implies is_filed_pair(#[trigger] before[i]) by {
            assert(before[i] == pairs[i]);
        }
        lemma_filed_written(before);
        assert(is_filed_pair(pairs.last()));
        let written = trimmed_pairs(pairs);
        if !is_blank(k) {
            assert(is_extra_pair((k, v)));
            assert forall|i: int| 0 <= i < written.len() implies is_extra_pair(
                #[trigger] written[i],
            ) by {
                if i < trimmed_pairs(before).len() {
                    assert(written[i] == trimmed_pairs(before)[i]);
                }
            }
            if written.len() == pairs.len() {
                assert forall|i: int| 0 <= i < pairs.len() implies is_extra_pair(
                    #[trigger] pairs[i],
                ) by {
                    if i < before.len() {
                        assert(pairs[i] == before[i]);
                    }
                }
            }
        }
    }
}

/// Without its header line the reader stays off and takes nothing in.
proof fn lemma_stays_off(lines: Seq<Seq<char>>)
    requires
        forall|i: int| 0 <= i < lines.len() ==> trimmed(#[trigger] lines[i]) != "[Desktop Entry]"@,
    ensures
        read_lines(reader_start(), lines) == reader_start(),
    decreases lines.len(),
{
    if lines.len() > 0 {
        let before = lines.drop_last();
        assert forall|i: int| 0 <= i < before.len() implies trimmed(#[trigger] before[i])
            != "[Desktop Entry]"@ by {
            assert(before[i] == lines[i]);
        }
        lemma_stays_off(before);
        assert(trimmed(lines[lines.len() - 1]) != "[Desktop Entry]"@);
    }
}

// ---------------------------------------------------------------------------
// The laws
// ---------------------------------------------------------------------------

/// An entry that holds only values that reading can yield is written as it
/// is.
pub proof fn lemma_written_as_is(e: EntryView)
    requires
        reads_back(e),
    ensures
        as_written(e) == e,
{
    lemma_escaped_same(e.name);
    if let Some(v) = e.generic_name {
        lemma_escaped_same(v);
    }
    if let Some(v) = e.comment {
        lemma_escaped_same(v);
    }
    lemma_escaped_values_same(e.name_localized, "Name"@);
    lemma_escaped_values_same(e.generic_name_localized, "GenericName"@);
    lemma_escaped_values_same(e.comment_localized, "Comment"@);
    lemma_trimmed_pairs_same(e.extra);
}

/// The entry as written has the same text as the entry itself, unless its
/// command is blank without being empty.
pub proof fn lemma_written_text(e: EntryView)
    requires
        e.exec_field.len() == 0 || !is_blank(e.exec_field),
    ensures
        serialized(as_written(e)) == serialized(e),
{
    let w = as_written(e);
    lemma_name_lines_written(e);
    lemma_launch_lines_written(e);
    assert(flag_lines(w) == flag_lines(e));
    assert(list_lines(w) == list_lines(e));
    lemma_extra_lines_written(e.extra);
}

/// Round trip: a valid entry that holds only values that reading can yield
/// comes back from its own text exactly as it was. Absent scalars come back
/// absent, an empty command comes back empty, and empty lists come back
/// empty.
pub proof fn lemma_round_trip(e: EntryView)
    requires
        is_valid(e),
        reads_back(e),
    ensures
        parsed(serialized(e)) == e,
{
    lemma_written_as_is(e);
    lemma_parse_serialized(e);
}

/// Only such entries make the round trip: an entry that comes back from its
/// own text as it was holds only values that reading can yield, and has a
/// type.
pub proof fn lemma_round_trip_only(e: EntryView)
    requires
        parsed(serialized(e)) == e,
    ensures
        reads_back(e),
        e.type_field.len() > 0,
{
    lemma_parsed_is_read(serialized(e));
    let w = as_written(e);
    lemma_escaped_same(e.name);
    if let Some(v) = e.generic_name {
        lemma_escaped_same(v);
    }
    if let Some(v) = e.comment {
        lemma_escaped_same(v);
    }
    lemma_escaped_values_same(e.name_localized, "Name"@);
    lemma_escaped_values_same(e.generic_name_localized, "GenericName"@);
    lemma_escaped_values_same(e.comment_localized, "Comment"@);
    lemma_filed_written(e.extra);
    assert(reads_back(w));
    lemma_parse_serialized(e);
    assert(w.extra == e.extra);
}

/// Round trip, both ways: a valid entry comes back from its own text as it
/// was exactly if it holds only values that reading can yield.
pub proof fn lemma_round_trip_exact(e: EntryView)
    requires
        is_valid(e),
    ensures
        parsed(serialized(e)) == e <==> reads_back(e),
{
    if reads_back(e) {
        lemma_round_trip(e);
    }
    if parsed(serialized(e)) == e {
        lemma_round_trip_only(e);
    }
}

/// An entry that holds only values that reading can yield is written
/// cleanly.
pub proof fn lemma_reads_back_writes_cleanly(e: EntryView)
    requires
        reads_back(e),
    ensures
        writes_cleanly(e),
{
    lemma_written_as_is(e);
}

/// Idempotence: writing a valid entry, reading the text and writing what
/// was read gives the first text again, where the entry is written cleanly.
pub proof fn lemma_serialize_idempotent(e: EntryView)
    requires
        is_valid(e),
        writes_cleanly(e),
    ensures
        serialized(parsed(serialized(e))) == serialized(e),
{
    lemma_parse_serialized(e);
    lemma_written_text(e);
}

/// An entry that is written cleanly has a clean text: the text of the entry
/// as it is written.
pub proof fn lemma_writes_cleanly_has_clean_text(e: EntryView)
    requires
        e.type_field.len() > 0,
        writes_cleanly(e),
    ensures
        has_clean_text(e),
{
    lemma_written_text(e);
    assert(serialized(as_written(e)) == serialized(e));
}

/// Idempotence, both ways: writing a valid entry, reading the text and
/// writing what was read gives the first text again exactly if that text is
/// the text of some entry that makes the round trip.
pub proof fn lemma_serialize_idempotent_exact(e: EntryView)
    requires
        is_valid(e),
    ensures
        serialized(parsed(serialized(e))) == serialized(e) <==> has_clean_text(e),
{
    if has_clean_text(e) {
        let p = choose|p: EntryView|
            p.type_field.len() > 0 && reads_back(p) && #[trigger] serialized(p) == serialized(e);
        lemma_written_as_is(p);
        lemma_parse_serialized(p);
    }
    if serialized(parsed(serialized(e))) == serialized(e) {
        let p = parsed(serialized(e));
        lemma_parsed_is_read(serialized(e));
        lemma_round_trip_only(p);
        assert(serialized(p) == serialized(e));
    }
}

/// A text none of whose lines is the `[Desktop Entry]` header stands for an
/// entry with nothing set but the default type: whatever stands under other
/// headers, or under none, is passed over.
pub proof fn lemma_no_section(text: Seq<char>)
    requires
        forall|i: int|
            0 <= i < split_on(text, '\n').len() ==> trimmed(#[trigger] split_on(text, '\n')[i])
                != "[Desktop Entry]"@,
    ensures
        parsed(text) == (EntryView { type_field: "Application"@, ..empty_entry() }),
{
    lemma_stays_off(split_on(text, '\n'));
}

} // verus!
