//! What the reader can yield: whatever the text, every value of the entry
//! that is read from it is trimmed and on one line, every list item is
//! clean, every tag is bare, and every pair filed under `extra` has a key
//! that no field claims.

use crate::entry::{empty_entry, EntryView};
use crate::laws::{
    are_items, are_localized, is_item, is_plain, is_plain_option, is_tag,
};
use crate::lemmas::none_contains;
use crate::parse::{
    assigned, is_comment, is_header, kept_pieces, kind_of, language_tag, list_items, parsed,
    read_line, read_lines, reader_start, without_leading,
    without_trailing, KeyKind, ReaderView,
};
use crate::text::{
    begins_with, first_index, is_trimmed, lemma_first_index, lemma_trimmed_end_shape,
    lemma_trimmed_is_trimmed, lemma_trimmed_start_shape, split_on, split_once_at, trimmed,
    trimmed_end, trimmed_start,
};
use vstd::prelude::*;

verus! {

// ---------------------------------------------------------------------------
// Parts of a text
// ---------------------------------------------------------------------------

/// A part of a sequence holds no character that the sequence lacks.
pub proof fn lemma_subrange_lacks(s: Seq<char>, from: int, to: int, c: char)
    requires
        0 <= from <= to <= s.len(),
        !s.contains(c),
    ensures
        !s.subrange(from, to).contains(c),
{
    let part = s.subrange(from, to);
    if part.contains(c) {
        let k = choose|k: int| 0 <= k < part.len() && part[k] == c;
        assert(s[from + k] == c);
        assert(s.contains(c));
    }
}

/// Trimming adds no character.
pub proof fn lemma_trimmed_lacks(s: Seq<char>, c: char)
    requires
        !s.contains(c),
    ensures
        !trimmed(s).contains(c),
{
    lemma_trimmed_start_shape(s);
    let t = trimmed_start(s);
    lemma_subrange_lacks(s, s.len() - t.len(), s.len() as int, c);
    lemma_trimmed_end_shape(t);
    lemma_subrange_lacks(t, 0, trimmed_end(t).len() as int, c);
}

/// No piece of a split holds the separator, nor any character that the
/// whole lacks.
pub proof fn lemma_split_pieces(s: Seq<char>, sep: char, c: char)
    requires
        c == sep || !s.contains(c),
    ensures
        none_contains(split_on(s, sep), c),
    decreases s.len(),
{
    lemma_first_index(s, sep);
    let i = first_index(s, sep) as int;
    let head = s.subrange(0, i);
    if head.contains(c) {
        let k = choose|k: int| 0 <= k < head.len() && head[k] == c;
        assert(s[k] == c);
        assert(s.contains(c));
    }
    if i < s.len() {
        let rest = s.subrange(i + 1, s.len() as int);
        if c != sep {
            lemma_subrange_lacks(s, i + 1, s.len() as int, c);
        }
        lemma_split_pieces(rest, sep, c);
        let pieces = split_on(s, sep);
        assert forall|k: int| 0 <= k < pieces.len() implies !(#[trigger] pieces[k]).contains(
            c,
        ) by {
            if k > 0 {
                assert(pieces[k] == split_on(rest, sep)[k - 1]);
            }
        }
    } else {
        assert(head =~= s);
    }
}

/// The kept pieces of a value on one line, cut at semicolons, are items.
pub proof fn lemma_kept_are_items(pieces: Seq<Seq<char>>)
    requires
        none_contains(pieces, ';'),
        none_contains(pieces, '\n'),
    ensures
        are_items(kept_pieces(pieces)),
    decreases pieces.len(),
{
    if pieces.len() > 0 {
        let before = pieces.drop_last();
        assert forall|i: int| 0 <= i < before.len() implies !(#[trigger] before[i]).contains(
            ';',
        ) && !before[i].contains('\n') by {
            assert(before[i] == pieces[i]);
        }
        lemma_kept_are_items(before);
        let piece = trimmed(pieces.last());
        lemma_trimmed_is_trimmed(pieces.last());
        lemma_trimmed_lacks(pieces.last(), ';');
        lemma_trimmed_lacks(pieces.last(), '\n');
        let kept = kept_pieces(pieces);
        assert forall|i: int| 0 <= i < kept.len() implies is_item(#[trigger] kept[i]) by {
            if i < kept_pieces(before).len() {
                assert(kept[i] == kept_pieces(before)[i]);
            }
        }
    }
}

/// The items of a value on one line are items.
pub proof fn lemma_list_items_are_items(value: Seq<char>)
    requires
        !value.contains('\n'),
    ensures
        are_items(list_items(value)),
{
    lemma_split_pieces(value, ';', ';');
    lemma_split_pieces(value, ';', '\n');
    lemma_kept_are_items(split_on(value, ';'));
}

// ---------------------------------------------------------------------------
// Tags
// ---------------------------------------------------------------------------

/// What is left without the leading repetitions of a prefix is an end of the
/// sequence that does not begin with the prefix.
pub proof fn lemma_without_leading(s: Seq<char>, prefix: Seq<char>)
    requires
        prefix.len() > 0,
    ensures
        without_leading(s, prefix).len() <= s.len(),
        without_leading(s, prefix) == s.subrange(
            s.len() - without_leading(s, prefix).len(),
            s.len() as int,
        ),
        !begins_with(without_leading(s, prefix), prefix),
    decreases s.len(),
{
    if begins_with(s, prefix) {
        let rest = s.subrange(prefix.len() as int, s.len() as int);
        lemma_without_leading(rest, prefix);
        let w = without_leading(rest, prefix);
        assert(rest.subrange(rest.len() - w.len(), rest.len() as int) =~= s.subrange(
            s.len() - w.len(),
            s.len() as int,
        ));
    } else {
        assert(s.subrange(0, s.len() as int) =~= s);
    }
}

/// What is left without the trailing repetitions of a character is a start
/// of the sequence that does not end with the character.
pub proof fn lemma_without_trailing(s: Seq<char>, c: char)
    ensures
        without_trailing(s, c).len() <= s.len(),
        without_trailing(s, c) == s.subrange(0, without_trailing(s, c).len() as int),
        without_trailing(s, c).len() == 0 || without_trailing(s, c).last() != c,
    decreases s.len(),
{
    if s.len() > 0 && s.last() == c {
        let rest = s.drop_last();
        lemma_without_trailing(rest, c);
        let w = without_trailing(rest, c);
        assert(rest.subrange(0, w.len() as int) =~= s.subrange(0, w.len() as int));
    } else {
        assert(s.subrange(0, s.len() as int) =~= s);
    }
}

/// The tag that is read from a key is a tag.
pub proof fn lemma_language_tag_is_tag(key: Seq<char>, base: Seq<char>)
    requires
        !key.contains('='),
        !key.contains('\n'),
    ensures
        is_tag(language_tag(key, base), base),
{
    let prefix = base.push('[');
    lemma_without_leading(key, prefix);
    let w = without_leading(key, prefix);
    lemma_without_trailing(w, ']');
    let t = without_trailing(w, ']');
    lemma_subrange_lacks(key, key.len() - w.len(), key.len() as int, '=');
    lemma_subrange_lacks(key, key.len() - w.len(), key.len() as int, '\n');
    lemma_subrange_lacks(w, 0, t.len() as int, '=');
    lemma_subrange_lacks(w, 0, t.len() as int, '\n');
    if begins_with(t, prefix) {
        assert(w.subrange(0, prefix.len() as int) =~= t.subrange(0, prefix.len() as int));
    }
}

// ---------------------------------------------------------------------------
// What is read
// ---------------------------------------------------------------------------

/// A pair as the reader files it under `extra`: like an extra pair that is
/// written, but its key may be empty.
pub open spec fn is_filed_pair(p: (Seq<char>, Seq<char>)) -> bool {
    let (key, value) = p;
    &&& is_trimmed(key)
    &&& !key.contains('=')
    &&& !key.contains('\n')
    &&& key.len() > 0 ==> {
        &&& key.first() != '#'
        &&& key.first() != ';'
        &&& !(key.first() == '[' && value.len() > 0 && value.last() == ']')
    }
    &&& kind_of(key) == KeyKind::Other
    &&& is_plain(value)
}

/// Whether every pair is one that the reader files.
pub open spec fn are_filed(pairs: Seq<(Seq<char>, Seq<char>)>) -> bool {
    forall|i: int| 0 <= i < pairs.len() ==> is_filed_pair(#[trigger] pairs[i])
}

/// Whether an entry is one that the reader can yield.
pub open spec fn is_read(e: EntryView) -> bool {
    &&& is_plain(e.type_field)
    &&& is_plain(e.name)
    &&& is_plain_option(e.generic_name)
    &&& is_plain_option(e.comment)
    &&& is_plain(e.exec_field)
    &&& is_plain_option(e.try_exec)
    &&& is_plain_option(e.icon)
    &&& is_plain_option(e.path)
    &&& is_plain_option(e.url)
    &&& are_items(e.categories)
    &&& are_items(e.mime_type)
    &&& are_items(e.keywords)
    &&& are_items(e.only_show_in)
    &&& are_items(e.not_show_in)
    &&& are_items(e.actions)
    &&& are_localized(e.name_localized, "Name"@)
    &&& are_localized(e.generic_name_localized, "GenericName"@)
    &&& are_localized(e.comment_localized, "Comment"@)
    &&& are_filed(e.extra)
}

/// One more localized pair.
proof fn lemma_localized_push(
    pairs: Seq<(Seq<char>, Seq<char>)>,
    base: Seq<char>,
    tag: Seq<char>,
    value: Seq<char>,
)
    requires
        are_localized(pairs, base),
        is_tag(tag, base),
        is_plain(value),
    ensures
        are_localized(pairs.push((tag, value)), base),
{
    let all = pairs.push((tag, value));
    assert forall|i: int| 0 <= i < all.len() implies is_tag((#[trigger] all[i]).0, base)
        && is_plain(all[i].1) by {
        if i < pairs.len() {
            assert(all[i] == pairs[i]);
        }
    }
}

/// One more filed pair.
proof fn lemma_filed_push(pairs: Seq<(Seq<char>, Seq<char>)>, p: (Seq<char>, Seq<char>))
    requires
        are_filed(pairs),
        is_filed_pair(p),
    ensures
        are_filed(pairs.push(p)),
{
    let all = pairs.push(p);
    assert forall|i: int| 0 <= i < all.len() implies is_filed_pair(#[trigger] all[i]) by {
        if i < pairs.len() {
            assert(all[i] == pairs[i]);
        }
    }
}

/// Taking in a clean pair leaves an entry that the reader can yield.
proof fn lemma_assigned_is_read(e: EntryView, key: Seq<char>, value: Seq<char>)
    requires
        is_read(e),
        is_trimmed(key),
        !key.contains('='),
        !key.contains('\n'),
        is_plain(value),
        key.len() > 0 ==> key.first() != '#' && key.first() != ';' && !(key.first() == '['
            && value.len() > 0 && value.last() == ']'),
    ensures
        is_read(assigned(e, key, value)),
{
    match kind_of(key) {
        KeyKind::NameLocalized => {
            lemma_language_tag_is_tag(key, "Name"@);
            lemma_localized_push(e.name_localized, "Name"@, language_tag(key, "Name"@), value);
        },
        KeyKind::GenericNameLocalized => {
            lemma_language_tag_is_tag(key, "GenericName"@);
            lemma_localized_push(
                e.generic_name_localized,
                "GenericName"@,
                language_tag(key, "GenericName"@),
                value,
            );
        },
        KeyKind::CommentLocalized => {
            lemma_language_tag_is_tag(key, "Comment"@);
            lemma_localized_push(
                e.comment_localized,
                "Comment"@,
                language_tag(key, "Comment"@),
                value,
            );
        },
        KeyKind::Categories | KeyKind::MimeType | KeyKind::Keywords | KeyKind::OnlyShowIn
        | KeyKind::NotShowIn | KeyKind::Actions => {
            lemma_list_items_are_items(value);
        },
        KeyKind::Other => {
            lemma_filed_push(e.extra, (key, value));
        },
        _ => {},
    }
}

/// The two sides of a line that is cut at its first `=`, each trimmed, are
/// a clean pair.
proof fn lemma_line_pair(line: Seq<char>, left: Seq<char>, right: Seq<char>)
    requires
        is_trimmed(line),
        !line.contains('\n'),
        !is_comment(line),
        !is_header(line),
        split_once_at(line, '=') == Some((left, right)),
    ensures
        is_trimmed(trimmed(left)),
        !trimmed(left).contains('='),
        !trimmed(left).contains('\n'),
        is_plain(trimmed(right)),
        trimmed(left).len() > 0 ==> trimmed(left).first() != '#' && trimmed(left).first()
            != ';' && !(trimmed(left).first() == '[' && trimmed(right).len() > 0 && trimmed(
            right,
        ).last() == ']'),
{
    lemma_first_index(line, '=');
    let i = first_index(line, '=') as int;
    assert(left == line.subrange(0, i));
    assert(right == line.subrange(i + 1, line.len() as int));
    if left.contains('=') {
        let k = choose|k: int| 0 <= k < left.len() && left[k] == '=';
        assert(line[k] == '=');
    }
    lemma_subrange_lacks(line, 0, i, '\n');
    lemma_subrange_lacks(line, i + 1, line.len() as int, '\n');
    lemma_trimmed_is_trimmed(left);
    lemma_trimmed_is_trimmed(right);
    lemma_trimmed_lacks(left, '=');
    lemma_trimmed_lacks(left, '\n');
    lemma_trimmed_lacks(right, '\n');
    let key = trimmed(left);
    let value = trimmed(right);
    if key.len() > 0 {
        // The key starts where the line starts, for the line is trimmed.
        assert(i > 0) by {
            if i == 0 {
                assert(left =~= Seq::<char>::empty());
            }
        }
        assert(left.first() == line.first());
        assert(trimmed_start(left) == left);
        lemma_trimmed_end_shape(left);
        assert(key.first() == line.first());
        if value.len() > 0 {
            // The value ends where the line ends.
            lemma_trimmed_start_shape(right);
            let t = trimmed_start(right);
            lemma_trimmed_end_shape(t);
            assert(t.len() > 0);
            assert(right.len() > 0);
            assert(t.last() == right.last());
            assert(right.last() == line.last());
            assert(trimmed_end(t) == t);
            assert(value.last() == line.last());
        }
    }
}

/// One more line leaves an entry that the reader can yield.
proof fn lemma_read_line_is_read(r: ReaderView, raw: Seq<char>)
    requires
        is_read(r.entry),
        !raw.contains('\n'),
    ensures
        is_read(read_line(r, raw).entry),
{
    let line = trimmed(raw);
    lemma_trimmed_is_trimmed(raw);
    lemma_trimmed_lacks(raw, '\n');
    if line.len() == 0 || is_comment(line) {
    } else if is_header(line) {
    } else if !r.active {
    } else {
        match split_once_at(line, '=') {
            Some((left, right)) => {
                lemma_line_pair(line, left, right);
                lemma_assigned_is_read(r.entry, trimmed(left), trimmed(right));
            },
            None => {},
        }
    }
}

/// More lines leave an entry that the reader can yield.
proof fn lemma_read_lines_is_read(r: ReaderView, lines: Seq<Seq<char>>)
    requires
        is_read(r.entry),
        none_contains(lines, '\n'),
    ensures
        is_read(read_lines(r, lines).entry),
    decreases lines.len(),
{
    if lines.len() > 0 {
        let before = lines.drop_last();
        assert forall|i: int| 0 <= i < before.len() implies !(#[trigger] before[i]).contains(
            '\n',
        ) by {
            assert(before[i] == lines[i]);
        }
        lemma_read_lines_is_read(r, before);
        assert(!lines[lines.len() - 1].contains('\n'));
        lemma_read_line_is_read(read_lines(r, before), lines.last());
    }
}

/// Whatever the text, the entry that is read from it is one that the reader
/// can yield, and it has a type.
pub proof fn lemma_parsed_is_read(text: Seq<char>)
    ensures
        is_read(parsed(text)),
        parsed(text).type_field.len() > 0,
{
    let lines = split_on(text, '\n');
    lemma_split_pieces(text, '\n', '\n');
    assert(is_read(empty_entry())) by {
        assert(!Seq::<char>::empty().contains('\n'));
    }
    lemma_read_lines_is_read(reader_start(), lines);
    reveal_strlit("Application");
    let a = "Application"@;
    if a.contains('\n') {
        let k = choose|k: int| 0 <= k < a.len() && a[k] == '\n';
        assert(a[k] == '\n');
    }
}

} // verus!
