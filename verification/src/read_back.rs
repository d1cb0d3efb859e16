//! Reading back what was written: the lines of an entry, read in order,
//! leave the reader with the entry as it was written.

use crate::entry::{empty_entry, EntryView};
use crate::laws::{
    are_extra, are_items, are_localized, as_written, escaped_option, escaped_values,
    is_extra_pair, is_plain, is_plain_option, is_tag, reads_back, trimmed_option,
    trimmed_pairs,
};
use crate::lemmas::{
    is_key_word, lemma_chain, lemma_flag_word, lemma_key_value_lacks_newline, lemma_key_word,
    lemma_list_read_back, lemma_plain_keys, lemma_read_empty, lemma_read_header,
    lemma_read_one, lemma_read_pair, lemma_read_push, lemma_reveal_keys,
    lemma_split_join_each, none_contains,
};
use crate::parse::{
    assigned, kind_of, language_tag, list_items, parsed, read_line, read_lines, reader_start,
    without_leading, without_trailing, KeyKind, ReaderView,
};
use crate::serialize::{
    entry_lines, escaped, escaped_line, exec_line, extra_lines, flag_lines, flag_word,
    join_each, key_value, launch_lines, list_line, list_lines, localized_key,
    localized_lines, name_lines, serialized, trimmed_line,
};
use crate::text::{begins_with, is_blank, is_trimmed, trimmed};
use vstd::prelude::*;

verus! {

// ---------------------------------------------------------------------------
// Reading one group of lines
// ---------------------------------------------------------------------------

/// Whether `base` is one of the three keys that have localized variants.
pub open spec fn is_localized_base(base: Seq<char>) -> bool {
    base == "Name"@ || base == "GenericName"@ || base == "Comment"@
}

/// The entry with `pairs` added to the localized variants of `base`.
pub open spec fn with_localized(
    e: EntryView,
    base: Seq<char>,
    pairs: Seq<(Seq<char>, Seq<char>)>,
) -> EntryView {
    if base == "Name"@ {
        EntryView { name_localized: e.name_localized + pairs, ..e }
    } else if base == "GenericName"@ {
        EntryView { generic_name_localized: e.generic_name_localized + pairs, ..e }
    } else {
        EntryView { comment_localized: e.comment_localized + pairs, ..e }
    }
}

/// The key `base[tag]` is a clean key, and its tag is read back.
proof fn lemma_localized_key(base: Seq<char>, tag: Seq<char>)
    requires
        is_localized_base(base),
        is_tag(tag, base),
    ensures
        localized_key(base, tag).len() > 0,
        is_trimmed(localized_key(base, tag)),
        !localized_key(base, tag).contains('='),
        !localized_key(base, tag).contains('\n'),
        localized_key(base, tag).first() == base.first(),
        localized_key(base, tag).last() == ']',
        localized_key(base, tag).contains('['),
        begins_with(localized_key(base, tag), base.push('[')),
        language_tag(localized_key(base, tag), base) == tag,
{
    lemma_reveal_keys();
    lemma_key_word(base);
    let key = localized_key(base, tag);
    let prefix = base.push('[');
    let n = base.len() as int;
    assert(key.len() == n + tag.len() + 2);
    assert(key[0] == base[0]);
    assert(key[n] == '[');
    assert(key.last() == ']');
    assert(key.subrange(0, n + 1) =~= prefix);
    assert forall|k: int| 0 <= k < key.len() implies key[k] != '=' && key[k] != '\n' by {
        if k < n {
            assert(base.contains(key[k]));
        } else if n < k < n + 1 + tag.len() {
            assert(tag[k - n - 1] == key[k]);
            assert(tag.contains(key[k]));
        }
    }
    let rest = key.subrange(n + 1, key.len() as int);
    assert(rest =~= tag.push(']'));
    assert(without_leading(key, prefix) == without_leading(rest, prefix));
    if begins_with(rest, prefix) {
        if tag.len() >= prefix.len() {
            assert(tag.subrange(0, prefix.len() as int) =~= rest.subrange(0, prefix.len() as int));
        } else {
            assert(rest.subrange(0, prefix.len() as int)[tag.len() as int] == ']');
            if tag.len() < n {
                assert(base.contains(prefix[tag.len() as int]));
            }
        }
    }
    assert(without_leading(rest, prefix) == rest);
    assert(rest.drop_last() =~= tag);
    assert(without_trailing(rest, ']') == without_trailing(tag, ']'));
    assert(without_trailing(tag, ']') == tag);
}

/// Taking in `base[tag]=value` adds the pair to the variants of `base`.
proof fn lemma_assigned_localized(e: EntryView, base: Seq<char>, tag: Seq<char>, value: Seq<char>)
    requires
        is_localized_base(base),
        is_tag(tag, base),
    ensures
        assigned(e, localized_key(base, tag), value) == with_localized(
            e,
            base,
            seq![(tag, value)],
        ),
{
    lemma_reveal_keys();
    lemma_localized_key(base, tag);
    let key = localized_key(base, tag);
    lemma_key_word("Type"@);
    lemma_key_word("Name"@);
    lemma_key_word("GenericName"@);
    lemma_key_word("Comment"@);
    reveal_strlit("Name");
    reveal_strlit("GenericName");
    reveal_strlit("Comment");
    let name = "Name"@.push('[');
    let generic = "GenericName"@.push('[');
    if base != "Name"@ && begins_with(key, name) {
        assert(key.subrange(0, name.len() as int)[0] == name[0]);
    }
    if base == "Comment"@ && begins_with(key, generic) {
        assert(key.subrange(0, generic.len() as int)[0] == generic[0]);
    }
    if base == "Name"@ {
        assert(kind_of(key) == KeyKind::NameLocalized);
        assert(e.name_localized.push((tag, value)) =~= e.name_localized + seq![(tag, value)]);
    } else if base == "GenericName"@ {
        assert(kind_of(key) == KeyKind::GenericNameLocalized);
        assert(e.generic_name_localized.push((tag, value)) =~= e.generic_name_localized
            + seq![(tag, value)]);
    } else {
        assert(kind_of(key) == KeyKind::CommentLocalized);
        assert(e.comment_localized.push((tag, value)) =~= e.comment_localized + seq![
            (tag, value),
        ]);
    }
}

/// Reading the localized lines of `base` adds their pairs, in order.
proof fn lemma_read_localized(r: ReaderView, base: Seq<char>, pairs: Seq<(Seq<char>, Seq<char>)>)
    requires
        r.active,
        is_localized_base(base),
        are_localized(escaped_values(pairs), base),
    ensures
        read_lines(r, localized_lines(base, pairs)) == (ReaderView {
            entry: with_localized(r.entry, base, escaped_values(pairs)),
            active: true,
        }),
        none_contains(localized_lines(base, pairs), '\n'),
    decreases pairs.len(),
{
    let lines = localized_lines(base, pairs);
    let e = r.entry;
    if pairs.len() == 0 {
        assert(lines =~= Seq::<Seq<char>>::empty());
        assert(e.name_localized + escaped_values(pairs) =~= e.name_localized);
        assert(e.generic_name_localized + escaped_values(pairs) =~= e.generic_name_localized);
        assert(e.comment_localized + escaped_values(pairs) =~= e.comment_localized);
    } else {
        let before = pairs.drop_last();
        let (tag, raw) = pairs.last();
        let value = escaped(raw);
        let key = localized_key(base, tag);
        let line = key_value(key, value);
        assert(lines =~= localized_lines(base, before).push(line));
        assert forall|i: int| 0 <= i < before.len() implies is_tag(
            (#[trigger] escaped_values(before)[i]).0,
            base,
        ) && is_plain(escaped_values(before)[i].1) by {
            assert(escaped_values(before)[i] == escaped_values(pairs)[i]);
        }
        lemma_read_localized(r, base, before);
        let mid = read_lines(r, localized_lines(base, before));
        lemma_read_push(r, localized_lines(base, before), line);
        assert(escaped_values(pairs)[pairs.len() - 1] == (tag, value));
        assert(is_tag(tag, base) && is_plain(value));
        lemma_localized_key(base, tag);
        lemma_reveal_keys();
        lemma_key_word(base);
        lemma_read_pair(mid, key, value);
        lemma_assigned_localized(mid.entry, base, tag, value);
        lemma_key_value_lacks_newline(key, value);
        assert(escaped_values(pairs) =~= escaped_values(before) + seq![(tag, value)]);
        assert(e.name_localized + escaped_values(before) + seq![(tag, value)]
            =~= e.name_localized + escaped_values(pairs));
        assert(e.generic_name_localized + escaped_values(before) + seq![(tag, value)]
            =~= e.generic_name_localized + escaped_values(pairs));
        assert(e.comment_localized + escaped_values(before) + seq![(tag, value)]
            =~= e.comment_localized + escaped_values(pairs));
        assert forall|i: int| 0 <= i < lines.len() implies !(#[trigger] lines[i]).contains(
            '\n',
        ) by {
            if i < before.len() {
                assert(lines[i] == localized_lines(base, before)[i]);
            }
        }
    }
}

/// Localized variants pile up: two lines for the same key, even with the
/// same tag, leave both pairs, in the order of the lines.
pub proof fn lemma_localized_accumulates(
    r: ReaderView,
    base: Seq<char>,
    first: (Seq<char>, Seq<char>),
    second: (Seq<char>, Seq<char>),
)
    requires
        r.active,
        is_localized_base(base),
        is_tag(first.0, base),
        is_tag(second.0, base),
        is_plain(first.1),
        is_plain(second.1),
    ensures
        read_lines(
            r,
            seq![
                key_value(localized_key(base, first.0), first.1),
                key_value(localized_key(base, second.0), second.1),
            ],
        ) == (ReaderView {
            entry: with_localized(r.entry, base, seq![first, second]),
            active: true,
        }),
{
    let one = key_value(localized_key(base, first.0), first.1);
    let two = key_value(localized_key(base, second.0), second.1);
    let e = r.entry;
    lemma_localized_key(base, first.0);
    lemma_localized_key(base, second.0);
    lemma_reveal_keys();
    lemma_key_word(base);
    lemma_read_one(r, one);
    lemma_read_pair(r, localized_key(base, first.0), first.1);
    lemma_assigned_localized(e, base, first.0, first.1);
    let mid = read_line(r, one);
    lemma_read_push(r, seq![one], two);
    assert(seq![one].push(two) =~= seq![one, two]);
    lemma_read_pair(mid, localized_key(base, second.0), second.1);
    lemma_assigned_localized(mid.entry, base, second.0, second.1);
    assert(e.name_localized + seq![first] + seq![second] =~= e.name_localized + seq![
        first,
        second,
    ]);
    assert(e.generic_name_localized + seq![first] + seq![second] =~= e.generic_name_localized
        + seq![first, second]);
    assert(e.comment_localized + seq![first] + seq![second] =~= e.comment_localized + seq![
        first,
        second,
    ]);
}

/// Reading the line of a known key with a plain value takes the pair in.
proof fn lemma_read_scalar(r: ReaderView, key: Seq<char>, value: Seq<char>)
    requires
        r.active,
        is_key_word(key),
        is_plain(value),
    ensures
        read_lines(r, seq![key_value(key, value)]) == (ReaderView {
            entry: assigned(r.entry, key, value),
            active: true,
        }),
        none_contains(seq![key_value(key, value)], '\n'),
{
    lemma_key_word(key);
    lemma_read_one(r, key_value(key, value));
    lemma_read_pair(r, key, value);
    lemma_key_value_lacks_newline(key, value);
}

/// Reading no line changes nothing.
proof fn lemma_read_nothing(r: ReaderView)
    ensures
        read_lines(r, Seq::empty()) == r,
        none_contains(Seq::empty(), '\n'),
{
}

/// Reading the line of a scalar that is written escaped.
proof fn lemma_read_escaped(r: ReaderView, key: Seq<char>, value: Option<Seq<char>>)
    requires
        r.active,
        is_key_word(key),
        is_plain_option(escaped_option(value)),
    ensures
        read_lines(r, escaped_line(key, value)) == match value {
            Some(v) => ReaderView { entry: assigned(r.entry, key, escaped(v)), active: true },
            None => r,
        },
        none_contains(escaped_line(key, value), '\n'),
{
    match value {
        Some(v) => lemma_read_scalar(r, key, escaped(v)),
        None => lemma_read_nothing(r),
    }
}

/// Reading the line of a scalar that is written trimmed.
proof fn lemma_read_trimmed(r: ReaderView, key: Seq<char>, value: Option<Seq<char>>)
    requires
        r.active,
        is_key_word(key),
        is_plain_option(trimmed_option(value)),
    ensures
        read_lines(r, trimmed_line(key, value)) == match value {
            Some(v) => ReaderView { entry: assigned(r.entry, key, trimmed(v)), active: true },
            None => r,
        },
        none_contains(trimmed_line(key, value), '\n'),
{
    match value {
        Some(v) => lemma_read_scalar(r, key, trimmed(v)),
        None => lemma_read_nothing(r),
    }
}

/// Reading the `Exec` line.
proof fn lemma_read_exec(r: ReaderView, command: Seq<char>)
    requires
        r.active,
        is_plain(trimmed(command)),
    ensures
        read_lines(r, exec_line(command)) == if command.len() == 0 {
            r
        } else {
            ReaderView { entry: assigned(r.entry, "Exec"@, trimmed(command)), active: true }
        },
        none_contains(exec_line(command), '\n'),
{
    lemma_reveal_keys();
    if command.len() == 0 {
        lemma_read_nothing(r);
    } else {
        lemma_read_scalar(r, "Exec"@, trimmed(command));
    }
}

/// Reading the line of a list of items gives the list back.
proof fn lemma_read_list(r: ReaderView, key: Seq<char>, items: Seq<Seq<char>>)
    requires
        r.active,
        is_key_word(key),
        are_items(items),
    ensures
        read_lines(r, list_line(key, items)) == if items.len() == 0 {
            r
        } else {
            ReaderView { entry: assigned(r.entry, key, join_each(items, ';')), active: true }
        },
        items.len() > 0 ==> list_items(join_each(items, ';')) == items,
        none_contains(list_line(key, items), '\n'),
{
    if items.len() == 0 {
        lemma_read_nothing(r);
    } else {
        lemma_list_read_back(items);
        lemma_read_scalar(r, key, join_each(items, ';'));
    }
}

/// Part of a run of extra pairs is a run of extra pairs.
proof fn lemma_trimmed_pairs_prefix(pairs: Seq<(Seq<char>, Seq<char>)>)
    requires
        pairs.len() > 0,
        are_extra(trimmed_pairs(pairs)),
    ensures
        are_extra(trimmed_pairs(pairs.drop_last())),
        !is_blank(pairs.last().0) ==> is_extra_pair(
            (trimmed(pairs.last().0), trimmed(pairs.last().1)),
        ),
{
    let all = trimmed_pairs(pairs);
    let before = trimmed_pairs(pairs.drop_last());
    assert forall|i: int| 0 <= i < before.len() implies is_extra_pair(#[trigger] before[i]) by {
        assert(before[i] == all[i]);
    }
    if !is_blank(pairs.last().0) {
        assert(all[all.len() - 1] == (trimmed(pairs.last().0), trimmed(pairs.last().1)));
    }
}

/// Reading the extra lines adds the pairs that were written, in order.
proof fn lemma_read_extra(r: ReaderView, pairs: Seq<(Seq<char>, Seq<char>)>)
    requires
        r.active,
        are_extra(trimmed_pairs(pairs)),
    ensures
        read_lines(r, extra_lines(pairs)) == (ReaderView {
            entry: EntryView { extra: r.entry.extra + trimmed_pairs(pairs), ..r.entry },
            active: true,
        }),
        none_contains(extra_lines(pairs), '\n'),
    decreases pairs.len(),
{
    let e = r.entry;
    if pairs.len() == 0 {
        assert(e.extra + trimmed_pairs(pairs) =~= e.extra);
    } else {
        let before = pairs.drop_last();
        let (k, v) = pairs.last();
        lemma_trimmed_pairs_prefix(pairs);
        lemma_read_extra(r, before);
        if is_blank(k) {
        } else {
            let key = trimmed(k);
            let value = trimmed(v);
            let line = key_value(key, value);
            let mid = read_lines(r, extra_lines(before));
            assert(is_extra_pair((key, value)));
            lemma_read_push(r, extra_lines(before), line);
            lemma_read_pair(mid, key, value);
            lemma_key_value_lacks_newline(key, value);
            assert((e.extra + trimmed_pairs(before)).push((key, value)) =~= e.extra
                + trimmed_pairs(pairs));
            let lines = extra_lines(pairs);
            assert forall|i: int| 0 <= i < lines.len() implies !(#[trigger] lines[i]).contains(
                '\n',
            ) by {
                if i < extra_lines(before).len() {
                    assert(lines[i] == extra_lines(before)[i]);
                }
            }
        }
    }
}

// ---------------------------------------------------------------------------
// Reading the groups in order
// ---------------------------------------------------------------------------

/// What has been read once the name lines are through.
spec fn after_names(e: EntryView) -> EntryView {
    EntryView {
        type_field: e.type_field,
        name: escaped(e.name),
        generic_name: escaped_option(e.generic_name),
        comment: escaped_option(e.comment),
        name_localized: escaped_values(e.name_localized),
        generic_name_localized: escaped_values(e.generic_name_localized),
        comment_localized: escaped_values(e.comment_localized),
        ..empty_entry()
    }
}

/// What has been read once the launch lines are through.
spec fn after_launch(e: EntryView) -> EntryView {
    EntryView {
        exec_field: trimmed(e.exec_field),
        try_exec: trimmed_option(e.try_exec),
        icon: trimmed_option(e.icon),
        path: trimmed_option(e.path),
        url: trimmed_option(e.url),
        ..after_names(e)
    }
}

/// What has been read once the flags are through.
spec fn after_flags(e: EntryView) -> EntryView {
    EntryView {
        terminal: e.terminal,
        no_display: e.no_display,
        startup_notify: e.startup_notify,
        ..after_launch(e)
    }
}

/// What has been read once the lists are through.
spec fn after_lists(e: EntryView) -> EntryView {
    EntryView {
        categories: e.categories,
        mime_type: e.mime_type,
        keywords: e.keywords,
        only_show_in: e.only_show_in,
        not_show_in: e.not_show_in,
        actions: e.actions,
        ..after_flags(e)
    }
}

/// The reader, switched on, with `entry` read so far.
spec fn reading(entry: EntryView) -> ReaderView {
    ReaderView { entry, active: true }
}

proof fn lemma_read_names(e: EntryView)
    requires
        reads_back(as_written(e)),
    ensures
        read_lines(reader_start(), name_lines(e)) == reading(after_names(e)),
        none_contains(name_lines(e), '\n'),
{
    lemma_reveal_keys();
    lemma_plain_keys();
    let w = as_written(e);
    let start = reader_start();
    let e0 = empty_entry();

    let pre1 = seq!["[Desktop Entry]"@];
    let r1 = reading(e0);
    lemma_read_header(start);
    lemma_read_one(start, "[Desktop Entry]"@);
    assert(read_lines(start, pre1) == r1);
    assert(none_contains(pre1, '\n'));

    let s2 = seq![key_value("Type"@, e.type_field)];
    let r2 = reading(EntryView { type_field: e.type_field, ..e0 });
    lemma_read_scalar(r1, "Type"@, e.type_field);
    lemma_chain(start, pre1, s2, r1, r2);
    let pre2 = pre1 + s2;

    let s3 = seq![key_value("Name"@, escaped(e.name))];
    let r3 = reading(EntryView { name: escaped(e.name), ..r2.entry });
    lemma_read_scalar(r2, "Name"@, escaped(e.name));
    lemma_chain(start, pre2, s3, r2, r3);
    let pre3 = pre2 + s3;

    let s4 = localized_lines("Name"@, e.name_localized);
    let r4 = reading(EntryView { name_localized: w.name_localized, ..r3.entry });
    lemma_read_localized(r3, "Name"@, e.name_localized);
    assert(e0.name_localized + w.name_localized =~= w.name_localized);
    lemma_chain(start, pre3, s4, r3, r4);
    let pre4 = pre3 + s4;

    let s5 = escaped_line("GenericName"@, e.generic_name);
    let r5 = reading(EntryView { generic_name: w.generic_name, ..r4.entry });
    lemma_read_escaped(r4, "GenericName"@, e.generic_name);
    lemma_chain(start, pre4, s5, r4, r5);
    let pre5 = pre4 + s5;

    let s6 = localized_lines("GenericName"@, e.generic_name_localized);
    let r6 = reading(EntryView { generic_name_localized: w.generic_name_localized, ..r5.entry });
    lemma_read_localized(r5, "GenericName"@, e.generic_name_localized);
    assert(e0.generic_name_localized + w.generic_name_localized =~= w.generic_name_localized);
    lemma_chain(start, pre5, s6, r5, r6);
    let pre6 = pre5 + s6;

    let s7 = escaped_line("Comment"@, e.comment);
    let r7 = reading(EntryView { comment: w.comment, ..r6.entry });
    lemma_read_escaped(r6, "Comment"@, e.comment);
    lemma_chain(start, pre6, s7, r6, r7);
    let pre7 = pre6 + s7;

    let s8 = localized_lines("Comment"@, e.comment_localized);
    let r8 = reading(EntryView { comment_localized: w.comment_localized, ..r7.entry });
    lemma_read_localized(r7, "Comment"@, e.comment_localized);
    assert(e0.comment_localized + w.comment_localized =~= w.comment_localized);
    lemma_chain(start, pre7, s8, r7, r8);

    assert(r8.entry == after_names(e));
}

proof fn lemma_read_launch(e: EntryView)
    requires
        reads_back(as_written(e)),
    ensures
        read_lines(reading(after_names(e)), launch_lines(e)) == reading(after_launch(e)),
        none_contains(launch_lines(e), '\n'),
{
    lemma_reveal_keys();
    lemma_plain_keys();
    let w = as_written(e);
    let start = reading(after_names(e));

    let pre1 = exec_line(e.exec_field);
    let r1 = reading(EntryView { exec_field: w.exec_field, ..start.entry });
    lemma_read_exec(start, e.exec_field);
    assert(e.exec_field.len() == 0 ==> w.exec_field =~= start.entry.exec_field);
    assert(read_lines(start, pre1) == r1);

    let s2 = trimmed_line("TryExec"@, e.try_exec);
    let r2 = reading(EntryView { try_exec: w.try_exec, ..r1.entry });
    lemma_read_trimmed(r1, "TryExec"@, e.try_exec);
    lemma_chain(start, pre1, s2, r1, r2);
    let pre2 = pre1 + s2;

    let s3 = trimmed_line("Icon"@, e.icon);
    let r3 = reading(EntryView { icon: w.icon, ..r2.entry });
    lemma_read_trimmed(r2, "Icon"@, e.icon);
    lemma_chain(start, pre2, s3, r2, r3);
    let pre3 = pre2 + s3;

    let s4 = trimmed_line("Path"@, e.path);
    let r4 = reading(EntryView { path: w.path, ..r3.entry });
    lemma_read_trimmed(r3, "Path"@, e.path);
    lemma_chain(start, pre3, s4, r3, r4);
    let pre4 = pre3 + s4;

    let s5 = trimmed_line("URL"@, e.url);
    let r5 = reading(EntryView { url: w.url, ..r4.entry });
    lemma_read_trimmed(r4, "URL"@, e.url);
    lemma_chain(start, pre4, s5, r4, r5);

    assert(r5.entry == after_launch(e));
}

proof fn lemma_read_flags(e: EntryView)
    ensures
        read_lines(reading(after_launch(e)), flag_lines(e)) == reading(after_flags(e)),
        none_contains(flag_lines(e), '\n'),
{
    lemma_reveal_keys();
    lemma_plain_keys();
    let start = reading(after_launch(e));
    lemma_flag_word(e.terminal);
    lemma_flag_word(e.no_display);
    lemma_flag_word(e.startup_notify);

    let pre1 = seq![key_value("Terminal"@, flag_word(e.terminal))];
    let r1 = reading(EntryView { terminal: e.terminal, ..start.entry });
    lemma_read_scalar(start, "Terminal"@, flag_word(e.terminal));

    let s2 = seq![key_value("NoDisplay"@, flag_word(e.no_display))];
    let r2 = reading(EntryView { no_display: e.no_display, ..r1.entry });
    lemma_read_scalar(r1, "NoDisplay"@, flag_word(e.no_display));
    lemma_chain(start, pre1, s2, r1, r2);
    let pre2 = pre1 + s2;

    let s3 = seq![key_value("StartupNotify"@, flag_word(e.startup_notify))];
    let r3 = reading(EntryView { startup_notify: e.startup_notify, ..r2.entry });
    lemma_read_scalar(r2, "StartupNotify"@, flag_word(e.startup_notify));
    lemma_chain(start, pre2, s3, r2, r3);

    assert(r3.entry == after_flags(e));
}

proof fn lemma_read_categories(r: ReaderView, items: Seq<Seq<char>>)
    requires
        r.active,
        are_items(items),
        r.entry.categories.len() == 0,
    ensures
        read_lines(r, list_line("Categories"@, items)) == reading(
            EntryView { categories: items, ..r.entry },
        ),
        none_contains(list_line("Categories"@, items), '\n'),
{
    lemma_reveal_keys();
    lemma_plain_keys();
    lemma_read_list(r, "Categories"@, items);
    if items.len() == 0 {
        assert(items =~= r.entry.categories);
    }
}

proof fn lemma_read_mime_type(r: ReaderView, items: Seq<Seq<char>>)
    requires
        r.active,
        are_items(items),
        r.entry.mime_type.len() == 0,
    ensures
        read_lines(r, list_line("MimeType"@, items)) == reading(
            EntryView { mime_type: items, ..r.entry },
        ),
        none_contains(list_line("MimeType"@, items), '\n'),
{
    lemma_reveal_keys();
    lemma_plain_keys();
    lemma_read_list(r, "MimeType"@, items);
    if items.len() == 0 {
        assert(items =~= r.entry.mime_type);
    }
}

proof fn lemma_read_keywords(r: ReaderView, items: Seq<Seq<char>>)
    requires
        r.active,
        are_items(items),
        r.entry.keywords.len() == 0,
    ensures
        read_lines(r, list_line("Keywords"@, items)) == reading(
            EntryView { keywords: items, ..r.entry },
        ),
        none_contains(list_line("Keywords"@, items), '\n'),
{
    lemma_reveal_keys();
    lemma_plain_keys();
    lemma_read_list(r, "Keywords"@, items);
    if items.len() == 0 {
        assert(items =~= r.entry.keywords);
    }
}

proof fn lemma_read_only_show_in(r: ReaderView, items: Seq<Seq<char>>)
    requires
        r.active,
        are_items(items),
        r.entry.only_show_in.len() == 0,
    ensures
        read_lines(r, list_line("OnlyShowIn"@, items)) == reading(
            EntryView { only_show_in: items, ..r.entry },
        ),
        none_contains(list_line("OnlyShowIn"@, items), '\n'),
{
    lemma_reveal_keys();
    lemma_plain_keys();
    lemma_read_list(r, "OnlyShowIn"@, items);
    if items.len() == 0 {
        assert(items =~= r.entry.only_show_in);
    }
}

proof fn lemma_read_not_show_in(r: ReaderView, items: Seq<Seq<char>>)
    requires
        r.active,
        are_items(items),
        r.entry.not_show_in.len() == 0,
    ensures
        read_lines(r, list_line("NotShowIn"@, items)) == reading(
            EntryView { not_show_in: items, ..r.entry },
        ),
        none_contains(list_line("NotShowIn"@, items), '\n'),
{
    lemma_reveal_keys();
    lemma_plain_keys();
    lemma_read_list(r, "NotShowIn"@, items);
    if items.len() == 0 {
        assert(items =~= r.entry.not_show_in);
    }
}

proof fn lemma_read_actions(r: ReaderView, items: Seq<Seq<char>>)
    requires
        r.active,
        are_items(items),
        r.entry.actions.len() == 0,
    ensures
        read_lines(r, list_line("Actions"@, items)) == reading(
            EntryView { actions: items, ..r.entry },
        ),
        none_contains(list_line("Actions"@, items), '\n'),
{
    lemma_reveal_keys();
    lemma_plain_keys();
    lemma_read_list(r, "Actions"@, items);
    if items.len() == 0 {
        assert(items =~= r.entry.actions);
    }
}

proof fn lemma_read_lists(e: EntryView)
    requires
        are_items(e.categories),
        are_items(e.mime_type),
        are_items(e.keywords),
        are_items(e.only_show_in),
        are_items(e.not_show_in),
        are_items(e.actions),
    ensures
        read_lines(reading(after_flags(e)), list_lines(e)) == reading(after_lists(e)),
        none_contains(list_lines(e), '\n'),
{
    let start = reading(after_flags(e));

    let pre1 = list_line("Categories"@, e.categories);
    let r1 = reading(EntryView { categories: e.categories, ..start.entry });
    lemma_read_categories(start, e.categories);

    let s2 = list_line("MimeType"@, e.mime_type);
    let r2 = reading(EntryView { mime_type: e.mime_type, ..r1.entry });
    lemma_read_mime_type(r1, e.mime_type);
    lemma_chain(start, pre1, s2, r1, r2);
    let pre2 = pre1 + s2;

    let s3 = list_line("Keywords"@, e.keywords);
    let r3 = reading(EntryView { keywords: e.keywords, ..r2.entry });
    lemma_read_keywords(r2, e.keywords);
    lemma_chain(start, pre2, s3, r2, r3);
    let pre3 = pre2 + s3;

    let s4 = list_line("OnlyShowIn"@, e.only_show_in);
    let r4 = reading(EntryView { only_show_in: e.only_show_in, ..r3.entry });
    lemma_read_only_show_in(r3, e.only_show_in);
    lemma_chain(start, pre3, s4, r3, r4);
    let pre4 = pre3 + s4;

    let s5 = list_line("NotShowIn"@, e.not_show_in);
    let r5 = reading(EntryView { not_show_in: e.not_show_in, ..r4.entry });
    lemma_read_not_show_in(r4, e.not_show_in);
    lemma_chain(start, pre4, s5, r4, r5);
    let pre5 = pre4 + s5;

    let s6 = list_line("Actions"@, e.actions);
    let r6 = reading(EntryView { actions: e.actions, ..r5.entry });
    lemma_read_actions(r5, e.actions);
    lemma_chain(start, pre5, s6, r5, r6);

    assert(r6.entry == after_lists(e));
}

// ---------------------------------------------------------------------------
// The whole text
// ---------------------------------------------------------------------------

/// Reading back what was written gives the entry as it was written.
///
/// This holds for every entry with a type whose written values are values
/// that reading can yield; whether the entry is valid does not matter.
pub proof fn lemma_parse_serialized(e: EntryView)
    requires
        e.type_field.len() > 0,
        reads_back(as_written(e)),
    ensures
        parsed(serialized(e)) == as_written(e),
{
    let start = reader_start();
    let r1 = reading(after_names(e));
    let r2 = reading(after_launch(e));
    let r3 = reading(after_flags(e));
    let r4 = reading(after_lists(e));
    let r5 = reading(as_written(e));

    lemma_read_names(e);
    let pre1 = name_lines(e);

    lemma_read_launch(e);
    lemma_chain(start, pre1, launch_lines(e), r1, r2);
    let pre2 = pre1 + launch_lines(e);

    lemma_read_flags(e);
    lemma_chain(start, pre2, flag_lines(e), r2, r3);
    let pre3 = pre2 + flag_lines(e);

    lemma_read_lists(e);
    lemma_chain(start, pre3, list_lines(e), r3, r4);
    let pre4 = pre3 + list_lines(e);

    lemma_read_extra(r4, e.extra);
    assert(r4.entry.extra + trimmed_pairs(e.extra) =~= trimmed_pairs(e.extra));
    assert((EntryView { extra: trimmed_pairs(e.extra), ..r4.entry }) == as_written(e));
    lemma_chain(start, pre4, extra_lines(e.extra), r4, r5);

    let lines = entry_lines(e);
    lemma_split_join_each(lines, '\n');
    lemma_read_push(start, lines, Seq::empty());
    lemma_read_empty(r5);
}

} // verus!
