//! Supporting facts about splitting, joining, escaping and reading single
//! lines, from which the laws of the codec are proved.

use crate::laws::{are_items, is_item, is_plain};
use crate::parse::{
    assigned, is_true_word, kept_pieces, kind_of, list_items, read_line, read_lines, KeyKind,
    ReaderView,
};
use crate::serialize::{
    escaped, flag_word, join_each, key_value, lemma_join_each_concat, lemma_join_each_one,
};
use crate::text::{
    first_index, is_trimmed, lemma_first_index, lemma_first_index_is, split_on, split_once_at,
    trimmed,
};
use vstd::prelude::*;

verus! {

// ---------------------------------------------------------------------------
// Splitting what was joined
// ---------------------------------------------------------------------------

/// Where `c` does not occur in `a`, the first `c` of `a`, `c`, `b` is the one
/// in the middle.
pub proof fn lemma_first_index_after(a: Seq<char>, c: char, b: Seq<char>)
    requires
        !a.contains(c),
    ensures
        first_index(a.push(c) + b, c) == a.len(),
{
    let s = a.push(c) + b;
    assert forall|k: int| 0 <= k < a.len() implies #[trigger] s[k] != c by {
        assert(s[k] == a[k]);
        assert(a.contains(a[k]));
    }
    assert(s[a.len() as int] == c);
    lemma_first_index_is(s, c, a.len() as int);
}

/// Where `c` does not occur in `s`, no position is the first.
pub proof fn lemma_first_index_absent(s: Seq<char>, c: char)
    ensures
        !s.contains(c) <==> first_index(s, c) == s.len(),
{
    lemma_first_index(s, c);
    if !s.contains(c) {
        let f = first_index(s, c) as int;
        if f < s.len() {
            assert(s.contains(s[f]));
        }
    } else {
        let k = choose|k: int| 0 <= k < s.len() && s[k] == c;
        assert(s[k] == c);
    }
}

/// `join_each`, seen from the front.
pub proof fn lemma_join_each_front(lines: Seq<Seq<char>>, sep: char)
    requires
        lines.len() > 0,
    ensures
        join_each(lines, sep) == lines.first().push(sep) + join_each(lines.drop_first(), sep),
{
    assert(lines =~= seq![lines.first()] + lines.drop_first());
    lemma_join_each_concat(seq![lines.first()], lines.drop_first(), sep);
    lemma_join_each_one(lines.first(), sep);
}

/// Whether no line holds `c`.
pub open spec fn none_contains(lines: Seq<Seq<char>>, c: char) -> bool {
    forall|i: int| 0 <= i < lines.len() ==> !(#[trigger] lines[i]).contains(c)
}

/// Splitting undoes joining: where no item holds the separator, the pieces of
/// the joined text are the items, and one empty piece after the last
/// separator.
pub proof fn lemma_split_join_each(lines: Seq<Seq<char>>, sep: char)
    requires
        none_contains(lines, sep),
    ensures
        split_on(join_each(lines, sep), sep) == lines.push(Seq::empty()),
    decreases lines.len(),
{
    if lines.len() == 0 {
        assert(split_on(join_each(lines, sep), sep) =~= lines.push(Seq::empty()));
    } else {
        let head = lines.first();
        let tail = lines.drop_first();
        let rest = join_each(tail, sep);
        let text = join_each(lines, sep);
        lemma_join_each_front(lines, sep);
        lemma_first_index_after(head, sep, rest);
        assert forall|i: int| 0 <= i < tail.len() implies !(#[trigger] tail[i]).contains(sep) by {
            assert(tail[i] == lines[i + 1]);
        }
        lemma_split_join_each(tail, sep);
        assert(text.subrange(0, head.len() as int) =~= head);
        assert(text.subrange(head.len() as int + 1, text.len() as int) =~= rest);
        assert(seq![head] + tail.push(Seq::empty()) =~= lines.push(Seq::empty()));
    }
}

/// Joining lines that hold no `c` with a separator other than `c` gives a
/// text without `c`.
pub proof fn lemma_join_each_lacks(lines: Seq<Seq<char>>, sep: char, c: char)
    requires
        none_contains(lines, c),
        sep != c,
    ensures
        !join_each(lines, sep).contains(c),
    decreases lines.len(),
{
    if lines.len() > 0 {
        let before = lines.drop_last();
        assert forall|i: int| 0 <= i < before.len() implies !(#[trigger] before[i]).contains(
            c,
        ) by {
            assert(before[i] == lines[i]);
        }
        lemma_join_each_lacks(before, sep, c);
        let text = join_each(lines, sep);
        if text.contains(c) {
            let k = choose|k: int| 0 <= k < text.len() && text[k] == c;
            let n = join_each(before, sep).len() as int;
            if k < n {
                assert(join_each(before, sep)[k] == c);
                assert(join_each(before, sep).contains(c));
            } else if k < n + lines.last().len() {
                assert(lines.last()[k - n] == c);
                assert(lines.last().contains(c));
            }
        }
    }
}

// ---------------------------------------------------------------------------
// Escaping
// ---------------------------------------------------------------------------

/// Escaping leaves a text without newlines as it is.
pub proof fn lemma_escaped_same(s: Seq<char>)
    requires
        !s.contains('\n'),
    ensures
        escaped(s) == s,
    decreases s.len(),
{
    if s.len() > 0 {
        let before = s.drop_last();
        assert(s.contains(s.last()));
        assert forall|k: int| 0 <= k < before.len() implies before[k] != '\n' by {
            assert(s.contains(s[k]));
        }
        lemma_escaped_same(before);
        assert(before.push(s.last()) =~= s);
    } else {
        assert(escaped(s) =~= s);
    }
}

/// An escaped text holds no newline.
pub proof fn lemma_escaped_lacks_newline(s: Seq<char>)
    ensures
        !escaped(s).contains('\n'),
    decreases s.len(),
{
    if s.len() > 0 {
        lemma_escaped_lacks_newline(s.drop_last());
        let before = escaped(s.drop_last());
        let out = escaped(s);
        if out.contains('\n') {
            let k = choose|k: int| 0 <= k < out.len() && out[k] == '\n';
            if k < before.len() {
                assert(before[k] == '\n');
                assert(before.contains('\n'));
            }
        }
    }
}

// ---------------------------------------------------------------------------
// Lists
// ---------------------------------------------------------------------------

/// Items stay as they are when the pieces of a list are cleaned.
pub proof fn lemma_kept_items(items: Seq<Seq<char>>)
    requires
        are_items(items),
    ensures
        kept_pieces(items) == items,
        kept_pieces(items.push(Seq::empty())) == items,
    decreases items.len(),
{
    if items.len() > 0 {
        let before = items.drop_last();
        assert forall|i: int| 0 <= i < before.len() implies is_item(#[trigger] before[i]) by {
            assert(before[i] == items[i]);
        }
        lemma_kept_items(before);
        assert(is_item(items.last()));
        assert(before.push(items.last()) =~= items);
    } else {
        assert(kept_pieces(items) =~= items);
    }
    assert(items.push(Seq::empty()).drop_last() =~= items);
}

/// The joined text of a list of items reads back as the list, is trimmed and
/// stays on one line.
pub proof fn lemma_list_read_back(items: Seq<Seq<char>>)
    requires
        are_items(items),
        items.len() > 0,
    ensures
        list_items(join_each(items, ';')) == items,
        is_plain(join_each(items, ';')),
        join_each(items, ';').len() > 0,
        join_each(items, ';').last() == ';',
{
    let text = join_each(items, ';');
    assert forall|i: int| 0 <= i < items.len() implies !(#[trigger] items[i]).contains(';') by {
        assert(is_item(items[i]));
    }
    assert forall|i: int| 0 <= i < items.len() implies !(#[trigger] items[i]).contains('\n') by {
        assert(is_item(items[i]));
    }
    lemma_split_join_each(items, ';');
    lemma_kept_items(items);
    lemma_join_each_lacks(items, ';', '\n');
    lemma_join_each_front(items, ';');
    assert(is_item(items.first()));
    assert(text.first() == items.first().first());
    assert(text.last() == ';');
}

// ---------------------------------------------------------------------------
// Keys
// ---------------------------------------------------------------------------

/// An ASCII letter.
pub open spec fn is_letter(c: char) -> bool {
    ('a' <= c && c <= 'z') || ('A' <= c && c <= 'Z')
}

/// A key made of letters only, as all the keys that the codec knows are.
#[verifier::opaque]
pub open spec fn is_key_word(key: Seq<char>) -> bool {
    key.len() > 0 && forall|k: int| 0 <= k < key.len() ==> is_letter(#[trigger] key[k])
}

/// What follows from a key being made of letters.
pub proof fn lemma_key_word(key: Seq<char>)
    requires
        is_key_word(key),
    ensures
        key.len() > 0,
        is_trimmed(key),
        !key.contains('='),
        !key.contains('\n'),
        !key.contains('['),
        !key.contains(']'),
        key.first() != '#',
        key.first() != ';',
        key.first() != '[',
        key.last() != ']',
{
    reveal(is_key_word);
    assert(is_letter(key[0]));
    assert(is_letter(key[key.len() - 1]));
}

/// Reveals the characters of every key that the codec knows.
pub proof fn lemma_reveal_keys()
    ensures
        "Type"@.len() == 4,
        is_key_word("Type"@),
        "Name"@.len() == 4,
        is_key_word("Name"@),
        "GenericName"@.len() == 11,
        is_key_word("GenericName"@),
        "Comment"@.len() == 7,
        is_key_word("Comment"@),
        "Exec"@.len() == 4,
        is_key_word("Exec"@),
        "TryExec"@.len() == 7,
        is_key_word("TryExec"@),
        "Icon"@.len() == 4,
        is_key_word("Icon"@),
        "Path"@.len() == 4,
        is_key_word("Path"@),
        "URL"@.len() == 3,
        is_key_word("URL"@),
        "Terminal"@.len() == 8,
        is_key_word("Terminal"@),
        "NoDisplay"@.len() == 9,
        is_key_word("NoDisplay"@),
        "StartupNotify"@.len() == 13,
        is_key_word("StartupNotify"@),
        "Categories"@.len() == 10,
        is_key_word("Categories"@),
        "MimeType"@.len() == 8,
        is_key_word("MimeType"@),
        "Keywords"@.len() == 8,
        is_key_word("Keywords"@),
        "OnlyShowIn"@.len() == 10,
        is_key_word("OnlyShowIn"@),
        "NotShowIn"@.len() == 9,
        is_key_word("NotShowIn"@),
        "Actions"@.len() == 7,
        is_key_word("Actions"@),
{
    reveal(is_key_word);
    reveal_strlit("Type");
    reveal_strlit("Name");
    reveal_strlit("GenericName");
    reveal_strlit("Comment");
    reveal_strlit("Exec");
    reveal_strlit("TryExec");
    reveal_strlit("Icon");
    reveal_strlit("Path");
    reveal_strlit("URL");
    reveal_strlit("Terminal");
    reveal_strlit("NoDisplay");
    reveal_strlit("StartupNotify");
    reveal_strlit("Categories");
    reveal_strlit("MimeType");
    reveal_strlit("Keywords");
    reveal_strlit("OnlyShowIn");
    reveal_strlit("NotShowIn");
    reveal_strlit("Actions");
}

/// Each known key stands for its own field.
pub proof fn lemma_plain_keys()
    ensures
        kind_of("Type"@) == KeyKind::Type,
        kind_of("Name"@) == KeyKind::Name,
        kind_of("GenericName"@) == KeyKind::GenericName,
        kind_of("Comment"@) == KeyKind::Comment,
        kind_of("Exec"@) == KeyKind::Exec,
        kind_of("TryExec"@) == KeyKind::TryExec,
        kind_of("Icon"@) == KeyKind::Icon,
        kind_of("Path"@) == KeyKind::Path,
        kind_of("URL"@) == KeyKind::Url,
        kind_of("Terminal"@) == KeyKind::Terminal,
        kind_of("NoDisplay"@) == KeyKind::NoDisplay,
        kind_of("StartupNotify"@) == KeyKind::StartupNotify,
        kind_of("Categories"@) == KeyKind::Categories,
        kind_of("MimeType"@) == KeyKind::MimeType,
        kind_of("Keywords"@) == KeyKind::Keywords,
        kind_of("OnlyShowIn"@) == KeyKind::OnlyShowIn,
        kind_of("NotShowIn"@) == KeyKind::NotShowIn,
        kind_of("Actions"@) == KeyKind::Actions,
{
    lemma_reveal_keys();
    reveal_strlit("Type");
    lemma_key_word("Type"@);
    reveal_strlit("Name");
    lemma_key_word("Name"@);
    reveal_strlit("GenericName");
    lemma_key_word("GenericName"@);
    reveal_strlit("Comment");
    lemma_key_word("Comment"@);
    reveal_strlit("Exec");
    lemma_key_word("Exec"@);
    reveal_strlit("TryExec");
    lemma_key_word("TryExec"@);
    reveal_strlit("Icon");
    lemma_key_word("Icon"@);
    reveal_strlit("Path");
    lemma_key_word("Path"@);
    reveal_strlit("URL");
    lemma_key_word("URL"@);
    reveal_strlit("Terminal");
    lemma_key_word("Terminal"@);
    reveal_strlit("NoDisplay");
    lemma_key_word("NoDisplay"@);
    reveal_strlit("StartupNotify");
    lemma_key_word("StartupNotify"@);
    reveal_strlit("Categories");
    lemma_key_word("Categories"@);
    reveal_strlit("MimeType");
    lemma_key_word("MimeType"@);
    reveal_strlit("Keywords");
    lemma_key_word("Keywords"@);
    reveal_strlit("OnlyShowIn");
    lemma_key_word("OnlyShowIn"@);
    reveal_strlit("NotShowIn");
    lemma_key_word("NotShowIn"@);
    reveal_strlit("Actions");
    lemma_key_word("Actions"@);
}

// ---------------------------------------------------------------------------
// Reading lines
// ---------------------------------------------------------------------------

/// Reading two runs of lines one after the other is reading them as one.
pub proof fn lemma_read_concat(r: ReaderView, a: Seq<Seq<char>>, b: Seq<Seq<char>>)
    ensures
        read_lines(r, a + b) == read_lines(read_lines(r, a), b),
    decreases b.len(),
{
    if b.len() == 0 {
        assert(a + b =~= a);
    } else {
        assert((a + b).drop_last() =~= a + b.drop_last());
        assert((a + b).last() == b.last());
        lemma_read_concat(r, a, b.drop_last());
    }
}

/// Reading a run of one line is reading that line.
pub proof fn lemma_read_one(r: ReaderView, line: Seq<char>)
    ensures
        read_lines(r, seq![line]) == read_line(r, line),
{
    assert(seq![line].drop_last() =~= Seq::<Seq<char>>::empty());
    assert(seq![line].last() == line);
    assert(read_lines(r, seq![line].drop_last()) == r);
}

/// Reading one more line after a run.
pub proof fn lemma_read_push(r: ReaderView, lines: Seq<Seq<char>>, line: Seq<char>)
    ensures
        read_lines(r, lines.push(line)) == read_line(read_lines(r, lines), line),
{
    assert(lines.push(line).drop_last() =~= lines);
}

/// A line `key=value` whose key is a clean key and whose value is trimmed is
/// taken in as that pair, while the reader is on.
pub proof fn lemma_read_pair(r: ReaderView, key: Seq<char>, value: Seq<char>)
    requires
        r.active,
        key.len() > 0,
        is_trimmed(key),
        !key.contains('='),
        key.first() != '#',
        key.first() != ';',
        !(key.first() == '[' && value.len() > 0 && value.last() == ']'),
        is_trimmed(value),
    ensures
        read_line(r, key_value(key, value)) == (ReaderView {
            entry: assigned(r.entry, key, value),
            active: true,
        }),
{
    let line = key_value(key, value);
    assert(line =~= key.push('=') + value);
    assert(line.first() == key.first());
    assert(line.last() == if value.len() > 0 {
        value.last()
    } else {
        '='
    });
    assert(trimmed(line) == line);
    lemma_first_index_after(key, '=', value);
    assert(line.subrange(0, key.len() as int) =~= key);
    assert(line.subrange(key.len() as int + 1, line.len() as int) =~= value);
    assert(split_once_at(line, '=') == Some((key, value)));
    assert(trimmed(key) == key);
    assert(trimmed(value) == value);
}

/// The header line switches the reader on and changes nothing else.
pub proof fn lemma_read_header(r: ReaderView)
    ensures
        read_line(r, "[Desktop Entry]"@) == (ReaderView { entry: r.entry, active: true }),
        !"[Desktop Entry]"@.contains('\n'),
{
    reveal_strlit("[Desktop Entry]");
    let h = "[Desktop Entry]"@;
    assert(h.first() == '[');
    assert(h.last() == ']');
    assert(trimmed(h) == h);
    if h.contains('\n') {
        let k = choose|k: int| 0 <= k < h.len() && h[k] == '\n';
        assert(h[k] == '\n');
    }
}

/// An empty line changes nothing.
pub proof fn lemma_read_empty(r: ReaderView)
    ensures
        read_line(r, Seq::empty()) == r,
{
}

/// The two words for a flag read back as the flag.
pub proof fn lemma_flag_word(on: bool)
    ensures
        is_true_word(flag_word(on)) == on,
        is_plain(flag_word(on)),
{
    reveal_strlit("true");
    reveal_strlit("false");
    let w = flag_word(on);
    if w.contains('\n') {
        let k = choose|k: int| 0 <= k < w.len() && w[k] == '\n';
        assert(w[k] == '\n');
    }
}

/// A line `key=value` holds no newline where neither side does.
pub proof fn lemma_key_value_lacks_newline(key: Seq<char>, value: Seq<char>)
    requires
        !key.contains('\n'),
        !value.contains('\n'),
    ensures
        !key_value(key, value).contains('\n'),
{
    let line = key_value(key, value);
    if line.contains('\n') {
        let k = choose|k: int| 0 <= k < line.len() && line[k] == '\n';
        if k < key.len() {
            assert(key[k] == '\n');
            assert(key.contains('\n'));
        } else if k > key.len() {
            assert(value[k - key.len() - 1] == '\n');
            assert(value.contains('\n'));
        }
    }
}

/// Two runs without newlines make one run without newlines.
pub proof fn lemma_none_contains_concat(a: Seq<Seq<char>>, b: Seq<Seq<char>>, c: char)
    requires
        none_contains(a, c),
        none_contains(b, c),
    ensures
        none_contains(a + b, c),
{
    assert forall|i: int| 0 <= i < (a + b).len() implies !(#[trigger] (a + b)[i]).contains(c) by {
        if i < a.len() {
            assert((a + b)[i] == a[i]);
        } else {
            assert((a + b)[i] == b[i - a.len()]);
        }
    }
}

/// One more step of a reading: a further run of lines after a prefix.
pub proof fn lemma_chain(
    start: ReaderView,
    prefix: Seq<Seq<char>>,
    run: Seq<Seq<char>>,
    mid: ReaderView,
    next: ReaderView,
)
    requires
        read_lines(start, prefix) == mid,
        read_lines(mid, run) == next,
        none_contains(prefix, '\n'),
        none_contains(run, '\n'),
    ensures
        read_lines(start, prefix + run) == next,
        none_contains(prefix + run, '\n'),
{
    lemma_read_concat(start, prefix, run);
    lemma_none_contains_concat(prefix, run, '\n');
}

} // verus!
