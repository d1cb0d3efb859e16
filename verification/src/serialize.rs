//! The canonical text of an entry: a fixed sequence of `key=value` lines
//! under the `[Desktop Entry]` header, each ended by one newline.

use crate::entry::{option_view, pairs_view, strings_view, DesktopEntry, EntryView};
use crate::text::{extend_chars, is_blank, push_chars, to_chars, trim, trimmed};
use vstd::prelude::*;
use vstd::string::StringExecFns;

verus! {

// ---------------------------------------------------------------------------
// What the text is
// ---------------------------------------------------------------------------

/// `s` with every newline replaced by a backslash and the letter `n`. No
/// other character is changed.
pub open spec fn escaped(s: Seq<char>) -> Seq<char>
    decreases s.len(),
{
    if s.len() == 0 {
        Seq::empty()
    } else if s.last() == '\n' {
        escaped(s.drop_last()) + seq!['\\', 'n']
    } else {
        escaped(s.drop_last()).push(s.last())
    }
}

/// Every item followed by `sep`, in order.
pub open spec fn join_each(items: Seq<Seq<char>>, sep: char) -> Seq<char>
    decreases items.len(),
{
    if items.len() == 0 {
        Seq::empty()
    } else {
        join_each(items.drop_last(), sep) + items.last().push(sep)
    }
}

/// The line `key=value`, without its newline.
pub open spec fn key_value(key: Seq<char>, value: Seq<char>) -> Seq<char> {
    key + seq!['='] + value
}

/// The key `key[lang]`.
pub open spec fn localized_key(key: Seq<char>, lang: Seq<char>) -> Seq<char> {
    key + seq!['['] + lang + seq![']']
}

/// One line `key[lang]=value` per pair, in the stored order, the value
/// escaped.
pub open spec fn localized_lines(key: Seq<char>, pairs: Seq<(Seq<char>, Seq<char>)>) -> Seq<
    Seq<char>,
> {
    Seq::new(
        pairs.len(),
        |i: int| key_value(localized_key(key, pairs[i].0), escaped(pairs[i].1)),
    )
}

/// The line of a scalar that is written escaped, if it is present.
pub open spec fn escaped_line(key: Seq<char>, value: Option<Seq<char>>) -> Seq<Seq<char>> {
    match value {
        Some(v) => seq![key_value(key, escaped(v))],
        None => Seq::empty(),
    }
}

/// The line of a scalar that is written trimmed, if it is present.
pub open spec fn trimmed_line(key: Seq<char>, value: Option<Seq<char>>) -> Seq<Seq<char>> {
    match value {
        Some(v) => seq![key_value(key, trimmed(v))],
        None => Seq::empty(),
    }
}

/// The `Exec` line: written, trimmed, unless the command is empty.
pub open spec fn exec_line(command: Seq<char>) -> Seq<Seq<char>> {
    if command.len() == 0 {
        Seq::empty()
    } else {
        seq![key_value("Exec"@, trimmed(command))]
    }
}

/// The word for a flag.
pub open spec fn flag_word(on: bool) -> Seq<char> {
    if on {
        "true"@
    } else {
        "false"@
    }
}

/// The line of a list: every item followed by a semicolon, and no line at
/// all for an empty list.
pub open spec fn list_line(key: Seq<char>, items: Seq<Seq<char>>) -> Seq<Seq<char>> {
    if items.len() == 0 {
        Seq::empty()
    } else {
        seq![key_value(key, join_each(items, ';'))]
    }
}

/// One line per extra pair whose key is not blank, key and value trimmed, in
/// the stored order.
pub open spec fn extra_lines(pairs: Seq<(Seq<char>, Seq<char>)>) -> Seq<Seq<char>>
    decreases pairs.len(),
{
    if pairs.len() == 0 {
        Seq::empty()
    } else {
        let before = extra_lines(pairs.drop_last());
        let (k, v) = pairs.last();
        if is_blank(k) {
            before
        } else {
            before.push(key_value(trimmed(k), trimmed(v)))
        }
    }
}

/// The header, the type, and the name, generic name and comment, each
/// followed by its localized variants.
pub open spec fn name_lines(e: EntryView) -> Seq<Seq<char>> {
    seq!["[Desktop Entry]"@]
        + seq![key_value("Type"@, e.type_field)]
        + seq![key_value("Name"@, escaped(e.name))]
        + localized_lines("Name"@, e.name_localized)
        + escaped_line("GenericName"@, e.generic_name)
        + localized_lines("GenericName"@, e.generic_name_localized)
        + escaped_line("Comment"@, e.comment)
        + localized_lines("Comment"@, e.comment_localized)
}

/// What is launched and how: command, test command, icon, working directory
/// and link target.
pub open spec fn launch_lines(e: EntryView) -> Seq<Seq<char>> {
    exec_line(e.exec_field)
        + trimmed_line("TryExec"@, e.try_exec)
        + trimmed_line("Icon"@, e.icon)
        + trimmed_line("Path"@, e.path)
        + trimmed_line("URL"@, e.url)
}

/// The three flags, which are always written.
pub open spec fn flag_lines(e: EntryView) -> Seq<Seq<char>> {
    seq![key_value("Terminal"@, flag_word(e.terminal))]
        + seq![key_value("NoDisplay"@, flag_word(e.no_display))]
        + seq![key_value("StartupNotify"@, flag_word(e.startup_notify))]
}

/// The six lists, each written only if it is not empty.
pub open spec fn list_lines(e: EntryView) -> Seq<Seq<char>> {
    list_line("Categories"@, e.categories)
        + list_line("MimeType"@, e.mime_type)
        + list_line("Keywords"@, e.keywords)
        + list_line("OnlyShowIn"@, e.only_show_in)
        + list_line("NotShowIn"@, e.not_show_in)
        + list_line("Actions"@, e.actions)
}

/// The lines of an entry, in the order in which they are written.
pub open spec fn entry_lines(e: EntryView) -> Seq<Seq<char>> {
    name_lines(e) + launch_lines(e) + flag_lines(e) + list_lines(e) + extra_lines(e.extra)
}

/// The text of an entry: each of its lines followed by one newline.
pub open spec fn serialized(e: EntryView) -> Seq<char> {
    join_each(entry_lines(e), '\n')
}

/// Joining two runs of items one after the other is joining them as one.
pub proof fn lemma_join_each_concat(a: Seq<Seq<char>>, b: Seq<Seq<char>>, sep: char)
    ensures
        join_each(a + b, sep) == join_each(a, sep) + join_each(b, sep),
    decreases b.len(),
{
    if b.len() == 0 {
        assert(a + b =~= a);
        assert(join_each(a, sep) + join_each(b, sep) =~= join_each(a, sep));
    } else {
        assert((a + b).drop_last() =~= a + b.drop_last());
        assert((a + b).last() == b.last());
        lemma_join_each_concat(a, b.drop_last(), sep);
        assert(join_each(a + b, sep) =~= join_each(a, sep) + join_each(b, sep));
    }
}

/// One item joined is the item and its separator.
pub proof fn lemma_join_each_one(line: Seq<char>, sep: char)
    ensures
        join_each(seq![line], sep) == line.push(sep),
{
    assert(seq![line].drop_last() =~= Seq::<Seq<char>>::empty());
    assert(seq![line].last() == line);
    assert(join_each(seq![line].drop_last(), sep) =~= Seq::<char>::empty());
    assert(join_each(seq![line], sep) =~= line.push(sep));
}

/// One more run of lines after what has been written so far.
proof fn lemma_appended(
    start: Seq<char>,
    lines: Seq<Seq<char>>,
    run: Seq<Seq<char>>,
    before: Seq<char>,
    after: Seq<char>,
)
    requires
        before == start + join_each(lines, '\n'),
        after == before + join_each(run, '\n'),
    ensures
        after == start + join_each(lines + run, '\n'),
{
    lemma_join_each_concat(lines, run, '\n');
    assert(after =~= start + (join_each(lines, '\n') + join_each(run, '\n')));
}

// ---------------------------------------------------------------------------
// Writing it
// ---------------------------------------------------------------------------

/// `s` with every newline replaced by a backslash and the letter `n`.
pub fn escape_chars(s: &Vec<char>) -> (out: Vec<char>)
    ensures
        out@ == escaped(s@),
{
    let mut out: Vec<char> = Vec::new();
    let mut i: usize = 0;
    while i < s.len()
        invariant
            i <= s.len(),
            out@ == escaped(s@.take(i as int)),
        decreases s.len() - i,
    {
        proof {
            assert(s@.take(i + 1).drop_last() =~= s@.take(i as int));
        }
        if s[i] == '\n' {
            out.push('\\');
            out.push('n');
            assert(out@ =~= escaped(s@.take(i as int)) + seq!['\\', 'n']);
        } else {
            out.push(s[i]);
        }
        i += 1;
    }
    assert(s@.take(s.len() as int) =~= s@);
    out
}

/// `input` with every newline replaced by a backslash and the letter `n`.
pub fn escape(input: &str) -> (out: String)
    ensures
        out@ == escaped(input@),
{
    let cs = to_chars(input);
    let escaped = escape_chars(&cs);
    let mut out = String::new();
    push_chars(&mut out, &escaped);
    out
}

/// Appends the line `key=value` and its newline.
fn put_line(out: &mut String, key: &Vec<char>, value: &Vec<char>)
    ensures
        final(out)@ == old(out)@ + join_each(seq![key_value(key@, value@)], '\n'),
{
    push_chars(out, key);
    out.push('=');
    push_chars(out, value);
    out.push('\n');
    proof {
        lemma_join_each_one(key_value(key@, value@), '\n');
        assert(out@ =~= old(out)@ + key_value(key@, value@).push('\n'));
    }
}

/// Appends one line per localized pair.
fn put_localized(out: &mut String, key: &str, pairs: &Vec<(String, String)>)
    ensures
        final(out)@ == old(out)@ + join_each(localized_lines(key@, pairs_view(pairs@)), '\n'),
{
    let ghost all = localized_lines(key@, pairs_view(pairs@));
    let mut i: usize = 0;
    assert(all.take(0) =~= Seq::<Seq<char>>::empty());
    while i < pairs.len()
        invariant
            i <= pairs.len(),
            all == localized_lines(key@, pairs_view(pairs@)),
            out@ == old(out)@ + join_each(all.take(i as int), '\n'),
        decreases pairs.len() - i,
    {
        let mut full_key = to_chars(key);
        full_key.push('[');
        let lang = to_chars(pairs[i].0.as_str());
        extend_chars(&mut full_key, &lang);
        full_key.push(']');
        let value = escape_chars(&to_chars(pairs[i].1.as_str()));
        proof {
            assert(full_key@ =~= localized_key(key@, lang@));
            let line = key_value(full_key@, value@);
            assert(all[i as int] == line);
            assert(all.take(i + 1) =~= all.take(i as int) + seq![line]);
            lemma_join_each_concat(all.take(i as int), seq![line], '\n');
        }
        put_line(out, &full_key, &value);
        i += 1;
    }
    assert(all.take(pairs.len() as int) =~= all);
}

/// Appends the line of a scalar that is written escaped, if it is present.
fn put_escaped(out: &mut String, key: &str, value: &Option<String>)
    ensures
        final(out)@ == old(out)@ + join_each(
            escaped_line(key@, option_view(*value)),
            '\n',
        ),
{
    match value {
        Some(v) => {
            let text = escape_chars(&to_chars(v.as_str()));
            put_line(out, &to_chars(key), &text);
        },
        None => {
            assert(out@ =~= old(out)@ + join_each(Seq::empty(), '\n'));
        },
    }
}

/// Appends the line of a scalar that is written trimmed, if it is present.
fn put_trimmed(out: &mut String, key: &str, value: &Option<String>)
    ensures
        final(out)@ == old(out)@ + join_each(
            trimmed_line(key@, option_view(*value)),
            '\n',
        ),
{
    match value {
        Some(v) => {
            let text = trim(&to_chars(v.as_str()));
            put_line(out, &to_chars(key), &text);
        },
        None => {
            assert(out@ =~= old(out)@ + join_each(Seq::empty(), '\n'));
        },
    }
}

/// Appends the `Exec` line, unless the command is empty.
fn put_exec(out: &mut String, command: &str)
    ensures
        final(out)@ == old(out)@ + join_each(exec_line(command@), '\n'),
{
    if command.is_empty() {
        assert(out@ =~= old(out)@ + join_each(Seq::empty(), '\n'));
    } else {
        let text = trim(&to_chars(command));
        put_line(out, &to_chars("Exec"), &text);
    }
}

/// Appends the line of a flag.
fn put_flag(out: &mut String, key: &str, on: bool)
    ensures
        final(out)@ == old(out)@ + join_each(seq![key_value(key@, flag_word(on))], '\n'),
{
    let word = if on {
        to_chars("true")
    } else {
        to_chars("false")
    };
    put_line(out, &to_chars(key), &word);
}

/// Appends the line of a list, unless the list is empty.
fn put_list(out: &mut String, key: &str, items: &Vec<String>)
    ensures
        final(out)@ == old(out)@ + join_each(list_line(key@, strings_view(items@)), '\n'),
{
    if items.len() == 0 {
        assert(out@ =~= old(out)@ + join_each(Seq::empty(), '\n'));
        return ;
    }
    let ghost all = strings_view(items@);
    let mut joined: Vec<char> = Vec::new();
    let mut i: usize = 0;
    assert(all.take(0) =~= Seq::<Seq<char>>::empty());
    while i < items.len()
        invariant
            i <= items.len(),
            all == strings_view(items@),
            joined@ == join_each(all.take(i as int), ';'),
        decreases items.len() - i,
    {
        let item = to_chars(items[i].as_str());
        let ghost before = joined@;
        extend_chars(&mut joined, &item);
        joined.push(';');
        proof {
            assert(all.take(i + 1).drop_last() =~= all.take(i as int));
            assert(all.take(i + 1).last() == item@);
            assert(joined@ =~= before + item@.push(';'));
        }
        i += 1;
    }
    assert(all.take(items.len() as int) =~= all);
    put_line(out, &to_chars(key), &joined);
}

/// Appends one line per extra pair whose key is not blank.
fn put_extra(out: &mut String, pairs: &Vec<(String, String)>)
    ensures
        final(out)@ == old(out)@ + join_each(extra_lines(pairs_view(pairs@)), '\n'),
{
    let ghost all = pairs_view(pairs@);
    let mut i: usize = 0;
    assert(all.take(0) =~= Seq::<(Seq<char>, Seq<char>)>::empty());
    assert(out@ =~= old(out)@ + join_each(Seq::empty(), '\n'));
    while i < pairs.len()
        invariant
            i <= pairs.len(),
            all == pairs_view(pairs@),
            out@ == old(out)@ + join_each(extra_lines(all.take(i as int)), '\n'),
        decreases pairs.len() - i,
    {
        let key = trim(&to_chars(pairs[i].0.as_str()));
        proof {
            assert(all.take(i + 1).drop_last() =~= all.take(i as int));
            assert(all.take(i + 1).last() == all[i as int]);
        }
        if key.len() != 0 {
            let value = trim(&to_chars(pairs[i].1.as_str()));
            proof {
                let line = key_value(key@, value@);
                let before = extra_lines(all.take(i as int));
                assert(extra_lines(all.take(i + 1)) =~= before + seq![line]);
                lemma_join_each_concat(before, seq![line], '\n');
            }
            put_line(out, &key, &value);
        }
        i += 1;
    }
    assert(all.take(pairs.len() as int) =~= all);
}

/// Appends the header, the type and the three names with their variants.
fn put_names(out: &mut String, entry: &DesktopEntry)
    ensures
        final(out)@ == old(out)@ + join_each(name_lines(entry@), '\n'),
{
    let ghost e = entry@;
    let ghost mut lines: Seq<Seq<char>> = seq!["[Desktop Entry]"@];
    out.append("[Desktop Entry]");
    out.push('\n');
    proof {
        lemma_join_each_one("[Desktop Entry]"@, '\n');
        assert(out@ =~= old(out)@ + join_each(lines, '\n'));
    }

    let ghost before = out@;
    put_line(out, &to_chars("Type"), &to_chars(entry.type_field.as_str()));
    proof {
        let run = seq![key_value("Type"@, e.type_field)];
        lemma_appended(old(out)@, lines, run, before, out@);
        lines = lines + run;
    }

    let ghost before = out@;
    put_line(out, &to_chars("Name"), &escape_chars(&to_chars(entry.name.as_str())));
    proof {
        let run = seq![key_value("Name"@, escaped(e.name))];
        lemma_appended(old(out)@, lines, run, before, out@);
        lines = lines + run;
    }

    let ghost before = out@;
    put_localized(out, "Name", &entry.name_localized);
    proof {
        let run = localized_lines("Name"@, e.name_localized);
        lemma_appended(old(out)@, lines, run, before, out@);
        lines = lines + run;
    }

    let ghost before = out@;
    put_escaped(out, "GenericName", &entry.generic_name);
    proof {
        let run = escaped_line("GenericName"@, e.generic_name);
        lemma_appended(old(out)@, lines, run, before, out@);
        lines = lines + run;
    }

    let ghost before = out@;
    put_localized(out, "GenericName", &entry.generic_name_localized);
    proof {
        let run = localized_lines("GenericName"@, e.generic_name_localized);
        lemma_appended(old(out)@, lines, run, before, out@);
        lines = lines + run;
    }

    let ghost before = out@;
    put_escaped(out, "Comment", &entry.comment);
    proof {
        let run = escaped_line("Comment"@, e.comment);
        lemma_appended(old(out)@, lines, run, before, out@);
        lines = lines + run;
    }

    let ghost before = out@;
    put_localized(out, "Comment", &entry.comment_localized);
    proof {
        let run = localized_lines("Comment"@, e.comment_localized);
        lemma_appended(old(out)@, lines, run, before, out@);
        lines = lines + run;
    }
}

/// Appends the command, the test command, the icon, the working directory
/// and the link target.
fn put_launch(out: &mut String, entry: &DesktopEntry)
    ensures
        final(out)@ == old(out)@ + join_each(launch_lines(entry@), '\n'),
{
    let ghost e = entry@;
    let ghost mut lines: Seq<Seq<char>> = exec_line(e.exec_field);
    put_exec(out, entry.exec_field.as_str());

    let ghost before = out@;
    put_trimmed(out, "TryExec", &entry.try_exec);
    proof {
        let run = trimmed_line("TryExec"@, e.try_exec);
        lemma_appended(old(out)@, lines, run, before, out@);
        lines = lines + run;
    }

    let ghost before = out@;
    put_trimmed(out, "Icon", &entry.icon);
    proof {
        let run = trimmed_line("Icon"@, e.icon);
        lemma_appended(old(out)@, lines, run, before, out@);
        lines = lines + run;
    }

    let ghost before = out@;
    put_trimmed(out, "Path", &entry.path);
    proof {
        let run = trimmed_line("Path"@, e.path);
        lemma_appended(old(out)@, lines, run, before, out@);
        lines = lines + run;
    }

    let ghost before = out@;
    put_trimmed(out, "URL", &entry.url);
    proof {
        let run = trimmed_line("URL"@, e.url);
        lemma_appended(old(out)@, lines, run, before, out@);
        lines = lines + run;
    }
}

/// Appends the three flags.
fn put_flags(out: &mut String, entry: &DesktopEntry)
    ensures
        final(out)@ == old(out)@ + join_each(flag_lines(entry@), '\n'),
{
    let ghost e = entry@;
    let ghost mut lines: Seq<Seq<char>> = seq![key_value("Terminal"@, flag_word(e.terminal))];
    put_flag(out, "Terminal", entry.terminal);

    let ghost before = out@;
    put_flag(out, "NoDisplay", entry.no_display);
    proof {
        let run = seq![key_value("NoDisplay"@, flag_word(e.no_display))];
        lemma_appended(old(out)@, lines, run, before, out@);
        lines = lines + run;
    }

    let ghost before = out@;
    put_flag(out, "StartupNotify", entry.startup_notify);
    proof {
        let run = seq![key_value("StartupNotify"@, flag_word(e.startup_notify))];
        lemma_appended(old(out)@, lines, run, before, out@);
        lines = lines + run;
    }
}

/// Appends the six lists.
fn put_lists(out: &mut String, entry: &DesktopEntry)
    ensures
        final(out)@ == old(out)@ + join_each(list_lines(entry@), '\n'),
{
    let ghost e = entry@;
    let ghost mut lines: Seq<Seq<char>> = list_line("Categories"@, e.categories);
    put_list(out, "Categories", &entry.categories);

    let ghost before = out@;
    put_list(out, "MimeType", &entry.mime_type);
    proof {
        let run = list_line("MimeType"@, e.mime_type);
        lemma_appended(old(out)@, lines, run, before, out@);
        lines = lines + run;
    }

    let ghost before = out@;
    put_list(out, "Keywords", &entry.keywords);
    proof {
        let run = list_line("Keywords"@, e.keywords);
        lemma_appended(old(out)@, lines, run, before, out@);
        lines = lines + run;
    }

    let ghost before = out@;
    put_list(out, "OnlyShowIn", &entry.only_show_in);
    proof {
        let run = list_line("OnlyShowIn"@, e.only_show_in);
        lemma_appended(old(out)@, lines, run, before, out@);
        lines = lines + run;
    }

    let ghost before = out@;
    put_list(out, "NotShowIn", &entry.not_show_in);
    proof {
        let run = list_line("NotShowIn"@, e.not_show_in);
        lemma_appended(old(out)@, lines, run, before, out@);
        lines = lines + run;
    }

    let ghost before = out@;
    put_list(out, "Actions", &entry.actions);
    proof {
        let run = list_line("Actions"@, e.actions);
        lemma_appended(old(out)@, lines, run, before, out@);
        lines = lines + run;
    }
}

impl DesktopEntry {
    /// The text of the entry.
    ///
    /// Never fails: an entry that does not pass [`DesktopEntry::validate`] is
    /// written all the same, with whatever its fields hold.
    pub fn to_ini_string(&self) -> (out: String)
        ensures
            out@ == serialized(self@),
    {
        let mut out = String::new();
        let ghost e = self@;
        let ghost mut lines: Seq<Seq<char>> = name_lines(e);
        put_names(&mut out, self);

        let ghost before = out@;
        put_launch(&mut out, self);
        proof {
            let run = launch_lines(e);
            lemma_appended(Seq::<char>::empty(), lines, run, before, out@);
            lines = lines + run;
        }

        let ghost before = out@;
        put_flags(&mut out, self);
        proof {
            let run = flag_lines(e);
            lemma_appended(Seq::<char>::empty(), lines, run, before, out@);
            lines = lines + run;
        }

        let ghost before = out@;
        put_lists(&mut out, self);
        proof {
            let run = list_lines(e);
            lemma_appended(Seq::<char>::empty(), lines, run, before, out@);
            lines = lines + run;
        }

        let ghost before = out@;
        put_extra(&mut out, &self.extra);
        proof {
            let run = extra_lines(e.extra);
            lemma_appended(Seq::<char>::empty(), lines, run, before, out@);
            lines = lines + run;
        }

        assert(out@ =~= join_each(lines, '\n'));
        out
    }
}

} // verus!
