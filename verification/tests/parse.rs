use desktop_entry::entry::DesktopEntry;
use desktop_entry::parse::{classify, parse_desktop_source, read_list, says_true, KeyKind};

fn pair(a: &str, b: &str) -> (String, String) {
    (a.to_string(), b.to_string())
}

fn chars(s: &str) -> Vec<char> {
    s.chars().collect()
}

fn application() -> DesktopEntry {
    DesktopEntry { type_field: "Application".to_string(), ..Default::default() }
}

#[test]
fn empty_text_is_an_empty_application() {
    assert_eq!(parse_desktop_source(""), application());
    assert_eq!(parse_desktop_source("\n\n  \n"), application());
}

#[test]
fn scalars_are_read_and_the_last_one_wins() {
    let text = "[Desktop Entry]\nType=Link\nName=One\nName=Two\nGenericName=G\nComment=C\nExec=run\nTryExec=try\nIcon=i\nPath=/p\nURL=u\nType=Directory\n";
    let e = parse_desktop_source(text);
    assert_eq!(e.type_field, "Directory");
    assert_eq!(e.name, "Two");
    assert_eq!(e.generic_name, Some("G".to_string()));
    assert_eq!(e.comment, Some("C".to_string()));
    assert_eq!(e.exec_field, "run");
    assert_eq!(e.try_exec, Some("try".to_string()));
    assert_eq!(e.icon, Some("i".to_string()));
    assert_eq!(e.path, Some("/p".to_string()));
    assert_eq!(e.url, Some("u".to_string()));
    assert!(e.extra.is_empty());
}

#[test]
fn keys_and_values_are_trimmed_and_cut_at_the_first_equals_sign() {
    let e = parse_desktop_source("  [Desktop Entry]  \n  Name  =  a = b  \r\n\tExec\t=\tx=y\t\n");
    assert_eq!(e.name, "a = b");
    assert_eq!(e.exec_field, "x=y");
}

#[test]
fn nothing_is_unescaped() {
    let e = parse_desktop_source("[Desktop Entry]\nName=a\\nb\n");
    assert_eq!(e.name, "a\\nb");
}

#[test]
fn same_tag_twice_keeps_both_pairs_in_order() {
    let e = parse_desktop_source("[Desktop Entry]\nName[fr]=Bonjour\nName[fr]=Salut\n");
    assert_eq!(e.name_localized, vec![pair("fr", "Bonjour"), pair("fr", "Salut")]);
    assert_eq!(e.name_localized.len(), 2);
    assert_eq!(e.name, "");
}

#[test]
fn localized_keys_of_all_three_fields() {
    let text = "[Desktop Entry]\nName[de]=N\nGenericName[de]=G\nComment[de]=C\nComment[pt_BR]=D\nName[]=empty tag\nIcon[de]=not localized\n";
    let e = parse_desktop_source(text);
    assert_eq!(e.name_localized, vec![pair("de", "N"), pair("", "empty tag")]);
    assert_eq!(e.generic_name_localized, vec![pair("de", "G")]);
    assert_eq!(e.comment_localized, vec![pair("de", "C"), pair("pt_BR", "D")]);
    assert_eq!(e.extra, vec![pair("Icon[de]", "not localized")]);
}

#[test]
fn odd_localized_keys() {
    let text = "[Desktop Entry]\nName[Name[x]]=a\nName[=b\nName[y=c]\nName [z]=d\n";
    let e = parse_desktop_source(text);
    assert_eq!(e.name_localized, vec![pair("x", "a")]);
    assert_eq!(e.extra, vec![pair("Name[", "b"), pair("Name[y", "c]"), pair("Name [z]", "d")]);
}

#[test]
fn flags_compare_with_true_in_any_case() {
    let e = parse_desktop_source(
        "[Desktop Entry]\nTerminal=TRUE\nNoDisplay=tRuE\nStartupNotify=yes\n",
    );
    assert!(e.terminal);
    assert!(e.no_display);
    assert!(!e.startup_notify);
    let e = parse_desktop_source("[Desktop Entry]\nTerminal=true\nTerminal=1\nNoDisplay=true \n");
    assert!(!e.terminal);
    assert!(e.no_display);
    assert!(says_true(&chars("True")));
    assert!(!says_true(&chars("true!")));
    assert!(!says_true(&chars("tru")));
    assert!(!says_true(&chars("")));
}

#[test]
fn a_list_is_split_trimmed_and_cleaned() {
    let e = parse_desktop_source("[Desktop Entry]\nCategories=Office;Utility;\n");
    assert_eq!(e.categories, vec!["Office".to_string(), "Utility".to_string()]);
    let e = parse_desktop_source("[Desktop Entry]\nKeywords= a ; ;b;;  c\n");
    assert_eq!(e.keywords, vec!["a".to_string(), "b".to_string(), "c".to_string()]);
    let got = read_list(&chars(";;"));
    assert!(got.is_empty());
    assert_eq!(read_list(&chars("x")), vec!["x".to_string()]);
}

#[test]
fn a_later_list_replaces_an_earlier_one() {
    let e = parse_desktop_source(
        "[Desktop Entry]\nMimeType=a;b;\nMimeType=c;\nActions=x;\nActions=\nOnlyShowIn=G;\nNotShowIn=K;\n",
    );
    assert_eq!(e.mime_type, vec!["c".to_string()]);
    assert!(e.actions.is_empty());
    assert_eq!(e.only_show_in, vec!["G".to_string()]);
    assert_eq!(e.not_show_in, vec!["K".to_string()]);
}

#[test]
fn unknown_keys_are_kept_in_order_and_never_merged() {
    let e = parse_desktop_source("[Desktop Entry]\nX-A=1\nX-B=2\nX-A=3\n=4\nname=lower\n");
    assert_eq!(
        e.extra,
        vec![pair("X-A", "1"), pair("X-B", "2"), pair("X-A", "3"), pair("", "4"), pair("name", "lower")]
    );
}

#[test]
fn comments_blank_lines_and_lines_without_equals_are_passed_over() {
    let e = parse_desktop_source(
        "[Desktop Entry]\n# Name=no\n; Name=no\n\n   \njust words\nName=yes\n  #Exec=no\n",
    );
    assert_eq!(e.name, "yes");
    assert_eq!(e.exec_field, "");
    assert!(e.extra.is_empty());
}

#[test]
fn keys_before_the_header_are_passed_over() {
    let e = parse_desktop_source("Name=early\n[Desktop Entry]\nExec=run\n");
    assert_eq!(e.name, "");
    assert_eq!(e.exec_field, "run");
}

#[test]
fn an_unknown_section_is_passed_over() {
    let e = parse_desktop_source("[Unknown Section]\nName=x\nType=Link\nX-Key=1\nCategories=a;\n");
    assert_eq!(e, application());
}

#[test]
fn another_header_switches_reading_off_until_the_right_one_returns() {
    let text = "[Desktop Entry]\nName=a\n[Desktop Action New]\nName=b\nExec=c\n[Desktop Entry]\nIcon=d\n[]\nIcon=e\n";
    let e = parse_desktop_source(text);
    assert_eq!(e.name, "a");
    assert_eq!(e.exec_field, "");
    assert_eq!(e.icon, Some("d".to_string()));
}

#[test]
fn the_header_is_matched_exactly() {
    let e = parse_desktop_source("[desktop entry]\nName=a\n");
    assert_eq!(e.name, "");
    let e = parse_desktop_source("[Desktop Entry] \nName=a\n");
    assert_eq!(e.name, "a");
    let e = parse_desktop_source("[ Desktop Entry ]\nName=a\n");
    assert_eq!(e.name, "");
}

#[test]
fn a_line_in_brackets_is_a_header_even_with_an_equals_sign() {
    let e = parse_desktop_source("[Desktop Entry]\n[a=b]\nName=x\n");
    assert_eq!(e.name, "");
    assert!(e.extra.is_empty());
}

#[test]
fn an_empty_type_becomes_application() {
    let e = parse_desktop_source("[Desktop Entry]\nType=\nName=x\n");
    assert_eq!(e.type_field, "Application");
    let e = parse_desktop_source("[Desktop Entry]\nType=Whatever\n");
    assert_eq!(e.type_field, "Whatever");
}

#[test]
fn the_last_line_needs_no_newline() {
    let e = parse_desktop_source("[Desktop Entry]\nName=x");
    assert_eq!(e.name, "x");
}

#[test]
fn classify_knows_every_key() {
    let cases = [
        ("Type", KeyKind::Type),
        ("Name", KeyKind::Name),
        ("Name[fr]", KeyKind::NameLocalized),
        ("GenericName", KeyKind::GenericName),
        ("GenericName[fr]", KeyKind::GenericNameLocalized),
        ("Comment", KeyKind::Comment),
        ("Comment[fr]", KeyKind::CommentLocalized),
        ("Exec", KeyKind::Exec),
        ("TryExec", KeyKind::TryExec),
        ("Icon", KeyKind::Icon),
        ("Path", KeyKind::Path),
        ("URL", KeyKind::Url),
        ("Terminal", KeyKind::Terminal),
        ("NoDisplay", KeyKind::NoDisplay),
        ("StartupNotify", KeyKind::StartupNotify),
        ("Categories", KeyKind::Categories),
        ("MimeType", KeyKind::MimeType),
        ("Keywords", KeyKind::Keywords),
        ("OnlyShowIn", KeyKind::OnlyShowIn),
        ("NotShowIn", KeyKind::NotShowIn),
        ("Actions", KeyKind::Actions),
        ("Url", KeyKind::Other),
        ("type", KeyKind::Other),
        ("Name[", KeyKind::Other),
        ("Name]", KeyKind::Other),
        ("", KeyKind::Other),
        ("X-Anything", KeyKind::Other),
    ];
    for (key, kind) in cases {
        assert_eq!(classify(&chars(key)), kind, "{}", key);
    }
}

// A second reader, written with the string methods of the standard library,
// against which the library's reader is compared.
fn reference(content: &str) -> DesktopEntry {
    let list = |v: &str| -> Vec<String> {
        v.split(';').map(|p| p.trim().to_string()).filter(|p| !p.is_empty()).collect()
    };
    let mut entry = DesktopEntry::default();
    let mut active = false;
    for line in content.lines() {
        let line = line.trim();
        if line.is_empty() || line.starts_with('#') || line.starts_with(';') {
            continue;
        }
        if line.starts_with('[') && line.ends_with(']') {
            active = line == "[Desktop Entry]";
            continue;
        }
        if !active {
            continue;
        }
        if let Some((k, v)) = line.split_once('=') {
            let key = k.trim();
            let val = v.trim().to_string();
            let tag = |prefix: &str| -> String {
                key.trim_start_matches(prefix).trim_end_matches("]").to_string()
            };
            match key {
                "Type" => entry.type_field = val,
                "Name" => entry.name = val,
                _ if key.starts_with("Name[") && key.ends_with("]") => {
                    entry.name_localized.push((tag("Name["), val))
                }
                "GenericName" => entry.generic_name = Some(val),
                _ if key.starts_with("GenericName[") && key.ends_with("]") => {
                    entry.generic_name_localized.push((tag("GenericName["), val))
                }
                "Comment" => entry.comment = Some(val),
                _ if key.starts_with("Comment[") && key.ends_with("]") => {
                    entry.comment_localized.push((tag("Comment["), val))
                }
                "Exec" => entry.exec_field = val,
                "TryExec" => entry.try_exec = Some(val),
                "Icon" => entry.icon = Some(val),
                "Path" => entry.path = Some(val),
                "URL" => entry.url = Some(val),
                "Terminal" => entry.terminal = val.eq_ignore_ascii_case("true"),
                "NoDisplay" => entry.no_display = val.eq_ignore_ascii_case("true"),
                "StartupNotify" => entry.startup_notify = val.eq_ignore_ascii_case("true"),
                "Categories" => entry.categories = list(&val),
                "MimeType" => entry.mime_type = list(&val),
                "Keywords" => entry.keywords = list(&val),
                "OnlyShowIn" => entry.only_show_in = list(&val),
                "NotShowIn" => entry.not_show_in = list(&val),
                "Actions" => entry.actions = list(&val),
                _ => entry.extra.push((key.to_string(), val)),
            }
        }
    }
    if entry.type_field.is_empty() {
        entry.type_field = "Application".to_string();
    }
    entry
}

#[test]
fn the_reader_agrees_with_one_written_with_the_standard_library() {
    let texts = [
        "",
        "\n",
        "\r\n",
        "[Desktop Entry]",
        "[Desktop Entry]\r\nName=a\r\nExec=b\r\n",
        "[Desktop Entry]\rName=a\r",
        "[Desktop Entry]\nName=a\r\r\nIcon=\rb\n",
        "[Desktop Entry]\n\u{00A0}Name\u{2003}=\u{3000}a\u{0085}\n",
        "[Desktop Entry]\nName[Name[Name[x]]]=deep\nComment[]]]=c\nGenericName[GenericName[]=g\n",
        "[Desktop Entry]\nName[ fr ]=spaces\nName[a]b]=inner\n",
        "[Desktop Entry]\n[x\nName=1\nx]\nName=2\n[\n]\n[]\nName=3\n",
        "[Desktop Entry]\n=\n==\n= =\nA=\n=B\n",
        "[Desktop Entry]\nTerminal=TrUe\nNoDisplay=ｔrue\nStartupNotify=true\u{200B}\n",
        "[Desktop Entry]\nCategories=;\nMimeType=;;a;;\nKeywords=\u{00A0};b\n",
        "#\n;\n[Desktop Entry]\n#[Other]\nName=kept on\n",
        "[Other]\n[Desktop Entry]\n[Other]\n[Desktop Entry]\nName=x\n",
        "Type=Link\n[Desktop Entry]\n[Desktop Entry]x\nName=y\n",
        "[Desktop Entry]\nName=é\u{1F600}=x\nÉ=é\n",
        "[Desktop Entry]\n\n\n\nName=a\n\n\n",
    ];
    for text in texts {
        assert_eq!(parse_desktop_source(text), reference(text), "{:?}", text);
    }
}
