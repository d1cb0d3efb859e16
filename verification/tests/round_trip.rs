use desktop_entry::entry::DesktopEntry;
use desktop_entry::parse::parse_desktop_source;

fn pair(a: &str, b: &str) -> (String, String) {
    (a.to_string(), b.to_string())
}

fn strings(items: &[&str]) -> Vec<String> {
    items.iter().map(|s| s.to_string()).collect()
}

fn full() -> DesktopEntry {
    DesktopEntry {
        type_field: "Application".to_string(),
        name: "Text Editor".to_string(),
        generic_name: Some("Editor".to_string()),
        comment: Some("Edit = write; read".to_string()),
        exec_field: "edit --new=window %F".to_string(),
        icon: Some("/usr/share/icons/edit.png".to_string()),
        terminal: true,
        categories: strings(&["Office", "Utility", "Office"]),
        mime_type: strings(&["text/plain"]),
        keywords: strings(&["text", "edit or write"]),
        only_show_in: strings(&["GNOME", "XFCE"]),
        not_show_in: strings(&["KDE"]),
        no_display: false,
        startup_notify: true,
        try_exec: Some("edit".to_string()),
        path: Some("/home/user".to_string()),
        url: Some("".to_string()),
        actions: strings(&["New", "Open"]),
        extra: vec![pair("X-Vendor", "a=b"), pair("X-Vendor", ""), pair("[group", "x")],
        name_localized: vec![pair("fr", "Éditeur"), pair("fr", "Editeur"), pair("", "none")],
        generic_name_localized: vec![pair("de", "Texteditor")],
        comment_localized: vec![pair("pt_BR", "Editar"), pair(" x ", "spaced tag")],
    }
}

#[test]
fn a_full_entry_comes_back_as_it_was() {
    let e = full();
    assert_eq!(e.validate(), Ok(()));
    assert_eq!(parse_desktop_source(&e.to_ini_string()), e);
}

#[test]
fn what_is_dropped_comes_back_absent_or_empty() {
    let e = DesktopEntry {
        type_field: "Directory".to_string(),
        name: "Folder".to_string(),
        ..Default::default()
    };
    assert_eq!(e.validate(), Ok(()));
    let back = parse_desktop_source(&e.to_ini_string());
    assert_eq!(back, e);
    assert_eq!(back.generic_name, None);
    assert_eq!(back.comment, None);
    assert_eq!(back.icon, None);
    assert_eq!(back.try_exec, None);
    assert_eq!(back.path, None);
    assert_eq!(back.url, None);
    assert_eq!(back.exec_field, "");
    assert!(back.categories.is_empty());
    assert!(back.actions.is_empty());
    assert!(back.extra.is_empty());
}

#[test]
fn a_link_comes_back_as_it_was() {
    let e = DesktopEntry {
        type_field: "Link".to_string(),
        name: "Site".to_string(),
        url: Some("https://example.org/?a=b;c".to_string()),
        ..Default::default()
    };
    assert_eq!(e.validate(), Ok(()));
    assert_eq!(parse_desktop_source(&e.to_ini_string()), e);
}

#[test]
fn writing_what_was_read_gives_the_same_text() {
    for e in [full(), DesktopEntry {
        type_field: "Application".to_string(),
        name: "Padded".to_string(),
        exec_field: "  run me  ".to_string(),
        icon: Some(" icon ".to_string()),
        comment: Some("two\nlines".to_string()),
        extra: vec![pair(" ", "dropped"), pair(" X-Key ", " value ")],
        ..Default::default()
    }] {
        assert_eq!(e.validate(), Ok(()));
        let text = e.to_ini_string();
        assert_eq!(parse_desktop_source(&text).to_ini_string(), text);
    }
}

#[test]
fn an_escaped_newline_is_not_read_back_as_a_newline() {
    let e = DesktopEntry {
        type_field: "Directory".to_string(),
        name: "two\nlines".to_string(),
        ..Default::default()
    };
    let back = parse_desktop_source(&e.to_ini_string());
    assert_eq!(back.name, "two\\nlines");
}

#[test]
fn a_value_with_outer_whitespace_comes_back_trimmed() {
    let e = DesktopEntry {
        type_field: "Directory".to_string(),
        name: " padded ".to_string(),
        ..Default::default()
    };
    assert_eq!(e.validate(), Ok(()));
    let text = e.to_ini_string();
    let back = parse_desktop_source(&text);
    assert_eq!(back.name, "padded");
    assert_ne!(back.to_ini_string(), text);
}

#[test]
fn a_known_key_among_the_extra_pairs_is_read_as_that_key() {
    let e = DesktopEntry {
        type_field: "Directory".to_string(),
        name: "Folder".to_string(),
        extra: vec![pair("Name", "Other")],
        ..Default::default()
    };
    let back = parse_desktop_source(&e.to_ini_string());
    assert_eq!(back.name, "Other");
    assert!(back.extra.is_empty());
}
