use desktop_entry::entry::DesktopEntry;
use desktop_entry::serialize::{escape, escape_chars};

fn pair(a: &str, b: &str) -> (String, String) {
    (a.to_string(), b.to_string())
}

#[test]
fn escape_replaces_newlines_only() {
    assert_eq!(escape("a\nb"), "a\\nb");
    assert_eq!(escape("\n\n"), "\\n\\n");
    assert_eq!(escape("tab\tquote\"back\\slash\r"), "tab\tquote\"back\\slash\r");
    assert_eq!(escape(""), "");
    let v: Vec<char> = "x\ny".chars().collect();
    let got: String = escape_chars(&v).iter().collect();
    assert_eq!(got, "x\\ny");
}

#[test]
fn scalar_lines_of_a_small_application() {
    let e = DesktopEntry {
        type_field: "Application".to_string(),
        name: "Editor".to_string(),
        exec_field: "edit %F".to_string(),
        terminal: true,
        ..Default::default()
    };
    let text = e.to_ini_string();
    assert_eq!(
        text,
        "[Desktop Entry]\nType=Application\nName=Editor\nExec=edit %F\nTerminal=true\nNoDisplay=false\nStartupNotify=false\n"
    );
    let lines: Vec<&str> = text.lines().collect();
    for wanted in [
        "Type=Application",
        "Name=Editor",
        "Exec=edit %F",
        "Terminal=true",
        "NoDisplay=false",
        "StartupNotify=false",
    ] {
        assert!(lines.contains(&wanted), "{}", wanted);
    }
    for l in &lines {
        assert!(!l.starts_with("GenericName"));
        assert!(!l.starts_with("Icon"));
        assert!(!l.starts_with("Categories"));
        assert!(!l.starts_with("MimeType"));
        assert!(!l.starts_with("Keywords"));
        assert!(!l.starts_with("OnlyShowIn"));
        assert!(!l.starts_with("NotShowIn"));
        assert!(!l.starts_with("Actions"));
    }
}

#[test]
fn every_line_in_its_place() {
    let e = DesktopEntry {
        type_field: "Link".to_string(),
        name: "Site\nof the day".to_string(),
        generic_name: Some("Web\nsite".to_string()),
        comment: Some("".to_string()),
        exec_field: "  run it  ".to_string(),
        icon: Some(" globe ".to_string()),
        terminal: false,
        categories: vec!["Network".to_string(), "Web".to_string()],
        mime_type: vec!["text/html".to_string()],
        keywords: vec!["a".to_string(), "b".to_string(), "a".to_string()],
        only_show_in: vec!["GNOME".to_string()],
        not_show_in: vec!["KDE".to_string()],
        no_display: true,
        startup_notify: true,
        try_exec: Some(" run ".to_string()),
        path: Some("/tmp ".to_string()),
        url: Some(" https://example.org".to_string()),
        actions: vec!["New".to_string()],
        extra: vec![pair(" X-Vendor ", " yes "), pair("  ", "dropped"), pair("X-Other", "")],
        name_localized: vec![pair("fr", "Site\ndu jour"), pair("de", "Seite")],
        generic_name_localized: vec![pair("fr", "Site web")],
        comment_localized: vec![pair("fr", "Rien"), pair("fr", "Encore")],
    };
    let lines = [
        "[Desktop Entry]",
        "Type=Link",
        "Name=Site\\nof the day",
        "Name[fr]=Site\\ndu jour",
        "Name[de]=Seite",
        "GenericName=Web\\nsite",
        "GenericName[fr]=Site web",
        "Comment=",
        "Comment[fr]=Rien",
        "Comment[fr]=Encore",
        "Exec=run it",
        "TryExec=run",
        "Icon=globe",
        "Path=/tmp",
        "URL=https://example.org",
        "Terminal=false",
        "NoDisplay=true",
        "StartupNotify=true",
        "Categories=Network;Web;",
        "MimeType=text/html;",
        "Keywords=a;b;a;",
        "OnlyShowIn=GNOME;",
        "NotShowIn=KDE;",
        "Actions=New;",
        "X-Vendor=yes",
        "X-Other=",
    ];
    let want = lines.join("\n") + "\n";
    assert_eq!(e.to_ini_string(), want);
}

#[test]
fn an_invalid_entry_is_written_all_the_same() {
    let e = DesktopEntry::default();
    assert!(e.validate().is_err());
    assert_eq!(
        e.to_ini_string(),
        "[Desktop Entry]\nType=\nName=\nTerminal=false\nNoDisplay=false\nStartupNotify=false\n"
    );
}

#[test]
fn a_blank_command_is_written_as_an_empty_one() {
    let e = DesktopEntry { exec_field: "   ".to_string(), ..Default::default() };
    assert!(e.to_ini_string().contains("\nExec=\n"));
}

#[test]
fn a_list_is_written_with_its_trailing_separator() {
    let e = DesktopEntry {
        categories: vec!["Office".to_string(), "Utility".to_string()],
        ..Default::default()
    };
    let text = e.to_ini_string();
    assert!(text.lines().any(|l| l == "Categories=Office;Utility;"));
}

#[test]
fn the_text_starts_with_the_header_and_ends_with_a_newline() {
    let e = DesktopEntry { name: "x".to_string(), ..Default::default() };
    let text = e.to_ini_string();
    assert!(text.starts_with("[Desktop Entry]\n"));
    assert!(text.ends_with('\n'));
    assert!(!text.ends_with("\n\n"));
}
