use desktop_entry::entry::{DesktopEntry, ValidationError};
use desktop_entry::form::{
    collect_entry, icon_preview, opt_text, parse_kv_lines, parse_lang_lines, read_form,
    set_form_from_entry, split_semicolon, type_index, type_label, update_source, FormValues,
    IconPreview,
};

fn pair(a: &str, b: &str) -> (String, String) {
    (a.to_string(), b.to_string())
}

fn blank_form() -> FormValues {
    FormValues {
        type_text: None,
        name: String::new(),
        generic_name: String::new(),
        comment: String::new(),
        exec_field: String::new(),
        icon: String::new(),
        terminal: false,
        no_display: false,
        startup_notify: false,
        categories: String::new(),
        mime_type: String::new(),
        keywords: String::new(),
        only_show_in: String::new(),
        not_show_in: String::new(),
        try_exec: String::new(),
        path: String::new(),
        url: String::new(),
        actions: String::new(),
        name_localized: String::new(),
        generic_name_localized: String::new(),
        comment_localized: String::new(),
        extra: String::new(),
    }
}

#[test]
fn split_semicolon_trims_and_drops_empty_pieces() {
    assert_eq!(split_semicolon("Office;Utility;"), vec!["Office".to_string(), "Utility".to_string()]);
    assert_eq!(split_semicolon(" a ;; b "), vec!["a".to_string(), "b".to_string()]);
    assert!(split_semicolon("").is_empty());
    assert!(split_semicolon(" ; ;").is_empty());
}

#[test]
fn opt_text_is_absent_for_blank_text() {
    assert_eq!(opt_text(""), None);
    assert_eq!(opt_text("  \t"), None);
    assert_eq!(opt_text("  x y "), Some("x y".to_string()));
}

#[test]
fn parse_lang_lines_needs_a_tag_and_a_value() {
    let text = "fr=Bonjour\n\n de = Hallo \r\nno equals\n=x\nit=\nfr=Salut=Ciao\n";
    assert_eq!(
        parse_lang_lines(text),
        vec![pair("fr", "Bonjour"), pair("de", "Hallo"), pair("fr", "Salut=Ciao")]
    );
    assert!(parse_lang_lines("").is_empty());
}

#[test]
fn parse_kv_lines_needs_a_key_only() {
    let text = "X-A=1\nX-B=\n=3\n   \nplain\n X-C = 4 = 5 ";
    assert_eq!(parse_kv_lines(text), vec![pair("X-A", "1"), pair("X-B", ""), pair("X-C", "4 = 5")]);
}

#[test]
fn read_form_takes_every_control() {
    let mut f = blank_form();
    f.type_text = Some("Link".to_string());
    f.name = " Site ".to_string();
    f.generic_name = " g ".to_string();
    f.exec_field = " run ".to_string();
    f.terminal = true;
    f.startup_notify = true;
    f.categories = "a; b".to_string();
    f.actions = "x;".to_string();
    f.url = "u".to_string();
    f.name_localized = "fr=S".to_string();
    f.comment_localized = "de=K\nit=".to_string();
    f.extra = "X=1".to_string();
    let e = read_form(&f);
    assert_eq!(e.type_field, "Link");
    assert_eq!(e.name, " Site ");
    assert_eq!(e.generic_name, Some("g".to_string()));
    assert_eq!(e.comment, None);
    assert_eq!(e.exec_field, " run ");
    assert_eq!(e.icon, None);
    assert!(e.terminal && !e.no_display && e.startup_notify);
    assert_eq!(e.categories, vec!["a".to_string(), "b".to_string()]);
    assert_eq!(e.actions, vec!["x".to_string()]);
    assert_eq!(e.url, Some("u".to_string()));
    assert_eq!(e.name_localized, vec![pair("fr", "S")]);
    assert_eq!(e.comment_localized, vec![pair("de", "K")]);
    assert_eq!(e.extra, vec![pair("X", "1")]);
}

#[test]
fn a_form_without_a_selected_type_is_an_application() {
    let e = read_form(&blank_form());
    assert_eq!(e.type_field, "Application");
}

#[test]
fn collect_entry_gives_the_entry_or_the_reason() {
    let mut f = blank_form();
    assert_eq!(collect_entry(&f), Err(ValidationError::MissingName));
    f.name = "Editor".to_string();
    assert_eq!(collect_entry(&f), Err(ValidationError::MissingExec));
    f.exec_field = "edit".to_string();
    let e = collect_entry(&f).unwrap();
    assert_eq!(e, read_form(&f));
    f.type_text = Some("Link".to_string());
    assert_eq!(collect_entry(&f), Err(ValidationError::MissingUrl));
    f.type_text = Some("".to_string());
    assert_eq!(collect_entry(&f), Err(ValidationError::MissingType));
}

#[test]
fn update_source_shows_an_invalid_form_too() {
    let f = blank_form();
    assert!(collect_entry(&f).is_err());
    assert_eq!(
        update_source(&f),
        "[Desktop Entry]\nType=Application\nName=\nTerminal=false\nNoDisplay=false\nStartupNotify=false\n"
    );
}

#[test]
fn type_positions() {
    assert_eq!(type_index("Application"), 0);
    assert_eq!(type_index("Link"), 1);
    assert_eq!(type_index("Directory"), 2);
    assert_eq!(type_index("Other"), 0);
    assert_eq!(type_index(""), 0);
    assert_eq!(type_label(0), "Application");
    assert_eq!(type_label(1), "Link");
    assert_eq!(type_label(2), "Directory");
    assert_eq!(type_label(7), "Application");
}

#[test]
fn set_form_from_entry_fills_every_control() {
    let e = DesktopEntry {
        type_field: "Directory".to_string(),
        name: "N".to_string(),
        generic_name: Some("G".to_string()),
        exec_field: "x".to_string(),
        no_display: true,
        categories: vec!["a".to_string(), "b".to_string(), "c".to_string()],
        keywords: vec!["k".to_string()],
        path: Some("/p".to_string()),
        extra: vec![pair("X", "1"), pair("Y", "")],
        name_localized: vec![pair("fr", "F"), pair("de", "D")],
        ..Default::default()
    };
    let f = set_form_from_entry(&e);
    let mut want = blank_form();
    want.type_text = Some("Directory".to_string());
    want.name = "N".to_string();
    want.generic_name = "G".to_string();
    want.exec_field = "x".to_string();
    want.no_display = true;
    want.categories = "a;b;c".to_string();
    want.keywords = "k".to_string();
    want.path = "/p".to_string();
    want.extra = "X=1\nY=".to_string();
    want.name_localized = "fr=F\nde=D".to_string();
    assert_eq!(f, want);
}

#[test]
fn an_unknown_type_is_shown_as_application() {
    let e = DesktopEntry { type_field: "Service".to_string(), ..Default::default() };
    assert_eq!(set_form_from_entry(&e).type_text, Some("Application".to_string()));
}

#[test]
fn a_shown_entry_is_read_back_from_the_form() {
    let e = DesktopEntry {
        type_field: "Link".to_string(),
        name: "Site".to_string(),
        url: Some("https://example.org".to_string()),
        categories: vec!["Network".to_string()],
        comment_localized: vec![pair("fr", "Un site")],
        ..Default::default()
    };
    assert_eq!(collect_entry(&set_form_from_entry(&e)), Ok(e));
}

#[test]
fn icon_previews() {
    assert_eq!(icon_preview(""), IconPreview::Missing);
    assert_eq!(icon_preview("   "), IconPreview::Missing);
    assert_eq!(icon_preview("/usr/share/a.png"), IconPreview::File);
    assert_eq!(icon_preview("icons/a.png"), IconPreview::File);
    assert_eq!(icon_preview(" / "), IconPreview::File);
    assert_eq!(icon_preview("text-editor"), IconPreview::Themed);
}
