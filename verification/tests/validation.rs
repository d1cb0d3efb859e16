use desktop_entry::entry::{DesktopEntry, ValidationError};

fn entry(kind: &str, name: &str) -> DesktopEntry {
    DesktopEntry { type_field: kind.to_string(), name: name.to_string(), ..Default::default() }
}

#[test]
fn default_entry_has_nothing_set() {
    let e = DesktopEntry::default();
    assert_eq!(e.type_field, "");
    assert_eq!(e.name, "");
    assert_eq!(e.generic_name, None);
    assert_eq!(e.exec_field, "");
    assert!(!e.terminal && !e.no_display && !e.startup_notify);
    assert!(e.categories.is_empty() && e.extra.is_empty() && e.name_localized.is_empty());
}

#[test]
fn application_without_exec_is_missing_exec() {
    let e = entry("Application", "Editor");
    assert_eq!(e.validate(), Err(ValidationError::MissingExec));
}

#[test]
fn application_with_blank_exec_is_missing_exec() {
    let mut e = entry("Application", "Editor");
    e.exec_field = " \t ".to_string();
    assert_eq!(e.validate(), Err(ValidationError::MissingExec));
}

#[test]
fn application_with_exec_is_valid() {
    let mut e = entry("Application", "Editor");
    e.exec_field = "edit %F".to_string();
    assert_eq!(e.validate(), Ok(()));
}

#[test]
fn link_without_url_is_missing_url() {
    let e = entry("Link", "Site");
    assert_eq!(e.validate(), Err(ValidationError::MissingUrl));
    let mut blank = entry("Link", "Site");
    blank.url = Some("   ".to_string());
    assert_eq!(blank.validate(), Err(ValidationError::MissingUrl));
}

#[test]
fn link_with_url_is_valid() {
    let mut e = entry("Link", "Site");
    e.url = Some("https://example.org".to_string());
    assert_eq!(e.validate(), Ok(()));
}

#[test]
fn directory_requires_neither_exec_nor_url() {
    let e = entry("Directory", "Folder");
    assert_eq!(e.validate(), Ok(()));
}

#[test]
fn empty_name_is_missing_name_for_every_kind() {
    for kind in ["Application", "Link", "Directory"] {
        let mut e = entry(kind, "");
        e.exec_field = "run".to_string();
        e.url = Some("https://example.org".to_string());
        assert_eq!(e.validate(), Err(ValidationError::MissingName));
        e.name = "  \u{00A0}\n".to_string();
        assert_eq!(e.validate(), Err(ValidationError::MissingName));
    }
}

#[test]
fn missing_name_comes_before_what_the_type_asks_for() {
    let e = entry("Application", "");
    assert_eq!(e.validate(), Err(ValidationError::MissingName));
    let unknown = entry("Service", "");
    assert_eq!(unknown.validate(), Err(ValidationError::MissingName));
}

#[test]
fn empty_or_unknown_type_is_missing_type() {
    assert_eq!(entry("", "Editor").validate(), Err(ValidationError::MissingType));
    assert_eq!(entry("", "").validate(), Err(ValidationError::MissingType));
    assert_eq!(entry("Service", "Editor").validate(), Err(ValidationError::MissingType));
    assert_eq!(entry("application", "Editor").validate(), Err(ValidationError::MissingType));
    assert_eq!(entry(" Application", "Editor").validate(), Err(ValidationError::MissingType));
}

#[test]
fn validate_changes_nothing_and_repeats_its_verdict() {
    let e = entry("Application", "Editor");
    let before = e.clone();
    let first = e.validate();
    let second = e.validate();
    assert_eq!(first, second);
    assert_eq!(e, before);
}

#[test]
fn each_error_has_its_message() {
    assert_eq!(
        ValidationError::MissingType.message(),
        "Type must be one of Application, Link, Directory"
    );
    assert_eq!(ValidationError::MissingName.message(), "Name is required");
    assert_eq!(ValidationError::MissingExec.message(), "Exec is required for Type=Application");
    assert_eq!(ValidationError::MissingUrl.message(), "URL is required for Type=Link");
}
