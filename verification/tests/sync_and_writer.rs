use desktop_entry::entry::{DesktopEntry, ValidationError};
use desktop_entry::parse::parse_desktop_source;
use desktop_entry::sync::{SyncController, SyncState};
use desktop_entry::writer::{sanitize_file_name, DesktopWriter, WriteRefusal};

fn invalid<T>(reason: ValidationError) -> Result<T, WriteRefusal> {
    Err(WriteRefusal::Invalid(reason))
}

fn editor() -> DesktopEntry {
    DesktopEntry {
        type_field: "Application".to_string(),
        name: "Editor".to_string(),
        exec_field: "edit".to_string(),
        ..Default::default()
    }
}

#[test]
fn a_new_controller_is_idle() {
    assert_eq!(SyncController::new().state(), SyncState::Idle);
}

#[test]
fn start_fills_the_text_and_is_under_way() {
    let e = DesktopEntry::default();
    let (mut c, text) = SyncController::start(&e);
    assert_eq!(text, e.to_ini_string());
    assert_eq!(c.state(), SyncState::Propagating);
    assert_eq!(c.text_changed(&text), None);
    c.finish();
    assert_eq!(c.state(), SyncState::Idle);
}

#[test]
fn a_text_update_does_not_raise_a_fields_update() {
    let mut c = SyncController::new();
    let e = editor();
    let text = c.fields_changed(&e).unwrap();
    assert_eq!(text, e.to_ini_string());
    assert_eq!(c.state(), SyncState::Propagating);
    assert_eq!(c.text_changed(&text), None);
    assert_eq!(c.fields_changed(&e), None);
    assert_eq!(c.state(), SyncState::Propagating);
    c.finish();
    assert_eq!(c.state(), SyncState::Idle);
}

#[test]
fn a_fields_update_does_not_raise_a_text_update() {
    let mut c = SyncController::new();
    let text = "[Desktop Entry]\nName=Typed\n";
    let e = c.text_changed(text).unwrap();
    assert_eq!(e, parse_desktop_source(text));
    assert_eq!(c.state(), SyncState::Propagating);
    assert_eq!(c.fields_changed(&e), None);
    assert_eq!(c.text_changed(text), None);
    c.finish();
    assert!(c.fields_changed(&e).is_some());
}

#[test]
fn fields_go_to_the_text_even_when_invalid() {
    let mut c = SyncController::new();
    let e = DesktopEntry::default();
    assert!(e.validate().is_err());
    assert_eq!(c.fields_changed(&e), Some(e.to_ini_string()));
}

#[test]
fn text_overwrites_every_field() {
    let mut c = SyncController::new();
    let e = c.text_changed("[Desktop Entry]\nName=Only a name\n").unwrap();
    let want = DesktopEntry {
        type_field: "Application".to_string(),
        name: "Only a name".to_string(),
        ..Default::default()
    };
    assert_eq!(e, want);
}

#[test]
fn sanitize_file_name_replaces_unsafe_characters() {
    assert_eq!(sanitize_file_name("My App"), "My-App");
    assert_eq!(sanitize_file_name("a/b\\c:d"), "a-b-c-d");
    assert_eq!(sanitize_file_name("keep-this_one.v2"), "keep-this_one.v2");
    assert_eq!(sanitize_file_name("é✓x"), "--x");
    assert_eq!(sanitize_file_name("AZaz09"), "AZaz09");
    assert_eq!(sanitize_file_name("@[`{/:"), "------");
}

#[test]
fn sanitize_file_name_trims_and_falls_back() {
    assert_eq!(sanitize_file_name("  name  "), "name");
    assert_eq!(sanitize_file_name(" a b "), "a-b");
    assert_eq!(sanitize_file_name(""), "desktop-entry");
    assert_eq!(sanitize_file_name(" \t\n"), "desktop-entry");
}

#[test]
fn file_name_adds_the_extension() {
    assert_eq!(DesktopWriter::file_name("My App"), "My-App.desktop");
    assert_eq!(DesktopWriter::file_name(""), "desktop-entry.desktop");
    assert_eq!(DesktopWriter::file_name("x.desktop"), "x.desktop.desktop");
}

#[test]
fn default_title_is_the_name_or_the_fallback() {
    assert_eq!(DesktopWriter::default_title(&editor()), "Editor");
    assert_eq!(DesktopWriter::default_title(&DesktopEntry::default()), "desktop-entry");
    let padded = DesktopEntry { name: " x ".to_string(), ..Default::default() };
    assert_eq!(DesktopWriter::default_title(&padded), " x ");
}

#[test]
fn a_plan_holds_name_and_content_of_a_valid_entry() {
    let e = editor();
    let plan = DesktopWriter::plan(&e, "My Editor").unwrap();
    assert_eq!(plan.file_name, "My-Editor.desktop");
    assert_eq!(plan.content, e.to_ini_string());
    assert_eq!(DesktopWriter::content(&e), Ok(e.to_ini_string()));
}

#[test]
fn an_invalid_entry_is_not_planned() {
    let mut e = editor();
    e.exec_field = String::new();
    assert_eq!(DesktopWriter::plan(&e, "x"), invalid(ValidationError::MissingExec));
    assert_eq!(DesktopWriter::content(&e), invalid(ValidationError::MissingExec));
    e.name = String::new();
    assert_eq!(DesktopWriter::plan(&e, "x"), invalid(ValidationError::MissingName));
    e.type_field = String::new();
    assert_eq!(DesktopWriter::content(&e), invalid(ValidationError::MissingType));
    let link = DesktopEntry {
        type_field: "Link".to_string(),
        name: "l".to_string(),
        ..Default::default()
    };
    assert_eq!(DesktopWriter::plan(&link, "x"), invalid(ValidationError::MissingUrl));
}

#[test]
fn an_existing_target_is_replaced_only_on_request() {
    assert_eq!(DesktopWriter::check_target(false, false), Ok(()));
    assert_eq!(DesktopWriter::check_target(false, true), Ok(()));
    assert_eq!(DesktopWriter::check_target(true, true), Ok(()));
    assert_eq!(DesktopWriter::check_target(true, false), Err(WriteRefusal::AlreadyExists));
}

#[test]
fn written_files_are_readable_by_all_and_writable_by_the_owner() {
    assert_eq!(DesktopWriter::file_mode(), 0o644);
}

#[test]
fn entries_are_kept_below_the_home_directory() {
    assert_eq!(DesktopWriter::applications_subdir(), ".local/share/applications");
}
