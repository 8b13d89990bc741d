use txcv::color::Color;
use txcv::credentials::{check_answer, credential_step, deletion_error, CredentialStep, Deletion, Lookup, PromptError};
use txcv::mode::Mode;
use txcv::output::{layout, render_plain, Layout};

#[test]
fn layout_rules() {
    assert_eq!(layout("a", "b\nc", None), Layout::Stacked);
    assert_eq!(layout("hello", "你好", None), Layout::OneLine);
    assert_eq!(layout("hello", "你好", Some(7)), Layout::OneLine);
    assert_eq!(layout("hello", "你好", Some(6)), Layout::Stacked);
}

#[test]
fn rendering() {
    assert_eq!(render_plain("hello", "你好", Layout::OneLine, false), "hello -> 你好");
    assert_eq!(render_plain("a", "b\nc", Layout::Stacked, false), "a\n↓\nb\nc");
    assert_eq!(render_plain("hello", "你好", Layout::OneLine, true), "你好");
    assert_eq!(render_plain("hello", "你好", Layout::Stacked, true), "你好");
}

#[test]
fn color_settings() {
    assert_eq!(Color::Always.as_str(), "always");
    assert_eq!(Color::Auto.as_str(), "auto");
    assert_eq!(Color::Disable.as_str(), "disable");
    assert_eq!(Color::default(), Color::Auto);
    assert!(Color::Always.use_color(false));
    assert!(Color::Auto.use_color(true));
    assert!(!Color::Auto.use_color(false));
    assert!(!Color::Disable.use_color(true));
}

#[test]
fn credential_steps() {
    assert!(matches!(credential_step(Lookup::Found("id".to_string()), true), CredentialStep::Use(v) if v == "id"));
    assert!(matches!(credential_step(Lookup::Found(String::new()), true), CredentialStep::Ask));
    assert!(matches!(credential_step(Lookup::NoEntry, true), CredentialStep::MissingForStdin));
    assert!(matches!(credential_step(Lookup::NoEntry, false), CredentialStep::Ask));
    assert!(matches!(credential_step(Lookup::Failed("e".to_string()), false), CredentialStep::Fail(m) if m == "e"));
}

#[test]
fn prompt_answers() {
    assert_eq!(check_answer(None), Err(PromptError::NotString));
    assert_eq!(check_answer(Some(String::new())), Err(PromptError::Empty));
    assert_eq!(check_answer(Some("ap-guangzhou".to_string())), Ok("ap-guangzhou".to_string()));
}

#[test]
fn deletions() {
    assert_eq!(deletion_error(Deletion::Deleted), None);
    assert_eq!(deletion_error(Deletion::NoEntry), None);
    assert_eq!(deletion_error(Deletion::Failed("locked".to_string())), Some("locked".to_string()));
}

#[test]
fn mode_selection() {
    assert!(matches!(Mode::select(true, vec!["a".to_string()]), Mode::FromStdin));
    assert!(matches!(Mode::select(false, vec![]), Mode::Interact));
    assert!(matches!(Mode::select(false, vec!["a".to_string()]), Mode::Batch(w) if w == vec!["a".to_string()]));
}
