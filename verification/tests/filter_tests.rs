use magelogs::filter::LineClass;
use magelogs::filter::MageLogIssues;
use magelogs::filter::classify_line;
use magelogs::filter::line_emitted;
use magelogs::render::ColorTag;
use magelogs::render::format_line;

#[test]
fn error_line_with_error_flag_is_emitted_red() {
    let issues = vec![MageLogIssues::ERROR];
    let r = line_emitted(false, &issues, "main.ERROR boom");
    assert_eq!(r, Some(LineClass::ErrorClass));
}

#[test]
fn warning_line_with_error_flag_only_is_not_emitted() {
    let issues = vec![MageLogIssues::ERROR];
    let r = line_emitted(false, &issues, "main.WARNING low disk");
    assert_eq!(r, None);
}

#[test]
fn warning_line_in_all_mode_is_emitted_yellow() {
    let issues = vec![MageLogIssues::ERROR];
    let r = line_emitted(true, &issues, "main.WARNING low disk");
    assert_eq!(r, Some(LineClass::WarningClass));
}

#[test]
fn plain_line_is_never_emitted() {
    let r = line_emitted(true, &vec![MageLogIssues::ERROR], "plain info line");
    assert_eq!(r, None);
    let r = line_emitted(
        false,
        &vec![MageLogIssues::ERROR, MageLogIssues::WARNING, MageLogIssues::CRITICAL],
        "plain info line",
    );
    assert_eq!(r, None);
    let r = line_emitted(false, &vec![], "plain info line");
    assert_eq!(r, None);
}

#[test]
fn critical_line_with_critical_flag_is_emitted_as_error_class() {
    let issues = vec![MageLogIssues::CRITICAL];
    let r = line_emitted(false, &issues, "main.CRITICAL meltdown");
    assert_eq!(r, Some(LineClass::ErrorClass));
}

#[test]
fn classify_finds_markers_anywhere_in_the_line() {
    assert_eq!(classify_line("2024-01-01 main.ERROR it broke"), Some(LineClass::ErrorClass));
    assert_eq!(classify_line("2024-01-01 main.CRITICAL down"), Some(LineClass::ErrorClass));
    assert_eq!(classify_line("2024-01-01 main.WARNING slow"), Some(LineClass::WarningClass));
    assert_eq!(classify_line("main.INFO nothing"), None);
    assert_eq!(classify_line(""), None);
}

#[test]
fn error_class_wins_when_both_markers_occur() {
    assert_eq!(
        classify_line("main.WARNING then main.ERROR later"),
        Some(LineClass::ErrorClass)
    );
}

#[test]
fn no_flags_and_no_all_mode_emits_nothing() {
    let issues: Vec<MageLogIssues> = vec![];
    assert_eq!(line_emitted(false, &issues, "main.ERROR boom"), None);
    assert_eq!(line_emitted(false, &issues, "main.WARNING low"), None);
}

#[test]
fn color_tags_match_classes() {
    let o = format_line("system.log", "main.ERROR boom", LineClass::ErrorClass);
    assert_eq!(o.color, ColorTag::Red);
    assert_eq!(o.filename, "system.log");
    assert_eq!(o.body, "main.ERROR boom");
    let o = format_line("system.log", "main.WARNING low", LineClass::WarningClass);
    assert_eq!(o.color, ColorTag::Yellow);
}
