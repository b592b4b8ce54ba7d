use firechicken::publish::{copy_step, hidden, unpack_step, CopyStep, UnpackStep};

#[test]
fn dot_files_are_hidden_but_for_well_known() {
    assert!(hidden(".git"));
    assert!(hidden(".DS_Store"));
    assert!(hidden("."));
    assert!(hidden(".well-known2"));
    assert!(hidden(".well-know"));
    assert!(!hidden(".well-known"));
    assert!(!hidden("style.css"));
    assert!(!hidden("a.b"));
    assert!(!hidden(""));
    assert!(!hidden("\u{fc}.txt"));
}

#[test]
fn hidden_entries_are_skipped_before_anything_else() {
    assert_eq!(copy_step(".git", false, true), CopyStep::Skip);
    assert_eq!(copy_step(".env", true, false), CopyStep::Skip);
    assert_eq!(copy_step(".env", true, true), CopyStep::Skip);
}

#[test]
fn nothing_is_written_over() {
    assert_eq!(copy_step("style.css", true, false), CopyStep::Refuse);
    assert_eq!(copy_step("fonts", true, true), CopyStep::Refuse);
    assert_eq!(copy_step(".well-known", true, true), CopyStep::Refuse);
}

#[test]
fn directories_are_descended_and_files_copied() {
    assert_eq!(copy_step("fonts", false, true), CopyStep::Descend);
    assert_eq!(copy_step(".well-known", false, true), CopyStep::Descend);
    assert_eq!(copy_step("style.css", false, false), CopyStep::Copy);
    assert_eq!(copy_step("", false, false), CopyStep::Copy);
}

#[test]
fn archive_entries_are_told_apart_by_their_names() {
    assert_eq!(unpack_step(true, "fonts/"), UnpackStep::MakeDirectory);
    assert_eq!(unpack_step(true, "/"), UnpackStep::MakeDirectory);
    assert_eq!(unpack_step(true, "fonts/a.woff2"), UnpackStep::WriteFile);
    assert_eq!(unpack_step(true, ""), UnpackStep::WriteFile);
    assert_eq!(unpack_step(true, "sch\u{f6}n/"), UnpackStep::MakeDirectory);
    assert_eq!(unpack_step(false, "../evil/"), UnpackStep::Skip);
    assert_eq!(unpack_step(false, "../evil.txt"), UnpackStep::Skip);
}
