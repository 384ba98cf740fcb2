use claude_statusline::git::{branch_name, next_step, ChildState, LookupStep};

#[test]
fn branch_name_trims_output() {
    assert_eq!(branch_name("main\n"), Some("main".to_string()));
    assert_eq!(branch_name("  feature/x \n"), Some("feature/x".to_string()));
}

#[test]
fn detached_head_has_no_branch() {
    assert_eq!(branch_name(""), None);
    assert_eq!(branch_name("\n"), None);
}

#[test]
fn lookup_steps() {
    assert_eq!(next_step(ChildState::Exited { success: true }, 10), LookupStep::ReadOutput);
    assert_eq!(next_step(ChildState::Exited { success: false }, 10), LookupStep::GiveUp);
    assert_eq!(next_step(ChildState::Running, 499), LookupStep::Sleep);
    assert_eq!(next_step(ChildState::Running, 500), LookupStep::Kill);
    assert_eq!(next_step(ChildState::Unreadable, 0), LookupStep::GiveUp);
}

#[test]
fn branch_name_trims_unicode_whitespace() {
    assert_eq!(branch_name("\u{3000}main\u{a0}\r\n"), Some("main".to_string()));
    assert_eq!(branch_name(" \t\u{2028} "), None);
}
