use claude_statusline::theme::Theme;

#[test]
fn plain_uses_words() {
    assert_eq!(Theme::Plain.sess(), "Sess");
    assert_eq!(Theme::Plain.week(), "Week");
    assert_eq!(Theme::Plain.ctx(), "Ctx");
}

#[test]
fn nerd_uses_glyphs() {
    let s = Theme::Nerd.sess();
    assert_ne!(s, "Sess");
    assert!(s.chars().count() >= 1);
}

#[test]
fn plain_prefixes_are_empty() {
    assert_eq!(Theme::Plain.pace(), "Pace");
    assert_eq!(Theme::Plain.dir(), "");
    assert_eq!(Theme::Plain.branch(), "");
    assert_eq!(Theme::Plain.duration(), "");
}

#[test]
fn nerd_prefixes_end_in_a_space() {
    assert_eq!(Theme::Nerd.dir(), "\u{f07b} ");
    assert_eq!(Theme::Nerd.branch(), "\u{e0a0} ");
    assert_eq!(Theme::Nerd.duration(), "\u{f017} ");
    assert_eq!(Theme::Nerd.week(), "\u{f073}");
    assert_eq!(Theme::Nerd.ctx(), "\u{f2db}");
    assert_eq!(Theme::Nerd.pace(), "\u{f201}");
}
