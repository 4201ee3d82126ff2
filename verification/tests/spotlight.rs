use hope::spotlight::{fuzzy_match, fuzzy_match_checked, fuzzy_match_defined, setting_subtitle, CalcOp, MatchScore, SearchCategory, SearchIndex};

fn empty_index() -> SearchIndex {
    SearchIndex { applications: vec![], settings: vec![] }
}

#[test]
fn calculation() {
    let index = empty_index();
    assert!(index.is_calculation("45 * 12"));
    assert!(!index.is_calculation("hello"));
}

#[test]
fn command_detection() {
    let index = empty_index();
    assert!(index.is_command("ls -la"));
    assert!(index.is_command("git status"));
    assert!(!index.is_command("firefox"));
}

#[test]
fn command_detection_edges() {
    let index = empty_index();
    assert!(index.is_command("   ping\u{3000}host"));
    assert!(!index.is_command(""));
    assert!(!index.is_command("lsblk"));
}

#[test]
fn calculation_parsing() {
    let index = empty_index();
    let c = index.parse_calculation("45 * 12").unwrap();
    assert_eq!((c.lhs.as_str(), c.op, c.rhs.as_str()), ("45", CalcOp::Mul, "12"));
    assert_eq!(index.parse_calculation("7 ÷ 2").unwrap().op, CalcOp::Div);
    assert_eq!(index.parse_calculation("7 x 2").unwrap().op, CalcOp::Mul);
    assert!(index.parse_calculation("7 % 2").is_none());
    assert!(index.parse_calculation("7 + 2 + 1").is_none());
}

#[test]
fn desktop_entries() {
    let app = SearchIndex::parse_desktop_file("[Desktop Entry]\nName=Firefox\nExec=firefox %u\nName=Firefox Web\n").unwrap();
    assert_eq!(app.name, "Firefox Web");
    assert_eq!(app.executable, "firefox %u");
    assert_eq!(app.description, "");
    assert!(SearchIndex::parse_desktop_file("Name=Only\n").is_none());
    let ff = SearchIndex::parse_desktop_file("[Desktop Entry]\nName=Firefox\nComment=Web browser\nExec=firefox %u\n[Desktop Action new-window]\nName=New Window\nExec=firefox --new-window\n").unwrap();
    assert_eq!((ff.name.as_str(), ff.executable.as_str(), ff.description.as_str()), ("Firefox", "firefox %u", "Web browser"));
    let calc = SearchIndex::parse_desktop_file("Name=Calc\nExec=calc").unwrap();
    assert_eq!((calc.name.as_str(), calc.executable.as_str()), ("Calc", "calc"));
    assert!(SearchIndex::parse_desktop_file("[Desktop Action x]\nName=A\nExec=a\n").is_none());
    let index = SearchIndex::build(&vec!["[Desktop Entry]\nName=A\nExec=a\nComment=first".to_string(), "junk".to_string()]);
    assert_eq!(index.applications.len(), 1);
    assert_eq!(index.applications[0].description, "first");
    assert_eq!(index.settings.len(), 15);
    assert_eq!(index.settings[0].name, "WiFi");
    assert_eq!(setting_subtitle(&index.settings[0]), "[Network] Configure wireless networks");
    assert_eq!(index.settings[14].command, "hope-shell config");
}

#[test]
fn fuzzy_scores() {
    assert_eq!(fuzzy_match("Firefox", "firefox"), MatchScore::Exact);
    assert_eq!(fuzzy_match("Firefox", "fire"), MatchScore::Prefix);
    assert_eq!(fuzzy_match("Firefox", "refo"), MatchScore::Contains);
    assert_eq!(fuzzy_match("Firefox", "fx"), MatchScore::Chars { matched: 2, query_len: 2 });
    assert_eq!(fuzzy_match("Firefox", "xf"), MatchScore::Chars { matched: 1, query_len: 2 });
    assert_eq!(fuzzy_match_checked("Firefox", "fx"), Some(MatchScore::Chars { matched: 2, query_len: 2 }));
    assert_eq!(fuzzy_match_checked("héllo", "éz"), None);
    assert!(fuzzy_match_defined("héllo", "zé"));
    assert!(!fuzzy_match_defined("héllo", "éz"));
    assert_eq!(fuzzy_match("héllo", "zé"), MatchScore::Chars { matched: 1, query_len: 3 });
}

#[test]
fn category_labels() {
    assert_eq!(SearchCategory::Application.label(), "App");
    assert_eq!(SearchCategory::Calculation.label(), "Calc");
}
