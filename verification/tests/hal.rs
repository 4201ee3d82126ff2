use hope::notifications::{Action, Notification, NotificationError};

#[test]
fn test_simple_notification() {
    let n = Notification::simple("Titre", "Corps du message");
    assert_eq!(n.actions.len(), 1);
    assert_eq!(n.actions[0].id, "ok");
}

#[test]
fn test_question_notification() {
    let n = Notification::question(
        "Veux-tu redémarrer ?",
        "Un pilote a été installé.",
        vec![("Oui", "yes"), ("Plus tard", "later")],
    );
    assert_eq!(n.actions.len(), 2);
}

#[test]
fn test_notification_validate_rejects_jargon() {
    let n = Notification {
        title: "Kernel".into(),
        body: "The kernel module loaded".into(),
        actions: vec![],
    };
    assert!(n.validate().is_err());
}

#[test]
fn test_notification_validate_rejects_too_many_buttons() {
    let n = Notification {
        title: "Test".into(),
        body: "Choose one".into(),
        actions: vec![
            Action { label: "A".into(), id: "a".into() },
            Action { label: "B".into(), id: "b".into() },
            Action { label: "C".into(), id: "c".into() },
            Action { label: "D".into(), id: "d".into() },
        ],
    };
    assert!(n.validate().is_err());
}

#[test]
fn hal_version() {
    let version = hope::VERSION;
    assert!(version.starts_with("0.1"));
}

#[test]
fn validate_reports_first_jargon_word() {
    let n = Notification::simple("Info", "The KERNEL module loaded");
    match n.validate() {
        Err(NotificationError::Jargon(w)) => assert_eq!(w, "kernel"),
        other => panic!("unexpected {:?}", other),
    }
}

#[test]
fn validate_reports_button_count() {
    let n = Notification {
        title: "T".into(),
        body: "kernel".into(),
        actions: vec![
            Action { label: "A".into(), id: "a".into() },
            Action { label: "B".into(), id: "b".into() },
            Action { label: "C".into(), id: "c".into() },
            Action { label: "D".into(), id: "d".into() },
        ],
    };
    match n.validate() {
        Err(e @ NotificationError::TooManyButtons(4)) => {
            assert_eq!(e.message(), "Too many buttons: 4 (max 3)")
        }
        other => panic!("unexpected {:?}", other),
    }
}

#[test]
fn validate_accepts_plain_text() {
    let n = Notification::question("Redémarrer ?", "Tout est prêt.", vec![("Oui", "yes")]);
    assert!(n.validate().is_ok());
    let e = NotificationError::Jargon("dma".to_string());
    assert_eq!(e.message(), "Jargon detected: dma");
}

#[test]
fn centered_and_padded() {
    assert_eq!(hope::notifications::centered("abc", 7), "  abc");
    assert_eq!(hope::notifications::centered("abcdefgh", 4), "abcd");
    assert_eq!(hope::notifications::padded("ab", 5), "ab   ");
    assert_eq!(hope::notifications::padded("é", 2), "é ");
}

#[test]
fn terminal_box_rows() {
    let n = Notification::question("Hi", "line one\r\nline two\n", vec![("Yes", "y"), ("No", "n")]);
    let rows = n.terminal_lines();
    assert_eq!(rows.len(), 8);
    assert_eq!(rows[0], "┌──────────────────────────────────────┐");
    assert_eq!(rows[1], format!("│ {} │", format!("{}Hi", " ".repeat(18))));
    assert_eq!(rows[3], format!("│ line one{} │", " ".repeat(30)));
    assert_eq!(rows[4], format!("│ line two{} │", " ".repeat(30)));
    assert_eq!(rows[6], format!("│ {}Yes | No │", " ".repeat(15)));
    assert_eq!(rows[7], "└──────────────────────────────────────┘");
}

#[test]
fn notify_send_arguments() {
    let n = Notification::question("T", "B", vec![("Yes", "y"), ("No", "n")]);
    assert_eq!(n.notify_send_args(), vec!["-a", "Hope HAL", "-u", "normal", "T", "B", "-A", "Yes,y,No,n"]);
    let s = Notification { title: "T".into(), body: "B".into(), actions: vec![] };
    assert_eq!(s.notify_send_args(), vec!["-a", "Hope HAL", "-u", "normal", "T", "B"]);
}

#[test]
fn validate_allows_one_question() {
    let n = Notification::simple("Restart now?", "Is it a good time?");
    match n.validate() {
        Err(e @ NotificationError::TooManyQuestions) => assert_eq!(e.message(), "Too many questions (max 1)"),
        other => panic!("unexpected {:?}", other),
    }
    let n = Notification::simple("Restart", "Is it a good time??");
    assert_eq!(n.validate().map_err(|e| e.message()), Err("Too many questions (max 1)".to_string()));
    let n = Notification::simple("Restart now?", "All is ready.");
    assert!(n.validate().is_ok());
}
