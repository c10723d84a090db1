use truthdb_installer::app::{App, AppState};

#[test]
fn test_new_app_starts_in_boot_splash() {
    let app = App::new();
    assert_eq!(app.state(), &AppState::BootSplash);
    assert!(!app.should_exit());
}

#[test]
fn test_initialize_transitions_to_welcome() {
    let mut app = App::new();
    app.initialize().unwrap();
    assert_eq!(app.state(), &AppState::Welcome);
}

#[test]
fn test_quit_on_q_key() {
    let mut app = App::new();
    app.initialize().unwrap();
    app.handle_input('Q').unwrap();
    assert_eq!(app.state(), &AppState::Exit);
    assert!(app.should_exit());
}

#[test]
fn test_display_text() {
    let app = App::new();
    let text = app.get_display_text();
    assert!(text.len() >= 2);
    assert!(text[0].contains("TruthDB"));
}

#[test]
fn other_keys_are_ignored_on_welcome() {
    let mut app = App::new();
    app.initialize().unwrap();
    app.handle_input('x').unwrap();
    assert_eq!(app.state(), &AppState::Welcome);
    assert!(!app.should_exit());
}

#[test]
fn quit_is_ignored_on_boot_splash() {
    let mut app = App::new();
    app.handle_input('q').unwrap();
    assert_eq!(app.state(), &AppState::BootSplash);
    assert!(!app.should_exit());
}

#[test]
fn error_screen_shows_message_and_quits_on_q() {
    let mut app = App::new();
    app.initialize().unwrap();
    app.handle_error("Input error: gone".to_string());
    assert_eq!(app.state(), &AppState::Error("Input error: gone".to_string()));
    assert_eq!(
        app.get_display_text(),
        vec![
            "TruthDB Installer".to_string(),
            "ERROR: Input error: gone".to_string(),
            "Press Q to quit".to_string()
        ]
    );
    app.handle_input('q').unwrap();
    assert_eq!(app.state(), &AppState::Exit);
    assert!(app.should_exit());
    assert_eq!(app.get_display_text(), vec!["TruthDB Installer".to_string(), "Shutting down...".to_string()]);
}

#[test]
fn welcome_screen_text() {
    let mut app = App::new();
    app.initialize().unwrap();
    assert_eq!(
        app.get_display_text(),
        vec![
            "TruthDB Installer".to_string(),
            "Status: booted".to_string(),
            "Press Q to quit (for now)".to_string()
        ]
    );
}

#[test]
fn state_names() {
    assert_eq!(AppState::BootSplash.to_display_string(), "BootSplash");
    assert_eq!(AppState::Welcome.to_display_string(), "Welcome");
    assert_eq!(AppState::Error("disk".to_string()).to_display_string(), "Error: disk");
    assert_eq!(AppState::Exit.to_display_string(), "Exit");
}
