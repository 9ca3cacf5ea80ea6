use deck::error::{DeckError, ThemeLoadError};

#[test]
fn absent_theme_has_a_fixed_message() {
    assert_eq!(DeckError::ThemeNotFound.message(), "Theme not found");
}

#[test]
fn minification_failure_says_its_reason() {
    assert_eq!(DeckError::Minification("style has unbalanced braces").message(), "style has unbalanced braces");
}

#[test]
fn theme_load_failure_names_the_path() {
    let failure = DeckError::from(ThemeLoadError {
        path: "themes/bad.tmTheme".to_string(),
        cause: syntect::LoadingError::BadPath,
    });
    assert_eq!(failure.message(), "themes/bad.tmTheme: Invalid path");
}

#[test]
fn io_failure_is_carried_through() {
    let failure = DeckError::from(std::io::Error::new(std::io::ErrorKind::NotFound, "deck.md is missing"));
    assert!(matches!(failure, DeckError::Io(_)));
    assert_eq!(failure.message(), "deck.md is missing");
}

#[test]
fn json_failure_is_carried_through() {
    let cause = serde_json::from_str::<serde_json::Value>("{").err().unwrap();
    let text = cause.to_string();
    let failure = DeckError::from(cause);
    assert!(matches!(failure, DeckError::JsonSerialization(_)));
    assert_eq!(failure.message(), text);
}

#[test]
fn watch_failure_is_carried_through() {
    let failure = DeckError::from(notify::Error::generic("cannot watch"));
    assert!(matches!(failure, DeckError::Notify(_)));
    assert_eq!(failure.message(), "cannot watch");
}

#[test]
fn channel_failure_is_carried_through() {
    let failure = DeckError::from(std::sync::mpsc::RecvError);
    assert!(matches!(failure, DeckError::MpscRecv(_)));
    assert_eq!(failure.message(), std::sync::mpsc::RecvError.to_string());
}

#[test]
fn task_failure_is_carried_through() {
    let runtime = tokio::runtime::Builder::new_current_thread().build().unwrap();
    let cause = runtime.block_on(async {
        let task = tokio::spawn(std::future::pending::<()>());
        task.abort();
        task.await.err().unwrap()
    });
    let text = cause.to_string();
    let failure = DeckError::from(cause);
    assert!(matches!(failure, DeckError::TokioJoin(_)));
    assert_eq!(failure.message(), text);
}
