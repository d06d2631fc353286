use chronon::greet;
use chronon::updater::{
    background_check_due, install_response, manual_check_plan, status_after_check,
    AutoCheckEnabled, CheckOutcome, InstallOutcome, UpdateStatus, CHECK_INTERVAL_SECS,
    STARTUP_DELAY_SECS,
};
use chronon::widget_window::{require_widget, ConfigShape, PushAction, WidgetError, WidgetState};

#[test]
fn greet_message() {
    assert_eq!(greet("Ada"), "Hello, Ada! You've been greeted from Rust!");
}

#[test]
fn auto_check_defaults_on() {
    assert!(AutoCheckEnabled::default().0);
}

#[test]
fn background_check_schedule() {
    assert!(background_check_due(None, false));
    assert!(background_check_due(Some(AutoCheckEnabled(true)), false));
    assert!(!background_check_due(Some(AutoCheckEnabled(false)), false));
    assert!(!background_check_due(Some(AutoCheckEnabled(true)), true));
    assert_eq!(STARTUP_DELAY_SECS, 5);
    assert_eq!(CHECK_INTERVAL_SECS, 45 * 60);
}

#[test]
fn manual_check_in_dev_and_release() {
    let dev = manual_check_plan(true);
    assert!(!dev.started);
    assert_eq!(
        dev.reason.as_deref(),
        Some("Updates only run in the installed app, not in `npm run tauri dev`.")
    );
    let release = manual_check_plan(false);
    assert!(release.started);
    assert_eq!(release.reason, None);
}

fn error_message(status: UpdateStatus) -> String {
    match status {
        UpdateStatus::Error { message } => message,
        other => panic!("expected an error status, got {other:?}"),
    }
}

#[test]
fn check_statuses() {
    match status_after_check(CheckOutcome::UpdateAvailable { version: "1.2.0".to_string() }) {
        UpdateStatus::Available { version } => assert_eq!(version, "1.2.0"),
        other => panic!("unexpected {other:?}"),
    }
    match status_after_check(CheckOutcome::NoUpdate { current_version: "1.1.0".to_string() }) {
        UpdateStatus::UpToDate { version } => assert_eq!(version, "1.1.0"),
        other => panic!("unexpected {other:?}"),
    }
    let generic = "Couldn't check for updates. Check your internet connection and try again.";
    assert_eq!(error_message(status_after_check(CheckOutcome::CheckFailed)), generic);
    assert_eq!(error_message(status_after_check(CheckOutcome::UpdaterUnavailable)), generic);
}

#[test]
fn install_responses() {
    let (status, result) = install_response(InstallOutcome::NothingPending);
    assert!(status.is_none());
    assert_eq!(result.unwrap_err(), "No update is ready to install yet. Check for updates first.");

    let (status, result) = install_response(InstallOutcome::Failed);
    assert_eq!(
        error_message(status.unwrap()),
        "Couldn't download or install the update. Check your internet connection and try again."
    );
    assert_eq!(result.unwrap_err(), "Couldn't download or install the update.");

    let (status, result) = install_response(InstallOutcome::Installed);
    assert!(status.is_none());
    assert!(result.is_ok());
}

#[test]
fn widget_push_then_read_back() {
    let mut state: WidgetState<String> = WidgetState::new();
    assert_eq!(state.get_widget_config(), None);
    let action = state.push_widget("{\"rows\":1}".to_string(), ConfigShape::Object, false);
    assert_eq!(action, Ok(PushAction::CreateWindow));
    assert_eq!(state.get_widget_config().map(|c| c.as_str()), Some("{\"rows\":1}"));
    let action = state.push_widget("{\"rows\":2}".to_string(), ConfigShape::Object, true);
    assert_eq!(action, Ok(PushAction::UpdateExisting));
    assert_eq!(state.get_widget_config().map(|c| c.as_str()), Some("{\"rows\":2}"));
}

#[test]
fn widget_push_refuses_non_objects() {
    let mut state: WidgetState<String> = WidgetState::new();
    state.store_config("{}".to_string(), ConfigShape::Object);
    let result = state.push_widget("42".to_string(), ConfigShape::Other, true);
    assert_eq!(result, Err(WidgetError::InvalidConfig));
    assert_eq!(WidgetError::InvalidConfig.message(), "Failed to load widget configuration.");
    assert_eq!(state.get_widget_config().map(|c| c.as_str()), Some("{}"));
}

#[test]
fn widget_null_config_is_forgotten() {
    let mut state: WidgetState<String> = WidgetState::new();
    state.store_config("{}".to_string(), ConfigShape::Object);
    assert_eq!(state.push_widget("null".to_string(), ConfigShape::Null, false), Ok(PushAction::CreateWindow));
    assert_eq!(state.get_widget_config(), None);
}

#[test]
fn widget_update_needs_a_widget() {
    let mut state: WidgetState<String> = WidgetState::new();
    state.store_config("{}".to_string(), ConfigShape::Object);
    let result = state.update_widget_config("{\"a\":1}".to_string(), ConfigShape::Object, false);
    assert_eq!(result, Err(WidgetError::NoWidget));
    assert_eq!(WidgetError::NoWidget.message(), "No widget is currently on the desktop.");
    assert_eq!(state.get_widget_config().map(|c| c.as_str()), Some("{}"));
    assert_eq!(state.update_widget_config("{\"a\":1}".to_string(), ConfigShape::Object, true), Ok(()));
    assert_eq!(state.get_widget_config().map(|c| c.as_str()), Some("{\"a\":1}"));
}

#[test]
fn widget_delete_forgets_config() {
    let mut state: WidgetState<String> = WidgetState::new();
    state.store_config("{}".to_string(), ConfigShape::Object);
    state.delete_widget();
    assert_eq!(state.get_widget_config(), None);
}

#[test]
fn moving_needs_a_widget() {
    assert_eq!(require_widget(true), Ok(()));
    assert_eq!(require_widget(false), Err(WidgetError::NoWidget));
}
