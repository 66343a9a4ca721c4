use aoiplate::config::AppConfig;
use aoiplate::permissions::PermissionState;
use aoiplate::runtime::{
    ipc_kind, ipc_payload_fits, parse_view_mode, Effect, IpcKind, IpcRequest, RuntimeState,
    UserEvent, ViewMode, MAX_IPC_PAYLOAD_BYTES,
};
use aoiplate::storage::TodoItem;
use aoiplate::tray::TrayCommand;

const ID_A: &str = "550e8400-e29b-41d4-a716-446655440000";
const ID_B: &str = "936da01f-9abd-4d9d-80c7-02af85c822a8";
const FRESH: &str = "00000000-0000-4000-8000-000000000001";

fn item(id: &str, text: &str) -> TodoItem {
    TodoItem {
        id: id.to_string(),
        text: text.to_string(),
        completed: false,
        created_at_ms: 1,
        updated_at_ms: 1,
        completed_at_ms: None,
    }
}

fn granted() -> PermissionState {
    PermissionState { input_monitoring: true, accessibility: true }
}

fn denied() -> PermissionState {
    PermissionState { input_monitoring: false, accessibility: false }
}

fn state() -> RuntimeState {
    RuntimeState::new(vec![item(ID_A, "first"), item(ID_B, "second")], AppConfig::default(), denied())
}

fn ipc(s: &mut RuntimeState, req: IpcRequest, now: i64) -> Vec<Effect> {
    s.step(UserEvent::Ipc(req), now, FRESH.to_string())
}

fn is_save_push(effects: &[Effect], token: u64) -> bool {
    effects.len() == 2
        && matches!(effects[0], Effect::FlushSaveLater(t) if t == token)
        && matches!(effects[1], Effect::PushState)
}

#[test]
fn view_modes() {
    assert_eq!(parse_view_mode("list"), ViewMode::List);
    assert_eq!(parse_view_mode("LIST"), ViewMode::List);
    assert_eq!(parse_view_mode("explosion"), ViewMode::Explosion);
    assert_eq!(parse_view_mode("grid"), ViewMode::Explosion);
    assert_eq!(ViewMode::default(), ViewMode::Explosion);
}

#[test]
fn ipc_kinds() {
    assert_eq!(ipc_kind("request_state"), IpcKind::RequestState);
    assert_eq!(ipc_kind("add_todo"), IpcKind::AddTodo);
    assert_eq!(ipc_kind("edit_todo"), IpcKind::EditTodo);
    assert_eq!(ipc_kind("delete_todo"), IpcKind::DeleteTodo);
    assert_eq!(ipc_kind("complete_todo"), IpcKind::CompleteTodo);
    assert_eq!(ipc_kind("toggle_todo"), IpcKind::ToggleTodo);
    assert_eq!(ipc_kind("set_trigger_key"), IpcKind::SetTriggerKey);
    assert_eq!(ipc_kind("set_view_mode"), IpcKind::SetViewMode);
    assert_eq!(ipc_kind("open_input_modal"), IpcKind::OpenInputModal);
    assert_eq!(ipc_kind("hide_overlay"), IpcKind::HideOverlay);
    assert_eq!(ipc_kind("hide_panel"), IpcKind::HideOverlay);
    assert_eq!(ipc_kind("open_permissions"), IpcKind::OpenPermissions);
    assert_eq!(ipc_kind("set_launch_at_login"), IpcKind::SetLaunchAtLogin);
    assert_eq!(ipc_kind("quit_app"), IpcKind::QuitApp);
    assert_eq!(ipc_kind("Add_Todo"), IpcKind::Unknown);
}

#[test]
fn payload_size_limit() {
    assert!(ipc_payload_fits(&"a".repeat(MAX_IPC_PAYLOAD_BYTES)));
    assert!(!ipc_payload_fits(&"a".repeat(MAX_IPC_PAYLOAD_BYTES + 1)));
}

#[test]
fn toggle_show_hide_and_finalize() {
    let mut s = state();
    let e = s.step(UserEvent::HotkeyTrigger, 0, FRESH.to_string());
    assert!(s.overlay_visible);
    assert!(matches!(e[..], [Effect::ShowPanel, Effect::SetOverlayAnimated(true), Effect::PushState]));
    let e = s.step(UserEvent::HotkeyTrigger, 0, FRESH.to_string());
    assert!(!s.overlay_visible);
    assert_eq!(s.hide_token, 1);
    assert!(matches!(
        e[..],
        [Effect::SetOverlayAnimated(false), Effect::FinalizeHideLater(1), Effect::PushState]
    ));
    let e = s.step(UserEvent::FinalizeHide(1), 0, FRESH.to_string());
    assert!(matches!(e[..], [Effect::HideNative]));
}

#[test]
fn stale_finalize_is_ignored() {
    let mut s = state();
    s.step(UserEvent::HideOverlay, 0, FRESH.to_string());
    s.step(UserEvent::HotkeyTrigger, 0, FRESH.to_string());
    assert!(s.step(UserEvent::FinalizeHide(1), 0, FRESH.to_string()).is_empty());
    s.step(UserEvent::CloseRequested, 0, FRESH.to_string());
    assert_eq!(s.hide_token, 2);
    assert!(s.step(UserEvent::FinalizeHide(1), 0, FRESH.to_string()).is_empty());
    assert_eq!(s.step(UserEvent::FinalizeHide(2), 0, FRESH.to_string()).len(), 1);
}

#[test]
fn add_todo_appends_and_schedules_save() {
    let mut s = state();
    let e = ipc(&mut s, IpcRequest::AddTodo { text: "  new \n task ".to_string() }, 99);
    assert!(is_save_push(&e, 1));
    assert_eq!(s.todos.len(), 3);
    let t = &s.todos[2];
    assert_eq!(t.id, FRESH);
    assert_eq!(t.text, "new task");
    assert_eq!(t.created_at_ms, 99);
    assert_eq!(t.updated_at_ms, 99);
    assert!(!t.completed);
}

#[test]
fn blank_add_does_nothing() {
    let mut s = state();
    assert!(ipc(&mut s, IpcRequest::AddTodo { text: " \t\n".to_string() }, 5).is_empty());
    assert_eq!(s.todos.len(), 2);
    assert_eq!(s.save_token, 0);
}

#[test]
fn edit_todo_rewrites_text() {
    let mut s = state();
    let e = ipc(&mut s, IpcRequest::EditTodo { id: ID_B.to_string(), text: " renamed  item".to_string() }, 7);
    assert!(is_save_push(&e, 1));
    assert_eq!(s.todos[1].text, "renamed item");
    assert_eq!(s.todos[1].updated_at_ms, 7);
    assert_eq!(s.todos[1].created_at_ms, 1);
    let bad = ipc(&mut s, IpcRequest::EditTodo { id: "nope".to_string(), text: "x".to_string() }, 8);
    assert!(bad.is_empty());
    let blank = ipc(&mut s, IpcRequest::EditTodo { id: ID_A.to_string(), text: "  ".to_string() }, 8);
    assert!(blank.is_empty());
    assert_eq!(s.todos[0].text, "first");
    let missing = ipc(
        &mut s,
        IpcRequest::EditTodo { id: FRESH.to_string(), text: "x".to_string() },
        8,
    );
    assert!(missing.is_empty());
}

#[test]
fn delete_todo_removes_matches() {
    let mut s = state();
    let e = ipc(&mut s, IpcRequest::DeleteTodo { id: ID_A.to_string() }, 0);
    assert!(is_save_push(&e, 1));
    assert_eq!(s.todos.len(), 1);
    assert_eq!(s.todos[0].id, ID_B);
    assert!(ipc(&mut s, IpcRequest::DeleteTodo { id: ID_A.to_string() }, 0).is_empty());
    assert!(ipc(&mut s, IpcRequest::DeleteTodo { id: "x".to_string() }, 0).is_empty());
}

#[test]
fn complete_and_toggle_are_idempotent() {
    let mut s = state();
    let e = ipc(&mut s, IpcRequest::CompleteTodo { id: ID_A.to_string() }, 11);
    assert!(is_save_push(&e, 1));
    assert!(s.todos[0].completed);
    assert_eq!(s.todos[0].completed_at_ms, Some(11));
    assert!(ipc(&mut s, IpcRequest::CompleteTodo { id: ID_A.to_string() }, 12).is_empty());
    let e = ipc(&mut s, IpcRequest::ToggleTodo { id: ID_B.to_string() }, 13);
    assert!(is_save_push(&e, 2));
    assert!(ipc(&mut s, IpcRequest::ToggleTodo { id: ID_B.to_string() }, 14).is_empty());
}

#[test]
fn only_latest_save_flushes() {
    let mut s = state();
    ipc(&mut s, IpcRequest::CompleteTodo { id: ID_A.to_string() }, 1);
    ipc(&mut s, IpcRequest::CompleteTodo { id: ID_B.to_string() }, 2);
    assert!(s.step(UserEvent::FlushSave(1), 0, FRESH.to_string()).is_empty());
    let e = s.step(UserEvent::FlushSave(2), 0, FRESH.to_string());
    match &e[..] {
        [Effect::SaveTodos(f)] => {
            assert_eq!(f.log_prefix, "save todos failed: ");
            assert_eq!(f.notice.as_deref(), Some("无法保存代办，请检查磁盘权限或空间"));
            assert!(!f.abort);
        },
        _ => panic!("expected a save"),
    }
}

#[test]
fn trigger_key_requests() {
    let mut s = state();
    let e = ipc(&mut s, IpcRequest::SetTriggerKey { key: "kx".to_string() }, 0);
    assert_eq!(s.config.trigger_key, 'K');
    assert!(matches!(e[..], [Effect::ApplyTriggerKey('K'), Effect::SaveConfig(_), Effect::PushState]));
    ipc(&mut s, IpcRequest::SetTriggerKey { key: "9".to_string() }, 0);
    assert_eq!(s.config.trigger_key, 'J');
    assert!(ipc(&mut s, IpcRequest::SetTriggerKey { key: String::new() }, 0).is_empty());
    assert_eq!(s.config.trigger_key, 'J');
}

#[test]
fn launch_at_login_from_panel_and_tray() {
    let mut s = state();
    let e = ipc(&mut s, IpcRequest::SetLaunchAtLogin { enabled: false }, 0);
    assert!(!s.config.launch_at_login);
    match &e[..] {
        [Effect::SetTrayChecked(false), Effect::SetLaunchAtLogin(false, f), Effect::SaveConfig(_), Effect::PushState] => {
            assert!(f.abort);
            assert_eq!(f.log_prefix, "ipc handling failed: ");
        },
        _ => panic!("unexpected effects"),
    }
    let e = s.step(UserEvent::Tray(TrayCommand::ToggleLaunchAtLogin), 0, FRESH.to_string());
    assert!(s.config.launch_at_login);
    match &e[..] {
        [Effect::SetTrayChecked(true), Effect::SetLaunchAtLogin(true, f), Effect::SaveConfig(_), Effect::PushState] => {
            assert!(!f.abort);
            assert_eq!(f.notice.as_deref(), Some("切换开机启动失败"));
        },
        _ => panic!("unexpected effects"),
    }
}

#[test]
fn simple_requests() {
    let mut s = state();
    assert!(matches!(ipc(&mut s, IpcRequest::RequestState, 0)[..], [Effect::PushState, Effect::PushPermissions]));
    assert!(matches!(ipc(&mut s, IpcRequest::OpenInputModal, 0)[..], [Effect::OpenInputModal]));
    assert!(matches!(ipc(&mut s, IpcRequest::HideOverlay, 0)[..], [Effect::PostHideOverlay]));
    assert!(matches!(ipc(&mut s, IpcRequest::QuitApp, 0)[..], [Effect::PostQuit]));
    assert!(ipc(&mut s, IpcRequest::Unknown, 0).is_empty());
    let e = ipc(&mut s, IpcRequest::SetViewMode { mode: "List".to_string() }, 0);
    assert_eq!(s.view_mode, ViewMode::List);
    assert!(matches!(e[..], [Effect::PushState]));
    match &ipc(&mut s, IpcRequest::OpenPermissions, 0)[..] {
        [Effect::OpenPermissionSettings(f)] => {
            assert!(f.abort);
            assert_eq!(f.log_prefix, "ipc handling failed: failed to open system settings: ");
        },
        _ => panic!("unexpected effects"),
    }
}

#[test]
fn tray_commands() {
    let mut s = state();
    let e = s.step(UserEvent::Tray(TrayCommand::TogglePanel), 0, FRESH.to_string());
    assert!(s.overlay_visible);
    assert_eq!(e.len(), 3);
    assert!(matches!(s.step(UserEvent::Tray(TrayCommand::Quit), 0, FRESH.to_string())[..], [Effect::Exit]));
    match &s.step(UserEvent::Tray(TrayCommand::OpenPermissions), 0, FRESH.to_string())[..] {
        [Effect::OpenPermissionSettings(f)] => {
            assert_eq!(f.log_prefix, "open settings failed: ");
            assert!(!f.abort);
        },
        _ => panic!("unexpected effects"),
    }
    assert!(matches!(s.step(UserEvent::Quit, 0, FRESH.to_string())[..], [Effect::Exit]));
}

#[test]
fn errors_are_logged_and_shown() {
    let mut s = state();
    match &s.step(UserEvent::IpcRejected("invalid ipc payload: eof".to_string()), 0, FRESH.to_string())[..] {
        [Effect::LogError(m), Effect::EmitError(n)] => {
            assert_eq!(m, "ipc handling failed: invalid ipc payload: eof");
            assert_eq!(n, "处理请求失败，请稍后重试");
        },
        _ => panic!("unexpected effects"),
    }
    match &s.step(UserEvent::HotkeyError("tap failed".to_string()), 0, FRESH.to_string())[..] {
        [Effect::LogError(m), Effect::EmitError(n)] => {
            assert_eq!(m, "tap failed");
            assert_eq!(n, "全局快捷键监听失败，已降级为菜单栏点击呼出");
        },
        _ => panic!("unexpected effects"),
    }
}

#[test]
fn permission_refresh_starts_hotkey_once() {
    let mut s = state();
    assert!(s.step(UserEvent::PermissionsRefreshed(denied()), 0, FRESH.to_string()).is_empty());
    let e = s.step(UserEvent::PermissionsRefreshed(granted()), 0, FRESH.to_string());
    assert!(s.hotkey_started);
    assert!(matches!(e[..], [Effect::PushPermissions, Effect::StartHotkeyListener(250)]));
    let only_access = PermissionState { input_monitoring: false, accessibility: true };
    let e = s.step(UserEvent::PermissionsRefreshed(only_access), 0, FRESH.to_string());
    assert!(matches!(e[..], [Effect::PushPermissions]));
    let e = s.step(UserEvent::PermissionsRefreshed(granted()), 0, FRESH.to_string());
    assert!(matches!(e[..], [Effect::PushPermissions]));
}

#[test]
fn boot_with_todos_and_permissions() {
    let mut config = AppConfig::default();
    config.trigger_key = 'q';
    let (s, e) = RuntimeState::boot(vec![item(ID_A, "kept")], config, granted(), true);
    assert_eq!(s.config.trigger_key, 'Q');
    assert_eq!(s.todos.len(), 1);
    assert!(s.hotkey_started);
    assert!(!s.overlay_visible);
    match &e[..] {
        [Effect::SetLaunchAtLogin(false, refresh), Effect::SetLaunchAtLogin(true, sync), Effect::StartHotkeyListener(250), Effect::PushState, Effect::PushPermissions] => {
            assert_eq!(refresh.log_prefix, "launch-at-login refresh (disable old registration) failed: ");
            assert_eq!(sync.log_prefix, "launch-at-login sync failed: ");
        },
        _ => panic!("unexpected effects"),
    }
}

#[test]
fn boot_seeds_an_empty_list() {
    let mut config = AppConfig::default();
    config.launch_at_login = false;
    let (s, e) = RuntimeState::boot(Vec::new(), config, denied(), true);
    assert_eq!(s.todos.len(), 10);
    assert!(!s.hotkey_started);
    match &e[..] {
        [Effect::SaveTodos(f), Effect::SetLaunchAtLogin(false, _), Effect::PushState, Effect::PushPermissions] => {
            assert_eq!(f.log_prefix, "seed todos failed: ");
        },
        _ => panic!("unexpected effects"),
    }
}

#[test]
fn handle_event_adds_with_fresh_id() {
    let mut s = state();
    let e = s.handle_event(UserEvent::Ipc(IpcRequest::AddTodo { text: "fresh".to_string() }));
    assert_eq!(e.len(), 2);
    assert_eq!(s.todos.len(), 3);
    assert!(aoiplate::storage::is_valid_todo_id(&s.todos[2].id));
    let id = s.todos[2].id.clone();
    let e = s.handle_event(UserEvent::Ipc(IpcRequest::CompleteTodo { id }));
    assert_eq!(e.len(), 2);
    assert!(s.todos[2].completed);
}

#[test]
fn only_adding_creates_todos_with_ids() {
    assert!(aoiplate::runtime::event_creates_todo(&UserEvent::Ipc(IpcRequest::AddTodo { text: "x".to_string() })));
    assert!(!aoiplate::runtime::event_creates_todo(&UserEvent::Ipc(IpcRequest::RequestState)));
    assert!(!aoiplate::runtime::event_creates_todo(&UserEvent::HotkeyTrigger));
    let mut s = state();
    let e = s.handle_event(UserEvent::HotkeyTrigger);
    assert_eq!(e.len(), 3);
    assert_eq!(s.todos.len(), 2);
}

#[test]
fn listener_is_started_only_once() {
    let mut s = RuntimeState::new(Vec::new(), AppConfig::default(), denied());
    let first = s.step(UserEvent::PermissionsRefreshed(granted()), 0, FRESH.to_string());
    assert!(first.iter().filter(|e| matches!(e, Effect::StartHotkeyListener(_))).count() == 1);
    s.step(UserEvent::PermissionsRefreshed(denied()), 0, FRESH.to_string());
    let again = s.step(UserEvent::PermissionsRefreshed(granted()), 0, FRESH.to_string());
    assert!(!again.iter().any(|e| matches!(e, Effect::StartHotkeyListener(_))));
    assert!(s.hotkey_started);
}

#[test]
fn start_hotkey_needs_permission_and_runs_once() {
    let mut s = RuntimeState::new(Vec::new(), AppConfig::default(), denied());
    assert!(s.start_hotkey_if_possible().is_empty());
    assert!(!s.hotkey_started);
    s.permissions = granted();
    let first = s.start_hotkey_if_possible();
    assert!(matches!(first[..], [Effect::StartHotkeyListener(250)]));
    assert!(s.hotkey_started);
    assert!(s.start_hotkey_if_possible().is_empty());
    assert!(s.hotkey_started);
}

#[test]
fn unsupported_platform_answers() {
    let p = aoiplate::permissions::unsupported_platform_permissions();
    assert!(!p.input_monitoring);
    assert!(!p.accessibility);
    assert_eq!(
        aoiplate::hotkey::unsupported_platform_message(),
        "hotkey listener is only implemented for macOS"
    );
}
