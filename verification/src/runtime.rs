//! The application's state machine: every event the menu-bar app receives (hotkey,
//! tray, web panel requests, timers, permission polls) turns the runtime state into
//! its next state and a list of effects that the event loop carries out in order.

use vstd::prelude::*;

use crate::config::{hotkey_or, AppConfig};
use crate::permissions::PermissionState;
use crate::storage::{
    complete_todo_in, find_todo, first_with_id, is_valid_todo_id, is_valid_todo_id_text,
    mark_todo_completed_at, remove_todos_with_id, todos_view, without_id, TodoItem, TodoView,
};
use crate::text::{
    ascii_lower_seq, collapse_whitespace, lowercase_equals, same_text,
};
use crate::tray::TrayCommand;

verus! {

// ---- view mode ------------------------------------------------------------------

/// How the stage lays out the todos.
#[derive(Debug, Clone, Copy, PartialEq, Eq, Structural)]
pub enum ViewMode {
    Explosion,
    List,
}

impl Default for ViewMode {
    fn default() -> (r: Self)
        ensures
            r == ViewMode::Explosion,
    {
        ViewMode::Explosion
    }
}

/// The view mode a request names: `list` in any letter case, the explosion otherwise.
pub open spec fn view_mode_of(raw: Seq<char>) -> ViewMode {
    if ascii_lower_seq(raw) == "list"@ {
        ViewMode::List
    } else {
        ViewMode::Explosion
    }
}

pub fn parse_view_mode(raw: &str) -> (r: ViewMode)
    ensures
        r == view_mode_of(raw@),
{
    if lowercase_equals(raw, "list") {
        ViewMode::List
    } else {
        ViewMode::Explosion
    }
}

// ---- requests from the web panel ----------------------------------------------------

/// The kinds of message the web panel sends.
#[derive(Debug, Clone, Copy, PartialEq, Eq, Structural)]
pub enum IpcKind {
    RequestState,
    AddTodo,
    EditTodo,
    DeleteTodo,
    CompleteTodo,
    ToggleTodo,
    SetTriggerKey,
    SetViewMode,
    OpenInputModal,
    HideOverlay,
    OpenPermissions,
    SetLaunchAtLogin,
    QuitApp,
    Unknown,
}

/// The kind a message's `type` field names.
pub open spec fn ipc_kind_of(kind: Seq<char>) -> IpcKind {
    if kind == "request_state"@ {
        IpcKind::RequestState
    } else if kind == "add_todo"@ {
        IpcKind::AddTodo
    } else if kind == "edit_todo"@ {
        IpcKind::EditTodo
    } else if kind == "delete_todo"@ {
        IpcKind::DeleteTodo
    } else if kind == "complete_todo"@ {
        IpcKind::CompleteTodo
    } else if kind == "toggle_todo"@ {
        IpcKind::ToggleTodo
    } else if kind == "set_trigger_key"@ {
        IpcKind::SetTriggerKey
    } else if kind == "set_view_mode"@ {
        IpcKind::SetViewMode
    } else if kind == "open_input_modal"@ {
        IpcKind::OpenInputModal
    } else if kind == "hide_overlay"@ || kind == "hide_panel"@ {
        IpcKind::HideOverlay
    } else if kind == "open_permissions"@ {
        IpcKind::OpenPermissions
    } else if kind == "set_launch_at_login"@ {
        IpcKind::SetLaunchAtLogin
    } else if kind == "quit_app"@ {
        IpcKind::QuitApp
    } else {
        IpcKind::Unknown
    }
}

pub fn ipc_kind(kind: &str) -> (r: IpcKind)
    ensures
        r == ipc_kind_of(kind@),
{
    if same_text(kind, "request_state") {
        IpcKind::RequestState
    } else if same_text(kind, "add_todo") {
        IpcKind::AddTodo
    } else if same_text(kind, "edit_todo") {
        IpcKind::EditTodo
    } else if same_text(kind, "delete_todo") {
        IpcKind::DeleteTodo
    } else if same_text(kind, "complete_todo") {
        IpcKind::CompleteTodo
    } else if same_text(kind, "toggle_todo") {
        IpcKind::ToggleTodo
    } else if same_text(kind, "set_trigger_key") {
        IpcKind::SetTriggerKey
    } else if same_text(kind, "set_view_mode") {
        IpcKind::SetViewMode
    } else if same_text(kind, "open_input_modal") {
        IpcKind::OpenInputModal
    } else if same_text(kind, "hide_overlay") || same_text(kind, "hide_panel") {
        IpcKind::HideOverlay
    } else if same_text(kind, "open_permissions") {
        IpcKind::OpenPermissions
    } else if same_text(kind, "set_launch_at_login") {
        IpcKind::SetLaunchAtLogin
    } else if same_text(kind, "quit_app") {
        IpcKind::QuitApp
    } else {
        IpcKind::Unknown
    }
}

/// The largest message, in bytes, the web panel may send.
pub const MAX_IPC_PAYLOAD_BYTES: usize = 16384;

/// Whether a raw message is small enough to be read at all.
pub fn ipc_payload_fits(raw: &str) -> (r: bool)
    ensures
        r == (raw.len() <= MAX_IPC_PAYLOAD_BYTES),
{
    raw.len() <= MAX_IPC_PAYLOAD_BYTES
}

/// A request of the web panel together with what its payload carried.
#[derive(Debug, Clone)]
pub enum IpcRequest {
    RequestState,
    AddTodo { text: String },
    EditTodo { id: String, text: String },
    DeleteTodo { id: String },
    CompleteTodo { id: String },
    ToggleTodo { id: String },
    SetTriggerKey { key: String },
    SetViewMode { mode: String },
    OpenInputModal,
    HideOverlay,
    OpenPermissions,
    SetLaunchAtLogin { enabled: bool },
    QuitApp,
    Unknown,
}

pub enum RequestView {
    RequestState,
    AddTodo { text: Seq<char> },
    EditTodo { id: Seq<char>, text: Seq<char> },
    DeleteTodo { id: Seq<char> },
    CompleteTodo { id: Seq<char> },
    ToggleTodo { id: Seq<char> },
    SetTriggerKey { key: Seq<char> },
    SetViewMode { mode: Seq<char> },
    OpenInputModal,
    HideOverlay,
    OpenPermissions,
    SetLaunchAtLogin { enabled: bool },
    QuitApp,
    Unknown,
}

impl View for IpcRequest {
    type V = RequestView;

    open spec fn view(&self) -> RequestView {
        match self {
            IpcRequest::RequestState => RequestView::RequestState,
            IpcRequest::AddTodo { text } => RequestView::AddTodo { text: text@ },
            IpcRequest::EditTodo { id, text } => RequestView::EditTodo { id: id@, text: text@ },
            IpcRequest::DeleteTodo { id } => RequestView::DeleteTodo { id: id@ },
            IpcRequest::CompleteTodo { id } => RequestView::CompleteTodo { id: id@ },
            IpcRequest::ToggleTodo { id } => RequestView::ToggleTodo { id: id@ },
            IpcRequest::SetTriggerKey { key } => RequestView::SetTriggerKey { key: key@ },
            IpcRequest::SetViewMode { mode } => RequestView::SetViewMode { mode: mode@ },
            IpcRequest::OpenInputModal => RequestView::OpenInputModal,
            IpcRequest::HideOverlay => RequestView::HideOverlay,
            IpcRequest::OpenPermissions => RequestView::OpenPermissions,
            IpcRequest::SetLaunchAtLogin { enabled } => RequestView::SetLaunchAtLogin {
                enabled: *enabled,
            },
            IpcRequest::QuitApp => RequestView::QuitApp,
            IpcRequest::Unknown => RequestView::Unknown,
        }
    }
}

// ---- events ---------------------------------------------------------------------

/// Something the event loop hands to the state machine.
#[derive(Debug, Clone)]
pub enum UserEvent {
    /// The trigger key was double-tapped.
    HotkeyTrigger,
    /// Something asked for the overlay to be hidden.
    HideOverlay,
    /// The overlay window's close button was used.
    CloseRequested,
    /// The hide animation that was started with this token has run its course.
    FinalizeHide(u64),
    /// The save that was scheduled with this token is due.
    FlushSave(u64),
    /// A well-formed request from the web panel.
    Ipc(IpcRequest),
    /// A message from the web panel that could not be read, with the reason.
    IpcRejected(String),
    /// A command from the menu-bar icon.
    Tray(TrayCommand),
    /// The hotkey listener failed, with its message.
    HotkeyError(String),
    /// The periodic permission poll found this state.
    PermissionsRefreshed(PermissionState),
    /// Quitting was requested.
    Quit,
}

pub enum EventView {
    HotkeyTrigger,
    HideOverlay,
    CloseRequested,
    FinalizeHide(u64),
    FlushSave(u64),
    Ipc(RequestView),
    IpcRejected(Seq<char>),
    Tray(TrayCommand),
    HotkeyError(Seq<char>),
    PermissionsRefreshed(PermissionState),
    Quit,
}

impl View for UserEvent {
    type V = EventView;

    open spec fn view(&self) -> EventView {
        match self {
            UserEvent::HotkeyTrigger => EventView::HotkeyTrigger,
            UserEvent::HideOverlay => EventView::HideOverlay,
            UserEvent::CloseRequested => EventView::CloseRequested,
            UserEvent::FinalizeHide(t) => EventView::FinalizeHide(*t),
            UserEvent::FlushSave(t) => EventView::FlushSave(*t),
            UserEvent::Ipc(r) => EventView::Ipc(r@),
            UserEvent::IpcRejected(d) => EventView::IpcRejected(d@),
            UserEvent::Tray(c) => EventView::Tray(*c),
            UserEvent::HotkeyError(m) => EventView::HotkeyError(m@),
            UserEvent::PermissionsRefreshed(p) => EventView::PermissionsRefreshed(*p),
            UserEvent::Quit => EventView::Quit,
        }
    }
}

// ---- effects --------------------------------------------------------------------

/// What to do when an outside operation fails: log `log_prefix` followed by the error,
/// show `notice` in the panel if there is one, and skip the remaining effects of the
/// same event when `abort` is set.
#[derive(Debug, Clone)]
pub struct OnFailure {
    pub log_prefix: String,
    pub notice: Option<String>,
    pub abort: bool,
}

pub struct FailureView {
    pub log_prefix: Seq<char>,
    pub notice: Option<Seq<char>>,
    pub abort: bool,
}

impl View for OnFailure {
    type V = FailureView;

    open spec fn view(&self) -> FailureView {
        FailureView {
            log_prefix: self.log_prefix@,
            notice: match self.notice {
                Some(n) => Some(n@),
                None => None,
            },
            abort: self.abort,
        }
    }
}

/// An action for the event loop.
#[derive(Debug, Clone)]
pub enum Effect {
    /// Send the full state (todos, settings, counts) to the panel.
    PushState,
    /// Send the permission state to the panel.
    PushPermissions,
    /// Show an error notice in the panel.
    EmitError(String),
    /// Append a line to the error log.
    LogError(String),
    /// Make the overlay window visible and focus it.
    ShowPanel,
    /// Run the panel's show or hide animation.
    SetOverlayAnimated(bool),
    /// Hide the overlay window.
    HideNative,
    /// After the hide animation, deliver `FinalizeHide` with this token.
    FinalizeHideLater(u64),
    /// After the save delay, deliver `FlushSave` with this token.
    FlushSaveLater(u64),
    /// Write the todos to disk.
    SaveTodos(OnFailure),
    /// Write the settings to disk.
    SaveConfig(OnFailure),
    /// Make the hotkey listener watch this letter.
    ApplyTriggerKey(char),
    /// Tick or untick the launch-at-login menu entry.
    SetTrayChecked(bool),
    /// Register or unregister launching at login.
    SetLaunchAtLogin(bool, OnFailure),
    /// Open the system's permission settings.
    OpenPermissionSettings(OnFailure),
    /// Ask the panel to open its input box.
    OpenInputModal,
    /// Deliver `HideOverlay` to the event loop.
    PostHideOverlay,
    /// Deliver `Quit` to the event loop.
    PostQuit,
    /// Start the global hotkey listener with this double-tap window in milliseconds.
    StartHotkeyListener(u16),
    /// Leave the event loop.
    Exit,
}

pub enum EffectView {
    PushState,
    PushPermissions,
    EmitError(Seq<char>),
    LogError(Seq<char>),
    ShowPanel,
    SetOverlayAnimated(bool),
    HideNative,
    FinalizeHideLater(u64),
    FlushSaveLater(u64),
    SaveTodos(FailureView),
    SaveConfig(FailureView),
    ApplyTriggerKey(char),
    SetTrayChecked(bool),
    SetLaunchAtLogin(bool, FailureView),
    OpenPermissionSettings(FailureView),
    OpenInputModal,
    PostHideOverlay,
    PostQuit,
    StartHotkeyListener(u16),
    Exit,
}

impl View for Effect {
    type V = EffectView;

    open spec fn view(&self) -> EffectView {
        match self {
            Effect::PushState => EffectView::PushState,
            Effect::PushPermissions => EffectView::PushPermissions,
            Effect::EmitError(m) => EffectView::EmitError(m@),
            Effect::LogError(m) => EffectView::LogError(m@),
            Effect::ShowPanel => EffectView::ShowPanel,
            Effect::SetOverlayAnimated(v) => EffectView::SetOverlayAnimated(*v),
            Effect::HideNative => EffectView::HideNative,
            Effect::FinalizeHideLater(t) => EffectView::FinalizeHideLater(*t),
            Effect::FlushSaveLater(t) => EffectView::FlushSaveLater(*t),
            Effect::SaveTodos(f) => EffectView::SaveTodos(f@),
            Effect::SaveConfig(f) => EffectView::SaveConfig(f@),
            Effect::ApplyTriggerKey(c) => EffectView::ApplyTriggerKey(*c),
            Effect::SetTrayChecked(b) => EffectView::SetTrayChecked(*b),
            Effect::SetLaunchAtLogin(b, f) => EffectView::SetLaunchAtLogin(*b, f@),
            Effect::OpenPermissionSettings(f) => EffectView::OpenPermissionSettings(f@),
            Effect::OpenInputModal => EffectView::OpenInputModal,
            Effect::PostHideOverlay => EffectView::PostHideOverlay,
            Effect::PostQuit => EffectView::PostQuit,
            Effect::StartHotkeyListener(ms) => EffectView::StartHotkeyListener(*ms),
            Effect::Exit => EffectView::Exit,
        }
    }
}

/// The value of a list of effects.
pub open spec fn effects_view(v: Seq<Effect>) -> Seq<EffectView> {
    v.map_values(|e: Effect| e@)
}

// ---- texts ------------------------------------------------------------------------

/// Notice shown when a request from the panel could not be handled.
pub const IPC_FAILED_NOTICE: &'static str = "处理请求失败，请稍后重试";

/// Notice shown when the todos could not be saved.
pub const SAVE_TODOS_NOTICE: &'static str = "无法保存代办，请检查磁盘权限或空间";

/// Notice shown when the permission settings could not be opened.
pub const OPEN_SETTINGS_NOTICE: &'static str = "无法打开系统权限设置";

/// Notice shown when launching at login could not be switched from the menu.
pub const TOGGLE_LAUNCH_NOTICE: &'static str = "切换开机启动失败";

/// Notice shown when the global hotkey could not be installed.
pub const HOTKEY_FAILED_NOTICE: &'static str = "全局快捷键监听失败，已降级为菜单栏点击呼出";

/// Log prefix for failed request handling.
pub const IPC_FAILED_PREFIX: &'static str = "ipc handling failed: ";

pub open spec fn failure_view(prefix: Seq<char>, notice: Option<Seq<char>>, abort: bool) -> FailureView {
    FailureView { log_prefix: prefix, notice, abort }
}

/// Saving the todos failed: log and tell the user.
pub open spec fn save_todos_failure() -> FailureView {
    failure_view("save todos failed: "@, Some(SAVE_TODOS_NOTICE@), false)
}

/// Saving the settings failed: log only.
pub open spec fn save_config_failure() -> FailureView {
    failure_view("save config failed: "@, None, false)
}

/// A step of a panel request failed: log, tell the user, and stop handling the request.
pub open spec fn ipc_failure() -> FailureView {
    failure_view(IPC_FAILED_PREFIX@, Some(IPC_FAILED_NOTICE@), true)
}

/// Opening the settings for a panel request failed.
pub open spec fn ipc_open_settings_failure() -> FailureView {
    failure_view(
        "ipc handling failed: failed to open system settings: "@,
        Some(IPC_FAILED_NOTICE@),
        true,
    )
}

/// Opening the settings from the menu failed.
pub open spec fn tray_open_settings_failure() -> FailureView {
    failure_view("open settings failed: "@, Some(OPEN_SETTINGS_NOTICE@), false)
}

/// Switching launch-at-login from the menu failed.
pub open spec fn tray_launch_failure() -> FailureView {
    failure_view("toggle launch-at-login failed: "@, Some(TOGGLE_LAUNCH_NOTICE@), false)
}

/// Saving the sample todos of a first start failed.
pub open spec fn seed_save_failure() -> FailureView {
    failure_view("seed todos failed: "@, None, false)
}

/// Unregistering an older launch-at-login entry after moving the data failed.
pub open spec fn launch_refresh_failure() -> FailureView {
    failure_view("launch-at-login refresh (disable old registration) failed: "@, None, false)
}

/// Bringing launch-at-login in line with the settings at start failed.
pub open spec fn launch_sync_failure() -> FailureView {
    failure_view("launch-at-login sync failed: "@, None, false)
}

fn on_failure(prefix: &str, notice: Option<&str>, abort: bool) -> (r: OnFailure)
    ensures
        r@ == failure_view(
            prefix@,
            match notice {
                Some(n) => Some(n@),
                None => None,
            },
            abort,
        ),
{
    OnFailure {
        log_prefix: prefix.to_owned(),
        notice: match notice {
            Some(n) => Some(n.to_owned()),
            None => None,
        },
        abort,
    }
}

/// The concatenation of two texts.
fn joined(a: &str, b: &str) -> (r: String)
    ensures
        r@ == a@ + b@,
{
    let mut s = a.to_owned();
    s.append(b);
    s
}

} // verus!

verus! {

// ---- state ------------------------------------------------------------------------

/// Everything the running application remembers between events.
pub struct RuntimeState {
    pub todos: Vec<TodoItem>,
    pub config: AppConfig,
    pub permissions: PermissionState,
    /// The hotkey listener has been started.
    pub hotkey_started: bool,
    /// The overlay is shown (or being shown).
    pub overlay_visible: bool,
    pub view_mode: ViewMode,
    /// Token of the latest hide; an older hide's timer no longer hides the window.
    pub hide_token: u64,
    /// Token of the latest scheduled save; an older save's timer no longer saves.
    pub save_token: u64,
}

pub struct RuntimeModel {
    pub todos: Seq<TodoView>,
    pub config: AppConfig,
    pub permissions: PermissionState,
    pub hotkey_started: bool,
    pub overlay_visible: bool,
    pub view_mode: ViewMode,
    pub hide_token: u64,
    pub save_token: u64,
}

impl View for RuntimeState {
    type V = RuntimeModel;

    open spec fn view(&self) -> RuntimeModel {
        RuntimeModel {
            todos: todos_view(self.todos@),
            config: self.config,
            permissions: self.permissions,
            hotkey_started: self.hotkey_started,
            overlay_visible: self.overlay_visible,
            view_mode: self.view_mode,
            hide_token: self.hide_token,
            save_token: self.save_token,
        }
    }
}

/// The step after a change of a tracked item: the next token, wrapping around.
pub open spec fn next_token(t: u64) -> u64 {
    t.wrapping_add(1)
}

/// Showing the overlay.
pub open spec fn show_transition(m: RuntimeModel) -> (RuntimeModel, Seq<EffectView>) {
    (
        RuntimeModel { overlay_visible: true, ..m },
        seq![EffectView::ShowPanel, EffectView::SetOverlayAnimated(true), EffectView::PushState],
    )
}

/// Hiding the overlay: the animation runs now and the window is hidden later, unless
/// the overlay is shown again first.
pub open spec fn hide_transition(m: RuntimeModel) -> (RuntimeModel, Seq<EffectView>) {
    let t = next_token(m.hide_token);
    (
        RuntimeModel { overlay_visible: false, hide_token: t, ..m },
        seq![
            EffectView::SetOverlayAnimated(false),
            EffectView::FinalizeHideLater(t),
            EffectView::PushState,
        ],
    )
}

pub open spec fn toggle_transition(m: RuntimeModel) -> (RuntimeModel, Seq<EffectView>) {
    if m.overlay_visible {
        hide_transition(m)
    } else {
        show_transition(m)
    }
}

/// After the todos changed: schedule a save (only the latest scheduled one writes) and
/// refresh the panel.
pub open spec fn changed_todos(m: RuntimeModel, todos: Seq<TodoView>) -> (RuntimeModel, Seq<EffectView>) {
    let t = next_token(m.save_token);
    (
        RuntimeModel { todos, save_token: t, ..m },
        seq![EffectView::FlushSaveLater(t), EffectView::PushState],
    )
}

/// Starting the hotkey listener, once, and only with input monitoring granted.
pub open spec fn start_hotkey_transition(m: RuntimeModel) -> (RuntimeModel, Seq<EffectView>) {
    if m.hotkey_started || !m.permissions.input_monitoring {
        (m, Seq::empty())
    } else {
        (
            RuntimeModel { hotkey_started: true, ..m },
            seq![EffectView::StartHotkeyListener(m.config.double_tap_ms)],
        )
    }
}

/// A new open todo.
pub open spec fn new_todo_view(id: Seq<char>, text: Seq<char>, now: i64) -> TodoView {
    TodoView {
        id,
        text,
        completed: false,
        created_at_ms: now,
        updated_at_ms: now,
        completed_at_ms: None,
    }
}

/// Nothing changes and nothing happens.
pub open spec fn unchanged(m: RuntimeModel) -> (RuntimeModel, Seq<EffectView>) {
    (m, Seq::empty())
}

pub open spec fn add_transition(m: RuntimeModel, raw: Seq<char>, now: i64, fresh_id: Seq<char>) -> (RuntimeModel, Seq<EffectView>) {
    let text = collapse_whitespace(raw);
    if text.len() == 0 {
        unchanged(m)
    } else {
        changed_todos(m, m.todos.push(new_todo_view(fresh_id, text, now)))
    }
}

pub open spec fn edit_transition(m: RuntimeModel, id: Seq<char>, raw: Seq<char>, now: i64) -> (RuntimeModel, Seq<EffectView>) {
    let text = collapse_whitespace(raw);
    if !is_valid_todo_id_text(id) || text.len() == 0 {
        unchanged(m)
    } else {
        match first_with_id(m.todos, id) {
            Some(i) => changed_todos(
                m,
                m.todos.update(i, TodoView { text, updated_at_ms: now, ..m.todos[i] }),
            ),
            None => unchanged(m),
        }
    }
}

pub open spec fn delete_transition(m: RuntimeModel, id: Seq<char>) -> (RuntimeModel, Seq<EffectView>) {
    let rest = without_id(m.todos, id);
    if !is_valid_todo_id_text(id) || rest.len() == m.todos.len() {
        unchanged(m)
    } else {
        changed_todos(m, rest)
    }
}

pub open spec fn complete_transition(m: RuntimeModel, id: Seq<char>, now: i64) -> (RuntimeModel, Seq<EffectView>) {
    let (todos, changed) = complete_todo_in(m.todos, id, now);
    if !is_valid_todo_id_text(id) || !changed {
        unchanged(m)
    } else {
        changed_todos(m, todos)
    }
}

pub open spec fn set_trigger_transition(m: RuntimeModel, key: Seq<char>) -> (RuntimeModel, Seq<EffectView>) {
    if key.len() == 0 {
        unchanged(m)
    } else {
        let c = hotkey_or(key[0], 'J');
        (
            RuntimeModel { config: AppConfig { trigger_key: c, ..m.config }, ..m },
            seq![
                EffectView::ApplyTriggerKey(c),
                EffectView::SaveConfig(save_config_failure()),
                EffectView::PushState,
            ],
        )
    }
}

/// Setting launch-at-login from the panel; a registration failure stops the request
/// before the settings are saved.
pub open spec fn set_launch_transition(m: RuntimeModel, enabled: bool) -> (RuntimeModel, Seq<EffectView>) {
    (
        RuntimeModel { config: AppConfig { launch_at_login: enabled, ..m.config }, ..m },
        seq![
            EffectView::SetTrayChecked(enabled),
            EffectView::SetLaunchAtLogin(enabled, ipc_failure()),
            EffectView::SaveConfig(save_config_failure()),
            EffectView::PushState,
        ],
    )
}

/// What a request from the web panel does.
pub open spec fn ipc_transition(m: RuntimeModel, req: RequestView, now: i64, fresh_id: Seq<char>) -> (RuntimeModel, Seq<EffectView>) {
    match req {
        RequestView::RequestState => (m, seq![EffectView::PushState, EffectView::PushPermissions]),
        RequestView::AddTodo { text } => add_transition(m, text, now, fresh_id),
        RequestView::EditTodo { id, text } => edit_transition(m, id, text, now),
        RequestView::DeleteTodo { id } => delete_transition(m, id),
        RequestView::CompleteTodo { id } => complete_transition(m, id, now),
        RequestView::ToggleTodo { id } => complete_transition(m, id, now),
        RequestView::SetTriggerKey { key } => set_trigger_transition(m, key),
        RequestView::SetViewMode { mode } => (
            RuntimeModel { view_mode: view_mode_of(mode), ..m },
            seq![EffectView::PushState],
        ),
        RequestView::OpenInputModal => (m, seq![EffectView::OpenInputModal]),
        RequestView::HideOverlay => (m, seq![EffectView::PostHideOverlay]),
        RequestView::OpenPermissions => (
            m,
            seq![EffectView::OpenPermissionSettings(ipc_open_settings_failure())],
        ),
        RequestView::SetLaunchAtLogin { enabled } => set_launch_transition(m, enabled),
        RequestView::QuitApp => (m, seq![EffectView::PostQuit]),
        RequestView::Unknown => unchanged(m),
    }
}

/// What a command from the menu-bar icon does.
pub open spec fn tray_transition(m: RuntimeModel, cmd: TrayCommand) -> (RuntimeModel, Seq<EffectView>) {
    match cmd {
        TrayCommand::TogglePanel => toggle_transition(m),
        TrayCommand::OpenPermissions => (
            m,
            seq![EffectView::OpenPermissionSettings(tray_open_settings_failure())],
        ),
        TrayCommand::ToggleLaunchAtLogin => {
            let enabled = !m.config.launch_at_login;
            (
                RuntimeModel { config: AppConfig { launch_at_login: enabled, ..m.config }, ..m },
                seq![
                    EffectView::SetTrayChecked(enabled),
                    EffectView::SetLaunchAtLogin(enabled, tray_launch_failure()),
                    EffectView::SaveConfig(save_config_failure()),
                    EffectView::PushState,
                ],
            )
        },
        TrayCommand::Quit => (m, seq![EffectView::Exit]),
    }
}

/// What a fresh permission poll does: nothing when unchanged; otherwise the panel is
/// told, and a newly granted input monitoring starts the hotkey listener.
pub open spec fn permissions_transition(m: RuntimeModel, p: PermissionState) -> (RuntimeModel, Seq<EffectView>) {
    if p == m.permissions {
        unchanged(m)
    } else {
        let m1 = RuntimeModel { permissions: p, ..m };
        if p.input_monitoring {
            let (m2, started) = start_hotkey_transition(m1);
            (m2, seq![EffectView::PushPermissions] + started)
        } else {
            (m1, seq![EffectView::PushPermissions])
        }
    }
}

/// The state machine: the next state and the effects of an event, where `now` is the
/// current time and `fresh_id` the identifier a new todo would get.
pub open spec fn transition(m: RuntimeModel, e: EventView, now: i64, fresh_id: Seq<char>) -> (RuntimeModel, Seq<EffectView>) {
    match e {
        EventView::HotkeyTrigger => toggle_transition(m),
        EventView::HideOverlay => hide_transition(m),
        EventView::CloseRequested => hide_transition(m),
        EventView::FinalizeHide(t) => if !m.overlay_visible && t == m.hide_token {
            (m, seq![EffectView::HideNative])
        } else {
            unchanged(m)
        },
        EventView::FlushSave(t) => if t == m.save_token {
            (m, seq![EffectView::SaveTodos(save_todos_failure())])
        } else {
            unchanged(m)
        },
        EventView::Ipc(req) => ipc_transition(m, req, now, fresh_id),
        EventView::IpcRejected(detail) => (
            m,
            seq![
                EffectView::LogError(IPC_FAILED_PREFIX@ + detail),
                EffectView::EmitError(IPC_FAILED_NOTICE@),
            ],
        ),
        EventView::Tray(cmd) => tray_transition(m, cmd),
        EventView::HotkeyError(message) => (
            m,
            seq![EffectView::LogError(message), EffectView::EmitError(HOTKEY_FAILED_NOTICE@)],
        ),
        EventView::PermissionsRefreshed(p) => permissions_transition(m, p),
        EventView::Quit => (m, seq![EffectView::Exit]),
    }
}

} // verus!

verus! {

impl RuntimeState {
    /// The state right after start: overlay hidden, explosion view, no listener yet.
    pub fn new(todos: Vec<TodoItem>, config: AppConfig, permissions: PermissionState) -> (r: RuntimeState)
        ensures
            r@ == (RuntimeModel {
                todos: todos_view(todos@),
                config,
                permissions,
                hotkey_started: false,
                overlay_visible: false,
                view_mode: ViewMode::Explosion,
                hide_token: 0,
                save_token: 0,
            }),
    {
        RuntimeState {
            todos,
            config,
            permissions,
            hotkey_started: false,
            overlay_visible: false,
            view_mode: ViewMode::Explosion,
            hide_token: 0,
            save_token: 0,
        }
    }

    fn show_overlay(&mut self) -> (r: Vec<Effect>)
        ensures
            (final(self)@, effects_view(r@)) == show_transition(old(self)@),
    {
        self.overlay_visible = true;
        let r = vec![Effect::ShowPanel, Effect::SetOverlayAnimated(true), Effect::PushState];
        assert(effects_view(r@) =~= show_transition(old(self)@).1);
        r
    }

    fn hide_overlay(&mut self) -> (r: Vec<Effect>)
        ensures
            (final(self)@, effects_view(r@)) == hide_transition(old(self)@),
    {
        self.overlay_visible = false;
        self.hide_token = self.hide_token.wrapping_add(1);
        let token = self.hide_token;
        let r = vec![Effect::SetOverlayAnimated(false), Effect::FinalizeHideLater(token), Effect::PushState];
        assert(effects_view(r@) =~= hide_transition(old(self)@).1);
        r
    }

    fn toggle_overlay(&mut self) -> (r: Vec<Effect>)
        ensures
            (final(self)@, effects_view(r@)) == toggle_transition(old(self)@),
    {
        if self.overlay_visible {
            self.hide_overlay()
        } else {
            self.show_overlay()
        }
    }

    /// After the todos were changed in place: schedule a save and refresh the panel.
    fn schedule_save(&mut self) -> (r: Vec<Effect>)
        ensures
            (final(self)@, effects_view(r@)) == changed_todos(old(self)@, old(self)@.todos),
    {
        self.save_token = self.save_token.wrapping_add(1);
        let token = self.save_token;
        let r = vec![Effect::FlushSaveLater(token), Effect::PushState];
        assert(effects_view(r@) =~= changed_todos(old(self)@, old(self)@.todos).1);
        r
    }

    /// Starts the hotkey listener when it is not started yet and input monitoring is
    /// granted; it then counts as started.
    pub fn start_hotkey_if_possible(&mut self) -> (r: Vec<Effect>)
        ensures
            (final(self)@, effects_view(r@)) == start_hotkey_transition(old(self)@),
    {
        if self.hotkey_started || !self.permissions.input_monitoring {
            let r: Vec<Effect> = Vec::new();
            assert(effects_view(r@) =~= Seq::empty());
            return r;
        }
        self.hotkey_started = true;
        let r = vec![Effect::StartHotkeyListener(self.config.double_tap_ms)];
        assert(effects_view(r@) =~= start_hotkey_transition(old(self)@).1);
        r
    }

    fn nothing() -> (r: Vec<Effect>)
        ensures
            effects_view(r@) == Seq::<EffectView>::empty(),
    {
        let r: Vec<Effect> = Vec::new();
        assert(effects_view(r@) =~= Seq::empty());
        r
    }

    fn add_todo(&mut self, raw: String, now: i64, fresh_id: String) -> (r: Vec<Effect>)
        ensures
            (final(self)@, effects_view(r@)) == add_transition(old(self)@, raw@, now, fresh_id@),
    {
        let text = crate::storage::normalize_text(raw.as_str());
        if text.as_str().is_empty() {
            return Self::nothing();
        }
        let ghost before = self.todos@;
        self.todos.push(
            TodoItem {
                id: fresh_id,
                text,
                completed: false,
                created_at_ms: now,
                updated_at_ms: now,
                completed_at_ms: None,
            },
        );
        assert(todos_view(self.todos@) =~= todos_view(before).push(
            new_todo_view(fresh_id@, collapse_whitespace(raw@), now),
        ));
        self.schedule_save()
    }

    fn edit_todo(&mut self, id: String, raw: String, now: i64) -> (r: Vec<Effect>)
        ensures
            (final(self)@, effects_view(r@)) == edit_transition(old(self)@, id@, raw@, now),
    {
        if !is_valid_todo_id(id.as_str()) {
            return Self::nothing();
        }
        let text = crate::storage::normalize_text(raw.as_str());
        if text.as_str().is_empty() {
            return Self::nothing();
        }
        let ghost s = todos_view(self.todos@);
        match find_todo(&self.todos, id.as_str()) {
            Some(i) => {
                proof {
                    crate::storage::lemma_first_with_id(s, id@);
                }
                assert(s.len() == self.todos.len());
                assert(s[i as int] == self.todos@[i as int]@);
                self.todos[i].text = text;
                self.todos[i].updated_at_ms = now;
                assert(todos_view(self.todos@) =~= s.update(
                    i as int,
                    TodoView { text: collapse_whitespace(raw@), updated_at_ms: now, ..s[i as int] },
                ));
                self.schedule_save()
            },
            None => Self::nothing(),
        }
    }

    fn delete_todo(&mut self, id: String) -> (r: Vec<Effect>)
        ensures
            (final(self)@, effects_view(r@)) == delete_transition(old(self)@, id@),
    {
        if !is_valid_todo_id(id.as_str()) {
            return Self::nothing();
        }
        let ghost s = todos_view(self.todos@);
        let before = self.todos.len();
        let mut taken: Vec<TodoItem> = Vec::new();
        std::mem::swap(&mut taken, &mut self.todos);
        self.todos = remove_todos_with_id(taken, id.as_str());
        proof {
            crate::storage::lemma_without_id(s, id@);
        }
        assert(before == s.len());
        if self.todos.len() != before {
            self.schedule_save()
        } else {
            Self::nothing()
        }
    }

    fn complete_todo(&mut self, id: String, now: i64) -> (r: Vec<Effect>)
        ensures
            (final(self)@, effects_view(r@)) == complete_transition(old(self)@, id@, now),
    {
        if !is_valid_todo_id(id.as_str()) {
            return Self::nothing();
        }
        if mark_todo_completed_at(&mut self.todos, id.as_str(), now) {
            self.schedule_save()
        } else {
            Self::nothing()
        }
    }

    fn set_trigger_key(&mut self, key: String) -> (r: Vec<Effect>)
        ensures
            (final(self)@, effects_view(r@)) == set_trigger_transition(old(self)@, key@),
    {
        let n = key.as_str().unicode_len();
        if n == 0 {
            return Self::nothing();
        }
        let first = key.as_str().get_char(0);
        let c = crate::config::sanitize_trigger_key(first);
        self.config.trigger_key = c;
        let r = vec![
            Effect::ApplyTriggerKey(c),
            Effect::SaveConfig(on_failure("save config failed: ", None, false)),
            Effect::PushState,
        ];
        assert(effects_view(r@) =~= set_trigger_transition(old(self)@, key@).1);
        r
    }

    fn set_launch_at_login(&mut self, enabled: bool) -> (r: Vec<Effect>)
        ensures
            (final(self)@, effects_view(r@)) == set_launch_transition(old(self)@, enabled),
    {
        self.config.launch_at_login = enabled;
        let r = vec![
            Effect::SetTrayChecked(enabled),
            Effect::SetLaunchAtLogin(enabled, on_failure(IPC_FAILED_PREFIX, Some(IPC_FAILED_NOTICE), true)),
            Effect::SaveConfig(on_failure("save config failed: ", None, false)),
            Effect::PushState,
        ];
        assert(effects_view(r@) =~= set_launch_transition(old(self)@, enabled).1);
        r
    }

    /// Handles a request of the web panel.
    pub fn handle_ipc(&mut self, req: IpcRequest, now: i64, fresh_id: String) -> (r: Vec<Effect>)
        ensures
            (final(self)@, effects_view(r@)) == ipc_transition(old(self)@, req@, now, fresh_id@),
    {
        match req {
            IpcRequest::RequestState => {
                let r = vec![Effect::PushState, Effect::PushPermissions];
                assert(effects_view(r@) =~= seq![EffectView::PushState, EffectView::PushPermissions]);
                r
            },
            IpcRequest::AddTodo { text } => self.add_todo(text, now, fresh_id),
            IpcRequest::EditTodo { id, text } => self.edit_todo(id, text, now),
            IpcRequest::DeleteTodo { id } => self.delete_todo(id),
            IpcRequest::CompleteTodo { id } => self.complete_todo(id, now),
            IpcRequest::ToggleTodo { id } => self.complete_todo(id, now),
            IpcRequest::SetTriggerKey { key } => self.set_trigger_key(key),
            IpcRequest::SetViewMode { mode } => {
                self.view_mode = parse_view_mode(mode.as_str());
                let r = vec![Effect::PushState];
                assert(effects_view(r@) =~= seq![EffectView::PushState]);
                r
            },
            IpcRequest::OpenInputModal => {
                let r = vec![Effect::OpenInputModal];
                assert(effects_view(r@) =~= seq![EffectView::OpenInputModal]);
                r
            },
            IpcRequest::HideOverlay => {
                let r = vec![Effect::PostHideOverlay];
                assert(effects_view(r@) =~= seq![EffectView::PostHideOverlay]);
                r
            },
            IpcRequest::OpenPermissions => {
                let r = vec![
                    Effect::OpenPermissionSettings(
                        on_failure(
                            "ipc handling failed: failed to open system settings: ",
                            Some(IPC_FAILED_NOTICE),
                            true,
                        ),
                    ),
                ];
                assert(effects_view(r@) =~= seq![
                    EffectView::OpenPermissionSettings(ipc_open_settings_failure()),
                ]);
                r
            },
            IpcRequest::SetLaunchAtLogin { enabled } => self.set_launch_at_login(enabled),
            IpcRequest::QuitApp => {
                let r = vec![Effect::PostQuit];
                assert(effects_view(r@) =~= seq![EffectView::PostQuit]);
                r
            },
            IpcRequest::Unknown => Self::nothing(),
        }
    }

    /// Handles a command of the menu-bar icon.
    pub fn handle_tray(&mut self, cmd: TrayCommand) -> (r: Vec<Effect>)
        ensures
            (final(self)@, effects_view(r@)) == tray_transition(old(self)@, cmd),
    {
        match cmd {
            TrayCommand::TogglePanel => self.toggle_overlay(),
            TrayCommand::OpenPermissions => {
                let r = vec![
                    Effect::OpenPermissionSettings(
                        on_failure("open settings failed: ", Some(OPEN_SETTINGS_NOTICE), false),
                    ),
                ];
                assert(effects_view(r@) =~= seq![
                    EffectView::OpenPermissionSettings(tray_open_settings_failure()),
                ]);
                r
            },
            TrayCommand::ToggleLaunchAtLogin => {
                let enabled = !self.config.launch_at_login;
                self.config.launch_at_login = enabled;
                let r = vec![
                    Effect::SetTrayChecked(enabled),
                    Effect::SetLaunchAtLogin(
                        enabled,
                        on_failure("toggle launch-at-login failed: ", Some(TOGGLE_LAUNCH_NOTICE), false),
                    ),
                    Effect::SaveConfig(on_failure("save config failed: ", None, false)),
                    Effect::PushState,
                ];
                assert(effects_view(r@) =~= tray_transition(old(self)@, cmd).1);
                r
            },
            TrayCommand::Quit => {
                let r = vec![Effect::Exit];
                assert(effects_view(r@) =~= seq![EffectView::Exit]);
                r
            },
        }
    }

    fn refresh_permissions(&mut self, latest: PermissionState) -> (r: Vec<Effect>)
        ensures
            (final(self)@, effects_view(r@)) == permissions_transition(old(self)@, latest),
    {
        if latest == self.permissions {
            return Self::nothing();
        }
        self.permissions = latest;
        let mut r = vec![Effect::PushPermissions];
        if latest.input_monitoring {
            let ghost mid = self@;
            let mut started = self.start_hotkey_if_possible();
            let ghost started_view = effects_view(started@);
            r.append(&mut started);
            assert(effects_view(r@) =~= seq![EffectView::PushPermissions] + started_view);
        } else {
            assert(effects_view(r@) =~= seq![EffectView::PushPermissions]);
        }
        r
    }

    /// The state machine's step for `event`, with `now` as the current time and
    /// `fresh_id` as the identifier for a todo the event may create.
    pub fn step(&mut self, event: UserEvent, now: i64, fresh_id: String) -> (r: Vec<Effect>)
        ensures
            (final(self)@, effects_view(r@)) == transition(old(self)@, event@, now, fresh_id@),
    {
        match event {
            UserEvent::HotkeyTrigger => self.toggle_overlay(),
            UserEvent::HideOverlay => self.hide_overlay(),
            UserEvent::CloseRequested => self.hide_overlay(),
            UserEvent::FinalizeHide(token) => {
                if !self.overlay_visible && token == self.hide_token {
                    let r = vec![Effect::HideNative];
                    assert(effects_view(r@) =~= seq![EffectView::HideNative]);
                    r
                } else {
                    Self::nothing()
                }
            },
            UserEvent::FlushSave(token) => {
                if token == self.save_token {
                    let r = vec![
                        Effect::SaveTodos(
                            on_failure("save todos failed: ", Some(SAVE_TODOS_NOTICE), false),
                        ),
                    ];
                    assert(effects_view(r@) =~= seq![EffectView::SaveTodos(save_todos_failure())]);
                    r
                } else {
                    Self::nothing()
                }
            },
            UserEvent::Ipc(req) => self.handle_ipc(req, now, fresh_id),
            UserEvent::IpcRejected(detail) => {
                let r = vec![
                    Effect::LogError(joined(IPC_FAILED_PREFIX, detail.as_str())),
                    Effect::EmitError(IPC_FAILED_NOTICE.to_owned()),
                ];
                assert(effects_view(r@) =~= transition(old(self)@, event@, now, fresh_id@).1);
                r
            },
            UserEvent::Tray(cmd) => self.handle_tray(cmd),
            UserEvent::HotkeyError(message) => {
                let ghost mv = message@;
                let r = vec![
                    Effect::LogError(message),
                    Effect::EmitError(HOTKEY_FAILED_NOTICE.to_owned()),
                ];
                assert(effects_view(r@) =~= seq![
                    EffectView::LogError(mv),
                    EffectView::EmitError(HOTKEY_FAILED_NOTICE@),
                ]);
                r
            },
            UserEvent::PermissionsRefreshed(latest) => self.refresh_permissions(latest),
            UserEvent::Quit => {
                let r = vec![Effect::Exit];
                assert(effects_view(r@) =~= seq![EffectView::Exit]);
                r
            },
        }
    }

    /// Handles an event at the current time; a todo the event creates gets a fresh
    /// random identifier, drawn only for a request that adds a todo.
    pub fn handle_event(&mut self, event: UserEvent) -> (r: Vec<Effect>)
        ensures
            exists|now: i64, id: Seq<char>|
                #![trigger transition(old(self)@, event@, now, id)]
                (creates_todo(event@) ==> crate::storage::is_lower_hyphenated_uuid(id)) && (
                final(self)@, effects_view(r@)) == transition(old(self)@, event@, now, id),
    {
        let now = crate::storage::now_ms();
        let fresh_id = if event_creates_todo(&event) {
            crate::storage::new_todo_id()
        } else {
            String::new()
        };
        self.step(event, now, fresh_id)
    }
}

} // verus!

verus! {

/// The event is a panel request that adds a todo, the only event that uses a fresh
/// identifier.
pub open spec fn creates_todo(e: EventView) -> bool {
    e matches EventView::Ipc(RequestView::AddTodo { .. })
}

/// Whether the event is a panel request that adds a todo.
pub fn event_creates_todo(event: &UserEvent) -> (r: bool)
    ensures
        r == creates_todo(event@),
{
    match event {
        UserEvent::Ipc(IpcRequest::AddTodo { .. }) => true,
        _ => false,
    }
}

/// An effect list holds a start of the hotkey listener.
pub open spec fn starts_listener(es: Seq<EffectView>) -> bool {
    exists|i: int| 0 <= i < es.len() && (#[trigger] es[i]) is StartHotkeyListener
}

// ---- start-up -------------------------------------------------------------------

/// Bringing launch-at-login in line with the settings at start: after the data moved
/// from the older application folder, an existing registration is removed first.
pub open spec fn launch_sync_effects(migrated: bool, enabled: bool) -> Seq<EffectView> {
    (if migrated && enabled {
        seq![EffectView::SetLaunchAtLogin(false, launch_refresh_failure())]
    } else {
        Seq::empty()
    }) + seq![EffectView::SetLaunchAtLogin(enabled, launch_sync_failure())]
}

/// The state right after start, before any event.
pub open spec fn initial_model(todos: Seq<TodoView>, config: AppConfig, permissions: PermissionState) -> RuntimeModel {
    RuntimeModel {
        todos,
        config,
        permissions,
        hotkey_started: false,
        overlay_visible: false,
        view_mode: ViewMode::Explosion,
        hide_token: 0,
        save_token: 0,
    }
}

/// The effects of starting the application: save the sample todos when there were
/// none, sync launch-at-login, start the hotkey listener when permitted, and send the
/// state and the permissions to the panel.
pub open spec fn boot_effects(seeded: bool, migrated: bool, start: RuntimeModel) -> Seq<EffectView> {
    (if seeded {
        seq![EffectView::SaveTodos(seed_save_failure())]
    } else {
        Seq::empty()
    }) + launch_sync_effects(migrated, start.config.launch_at_login)
        + start_hotkey_transition(start).1 + seq![EffectView::PushState, EffectView::PushPermissions]
}

impl RuntimeState {
    /// Starts the application state from the loaded todos and settings: the settings are
    /// sanitised, an empty todo list is replaced by the sample todos, and the effects of
    /// the start are returned in order.
    pub fn boot(
        loaded: Vec<TodoItem>,
        config: AppConfig,
        permissions: PermissionState,
        migrated: bool,
    ) -> (r: (RuntimeState, Vec<Effect>))
        ensures
            ({
                let c = crate::config::sanitized(config);
                let seeded = loaded@.len() == 0;
                let start = initial_model(r.0@.todos, c, permissions);
                &&& !seeded ==> r.0@.todos == todos_view(loaded@)
                &&& seeded ==> exists|base: i64|
                    #[trigger] crate::storage::is_seed_list(r.0@.todos, base)
                &&& r.0@ == start_hotkey_transition(start).0
                &&& effects_view(r.1@) == boot_effects(seeded, migrated, start)
            }),
    {
        let mut config = config;
        config.sanitize();
        let seeded = loaded.len() == 0;
        let todos = if seeded {
            crate::storage::seeded_todos()
        } else {
            loaded
        };
        let mut effects: Vec<Effect> = Vec::new();
        if seeded {
            effects.push(Effect::SaveTodos(on_failure("seed todos failed: ", None, false)));
        }
        if migrated && config.launch_at_login {
            effects.push(
                Effect::SetLaunchAtLogin(
                    false,
                    on_failure("launch-at-login refresh (disable old registration) failed: ", None, false),
                ),
            );
        }
        effects.push(
            Effect::SetLaunchAtLogin(
                config.launch_at_login,
                on_failure("launch-at-login sync failed: ", None, false),
            ),
        );
        let ghost before_start = effects_view(effects@);
        let mut state = RuntimeState::new(todos, config, permissions);
        let mut started = state.start_hotkey_if_possible();
        let ghost started_view = effects_view(started@);
        effects.append(&mut started);
        effects.push(Effect::PushState);
        effects.push(Effect::PushPermissions);
        assert(effects_view(effects@) =~= before_start + started_view + seq![
            EffectView::PushState,
            EffectView::PushPermissions,
        ]);
        assert(before_start =~= (if seeded {
            seq![EffectView::SaveTodos(seed_save_failure())]
        } else {
            Seq::empty()
        }) + launch_sync_effects(migrated, config.launch_at_login));
        (state, effects)
    }
}

// ---- laws -------------------------------------------------------------------------

/// The hide timer of the latest hide hides the window.
pub proof fn lemma_hide_then_finalize_hides(m: RuntimeModel, now: i64, id: Seq<char>)
    ensures
        ({
            let m1 = hide_transition(m).0;
            transition(m1, EventView::FinalizeHide(m1.hide_token), now, id) == (
                m1,
                seq![EffectView::HideNative],
            )
        }),
{
}

/// Showing the overlay again before the hide timer fires keeps the window; so does a
/// later hide, whose own timer takes over.
pub proof fn lemma_stale_hide_timer_is_ignored(m: RuntimeModel, now: i64, id: Seq<char>)
    ensures
        ({
            let m1 = hide_transition(m).0;
            let shown = show_transition(m1).0;
            let hidden_again = hide_transition(m1).0;
            &&& transition(shown, EventView::FinalizeHide(m1.hide_token), now, id) == unchanged(shown)
            &&& transition(hidden_again, EventView::FinalizeHide(m1.hide_token), now, id)
                == unchanged(hidden_again)
        }),
{
}

/// Of two saves scheduled one after the other, only the later one writes.
pub proof fn lemma_only_latest_save_writes(
    m: RuntimeModel,
    first: Seq<TodoView>,
    second: Seq<TodoView>,
    now: i64,
    id: Seq<char>,
)
    ensures
        ({
            let m1 = changed_todos(m, first).0;
            let m2 = changed_todos(m1, second).0;
            &&& transition(m2, EventView::FlushSave(m1.save_token), now, id) == unchanged(m2)
            &&& transition(m2, EventView::FlushSave(m2.save_token), now, id) == (
                m2,
                seq![EffectView::SaveTodos(save_todos_failure())],
            )
        }),
{
}

/// Toggling twice brings the overlay back to where it was.
pub proof fn lemma_toggle_twice(m: RuntimeModel)
    ensures
        toggle_transition(toggle_transition(m).0).0.overlay_visible == m.overlay_visible,
{
}

/// Every event keeps the settings in range.
pub proof fn lemma_transition_keeps_config_sanitized(
    m: RuntimeModel,
    e: EventView,
    now: i64,
    id: Seq<char>,
)
    requires
        m.config.is_sanitized(),
    ensures
        transition(m, e, now, id).0.config.is_sanitized(),
{
    match e {
        EventView::Ipc(RequestView::SetTriggerKey { key }) => {
            if key.len() > 0 {
                crate::config::lemma_hotkey_idempotent(key[0], 'J');
            }
        },
        _ => {},
    }
}

/// A request to add a todo whose text is only whitespace changes nothing.
pub proof fn lemma_blank_add_does_nothing(m: RuntimeModel, text: Seq<char>, now: i64, id: Seq<char>)
    requires
        forall|i: int| 0 <= i < text.len() ==> crate::text::is_whitespace(#[trigger] text[i]),
    ensures
        add_transition(m, text, now, id) == unchanged(m),
{
    crate::text::lemma_collapse_empty_iff_blank(text);
}

/// Replacing a todo by one with the same identifier keeps the first match in place.
pub proof fn lemma_first_with_id_update(s: Seq<TodoView>, i: int, x: TodoView, id: Seq<char>)
    requires
        0 <= i < s.len(),
        x.id == s[i].id,
    ensures
        first_with_id(s.update(i, x), id) == first_with_id(s, id),
    decreases s.len(),
{
    let u = s.update(i, x);
    if i == s.len() - 1 {
        assert(u.drop_last() =~= s.drop_last());
    } else {
        assert(u.drop_last() =~= s.drop_last().update(i, x));
        lemma_first_with_id_update(s.drop_last(), i, x, id);
    }
}

/// Completing the same todo again changes nothing and does nothing.
pub proof fn lemma_complete_is_idempotent(m: RuntimeModel, id: Seq<char>, now: i64, later: i64)
    ensures
        ({
            let m1 = complete_transition(m, id, now).0;
            complete_transition(m1, id, later) == unchanged(m1)
        }),
{
    crate::storage::lemma_first_with_id(m.todos, id);
    match first_with_id(m.todos, id) {
        Some(i) => {
            if !m.todos[i].completed {
                lemma_first_with_id_update(
                    m.todos,
                    i,
                    crate::storage::completed_view(m.todos[i], now),
                    id,
                );
            }
        },
        None => {},
    }
}

/// A todo that was just added can be completed through its identifier, provided no
/// older todo carries the same identifier.
pub proof fn lemma_added_todo_can_be_completed(
    m: RuntimeModel,
    text: Seq<char>,
    now: i64,
    id: Seq<char>,
    later: i64,
)
    requires
        collapse_whitespace(text).len() > 0,
        crate::storage::is_lower_hyphenated_uuid(id),
        forall|j: int| 0 <= j < m.todos.len() ==> #[trigger] m.todos[j].id != id,
    ensures
        ({
            let m1 = add_transition(m, text, now, id).0;
            let added = new_todo_view(id, collapse_whitespace(text), now);
            &&& m1.todos == m.todos.push(added)
            &&& complete_transition(m1, id, later).0.todos == m.todos.push(
                crate::storage::completed_view(added, later),
            )
        }),
{
    let added = new_todo_view(id, collapse_whitespace(text), now);
    let s = m.todos.push(added);
    assert(s.drop_last() =~= m.todos);
    crate::storage::lemma_first_with_id(m.todos, id);
    crate::storage::lemma_new_ids_are_valid(id);
    assert(s.update(s.len() - 1, crate::storage::completed_view(added, later)) =~= m.todos.push(
        crate::storage::completed_view(added, later),
    ));
}

/// Clicking the menu-bar icon toggles the overlay, as the hotkey does: a shown overlay
/// is hidden (its animation runs now and the window is hidden later, under a new hide
/// token), a hidden one is shown, and nothing else changes; two clicks bring the
/// overlay back to where it was.
pub proof fn lemma_tray_click_toggles_overlay(m: RuntimeModel, now: i64, id: Seq<char>)
    ensures
        ({
            let (m1, es) = transition(m, EventView::Tray(TrayCommand::TogglePanel), now, id);
            let t = m.hide_token.wrapping_add(1);
            &&& m1.overlay_visible == !m.overlay_visible
            &&& m.overlay_visible ==> m1 == RuntimeModel {
                overlay_visible: false,
                hide_token: t,
                ..m
            } && es == seq![
                EffectView::SetOverlayAnimated(false),
                EffectView::FinalizeHideLater(t),
                EffectView::PushState,
            ]
            &&& !m.overlay_visible ==> m1 == RuntimeModel { overlay_visible: true, ..m } && es
                == seq![
                EffectView::ShowPanel,
                EffectView::SetOverlayAnimated(true),
                EffectView::PushState,
            ]
            &&& transition(m1, EventView::Tray(TrayCommand::TogglePanel), now, id).0.overlay_visible
                == m.overlay_visible
        }),
        transition(m, EventView::Tray(TrayCommand::TogglePanel), now, id) == transition(
            m,
            EventView::HotkeyTrigger,
            now,
            id,
        ),
{
}

/// Editing a todo from the panel, with a valid identifier and a text that is not blank,
/// changes only the first todo with that identifier, and of it only the text (with its
/// whitespace collapsed) and the update time: its identifier, whether and when it was
/// completed, and when it was created stay, every other todo stays, and a save is
/// scheduled under the next save token.
pub proof fn lemma_edit_changes_only_text_and_time(
    m: RuntimeModel,
    id: Seq<char>,
    raw: Seq<char>,
    now: i64,
    fresh: Seq<char>,
    j: int,
)
    requires
        is_valid_todo_id_text(id),
        collapse_whitespace(raw).len() > 0,
        0 <= j < m.todos.len(),
        m.todos[j].id == id,
        forall|k: int| 0 <= k < j ==> #[trigger] m.todos[k].id != id,
    ensures
        ({
            let (m1, es) = transition(
                m,
                EventView::Ipc(RequestView::EditTodo { id, text: raw }),
                now,
                fresh,
            );
            let t = m.save_token.wrapping_add(1);
            &&& m1.todos.len() == m.todos.len()
            &&& forall|k: int|
                0 <= k < m.todos.len() && k != j ==> #[trigger] m1.todos[k] == m.todos[k]
            &&& m1.todos[j].id == m.todos[j].id
            &&& m1.todos[j].completed == m.todos[j].completed
            &&& m1.todos[j].completed_at_ms == m.todos[j].completed_at_ms
            &&& m1.todos[j].created_at_ms == m.todos[j].created_at_ms
            &&& m1.todos[j].text == collapse_whitespace(raw)
            &&& m1.todos[j].updated_at_ms == now
            &&& m1 == RuntimeModel { todos: m1.todos, save_token: t, ..m }
            &&& es == seq![EffectView::FlushSaveLater(t), EffectView::PushState]
        }),
{
    crate::storage::lemma_first_with_id(m.todos, id);
    match first_with_id(m.todos, id) {
        Some(i) => {
            if i < j {
                assert(m.todos[i].id != id);
            } else if j < i {
                assert(m.todos[j].id != id);
            }
        },
        None => {
            assert(m.todos[j].id != id);
        },
    }
}

/// Deleting a todo from the panel with a valid identifier keeps exactly the todos with
/// another identifier, in their order; when one was removed a save is scheduled under
/// the next save token, otherwise nothing changes.
pub proof fn lemma_delete_keeps_the_others(m: RuntimeModel, id: Seq<char>, now: i64, fresh: Seq<char>)
    requires
        is_valid_todo_id_text(id),
    ensures
        ({
            let (m1, es) = transition(m, EventView::Ipc(RequestView::DeleteTodo { id }), now, fresh);
            let kept = m.todos.filter(|t: TodoView| t.id != id);
            let t = m.save_token.wrapping_add(1);
            &&& m1.todos == kept
            &&& (exists|j: int| 0 <= j < m.todos.len() && #[trigger] m.todos[j].id == id) ==> m1
                == RuntimeModel { todos: kept, save_token: t, ..m } && es == seq![
                EffectView::FlushSaveLater(t),
                EffectView::PushState,
            ]
            &&& !(exists|j: int| 0 <= j < m.todos.len() && #[trigger] m.todos[j].id == id) ==> m1
                == m && es.len() == 0
        }),
{
    crate::storage::lemma_without_id(m.todos, id);
    crate::storage::lemma_without_id_is_filter(m.todos, id);
}

/// Deleting removes every todo with that identifier and keeps the others in order.
pub proof fn lemma_delete_removes_all(m: RuntimeModel, id: Seq<char>)
    requires
        is_valid_todo_id_text(id),
    ensures
        delete_transition(m, id).0.todos == without_id(m.todos, id),
        forall|j: int|
            0 <= j < delete_transition(m, id).0.todos.len() ==> #[trigger] delete_transition(
                m,
                id,
            ).0.todos[j].id != id,
{
    crate::storage::lemma_without_id(m.todos, id);
}

} // verus!

verus! {

/// Starting the hotkey listener: it is started, with the configured double-tap window,
/// exactly when it was not started yet and input monitoring is granted; afterwards it
/// counts as started exactly when it was before or input monitoring is granted, and
/// nothing else changes.
pub proof fn lemma_start_hotkey_once(m: RuntimeModel)
    ensures
        ({
            let (m1, es) = start_hotkey_transition(m);
            &&& (!m.hotkey_started && m.permissions.input_monitoring) ==> es == seq![
                EffectView::StartHotkeyListener(m.config.double_tap_ms),
            ]
            &&& !(!m.hotkey_started && m.permissions.input_monitoring) ==> es.len() == 0
            &&& m1.hotkey_started == (m.hotkey_started || m.permissions.input_monitoring)
            &&& m1 == RuntimeModel { hotkey_started: m1.hotkey_started, ..m }
        }),
{
}

/// Once the hotkey listener is started it stays started, and no later event starts
/// another one: at most one listener is ever started.
pub proof fn lemma_listener_started_at_most_once(
    m: RuntimeModel,
    e: EventView,
    now: i64,
    id: Seq<char>,
)
    requires
        m.hotkey_started,
    ensures
        transition(m, e, now, id).0.hotkey_started,
        !starts_listener(transition(m, e, now, id).1),
{
    let (m1, es) = transition(m, e, now, id);
    assert forall|i: int| 0 <= i < es.len() implies !((#[trigger] es[i]) is StartHotkeyListener) by {
        match e {
            EventView::PermissionsRefreshed(p) => {
                if p != m.permissions && p.input_monitoring {
                    assert(start_hotkey_transition(RuntimeModel { permissions: p, ..m }).1.len() == 0);
                    assert(es =~= seq![EffectView::PushPermissions]);
                }
            },
            _ => {},
        }
    }
}

} // verus!
