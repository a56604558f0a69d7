//! What the background service decides: the status line of its hotkeys, its tray
//! menu and icon, and what it reports after each write to the history.
use vstd::prelude::*;

use crate::config::Language;
use crate::db::InsertOutcome;
use crate::text::{chars_of, extend_chars, string_of};

verus! {

/// The part of the hotkey status about Ctrl+Alt+V.
pub open spec fn fallback_text(ctrl_registered: bool) -> Seq<char> {
    if ctrl_registered {
        "Ctrl+Alt+V 可用"@
    } else {
        "Ctrl+Alt+V 注册失败"@
    }
}

/// The hotkey status line: a failed recovery of an earlier takeover is reported
/// alone; otherwise whether Win+V is taken over (or was requested and failed, or is
/// off) and whether Ctrl+Alt+V works, with the reason of a failure in brackets.
pub open spec fn hotkey_status_text(
    requested_win_v: bool,
    win_registered: bool,
    ctrl_registered: bool,
    recovery_error: Option<Seq<char>>,
    failure: Option<Seq<char>>,
) -> Seq<char> {
    match recovery_error {
        Some(e) => "Win+V 遗留设置恢复失败: "@ + e,
        None => {
            let fallback = fallback_text(ctrl_registered);
            let state = if win_registered {
                "Win+V 已接管；"@ + fallback
            } else if requested_win_v {
                "Win+V 接管失败；"@ + fallback
            } else {
                fallback + "；Win+V 接管未启用"@
            };
            match failure {
                Some(reason) => state + "（"@ + reason + "）"@,
                None => state,
            }
        },
    }
}

/// The model of an optional string slice.
pub open spec fn opt_text(s: Option<&str>) -> Option<Seq<char>> {
    match s {
        Some(s) => Some(s@),
        None => None,
    }
}

/// The hotkey status line.
pub fn hotkey_status(
    requested_win_v: bool,
    win_registered: bool,
    ctrl_registered: bool,
    recovery_error: Option<&str>,
    failure: Option<&str>,
) -> (res: String)
    ensures
        res@ == hotkey_status_text(
            requested_win_v,
            win_registered,
            ctrl_registered,
            opt_text(recovery_error),
            opt_text(failure),
        ),
{
    if let Some(error) = recovery_error {
        let mut out = chars_of("Win+V 遗留设置恢复失败: ");
        let e = chars_of(error);
        extend_chars(&mut out, &e);
        return string_of(&out);
    }
    let fallback = if ctrl_registered {
        chars_of("Ctrl+Alt+V 可用")
    } else {
        chars_of("Ctrl+Alt+V 注册失败")
    };
    let mut state = if win_registered {
        chars_of("Win+V 已接管；")
    } else if requested_win_v {
        chars_of("Win+V 接管失败；")
    } else {
        Vec::new()
    };
    extend_chars(&mut state, &fallback);
    if !win_registered && !requested_win_v {
        let tail = chars_of("；Win+V 接管未启用");
        extend_chars(&mut state, &tail);
        assert(Seq::<char>::empty() + fallback@ =~= fallback@);
    }
    if let Some(reason) = failure {
        let open = chars_of("（");
        extend_chars(&mut state, &open);
        let r = chars_of(reason);
        extend_chars(&mut state, &r);
        let close = chars_of("）");
        extend_chars(&mut state, &close);
    }
    string_of(&state)
}

/// The tray menu's two items: show or hide the window, and exit.
pub open spec fn tray_labels_text(language: Language) -> (Seq<char>, Seq<char>) {
    match language {
        Language::ZhCn => ("显示 / 隐藏"@, "退出"@),
        Language::En => ("Show / Hide"@, "Exit"@),
    }
}

/// The tray menu's two items.
pub fn tray_labels(language: Language) -> (res: (&'static str, &'static str))
    ensures
        (res.0@, res.1@) == tray_labels_text(language),
{
    match language {
        Language::ZhCn => ("显示 / 隐藏", "退出"),
        Language::En => ("Show / Hide", "Exit"),
    }
}

/// The side of the tray icon, in pixels.
pub const ICON_SIDE: usize = 16;

/// The colour of the tray icon's pixel at column `x` and row `y`: a one-pixel
/// border, an accent square from 4 to 11 on both axes, and a dark ground.
pub open spec fn icon_color(x: int, y: int) -> Seq<u8> {
    if x == 0 || y == 0 || x == 15 || y == 15 {
        seq![76u8, 110, 245, 255]
    } else if 4 <= x <= 11 && 4 <= y <= 11 {
        seq![92u8, 225, 230, 255]
    } else {
        seq![24u8, 28, 37, 255]
    }
}

/// Byte `k` of the tray icon's pixels: pixels are stored row by row, four bytes
/// (red, green, blue, alpha) each, so byte `k` belongs to column `(k / 4) % 16` of
/// row `k / 64`.
pub open spec fn icon_byte(k: int) -> u8 {
    icon_color((k / 4) % 16, k / 64)[k % 4]
}

/// The tray icon: 16 by 16 RGBA pixels, row by row.
pub fn icon_pixels() -> (rgba: Vec<u8>)
    ensures
        rgba@.len() == 16 * 16 * 4,
        forall|k: int| 0 <= k < 16 * 16 * 4 ==> #[trigger] rgba@[k] == icon_byte(k),
{
    let mut rgba: Vec<u8> = Vec::new();
    let mut k: usize = 0;
    while k < 1024
        invariant
            k <= 1024,
            rgba@.len() == k,
            forall|j: int| 0 <= j < k ==> #[trigger] rgba@[j] == icon_byte(j),
        decreases 1024 - k,
    {
        let x = (k / 4) % 16;
        let y = k / 64;
        let border = x == 0 || y == 0 || x == 15 || y == 15;
        let accent = 4 <= x && x <= 11 && 4 <= y && y <= 11;
        let color: [u8; 4] = if border {
            [76, 110, 245, 255]
        } else if accent {
            [92, 225, 230, 255]
        } else {
            [24, 28, 37, 255]
        };
        rgba.push(color[k % 4]);
        proof {
            assert(rgba@[k as int] == icon_byte(k as int));
        }
        k += 1;
    }
    rgba
}

/// What the service reports after a write to the history: nothing to report (the
/// last error is cleared), or a message.
#[derive(Debug)]
pub enum WriteReport {
    Clear,
    Report(String),
}

/// The model of a write report: `None` to clear, or the message.
pub open spec fn report_view(r: WriteReport) -> Option<Seq<char>> {
    match r {
        WriteReport::Clear => None,
        WriteReport::Report(m) => Some(m@),
    }
}

/// The message when an image is larger than the whole budget.
pub open spec fn too_large_message() -> Seq<char> {
    "图片超过历史容量上限，未保存"@
}

/// What the service reports after a write: a stored entry or reloaded limits clear
/// the last error; an image too large for the budget, or a failure, is reported.
pub fn write_report(outcome: Result<Option<InsertOutcome>, String>) -> (res: WriteReport)
    ensures
        report_view(res) == match outcome {
            Ok(Some(InsertOutcome::Stored)) => None,
            Ok(None) => None,
            Ok(Some(InsertOutcome::ImageTooLarge)) => Some(too_large_message()),
            Err(e) => Some("历史写入失败: "@ + e@),
        },
{
    match outcome {
        Ok(Some(InsertOutcome::Stored)) => WriteReport::Clear,
        Ok(None) => WriteReport::Clear,
        Ok(Some(InsertOutcome::ImageTooLarge)) => WriteReport::Report("图片超过历史容量上限，未保存".to_owned()),
        Err(e) => {
            let mut out = chars_of("历史写入失败: ");
            let d = chars_of(e.as_str());
            extend_chars(&mut out, &d);
            WriteReport::Report(string_of(&out))
        },
    }
}

/// The message when the history database cannot be opened.
pub fn open_failure_message(error: &str) -> (res: String)
    ensures
        res@ == "历史数据库打开失败: "@ + error@,
{
    let mut out = chars_of("历史数据库打开失败: ");
    let d = chars_of(error);
    extend_chars(&mut out, &d);
    string_of(&out)
}

/// The number of old thumbnails moved per batch.
pub const MIGRATION_BATCH: usize = 8;

/// What the migration does after a batch.
#[derive(Debug)]
pub enum MigrationNext {
    /// Nothing was left to move: stop.
    Finished,
    /// Some were moved: signal the window and continue after a pause.
    Continue,
    /// The batch failed: report the message and stop.
    Failed(String),
}

/// What the migration does after a batch moved `moved` thumbnails, or failed.
pub fn migration_next(moved: Result<usize, String>) -> (res: MigrationNext)
    ensures
        match moved {
            Ok(0) => res is Finished,
            Ok(_) => res is Continue,
            Err(e) => res matches MigrationNext::Failed(m) && m@ == "旧图片迁移失败: "@ + e@,
        },
{
    match moved {
        Ok(n) => {
            if n == 0 {
                MigrationNext::Finished
            } else {
                MigrationNext::Continue
            }
        },
        Err(e) => {
            let mut out = chars_of("旧图片迁移失败: ");
            let d = chars_of(e.as_str());
            extend_chars(&mut out, &d);
            MigrationNext::Failed(string_of(&out))
        },
    }
}

/// The id of the Ctrl+Alt+V hotkey.
pub const CTRL_ALT_V: i32 = 0x434d;

/// The id of the Win+V hotkey.
pub const WIN_V: i32 = 0x5756;

/// A message the service's event loop receives.
#[derive(Clone, Copy, Debug, PartialEq, Eq, Structural)]
pub enum LoopMessage {
    /// The clipboard changed.
    ClipboardUpdate,
    /// A hotkey with this id was pressed.
    Hotkey(i32),
    /// The tray's show/hide item was chosen.
    TrayToggle,
    /// The tray's exit item was chosen.
    TrayExit,
    /// The settings changed.
    SettingsReload,
    /// Anything else.
    Other,
}

/// What the event loop does with a message.
#[derive(Clone, Copy, Debug, PartialEq, Eq, Structural)]
pub enum LoopAction {
    /// Wake the clipboard watcher.
    NotifyWatcher,
    /// Show or hide the history window.
    ToggleWindow,
    /// Reload the settings.
    ReloadSettings,
    /// Leave the loop.
    Exit,
    /// Nothing.
    Ignore,
}

/// What the event loop does with a message: either hotkey, or the tray's show/hide
/// item, toggles the window.
pub open spec fn action_of(message: LoopMessage) -> LoopAction {
    match message {
        LoopMessage::ClipboardUpdate => LoopAction::NotifyWatcher,
        LoopMessage::Hotkey(id) => if id == CTRL_ALT_V || id == WIN_V {
            LoopAction::ToggleWindow
        } else {
            LoopAction::Ignore
        },
        LoopMessage::TrayToggle => LoopAction::ToggleWindow,
        LoopMessage::TrayExit => LoopAction::Exit,
        LoopMessage::SettingsReload => LoopAction::ReloadSettings,
        LoopMessage::Other => LoopAction::Ignore,
    }
}

/// What the event loop does with a message.
pub fn loop_action(message: LoopMessage) -> (res: LoopAction)
    ensures
        res == action_of(message),
{
    match message {
        LoopMessage::ClipboardUpdate => LoopAction::NotifyWatcher,
        LoopMessage::Hotkey(id) => {
            if id == CTRL_ALT_V || id == WIN_V {
                LoopAction::ToggleWindow
            } else {
                LoopAction::Ignore
            }
        },
        LoopMessage::TrayToggle => LoopAction::ToggleWindow,
        LoopMessage::TrayExit => LoopAction::Exit,
        LoopMessage::SettingsReload => LoopAction::ReloadSettings,
        LoopMessage::Other => LoopAction::Ignore,
    }
}

/// What reloaded settings ask of the Win+V takeover.
#[derive(Clone, Copy, Debug, PartialEq, Eq, Structural)]
pub enum ReloadPlan {
    /// Take Win+V over.
    TakeOver,
    /// Give Win+V back.
    Release,
    /// Nothing changes.
    Keep,
}

/// What reloaded settings ask: take Win+V over when it is wanted and not held, give it
/// back when it is held and no longer wanted.
pub fn reload_plan(use_win_v: bool, win_registered: bool) -> (res: ReloadPlan)
    ensures
        res == if use_win_v && !win_registered {
            ReloadPlan::TakeOver
        } else if !use_win_v && win_registered {
            ReloadPlan::Release
        } else {
            ReloadPlan::Keep
        },
{
    if use_win_v && !win_registered {
        ReloadPlan::TakeOver
    } else if !use_win_v && win_registered {
        ReloadPlan::Release
    } else {
        ReloadPlan::Keep
    }
}

/// How an attempt to take Win+V over went.
#[derive(Debug)]
pub enum TakeoverAttempt {
    /// The setting could not be taken over; the error.
    PrepareFailed(String),
    /// The hotkey was registered.
    Registered,
    /// The system refused the hotkey, and the takeover was rolled back with this
    /// outcome.
    Refused(Result<(), String>),
}

/// The model of an optional message.
pub open spec fn opt_message(m: Option<String>) -> Option<Seq<char>> {
    match m {
        Some(m) => Some(m@),
        None => None,
    }
}

/// After an attempt to take Win+V over: whether the hotkey is held, and the failure to
/// report.
pub open spec fn attempt_outcome(attempt: TakeoverAttempt) -> (bool, Option<Seq<char>>) {
    match attempt {
        TakeoverAttempt::PrepareFailed(e) => (false, Some(e@)),
        TakeoverAttempt::Registered => (true, None),
        TakeoverAttempt::Refused(rollback) => match rollback {
            Ok(()) => (false, Some("系统未允许注册 Win+V"@)),
            Err(e) => (false, Some("回滚系统设置失败: "@ + e@)),
        },
    }
}

/// After an attempt to take Win+V over: whether the hotkey is held, and the failure to
/// report.
pub fn attempt_result(attempt: TakeoverAttempt) -> (res: (bool, Option<String>))
    ensures
        (res.0, opt_message(res.1)) == attempt_outcome(attempt),
{
    match attempt {
        TakeoverAttempt::PrepareFailed(e) => (false, Some(e)),
        TakeoverAttempt::Registered => (true, None),
        TakeoverAttempt::Refused(rollback) => match rollback {
            Ok(()) => (false, Some("系统未允许注册 Win+V".to_owned())),
            Err(e) => {
                let mut out = chars_of("回滚系统设置失败: ");
                extend_chars(&mut out, &chars_of(e.as_str()));
                (false, Some(string_of(&out)))
            },
        },
    }
}

/// The failure to report after Win+V is given back: none, unless restoring the
/// setting failed.
pub fn release_result(restore: Option<Result<(), String>>) -> (res: Option<String>)
    ensures
        opt_message(res) == match restore {
            Some(Err(e)) => Some("恢复系统设置失败: "@ + e@),
            _ => None::<Seq<char>>,
        },
{
    match restore {
        Some(Err(e)) => {
            let mut out = chars_of("恢复系统设置失败: ");
            extend_chars(&mut out, &chars_of(e.as_str()));
            Some(string_of(&out))
        },
        _ => None,
    }
}

} // verus!
