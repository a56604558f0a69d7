//! Taking over the Win+V shortcut: the value written to the system's disabled-hotkey
//! setting, the backup kept beside it, and how the original value is restored.
use vstd::prelude::*;

use crate::text::{chars_of, extend_chars, string_of};

verus! {

/// The backup of the disabled-hotkey setting: its value before the takeover (none
/// when it was absent) and the value the takeover wrote.
#[derive(Debug)]
pub struct SavedState {
    pub original: Option<String>,
    pub applied: String,
}

/// What restoring the setting must do.
#[derive(Debug, PartialEq)]
pub enum RestoreAction {
    /// The setting already holds its original value.
    AlreadyOriginal,
    /// Write the original value back.
    SetValue(String),
    /// Remove the setting, which was absent before.
    Delete,
}

/// The model of a restore action.
pub enum RestoreView {
    AlreadyOriginal,
    SetValue(Seq<char>),
    Delete,
}

/// The model of an optional string.
pub open spec fn opt_view(s: Option<String>) -> Option<Seq<char>> {
    match s {
        Some(s) => Some(s@),
        None => None,
    }
}

/// The model of an optional string slice.
pub open spec fn opt_str_view(s: Option<&str>) -> Option<Seq<char>> {
    match s {
        Some(s) => Some(s@),
        None => None,
    }
}

impl View for RestoreAction {
    type V = RestoreView;

    open spec fn view(&self) -> RestoreView {
        match self {
            RestoreAction::AlreadyOriginal => RestoreView::AlreadyOriginal,
            RestoreAction::SetValue(s) => RestoreView::SetValue(s@),
            RestoreAction::Delete => RestoreView::Delete,
        }
    }
}

/// The message given when the setting changed during the takeover.
pub open spec fn external_change_message() -> Seq<char> {
    "Win+V 系统设置在接管期间被外部修改；已保留当前值和原值备份"@
}

/// What restoring does, given the backup and the setting's current value: nothing
/// when it already holds the original; the original written back (or the setting
/// removed) when it still holds the value the takeover wrote; and a refusal when
/// something else changed it, so that the change is kept.
pub open spec fn restore_plan(
    original: Option<Seq<char>>,
    applied: Seq<char>,
    current: Option<Seq<char>>,
) -> Option<RestoreView> {
    if current == original {
        Some(RestoreView::AlreadyOriginal)
    } else if current != Some(applied) {
        None
    } else {
        match original {
            Some(o) => Some(RestoreView::SetValue(o)),
            None => Some(RestoreView::Delete),
        }
    }
}

/// Whether two optional strings hold the same characters.
fn same_opt(a: Option<&str>, b: &Option<String>) -> (res: bool)
    ensures
        res == (opt_str_view(a) == opt_view(*b)),
{
    match (a, b) {
        (None, None) => true,
        (Some(a), Some(b)) => crate::text::equals(a, b.as_str()),
        _ => false,
    }
}

/// Decides how to restore the setting from the backup and its current value.
pub fn restoration_action(state: &SavedState, current: Option<&str>) -> (res: Result<
    RestoreAction,
    String,
>)
    ensures
        match restore_plan(opt_view(state.original), state.applied@, opt_str_view(current)) {
            Some(plan) => res matches Ok(a) && a@ == plan,
            None => res matches Err(m) && m@ == external_change_message(),
        },
{
    if same_opt(current, &state.original) {
        return Ok(RestoreAction::AlreadyOriginal);
    }
    let still_applied = match current {
        Some(c) => crate::text::equals(c, state.applied.as_str()),
        None => false,
    };
    if !still_applied {
        return Err("Win+V 系统设置在接管期间被外部修改；已保留当前值和原值备份".to_owned());
    }
    match &state.original {
        Some(original) => Ok(RestoreAction::SetValue(original.clone())),
        None => Ok(RestoreAction::Delete),
    }
}

/// What `str::to_uppercase` gives for a string: the Unicode upper-case mapping.
pub uninterp spec fn uppercase(s: Seq<char>) -> Seq<char>;

/// Unicode upper case of a string (`str::to_uppercase`).
#[verifier::external_body]
fn to_uppercase(s: &str) -> (res: String)
    ensures
        res@ == uppercase(s@),
{
    s.to_uppercase()
}

/// The message given when Win+V is already disabled by someone else.
pub open spec fn already_disabled_message() -> Seq<char> {
    "系统已禁用 Win+V，且此设置不属于本程序；未修改注册表"@
}

/// The backup that a takeover writes for the setting's current value (none when
/// absent), given that value's upper case: the value with `V` appended is what the
/// takeover applies. A value whose upper case already holds `V` is refused.
pub open spec fn takeover_plan_with(
    original: Option<Seq<char>>,
    upper: Seq<char>,
) -> Option<(Option<Seq<char>>, Seq<char>)> {
    let current = match original {
        Some(o) => o,
        None => Seq::empty(),
    };
    if upper.contains('V') {
        None
    } else {
        Some((original, current.push('V')))
    }
}

/// The backup that a takeover writes for the setting's current value (none when
/// absent); see `takeover_plan_with`.
pub open spec fn takeover_plan(original: Option<Seq<char>>) -> Option<(Option<Seq<char>>, Seq<char>)> {
    let current = match original {
        Some(o) => o,
        None => Seq::empty(),
    };
    takeover_plan_with(original, uppercase(current))
}

/// Plans a takeover of the setting whose current value is `original`, given the upper
/// case `upper` of that value.
pub fn plan_takeover_with(original: Option<&str>, upper: &str) -> (res: Result<SavedState, String>)
    ensures
        match takeover_plan_with(opt_str_view(original), upper@) {
            Some(plan) => res matches Ok(s) && opt_view(s.original) == plan.0 && s.applied@ == plan.1,
            None => res matches Err(m) && m@ == already_disabled_message(),
        },
{
    let current: &str = match original {
        Some(o) => o,
        None => "",
    };
    proof {
        if original is None {
            reveal_strlit("");
            assert(current@ =~= Seq::<char>::empty());
        }
    }
    let up = chars_of(upper);
    let mut i: usize = 0;
    while i < up.len()
        invariant
            up@ == upper@,
            i <= up.len(),
            forall|k: int| 0 <= k < i ==> up@[k] != 'V',
        decreases up.len() - i,
    {
        if up[i] == 'V' {
            assert(up@.contains('V'));
            return Err("系统已禁用 Win+V，且此设置不属于本程序；未修改注册表".to_owned());
        }
        i += 1;
    }
    let mut applied = chars_of(current);
    applied.push('V');
    let saved = match original {
        Some(o) => Some(o.to_owned()),
        None => None,
    };
    Ok(SavedState { original: saved, applied: string_of(&applied) })
}

/// Plans a takeover of the setting whose current value is `original`.
pub fn plan_takeover(original: Option<&str>) -> (res: Result<SavedState, String>)
    ensures
        match takeover_plan(opt_str_view(original)) {
            Some(plan) => res matches Ok(s) && opt_view(s.original) == plan.0 && s.applied@ == plan.1,
            None => res matches Err(m) && m@ == already_disabled_message(),
        },
{
    let current: &str = match original {
        Some(o) => o,
        None => "",
    };
    proof {
        if original is None {
            reveal_strlit("");
            assert(current@ =~= Seq::<char>::empty());
        }
    }
    let upper = to_uppercase(current);
    plan_takeover_with(original, upper.as_str())
}

/// A takeover undone: when the setting still holds the value the takeover applied,
/// restoring writes back exactly the value it had before (or removes it when it was
/// absent); when it already holds that value again, restoring leaves it alone.
pub proof fn law_takeover_restores_original(original: Option<Seq<char>>)
    requires
        takeover_plan(original) is Some,
    ensures
        ({
            let (saved, applied) = takeover_plan(original).unwrap();
            &&& saved == original
            &&& restore_plan(saved, applied, Some(applied)) == match original {
                Some(o) => Some(RestoreView::SetValue(o)),
                None => Some(RestoreView::Delete),
            }
            &&& restore_plan(saved, applied, original) == Some(RestoreView::AlreadyOriginal)
        }),
{
    let (saved, applied) = takeover_plan(original).unwrap();
    let current = match original {
        Some(o) => o,
        None => Seq::empty(),
    };
    assert(applied.len() == current.len() + 1);
    assert(Some(applied) != original);
}

/// A value changed by someone else during the takeover is never overwritten.
pub proof fn law_external_change_is_kept(
    original: Option<Seq<char>>,
    applied: Seq<char>,
    current: Option<Seq<char>>,
)
    requires
        current != original,
        current != Some(applied),
    ensures
        restore_plan(original, applied, current) is None,
{
}

/// A message made of a fixed prefix and the text of an error.
fn prefixed(prefix: &str, detail: &str) -> (res: String)
    ensures
        res@ == prefix@ + detail@,
{
    let mut out = chars_of(prefix);
    let more = chars_of(detail);
    extend_chars(&mut out, &more);
    string_of(&out)
}

/// What reading the backup file gave.
#[derive(Debug)]
pub enum BackupRead {
    /// There is no backup: nothing is taken over.
    Missing,
    /// The file could not be read; the error's text.
    Unreadable(String),
    /// The file does not hold a backup; the parser's error text.
    Corrupt(String),
    /// The backup.
    Loaded(SavedState),
}

/// What reading the disabled-hotkey setting gave.
#[derive(Debug)]
pub enum SettingRead {
    /// The settings key could not be opened; the error's text.
    KeyUnavailable(String),
    /// The value could not be read; the error's text.
    Failed(String),
    /// The value, or none when it is absent.
    Value(Option<String>),
}

/// Where a restore or a takeover stands.
#[derive(Debug)]
pub enum TakeoverStep {
    /// Restoring: waiting for the backup.
    RestoreStart,
    /// Restoring: the backup is loaded; waiting for the setting.
    RestoreLoaded(SavedState),
    /// Restoring: waiting for the setting to be written back.
    RestoreApplying,
    /// Restoring: waiting for the backup to be removed.
    RestoreRemoving,
    /// Taking over: waiting to learn whether a backup already exists.
    TakeoverStart,
    /// Taking over: waiting for the setting.
    TakeoverReading,
    /// Taking over: waiting for the backup to be written.
    TakeoverBacking(SavedState),
    /// Taking over: waiting for the new value to be written.
    TakeoverApplying,
    /// Taking over: the write failed with this error; waiting for the rollback.
    TakeoverRollingBack(String),
    /// Finished.
    Done,
}

/// What the caller reports back.
#[derive(Debug)]
pub enum TakeoverEvent {
    /// The backup was read.
    Backup(BackupRead),
    /// The setting was read.
    Setting(SettingRead),
    /// Whether a backup file already exists.
    BackupExists(bool),
    /// The outcome of a write of the setting, or of the backup file.
    Written(Result<(), String>),
    /// The outcome of removing the backup file.
    Removed(Result<(), String>),
    /// The outcome of a rollback, itself a restore.
    RolledBack(Result<(), String>),
}

/// What the caller must do next.
#[derive(Debug)]
pub enum TakeoverCommand {
    /// Read the disabled-hotkey setting.
    ReadSetting,
    /// Restore the setting as the action says.
    Apply(RestoreAction),
    /// Remove the backup file.
    RemoveBackup,
    /// Write the backup file.
    WriteBackup(SavedState),
    /// Write the given value to the setting.
    WriteSetting(String),
    /// Undo the takeover by restoring from the backup just written.
    RollBack,
    /// Stop with this result.
    Finish(Result<(), String>),
}

/// Whether an event is the kind that a step waits for.
pub open spec fn expects(step: TakeoverStep, event: TakeoverEvent) -> bool {
    match step {
        TakeoverStep::RestoreStart => event is Backup,
        TakeoverStep::RestoreLoaded(_) => event is Setting,
        TakeoverStep::RestoreApplying => event is Written,
        TakeoverStep::RestoreRemoving => event is Removed,
        TakeoverStep::TakeoverStart => event is BackupExists,
        TakeoverStep::TakeoverReading => event is Setting,
        TakeoverStep::TakeoverBacking(_) => event is Written,
        TakeoverStep::TakeoverApplying => event is Written,
        TakeoverStep::TakeoverRollingBack(_) => event is RolledBack,
        TakeoverStep::Done => false,
    }
}

/// The model of a result whose error is a string.
pub open spec fn result_view(r: Result<(), String>) -> Result<(), Seq<char>> {
    match r {
        Ok(()) => Ok(()),
        Err(e) => Err(e@),
    }
}

/// The model of a command.
pub enum CommandView {
    ReadSetting,
    Apply(RestoreView),
    RemoveBackup,
    WriteBackup(Option<Seq<char>>, Seq<char>),
    WriteSetting(Seq<char>),
    RollBack,
    Finish(Result<(), Seq<char>>),
}

impl View for TakeoverCommand {
    type V = CommandView;

    open spec fn view(&self) -> CommandView {
        match self {
            TakeoverCommand::ReadSetting => CommandView::ReadSetting,
            TakeoverCommand::Apply(a) => CommandView::Apply(a@),
            TakeoverCommand::RemoveBackup => CommandView::RemoveBackup,
            TakeoverCommand::WriteBackup(s) => CommandView::WriteBackup(opt_view(s.original), s.applied@),
            TakeoverCommand::WriteSetting(v) => CommandView::WriteSetting(v@),
            TakeoverCommand::RollBack => CommandView::RollBack,
            TakeoverCommand::Finish(r) => CommandView::Finish(result_view(*r)),
        }
    }
}

/// The model of a step: which one it is, with the backup or error it carries.
pub enum StepView {
    RestoreStart,
    RestoreLoaded(Option<Seq<char>>, Seq<char>),
    RestoreApplying,
    RestoreRemoving,
    TakeoverStart,
    TakeoverReading,
    TakeoverBacking(Option<Seq<char>>, Seq<char>),
    TakeoverApplying,
    TakeoverRollingBack(Seq<char>),
    Done,
}

impl View for TakeoverStep {
    type V = StepView;

    open spec fn view(&self) -> StepView {
        match self {
            TakeoverStep::RestoreStart => StepView::RestoreStart,
            TakeoverStep::RestoreLoaded(s) => StepView::RestoreLoaded(opt_view(s.original), s.applied@),
            TakeoverStep::RestoreApplying => StepView::RestoreApplying,
            TakeoverStep::RestoreRemoving => StepView::RestoreRemoving,
            TakeoverStep::TakeoverStart => StepView::TakeoverStart,
            TakeoverStep::TakeoverReading => StepView::TakeoverReading,
            TakeoverStep::TakeoverBacking(s) => StepView::TakeoverBacking(opt_view(s.original), s.applied@),
            TakeoverStep::TakeoverApplying => StepView::TakeoverApplying,
            TakeoverStep::TakeoverRollingBack(e) => StepView::TakeoverRollingBack(e@),
            TakeoverStep::Done => StepView::Done,
        }
    }
}

/// The message when the settings key cannot be opened.
pub open spec fn key_error(detail: Seq<char>) -> Seq<char> {
    "打开系统快捷键设置失败: "@ + detail
}

/// The message when the setting cannot be read.
pub open spec fn read_error(detail: Seq<char>) -> Seq<char> {
    "读取系统快捷键设置失败: "@ + detail
}

/// The message when a takeover's write fails and the rollback succeeds.
pub open spec fn rolled_back_message(error: Seq<char>) -> Seq<char> {
    "设置 Win+V 接管失败，已回滚: "@ + error
}

/// The message when a takeover's write fails and so does the rollback.
pub open spec fn rollback_pending_message(error: Seq<char>, rollback: Seq<char>) -> Seq<char> {
    "设置 Win+V 接管失败且回滚待恢复: "@ + error + "; "@ + rollback
}

/// What one step of a restore or a takeover does with an event: the next step and
/// the command for the caller.
///
/// Restoring: a missing backup means there is nothing to restore; an unreadable or
/// corrupt backup, or a setting that cannot be read, stops with an error; otherwise
/// `restore_plan` decides, and the backup is removed once the setting is restored.
///
/// Taking over: an existing backup means an earlier takeover is not restored yet; the
/// setting's value is then planned by `takeover_plan`, the backup written, and the new
/// value applied; when that write fails, the takeover is rolled back and the error
/// reports how the rollback went.
pub open spec fn step_spec(step: StepView, event: TakeoverEvent) -> (StepView, CommandView) {
    let finish = |r: Result<(), Seq<char>>| (StepView::Done, CommandView::Finish(r));
    match (step, event) {
        (StepView::RestoreStart, TakeoverEvent::Backup(read)) => match read {
            BackupRead::Missing => finish(Ok(())),
            BackupRead::Unreadable(e) => finish(Err("读取接管备份失败: "@ + e@)),
            BackupRead::Corrupt(e) => finish(Err("接管备份损坏: "@ + e@)),
            BackupRead::Loaded(s) => (
                StepView::RestoreLoaded(opt_view(s.original), s.applied@),
                CommandView::ReadSetting,
            ),
        },
        (StepView::RestoreLoaded(original, applied), TakeoverEvent::Setting(read)) => match read {
            SettingRead::KeyUnavailable(e) => finish(Err(key_error(e@))),
            SettingRead::Failed(e) => finish(Err(read_error(e@))),
            SettingRead::Value(v) => match restore_plan(original, applied, opt_view(v)) {
                None => finish(Err(external_change_message())),
                Some(RestoreView::AlreadyOriginal) => (StepView::RestoreRemoving, CommandView::RemoveBackup),
                Some(a) => (StepView::RestoreApplying, CommandView::Apply(a)),
            },
        },
        (StepView::RestoreApplying, TakeoverEvent::Written(r)) => match r {
            Ok(()) => (StepView::RestoreRemoving, CommandView::RemoveBackup),
            Err(e) => finish(Err(e@)),
        },
        (StepView::RestoreRemoving, TakeoverEvent::Removed(r)) => finish(result_view(r)),
        (StepView::TakeoverStart, TakeoverEvent::BackupExists(exists)) => if exists {
            finish(Err("Win+V 接管状态尚未恢复"@))
        } else {
            (StepView::TakeoverReading, CommandView::ReadSetting)
        },
        (StepView::TakeoverReading, TakeoverEvent::Setting(read)) => match read {
            SettingRead::KeyUnavailable(e) => finish(Err(key_error(e@))),
            SettingRead::Failed(e) => finish(Err(read_error(e@))),
            SettingRead::Value(v) => match takeover_plan(opt_view(v)) {
                None => finish(Err(already_disabled_message())),
                Some((original, applied)) => (
                    StepView::TakeoverBacking(original, applied),
                    CommandView::WriteBackup(original, applied),
                ),
            },
        },
        (StepView::TakeoverBacking(_, applied), TakeoverEvent::Written(r)) => match r {
            Ok(()) => (StepView::TakeoverApplying, CommandView::WriteSetting(applied)),
            Err(e) => finish(Err(e@)),
        },
        (StepView::TakeoverApplying, TakeoverEvent::Written(r)) => match r {
            Ok(()) => finish(Ok(())),
            Err(e) => (StepView::TakeoverRollingBack(e@), CommandView::RollBack),
        },
        (StepView::TakeoverRollingBack(e), TakeoverEvent::RolledBack(r)) => match r {
            Ok(()) => finish(Err(rolled_back_message(e))),
            Err(rb) => finish(Err(rollback_pending_message(e, rb@))),
        },
        _ => finish(Ok(())),
    }
}

/// A finished step and its result.
fn finish(r: Result<(), String>) -> (res: (TakeoverStep, TakeoverCommand))
    ensures
        res.0@ == StepView::Done,
        res.1@ == CommandView::Finish(result_view(r)),
{
    (TakeoverStep::Done, TakeoverCommand::Finish(r))
}

/// One step of a restore or a takeover: the next step, and what the caller must do.
pub fn takeover_step(step: TakeoverStep, event: TakeoverEvent) -> (res: (TakeoverStep, TakeoverCommand))
    requires
        expects(step, event),
    ensures
        (res.0@, res.1@) == step_spec(step@, event),
{
    match step {
        TakeoverStep::RestoreStart => match event {
            TakeoverEvent::Backup(read) => match read {
                BackupRead::Missing => finish(Ok(())),
                BackupRead::Unreadable(e) => finish(Err(prefixed("读取接管备份失败: ", e.as_str()))),
                BackupRead::Corrupt(e) => finish(Err(prefixed("接管备份损坏: ", e.as_str()))),
                BackupRead::Loaded(s) => (TakeoverStep::RestoreLoaded(s), TakeoverCommand::ReadSetting),
            },
            _ => finish(Ok(())),
        },
        TakeoverStep::RestoreLoaded(s) => match event {
            TakeoverEvent::Setting(read) => match read {
                SettingRead::KeyUnavailable(e) => finish(Err(prefixed("打开系统快捷键设置失败: ", e.as_str()))),
                SettingRead::Failed(e) => finish(Err(prefixed("读取系统快捷键设置失败: ", e.as_str()))),
                SettingRead::Value(v) => {
                    let current: Option<&str> = match &v {
                        Some(x) => Some(x.as_str()),
                        None => None,
                    };
                    match restoration_action(&s, current) {
                        Err(m) => finish(Err(m)),
                        Ok(RestoreAction::AlreadyOriginal) => (
                            TakeoverStep::RestoreRemoving,
                            TakeoverCommand::RemoveBackup,
                        ),
                        Ok(a) => (TakeoverStep::RestoreApplying, TakeoverCommand::Apply(a)),
                    }
                },
            },
            _ => finish(Ok(())),
        },
        TakeoverStep::RestoreApplying => match event {
            TakeoverEvent::Written(r) => match r {
                Ok(()) => (TakeoverStep::RestoreRemoving, TakeoverCommand::RemoveBackup),
                Err(e) => finish(Err(e)),
            },
            _ => finish(Ok(())),
        },
        TakeoverStep::RestoreRemoving => match event {
            TakeoverEvent::Removed(r) => finish(r),
            _ => finish(Ok(())),
        },
        TakeoverStep::TakeoverStart => match event {
            TakeoverEvent::BackupExists(exists) => {
                if exists {
                    finish(Err("Win+V 接管状态尚未恢复".to_owned()))
                } else {
                    (TakeoverStep::TakeoverReading, TakeoverCommand::ReadSetting)
                }
            },
            _ => finish(Ok(())),
        },
        TakeoverStep::TakeoverReading => match event {
            TakeoverEvent::Setting(read) => match read {
                SettingRead::KeyUnavailable(e) => finish(Err(prefixed("打开系统快捷键设置失败: ", e.as_str()))),
                SettingRead::Failed(e) => finish(Err(prefixed("读取系统快捷键设置失败: ", e.as_str()))),
                SettingRead::Value(v) => {
                    let current: Option<&str> = match &v {
                        Some(x) => Some(x.as_str()),
                        None => None,
                    };
                    match plan_takeover(current) {
                        Err(m) => finish(Err(m)),
                        Ok(state) => {
                            let copy = SavedState {
                                original: match &state.original {
                                    Some(o) => Some(o.clone()),
                                    None => None,
                                },
                                applied: state.applied.clone(),
                            };
                            (TakeoverStep::TakeoverBacking(copy), TakeoverCommand::WriteBackup(state))
                        },
                    }
                },
            },
            _ => finish(Ok(())),
        },
        TakeoverStep::TakeoverBacking(state) => match event {
            TakeoverEvent::Written(r) => match r {
                Ok(()) => (TakeoverStep::TakeoverApplying, TakeoverCommand::WriteSetting(state.applied)),
                Err(e) => finish(Err(e)),
            },
            _ => finish(Ok(())),
        },
        TakeoverStep::TakeoverApplying => match event {
            TakeoverEvent::Written(r) => match r {
                Ok(()) => finish(Ok(())),
                Err(e) => (TakeoverStep::TakeoverRollingBack(e), TakeoverCommand::RollBack),
            },
            _ => finish(Ok(())),
        },
        TakeoverStep::TakeoverRollingBack(e) => match event {
            TakeoverEvent::RolledBack(r) => match r {
                Ok(()) => finish(Err(prefixed("设置 Win+V 接管失败，已回滚: ", e.as_str()))),
                Err(rb) => {
                    let mut out = chars_of("设置 Win+V 接管失败且回滚待恢复: ");
                    let a = chars_of(e.as_str());
                    extend_chars(&mut out, &a);
                    let sep = chars_of("; ");
                    extend_chars(&mut out, &sep);
                    let b = chars_of(rb.as_str());
                    extend_chars(&mut out, &b);
                    finish(Err(string_of(&out)))
                },
            },
            _ => finish(Ok(())),
        },
        TakeoverStep::Done => finish(Ok(())),
    }
}

/// Recovers a takeover left behind by an earlier run: the first step of a restore,
/// given what reading the backup gave.
pub fn recover_stale(backup: BackupRead) -> (res: (TakeoverStep, TakeoverCommand))
    ensures
        (res.0@, res.1@) == step_spec(StepView::RestoreStart, TakeoverEvent::Backup(backup)),
{
    takeover_step(TakeoverStep::RestoreStart, TakeoverEvent::Backup(backup))
}

/// A takeover in force: the path of its backup, and whether it has been restored.
#[derive(Debug)]
pub struct Takeover {
    state_path: String,
    restored: bool,
}

impl Takeover {
    /// Whether the takeover has been restored.
    pub closed spec fn is_restored(&self) -> bool {
        self.restored
    }

    /// The path of the backup file.
    pub closed spec fn spec_state_path(&self) -> Seq<char> {
        self.state_path@
    }

    /// A takeover whose backup is at `state_path`, not yet restored.
    pub fn new(state_path: String) -> (t: Takeover)
        ensures
            !t.is_restored(),
            t.spec_state_path() == state_path@,
    {
        Takeover { state_path, restored: false }
    }

    /// The path of the backup file.
    pub fn state_path(&self) -> (p: &str)
        ensures
            p@ == self.spec_state_path(),
    {
        self.state_path.as_str()
    }

    /// Records how restoring went, and returns that outcome: the takeover counts as
    /// restored exactly when the restore succeeded.
    pub fn restore(&mut self, outcome: Result<(), String>) -> (res: Result<(), String>)
        ensures
            final(self).is_restored() == (outcome is Ok),
            final(self).spec_state_path() == old(self).spec_state_path(),
            result_view(res) == result_view(outcome),
    {
        self.restored = match &outcome {
            Ok(()) => true,
            Err(_) => false,
        };
        outcome
    }

    /// Whether dropping the takeover must still try to restore it.
    pub fn needs_restore_on_drop(&self) -> (res: bool)
        ensures
            res == !self.is_restored(),
    {
        !self.restored
    }
}

/// A restore that finds no backup succeeds and does nothing else.
pub proof fn law_missing_backup_is_nothing_to_restore()
    ensures
        step_spec(StepView::RestoreStart, TakeoverEvent::Backup(BackupRead::Missing)) == (
            StepView::Done,
            CommandView::Finish(Ok(())),
        ),
{
}

/// A restore never writes a setting that someone else changed during the takeover:
/// it stops with the message that the change is kept.
pub proof fn law_restore_keeps_external_change(
    original: Option<Seq<char>>,
    applied: Seq<char>,
    current: Option<String>,
)
    requires
        opt_view(current) != original,
        opt_view(current) != Some(applied),
    ensures
        step_spec(
            StepView::RestoreLoaded(original, applied),
            TakeoverEvent::Setting(SettingRead::Value(current)),
        ) == (StepView::Done, CommandView::Finish(Err(external_change_message()))),
{
}

/// A takeover writes its backup before it writes the setting, and the backup holds the
/// value the setting had.
pub proof fn law_backup_precedes_write(current: Option<String>)
    requires
        takeover_plan(opt_view(current)) is Some,
    ensures
        ({
            let (original, applied) = takeover_plan(opt_view(current)).unwrap();
            &&& original == opt_view(current)
            &&& step_spec(StepView::TakeoverReading, TakeoverEvent::Setting(SettingRead::Value(current)))
                == (StepView::TakeoverBacking(original, applied), CommandView::WriteBackup(original, applied))
            &&& step_spec(StepView::TakeoverBacking(original, applied), TakeoverEvent::Written(Ok(())))
                == (StepView::TakeoverApplying, CommandView::WriteSetting(applied))
        }),
{
}

/// Whether a step belongs to taking over, rather than to restoring.
pub open spec fn is_takeover_step(step: StepView) -> bool {
    ||| step is TakeoverStart
    ||| step is TakeoverReading
    ||| step is TakeoverBacking
    ||| step is TakeoverApplying
    ||| step is TakeoverRollingBack
}

/// The backup outlives the takeover: no step of taking over removes it, and a
/// successful write of the applied value finishes the takeover with success, the
/// backup still in place. Only a restore removes the backup, and only once the setting
/// holds its original value again: either it already did when read, or the write that
/// put the original back (or removed a value that was absent before) succeeded.
pub proof fn law_backup_outlives_takeover(step: StepView, event: TakeoverEvent)
    ensures
        is_takeover_step(step) ==> step_spec(step, event).1 != CommandView::RemoveBackup,
        step == StepView::TakeoverApplying && (event matches TakeoverEvent::Written(r) && r is Ok) ==> step_spec(
            step,
            event,
        ) == (StepView::Done, CommandView::Finish(Ok(()))),
        step_spec(step, event).1 == CommandView::RemoveBackup ==> {
            ||| (step == StepView::RestoreApplying && (event matches TakeoverEvent::Written(r) && r is Ok))
            ||| (step matches StepView::RestoreLoaded(original, _) && event matches TakeoverEvent::Setting(
                SettingRead::Value(v),
            ) && opt_view(v) == original)
        },
        step_spec(step, event).1 matches CommandView::Apply(action) ==> (step matches StepView::RestoreLoaded(
            original,
            _,
        ) && action == match original {
            Some(o) => RestoreView::SetValue(o),
            None => RestoreView::Delete,
        }),
{
    match step {
        StepView::RestoreLoaded(original, applied) => {
            if let TakeoverEvent::Setting(SettingRead::Value(v)) = event {
                if opt_view(v) != original {
                    assert(restore_plan(original, applied, opt_view(v)) != Some(RestoreView::AlreadyOriginal));
                }
            }
        },
        _ => {},
    }
}

} // verus!
