use ecp_clipboard::win_v_takeover::{
    plan_takeover, plan_takeover_with, recover_stale, restoration_action, takeover_step, BackupRead, RestoreAction,
    SavedState, SettingRead, Takeover, TakeoverCommand, TakeoverEvent, TakeoverStep,
};

fn state(original: Option<&str>, applied: &str) -> SavedState {
    SavedState {
        original: original.map(|s| s.to_string()),
        applied: applied.to_string(),
    }
}

#[test]
fn recovery_handles_crash_before_registry_write() {
    let state = state(Some("Q"), "QV");
    assert_eq!(
        restoration_action(&state, Some("Q")).unwrap(),
        RestoreAction::AlreadyOriginal
    );
}

#[test]
fn normal_restore_and_registration_failure_rollback_restore_original() {
    let s = state(None, "V");
    assert_eq!(restoration_action(&s, Some("V")).unwrap(), RestoreAction::Delete);
    let s = state(Some("Q"), "QV");
    assert_eq!(
        restoration_action(&s, Some("QV")).unwrap(),
        RestoreAction::SetValue("Q".into())
    );
}

#[test]
fn external_registry_change_is_preserved() {
    let s = state(Some("Q"), "QV");
    assert!(restoration_action(&s, Some("QX")).is_err());
}

#[test]
fn external_change_message_names_the_kept_value() {
    let s = state(Some("Q"), "QV");
    assert_eq!(
        restoration_action(&s, None).unwrap_err(),
        "Win+V 系统设置在接管期间被外部修改；已保留当前值和原值备份"
    );
}

#[test]
fn takeover_appends_v_or_refuses_an_existing_v() {
    let s = plan_takeover(Some("Q")).unwrap();
    assert_eq!(s.original.as_deref(), Some("Q"));
    assert_eq!(s.applied, "QV");
    let s = plan_takeover(None).unwrap();
    assert_eq!(s.original, None);
    assert_eq!(s.applied, "V");
    assert_eq!(
        plan_takeover(Some("qv")).unwrap_err(),
        "系统已禁用 Win+V，且此设置不属于本程序；未修改注册表"
    );
}

#[test]
fn takeover_then_restore_gives_back_the_original() {
    let s = plan_takeover(Some("AB")).unwrap();
    let applied = s.applied.clone();
    assert_eq!(
        restoration_action(&s, Some(&applied)).unwrap(),
        RestoreAction::SetValue("AB".into())
    );
}

fn finished(step: (TakeoverStep, TakeoverCommand)) -> Result<(), String> {
    match step {
        (TakeoverStep::Done, TakeoverCommand::Finish(r)) => r,
        _ => panic!("not finished"),
    }
}

#[test]
fn missing_backup_means_nothing_to_restore() {
    assert_eq!(finished(recover_stale(BackupRead::Missing)), Ok(()));
    assert_eq!(
        finished(recover_stale(BackupRead::Corrupt("bad".into()))),
        Err("接管备份损坏: bad".to_string())
    );
    assert_eq!(
        finished(recover_stale(BackupRead::Unreadable("denied".into()))),
        Err("读取接管备份失败: denied".to_string())
    );
}

#[test]
fn restore_walks_read_write_remove() {
    let (step, cmd) = recover_stale(BackupRead::Loaded(state(Some("Q"), "QV")));
    assert!(matches!(cmd, TakeoverCommand::ReadSetting));
    let (step, cmd) = takeover_step(step, TakeoverEvent::Setting(SettingRead::Value(Some("QV".into()))));
    match &cmd {
        TakeoverCommand::Apply(a) => assert_eq!(*a, RestoreAction::SetValue("Q".into())),
        _ => panic!("expected a write"),
    }
    let (step, cmd) = takeover_step(step, TakeoverEvent::Written(Ok(())));
    assert!(matches!(cmd, TakeoverCommand::RemoveBackup));
    assert_eq!(finished(takeover_step(step, TakeoverEvent::Removed(Ok(())))), Ok(()));
}

#[test]
fn restore_reports_unreadable_setting() {
    let (step, _) = recover_stale(BackupRead::Loaded(state(None, "V")));
    assert_eq!(
        finished(takeover_step(step, TakeoverEvent::Setting(SettingRead::Failed("e".into())))),
        Err("读取系统快捷键设置失败: e".to_string())
    );
    let (step, _) = recover_stale(BackupRead::Loaded(state(None, "V")));
    assert_eq!(
        finished(takeover_step(step, TakeoverEvent::Setting(SettingRead::KeyUnavailable("k".into())))),
        Err("打开系统快捷键设置失败: k".to_string())
    );
}

#[test]
fn takeover_writes_backup_before_setting_and_rolls_back() {
    assert_eq!(
        finished(takeover_step(TakeoverStep::TakeoverStart, TakeoverEvent::BackupExists(true))),
        Err("Win+V 接管状态尚未恢复".to_string())
    );
    let (step, cmd) = takeover_step(TakeoverStep::TakeoverStart, TakeoverEvent::BackupExists(false));
    assert!(matches!(cmd, TakeoverCommand::ReadSetting));
    let (step, cmd) = takeover_step(step, TakeoverEvent::Setting(SettingRead::Value(None)));
    match &cmd {
        TakeoverCommand::WriteBackup(s) => {
            assert_eq!(s.original, None);
            assert_eq!(s.applied, "V");
        }
        _ => panic!("expected the backup first"),
    }
    let (step, cmd) = takeover_step(step, TakeoverEvent::Written(Ok(())));
    match &cmd {
        TakeoverCommand::WriteSetting(v) => assert_eq!(v, "V"),
        _ => panic!("expected the setting"),
    }
    let (step, cmd) = takeover_step(step, TakeoverEvent::Written(Err("denied".into())));
    assert!(matches!(cmd, TakeoverCommand::RollBack));
    assert_eq!(
        finished(takeover_step(step, TakeoverEvent::RolledBack(Err("stuck".into())))),
        Err("设置 Win+V 接管失败且回滚待恢复: denied; stuck".to_string())
    );
}

#[test]
fn rollback_success_is_reported() {
    let step = TakeoverStep::TakeoverRollingBack("denied".into());
    assert_eq!(
        finished(takeover_step(step, TakeoverEvent::RolledBack(Ok(())))),
        Err("设置 Win+V 接管失败，已回滚: denied".to_string())
    );
}

#[test]
fn takeover_remembers_whether_it_was_restored() {
    let mut t = Takeover::new("state.json".into());
    assert!(t.needs_restore_on_drop());
    assert_eq!(t.state_path(), "state.json");
    assert_eq!(t.restore(Err("no".into())), Err("no".to_string()));
    assert!(t.needs_restore_on_drop());
    assert_eq!(t.restore(Ok(())), Ok(()));
    assert!(!t.needs_restore_on_drop());
}

#[test]
fn takeover_plan_reads_the_upper_case() {
    assert!(plan_takeover_with(Some("q"), "QV").is_err());
    let s = plan_takeover_with(Some("ab"), "AB").unwrap();
    assert_eq!(s.applied, "abV");
    assert_eq!(s.original.as_deref(), Some("ab"));
}
