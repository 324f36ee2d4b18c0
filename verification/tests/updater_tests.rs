use rockola::updater::{
    build_endpoints, cleared_recovery, cleared_restart_marker, install_marker, recovery_status,
    startup_recovery, update_endpoints, RecoveryFileState, UpdateInfo, UpdatePhase, UpdaterSession,
};

#[test]
fn crash_loop_after_install_enters_recovery() {
    let s = install_marker(RecoveryFileState::default());
    assert_eq!(s.restarts_after_update, 1);
    let first = startup_recovery(s);
    assert!(!first.activated);
    assert!(first.schedule_clear);
    assert_eq!(first.state, RecoveryFileState { restarts_after_update: 2, recovery_mode: false });
    let second = startup_recovery(first.state);
    assert!(second.activated);
    assert!(!second.schedule_clear);
    assert_eq!(second.state, RecoveryFileState { restarts_after_update: 0, recovery_mode: true });
    let status = recovery_status(second.state);
    assert!(status.in_recovery_mode);
    assert_eq!(status.restarts_after_update, 0);
}

#[test]
fn three_starts_from_scratch_enter_recovery() {
    let mut s = RecoveryFileState::default();
    for _ in 0..3 {
        s = startup_recovery(s).state;
    }
    assert!(s.recovery_mode);
}

#[test]
fn recovery_persists_until_cleared() {
    let mut s = RecoveryFileState { restarts_after_update: 0, recovery_mode: true };
    for _ in 0..5 {
        s = startup_recovery(s).state;
        assert!(s.recovery_mode);
        s = cleared_restart_marker(s);
        assert!(s.recovery_mode);
    }
    s = cleared_recovery(s);
    assert!(!s.recovery_mode);
    assert_eq!(s.restarts_after_update, 0);
}

#[test]
fn saturating_counter() {
    let r = startup_recovery(RecoveryFileState { restarts_after_update: u32::MAX, recovery_mode: false });
    assert!(r.activated);
    assert_eq!(r.state.restarts_after_update, 0);
}

#[test]
fn endpoints_by_channel() {
    assert_eq!(build_endpoints("beta"), vec!["https://github.com/USER/REPO/releases/latest/download/latest-beta.json".to_string()]);
    assert_eq!(build_endpoints("stable"), vec!["https://github.com/USER/REPO/releases/latest/download/latest.json".to_string()]);
    assert_eq!(build_endpoints("other"), build_endpoints("stable"));
    assert_eq!(update_endpoints(None, None).unwrap(), build_endpoints("stable"));
    assert_eq!(update_endpoints(Some("beta"), Some("   ")).unwrap(), build_endpoints("beta"));
    assert_eq!(update_endpoints(Some("beta"), Some(" https://feed.example/u.json ")).unwrap(), vec!["https://feed.example/u.json".to_string()]);
    assert_eq!(update_endpoints(None, Some("not a url")).unwrap_err(), "No hay endpoints de actualización configurados");
}

#[test]
fn update_session_flow() {
    let mut s = UpdaterSession::new("0.1.0".to_string());
    assert_eq!(s.begin_install().unwrap_err(), "No hay actualización pendiente.");
    assert_eq!(s.begin_download().unwrap_err(), "No hay actualización pendiente. Ejecuta Buscar actualización primero.");
    s.begin_check();
    assert_eq!(s.phase, UpdatePhase::Checking);
    let none = s.finish_check(None);
    assert!(!none.has_update);
    assert_eq!(none.current_version, "0.1.0");
    assert_eq!(s.phase, UpdatePhase::Idle);
    s.begin_check();
    let found = s.finish_check(Some(UpdateInfo { version: "0.2.0".into(), notes: Some("fixes".into()), pub_date: None }));
    assert!(found.has_update);
    assert_eq!(found.available_version, Some("0.2.0".to_string()));
    assert_eq!(s.phase.name(), "available");
    assert_eq!(s.begin_install().unwrap_err(), "No hay archivo descargado. Ejecuta Descargar primero.");
    s.begin_download().unwrap();
    assert_eq!(s.phase.name(), "downloading");
    s.finish_download();
    s.begin_install().unwrap();
    assert_eq!(s.phase, UpdatePhase::Installing);
    s.finish_install();
    assert_eq!(s.phase.name(), "done");
    assert!(!s.has_pending_update && !s.has_download);
    assert!(s.take_startup_check());
    assert!(!s.take_startup_check());
}

#[test]
fn recovery_status_runs_the_startup_check_once() {
    let mut s = UpdaterSession::new("0.1.0".to_string());
    let first = s.get_recovery_status(RecoveryFileState { restarts_after_update: 2, recovery_mode: false });
    assert_eq!(first.write, Some(RecoveryFileState { restarts_after_update: 0, recovery_mode: true }));
    assert!(first.activated);
    assert!(!first.schedule_clear);
    assert!(first.status.in_recovery_mode);
    let again = s.get_recovery_status(RecoveryFileState { restarts_after_update: 0, recovery_mode: true });
    assert_eq!(again.write, None);
    assert!(!again.activated);
    assert!(again.status.in_recovery_mode);
    let mut t = UpdaterSession::new("0.1.0".to_string());
    let one = t.get_recovery_status(RecoveryFileState { restarts_after_update: 0, recovery_mode: false });
    assert_eq!(one.write, Some(RecoveryFileState { restarts_after_update: 1, recovery_mode: false }));
    assert!(one.schedule_clear);
    assert_eq!(one.status.restarts_after_update, 1);
    assert!(!one.status.in_recovery_mode);
}
