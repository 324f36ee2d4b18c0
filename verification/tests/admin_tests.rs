use rockola::admin::{
    bearer_token, login, logout, require_admin, session_status, AdminFailedAttempts, AdminSessions,
    AuthStatus, LOCKOUT_SECS, SESSION_TTL_SECS,
};

#[test]
fn bearer_token_forms() {
    assert_eq!(bearer_token(None), None);
    assert_eq!(bearer_token(Some("Bearer abc")), Some("abc".to_string()));
    assert_eq!(bearer_token(Some("  xyz  ")), Some("xyz".to_string()));
    assert_eq!(bearer_token(Some("Bearer    ")), None);
    assert_eq!(bearer_token(Some("bearer abc")), Some("bearer abc".to_string()));
}

#[test]
fn login_without_pin_is_bad_request() {
    let mut failed = AdminFailedAttempts::default();
    let mut sessions = AdminSessions::new();
    let e = login(None, "1234", 100, &mut failed, &mut sessions).unwrap_err();
    assert_eq!(e.status, AuthStatus::BadRequest);
    assert_eq!(e.message, "Admin auth no configurado (ADMIN_PIN)");
}

#[test]
fn login_opens_a_fifteen_minute_session() {
    let mut failed = AdminFailedAttempts::default();
    let mut sessions = AdminSessions::new();
    let ok = login(Some("1234"), "1234", 1000, &mut failed, &mut sessions).unwrap();
    assert_eq!(ok.expires_in_secs, SESSION_TTL_SECS);
    assert_eq!(sessions.expiry(&ok.token), Some(1000 + 900));
    assert!(require_admin(true, Some(&ok.token), 1000 + 899, &mut sessions).is_ok());
    let e = require_admin(true, Some(&ok.token), 1000 + 900, &mut sessions).unwrap_err();
    assert_eq!(e.message, "Sesión expirada");
    assert_eq!(sessions.expiry(&ok.token), None);
}

#[test]
fn five_wrong_pins_lock_out_for_five_minutes() {
    let mut failed = AdminFailedAttempts::default();
    let mut sessions = AdminSessions::new();
    for t in 0..4u64 {
        let e = login(Some("1234"), "0000", 100 + t, &mut failed, &mut sessions).unwrap_err();
        assert_eq!(e.status, AuthStatus::Unauthorized);
        assert_eq!(e.message, "PIN incorrecto");
        assert_eq!(failed.locked_until_secs, 0);
    }
    let e = login(Some("1234"), "0000", 200, &mut failed, &mut sessions).unwrap_err();
    assert_eq!(e.status, AuthStatus::Unauthorized);
    assert_eq!(failed.count, 5);
    assert_eq!(failed.locked_until_secs, 200 + LOCKOUT_SECS);
    let e = login(Some("1234"), "1234", 200 + LOCKOUT_SECS - 1, &mut failed, &mut sessions).unwrap_err();
    assert_eq!(e.status, AuthStatus::TooManyRequests);
    assert_eq!(e.message, "Demasiados intentos; espera unos minutos");
    let ok = login(Some("1234"), "1234", 200 + LOCKOUT_SECS, &mut failed, &mut sessions);
    assert!(ok.is_ok());
    assert_eq!(failed.count, 0);
    assert_eq!(failed.locked_until_secs, 0);
}

#[test]
fn require_admin_cases() {
    let mut sessions = AdminSessions::new();
    assert!(require_admin(false, None, 5, &mut sessions).is_ok());
    let e = require_admin(true, None, 5, &mut sessions).unwrap_err();
    assert_eq!(e.message, "Authorization: Bearer <token> requerido");
    let e = require_admin(true, Some("nope"), 5, &mut sessions).unwrap_err();
    assert_eq!(e.message, "Sesión inválida o expirada");
    assert_eq!(e.status, AuthStatus::Unauthorized);
}

#[test]
fn logout_invalidates_the_session() {
    let mut failed = AdminFailedAttempts::default();
    let mut sessions = AdminSessions::new();
    let ok = login(Some("pin"), "pin", 10, &mut failed, &mut sessions).unwrap();
    assert_eq!(session_status(true, Some(&ok.token), 11, &mut sessions).unwrap(), true);
    logout(true, Some(&ok.token), &mut sessions);
    let e = session_status(true, Some(&ok.token), 11, &mut sessions).unwrap_err();
    assert_eq!((e.status, e.message.as_str()), (AuthStatus::Unauthorized, "Sesión inválida o expirada"));
    assert_eq!(session_status(false, None, 11, &mut sessions).unwrap(), true);
    assert!(session_status(true, None, 11, &mut sessions).is_err());
}

#[test]
fn two_logins_get_different_tokens() {
    let mut failed = AdminFailedAttempts::default();
    let mut sessions = AdminSessions::new();
    let a = login(Some("p"), "p", 1, &mut failed, &mut sessions).unwrap();
    let b = login(Some("p"), "p", 1, &mut failed, &mut sessions).unwrap();
    assert_ne!(a.token, b.token);
    assert_eq!(a.token.len(), 36);
}

#[test]
fn fifth_wrong_pin_locks_for_five_minutes() {
    let mut failed = AdminFailedAttempts { count: 4, locked_until_secs: 0 };
    let mut sessions = AdminSessions::new();
    let e = login(Some("1234"), "0000", 100, &mut failed, &mut sessions).unwrap_err();
    assert_eq!((e.status, e.message.as_str()), (AuthStatus::Unauthorized, "PIN incorrecto"));
    assert_eq!(failed.count, 5);
    assert_eq!(failed.locked_until_secs, 100 + LOCKOUT_SECS);
    let e = login(Some("1234"), "1234", 399, &mut failed, &mut sessions).unwrap_err();
    assert_eq!(e.status, AuthStatus::TooManyRequests);
    assert!(login(Some("1234"), "1234", 400, &mut failed, &mut sessions).is_ok());
}

#[test]
fn expired_session_status_is_refused_and_removed() {
    let mut failed = AdminFailedAttempts::default();
    let mut sessions = AdminSessions::new();
    let ok = login(Some("p"), "p", 10, &mut failed, &mut sessions).unwrap();
    let e = session_status(true, Some(&ok.token), 10 + SESSION_TTL_SECS, &mut sessions).unwrap_err();
    assert_eq!((e.status, e.message.as_str()), (AuthStatus::Unauthorized, "Sesión inválida o expirada"));
    assert_eq!(sessions.expiry(&ok.token), None);
}
