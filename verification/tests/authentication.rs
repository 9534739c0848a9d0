use shellmars::models::connection::{AuthMethod, ConnectionConfig};
use shellmars::services::auth::{authenticate, AuthAction, AuthError, AuthEvent};

fn config(method: AuthMethod, password: bool, key: bool) -> ConnectionConfig {
    let mut config = ConnectionConfig::with_identity(
        "id".to_string(),
        "n".to_string(),
        "h".to_string(),
        "u".to_string(),
        0,
    );
    config.auth_method = method;
    config.password = if password { Some("p".to_string()) } else { None };
    config.private_key_path = if key { Some("/k".to_string()) } else { None };
    config
}

/// Runs authentication against a transport that answers as given; returns how it ends
/// and which credentials were presented, in order.
fn run(
    config: &ConnectionConfig,
    password_ok: bool,
    key_ok: bool,
    authenticated: bool,
) -> (AuthAction, Vec<AuthAction>) {
    let mut asked = Vec::new();
    let mut action = authenticate(config, AuthEvent::Begin);
    for _ in 0..4 {
        let event = match action {
            AuthAction::TryPassword => AuthEvent::PasswordTried(password_ok),
            AuthAction::TryPrivateKey => AuthEvent::PrivateKeyTried(key_ok),
            AuthAction::CheckAuthenticated => AuthEvent::Checked(authenticated),
            AuthAction::Succeed | AuthAction::Fail(_) => return (action, asked),
        };
        asked.push(action);
        action = authenticate(config, event);
    }
    panic!("authentication does not end");
}

#[test]
fn password_method_presents_the_password_once() {
    let c = config(AuthMethod::Password, true, true);
    let (end, asked) = run(&c, true, true, true);
    assert_eq!(end, AuthAction::Succeed);
    assert_eq!(asked, vec![AuthAction::TryPassword, AuthAction::CheckAuthenticated]);
}

#[test]
fn password_rejection_is_final() {
    let c = config(AuthMethod::Password, true, true);
    let (end, asked) = run(&c, false, true, true);
    assert_eq!(end, AuthAction::Fail(AuthError::PasswordRejected));
    assert_eq!(asked, vec![AuthAction::TryPassword]);
}

#[test]
fn password_method_without_password_fails_before_asking() {
    let c = config(AuthMethod::Password, false, true);
    let (end, asked) = run(&c, true, true, true);
    assert_eq!(end, AuthAction::Fail(AuthError::PasswordRequired));
    assert!(asked.is_empty());
}

#[test]
fn key_method_presents_the_key_once() {
    let c = config(AuthMethod::PrivateKey, true, true);
    let (end, asked) = run(&c, false, true, true);
    assert_eq!(end, AuthAction::Succeed);
    assert_eq!(asked, vec![AuthAction::TryPrivateKey, AuthAction::CheckAuthenticated]);
    let (end, _) = run(&c, true, false, true);
    assert_eq!(end, AuthAction::Fail(AuthError::PrivateKeyRejected));
}

#[test]
fn key_method_without_key_fails_before_asking() {
    let c = config(AuthMethod::PrivateKey, true, false);
    let (end, asked) = run(&c, true, true, true);
    assert_eq!(end, AuthAction::Fail(AuthError::PrivateKeyRequired));
    assert!(asked.is_empty());
}

#[test]
fn both_returns_at_once_when_the_password_is_accepted() {
    let c = config(AuthMethod::Both, true, true);
    // Not even the transport's flag is asked for.
    let (end, asked) = run(&c, true, false, false);
    assert_eq!(end, AuthAction::Succeed);
    assert_eq!(asked, vec![AuthAction::TryPassword]);
}

#[test]
fn both_falls_back_to_the_key() {
    let c = config(AuthMethod::Both, true, true);
    let (end, asked) = run(&c, false, true, true);
    assert_eq!(end, AuthAction::Succeed);
    assert_eq!(
        asked,
        vec![AuthAction::TryPassword, AuthAction::TryPrivateKey, AuthAction::CheckAuthenticated]
    );
    let (end, _) = run(&c, false, false, true);
    assert_eq!(end, AuthAction::Fail(AuthError::BothRejected));
}

#[test]
fn both_without_password_goes_straight_to_the_key() {
    let c = config(AuthMethod::Both, false, true);
    let (end, asked) = run(&c, true, true, true);
    assert_eq!(end, AuthAction::Succeed);
    assert_eq!(asked, vec![AuthAction::TryPrivateKey, AuthAction::CheckAuthenticated]);
}

#[test]
fn both_without_any_credential_is_missing_credential() {
    let c = config(AuthMethod::Both, false, false);
    let (end, asked) = run(&c, true, true, true);
    assert_eq!(end, AuthAction::Fail(AuthError::CredentialRequired));
    assert!(asked.is_empty());
}

#[test]
fn both_with_rejected_password_and_no_key_is_missing_credential() {
    let c = config(AuthMethod::Both, true, false);
    let (end, asked) = run(&c, false, true, true);
    assert_eq!(end, AuthAction::Fail(AuthError::CredentialRequired));
    assert_eq!(asked, vec![AuthAction::TryPassword]);
}

#[test]
fn silent_failure_of_the_transport_is_surfaced() {
    let c = config(AuthMethod::Password, true, false);
    let (end, _) = run(&c, true, true, false);
    assert_eq!(end, AuthAction::Fail(AuthError::NotAuthenticated));
    let c = config(AuthMethod::PrivateKey, false, true);
    let (end, _) = run(&c, true, true, false);
    assert_eq!(end, AuthAction::Fail(AuthError::NotAuthenticated));
}

#[test]
fn messages_of_authentication_failures() {
    assert_eq!(AuthError::PasswordRequired.message("x"), "密码认证需要提供密码");
    assert_eq!(AuthError::PasswordRejected.message("denied"), "密码认证失败: denied");
    assert_eq!(AuthError::PrivateKeyRequired.message("x"), "密钥认证需要提供私钥路径");
    assert_eq!(AuthError::PrivateKeyRejected.message("bad key"), "密钥认证失败: bad key");
    assert_eq!(AuthError::BothRejected.message("no"), "混合认证失败: no");
    assert_eq!(AuthError::CredentialRequired.message("x"), "混合认证需要提供密码或私钥");
    assert_eq!(AuthError::NotAuthenticated.message("x"), "认证失败");
}
