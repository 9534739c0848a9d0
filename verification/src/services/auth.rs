//! Authentication: which credential is presented, in which order, and what
//! each answer of the transport leads to.

use vstd::prelude::*;
use crate::models::connection::{AuthMethod, ConfigModel, ConnectionConfig};

verus! {

/// Why authentication failed.
#[derive(Debug, Clone, Copy, PartialEq, Eq, Structural)]
pub enum AuthError {
    /// Password authentication was chosen and no password is configured.
    PasswordRequired,
    /// The transport rejected the password.
    PasswordRejected,
    /// Key authentication was chosen and no key file is configured.
    PrivateKeyRequired,
    /// The transport rejected the key.
    PrivateKeyRejected,
    /// Both credentials were allowed, and the key, tried last, was rejected.
    BothRejected,
    /// Both credentials were allowed and none is left to present.
    CredentialRequired,
    /// The transport reported no error and yet is not authenticated.
    NotAuthenticated,
}

/// What the transport answered to the last request.
#[derive(Debug, Clone, Copy, PartialEq, Eq, Structural)]
pub enum AuthEvent {
    /// Nothing was asked yet.
    Begin,
    /// The password was presented; `true` where it was accepted.
    PasswordTried(bool),
    /// The key file was presented; `true` where it was accepted.
    PrivateKeyTried(bool),
    /// The transport said whether it is authenticated.
    Checked(bool),
}

/// What to ask of the transport next.
#[derive(Debug, Clone, Copy, PartialEq, Eq, Structural)]
pub enum AuthAction {
    /// Present the configured password.
    TryPassword,
    /// Present the configured key file.
    TryPrivateKey,
    /// Ask the transport whether it is authenticated.
    CheckAuthenticated,
    /// Authentication succeeded.
    Succeed,
    /// Authentication failed.
    Fail(AuthError),
}

/// The action that follows `event` under `config`.
///
/// With one credential chosen, that credential is presented once; a
/// rejection is final, an acceptance is checked against the transport's
/// own flag. With both allowed, an accepted password ends authentication
/// at once; otherwise the key is presented, and its acceptance is checked.
pub open spec fn auth_step(config: ConfigModel, event: AuthEvent) -> AuthAction {
    match event {
        AuthEvent::Begin => match config.auth_method {
            AuthMethod::Password => if config.password is Some {
                AuthAction::TryPassword
            } else {
                AuthAction::Fail(AuthError::PasswordRequired)
            },
            AuthMethod::PrivateKey => if config.private_key_path is Some {
                AuthAction::TryPrivateKey
            } else {
                AuthAction::Fail(AuthError::PrivateKeyRequired)
            },
            AuthMethod::Both => if config.password is Some {
                AuthAction::TryPassword
            } else if config.private_key_path is Some {
                AuthAction::TryPrivateKey
            } else {
                AuthAction::Fail(AuthError::CredentialRequired)
            },
        },
        AuthEvent::PasswordTried(accepted) => match config.auth_method {
            AuthMethod::Both => if accepted {
                AuthAction::Succeed
            } else if config.private_key_path is Some {
                AuthAction::TryPrivateKey
            } else {
                AuthAction::Fail(AuthError::CredentialRequired)
            },
            _ => if accepted {
                AuthAction::CheckAuthenticated
            } else {
                AuthAction::Fail(AuthError::PasswordRejected)
            },
        },
        AuthEvent::PrivateKeyTried(accepted) => if accepted {
            AuthAction::CheckAuthenticated
        } else if config.auth_method == AuthMethod::Both {
            AuthAction::Fail(AuthError::BothRejected)
        } else {
            AuthAction::Fail(AuthError::PrivateKeyRejected)
        },
        AuthEvent::Checked(authenticated) => if authenticated {
            AuthAction::Succeed
        } else {
            AuthAction::Fail(AuthError::NotAuthenticated)
        },
    }
}

/// What to ask of the transport after `event`, under `config`.
pub fn authenticate(config: &ConnectionConfig, event: AuthEvent) -> (action: AuthAction)
    ensures
        action == auth_step(config@, event),
{
    match event {
        AuthEvent::Begin => match config.auth_method {
            AuthMethod::Password => {
                if config.password.is_some() {
                    AuthAction::TryPassword
                } else {
                    AuthAction::Fail(AuthError::PasswordRequired)
                }
            },
            AuthMethod::PrivateKey => {
                if config.private_key_path.is_some() {
                    AuthAction::TryPrivateKey
                } else {
                    AuthAction::Fail(AuthError::PrivateKeyRequired)
                }
            },
            AuthMethod::Both => {
                if config.password.is_some() {
                    AuthAction::TryPassword
                } else if config.private_key_path.is_some() {
                    AuthAction::TryPrivateKey
                } else {
                    AuthAction::Fail(AuthError::CredentialRequired)
                }
            },
        },
        AuthEvent::PasswordTried(accepted) => match config.auth_method {
            AuthMethod::Both => {
                if accepted {
                    AuthAction::Succeed
                } else if config.private_key_path.is_some() {
                    AuthAction::TryPrivateKey
                } else {
                    AuthAction::Fail(AuthError::CredentialRequired)
                }
            },
            _ => {
                if accepted {
                    AuthAction::CheckAuthenticated
                } else {
                    AuthAction::Fail(AuthError::PasswordRejected)
                }
            },
        },
        AuthEvent::PrivateKeyTried(accepted) => {
            if accepted {
                AuthAction::CheckAuthenticated
            } else {
                match config.auth_method {
                    AuthMethod::Both => AuthAction::Fail(AuthError::BothRejected),
                    _ => AuthAction::Fail(AuthError::PrivateKeyRejected),
                }
            }
        },
        AuthEvent::Checked(authenticated) => {
            if authenticated {
                AuthAction::Succeed
            } else {
                AuthAction::Fail(AuthError::NotAuthenticated)
            }
        },
    }
}

/// What the transport is taken to answer in a run of authentication: to
/// the password, to the key, and to the question whether it is
/// authenticated.
pub struct Answers {
    pub password: bool,
    pub private_key: bool,
    pub authenticated: bool,
}

/// The event that reports the transport's answer to `action`.
pub open spec fn answer_to(action: AuthAction, answers: Answers) -> AuthEvent {
    match action {
        AuthAction::TryPassword => AuthEvent::PasswordTried(answers.password),
        AuthAction::TryPrivateKey => AuthEvent::PrivateKeyTried(answers.private_key),
        _ => AuthEvent::Checked(answers.authenticated),
    }
}

/// Whether `action` ends authentication.
pub open spec fn is_final(action: AuthAction) -> bool {
    action is Succeed || action is Fail
}

/// The action reached from `action` after at most `steps` answers.
pub open spec fn auth_run(config: ConfigModel, action: AuthAction, answers: Answers, steps: nat) -> AuthAction
    decreases steps,
{
    if steps == 0 || is_final(action) {
        action
    } else {
        auth_run(
            config,
            auth_step(config, answer_to(action, answers)),
            answers,
            (steps - 1) as nat,
        )
    }
}

/// How authentication ends, given the transport's answers.
pub open spec fn auth_result(config: ConfigModel, answers: Answers) -> AuthAction {
    auth_run(config, auth_step(config, AuthEvent::Begin), answers, 3)
}

/// Authentication ends after at most three requests to the transport, and
/// how it ends is this: a usable configuration that chose the password
/// succeeds exactly where the password is accepted and the transport is
/// authenticated; one that chose the key, likewise for the key; one that
/// allowed both succeeds where the password is accepted, or else where
/// the key is configured, accepted and the transport authenticated.
pub proof fn lemma_auth_outcome(config: ConfigModel, answers: Answers)
    requires
        config.defect() is None,
    ensures
        is_final(auth_result(config, answers)),
        config.auth_method == AuthMethod::Password ==> (auth_result(config, answers) is Succeed
            <==> answers.password && answers.authenticated),
        config.auth_method == AuthMethod::PrivateKey ==> (auth_result(config, answers) is Succeed
            <==> answers.private_key && answers.authenticated),
        config.auth_method == AuthMethod::Both ==> (auth_result(config, answers) is Succeed <==> (
        config.password is Some && answers.password) || (config.private_key_path is Some
            && answers.private_key && answers.authenticated)),
{
    reveal_with_fuel(auth_run, 4);
}

} // verus!
