//! Errors of the connection boundary.

use vstd::prelude::*;
use crate::models::connection::ConfigError;
use crate::services::auth::AuthError;
use crate::text::joined;

verus! {

/// The steps by which a connection is established, in their order.
#[derive(Debug, Clone, Copy, PartialEq, Eq, Structural)]
pub enum ConnectStep {
    OpenTcp,
    CreateSession,
    Handshake,
    Authenticate,
    OpenSftp,
    OpenChannel,
    RequestPty,
    StartShell,
}

impl ConnectStep {
    /// The step that follows this one; none after the last.
    pub open spec fn successor(self) -> Option<ConnectStep> {
        match self {
            ConnectStep::OpenTcp => Some(ConnectStep::CreateSession),
            ConnectStep::CreateSession => Some(ConnectStep::Handshake),
            ConnectStep::Handshake => Some(ConnectStep::Authenticate),
            ConnectStep::Authenticate => Some(ConnectStep::OpenSftp),
            ConnectStep::OpenSftp => Some(ConnectStep::OpenChannel),
            ConnectStep::OpenChannel => Some(ConnectStep::RequestPty),
            ConnectStep::RequestPty => Some(ConnectStep::StartShell),
            ConnectStep::StartShell => None,
        }
    }

    /// What the message of a failure at this step begins with.
    pub open spec fn prefix(self) -> Seq<char> {
        match self {
            ConnectStep::OpenTcp => "TCP连接失败: "@,
            ConnectStep::CreateSession => "创建SSH会话失败: "@,
            ConnectStep::Handshake => "SSH握手失败: "@,
            ConnectStep::Authenticate => "认证失败: "@,
            ConnectStep::OpenSftp => "创建SFTP失败: "@,
            ConnectStep::OpenChannel => "创建shell通道失败: "@,
            ConnectStep::RequestPty => "请求PTY失败: "@,
            ConnectStep::StartShell => "启动shell失败: "@,
        }
    }

    /// The first step.
    pub fn first() -> (step: ConnectStep)
        ensures
            step == ConnectStep::OpenTcp,
    {
        ConnectStep::OpenTcp
    }

    /// The step that follows this one; none after the last.
    pub fn next(self) -> (step: Option<ConnectStep>)
        ensures
            step == self.successor(),
    {
        match self {
            ConnectStep::OpenTcp => Some(ConnectStep::CreateSession),
            ConnectStep::CreateSession => Some(ConnectStep::Handshake),
            ConnectStep::Handshake => Some(ConnectStep::Authenticate),
            ConnectStep::Authenticate => Some(ConnectStep::OpenSftp),
            ConnectStep::OpenSftp => Some(ConnectStep::OpenChannel),
            ConnectStep::OpenChannel => Some(ConnectStep::RequestPty),
            ConnectStep::RequestPty => Some(ConnectStep::StartShell),
            ConnectStep::StartShell => None,
        }
    }

    /// What the message of a failure at this step begins with.
    pub fn label(self) -> (text: &'static str)
        ensures
            text@ == self.prefix(),
    {
        match self {
            ConnectStep::OpenTcp => "TCP连接失败: ",
            ConnectStep::CreateSession => "创建SSH会话失败: ",
            ConnectStep::Handshake => "SSH握手失败: ",
            ConnectStep::Authenticate => "认证失败: ",
            ConnectStep::OpenSftp => "创建SFTP失败: ",
            ConnectStep::OpenChannel => "创建shell通道失败: ",
            ConnectStep::RequestPty => "请求PTY失败: ",
            ConnectStep::StartShell => "启动shell失败: ",
        }
    }
}

impl AuthError {
    /// The text of this failure, given what the transport said of it.
    pub open spec fn text(self, detail: Seq<char>) -> Seq<char> {
        match self {
            AuthError::PasswordRequired => "密码认证需要提供密码"@,
            AuthError::PasswordRejected => "密码认证失败: "@ + detail,
            AuthError::PrivateKeyRequired => "密钥认证需要提供私钥路径"@,
            AuthError::PrivateKeyRejected => "密钥认证失败: "@ + detail,
            AuthError::BothRejected => "混合认证失败: "@ + detail,
            AuthError::CredentialRequired => "混合认证需要提供密码或私钥"@,
            AuthError::NotAuthenticated => "认证失败"@,
        }
    }

    /// The text of this failure, given what the transport said of it.
    pub fn message(self, detail: &str) -> (msg: String)
        ensures
            msg@ == self.text(detail@),
    {
        match self {
            AuthError::PasswordRequired => "密码认证需要提供密码".to_owned(),
            AuthError::PasswordRejected => joined("密码认证失败: ", detail),
            AuthError::PrivateKeyRequired => "密钥认证需要提供私钥路径".to_owned(),
            AuthError::PrivateKeyRejected => joined("密钥认证失败: ", detail),
            AuthError::BothRejected => joined("混合认证失败: ", detail),
            AuthError::CredentialRequired => "混合认证需要提供密码或私钥".to_owned(),
            AuthError::NotAuthenticated => "认证失败".to_owned(),
        }
    }
}

/// Why an operation of the connection manager was refused.
#[derive(Debug)]
pub enum ConnectionError {
    /// The configuration is unusable; nothing was sent over the network.
    ConfigInvalid(ConfigError),
    /// A step of establishing the connection failed, with the transport's
    /// description of the failure.
    TransportError(ConnectStep, String),
    /// The credentials were not accepted, with the transport's description
    /// where it gave one.
    AuthFailed(AuthError, String),
    /// A usable session already exists under this identifier.
    AlreadyConnected,
    /// No session exists under this identifier.
    NotFound,
    /// The session under this identifier is not connected.
    NotConnected,
    /// The session has no shell channel.
    ChannelUnavailable,
    /// A command is under way on the session's shell channel.
    ChannelBusy,
}

/// What a `ConnectionError` stands for.
pub enum ErrorModel {
    ConfigInvalid(ConfigError),
    TransportError(ConnectStep, Seq<char>),
    AuthFailed(AuthError, Seq<char>),
    AlreadyConnected,
    NotFound,
    NotConnected,
    ChannelUnavailable,
    ChannelBusy,
}

impl ErrorModel {
    /// The text shown to the user for this error.
    pub open spec fn text(self) -> Seq<char> {
        match self {
            ErrorModel::ConfigInvalid(defect) => "配置验证失败: "@ + defect.text(),
            ErrorModel::TransportError(step, detail) => step.prefix() + detail,
            ErrorModel::AuthFailed(kind, detail) => kind.text(detail),
            ErrorModel::AlreadyConnected => "连接已存在"@,
            ErrorModel::NotFound => "连接不存在"@,
            ErrorModel::NotConnected => "连接未建立"@,
            ErrorModel::ChannelUnavailable => "Shell通道不存在"@,
            ErrorModel::ChannelBusy => "Shell通道正在执行命令"@,
        }
    }
}

impl View for ConnectionError {
    type V = ErrorModel;

    open spec fn view(&self) -> ErrorModel {
        match self {
            ConnectionError::ConfigInvalid(defect) => ErrorModel::ConfigInvalid(*defect),
            ConnectionError::TransportError(step, detail) => ErrorModel::TransportError(
                *step,
                detail@,
            ),
            ConnectionError::AuthFailed(kind, detail) => ErrorModel::AuthFailed(*kind, detail@),
            ConnectionError::AlreadyConnected => ErrorModel::AlreadyConnected,
            ConnectionError::NotFound => ErrorModel::NotFound,
            ConnectionError::NotConnected => ErrorModel::NotConnected,
            ConnectionError::ChannelUnavailable => ErrorModel::ChannelUnavailable,
            ConnectionError::ChannelBusy => ErrorModel::ChannelBusy,
        }
    }
}

impl ConnectionError {
    /// The text shown to the user for this error.
    pub fn message(&self) -> (msg: String)
        ensures
            msg@ == self@.text(),
    {
        match self {
            ConnectionError::ConfigInvalid(defect) => {
                let cause: String = defect.message();
                joined("配置验证失败: ", cause.as_str())
            },
            ConnectionError::TransportError(step, detail) => joined(step.label(), detail.as_str()),
            ConnectionError::AuthFailed(kind, detail) => kind.message(detail.as_str()),
            ConnectionError::AlreadyConnected => "连接已存在".to_owned(),
            ConnectionError::NotFound => "连接不存在".to_owned(),
            ConnectionError::NotConnected => "连接未建立".to_owned(),
            ConnectionError::ChannelUnavailable => "Shell通道不存在".to_owned(),
            ConnectionError::ChannelBusy => "Shell通道正在执行命令".to_owned(),
        }
    }
}

} // verus!
