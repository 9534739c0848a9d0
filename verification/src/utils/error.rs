//! Errors of the application as a whole.

use vstd::prelude::*;
use crate::text::joined;

verus! {

/// An error of the application, with what caused it.
#[derive(Debug)]
pub enum AppError {
    SshError(String),
    FileError(String),
    ConfigError(String),
    NetworkError(String),
}

/// Result of an operation that may fail with an `AppError`.
pub type Result<T> = core::result::Result<T, AppError>;

/// What an `AppError` stands for.
pub enum AppErrorModel {
    SshError(Seq<char>),
    FileError(Seq<char>),
    ConfigError(Seq<char>),
    NetworkError(Seq<char>),
}

impl AppErrorModel {
    /// The text shown to the user for this error.
    pub open spec fn text(self) -> Seq<char> {
        match self {
            AppErrorModel::SshError(cause) => "SSH连接错误: "@ + cause,
            AppErrorModel::FileError(cause) => "文件操作错误: "@ + cause,
            AppErrorModel::ConfigError(cause) => "配置错误: "@ + cause,
            AppErrorModel::NetworkError(cause) => "网络错误: "@ + cause,
        }
    }
}

impl View for AppError {
    type V = AppErrorModel;

    open spec fn view(&self) -> AppErrorModel {
        match self {
            AppError::SshError(cause) => AppErrorModel::SshError(cause@),
            AppError::FileError(cause) => AppErrorModel::FileError(cause@),
            AppError::ConfigError(cause) => AppErrorModel::ConfigError(cause@),
            AppError::NetworkError(cause) => AppErrorModel::NetworkError(cause@),
        }
    }
}

impl AppError {
    /// The text shown to the user for this error.
    pub fn message(&self) -> (msg: String)
        ensures
            msg@ == self@.text(),
    {
        match self {
            AppError::SshError(cause) => joined("SSH连接错误: ", cause.as_str()),
            AppError::FileError(cause) => joined("文件操作错误: ", cause.as_str()),
            AppError::ConfigError(cause) => joined("配置错误: ", cause.as_str()),
            AppError::NetworkError(cause) => joined("网络错误: ", cause.as_str()),
        }
    }
}

} // verus!
