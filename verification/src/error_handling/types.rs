//! The error taxonomy of the platform. Errors that carry an underlying
//! system error hold its rendered message.

use vstd::prelude::*;

verus! {

#[derive(Debug)]
pub enum ControllerError {
    Config(ConfigError),
    Network(NetworkError),
    Session(SessionError),
    Container(ContainerError),
    Storage(StorageError),
    Web(WebError),
}

#[derive(Debug)]
pub enum ConfigError {
    InvalidFormat,
    MissingField(String),
    IoError(String),
    TomlError(String),
    ServicesEmpty(String),
    NotInRange(String),
    BadIPFormatting(String),
    BadPortsRange(String),
    DirectoryDoesNotExist(String),
}

#[derive(Debug)]
pub enum SessionError {
    CreationFailed,
    ContainerError(ContainerError),
    StorageError(StorageError),
    CaptureError(CaptureError),
}

#[derive(Debug)]
pub enum WebError {
    RequestFailed,
    StartFailed(String),
}

/// Failures of the network core: socket creation and bind failures are fatal
/// to the affected listener and surfaced to the caller; a failed detection or
/// a closed handoff channel only ends the one connection.
#[derive(Debug)]
pub enum NetworkError {
    ConnectionFailed,
    ServiceDetectionFailed,
    SockError(String),
    BindError(String),
    ChannelFailed,
}

#[derive(Debug)]
pub enum ContainerError {
    RuntimeNotAvailable,
    CreationFailed(String),
    StartFailed,
}

#[derive(Debug)]
pub enum StorageError {
    ConnectionFailed,
    WriteFailed,
    ReadFailed,
}

#[derive(Debug)]
pub enum CaptureError {
    TcpStreamError(String),
    StdioError(String),
    StorageError(StorageError),
}

} // verus!
