//! The error type of the library.
use vstd::prelude::*;
use vstd::string::*;
use crate::text::join2;

verus! {

/// What kind of failure an error reports.
#[derive(Clone, Copy, Debug, PartialEq, Eq, Structural)]
pub enum ErrorKind {
    /// Embedding a window into the desktop failed.
    DesktopIntegration,
    /// The desktop has no WorkerW window.
    WorkerWNotFound,
    /// A child process could not be started.
    ProcessSpawnFailed,
    /// A message could not be exchanged.
    IpcError,
    /// The audio session could not be controlled.
    AudioControl,
    /// A configuration file could not be read as such.
    ConfigParse,
    /// A configuration file could not be written.
    ConfigWrite,
    /// An image could not be decoded.
    ImageDecode,
    /// The file watcher failed.
    FileWatcher,
    /// A lock is poisoned.
    LockPoisoned,
    /// A task could not be joined.
    TaskJoin,
    /// The other side did not answer in time.
    IpcTimeout,
    /// The other side closed the connection.
    IpcDisconnected,
    /// There is no connection yet.
    IpcNotConnected,
    /// A system call failed; holds the system's own words.
    Win32,
    /// Input or output failed; holds the system's own words.
    Io,
    /// A wallpaper path was refused.
    InvalidPath,
    /// A configuration field is out of range.
    InvalidConfig,
    /// The protocol of a URL is not allowed.
    InvalidUrl,
    /// An argument is out of range.
    InvalidArgument,
    /// A WebView2 operation took too long.
    WebView2Timeout,
}

/// Everything that can fail in the library.
#[derive(Debug)]
pub enum MirrorStarError {
    /// Embedding a window into the desktop failed.
    DesktopIntegration(String),
    /// The desktop has no WorkerW window.
    WorkerWNotFound,
    /// A child process could not be started.
    ProcessSpawnFailed(String),
    /// A message could not be exchanged.
    IpcError(String),
    /// The audio session could not be controlled.
    AudioControl(String),
    /// A configuration file could not be read as such.
    ConfigParse(String),
    /// A configuration file could not be written.
    ConfigWrite(String),
    /// An image could not be decoded.
    ImageDecode(String),
    /// The file watcher failed.
    FileWatcher(String),
    /// A lock is poisoned.
    LockPoisoned(String),
    /// A task could not be joined.
    TaskJoin(String),
    /// The other side did not answer in time.
    IpcTimeout(String),
    /// The other side closed the connection.
    IpcDisconnected(String),
    /// There is no connection yet.
    IpcNotConnected(String),
    /// A system call failed; holds the system's own words.
    Win32(String),
    /// Input or output failed; holds the system's own words.
    Io(String),
    /// A wallpaper path was refused.
    InvalidPath {
        /// Why.
        reason: String,
    },
    /// A configuration field is out of range.
    InvalidConfig {
        /// Why.
        reason: String,
    },
    /// The protocol of a URL is not allowed.
    InvalidUrl {
        /// The protocol.
        scheme: String,
    },
    /// An argument is out of range.
    InvalidArgument {
        /// Why.
        reason: String,
    },
    /// A WebView2 operation took too long.
    WebView2Timeout(String),
}

/// An error stands for its kind and the text that details it.
impl View for MirrorStarError {
    type V = (ErrorKind, Seq<char>);

    open spec fn view(&self) -> (ErrorKind, Seq<char>) {
        match *self {
            MirrorStarError::DesktopIntegration(d) => (ErrorKind::DesktopIntegration, d@),
            MirrorStarError::WorkerWNotFound => (ErrorKind::WorkerWNotFound, Seq::<char>::empty()),
            MirrorStarError::ProcessSpawnFailed(d) => (ErrorKind::ProcessSpawnFailed, d@),
            MirrorStarError::IpcError(d) => (ErrorKind::IpcError, d@),
            MirrorStarError::AudioControl(d) => (ErrorKind::AudioControl, d@),
            MirrorStarError::ConfigParse(d) => (ErrorKind::ConfigParse, d@),
            MirrorStarError::ConfigWrite(d) => (ErrorKind::ConfigWrite, d@),
            MirrorStarError::ImageDecode(d) => (ErrorKind::ImageDecode, d@),
            MirrorStarError::FileWatcher(d) => (ErrorKind::FileWatcher, d@),
            MirrorStarError::LockPoisoned(d) => (ErrorKind::LockPoisoned, d@),
            MirrorStarError::TaskJoin(d) => (ErrorKind::TaskJoin, d@),
            MirrorStarError::IpcTimeout(d) => (ErrorKind::IpcTimeout, d@),
            MirrorStarError::IpcDisconnected(d) => (ErrorKind::IpcDisconnected, d@),
            MirrorStarError::IpcNotConnected(d) => (ErrorKind::IpcNotConnected, d@),
            MirrorStarError::Win32(d) => (ErrorKind::Win32, d@),
            MirrorStarError::Io(d) => (ErrorKind::Io, d@),
            MirrorStarError::InvalidPath { reason } => (ErrorKind::InvalidPath, reason@),
            MirrorStarError::InvalidConfig { reason } => (ErrorKind::InvalidConfig, reason@),
            MirrorStarError::InvalidUrl { scheme } => (ErrorKind::InvalidUrl, scheme@),
            MirrorStarError::InvalidArgument { reason } => (ErrorKind::InvalidArgument, reason@),
            MirrorStarError::WebView2Timeout(d) => (ErrorKind::WebView2Timeout, d@),
        }
    }
}

/// The stable name of a kind of error.
pub open spec fn code_of(kind: ErrorKind) -> Seq<char> {
    match kind {
        ErrorKind::DesktopIntegration => "DesktopIntegration"@,
        ErrorKind::WorkerWNotFound => "WorkerWNotFound"@,
        ErrorKind::ProcessSpawnFailed => "ProcessSpawnFailed"@,
        ErrorKind::IpcError => "IpcError"@,
        ErrorKind::AudioControl => "AudioControl"@,
        ErrorKind::ConfigParse => "ConfigParse"@,
        ErrorKind::ConfigWrite => "ConfigWrite"@,
        ErrorKind::ImageDecode => "ImageDecode"@,
        ErrorKind::FileWatcher => "FileWatcher"@,
        ErrorKind::LockPoisoned => "LockPoisoned"@,
        ErrorKind::TaskJoin => "TaskJoin"@,
        ErrorKind::IpcTimeout => "IpcTimeout"@,
        ErrorKind::IpcDisconnected => "IpcDisconnected"@,
        ErrorKind::IpcNotConnected => "IpcNotConnected"@,
        ErrorKind::Win32 => "Win32"@,
        ErrorKind::Io => "Io"@,
        ErrorKind::InvalidPath => "InvalidPath"@,
        ErrorKind::InvalidConfig => "InvalidConfig"@,
        ErrorKind::InvalidUrl => "InvalidUrl"@,
        ErrorKind::InvalidArgument => "InvalidArgument"@,
        ErrorKind::WebView2Timeout => "WebView2Timeout"@,
    }
}

/// What a message of each kind begins with.
pub open spec fn heading_of(kind: ErrorKind) -> Seq<char> {
    match kind {
        ErrorKind::DesktopIntegration => "桌面集成失败: "@,
        ErrorKind::WorkerWNotFound => "未找到 WorkerW 窗口"@,
        ErrorKind::ProcessSpawnFailed => "子进程启动失败: "@,
        ErrorKind::IpcError => "IPC 通信失败: "@,
        ErrorKind::AudioControl => "音频控制失败: "@,
        ErrorKind::ConfigParse => "配置文件解析失败: "@,
        ErrorKind::ConfigWrite => "配置文件写入失败: "@,
        ErrorKind::ImageDecode => "图片解码失败: "@,
        ErrorKind::FileWatcher => "文件监视器失败: "@,
        ErrorKind::LockPoisoned => "锁中毒: "@,
        ErrorKind::TaskJoin => "任务 join 失败: "@,
        ErrorKind::IpcTimeout => "IPC 超时: "@,
        ErrorKind::IpcDisconnected => "IPC 连接断开: "@,
        ErrorKind::IpcNotConnected => "IPC 未连接: "@,
        ErrorKind::Win32 => "Win32 错误: "@,
        ErrorKind::Io => "IO 错误: "@,
        ErrorKind::InvalidPath => "无效的壁纸文件路径: "@,
        ErrorKind::InvalidConfig => "无效的配置字段: "@,
        ErrorKind::InvalidUrl => "无效的 URL 协议: "@,
        ErrorKind::InvalidArgument => "无效参数: "@,
        ErrorKind::WebView2Timeout => "WebView2 操作超时: "@,
    }
}

impl MirrorStarError {
    /// The stable name of the error's kind, by which callers tell errors apart.
    pub fn code(&self) -> (r: String)
        ensures
            r@ == code_of(self@.0),
    {
        match self {
            MirrorStarError::DesktopIntegration(_) => String::from_str("DesktopIntegration"),
            MirrorStarError::WorkerWNotFound => String::from_str("WorkerWNotFound"),
            MirrorStarError::ProcessSpawnFailed(_) => String::from_str("ProcessSpawnFailed"),
            MirrorStarError::IpcError(_) => String::from_str("IpcError"),
            MirrorStarError::AudioControl(_) => String::from_str("AudioControl"),
            MirrorStarError::ConfigParse(_) => String::from_str("ConfigParse"),
            MirrorStarError::ConfigWrite(_) => String::from_str("ConfigWrite"),
            MirrorStarError::ImageDecode(_) => String::from_str("ImageDecode"),
            MirrorStarError::FileWatcher(_) => String::from_str("FileWatcher"),
            MirrorStarError::LockPoisoned(_) => String::from_str("LockPoisoned"),
            MirrorStarError::TaskJoin(_) => String::from_str("TaskJoin"),
            MirrorStarError::IpcTimeout(_) => String::from_str("IpcTimeout"),
            MirrorStarError::IpcDisconnected(_) => String::from_str("IpcDisconnected"),
            MirrorStarError::IpcNotConnected(_) => String::from_str("IpcNotConnected"),
            MirrorStarError::Win32(_) => String::from_str("Win32"),
            MirrorStarError::Io(_) => String::from_str("Io"),
            MirrorStarError::InvalidPath { .. } => String::from_str("InvalidPath"),
            MirrorStarError::InvalidConfig { .. } => String::from_str("InvalidConfig"),
            MirrorStarError::InvalidUrl { .. } => String::from_str("InvalidUrl"),
            MirrorStarError::InvalidArgument { .. } => String::from_str("InvalidArgument"),
            MirrorStarError::WebView2Timeout(_) => String::from_str("WebView2Timeout"),
        }
    }

    /// The message shown to people: the heading of the error's kind, then the detail.
    pub fn message(&self) -> (r: String)
        ensures
            r@ == heading_of(self@.0) + self@.1,
            match *self {
                MirrorStarError::DesktopIntegration(d) => r@ == "桌面集成失败: "@ + d@,
                MirrorStarError::ProcessSpawnFailed(d) => r@ == "子进程启动失败: "@ + d@,
                MirrorStarError::IpcError(d) => r@ == "IPC 通信失败: "@ + d@,
                MirrorStarError::AudioControl(d) => r@ == "音频控制失败: "@ + d@,
                MirrorStarError::ConfigParse(d) => r@ == "配置文件解析失败: "@ + d@,
                MirrorStarError::ConfigWrite(d) => r@ == "配置文件写入失败: "@ + d@,
                MirrorStarError::ImageDecode(d) => r@ == "图片解码失败: "@ + d@,
                MirrorStarError::FileWatcher(d) => r@ == "文件监视器失败: "@ + d@,
                MirrorStarError::LockPoisoned(d) => r@ == "锁中毒: "@ + d@,
                MirrorStarError::TaskJoin(d) => r@ == "任务 join 失败: "@ + d@,
                MirrorStarError::IpcTimeout(d) => r@ == "IPC 超时: "@ + d@,
                MirrorStarError::IpcDisconnected(d) => r@ == "IPC 连接断开: "@ + d@,
                MirrorStarError::IpcNotConnected(d) => r@ == "IPC 未连接: "@ + d@,
                MirrorStarError::Win32(d) => r@ == "Win32 错误: "@ + d@,
                MirrorStarError::Io(d) => r@ == "IO 错误: "@ + d@,
                MirrorStarError::InvalidPath { reason } => r@ == "无效的壁纸文件路径: "@ + reason@,
                MirrorStarError::InvalidConfig { reason } => r@ == "无效的配置字段: "@ + reason@,
                MirrorStarError::InvalidUrl { scheme } => r@ == "无效的 URL 协议: "@ + scheme@,
                MirrorStarError::InvalidArgument { reason } => r@ == "无效参数: "@ + reason@,
                MirrorStarError::WebView2Timeout(d) => r@ == "WebView2 操作超时: "@ + d@,
                MirrorStarError::WorkerWNotFound => r@ == "未找到 WorkerW 窗口"@,
            },
    {
        match self {
            MirrorStarError::DesktopIntegration(d) => join2("桌面集成失败: ", d.as_str()),
            MirrorStarError::WorkerWNotFound => {
                assert("未找到 WorkerW 窗口"@ + Seq::<char>::empty() =~= "未找到 WorkerW 窗口"@);
                String::from_str("未找到 WorkerW 窗口")
            },
            MirrorStarError::ProcessSpawnFailed(d) => join2("子进程启动失败: ", d.as_str()),
            MirrorStarError::IpcError(d) => join2("IPC 通信失败: ", d.as_str()),
            MirrorStarError::AudioControl(d) => join2("音频控制失败: ", d.as_str()),
            MirrorStarError::ConfigParse(d) => join2("配置文件解析失败: ", d.as_str()),
            MirrorStarError::ConfigWrite(d) => join2("配置文件写入失败: ", d.as_str()),
            MirrorStarError::ImageDecode(d) => join2("图片解码失败: ", d.as_str()),
            MirrorStarError::FileWatcher(d) => join2("文件监视器失败: ", d.as_str()),
            MirrorStarError::LockPoisoned(d) => join2("锁中毒: ", d.as_str()),
            MirrorStarError::TaskJoin(d) => join2("任务 join 失败: ", d.as_str()),
            MirrorStarError::IpcTimeout(d) => join2("IPC 超时: ", d.as_str()),
            MirrorStarError::IpcDisconnected(d) => join2("IPC 连接断开: ", d.as_str()),
            MirrorStarError::IpcNotConnected(d) => join2("IPC 未连接: ", d.as_str()),
            MirrorStarError::Win32(d) => join2("Win32 错误: ", d.as_str()),
            MirrorStarError::Io(d) => join2("IO 错误: ", d.as_str()),
            MirrorStarError::InvalidPath { reason } => join2("无效的壁纸文件路径: ", reason.as_str()),
            MirrorStarError::InvalidConfig { reason } => join2("无效的配置字段: ", reason.as_str()),
            MirrorStarError::InvalidUrl { scheme } => join2("无效的 URL 协议: ", scheme.as_str()),
            MirrorStarError::InvalidArgument { reason } => join2("无效参数: ", reason.as_str()),
            MirrorStarError::WebView2Timeout(d) => join2("WebView2 操作超时: ", d.as_str()),
        }
    }
}

} // verus!
