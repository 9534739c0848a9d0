use shellmars::models::connection::{ConnectionStatus, TabInfo};
use shellmars::models::hardware::{
    CpuInfo, HardwareInfo, MemoryInfo, NetworkInfo, NetworkInterface, StorageInfo, SwapInfo,
};
use shellmars::models::session::{Session, SessionType};
use shellmars::models::settings::{
    AppSettings, FileManagerSettings, SortBy, SortOrder, TerminalSettings, Theme, ViewMode,
};
use shellmars::utils::error::AppError;

#[test]
fn new_tab_is_inactive_and_fresh() {
    let a = TabInfo::new("c1".to_string(), "Title".to_string());
    let b = TabInfo::new("c1".to_string(), "Title".to_string());
    assert_eq!(a.id.len(), 36);
    assert_ne!(a.id, b.id);
    assert_eq!(a.connection_id, "c1");
    assert_eq!(a.title, "Title");
    assert!(!a.active);
    assert_eq!(a.created_at, a.updated_at);
    let d = TabInfo::default();
    assert_eq!(d.connection_id, "");
    assert_eq!(d.title, "");
    assert!(!d.active);
}

#[test]
fn fresh_identifiers_are_hyphenated() {
    let tab = TabInfo::new(String::new(), String::new());
    let dashes: Vec<usize> = tab.id.char_indices().filter(|(_, c)| *c == '-').map(|(i, _)| i).collect();
    assert_eq!(dashes, vec![8, 13, 18, 23]);
    assert!(tab.id.chars().all(|c| c == '-' || c.is_ascii_hexdigit()));
}

#[test]
fn touching_a_tab_changes_only_its_time_of_change() {
    let mut tab = TabInfo::with_identity("t".to_string(), "c".to_string(), "T".to_string(), 5);
    tab.active = true;
    tab.touch(9);
    assert_eq!((tab.created_at, tab.updated_at), (5, 9));
    assert!(tab.active);
    tab.update();
    assert_eq!(tab.created_at, 5);
    assert!(tab.updated_at > 1_577_836_800_000);
}

#[test]
fn new_session_is_disconnected() {
    let session = Session::new("c1".to_string(), "Title".to_string());
    assert_eq!(session.id.len(), 36);
    assert_eq!(session.connection_id, "c1");
    assert_eq!(session.title, "Title");
    assert!(matches!(session.status, ConnectionStatus::Disconnected));
    assert_eq!(session.created_at, session.last_activity);
    assert!(!session.is_active());
    assert!(!session.is_expired());
    let d = Session::default();
    assert_eq!(d.connection_id, "");
    assert!(!d.is_active());
}

#[test]
fn session_is_active_only_when_connected() {
    let mut session = Session::with_identity("s".to_string(), "c".to_string(), "t".to_string(), 0);
    for status in [
        ConnectionStatus::Disconnected,
        ConnectionStatus::Connecting,
        ConnectionStatus::Error("x".to_string()),
    ] {
        session.update_status(status);
        assert!(!session.is_active());
    }
    session.update_status(ConnectionStatus::Connected);
    assert!(session.is_active());
    assert!(session.last_activity > 1_577_836_800_000);
    assert_eq!(session.created_at, 0);
}

#[test]
fn session_expires_after_more_than_thirty_whole_minutes() {
    let mut session = Session::with_identity("s".to_string(), "c".to_string(), "t".to_string(), 0);
    session.touch(1_000);
    let minute = 60_000;
    assert!(!session.is_expired_at(1_000));
    assert!(!session.is_expired_at(1_000 + 30 * minute));
    assert!(!session.is_expired_at(1_000 + 31 * minute - 1));
    assert!(session.is_expired_at(1_000 + 31 * minute));
    assert!(session.is_expired_at(i64::MAX));
    // A clock that went backwards expires nothing.
    assert!(!session.is_expired_at(0));
    assert!(!session.is_expired_at(i64::MIN));
}

#[test]
fn session_expiry_at_the_ends_of_time() {
    let mut session = Session::with_identity("s".to_string(), "c".to_string(), "t".to_string(), 0);
    session.touch(i64::MIN);
    assert!(session.is_expired_at(i64::MAX));
    session.touch(i64::MAX);
    assert!(!session.is_expired_at(i64::MIN));
}

#[test]
fn session_expiry_by_the_clock() {
    let mut session = Session::with_identity("s".to_string(), "c".to_string(), "t".to_string(), 0);
    // Last active at the epoch: long expired by any clock of today.
    assert!(session.is_expired());
    // Last active at the end of time: no clock can stand thirty minutes later.
    session.touch(i64::MAX);
    assert!(!session.is_expired());
    session.update_activity();
    assert!(!session.is_expired());
}

#[test]
fn session_types_are_distinct() {
    assert_ne!(SessionType::Terminal, SessionType::FileManager);
    assert_ne!(SessionType::FileManager, SessionType::Both);
    assert_eq!(SessionType::Both, SessionType::Both);
}

#[test]
fn default_settings() {
    let settings = AppSettings::default();
    assert_eq!(settings.theme, Theme::Auto);
    assert_eq!(settings.language, "zh-CN");
    assert!(settings.auto_save);
    assert_eq!(settings.connection_timeout, 30);
    let terminal: &TerminalSettings = &settings.terminal_settings;
    assert_eq!(terminal.font_family, "FiraCode");
    assert_eq!(terminal.font_size, 14);
    assert_eq!(terminal.background_color, "#1e1e1e");
    assert_eq!(terminal.foreground_color, "#ffffff");
    assert_eq!(terminal.cursor_color, "#ffffff");
    assert_eq!(terminal.scrollback_lines, 1000);
    let files: FileManagerSettings = settings.file_manager_settings;
    assert!(!files.show_hidden_files);
    assert_eq!(files.sort_by, SortBy::Name);
    assert_eq!(files.sort_order, SortOrder::Ascending);
    assert_eq!(files.default_view, ViewMode::List);
    let copy = settings.clone();
    assert_eq!(copy.language, settings.language);
    assert_eq!(copy.terminal_settings.font_size, 14);
}

#[test]
fn application_errors_name_their_kind() {
    assert_eq!(AppError::SshError("x".to_string()).message(), "SSH连接错误: x");
    assert_eq!(AppError::FileError("y".to_string()).message(), "文件操作错误: y");
    assert_eq!(AppError::ConfigError("z".to_string()).message(), "配置错误: z");
    assert_eq!(AppError::NetworkError(String::new()).message(), "网络错误: ");
}

#[test]
fn hardware_of_which_nothing_is_known() {
    let cpu = CpuInfo::default();
    assert_eq!(cpu.model, "Unknown");
    assert_eq!(cpu.cores, 1);
    assert_eq!(MemoryInfo::default(), MemoryInfo { total: 0, used: 0, free: 0, swap: None });
    assert_eq!(SwapInfo::default(), SwapInfo { total: 0, used: 0, free: 0 });
    let storage = StorageInfo::default();
    assert_eq!(storage.device, "Unknown");
    assert_eq!(storage.mount_point, "/");
    assert_eq!(storage.filesystem, "Unknown");
    assert_eq!(storage.storage_type, "hdd");
    assert_eq!((storage.total, storage.used, storage.free), (0, 0, 0));
    let interface = NetworkInterface::default();
    assert_eq!(interface.name, "Unknown");
    assert_eq!(interface.status, "down");
    assert_eq!((interface.rx, interface.tx), (0, 0));
    let network = NetworkInfo::default();
    assert!(network.interfaces.is_empty());
    assert_eq!((network.total_rx, network.total_tx), (0, 0));
    let now = HardwareInfo::default();
    assert_eq!(now.cpu.model, "Unknown");
    assert!(now.timestamp > 1_577_836_800_000);
    let all = HardwareInfo::unknown_at(77);
    assert_eq!(all.timestamp, 77);
    assert_eq!(all.cpu.cores, 1);
    assert!(all.storage.is_empty());
}
