use shellmars::models::connection::{CommandOptions, ConnectionConfig, ConnectionStatus};
use shellmars::models::hardware::{MemoryInfo, NetworkInfo, NetworkInterface, StorageInfo, SwapInfo};
use shellmars::services::command::{ReadAction, StopReason};
use shellmars::services::connection::{ConnectEvent, Link, SshConnectionManager};
use shellmars::services::error::ConnectionError;
use shellmars::services::hardware::{HardwareQuery, SshHardwareService};
use shellmars::services::parser::SshDataParser;
use shellmars::services::service::SshService;

#[test]
fn queries_have_their_commands() {
    assert_eq!(
        HardwareQuery::CpuModel.command(),
        "lscpu | grep 'Model name' || lscpu | grep 'Vendor ID' || echo 'Unknown CPU'"
    );
    assert_eq!(HardwareQuery::CpuCores.command(), "nproc");
    assert_eq!(HardwareQuery::CpuUsage.command(), "top -bn1 | grep 'Cpu(s)'");
    assert_eq!(HardwareQuery::CpuFrequency.command(), "lscpu | grep 'CPU MHz'");
    assert_eq!(
        HardwareQuery::CpuTemperature.command(),
        "cat /sys/class/thermal/thermal_zone*/temp 2>/dev/null | head -1"
    );
    assert_eq!(HardwareQuery::Memory.command(), "cat /proc/meminfo");
    assert_eq!(HardwareQuery::Swap.command(), "cat /proc/meminfo | grep -i swap");
    assert_eq!(HardwareQuery::Storage.command(), "df -h");
    assert_eq!(HardwareQuery::StorageKind.command(), "lsblk -d -o NAME,TYPE,ROTA");
    assert_eq!(HardwareQuery::Network.command(), "cat /proc/net/dev");
    assert_eq!(HardwareQuery::NetworkStatus.command(), "ip addr show");
}

#[test]
fn idle_share_is_the_first_numeral_of_the_idle_part() {
    let raw = "top -bn1 | grep 'Cpu(s)'\n%Cpu(s):  2.3 us,  1.0 sy,  0.0 ni, 96.5 id,  0.1 wa\n";
    assert_eq!(SshDataParser::cpu_idle_text(raw).as_deref(), Some("96.5"));
    let raw = "Cpu(s): 1 us, idle inf 5\n";
    assert_eq!(SshDataParser::cpu_idle_text(raw).as_deref(), Some("inf"));
    let raw = "Cpu(s): 1 us, x 1e3 id, 7 id\n";
    assert_eq!(SshDataParser::cpu_idle_text(raw).as_deref(), Some("1e3"));
}

#[test]
fn idle_share_without_a_numeral_is_zero() {
    let raw = "Cpu(s):  5.0%us,  1.0%sy, 94.0%id\n";
    assert_eq!(SshDataParser::cpu_idle_text(raw).as_deref(), Some("0"));
}

#[test]
fn idle_share_needs_a_line_of_shares_and_an_idle_part() {
    assert_eq!(SshDataParser::cpu_idle_text(""), None);
    assert_eq!(SshDataParser::cpu_idle_text("load average: 0.1, 96.5 id\n"), None);
    assert_eq!(SshDataParser::cpu_idle_text("Cpu(s): 2.3 us, 1.0 sy\n"), None);
}

#[test]
fn clock_is_the_number_of_the_clock_line() {
    let raw = "lscpu | grep 'CPU MHz'\nCPU MHz:              2494.140\nCPU MHz: 1\n";
    assert_eq!(SshDataParser::cpu_frequency_text(raw).as_deref(), Some("2494.140"));
    assert_eq!(SshDataParser::cpu_frequency_text("CPU MHz: n/a\n"), None);
    assert_eq!(SshDataParser::cpu_frequency_text("CPU max MHz: 3000\n"), None);
    assert_eq!(SshDataParser::cpu_frequency_text(""), None);
}

#[test]
fn temperature_is_a_reading_of_more_than_three_characters() {
    let raw = "cat /sys/class/thermal/thermal_zone0/temp\n45000\n[root@h ~]# ";
    assert_eq!(SshDataParser::cpu_temperature_text(raw).as_deref(), Some("45000"));
    assert_eq!(SshDataParser::cpu_temperature_text("450\n"), None);
    assert_eq!(SshDataParser::cpu_temperature_text("450\n61000\n").as_deref(), Some("61000"));
    assert_eq!(SshDataParser::cpu_temperature_text("-1234\n").as_deref(), Some("-1234"));
    assert_eq!(SshDataParser::cpu_temperature_text("+1234\n").as_deref(), Some("1234"));
    assert_eq!(SshDataParser::cpu_temperature_text("4.5e4\n").as_deref(), Some("4.5"));
    assert_eq!(SshDataParser::cpu_temperature_text("45000 mC\n"), None);
    assert_eq!(SshDataParser::cpu_temperature_text("infinity\n"), None);
    assert_eq!(SshDataParser::cpu_temperature_text("1e\n12e+\n.e12\n"), None);
    assert_eq!(SshDataParser::cpu_temperature_text("0.5E-3\n").as_deref(), Some("0.5"));
}

#[test]
fn processor_from_two_outputs() {
    let cpu = SshHardwareService::get_cpu_info("Model name:   Fast One\n", "nproc\n16\n");
    assert_eq!(cpu.model, "Fast One");
    assert_eq!(cpu.cores, 16);
    let cpu = SshHardwareService::get_cpu_info("", "");
    assert_eq!(cpu.model, "Unknown CPU");
    assert_eq!(cpu.cores, 1);
}

#[test]
fn swap_in_mebibytes() {
    let raw = "cat /proc/meminfo | grep -i swap\r\nSwapCached:            0 kB\r\nSwapTotal:       2097148 kB\r\nSwapFree:        1048576 kB\r\n[root@h ~]# ";
    assert_eq!(
        SshHardwareService::get_swap_info(raw),
        SwapInfo { total: 2047, used: 1023, free: 1024 }
    );
}

#[test]
fn no_swap_is_all_zero() {
    let raw = "SwapTotal: 0 kB\nSwapFree: 4096 kB\n";
    assert_eq!(SshHardwareService::get_swap_info(raw), SwapInfo { total: 0, used: 0, free: 0 });
    assert_eq!(SshHardwareService::get_swap_info(""), SwapInfo { total: 0, used: 0, free: 0 });
}

#[test]
fn swap_with_more_free_than_total_has_nothing_used() {
    let raw = "SwapTotal: 1024 kB\nSwapFree: 4096 kB\n";
    assert_eq!(SshHardwareService::get_swap_info(raw), SwapInfo { total: 1, used: 0, free: 4 });
}

#[test]
fn memory_with_and_without_swap() {
    let meminfo = "MemTotal: 4096 kB\nMemFree: 1024 kB\n";
    assert_eq!(
        SshHardwareService::get_memory_info(meminfo, None),
        MemoryInfo { total: 4, used: 3, free: 1, swap: None }
    );
    assert_eq!(
        SshHardwareService::get_memory_info(meminfo, Some("SwapTotal: 2048 kB\nSwapFree: 1024 kB\n")),
        MemoryInfo {
            total: 4,
            used: 3,
            free: 1,
            swap: Some(SwapInfo { total: 2, used: 1, free: 1 })
        }
    );
}

fn storage(device: &str) -> StorageInfo {
    let mut info = StorageInfo::default();
    info.device = device.to_string();
    info.storage_type = "?".to_string();
    info
}

#[test]
fn medium_follows_the_first_line_that_names_the_disk() {
    let lsblk = "NAME ROTA\nsdb ROTA=1\nsda ROTA=0\nsda ROTA=1\nnvme ROTA=0\nsdc disk\nsdc ROTA=0\n";
    let mut list = vec![
        storage("/dev/sda1"),
        storage("/dev/sdb"),
        storage("/dev/nvme0n1p1"),
        storage("/dev/sdc2"),
        storage("/dev/sdz1"),
        storage("tmpfs"),
        storage("server:/dev/sda"),
    ];
    SshHardwareService::enrich_storage_type_info(lsblk, &mut list);
    let kinds: Vec<&str> = list.iter().map(|s| s.storage_type.as_str()).collect();
    assert_eq!(kinds, vec!["ssd", "hdd", "ssd", "?", "?", "?", "?"]);
    assert_eq!(list[0].device, "/dev/sda1");
}

#[test]
fn a_disk_without_letters_is_named_by_every_line() {
    let mut list = vec![storage("/dev/123")];
    SshHardwareService::enrich_storage_type_info("sda ROTA=0\n", &mut list);
    assert_eq!(list[0].storage_type, "ssd");
    let mut list = vec![storage("/dev/123")];
    SshHardwareService::enrich_storage_type_info("NAME\nsda ROTA=0\n", &mut list);
    assert_eq!(list[0].storage_type, "?");
}

#[test]
fn storage_from_two_outputs() {
    let df = "df -h\nFilesystem Size Used Avail Use% Mounted on\n/dev/sda1 50G 20G 28G 42% /\n";
    let list = SshHardwareService::get_storage_info(df, None);
    assert_eq!(list.len(), 1);
    assert_eq!(list[0].storage_type, "hdd");
    let list = SshHardwareService::get_storage_info(df, Some("sda ROTA=0\n"));
    assert_eq!(list[0].storage_type, "ssd");
    assert_eq!(list[0].total, 51_200);
}

#[test]
fn network_from_two_outputs() {
    let netdev = "h1\nh2\n  eth0: 1000 0 0 0 0 0 0 0 2000 0 0 0 0 0 0 0\n  eth1: 5 0 0 0 0 0 0 0 7 0 0 0 0 0 0 0\n";
    let info = SshHardwareService::get_network_info(netdev, None);
    assert_eq!(info.interfaces.len(), 2);
    assert_eq!((info.total_rx, info.total_tx), (1005, 2007));
    assert_eq!(info.interfaces[0].status, "down");
    let info = SshHardwareService::get_network_info(netdev, Some("2: eth1: <UP>\n"));
    assert_eq!(info.interfaces[0].status, "down");
    assert_eq!(info.interfaces[1].status, "up");
    assert_eq!((info.total_rx, info.total_tx), (1005, 2007));
}

fn reading(rx: u64, tx: u64, interfaces: Vec<(&str, u64, u64)>) -> NetworkInfo {
    NetworkInfo {
        interfaces: interfaces
            .into_iter()
            .map(|(name, rx, tx)| NetworkInterface {
                name: name.to_string(),
                status: "up".to_string(),
                rx,
                tx,
            })
            .collect(),
        total_rx: rx,
        total_tx: tx,
    }
}

#[test]
fn first_sample_has_no_speed() {
    let mut service = SshHardwareService::new();
    let first = reading(100, 200, vec![("eth0", 100, 200)]);
    assert!(service.calculate_network_speed("a", &first, 1_000).is_none());
}

#[test]
fn later_sample_gives_the_movement_of_the_counters() {
    let mut service = SshHardwareService::new();
    let first = reading(100, 200, vec![("eth0", 60, 150), ("eth1", 40, 50)]);
    assert!(service.calculate_network_speed("a", &first, 1_000).is_none());
    let second = reading(1_100, 150, vec![("eth1", 45, 10), ("eth2", 9, 9), ("eth0", 1_060, 150)]);
    let speed = service.calculate_network_speed("a", &second, 3_500).expect("second sample");
    assert_eq!(speed.elapsed_ms, 2_500);
    assert_eq!(speed.rx_diff, 1_000);
    // A counter that went back counts as not moved.
    assert_eq!(speed.tx_diff, 0);
    assert_eq!(speed.interfaces, vec![Some((5, 0)), None, Some((1_000, 0))]);
    // The second reading is the base of the third.
    let third = reading(1_200, 250, vec![("eth2", 19, 9)]);
    let speed = service.calculate_network_speed("a", &third, 3_501).expect("third sample");
    assert_eq!((speed.elapsed_ms, speed.rx_diff, speed.tx_diff), (1, 100, 100));
    assert_eq!(speed.interfaces, vec![Some((10, 0))]);
}

#[test]
fn samples_too_close_or_too_far_apart_give_no_speed() {
    let mut service = SshHardwareService::new();
    let r = reading(100, 200, Vec::new());
    assert!(service.calculate_network_speed("a", &r, 1_000).is_none());
    assert!(service.calculate_network_speed("a", &r, 1_000).is_none());
    assert!(service.calculate_network_speed("a", &r, 999).is_none());
    assert!(service.calculate_network_speed("a", &r, 999 + 60_000).is_none());
    assert!(service.calculate_network_speed("a", &r, 999 + 60_000 + 59_999).is_some());
    assert!(service.calculate_network_speed("a", &r, i64::MAX).is_none());
    assert!(service.calculate_network_speed("a", &r, i64::MIN).is_none());
    assert!(service.calculate_network_speed("a", &r, i64::MIN + 1).is_some());
}

#[test]
fn samples_are_kept_by_connection() {
    let mut service = SshHardwareService::new();
    let r = reading(100, 200, Vec::new());
    assert!(service.calculate_network_speed("a", &r, 1_000).is_none());
    assert!(service.calculate_network_speed("b", &r, 1_500).is_none());
    let speed = service.calculate_network_speed("a", &reading(400, 200, Vec::new()), 2_000);
    assert_eq!(speed.expect("second of a").rx_diff, 300);
    let speed = service.calculate_network_speed("b", &reading(150, 200, Vec::new()), 2_000);
    assert_eq!(speed.expect("second of b").elapsed_ms, 500);
}

#[test]
fn of_two_cached_interfaces_with_one_name_the_last_counts() {
    let mut service = SshHardwareService::new();
    let first = reading(0, 0, vec![("eth0", 10, 10), ("eth0", 30, 30)]);
    assert!(service.calculate_network_speed("a", &first, 0).is_none());
    let second = reading(0, 0, vec![("eth0", 100, 100)]);
    let speed = service.calculate_network_speed("a", &second, 10).expect("second");
    assert_eq!(speed.interfaces, vec![Some((70, 70))]);
}

fn config(id: &str) -> ConnectionConfig {
    let mut config = ConnectionConfig::with_identity(
        id.to_string(),
        "n".to_string(),
        "h".to_string(),
        "u".to_string(),
        0,
    );
    config.password = Some("p".to_string());
    config.prompt_config.patterns = vec!["# ".to_string()];
    config.prompt_config.max_wait_time = 77;
    config
}

fn connected(manager: &mut SshConnectionManager, id: &str) {
    let link = Link { session: 1, sftp: None, shell_channel: Some(9) };
    manager.connect(&config(id), ConnectEvent::Established { link, now: 0 });
}

#[test]
fn telemetry_needs_a_connected_session() {
    let mut manager = SshConnectionManager::new();
    assert!(matches!(
        SshHardwareService::check_connection(&manager, "a"),
        Err(ConnectionError::NotFound)
    ));
    connected(&mut manager, "a");
    assert!(SshHardwareService::check_connection(&manager, "a").is_ok());
    assert!(manager.set_connection_status("a", ConnectionStatus::Connecting).is_ok());
    assert!(matches!(
        SshHardwareService::check_connection(&manager, "a"),
        Err(ConnectionError::NotConnected)
    ));
}

#[test]
fn service_begins_a_command_on_the_session_of_the_connection() {
    let mut service = SshService::new(vec![1u8; 32]);
    assert!(matches!(service.execute_command("a", "ls"), Err(ConnectionError::NotFound)));
    connected(&mut service.connection_manager, "a");
    let (channel, mut run) = service.execute_command("a", "ls").ok().expect("connected");
    assert_eq!(channel, 9);
    assert_eq!(run.line, "ls\n");
    // The settings are those of the session's configuration.
    assert_eq!(run.reader.poll(77), ReadAction::Read);
    assert_eq!(run.reader.poll(78), ReadAction::Finish(StopReason::WallClock));
    service.finish_command("a");
    let options = CommandOptions {
        custom_prompts: None,
        timeout: Some(5),
        wait_for_prompt: false,
        debug_output: false,
    };
    let (_, mut run) =
        service.execute_command_with_options("a", "ls\n\n", options).ok().expect("connected");
    assert_eq!(run.line, "ls\n");
    assert_eq!(run.reader.on_data("x", 1), ReadAction::Finish(StopReason::SingleRead));
}

#[test]
fn service_refuses_a_command_on_an_unusable_session() {
    let mut service = SshService::new(vec![1u8; 32]);
    connected(&mut service.connection_manager, "a");
    let broken = ConnectionStatus::Error("x".to_string());
    assert!(service.connection_manager.set_connection_status("a", broken).is_ok());
    assert!(matches!(service.execute_command("a", "ls"), Err(ConnectionError::NotConnected)));
    let bare = Link { session: 2, sftp: None, shell_channel: None };
    service.connection_manager.connect(&config("b"), ConnectEvent::Established { link: bare, now: 0 });
    assert!(matches!(
        service.execute_command("b", "ls"),
        Err(ConnectionError::ChannelUnavailable)
    ));
}

#[test]
fn commands_on_one_connection_do_not_overlap() {
    let mut service = SshService::new(vec![1u8; 32]);
    connected(&mut service.connection_manager, "a");
    connected(&mut service.connection_manager, "b");
    assert!(service.execute_command("a", "first").is_ok());
    // A second command on the same connection is refused while the first is under way.
    let second = service.execute_command("a", "second");
    assert!(matches!(second, Err(ConnectionError::ChannelBusy)));
    assert_eq!(ConnectionError::ChannelBusy.message(), "Shell通道正在执行命令");
    // Another connection is not concerned.
    assert!(service.execute_command("b", "other").is_ok());
    service.finish_command("a");
    assert!(service.execute_command("a", "second").is_ok());
    assert!(matches!(service.execute_command("b", "again"), Err(ConnectionError::ChannelBusy)));
}

#[test]
fn channel_is_checked_out_and_in_by_the_registry() {
    let mut manager = SshConnectionManager::new();
    assert!(matches!(manager.begin_command("a"), Err(ConnectionError::NotFound)));
    manager.end_command("a");
    connected(&mut manager, "a");
    assert_eq!(manager.begin_command("a").ok(), Some(9));
    assert!(matches!(manager.begin_command("a"), Err(ConnectionError::ChannelBusy)));
    // Looking the channel up does not take it.
    assert_eq!(manager.command_channel("a").ok(), Some(9));
    manager.end_command("a");
    manager.end_command("a");
    assert_eq!(manager.begin_command("a").ok(), Some(9));
    // A session that is replaced starts with a free channel.
    let link = Link { session: 5, sftp: None, shell_channel: Some(6) };
    manager.connect(&config("a"), ConnectEvent::Established { link, now: 1 });
    assert_eq!(manager.begin_command("a").ok(), Some(6));
    // A broken session hands out nothing, in use or not.
    assert!(manager.set_connection_status("a", ConnectionStatus::Disconnected).is_ok());
    assert!(matches!(manager.begin_command("a"), Err(ConnectionError::NotConnected)));
}
