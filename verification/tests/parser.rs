use shellmars::models::hardware::{MemoryInfo, NetworkInfo, NetworkInterface, StorageInfo, SwapInfo};
use shellmars::services::parser::SshDataParser;

#[test]
fn clean_output_strips_terminal_codes_and_prompts() {
    let raw = "\u{1b}[01;31mModel name:\u{1b}[m\u{1b}[K  Intel Xeon\r\n[root@host ~]# ";
    assert_eq!(SshDataParser::clean_command_output(raw), "Model name:  Intel Xeon");
}

#[test]
fn clean_output_drops_command_echoes_and_empty_lines() {
    let raw = "nproc\r\n\r\n  4  \r\nuser@h:~$ ";
    assert_eq!(SshDataParser::clean_command_output(raw), "4");
    let raw = "cat /proc/meminfo\nMemTotal: 1 kB\n\ntop - 12:00\nlscpu\nMemFree: 2 kB\nx ]#\n";
    assert_eq!(SshDataParser::clean_command_output(raw), "MemTotal: 1 kB\nMemFree: 2 kB");
}

#[test]
fn clean_output_turns_bare_carriage_returns_into_line_ends() {
    assert_eq!(SshDataParser::clean_command_output("a\rb\r\nc"), "a\nb\nc");
}

#[test]
fn clean_output_strips_the_window_title_sequence() {
    let raw = "\u{1b}]0;root@iZ2vcc2rr8aqk0prfnjavaZ:~\u{7}8\n";
    assert_eq!(SshDataParser::clean_command_output(raw), "8");
}

#[test]
fn clean_output_of_nothing_is_nothing() {
    assert_eq!(SshDataParser::clean_command_output(""), "");
    assert_eq!(SshDataParser::clean_command_output(" \r\n \n"), "");
}

#[test]
fn cpu_model_follows_the_model_label() {
    let raw = "lscpu | grep 'Model name'\nBIOS Model name:     pc-i440fx\nModel name:          Intel(R) Xeon(R) CPU\n[root@h ~]# ";
    assert_eq!(SshDataParser::extract_cpu_model(raw), "Intel(R) Xeon(R) CPU");
}

#[test]
fn cpu_model_falls_back_to_the_vendor() {
    let raw = "BIOS Model name: x\nVendor ID:           GenuineIntel\n";
    assert_eq!(SshDataParser::extract_cpu_model(raw), "GenuineIntel");
}

#[test]
fn cpu_model_is_unknown_without_labels() {
    assert_eq!(SshDataParser::extract_cpu_model("Unknown CPU\n"), "Unknown CPU");
    assert_eq!(SshDataParser::extract_cpu_model(""), "Unknown CPU");
}

#[test]
fn cpu_cores_is_the_first_number_line() {
    assert_eq!(SshDataParser::extract_cpu_cores("nproc\r\n4\r\n[root@h ~]# "), 4);
    assert_eq!(SshDataParser::extract_cpu_cores("cores:\n+8\n16\n"), 8);
    assert_eq!(SshDataParser::extract_cpu_cores("007\n"), 7);
}

#[test]
fn cpu_cores_defaults_to_one() {
    assert_eq!(SshDataParser::extract_cpu_cores(""), 1);
    assert_eq!(SshDataParser::extract_cpu_cores("no number\n-4\n4 cores\n"), 1);
    assert_eq!(SshDataParser::extract_cpu_cores("4294967296\n"), 1);
    assert_eq!(SshDataParser::extract_cpu_cores("4294967295\n"), 4_294_967_295);
}

#[test]
fn number_is_the_first_numeral_of_the_first_result_line() {
    assert_eq!(SshDataParser::extract_number_from_output("CPU MHz:   2494.140"), "2494.140");
    assert_eq!(SshDataParser::extract_number_from_output("grep x\n  42.5 C\n"), "42.5");
    assert_eq!(SshDataParser::extract_number_from_output("temp -5 now 7"), "-5");
    assert_eq!(SshDataParser::extract_number_from_output("45000\r\n"), "45000");
}

#[test]
fn number_skips_echoes_prompts_and_malformed_numerals() {
    assert_eq!(SshDataParser::extract_number_from_output("top - 12:00 up 3 days"), "");
    assert_eq!(SshDataParser::extract_number_from_output("[root@h ~]# 5"), "");
    assert_eq!(SshDataParser::extract_number_from_output("cpu-freq: 12"), "");
    assert_eq!(SshDataParser::extract_number_from_output("1.2.3\n8"), "8");
    assert_eq!(SshDataParser::extract_number_from_output("..\n"), "");
    assert_eq!(SshDataParser::extract_number_from_output(""), "");
}

#[test]
fn sizes_are_scaled_by_their_unit() {
    assert_eq!(SshDataParser::parse_size_to_mb("1G"), 1024);
    assert_eq!(SshDataParser::parse_size_to_mb("1.5G"), 1536);
    assert_eq!(SshDataParser::parse_size_to_mb("500M"), 500);
    assert_eq!(SshDataParser::parse_size_to_mb("2T"), 2_097_152);
    assert_eq!(SshDataParser::parse_size_to_mb("0.5T"), 524_288);
    assert_eq!(SshDataParser::parse_size_to_mb("1024K"), 1);
    assert_eq!(SshDataParser::parse_size_to_mb("1048576"), 1);
    assert_eq!(SshDataParser::parse_size_to_mb("12Gi"), 12_288);
}

#[test]
fn sizes_are_rounded_down() {
    assert_eq!(SshDataParser::parse_size_to_mb("0.1G"), 102);
    assert_eq!(SshDataParser::parse_size_to_mb("3.7T"), 3_879_731);
    assert_eq!(SshDataParser::parse_size_to_mb("7.9M"), 7);
    assert_eq!(SshDataParser::parse_size_to_mb("512K"), 0);
    assert_eq!(SshDataParser::parse_size_to_mb("2047.9K"), 1);
    assert_eq!(SshDataParser::parse_size_to_mb("1048575"), 0);
    assert_eq!(SshDataParser::parse_size_to_mb("0.0009765625G"), 1);
    assert_eq!(SshDataParser::parse_size_to_mb("0.0009765624G"), 0);
}

#[test]
fn sizes_ignore_the_case_of_the_unit() {
    assert_eq!(SshDataParser::parse_size_to_mb("1.5g"), 1536);
    assert_eq!(SshDataParser::parse_size_to_mb("3m"), 3);
    assert_eq!(SshDataParser::parse_size_to_mb("2048k"), 2);
}

#[test]
fn sizes_without_a_numeral_are_zero() {
    assert_eq!(SshDataParser::parse_size_to_mb(""), 0);
    assert_eq!(SshDataParser::parse_size_to_mb("G"), 0);
    assert_eq!(SshDataParser::parse_size_to_mb("abc"), 0);
    assert_eq!(SshDataParser::parse_size_to_mb("1.2.3G"), 0);
    assert_eq!(SshDataParser::parse_size_to_mb(".G"), 0);
    assert_eq!(SshDataParser::parse_size_to_mb("-1G"), 0);
}

#[test]
fn sizes_accept_a_point_at_either_end() {
    assert_eq!(SshDataParser::parse_size_to_mb(".5G"), 512);
    assert_eq!(SshDataParser::parse_size_to_mb("5.G"), 5120);
}

#[test]
fn sizes_stop_at_the_largest_number() {
    assert_eq!(SshDataParser::parse_size_to_mb("99999999999999999999999T"), u64::MAX);
    assert_eq!(SshDataParser::parse_size_to_mb("18446744073709551615M"), u64::MAX);
    assert_eq!(SshDataParser::parse_size_to_mb("18446744073709551616M"), u64::MAX);
    assert_eq!(SshDataParser::parse_size_to_mb("18446744073709551614M"), u64::MAX - 1);
}

#[test]
fn the_first_unit_letter_in_order_of_preference_decides() {
    // G is looked for before T, T before K, K before M.
    assert_eq!(SshDataParser::parse_size_to_mb("1TG"), 1024);
    assert_eq!(SshDataParser::parse_size_to_mb("1KT"), 1_048_576);
    assert_eq!(SshDataParser::parse_size_to_mb("2048MK"), 2);
}

#[test]
fn virtual_devices_are_virtual_wherever_they_are_mounted() {
    assert!(SshDataParser::is_virtual_filesystem("tmpfs", "/run"));
    assert!(SshDataParser::is_virtual_filesystem("devtmpfs", "/home"));
    assert!(SshDataParser::is_virtual_filesystem("overlay", "/var/lib/docker/overlay2/x"));
    assert!(SshDataParser::is_virtual_filesystem("squashfs", "/"));
    assert!(SshDataParser::is_virtual_filesystem("sysfs", "/sys"));
    assert!(SshDataParser::is_virtual_filesystem("proc", "/proc"));
}

#[test]
fn real_devices_outside_the_virtual_trees_are_real() {
    assert!(!SshDataParser::is_virtual_filesystem("/dev/sda1", "/"));
    assert!(!SshDataParser::is_virtual_filesystem("/dev/sdb1", "/home"));
    assert!(!SshDataParser::is_virtual_filesystem("server:/export", "/mnt/nfs"));
}

#[test]
fn mount_points_in_virtual_trees_decide_for_other_devices() {
    assert!(SshDataParser::is_virtual_filesystem("udev", "/dev"));
    assert!(SshDataParser::is_virtual_filesystem("none", "/proc/sys/fs"));
    assert!(SshDataParser::is_virtual_filesystem("/dev/loop0", "/snap/core/1"));
    assert!(!SshDataParser::is_virtual_filesystem("/dev/sda2", "/dev/shm"));
    assert!(!SshDataParser::is_virtual_filesystem("server:/export", "/run/user/1000"));
}

#[test]
fn meminfo_prefers_available_over_free() {
    let raw = "MemTotal:       16384000 kB\nMemFree:         1024000 kB\nMemAvailable:    8192000 kB\n";
    let mut info = MemoryInfo { total: 1, used: 2, free: 3, swap: Some(SwapInfo { total: 9, used: 4, free: 5 }) };
    assert_eq!(SshDataParser::parse_meminfo(raw, &mut info), Ok(()));
    assert_eq!(info.total, 16_000);
    assert_eq!(info.free, 8_000);
    assert_eq!(info.used, 8_000);
    assert_eq!(info.swap, Some(SwapInfo { total: 9, used: 4, free: 5 }));
}

#[test]
fn meminfo_falls_back_to_free() {
    let raw = "cat /proc/meminfo\r\nMemTotal:       16384000 kB\r\nMemFree:         1024000 kB\r\nBuffers: 5 kB\r\n";
    let mut info = MemoryInfo::default();
    assert_eq!(SshDataParser::parse_meminfo(raw, &mut info), Ok(()));
    assert_eq!((info.total, info.free, info.used), (16_000, 1_000, 15_000));
}

#[test]
fn meminfo_takes_the_last_value_and_skips_what_is_no_number() {
    let raw = "MemTotal: 2048 kB\nMemTotal: x kB\nMemTotal: 4096 kB\nMemFree:\nMemFree: -1 kB\n";
    let mut info = MemoryInfo::default();
    assert_eq!(SshDataParser::parse_meminfo(raw, &mut info), Ok(()));
    assert_eq!((info.total, info.free, info.used), (4, 0, 4));
}

#[test]
fn meminfo_with_more_free_than_total_has_nothing_used() {
    let raw = "MemTotal: 1024 kB\nMemAvailable: 4096 kB\n";
    let mut info = MemoryInfo::default();
    assert_eq!(SshDataParser::parse_meminfo(raw, &mut info), Ok(()));
    assert_eq!((info.total, info.free, info.used), (1, 4, 0));
}

#[test]
fn meminfo_of_nothing_is_zero() {
    let mut info = MemoryInfo { total: 5, used: 5, free: 5, swap: None };
    assert_eq!(SshDataParser::parse_meminfo("", &mut info), Ok(()));
    assert_eq!(info, MemoryInfo { total: 0, used: 0, free: 0, swap: None });
}

#[test]
fn df_output_lists_real_file_systems_after_two_lines() {
    let raw = "df -h\nFilesystem      Size  Used Avail Use% Mounted on\n/dev/sda1        50G   20G   28G  42% /\ntmpfs           7.8G     0  7.8G   0% /dev/shm\n/dev/sdb1       1.5T  500G  1.0T  34% /data\nshort line\n";
    let mut list: Vec<StorageInfo> = Vec::new();
    assert_eq!(SshDataParser::parse_df_output(raw, &mut list), Ok(()));
    assert_eq!(list.len(), 2);
    assert_eq!(list[0].device, "/dev/sda1");
    assert_eq!(list[0].mount_point, "/");
    assert_eq!(list[0].filesystem, "Unknown");
    assert_eq!(list[0].storage_type, "hdd");
    assert_eq!((list[0].total, list[0].used, list[0].free), (51_200, 20_480, 28_672));
    assert_eq!(list[1].device, "/dev/sdb1");
    assert_eq!(list[1].mount_point, "/data");
    assert_eq!((list[1].total, list[1].used, list[1].free), (1_572_864, 512_000, 1_048_576));
}

#[test]
fn df_output_appends_to_what_is_there() {
    let mut list = vec![StorageInfo::default()];
    let raw = "a\nb\n/dev/sda1 1G 1M 2K 1% /boot\n";
    assert_eq!(SshDataParser::parse_df_output(raw, &mut list), Ok(()));
    assert_eq!(list.len(), 2);
    assert_eq!(list[0].device, "Unknown");
    assert_eq!(list[1].mount_point, "/boot");
    assert_eq!((list[1].total, list[1].used, list[1].free), (1024, 1, 0));
}

#[test]
fn df_output_with_at_most_two_lines_lists_nothing() {
    let mut list: Vec<StorageInfo> = Vec::new();
    assert_eq!(SshDataParser::parse_df_output("", &mut list), Ok(()));
    assert_eq!(SshDataParser::parse_df_output("/dev/sda1 1G 1G 1G 1% /", &mut list), Ok(()));
    assert_eq!(
        SshDataParser::parse_df_output("/dev/sda1 1G 1G 1G 1% /\n/dev/sda2 1G 1G 1G 1% /b\n", &mut list),
        Ok(())
    );
    assert!(list.is_empty());
}

#[test]
fn netdev_output_lists_interfaces_but_loopback() {
    let raw = "Inter-|   Receive                                                |  Transmit\n face |bytes    packets errs drop fifo frame compressed multicast|bytes    packets errs drop fifo colls carrier compressed\n    lo: 100 1 0 0 0 0 0 0 100 1 0 0 0 0 0 0\n  eth0: 1000 10 0 0 0 0 0 0 2000 20 0 0 0 0 0 0\n wlan0: 5 1 0 0\nno colon here\n  eth1:x 1 2 3 4 5 6 7 y 9 10 11 12 13 14 15\n";
    let mut info = NetworkInfo { interfaces: Vec::new(), total_rx: 7, total_tx: 8 };
    assert_eq!(SshDataParser::parse_netdev_output(raw, &mut info), Ok(()));
    assert_eq!(info.interfaces.len(), 2);
    assert_eq!(info.interfaces[0].name, "eth0");
    assert_eq!(info.interfaces[0].status, "down");
    assert_eq!((info.interfaces[0].rx, info.interfaces[0].tx), (1000, 2000));
    assert_eq!(info.interfaces[1].name, "eth1");
    assert_eq!((info.interfaces[1].rx, info.interfaces[1].tx), (0, 0));
    assert_eq!((info.total_rx, info.total_tx), (7, 8));
}

fn interface(name: &str, rx: u64, tx: u64) -> NetworkInterface {
    NetworkInterface { name: name.to_string(), status: "down".to_string(), rx, tx }
}

#[test]
fn network_status_follows_the_address_listing() {
    let mut info = NetworkInfo {
        interfaces: vec![interface("eth0", 1, 2), interface("wlan0", 3, 4)],
        total_rx: 0,
        total_tx: 0,
    };
    info.interfaces[1].status = "unknown".to_string();
    let raw = "2: eth0: <BROADCAST,MULTICAST,UP,LOWER_UP> mtu 1500\n";
    SshDataParser::enrich_network_status(raw, &mut info);
    assert_eq!(info.interfaces[0].status, "up");
    assert_eq!(info.interfaces[0].name, "eth0");
    assert_eq!((info.interfaces[0].rx, info.interfaces[0].tx), (1, 2));
    assert_eq!(info.interfaces[1].status, "unknown");
}

#[test]
fn network_status_is_down_without_any_up_flag() {
    let mut info = NetworkInfo { interfaces: vec![interface("eth0", 1, 2)], total_rx: 0, total_tx: 0 };
    info.interfaces[0].status = "up".to_string();
    SshDataParser::enrich_network_status("2: eth0: <BROADCAST> state DOWN\n", &mut info);
    assert_eq!(info.interfaces[0].status, "down");
}

#[test]
fn network_totals_are_sums() {
    let mut info = NetworkInfo {
        interfaces: vec![interface("a", 10, 1), interface("b", 20, 2), interface("c", 30, 3)],
        total_rx: 99,
        total_tx: 99,
    };
    SshDataParser::calculate_network_totals(&mut info);
    assert_eq!((info.total_rx, info.total_tx), (60, 6));
    assert_eq!(info.interfaces.len(), 3);
}

#[test]
fn network_totals_stop_at_the_largest_number() {
    let mut info = NetworkInfo {
        interfaces: vec![interface("a", u64::MAX, 1), interface("b", 5, u64::MAX - 1)],
        total_rx: 0,
        total_tx: 0,
    };
    SshDataParser::calculate_network_totals(&mut info);
    assert_eq!((info.total_rx, info.total_tx), (u64::MAX, u64::MAX));
    let mut none = NetworkInfo::default();
    SshDataParser::calculate_network_totals(&mut none);
    assert_eq!((none.total_rx, none.total_tx), (0, 0));
}
