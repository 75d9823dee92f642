use helios::cache::CacheEntry;
use helios::cache::DISPLAY_HEARTBEAT;
use helios::cache::MAXIMUM_HEARTBEAT;
use helios::disk::DiskData;
use helios::disk::disk_lines;
use helios::network::IpAddress;
use helios::network::Ipv4Data;
use helios::network::Ipv6Data;
use helios::network::count_global;
use helios::network::is_global_ipv4;
use helios::network::network_line;
use helios::snapshot::CpuReading;
use helios::snapshot::HostReadings;
use helios::snapshot::LineInfo;
use helios::snapshot::SystemInfo;
use helios::snapshot::get_system_info_by_lines_unlocked;

fn disk(name: &str, fstype: &str, mount: &str, total: u64, available: u64) -> DiskData {
    DiskData {
        name: name.to_string(),
        fstype: fstype.to_string(),
        mount_point: mount.to_string(),
        total_space: total,
        available_space: available,
    }
}

fn v4(a: u8, b: u8, c: u8, d: u8) -> IpAddress {
    IpAddress::V4(Ipv4Data { a, b, c, d })
}

fn v6(s0: u16, s7: u16) -> IpAddress {
    IpAddress::V6(Ipv6Data { s0, s1: 0, s2: 0, s3: 0, s4: 0, s5: 0, s6: 0, s7 })
}

fn readings() -> HostReadings {
    HostReadings {
        os_display: "Linux 6.1".to_string(),
        pc_host: "ThinkPad 20XW".to_string(),
        kernel: "6.1.0-18-amd64".to_string(),
        hostname: "box.local".to_string(),
        uptime_seconds: 3661,
        cpu: Some(CpuReading {
            brand: "Ryzen 9".to_string(),
            count: 16,
            frequency_mhz: 4200,
        }),
        used_memory: 4 * 1024 * 1024 * 1024,
        total_memory: 16 * 1024 * 1024 * 1024,
        used_swap: 0,
        total_swap: 0,
        disks: vec![disk("/dev/sda1", "ext4", "/", 1024 * 1024 * 1024, 512 * 1024 * 1024)],
        addresses: vec![v4(8, 8, 8, 8), v6(0x2001, 1)],
    }
}

#[test]
fn disk_dedup_same_device() {
    let disks = vec![
        disk("/dev/sda1", "ext4", "/", 2048, 1024),
        disk("/dev/sda1", "ext4", "/mnt/other", 4096, 1024),
    ];
    let lines = disk_lines(&disks);
    assert_eq!(lines.len(), 1);
    assert_eq!(lines[0].1, "/");
    assert_eq!(lines[0].0, "1.0 KiB / 2.0 KiB (50.0%) - ext4");
}

#[test]
fn disk_virtual_fs_skipped() {
    let disks = vec![
        disk("tmpfs", "tmpfs", "/tmp", 2048, 1024),
        disk("dev", "devtmpfs", "/dev", 2048, 1024),
        disk("overlay", "overlay", "/var/lib", 2048, 1024),
        disk("squash", "squashfs", "/snap", 2048, 1024),
        disk("/dev/sda1", "ext4", "/", 2048, 1024),
    ];
    let lines = disk_lines(&disks);
    assert_eq!(lines.len(), 1);
    assert_eq!(lines[0].1, "/");
}

#[test]
fn disk_empty_fstype_reserves_name() {
    // The first occurrence claims the device name even though it is hidden,
    // so the second entry with the same name is dropped too.
    let disks = vec![
        disk("/dev/sda1", "", "/a", 2048, 1024),
        disk("/dev/sda1", "ext4", "/b", 2048, 1024),
        disk("/dev/sdb1", "ext4", "/c", 2048, 1024),
    ];
    let lines = disk_lines(&disks);
    assert_eq!(lines.len(), 1);
    assert_eq!(lines[0].1, "/c");
}

#[test]
fn network_private_excluded() {
    let addrs = vec![v4(192, 168, 1, 5), v4(8, 8, 8, 8)];
    let (n4, n6) = count_global(&addrs);
    assert_eq!(n4, 1);
    assert_eq!(n6, 0);
    assert!(!is_global_ipv4(Ipv4Data { a: 192, b: 168, c: 1, d: 5 }));
    assert!(!is_global_ipv4(Ipv4Data { a: 10, b: 0, c: 0, d: 1 }));
    assert!(!is_global_ipv4(Ipv4Data { a: 172, b: 16, c: 0, d: 1 }));
    assert!(is_global_ipv4(Ipv4Data { a: 172, b: 32, c: 0, d: 1 }));
    assert!(is_global_ipv4(Ipv4Data { a: 8, b: 8, c: 8, d: 8 }));
}

#[test]
fn network_excluded_ranges() {
    let addrs = vec![
        v4(127, 0, 0, 1),
        v4(169, 254, 0, 1),
        v4(224, 0, 0, 1),
        v4(255, 255, 255, 255),
        v4(0, 0, 0, 0),
        v4(192, 0, 2, 7),
        v6(0, 1),
        v6(0xfe80, 2),
        v6(0xfc00, 3),
        v6(0xff02, 4),
        v6(0, 0),
    ];
    assert_eq!(network_line(&addrs), None);
}

#[test]
fn network_line_text() {
    let both = vec![v4(8, 8, 8, 8), v4(1, 1, 1, 1), v6(0x2001, 1)];
    assert_eq!(network_line(&both), Some("2x IPv4, 1x IPv6".to_string()));
    let only4 = vec![v4(8, 8, 8, 8)];
    assert_eq!(network_line(&only4), Some("1x IPv4".to_string()));
    let only6 = vec![v6(0x2001, 1)];
    assert_eq!(network_line(&only6), Some("1x IPv6".to_string()));
}

#[test]
fn snapshot_line_order_and_values() {
    let info = get_system_info_by_lines_unlocked(&readings());
    assert_eq!(info.host, "box.local");
    let keys: Vec<&str> = info.lines.iter().map(|l| l.key.as_str()).collect();
    assert_eq!(keys, vec!["OS", "Host", "Kernel", "Uptime", "CPU", "Memory", "Swap", "Disk",
        "Network"]);
    let values: Vec<&str> = info.lines.iter().map(|l| l.value.as_str()).collect();
    assert_eq!(values[0], "Linux 6.1");
    assert_eq!(values[1], "ThinkPad 20XW");
    assert_eq!(values[2], "6.1.0-18-amd64");
    assert_eq!(values[3], "1 hour, 1 minute");
    assert_eq!(values[4], "Ryzen 9 (16) @ 4.20 GHz");
    assert_eq!(values[5], "4.0 GiB / 16.0 GiB (25.0%)");
    assert_eq!(values[6], "Disabled");
    assert_eq!(values[7], "512.0 MiB / 1.0 GiB (50.0%) - ext4");
    assert_eq!(values[8], "1x IPv4, 1x IPv6");
}

#[test]
fn snapshot_omitted_lines() {
    let mut r = readings();
    r.pc_host = String::new();
    r.cpu = None;
    r.disks = vec![];
    r.addresses = vec![v4(192, 168, 1, 5)];
    r.used_swap = 1024;
    r.total_swap = 2048;
    let info = get_system_info_by_lines_unlocked(&r);
    let keys: Vec<&str> = info.lines.iter().map(|l| l.key.as_str()).collect();
    assert_eq!(keys, vec!["OS", "Kernel", "Uptime", "Memory", "Swap"]);
    assert_eq!(info.lines[4].value, "1.0 KiB / 2.0 KiB (50.0%)");
}

#[test]
fn snapshot_multiple_disks_keyed_by_mount() {
    let mut r = readings();
    r.disks = vec![
        disk("/dev/sda1", "ext4", "/", 2048, 1024),
        disk("/dev/sdb1", "xfs", "/home", 4096, 1024),
    ];
    let info = get_system_info_by_lines_unlocked(&r);
    let keys: Vec<&str> = info.lines.iter().map(|l| l.key.as_str()).collect();
    assert!(keys.contains(&"Disk (/)"));
    assert!(keys.contains(&"Disk (/home)"));
    assert!(!keys.contains(&"Disk"));
}

#[test]
fn html_rendering_exact() {
    let info = SystemInfo {
        host: "box".to_string(),
        lines: vec![LineInfo { key: "OS".to_string(), value: "Linux".to_string() }],
    };
    let html = info.as_html_info();
    let expected = "<p class=\"host-header\">noaione<span class=\"host-at\">@</span>box</p>\n<p class=\"detail-line\">-----------</p>\n<p class=\"detail-line\"><span class=\"detail-line-root\">OS</span>: Linux</p>\n";
    assert_eq!(html, expected);
}

#[test]
fn html_separator_matches_header_length() {
    let info = SystemInfo { host: "machine.example".to_string(), lines: vec![] };
    let html = info.as_html_info();
    let sep_line = html.lines().nth(1).unwrap();
    let rule = sep_line
        .strip_prefix("<p class=\"detail-line\">")
        .unwrap()
        .strip_suffix("</p>")
        .unwrap();
    assert!(rule.chars().all(|c| c == '-'));
    assert_eq!(rule.len(), "noaione@".len() + info.host.len());
}

#[test]
fn from_tuple() {
    let l = LineInfo::from(("OS".to_string(), "Linux".to_string()));
    assert_eq!(l.key, "OS");
    assert_eq!(l.value, "Linux");
}

#[test]
fn cache_serves_fresh_copy_twice() {
    let info = get_system_info_by_lines_unlocked(&readings());
    let entry = CacheEntry::new(info, 100);
    let a = entry.serve_if_fresh(105, MAXIMUM_HEARTBEAT).unwrap();
    let b = entry.serve_if_fresh(114, MAXIMUM_HEARTBEAT).unwrap();
    assert_eq!(a.host, b.host);
    assert_eq!(a.lines.len(), b.lines.len());
    for (x, y) in a.lines.iter().zip(b.lines.iter()) {
        assert_eq!(x.key, y.key);
        assert_eq!(x.value, y.value);
    }
}

#[test]
fn cache_stale_exactly_at_window() {
    let info = get_system_info_by_lines_unlocked(&readings());
    let entry = CacheEntry::new(info, 100);
    assert!(entry.serve_if_fresh(100 + MAXIMUM_HEARTBEAT - 1, MAXIMUM_HEARTBEAT).is_some());
    assert!(entry.serve_if_fresh(100 + MAXIMUM_HEARTBEAT, MAXIMUM_HEARTBEAT).is_none());
    assert!(entry.serve_if_fresh(100 + MAXIMUM_HEARTBEAT + 1, MAXIMUM_HEARTBEAT).is_none());
}

#[test]
fn cache_store_updates_timestamp() {
    let info = get_system_info_by_lines_unlocked(&readings());
    let mut entry = CacheEntry::new(info, 100);
    let t1 = 100 + MAXIMUM_HEARTBEAT + 1;
    assert!(entry.serve_if_fresh(t1, MAXIMUM_HEARTBEAT).is_none());
    let fresh = get_system_info_by_lines_unlocked(&readings());
    entry.store(fresh, t1);
    assert_eq!(entry.captured_at, t1);
    assert!(entry.serve_if_fresh(t1, MAXIMUM_HEARTBEAT).is_some());
}

#[test]
fn cache_display_staleness() {
    let info = get_system_info_by_lines_unlocked(&readings());
    let entry = CacheEntry::new(info, 100);
    assert!(!entry.is_display_stale(100 + DISPLAY_HEARTBEAT));
    assert!(entry.is_display_stale(100 + DISPLAY_HEARTBEAT + 1));
    // a capture time in the future counts as age zero
    assert!(!entry.is_display_stale(50));
}

#[test]
fn update_self_replaces_snapshot() {
    let mut info = get_system_info_by_lines_unlocked(&readings());
    let mut r = readings();
    r.hostname = "other.local".to_string();
    let fresh = get_system_info_by_lines_unlocked(&r);
    info.update_self(fresh);
    assert_eq!(info.host, "other.local");
}
