use sysdash::components::component::Component;
use sysdash::components::disk::Disk;
use sysdash::components::memory::Memory;
use sysdash::components::network::Network;
use sysdash::components::system::System;
use sysdash::errors::DashboardError;
use sysdash::frac::Frac;
use sysdash::snapshot::{DiskInfo, MemInfo, NetInfo, Snapshot, SysId};

fn empty_snapshot() -> Snapshot {
    Snapshot {
        disks: vec![],
        memory: MemInfo { total: 0, used: 0, swap_total: 0, swap_used: 0 },
        networks: vec![],
        system: SysId {
            title_output: String::new(),
            os_version: String::new(),
            kernel_version: String::new(),
            cpu_arch: String::new(),
            uptime_secs: 0,
        },
    }
}

fn threshold() -> Frac {
    Frac { num: 8, den: 10 }
}

#[test]
fn disk_keeps_only_configured_mounts() {
    let disk = Disk {
        default_color: "green".to_string(),
        warning_color: "red".to_string(),
        warning_threshold: threshold(),
        mounts: vec![("/data".to_string(), "Data".to_string())],
    };
    let mut snap = empty_snapshot();
    snap.disks = vec![
        DiskInfo {
            mount: "/data".to_string(),
            fs: "ext4".to_string(),
            kind: "SSD".to_string(),
            total: 4096,
            avail: 1024,
        },
        DiskInfo {
            mount: "/tmp".to_string(),
            fs: "tmpfs".to_string(),
            kind: "RAM".to_string(),
            total: 2048,
            avail: 2048,
        },
    ];
    let items = disk.get_items(&snap);
    assert_eq!(items.len(), 1);
    assert_eq!(items[0].name, "Data");
    assert_eq!(items[0].mount, "/data");

    let lines = disk.print(&snap, 0).unwrap();
    // header, column titles, one data row, one bar, trailing blank
    assert_eq!(lines.len(), 5);
    assert_eq!(lines[0], "Disk:");
    assert!(lines[2].contains("Data"));
    assert!(lines[3].contains('['));
    assert!(lines.iter().all(|l| !l.contains("/tmp")));
    assert_eq!(lines[4], "");
}

#[test]
fn disk_with_no_mount_mapping_renders_nothing() {
    let disk = Disk {
        default_color: "green".to_string(),
        warning_color: "red".to_string(),
        warning_threshold: threshold(),
        mounts: vec![],
    };
    let snap = empty_snapshot();
    assert_eq!(disk.print(&snap, 40).unwrap(), Vec::<String>::new());
    // the measure phase still reports the header grid's width
    assert!(disk.width(&snap) > 0);
}

#[test]
fn disk_with_bad_color_fails_at_render() {
    let disk = Disk {
        default_color: "nonsense".to_string(),
        warning_color: "red".to_string(),
        warning_threshold: threshold(),
        mounts: vec![("/".to_string(), "root".to_string())],
    };
    let mut snap = empty_snapshot();
    snap.disks = vec![DiskInfo {
        mount: "/".to_string(),
        fs: "ext4".to_string(),
        kind: "SSD".to_string(),
        total: 100,
        avail: 50,
    }];
    assert_eq!(disk.print(&snap, 40), Err(DashboardError::ColorParse));
}

#[test]
fn memory_ram_only_renders_one_row_and_one_bar() {
    let mem = Memory {
        show_ram: true,
        show_swap: false,
        default_color: "green".to_string(),
        warning_color: "red".to_string(),
        warning_threshold: threshold(),
    };
    let mut snap = empty_snapshot();
    snap.memory = MemInfo { total: 2048, used: 1024, swap_total: 4096, swap_used: 0 };
    let lines = mem.print(&snap, 30).unwrap();
    // header, the RAM row, its bar, trailing blank
    assert_eq!(lines.len(), 4);
    assert_eq!(lines[0], "Memory:");
    assert!(lines[1].contains("RAM:"));
    assert!(lines[1].contains("1.0 KiB / 2.0 KiB (50.0%)"));
    assert!(lines[2].contains('['));
    assert!(lines.iter().all(|l| !l.contains("Swap:")));
}

#[test]
fn memory_percentage_rounds_to_nearest_tenth() {
    let mem = Memory {
        show_ram: true,
        show_swap: false,
        default_color: "green".to_string(),
        warning_color: "red".to_string(),
        warning_threshold: threshold(),
    };
    let mut snap = empty_snapshot();
    snap.memory = MemInfo { total: 3, used: 2, swap_total: 0, swap_used: 0 };
    let lines = mem.print(&snap, 30).unwrap();
    // 2/3 is 66.66…%: one decimal digit, rounded to nearest
    assert!(lines[1].contains("2.0 B / 3.0 B (66.7%)"));
}

#[test]
fn memory_swap_without_ram_renders_nothing() {
    // the documented quirk: RAM off and swap on counts as fully disabled
    let mem = Memory {
        show_ram: false,
        show_swap: true,
        default_color: "green".to_string(),
        warning_color: "red".to_string(),
        warning_threshold: threshold(),
    };
    let snap = empty_snapshot();
    assert_eq!(mem.print(&snap, 30).unwrap(), Vec::<String>::new());
}

#[test]
fn memory_both_rows_in_order_with_bars() {
    let mem = Memory {
        show_ram: true,
        show_swap: true,
        default_color: "green".to_string(),
        warning_color: "red".to_string(),
        warning_threshold: threshold(),
    };
    let mut snap = empty_snapshot();
    snap.memory = MemInfo { total: 2048, used: 2048, swap_total: 1024, swap_used: 0 };
    let lines = mem.print(&snap, 30).unwrap();
    assert_eq!(lines.len(), 6);
    assert!(lines[1].contains("RAM:"));
    assert!(lines[3].contains("Swap:"));
    // RAM is full and above the threshold: warning (red) color
    assert!(lines[2].contains("38;2;255;0;0"));
    // swap is empty: normal (green) color
    assert!(lines[4].contains("38;2;0;128;0"));
}

#[test]
fn network_skips_interfaces_missing_from_live_list() {
    let net = Network {
        interfaces: vec!["eth0".to_string(), "missing0".to_string()],
        show_mac: false,
        show_flow: true,
    };
    let mut snap = empty_snapshot();
    snap.networks = vec![NetInfo {
        name: "eth0".to_string(),
        received: 2048,
        transmitted: 1024,
        mac: "aa:bb:cc:dd:ee:ff".to_string(),
    }];
    let lines = net.print(&snap, 0).unwrap();
    assert_eq!(lines[0], "Network:");
    assert!(lines.iter().any(|l| l.contains("eth0")));
    assert!(lines.iter().all(|l| !l.contains("missing0")));
    assert!(lines.iter().any(|l| l.contains("2.0 KiB")));
    assert!(lines.iter().any(|l| l.contains("1.0 KiB)")));
}

#[test]
fn network_flow_icons_use_exact_ansi_codes() {
    let net = Network {
        interfaces: vec![" eth0".to_string()],
        show_mac: false,
        show_flow: true,
    };
    let mut snap = empty_snapshot();
    snap.networks = vec![NetInfo {
        name: " eth0".to_string(),
        received: 1024,
        transmitted: 1024,
        mac: String::new(),
    }];
    let lines = net.print(&snap, 0).unwrap();
    // the interface cell is trimmed for display
    assert!(lines[1].starts_with("eth0"));
    // received glyphs: green down, red up, then the foreground reset
    let up = "(\u{1b}[38;5;2m\u{25bc}\u{1b}[38;5;1m\u{25b2}\u{1b}[39m";
    let down = "\u{1b}[38;5;1m\u{25bc}\u{1b}[38;5;2m\u{25b2}\u{1b}[39m";
    assert!(lines[1].contains(up));
    assert!(lines[1].contains(down));
}

#[test]
fn network_fully_disabled_renders_nothing() {
    let net = Network {
        interfaces: vec!["eth0".to_string()],
        show_mac: false,
        show_flow: false,
    };
    let snap = empty_snapshot();
    assert_eq!(net.print(&snap, 0).unwrap(), Vec::<String>::new());
}

#[test]
fn network_plain_names_with_mac() {
    let net = Network {
        interfaces: vec!["eth0".to_string()],
        show_mac: true,
        show_flow: false,
    };
    let mut snap = empty_snapshot();
    snap.networks = vec![NetInfo {
        name: "eth0".to_string(),
        received: 0,
        transmitted: 0,
        mac: "aa:bb:cc:dd:ee:ff".to_string(),
    }];
    let lines = net.print(&snap, 0).unwrap();
    assert!(lines.contains(&"  eth0".to_string()));
    assert!(lines.iter().any(|l| l.contains("mac: aa:bb:cc:dd:ee:ff")));
}

#[test]
fn system_renders_title_identity_and_uptime() {
    let sys = System {
        title_command: "hostname".to_string(),
        title_color: "blue".to_string(),
        show_up_time: true,
    };
    let mut snap = empty_snapshot();
    snap.system = SysId {
        title_output: "hello \n".to_string(),
        os_version: "Ubuntu 24.04".to_string(),
        kernel_version: "6.1.0".to_string(),
        cpu_arch: "x86_64".to_string(),
        uptime_secs: 3723,
    };
    let lines = sys.print(&snap, 0).unwrap();
    assert_eq!(lines.len(), 5);
    assert_eq!(lines[0], "\u{1b}[38;2;0;0;255mhello\u{1b}[m");
    assert_eq!(lines[1], "");
    assert_eq!(lines[2], "  Ubuntu 24.04 6.1.0 x86_64");
    assert_eq!(lines[3], "  Up 1h 2m 3s");
    assert_eq!(lines[4], "");
}

#[test]
fn system_with_bad_color_fails() {
    let sys = System {
        title_command: "hostname".to_string(),
        title_color: "no-such-color".to_string(),
        show_up_time: false,
    };
    let snap = empty_snapshot();
    assert_eq!(sys.print(&snap, 0), Err(DashboardError::ColorParse));
}
