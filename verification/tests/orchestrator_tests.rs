use sysdash::components::component::Component;
use sysdash::components::disk::Disk;
use sysdash::components::memory::Memory;
use sysdash::errors::DashboardError;
use sysdash::frac::Frac;
use sysdash::orchestrator::{max_width, run, ComponentEntry};
use sysdash::snapshot::{DiskInfo, MemInfo, Snapshot, SysId};

fn snapshot() -> Snapshot {
    Snapshot {
        disks: vec![DiskInfo {
            mount: "/a".to_string(),
            fs: "x".to_string(),
            kind: "y".to_string(),
            total: 0,
            avail: 0,
        }],
        memory: MemInfo { total: 1024, used: 512, swap_total: 0, swap_used: 0 },
        networks: vec![],
        system: SysId {
            title_output: String::new(),
            os_version: String::new(),
            kernel_version: String::new(),
            cpu_arch: String::new(),
            uptime_secs: 0,
        },
    }
}

fn disk_named(name: &str) -> Disk {
    Disk {
        default_color: "green".to_string(),
        warning_color: "red".to_string(),
        warning_threshold: Frac { num: 8, den: 10 },
        mounts: vec![("/a".to_string(), name.to_string())],
    }
}

fn memory() -> Memory {
    Memory {
        show_ram: true,
        show_swap: false,
        default_color: "green".to_string(),
        warning_color: "red".to_string(),
        warning_threshold: Frac { num: 8, den: 10 },
    }
}

#[test]
fn shared_width_is_the_maximum_of_reported_widths() {
    let snap = snapshot();
    // display-name lengths chosen so the disks naturally measure 40 and 55
    let d40 = disk_named("aaaaaaaa");
    let d55 = disk_named("aaaaaaaaaaaaaaaaaaaaaaa");
    let mem = memory();
    assert_eq!(d40.width(&snap), 40);
    assert_eq!(d55.width(&snap), 55);
    assert_eq!(mem.width(&snap), 0);

    let comps = vec![
        ComponentEntry::Disk(d40),
        ComponentEntry::Memory(mem),
        ComponentEntry::Disk(d55),
    ];
    assert_eq!(max_width(&comps, &snap), Ok(55));
}

#[test]
fn run_renders_every_component_at_the_shared_width() {
    let snap = snapshot();
    let comps = vec![
        ComponentEntry::Disk(disk_named("aaaaaaaa")),
        ComponentEntry::Memory(memory()),
        ComponentEntry::Disk(disk_named("aaaaaaaaaaaaaaaaaaaaaaa")),
    ];
    let lines = run(&comps, &snap).unwrap();
    // both disk tables are stretched to the shared width of 55: every table
    // line (two spaces of margin plus the grid) spans 57 columns
    let data_lines: Vec<&String> =
        lines.iter().filter(|l| l.contains("aaaa") || l.contains("name")).collect();
    assert_eq!(data_lines.len(), 4);
    for l in data_lines {
        assert_eq!(l.chars().count(), 57);
    }
    // sections arrive in list order
    let disk_positions: Vec<usize> = lines
        .iter()
        .enumerate()
        .filter(|(_, l)| *l == "Disk:")
        .map(|(i, _)| i)
        .collect();
    let memory_position = lines.iter().position(|l| l == "Memory:").unwrap();
    assert_eq!(disk_positions.len(), 2);
    assert!(disk_positions[0] < memory_position);
    assert!(memory_position < disk_positions[1]);
}

#[test]
fn empty_component_list_is_a_layout_error() {
    let snap = snapshot();
    let comps: Vec<ComponentEntry> = vec![];
    assert_eq!(max_width(&comps, &snap), Err(DashboardError::Layout));
    assert_eq!(run(&comps, &snap), Err(DashboardError::Layout));
}

#[test]
fn run_propagates_the_first_fatal_error() {
    let snap = snapshot();
    let mut bad = disk_named("data");
    bad.default_color = "broken".to_string();
    let comps = vec![ComponentEntry::Disk(bad), ComponentEntry::Memory(memory())];
    assert_eq!(run(&comps, &snap), Err(DashboardError::ColorParse));
}
