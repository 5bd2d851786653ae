use charm_linux::diskstats::{is_physical_device, parse_diskstats, SectorCounters};

fn line(name: &str, read: u64, written: u64) -> String {
    format!("   8       0 {} 100 0 {} 10 200 0 {} 20 0 30 40\n", name, read, written)
}

#[test]
fn physical_devices_accepted() {
    for name in ["sda", "nvme0n1", "mmcblk0", "hda", "vda", "xvda", "nvme0n1p", "mmcblk0p", "mmcblk0boot0"] {
        assert!(is_physical_device(name), "{}", name);
    }
}

#[test]
fn partitions_and_virtual_devices_rejected() {
    for name in ["sda1", "nvme0n1p1", "nvme10n2p15", "mmcblk0p1", "loop0", "ram0", "dm-0", "vda1", ""] {
        assert!(!is_physical_device(name), "{}", name);
    }
}

#[test]
fn diskstats_counts_whole_devices_only() {
    let mut text = String::new();
    text.push_str(&line("sda", 1, 10));
    text.push_str(&line("sda1", 1000, 1000));
    text.push_str(&line("nvme0n1", 2, 20));
    text.push_str(&line("nvme0n1p2", 1000, 1000));
    text.push_str(&line("loop0", 1000, 1000));
    text.push_str(&line("dm-0", 1000, 1000));
    text.push_str(&line("mmcblk0", 4, 40));
    text.push_str(&line("mmcblk0p1", 1000, 1000));
    assert_eq!(parse_diskstats(&text), (7, 70));
}

#[test]
fn diskstats_skips_short_and_malformed_lines() {
    let mut text = String::from("8 0 sdb 1 2 3\n\n");
    text.push_str("   8       0 sdc 100 0 x 10 200 0 5 20 0 30 40\n");
    text.push_str(&line("sdd", 3, 4));
    assert_eq!(parse_diskstats(&text), (3, 4));
    assert_eq!(parse_diskstats(""), (0, 0));
}

#[test]
fn diskstats_totals_saturate() {
    let mut text = line("sda", u64::MAX, 1);
    text.push_str(&line("sdb", 5, 1));
    assert_eq!(parse_diskstats(&text), (u64::MAX, 2));
}

#[test]
fn counters_measure_progress() {
    let mut c = SectorCounters::new(100, 50);
    assert_eq!(c.advance(130, 60), 40);
    assert_eq!(c.advance(130, 60), 0);
    assert_eq!(c.advance(10, 70), 10);
    assert_eq!(c.last_read(), 10);
    assert_eq!(c.last_write(), 70);
}
