use tbwidget::metrics::{
    average_frequency, disk_totals, is_cpu_sensor_name, reuse_last_sample, sum_u64, DiskSample,
};

#[test]
fn cpu_frequency_is_averaged() {
    assert_eq!(average_frequency(&Vec::new()), 0);
    assert_eq!(average_frequency(&vec![3000, 3100, 3201]), 3100);
    assert_eq!(sum_u64(&vec![1, 2, 3]), 6);
}

#[test]
fn disks_are_added_up_saturating() {
    let disks = vec![
        DiskSample { total_bytes: 100, available_bytes: 30, read_bytes: 5, written_bytes: 7 },
        DiskSample { total_bytes: 50, available_bytes: 60, read_bytes: 1, written_bytes: 1 },
    ];
    let totals = disk_totals(&disks);
    assert_eq!(totals.total_bytes, 150);
    assert_eq!(totals.used_bytes, 60);
    assert_eq!(totals.read_bytes, 6);
    assert_eq!(totals.written_bytes, 8);
    let huge = vec![
        DiskSample { total_bytes: u64::MAX, available_bytes: 0, read_bytes: u64::MAX, written_bytes: 0 },
        DiskSample { total_bytes: 1, available_bytes: 0, read_bytes: 1, written_bytes: 0 },
    ];
    let totals = disk_totals(&huge);
    assert_eq!(totals.total_bytes, u64::MAX);
    assert_eq!(totals.read_bytes, u64::MAX);
    let inverted = vec![DiskSample { total_bytes: 1, available_bytes: 5, read_bytes: 0, written_bytes: 0 }];
    assert_eq!(disk_totals(&inverted).used_bytes, 0);
}

#[test]
fn cpu_sensors_are_recognised_by_name() {
    assert!(is_cpu_sensor_name("CPU Package"));
    assert!(is_cpu_sensor_name("Core 0"));
    assert!(is_cpu_sensor_name("AMD Processor"));
    assert!(!is_cpu_sensor_name("GPU"));
    assert!(!is_cpu_sensor_name("nvme Composite"));
    assert!(reuse_last_sample(100, true));
    assert!(!reuse_last_sample(100, false));
    assert!(!reuse_last_sample(250, true));
}
