use m87_client::metrics::{disk_totals, network_totals, NetCounters, GIB};

#[test]
fn disk_totals_in_whole_gib_per_disk() {
    assert_eq!(disk_totals(&Vec::new()), (0, 0));
    let disks = vec![(10 * GIB + 5, 4 * GIB), (3 * GIB - 1, 0), (GIB, GIB)];
    // 10 + 2 + 1 total; (6 GiB + 5 bytes) -> 6, (3 GiB - 1) -> 2, 0 used.
    assert_eq!(disk_totals(&disks), (13, 8));
}

#[test]
fn network_deltas_since_previous_reading() {
    let mut c = NetCounters::new();
    let eth = "eth0".to_string();
    let wl = "wlan0".to_string();
    assert_eq!(c.record(&eth, 1000, 500), (0, 0));
    assert_eq!(c.record(&wl, 10, 10), (0, 0));
    assert_eq!(c.record(&eth, 1500, 700), (500, 200));
    // A counter that went backwards (interface reset) gives 0.
    assert_eq!(c.record(&wl, 5, 20), (0, 10));
    assert_eq!(c.record(&eth, 1500, 700), (0, 0));
    assert_eq!(network_totals(&vec![(500, 200), (0, 10)]), (500, 210));
    assert_eq!(network_totals(&Vec::new()), (0, 0));
}

#[test]
fn cpu_cores_and_memory() {
    assert_eq!(m87_client::metrics::cpu_core_ids(3), vec![0, 1, 2]);
    assert_eq!(m87_client::metrics::cpu_core_ids(0), Vec::<usize>::new());
    assert_eq!(m87_client::metrics::memory_totals(8 * 1024 * 1024 + 1023, 2047), (8 * 1024, 1));
}
