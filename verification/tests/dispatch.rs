use port_scanner::dispatch::Dispatcher;

/// Drives a whole scan against a simulated prober: a port is "open" exactly
/// when it appears in `listeners`. Probes complete in launch order, or in
/// reverse order within each batch when `reverse` is set. Panics if the
/// observed number of simultaneously outstanding probes ever exceeds the
/// ceiling.
fn run_scan(start: u16, end: u16, max_concurrency: usize, listeners: &[u16], reverse: bool) -> Dispatcher {
    let mut d = Dispatcher::new(start, end, max_concurrency);
    loop {
        let mut batch: Vec<u16> = Vec::new();
        while let Some(port) = d.try_launch() {
            assert!(d.in_flight_count() <= max_concurrency);
            batch.push(port);
        }
        if batch.is_empty() {
            break;
        }
        if reverse {
            batch.reverse();
        }
        for port in batch {
            d.record(port, listeners.contains(&port));
        }
    }
    d
}

#[test]
fn single_port_range_scans_one_port() {
    let d = run_scan(5, 5, 4, &[], false);
    assert!(d.is_done());
    assert_eq!(d.total_ports(), 1);
    assert_eq!(d.completed_count(), 1);
    assert!(d.found_none());
}

#[test]
fn full_range_scans_all_ports_without_overflow() {
    let d = run_scan(1, 65535, 1024, &[], false);
    assert!(d.is_done());
    assert_eq!(d.total_ports(), 65535);
    assert_eq!(d.completed_count(), 65535);
    assert!(d.found_none());
}

#[test]
fn completes_one_probe_per_port() {
    let d = run_scan(100, 200, 16, &[], false);
    assert!(d.is_done());
    assert_eq!(d.completed_count(), 101);
    assert_eq!(d.in_flight_count(), 0);
}

#[test]
fn ports_are_handed_out_ascending_and_once() {
    let mut d = Dispatcher::new(10, 20, 64);
    let mut handed: Vec<u16> = Vec::new();
    while let Some(port) = d.try_launch() {
        handed.push(port);
    }
    assert_eq!(handed, (10..=20).collect::<Vec<u16>>());
}

#[test]
fn listener_on_one_port_is_the_whole_result() {
    let d = run_scan(8000, 9000, 1024, &[8080], false);
    assert!(d.is_done());
    assert_eq!(d.completed_count(), 1001);
    assert_eq!(d.open_port_list().clone(), vec![8080]);
}

#[test]
fn no_listener_yields_empty_result() {
    let d = run_scan(1, 1, 1024, &[], false);
    assert!(d.is_done());
    assert!(d.found_none());
    assert_eq!(d.open_port_list().len(), 0);
}

#[test]
fn open_ports_stay_within_the_range() {
    let d = run_scan(8000, 8100, 32, &[7999, 8020, 8050, 8101, 9050], false);
    assert!(d.is_done());
    for &p in d.open_port_list().iter() {
        assert!((8000..=8100).contains(&p));
    }
    assert_eq!(d.open_port_list().clone(), vec![8020, 8050]);
}

#[test]
fn ceiling_limits_outstanding_probes() {
    let mut d = Dispatcher::new(1, 100, 8);
    let mut launched: Vec<u16> = Vec::new();
    while let Some(port) = d.try_launch() {
        launched.push(port);
    }
    assert_eq!(launched.len(), 8);
    assert_eq!(d.in_flight_count(), 8);
    assert_eq!(d.try_launch(), None);
    d.record(launched[0], false);
    assert_eq!(d.in_flight_count(), 7);
    assert_eq!(d.try_launch(), Some(9));
}

#[test]
fn same_listeners_give_same_result_twice() {
    let listeners: [u16; 3] = [4010, 4025, 4040];
    let first = run_scan(4000, 4100, 16, &listeners, false);
    let second = run_scan(4000, 4100, 16, &listeners, false);
    assert_eq!(first.open_port_list().clone(), second.open_port_list().clone());
    assert_eq!(first.completed_count(), second.completed_count());
}

#[test]
fn completion_order_does_not_change_the_result_set() {
    let listeners: [u16; 2] = [12, 17];
    let forward = run_scan(10, 20, 4, &listeners, false);
    let backward = run_scan(10, 20, 4, &listeners, true);
    let mut a = forward.open_port_list().clone();
    let mut b = backward.open_port_list().clone();
    a.sort();
    b.sort();
    assert_eq!(a, b);
    assert_eq!(a, vec![12, 17]);
}

#[test]
fn progress_counts_one_event_per_completion() {
    let mut d = Dispatcher::new(30, 34, 2);
    let mut seen: Vec<u32> = Vec::new();
    loop {
        let mut batch: Vec<u16> = Vec::new();
        while let Some(port) = d.try_launch() {
            batch.push(port);
        }
        if batch.is_empty() {
            break;
        }
        for port in batch {
            d.record(port, false);
            seen.push(d.completed_count());
        }
    }
    assert_eq!(seen, vec![1, 2, 3, 4, 5]);
}
