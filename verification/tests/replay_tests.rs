use std::sync::atomic::AtomicBool;
use std::sync::Arc;

use arinc429_sniffer::replay::injector::{
    frame_word, injection_step, BusInjector, InjectStep, InjectionStrategy, PortBackend,
};
use arinc429_sniffer::replay::scheduler::{BusPortPoolBuilder, PortOpening, ReplayTally};
use arinc429_sniffer::timing::pacing::{pace_step, sleep_start, wait_step, PaceStep, SleepStart, WaitStep};

#[test]
fn test_strategy_defaults() {
    let s = InjectionStrategy::default();
    assert_eq!(s, InjectionStrategy::RoundRobin);
}

#[test]
fn injection_step_orders_stop_before_missing_port() {
    assert_eq!(injection_step(true, false, 7), InjectStep::Stopped);
    assert_eq!(injection_step(true, true, 7), InjectStep::Stopped);
    assert_eq!(injection_step(false, false, 7), InjectStep::NoPort);
    assert_eq!(injection_step(false, true, 0x12345678), InjectStep::Write(0x12345678));
}

#[test]
fn injector_counts_writes_and_failures() {
    let flag = Arc::new(AtomicBool::new(false));
    let mut inj = BusInjector::new(InjectionStrategy::HashByLabel, flag);
    assert_eq!(inj.stats(), (0, 0));
    inj.record_write(true);
    inj.record_write(true);
    inj.record_write(false);
    assert_eq!(inj.stats(), (2, 1));
    assert_eq!(inj.strategy(), InjectionStrategy::HashByLabel);
    assert!(!inj.stop_requested());
    assert_eq!(inj.next_step(false, 5), InjectStep::NoPort);
}

#[test]
fn frame_of_device_is_four_le_bytes() {
    let f = frame_word(PortBackend::DevCharDevice, 0x12345678, 99);
    assert_eq!(f, vec![0x78, 0x56, 0x34, 0x12]);
}

#[test]
fn frame_of_file_sink_carries_timestamp() {
    let f = frame_word(PortBackend::FileSink, 0xA1B2C3D4, 0x0102);
    assert_eq!(f.len(), 20);
    assert_eq!(&f[0..16], &0x0102u128.to_le_bytes());
    assert_eq!(&f[16..20], &[0xD4, 0xC3, 0xB2, 0xA1]);
    assert!(PortBackend::Simulated.stamps_words());
    assert!(!PortBackend::SysfsUio.stamps_words());
    assert!(PortBackend::RawMemoryMap.is_real_hardware());
    assert!(!PortBackend::FileSink.is_real_hardware());
}

#[test]
fn port_plan_prefers_sink_then_dry_run() {
    let single = BusPortPoolBuilder::default()
        .ports(vec![3])
        .sink_file(Some("out.bin".to_string()))
        .dry_run(true)
        .port_plan();
    assert_eq!(single, vec![PortOpening::Sink { id: 3, path: "out.bin".to_string() }]);

    let multi = BusPortPoolBuilder::default()
        .ports(vec![0, 1])
        .sink_file(Some("out.bin".to_string()))
        .port_plan();
    assert_eq!(
        multi,
        vec![
            PortOpening::SinkPerPort { id: 0, base: "out.bin".to_string() },
            PortOpening::SinkPerPort { id: 1, base: "out.bin".to_string() },
        ]
    );

    let dry = BusPortPoolBuilder::default()
        .ports(vec![2])
        .strategy(InjectionStrategy::FixedPort(2))
        .dry_run(true)
        .port_plan();
    assert_eq!(dry, vec![PortOpening::DryRun { id: 2 }]);

    let hw = BusPortPoolBuilder::default().ports(vec![4, 5]).port_plan();
    assert_eq!(hw, vec![PortOpening::Hardware { id: 4 }, PortOpening::Hardware { id: 5 }]);
}

#[test]
fn replay_tally_accumulates() {
    let mut t = ReplayTally::new();
    t.record(10, 50, true);
    t.record(80, 50, true);
    t.record(20, 50, false);
    assert_eq!(t.total_words, 2);
    assert_eq!(t.total_bytes_injected, 8);
    assert_eq!(t.timing_errors, 1);
    assert_eq!(t.latency_sum_us, 110);
    assert_eq!(t.peak_latency_us, 80);
}

#[test]
fn wait_and_sleep_steps() {
    assert_eq!(wait_step(100, 100), WaitStep::Ready);
    assert_eq!(wait_step(100, 90), WaitStep::Ready);
    assert_eq!(wait_step(100, 200), WaitStep::Sleep(70));
    assert_eq!(wait_step(100, 150), WaitStep::Spin);
    assert_eq!(sleep_start(0), SleepStart::Immediate);
    assert_eq!(sleep_start(49), SleepStart::Spin(49));
    assert_eq!(sleep_start(50), SleepStart::Paced(50));
    assert_eq!(pace_step(30_000), PaceStep::SpinUntilTarget);
    assert_eq!(pace_step(100_000), PaceStep::Sleep(70_000));
}

use arinc429_sniffer::replay::injector::{backend_for, device_path, simulated_file_name, sysfs_path};
use arinc429_sniffer::timing::jitter::CaptureSpan;
use arinc429_sniffer::timing::timestamp::Timestamp;

#[test]
fn port_locations_and_backend_choice() {
    assert_eq!(device_path(3), "/dev/arinc429/tx3");
    assert_eq!(sysfs_path(12), "/sys/class/arinc429/port12/tx");
    assert_eq!(simulated_file_name(255), "tx255.sock");
    assert_eq!(backend_for(true, true, true), PortBackend::DevCharDevice);
    assert_eq!(backend_for(true, false, true), PortBackend::SysfsUio);
    assert_eq!(backend_for(true, false, false), PortBackend::Simulated);
    assert_eq!(backend_for(false, true, true), PortBackend::Simulated);
}

#[test]
fn capture_span_tracks_first_and_latest() {
    let mut span = CaptureSpan::new();
    assert_eq!(span.duration_us(), 0);
    span.note(Timestamp::from_micros(100));
    span.note(Timestamp::from_micros(350));
    assert_eq!(span.duration_us(), 250);
    span.note(Timestamp::from_micros(50));
    assert_eq!(span.duration_us(), 0);
    assert_eq!(span.start, Some(Timestamp::from_micros(100)));
    span.clear();
    assert_eq!(span, CaptureSpan::new());
}

#[test]
fn injector_counts_over_a_run() {
    let flag = Arc::new(AtomicBool::new(false));
    let mut inj = BusInjector::new(InjectionStrategy::RoundRobin, flag);
    let run: Vec<bool> = (0..100).map(|i| i % 3 != 0).collect();
    for &ok in &run {
        inj.record_write(ok);
    }
    let ok = run.iter().filter(|&&b| b).count() as u64;
    assert_eq!(inj.stats(), (ok, 100 - ok));
    assert_eq!(inj.stats(), (66, 34));
}
