use rand::rngs::StdRng;
use rand::SeedableRng;
use workload::action::{make_worker_label, parse_kind, WorkloadAction, WorkloadArgs, WorkloadError, WorkloadKind};
use workload::rate::{parse_rate, parse_target_rate, RateParseError};
use workload::reporter::{total_attempted, Reporter, ReporterAction, ReporterEvent, ShutdownLatch};
use workload::text::{parse_unsigned, same_text, split_text};
use workload::time::{parse_magnitude, Time, TimeType, TimeUnit};
use workload::worker::{Worker, WorkerAction, WorkerEvent, WorkerState};

fn rate(thousandths: u64, unit: TimeUnit) -> Time {
    Time { thousandths, unit, time_type: TimeType::Rate }
}

fn args(targets: &[&str], rate: Option<&str>, workload: Option<&str>) -> WorkloadArgs {
    WorkloadArgs {
        targets: Some(targets.iter().map(|t| t.to_string()).collect()),
        target_rate: rate.map(String::from),
        workload: workload.map(String::from),
        update: None,
        seed: None,
        duration: None,
        smallbank_num_accounts: None,
    }
}

/// Runs a worker against an instantaneous sink on a simulated clock until
/// `end`, with an optional stop request at `stop_at`.
fn simulate(worker: &mut Worker, end: u64, stop_at: Option<u64>) -> Vec<u64> {
    let mut submissions = Vec::new();
    let mut now = 0u64;
    let mut stopped = false;
    loop {
        if let Some(s) = stop_at {
            if !stopped && now >= s {
                stopped = true;
                worker.step(WorkerEvent::StopSignal);
            }
        }
        match worker.step(WorkerEvent::Tick(now)) {
            WorkerAction::Submit => {
                submissions.push(now);
                worker.step(WorkerEvent::Submitted(true));
            }
            WorkerAction::WaitUntil(t) => {
                let wake = match stop_at {
                    Some(s) if !stopped && s < t => s,
                    _ => t,
                };
                if wake > end {
                    break;
                }
                now = wake;
            }
            WorkerAction::Finish | WorkerAction::Idle => break,
        }
    }
    submissions
}

#[test]
fn parses_rate_tokens() {
    assert_eq!(Time::parse("5/s"), Some(rate(5000, TimeUnit::Second)));
    assert_eq!(Time::parse("10"), Some(rate(10000, TimeUnit::Second)));
    assert_eq!(Time::parse("2.5/m"), Some(rate(2500, TimeUnit::Minute)));
    assert_eq!(Time::parse("0.125/h"), Some(rate(125, TimeUnit::Hour)));
    assert_eq!(
        Time::parse("10s"),
        Some(Time { thousandths: 10000, unit: TimeUnit::Second, time_type: TimeType::Duration })
    );
    assert_eq!(Time::parse("0/s"), None);
    assert_eq!(Time::parse("1.2345/s"), None);
    assert_eq!(Time::parse("abc"), None);
    assert_eq!(Time::parse(""), None);
    assert_eq!(Time::parse("1./s"), None);
    assert_eq!(Time::parse(".5/s"), None);
}

#[test]
fn magnitude_limits() {
    assert_eq!(parse_magnitude("1000000000"), Some(1_000_000_000_000));
    assert_eq!(parse_magnitude("1000000000.001"), None);
    assert_eq!(parse_magnitude("99999999999999999999999"), None);
    assert_eq!(parse_magnitude("0.001"), Some(1));
    assert_eq!(parse_magnitude("0.000"), None);
}

#[test]
fn intervals_follow_the_quantity() {
    assert_eq!(rate(2000, TimeUnit::Second).interval_micros(), 500_000);
    assert_eq!(rate(3000, TimeUnit::Second).interval_micros(), 333_333);
    assert_eq!(rate(60000, TimeUnit::Minute).interval_micros(), 1_000_000);
    let d = Time { thousandths: 1500, unit: TimeUnit::Minute, time_type: TimeType::Duration };
    assert_eq!(d.interval_micros(), 90_000_000);
}

#[test]
fn parses_run_lengths() {
    let t = Time::make_duration_type_time("30s").unwrap();
    assert_eq!(t, Time { thousandths: 30000, unit: TimeUnit::Second, time_type: TimeType::Duration });
    assert_eq!(t.interval_micros(), 30_000_000);
    let m = Time::make_duration_type_time("2m").unwrap();
    assert_eq!(m.interval_micros(), 120_000_000);
    let bare = Time::make_duration_type_time("5").unwrap();
    assert_eq!(bare.interval_micros(), 5_000_000);
    assert_eq!(Time::make_duration_type_time("5/s"), None);
    assert_eq!(Time::make_duration_type_time("soon"), None);
}

#[test]
fn single_rates_are_fixed() {
    let five = parse_rate("5/s").unwrap();
    assert_eq!(five.min, five.max);
    assert_eq!(five.min, rate(5000, TimeUnit::Second));
    assert!(five.is_fixed_rate());
    let ten = parse_rate("10").unwrap();
    assert_eq!(ten.min, ten.max);
    assert_eq!(ten.min, rate(10000, TimeUnit::Second));
    let default = parse_target_rate(None).unwrap();
    assert_eq!(default.min, rate(1000, TimeUnit::Second));
    assert_eq!(default.max, rate(1000, TimeUnit::Second));
}

#[test]
fn ranges_are_ordered_and_samples_stay_inside() {
    let spec = parse_rate("5-10/s").unwrap();
    assert_eq!(spec.min, rate(5000, TimeUnit::Second));
    assert_eq!(spec.max, rate(10000, TimeUnit::Second));
    assert!(spec.max.interval_micros() <= spec.min.interval_micros());
    let mut rng = StdRng::seed_from_u64(11);
    let mut seen_low = false;
    let mut seen_high = false;
    for _ in 0..10_000 {
        let v = spec.sample_interval(&mut rng);
        assert!((100_000..=200_000).contains(&v));
        seen_low |= v < 150_000;
        seen_high |= v >= 150_000;
    }
    assert!(seen_low && seen_high);
}

#[test]
fn fixed_rate_sampling_is_constant() {
    let spec = parse_rate("4/s").unwrap();
    let mut rng = StdRng::seed_from_u64(3);
    for _ in 0..100 {
        assert_eq!(spec.sample_interval(&mut rng), 250_000);
    }
}

#[test]
fn range_errors_name_the_side() {
    assert_eq!(parse_rate("bad-10/s"), Err(RateParseError::MinUnparseable));
    assert_eq!(parse_rate("5/s-bad"), Err(RateParseError::MaxUnparseable));
    assert_eq!(parse_rate("bad-worse"), Err(RateParseError::MinUnparseable));
    assert_eq!(parse_rate("5-"), Err(RateParseError::MaxUnparseable));
    assert_eq!(parse_rate("5-10-15"), Err(RateParseError::MaxUnparseable));
    assert_eq!(parse_rate("10/s-5/s"), Err(RateParseError::Inverted));
    assert_eq!(parse_rate("fast"), Err(RateParseError::Unparseable));
}

#[test]
fn worker_at_two_per_second_submits_six_times_in_three_seconds() {
    let spec = parse_rate("2/s").unwrap();
    let interval = spec.min.interval_micros();
    let mut w = Worker::new(interval, None);
    let subs = simulate(&mut w, 3_000_000, None);
    assert_eq!(subs.len(), 6);
    assert_eq!(w.attempted, 6);
    assert_eq!(w.succeeded, 6);
    assert_eq!(subs, vec![500_000, 1_000_000, 1_500_000, 2_000_000, 2_500_000, 3_000_000]);
}

#[test]
fn worker_honours_its_duration() {
    let mut w = Worker::new(500_000, Some(1_200_000));
    let subs = simulate(&mut w, 10_000_000, None);
    assert_eq!(subs.len(), 2);
    assert_eq!(w.state, WorkerState::Stopped);
}

#[test]
fn stop_signal_ends_the_worker_and_its_submissions() {
    let mut w = Worker::new(500_000, None);
    let subs = simulate(&mut w, 10_000_000, Some(1_700_000));
    assert_eq!(subs.len(), 3);
    assert_eq!(w.state, WorkerState::Stopped);
    assert_eq!(w.step(WorkerEvent::Tick(5_000_000)), WorkerAction::Idle);
    assert_eq!(w.attempted, 3);
}

#[test]
fn stop_during_a_submission_waits_for_it() {
    let mut w = Worker::new(100, None);
    assert_eq!(w.step(WorkerEvent::Tick(100)), WorkerAction::Submit);
    assert_eq!(w.step(WorkerEvent::StopSignal), WorkerAction::Idle);
    assert_eq!(w.state, WorkerState::Stopping);
    assert_eq!(w.step(WorkerEvent::Tick(1000)), WorkerAction::Idle);
    assert_eq!(w.step(WorkerEvent::Submitted(false)), WorkerAction::Finish);
    assert_eq!(w.state, WorkerState::Stopped);
    assert_eq!(w.failed, 1);
    assert_eq!(w.attempted, 1);
}

#[test]
fn repeated_stop_requests_are_harmless() {
    let mut w = Worker::new(100, None);
    assert_eq!(w.step(WorkerEvent::StopSignal), WorkerAction::Finish);
    assert_eq!(w.step(WorkerEvent::StopSignal), WorkerAction::Idle);
    assert_eq!(w.state, WorkerState::Stopped);
    let mut done = Worker::new(100, Some(50));
    assert_eq!(done.step(WorkerEvent::Tick(60)), WorkerAction::Finish);
    assert_eq!(done.step(WorkerEvent::StopSignal), WorkerAction::Idle);
    let mut latch = ShutdownLatch::new();
    assert!(latch.request());
    assert!(!latch.request());
    assert!(latch.requested);
    let mut r = Reporter::new(10, None);
    assert_eq!(r.step(ReporterEvent::Shutdown), ReporterAction::FinalReport);
    assert_eq!(r.step(ReporterEvent::Shutdown), ReporterAction::Idle);
}

#[test]
fn reporter_gives_a_final_report_at_the_end_of_the_run() {
    let mut r = Reporter::new(1_000_000, Some(2_500_000));
    assert_eq!(r.step(ReporterEvent::Tick(0)), ReporterAction::WaitUntil(1_000_000));
    assert_eq!(r.step(ReporterEvent::Tick(1_000_000)), ReporterAction::Report);
    assert_eq!(r.step(ReporterEvent::Tick(1_000_001)), ReporterAction::WaitUntil(2_000_000));
    assert_eq!(r.step(ReporterEvent::Tick(2_000_000)), ReporterAction::Report);
    assert_eq!(r.step(ReporterEvent::Tick(2_000_000)), ReporterAction::WaitUntil(2_500_000));
    assert_eq!(r.step(ReporterEvent::Tick(2_500_000)), ReporterAction::FinalReport);
    assert!(r.stopped);
    assert_eq!(r.step(ReporterEvent::Tick(3_000_000)), ReporterAction::Idle);
}

#[test]
fn total_is_the_sum_of_the_workers() {
    let mut a = Worker::new(500_000, None);
    let mut b = Worker::new(250_000, None);
    simulate(&mut a, 3_000_000, None);
    simulate(&mut b, 3_000_000, None);
    assert_eq!(a.attempted, 6);
    assert_eq!(b.attempted, 12);
    assert_eq!(total_attempted(&vec![a, b]), 18);
    assert_eq!(total_attempted(&vec![]), 0);
    let mut big = Worker::new(1, None);
    big.attempted = u64::MAX;
    big.succeeded = u64::MAX;
    assert_eq!(total_attempted(&vec![big, big]), 2 * (u64::MAX as u128));
}

#[test]
fn same_seed_gives_the_same_plan() {
    let mut a = args(&["http://a:8080;http://b:8080", "http://c:8080"], Some("2/s"), Some("command"));
    a.seed = Some("42".to_string());
    let mut b = args(&["http://a:8080;http://b:8080", "http://c:8080"], Some("2/s"), Some("command"));
    b.seed = Some("42".to_string());
    let pa = WorkloadAction.plan(&a, &mut StdRng::seed_from_u64(1)).unwrap();
    let pb = WorkloadAction.plan(&b, &mut StdRng::seed_from_u64(2)).unwrap();
    assert_eq!(pa.seed, 42);
    assert_eq!(pb.seed, 42);
    assert_eq!(pa.workers.len(), pb.workers.len());
    for (x, y) in pa.workers.iter().zip(pb.workers.iter()) {
        assert_eq!(x.id, y.id);
        assert_eq!(x.targets, y.targets);
        assert_eq!(x.time_to_wait_micros, y.time_to_wait_micros);
    }
}

#[test]
fn plan_splits_targets_and_labels_workers() {
    let a = args(&["http://a:8080;http://b:8080", "http://c:8080"], Some("5-10/s"), Some("command"));
    let p = WorkloadAction.plan(&a, &mut StdRng::seed_from_u64(9)).unwrap();
    assert_eq!(p.kind, WorkloadKind::Command);
    assert!(p.get_batch_status);
    assert_eq!(p.update_secs, 30);
    assert_eq!(p.duration, None);
    assert_eq!(p.num_accounts, None);
    assert_eq!(p.workers.len(), 2);
    assert_eq!(p.workers[0].id, "Command-Workload-0");
    assert_eq!(p.workers[1].id, "Command-Workload-1");
    assert_eq!(p.workers[0].targets, vec!["http://a:8080".to_string(), "http://b:8080".to_string()]);
    assert_eq!(p.workers[1].targets, vec!["http://c:8080".to_string()]);
    for w in &p.workers {
        assert!((100_000..=200_000).contains(&w.time_to_wait_micros));
    }
}

#[test]
fn plan_for_smallbank() {
    let mut a = args(&["http://a"], None, Some("smallbank"));
    a.smallbank_num_accounts = Some("250".to_string());
    a.duration = Some("90s".to_string());
    a.update = Some("5".to_string());
    let p = WorkloadAction.plan(&a, &mut StdRng::seed_from_u64(4)).unwrap();
    assert_eq!(p.kind, WorkloadKind::Smallbank);
    assert!(!p.get_batch_status);
    assert_eq!(p.num_accounts, Some(250));
    assert_eq!(p.update_secs, 5);
    assert_eq!(p.duration.unwrap().interval_micros(), 90_000_000);
    assert_eq!(p.workers[0].id, "Smallbank-Workload-0");
    assert_eq!(p.workers[0].time_to_wait_micros, 1_000_000);
    let b = args(&["http://a"], None, Some("smallbank"));
    assert_eq!(WorkloadAction.plan(&b, &mut StdRng::seed_from_u64(4)).unwrap().num_accounts, Some(100));
}

#[test]
fn plan_errors() {
    let mut rng = StdRng::seed_from_u64(5);
    let mut none = args(&[], None, Some("command"));
    none.targets = None;
    assert_eq!(WorkloadAction.plan(&none, &mut rng).err(), Some(WorkloadError::TargetsRequired));
    let bad_rate = args(&["t"], Some("bad-10/s"), Some("command"));
    assert_eq!(
        WorkloadAction.plan(&bad_rate, &mut rng).err(),
        Some(WorkloadError::Rate(RateParseError::MinUnparseable))
    );
    let no_kind = args(&["t"], None, None);
    assert_eq!(WorkloadAction.plan(&no_kind, &mut rng).err(), Some(WorkloadError::WorkloadRequired));
    let mut bad_update = args(&["t"], None, Some("command"));
    bad_update.update = Some("often".to_string());
    assert_eq!(WorkloadAction.plan(&bad_update, &mut rng).err(), Some(WorkloadError::UpdateUnparseable));
    let mut big_update = args(&["t"], None, Some("command"));
    big_update.update = Some("4294967296".to_string());
    assert_eq!(WorkloadAction.plan(&big_update, &mut rng).err(), Some(WorkloadError::UpdateUnparseable));
    let mut bad_seed = args(&["t"], None, Some("command"));
    bad_seed.seed = Some("-1".to_string());
    assert_eq!(WorkloadAction.plan(&bad_seed, &mut rng).err(), Some(WorkloadError::SeedUnparseable));
    let mut bad_duration = args(&["t"], None, Some("command"));
    bad_duration.duration = Some("later".to_string());
    assert_eq!(WorkloadAction.plan(&bad_duration, &mut rng).err(), Some(WorkloadError::DurationUnparseable));
    let other = args(&["t"], None, Some("xo"));
    assert_eq!(WorkloadAction.plan(&other, &mut rng).err(), Some(WorkloadError::UnsupportedWorkload));
    let mut bad_accounts = args(&["t"], None, Some("smallbank"));
    bad_accounts.smallbank_num_accounts = Some("many".to_string());
    assert_eq!(WorkloadAction.plan(&bad_accounts, &mut rng).err(), Some(WorkloadError::AccountsUnparseable));
}

#[test]
fn text_helpers() {
    let parts = split_text("a;;b;", ';');
    assert_eq!(parts, vec!["a".to_string(), String::new(), "b".to_string(), String::new()]);
    assert_eq!(split_text("", ';'), vec![String::new()]);
    assert_eq!(parse_unsigned("18446744073709551615", u64::MAX), Some(u64::MAX));
    assert_eq!(parse_unsigned("18446744073709551616", u64::MAX), None);
    assert_eq!(parse_unsigned("+7", 10), Some(7));
    assert_eq!(parse_unsigned("11", 10), None);
    assert_eq!(parse_unsigned("", 10), None);
    assert_eq!(parse_unsigned("+", 10), None);
    assert!(same_text("command", "command"));
    assert!(!same_text("command", "commands"));
    assert_eq!(parse_kind("command"), Some(WorkloadKind::Command));
    assert_eq!(parse_kind("smallbank"), Some(WorkloadKind::Smallbank));
    assert_eq!(parse_kind("Command"), None);
    assert_eq!(make_worker_label(WorkloadKind::Smallbank, 1207), "Smallbank-Workload-1207");
    assert_eq!(make_worker_label(WorkloadKind::Command, 0), "Command-Workload-0");
}

#[test]
fn ranges_compare_rates_exactly() {
    assert_eq!(parse_rate("100.002/s-100.001/s"), Err(RateParseError::Inverted));
    let close = parse_rate("100.001/s-100.002/s").unwrap();
    assert_eq!(close.min, rate(100_001, TimeUnit::Second));
    assert_eq!(close.max, rate(100_002, TimeUnit::Second));
    assert!(rate(60000, TimeUnit::Minute).rate_at_most(&rate(1000, TimeUnit::Second)));
    assert!(rate(1000, TimeUnit::Second).rate_at_most(&rate(60000, TimeUnit::Minute)));
    assert!(!rate(2000, TimeUnit::Second).rate_at_most(&rate(1000, TimeUnit::Second)));
    let every_two_seconds = Time::parse("2s").unwrap();
    assert!(every_two_seconds.rate_at_most(&rate(1000, TimeUnit::Second)));
    assert_eq!(parse_rate("2s-1/s").unwrap().max, rate(1000, TimeUnit::Second));
    assert_eq!(parse_rate("1/s-2s"), Err(RateParseError::Inverted));
}

#[test]
fn pauses_are_never_zero() {
    assert_eq!(Time::parse("1000000/s").unwrap().interval_micros(), 1);
    assert_eq!(Time::parse("1000001/s"), None);
    assert_eq!(parse_rate("2000000/s-3000000/s"), Err(RateParseError::MinUnparseable));
    let spec = parse_rate("999999/s-1000000/s").unwrap();
    let mut rng = StdRng::seed_from_u64(8);
    for _ in 0..100 {
        assert_eq!(spec.sample_interval(&mut rng), 1);
    }
}

#[test]
fn failed_submission_is_counted_and_the_worker_goes_on() {
    let mut w = Worker::new(500_000, None);
    assert_eq!(w.step(WorkerEvent::Tick(500_000)), WorkerAction::Submit);
    assert_eq!(w.step(WorkerEvent::Submitted(false)), WorkerAction::WaitUntil(1_000_000));
    assert_eq!(w.state, WorkerState::Running);
    assert_eq!(w.failed, 1);
    assert_eq!(w.succeeded, 0);
    assert_eq!(w.step(WorkerEvent::Tick(700_000)), WorkerAction::WaitUntil(1_000_000));
    assert_eq!(w.step(WorkerEvent::Tick(1_000_000)), WorkerAction::Submit);
    assert_eq!(w.attempted, 2);
}

#[test]
fn reports_follow_one_period_apart() {
    let mut r = Reporter::new(1_000, None);
    assert_eq!(r.step(ReporterEvent::Tick(1_500)), ReporterAction::Report);
    assert_eq!(r.next_report, 2_500);
    assert_eq!(r.step(ReporterEvent::Tick(u64::MAX - 10)), ReporterAction::Report);
    assert_eq!(r.next_report, u64::MAX);
}
