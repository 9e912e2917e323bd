use minibit::bench::BenchPlugin;
use minibit::telemetry::{TelemetryConfig, TelemetryPlugin, TickSpan};

#[test]
fn reports_come_twice_per_second() {
    assert!(BenchPlugin::reports_at(0, 20));
    assert!(BenchPlugin::reports_at(10, 20));
    assert!(BenchPlugin::reports_at(20, 20));
    assert!(!BenchPlugin::reports_at(5, 20));
    assert!(!BenchPlugin::reports_at(19, 20));
    assert!(BenchPlugin::reports_at(-10, 20));
    assert!(!BenchPlugin::reports_at(-11, 20));
    assert!(BenchPlugin::reports_at(7, 2));
    assert!(BenchPlugin::reports_at(7, 3));
    assert!(!BenchPlugin::reports_at(7, 4));
    assert!(BenchPlugin::reports_at(8, 5));
    assert!(!BenchPlugin::reports_at(i64::MAX, 4));
    assert!(BenchPlugin::reports_at(i64::MIN, 4));
}

#[test]
fn telemetry_is_off_by_default() {
    assert_eq!(TelemetryConfig::default(), TelemetryConfig { tracing: false });
    let off = TelemetryPlugin { name: String::from("sumo"), config: TelemetryConfig::default() };
    assert!(!off.traces_ticks());
    let on = TelemetryPlugin {
        name: String::from("sumo"),
        config: TelemetryConfig { tracing: true },
    };
    assert!(on.traces_ticks());
}

#[test]
fn tick_span_is_exited_only_if_entered() {
    let mut span = TickSpan::Idle;
    assert!(!span.finish());
    span.start(false);
    assert_eq!(span, TickSpan::Idle);
    span.start(true);
    assert_eq!(span, TickSpan::Entered);
    span.start(false);
    assert_eq!(span, TickSpan::Entered);
    assert!(span.finish());
    assert_eq!(span, TickSpan::Idle);
    assert!(!span.finish());
}
