use station_bridge::code::{Code, ParamValue};
use station_bridge::mqtt::Request;
use station_bridge::scheduler::{
    on_event, ChannelType, Matured, Reaction, RequestKind, Scheduler, Step, RAPID_MILLIS,
    RAPID_UPDATE_MILLIS, UPDATE_MILLIS,
};
use station_bridge::sensor::Sensors;
use station_bridge::station::{CodeHandler, CommandManager};

fn request(action: &str) -> Request {
    Request { action: action.to_string() }
}

const QUIET: Matured = Matured { retry: false, update: false, rapid_update: false };

#[test]
fn scheduler_constants() {
    assert_eq!(UPDATE_MILLIS, 60_000);
    assert_eq!(RAPID_MILLIS, 60_000);
    assert_eq!(RAPID_UPDATE_MILLIS, 2_500);
}

#[test]
fn first_update_is_due_at_once() {
    let mut s = Scheduler::new(500);
    assert_eq!(s, Scheduler { rapid: false, rapid_due: 500, rapid_update_due: 500, update_due: 500 });
    assert_eq!(s.timeout(None), 500);
    assert_eq!(s.poll(500, None), Step::Fire(Matured { update: true, ..QUIET }));
    assert_eq!(s.update_due, 60_500);
    assert_eq!(s.poll(500, None), Step::Wait(60_000));
    assert_eq!(s.poll(60_499, None), Step::Wait(1));
    assert_eq!(s.poll(60_500, None), Step::Fire(Matured { update: true, ..QUIET }));
    assert_eq!(s.update_due, 120_500);
}

#[test]
fn timeout_is_the_earliest_timer() {
    let off = Scheduler { rapid: false, rapid_due: 10, rapid_update_due: 20, update_due: 1_000 };
    assert_eq!(off.timeout(None), 1_000);
    assert_eq!(off.timeout(Some(700)), 700);
    assert_eq!(off.timeout(Some(1_700)), 1_000);
    let on = Scheduler { rapid: true, ..off };
    assert_eq!(on.timeout(None), 10);
    assert_eq!(on.timeout(Some(5)), 5);
    let on = Scheduler { rapid: true, rapid_due: 900, rapid_update_due: 800, update_due: 1_000 };
    assert_eq!(on.timeout(None), 800);
    assert_eq!(on.timeout(Some(850)), 800);
}

#[test]
fn command_deadline_asks_for_a_retry() {
    let mut s = Scheduler { rapid: false, rapid_due: 0, rapid_update_due: 0, update_due: 60_000 };
    assert_eq!(s.poll(999, Some(1_000)), Step::Wait(1));
    assert_eq!(s.poll(1_000, Some(1_000)), Step::Fire(Matured { retry: true, ..QUIET }));
    assert_eq!(s.update_due, 60_000);
    assert_eq!(s.poll(60_000, Some(1_000)), Step::Fire(Matured { retry: true, update: true, ..QUIET }));
}

#[test]
fn pass_fires_every_matured_timer() {
    let mut s = Scheduler { rapid: true, rapid_due: 300, rapid_update_due: 200, update_due: 100 };
    let m = s.mature(300, Some(50));
    assert_eq!(m, Matured { retry: true, update: true, rapid_update: true });
    assert_eq!(s, Scheduler { rapid: false, rapid_due: 300, rapid_update_due: 2_800, update_due: 60_300 });
}

#[test]
fn pass_before_any_deadline_changes_nothing() {
    let before = Scheduler { rapid: true, rapid_due: 300, rapid_update_due: 200, update_due: 100 };
    let mut s = before;
    assert_eq!(s.mature(99, Some(100)), QUIET);
    assert_eq!(s, before);
}

#[test]
fn timers_saturate_at_the_end_of_the_clock() {
    let mut s = Scheduler::new(u64::MAX - 5);
    assert_eq!(s.poll(u64::MAX - 5, None), Step::Fire(Matured { update: true, ..QUIET }));
    assert_eq!(s.update_due, u64::MAX);
}

#[test]
fn requests_are_told_apart() {
    let mut s = Scheduler::new(0);
    let before = s;
    assert_eq!(s.request(&request("info"), 10), RequestKind::Info);
    assert_eq!(s, before);
    assert_eq!(s.request(&request("reboot"), 10), RequestKind::Unknown);
    assert_eq!(s.request(&request(""), 10), RequestKind::Unknown);
    assert_eq!(s.request(&request("Rapid-Weather"), 10), RequestKind::Unknown);
    assert_eq!(s, before);
    assert_eq!(s.request(&request("rapid-weather"), 10), RequestKind::RapidWeather);
    assert_eq!(s, Scheduler { rapid: true, rapid_due: 60_010, rapid_update_due: 10, update_due: 0 });
}

#[test]
fn rapid_mode() {
    let mut s = Scheduler::new(0);
    // The start-up update, before the request.
    assert_eq!(s.poll(0, None), Step::Fire(Matured { update: true, ..QUIET }));
    assert_eq!(s.request(&request("rapid-weather"), 0), RequestKind::RapidWeather);
    let mut now = 0u64;
    let mut rapid_updates: Vec<u64> = Vec::new();
    let mut normal_updates: Vec<u64> = Vec::new();
    while now <= 200_000 {
        match s.poll(now, None) {
            Step::Fire(m) => {
                if m.rapid_update {
                    rapid_updates.push(now);
                }
                if m.update {
                    normal_updates.push(now);
                }
                assert!(!m.retry);
            },
            Step::Wait(span) => {
                assert!(span > 0);
                now += span;
            },
        }
    }
    let expected: Vec<u64> = (0..=24).map(|k| k * 2_500).collect();
    assert_eq!(rapid_updates, expected);
    assert_eq!(*rapid_updates.last().unwrap(), 60_000);
    assert_eq!(normal_updates, vec![60_000, 120_000, 180_000]);
    assert!(!s.rapid);
}

#[test]
fn rapid_mode_is_on_until_its_span_ends() {
    let mut s = Scheduler::new(0);
    s.poll(0, None);
    s.request(&request("rapid-weather"), 1_000);
    assert!(s.rapid);
    s.mature(60_999, None);
    assert!(s.rapid);
    s.mature(61_000, None);
    assert!(!s.rapid);
}

#[test]
fn second_request_extends_rapid_mode() {
    let mut s = Scheduler::new(0);
    s.poll(0, None);
    s.request(&request("rapid-weather"), 0);
    assert_eq!(s.poll(0, None), Step::Fire(Matured { rapid_update: true, ..QUIET }));
    s.request(&request("rapid-weather"), 30_000);
    assert_eq!(s.rapid_due, 90_000);
    assert_eq!(s.poll(30_000, None), Step::Fire(Matured { rapid_update: true, ..QUIET }));
    assert_eq!(s.rapid_update_due, 32_500);
}

#[test]
fn event_with_a_record_goes_through_the_router() {
    let mut router = CodeHandler::new();
    router.callback(CommandManager::on_command());
    router.callback(Sensors::sensor_callback());
    let mut scheduler = Scheduler::new(0);
    let mut commands = CommandManager::new();
    let mut sensors = Sensors::new();
    let record = Code::new(b'S', 1)
        .with(b'N', ParamValue::str("temperature"))
        .with(b'U', ParamValue::str("C"))
        .with(b'V', ParamValue::str("20.5"));
    let event = ChannelType::Code(record, Some(20.5f32.to_bits()));
    let before = scheduler;
    assert_eq!(
        on_event(&mut scheduler, &event, &router, &mut commands, &mut sensors, 7),
        Reaction::Routed { accepted: true }
    );
    assert_eq!(scheduler, before);
    assert_eq!(sensors.get("temperature").map(|s| (s.value, s.last_update)), Some((20.5f32.to_bits(), 7)));
    let stray = ChannelType::Code(Code::new(b'Q', 1), None);
    assert_eq!(
        on_event(&mut scheduler, &stray, &router, &mut commands, &mut sensors, 8),
        Reaction::Routed { accepted: false }
    );
}

#[test]
fn event_with_a_decode_error_is_set_aside() {
    let router = CodeHandler::new();
    let mut scheduler = Scheduler::new(0);
    let mut commands = CommandManager::new();
    let mut sensors = Sensors::new();
    let before = scheduler;
    let event = ChannelType::CodeErr("bad checksum".to_string());
    assert_eq!(
        on_event(&mut scheduler, &event, &router, &mut commands, &mut sensors, 7),
        Reaction::DecodeError
    );
    assert_eq!(scheduler, before);
    assert!(sensors.iter().is_empty());
    assert_eq!(commands.in_flight(), 0);
}

#[test]
fn event_with_a_request_reaches_the_scheduler() {
    let router = CodeHandler::new();
    let mut scheduler = Scheduler::new(0);
    let mut commands = CommandManager::new();
    let mut sensors = Sensors::new();
    let info = ChannelType::Request(request("info"));
    assert_eq!(
        on_event(&mut scheduler, &info, &router, &mut commands, &mut sensors, 7),
        Reaction::PublishInfo
    );
    let other = ChannelType::Request(request("shutdown"));
    assert_eq!(
        on_event(&mut scheduler, &other, &router, &mut commands, &mut sensors, 7),
        Reaction::Ignored
    );
    assert!(!scheduler.rapid);
    let rapid = ChannelType::Request(request("rapid-weather"));
    assert_eq!(
        on_event(&mut scheduler, &rapid, &router, &mut commands, &mut sensors, 7),
        Reaction::RapidStarted
    );
    assert!(scheduler.rapid);
    assert_eq!(scheduler.rapid_due, 60_007);
    assert_eq!(scheduler.rapid_update_due, 7);
}
