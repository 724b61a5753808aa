use osc_address::{AbsOscTime, CalendarTime, OscTime};

#[test]
fn sentinel_is_now() {
    assert_eq!(OscTime::new(0, 1), OscTime::Now);
    assert_eq!(OscTime::new(0, 0), OscTime::At(AbsOscTime::new(0, 0)));
    assert_eq!(OscTime::new(1, 1), OscTime::At(AbsOscTime::new(1, 1)));
    assert_eq!(OscTime::new(0, 2), OscTime::At(AbsOscTime::new(0, 2)));
}

#[test]
fn epoch_round_trip() {
    let epoch = CalendarTime::after_epoch(0, 0);
    let ntp = AbsOscTime::from_system_time(epoch).unwrap();
    assert_eq!(ntp.sec_frac(), (2208988800, 0));
    assert_eq!(ntp.as_system_time(), Some(epoch));
}

#[test]
fn before_1970_not_representable() {
    assert_eq!(AbsOscTime::new(2208988799, 0).as_system_time(), None);
    assert_eq!(AbsOscTime::new(0, 0).as_system_time(), None);
    let early = CalendarTime { before_epoch: true, secs: 1, nanos: 0 };
    assert_eq!(AbsOscTime::from_system_time(early), None);
}

#[test]
fn beyond_2036_not_representable() {
    let last = CalendarTime::after_epoch(2085978495, 0);
    assert_eq!(AbsOscTime::from_system_time(last).unwrap().sec(), u32::MAX);
    let past = CalendarTime::after_epoch(2085978496, 0);
    assert_eq!(AbsOscTime::from_system_time(past), None);
    let far = CalendarTime::after_epoch(u64::MAX, 0);
    assert_eq!(AbsOscTime::from_system_time(far), None);
}

#[test]
fn half_second_fraction() {
    let t = AbsOscTime::new(2208988800, 0x8000_0000).as_system_time().unwrap();
    assert_eq!(t.nanos, 500_000_000);
    assert_eq!(t.secs, 0);
    let back = AbsOscTime::from_system_time(t).unwrap();
    assert_eq!(back.frac(), 0x8000_0000);
}

#[test]
fn fraction_rounds_down() {
    let t = CalendarTime::after_epoch(10, 1);
    let a = AbsOscTime::from_system_time(t).unwrap();
    assert_eq!(a.sec(), 2208988810);
    assert_eq!(a.frac(), 4);
    assert_eq!(a.as_system_time().unwrap().nanos, 0);
    let max = AbsOscTime::new(2208988800, u32::MAX).as_system_time().unwrap();
    assert_eq!(max.nanos, 999_999_999);
}

#[test]
fn immediate_reads_clock() {
    let now = OscTime::Now.as_system_time().unwrap();
    assert!(!now.before_epoch);
    assert!(now.secs > 1_577_836_800);
    assert!(now.nanos < 1_000_000_000);
    let fixed = CalendarTime::after_epoch(5, 6);
    assert_eq!(OscTime::Now.as_system_time_at(fixed), Some(fixed));
    let at = OscTime::new(2208988805, 0);
    assert_eq!(at.as_system_time_at(fixed), Some(CalendarTime::after_epoch(5, 0)));
    assert_eq!(at.as_system_time(), Some(CalendarTime::after_epoch(5, 0)));
}
