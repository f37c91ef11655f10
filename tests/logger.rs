use discord_bots::logger::{
    threshold_from_name, CustomTrigger, FilterResponse, Level, LevelFilter, UpperThresholdFilter,
};

#[test]
fn upper_threshold_rejects_more_severe() {
    let f = UpperThresholdFilter::new(LevelFilter::Info);
    assert_eq!(f.filter(Level::Error), FilterResponse::Reject);
    assert_eq!(f.filter(Level::Warn), FilterResponse::Reject);
    assert_eq!(f.filter(Level::Info), FilterResponse::Neutral);
    assert_eq!(f.filter(Level::Debug), FilterResponse::Neutral);
    assert_eq!(f.filter(Level::Trace), FilterResponse::Neutral);
}

#[test]
fn upper_threshold_off_rejects_nothing() {
    let f = UpperThresholdFilter::new(LevelFilter::Off);
    assert_eq!(f.filter(Level::Error), FilterResponse::Neutral);
}

#[test]
fn trigger_rolls_past_limit_or_at_startup() {
    let t = CustomTrigger::new(100);
    assert!(!t.trigger(100, false));
    assert!(t.trigger(101, false));
    assert!(t.trigger(0, true));
}

#[test]
fn threshold_names() {
    assert_eq!(threshold_from_name(Some("trace")), LevelFilter::Trace);
    assert_eq!(threshold_from_name(Some("DEBUG")), LevelFilter::Debug);
    assert_eq!(threshold_from_name(Some("Info")), LevelFilter::Info);
    assert_eq!(threshold_from_name(Some("wArN")), LevelFilter::Warn);
    assert_eq!(threshold_from_name(Some("error")), LevelFilter::Error);
    assert_eq!(threshold_from_name(Some("off")), LevelFilter::Info);
    assert_eq!(threshold_from_name(Some("")), LevelFilter::Info);
    assert_eq!(threshold_from_name(None), LevelFilter::Info);
}
