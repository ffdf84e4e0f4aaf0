use icmp_probe::cli::{OutputLevel, PingArgs, TraceArgs};
use icmp_probe::logger::{LevelFilter, Logger};
use icmp_probe::request::{ProbeRequest, DEFAULT_TIMEOUT_MILLIS, DEFAULT_TIME_TO_LIVE};

#[test]
fn verbosity_maps_to_thresholds() {
    assert_eq!(Logger::new(&OutputLevel::All).filter, LevelFilter::Trace);
    assert_eq!(Logger::new(&OutputLevel::Default).filter, LevelFilter::Error);
    assert_eq!(Logger::new(&OutputLevel::Info).filter, LevelFilter::Info);
    assert_eq!(Logger::new(&OutputLevel::Warning).filter, LevelFilter::Warn);
    assert_eq!(Logger::new(&OutputLevel::Error).filter, LevelFilter::Error);
    assert_eq!(Logger::new(&OutputLevel::Debug).filter, LevelFilter::Debug);
}

#[test]
fn create_instance_matches_new() {
    for level in [
        OutputLevel::All,
        OutputLevel::Default,
        OutputLevel::Info,
        OutputLevel::Warning,
        OutputLevel::Error,
        OutputLevel::Debug,
    ] {
        assert_eq!(Logger::create_instance(&level).filter, Logger::new(&level).filter);
    }
}

#[test]
fn threshold_decides_what_passes() {
    let logger = Logger::new(&OutputLevel::Warning);
    assert!(logger.enabled(LevelFilter::Error));
    assert!(logger.enabled(LevelFilter::Warn));
    assert!(!logger.enabled(LevelFilter::Info));
    assert!(!logger.enabled(LevelFilter::Debug));
    assert!(!logger.enabled(LevelFilter::Trace));

    let chatty = Logger::new(&OutputLevel::All);
    assert!(chatty.enabled(LevelFilter::Trace));
    let quiet = Logger::new(&OutputLevel::Default);
    assert!(quiet.enabled(LevelFilter::Error));
    assert!(!quiet.enabled(LevelFilter::Warn));
}

#[test]
fn every_severity_can_be_written() {
    let logger = Logger::new(&OutputLevel::All);
    logger.info("Information");
    logger.error("Error");
    logger.warn("Warning");
    logger.debug("Debug");
    logger.trace("Tracing");
    logger.test_all();
}

#[test]
fn request_defaults() {
    assert_eq!(DEFAULT_TIME_TO_LIVE, 128);
    assert_eq!(DEFAULT_TIMEOUT_MILLIS, 4000);
    let request = ProbeRequest::new("8.8.8.8".to_string(), DEFAULT_TIME_TO_LIVE, DEFAULT_TIMEOUT_MILLIS);
    assert_eq!(request.destination, "8.8.8.8");
    assert_eq!(request.time_to_live, 128);
    assert_eq!(request.timeout_millis, 4000);
    assert_eq!(request.payload, b"muttumuttu".to_vec());
}

#[test]
fn duplicated_requests_are_equal_but_independent() {
    let request = ProbeRequest::new("8.8.8.8".to_string(), 128, 4000);
    let copy = request.duplicate();
    assert_eq!(copy.destination, request.destination);
    assert_eq!(copy.time_to_live, request.time_to_live);
    assert_eq!(copy.timeout_millis, request.timeout_millis);
    assert_eq!(copy.payload, request.payload);
}

#[test]
fn argument_defaults() {
    let ping = PingArgs::default();
    assert_eq!(ping.dest, "");
    assert_eq!(ping.ttl, 128);
    assert_eq!(ping.verbosity, OutputLevel::Default);
    let trace = TraceArgs::default();
    assert_eq!(trace.dest, "");
    assert_eq!(trace.ttl, 128);
}
