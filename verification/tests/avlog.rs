use stargaze::avlog::{
    is_forwarded, map_level, Level, LogState, AV_LOG_DEBUG, AV_LOG_ERROR, AV_LOG_FATAL,
    AV_LOG_INFO, AV_LOG_PANIC, AV_LOG_TRACE, AV_LOG_VERBOSE, AV_LOG_WARNING,
};

#[test]
fn map_level_covers_ffmpeg_range() {
    assert_eq!(map_level(AV_LOG_PANIC), Level::ERROR);
    assert_eq!(map_level(AV_LOG_FATAL), Level::ERROR);
    assert_eq!(map_level(AV_LOG_ERROR), Level::WARN);
    assert_eq!(map_level(AV_LOG_WARNING), Level::WARN);
    assert_eq!(map_level(AV_LOG_INFO), Level::INFO);
    assert_eq!(map_level(AV_LOG_VERBOSE), Level::DEBUG);
    assert_eq!(map_level(AV_LOG_DEBUG), Level::TRACE);
    assert_eq!(map_level(AV_LOG_TRACE), Level::TRACE);
}

#[test]
fn partial_lines_wait_for_their_end() {
    let mut state = LogState::new();
    assert_eq!(state.push("stargaze avlog test 42\n"), vec!["stargaze avlog test 42"]);
    assert!(state.push("partial ").is_empty());
    assert_eq!(state.push("rest done\n"), vec!["partial rest done"]);
    assert!(is_forwarded(AV_LOG_ERROR));
}
