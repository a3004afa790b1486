use mcml_game::game_log::{get_level, GameLog, GameRuntimeLog, LogLevel, LogPatterns, MAX_LOGS};

#[test]
fn levels_by_name() {
    assert_eq!(get_level("INFO"), LogLevel::Info);
    assert_eq!(get_level("warn"), LogLevel::Warn);
    assert_eq!(get_level("Error"), LogLevel::Error);
    assert_eq!(get_level("FATAL"), LogLevel::Error);
    assert_eq!(get_level("debug"), LogLevel::Debug);
    assert_eq!(get_level("trace"), LogLevel::NoLevel);
}

#[test]
fn game_lines_are_read() {
    let patterns = LogPatterns::new().unwrap();
    let mut log = GameRuntimeLog::new();
    let line = "[12:34:56] [Render thread/INFO]: [net.minecraft.client.Minecraft] Setting user: Steve";
    assert!(log.try_add_game_log(&patterns, line, 1000, 28800));
    match &log.logs[0].log {
        GameLog::GameLog(obj) => {
            assert_eq!(obj.time, "12:34:56");
            assert_eq!(obj.thread, "Render thread");
            assert_eq!(obj.level, LogLevel::Info);
            assert_eq!(obj.category, "net.minecraft.client.Minecraft");
            assert_eq!(obj.log, line);
        }
        _ => panic!("not read as an entry"),
    }
    assert_eq!(log.logs[0].time_millis, 1000);

    let old = "[12:00:01] [Server thread/WARN]: Can't keep up!";
    assert!(log.try_add_game_log(&patterns, old, 2000, 0));
    match &log.logs[1].log {
        GameLog::GameLog(obj) => {
            assert_eq!(obj.thread, "Server thread");
            assert_eq!(obj.level, LogLevel::Warn);
            assert_eq!(obj.category, "");
        }
        _ => panic!("not read as an older entry"),
    }

    assert!(log.try_add_game_log(&patterns, "plain text", 3000, 0));
    assert!(matches!(&log.logs[2].log, GameLog::Text(t) if t == "plain text"));

    // A line whose level group took no part in the match is refused.
    let no_level = "[12:00:02] [main] [cat] message";
    assert!(!log.try_add_game_log(&patterns, no_level, 4000, 0));
    assert_eq!(log.logs.len(), 3);
    log.clear();
    assert!(log.logs.is_empty());
}

#[test]
fn run_log_keeps_newest() {
    let mut log = GameRuntimeLog::new();
    for i in 0..(MAX_LOGS as i64 + 5) {
        log.add_log_item(GameLog::JavaRedirect, i, 0);
    }
    assert_eq!(log.logs.len(), MAX_LOGS + 1);
    assert_eq!(log.logs.back().unwrap().time_millis, MAX_LOGS as i64 + 4);
    assert_eq!(log.logs.front().unwrap().time_millis, 4);
}

#[test]
fn patterns_compile_or_not() {
    assert!(mcml_game::game_log::CompiledPattern::compile("foo(bar").is_none());
    assert!(mcml_game::game_log::CompiledPattern::compile("foo(bar)").is_some());
    assert!(mcml_game::game_log::LogPatterns::new().is_some());
}
