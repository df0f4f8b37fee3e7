use nanologger::color::styled_tag;
use nanologger::format::compose_line;
use nanologger::{format_message, format_message_full, format_message_with_timestamp, LogLevel};

const ALL_LEVELS: [LogLevel; 5] = [
    LogLevel::Error,
    LogLevel::Warn,
    LogLevel::Info,
    LogLevel::Debug,
    LogLevel::Trace,
];

const MESSAGES: [&str; 6] = [
    "x",
    "plain text check",
    "with [brackets] and (parens)",
    "tab\there",
    "unicode \u{2713} caf\u{e9}",
    "0123456789 abcdefghijklmnopqrstuvwxyz ABCDEFGHIJKLMNOPQRSTUVWXYZ _-/.:",
];

fn colored(level: LogLevel, message: &str) -> String {
    nanocolor::with_colors_override(true, || format_message(level, message, true))
}

#[test]
fn test_error_color_is_red_bold() {
    let output = colored(LogLevel::Error, "fail");
    assert!(
        output.contains("\x1b[1;31m"),
        "Error prefix should be bold red, got: {:?}",
        output
    );
}

#[test]
fn test_warn_color_is_yellow_bold() {
    let output = colored(LogLevel::Warn, "caution");
    assert!(
        output.contains("\x1b[1;33m"),
        "Warn prefix should be bold yellow, got: {:?}",
        output
    );
}

#[test]
fn test_info_color_is_green_bold() {
    let output = colored(LogLevel::Info, "ok");
    assert!(
        output.contains("\x1b[1;32m"),
        "Info prefix should be bold green, got: {:?}",
        output
    );
}

#[test]
fn test_debug_color_is_blue_bold() {
    let output = colored(LogLevel::Debug, "details");
    assert!(
        output.contains("\x1b[1;34m"),
        "Debug prefix should be bold blue, got: {:?}",
        output
    );
}

#[test]
fn test_trace_color_is_magenta_bold() {
    let output = colored(LogLevel::Trace, "verbose");
    assert!(
        output.contains("\x1b[1;35m"),
        "Trace prefix should be bold magenta, got: {:?}",
        output
    );
}

#[test]
fn colored_lines_are_exact() {
    assert_eq!(colored(LogLevel::Error, "fail"), "\x1b[1;31m[ERROR]\x1b[0m fail\n");
    assert_eq!(colored(LogLevel::Warn, "caution"), "\x1b[1;33m[WARN] \x1b[0m caution\n");
    assert_eq!(colored(LogLevel::Info, "ok"), "\x1b[1;32m[INFO] \x1b[0m ok\n");
    assert_eq!(colored(LogLevel::Debug, "details"), "\x1b[1;34m[DEBUG]\x1b[0m details\n");
    assert_eq!(colored(LogLevel::Trace, "verbose"), "\x1b[1;35m[TRACE]\x1b[0m verbose\n");
}

#[test]
fn color_touches_the_tag_only() {
    let output = nanocolor::with_colors_override(true, || {
        format_message_full(
            LogLevel::Warn,
            "careful",
            true,
            Some("09:00:00"),
            Some(("src/main.rs", 42)),
            Some("worker"),
        )
    });
    assert_eq!(
        output,
        "09:00:00 (worker) \x1b[1;33m[WARN] \x1b[0m [src/main.rs:42] careful\n"
    );
}

#[test]
fn styled_tag_follows_the_color_engine() {
    let on = nanocolor::with_colors_override(true, || styled_tag(LogLevel::Info));
    assert_eq!(on, "\x1b[1;32m[INFO] \x1b[0m");
    let off = nanocolor::with_colors_override(false, || styled_tag(LogLevel::Info));
    assert_eq!(off, "[INFO] ");
    let line = nanocolor::with_colors_override(false, || {
        format_message(LogLevel::Info, "quiet", true)
    });
    assert_eq!(line, "[INFO]  quiet\n");
}

#[test]
fn test_plain_mode_no_ansi() {
    let output = format_message(LogLevel::Error, "test", false);
    assert!(
        !output.contains("\x1b["),
        "Plain mode must not contain ANSI sequences"
    );
    assert_eq!(output, "[ERROR] test\n");
}

#[test]
fn test_timestamp_prepended_plain() {
    let output = format_message_with_timestamp(LogLevel::Info, "hello", false, Some("14:30:05"));
    assert_eq!(output, "14:30:05 [INFO]  hello\n");
}

#[test]
fn test_timestamp_prepended_color() {
    let output = nanocolor::with_colors_override(true, || {
        format_message_with_timestamp(LogLevel::Error, "fail", true, Some("09:00:00"))
    });
    assert!(
        output.starts_with("09:00:00 "),
        "Timestamp should be at the start: {:?}",
        output
    );
    assert!(
        output.contains("\x1b[1;31m"),
        "Should still have bold red: {:?}",
        output
    );
}

#[test]
fn test_no_timestamp_same_as_format_message() {
    let with = format_message_with_timestamp(LogLevel::Warn, "test", false, None);
    let without = format_message(LogLevel::Warn, "test", false);
    assert_eq!(with, without);
}

#[test]
fn test_plain_text_no_ansi_full() {
    let output = format_message_full(LogLevel::Info, "plain text check", false, None, None, None);
    assert!(
        !output.contains("\x1b["),
        "Should have no ANSI codes: {output:?}"
    );
    assert!(
        output.contains("[INFO]"),
        "Should contain level tag: {output:?}"
    );
    assert!(
        output.contains("plain text check"),
        "Should contain message: {output:?}"
    );
}

#[test]
fn test_thread_info_format() {
    let output = format_message_full(
        LogLevel::Warn,
        "combined test",
        false,
        None,
        None,
        Some("my-thread"),
    );
    assert!(
        output.contains("(my-thread)"),
        "Should contain thread info: {output:?}"
    );
    assert!(
        output.contains("[WARN]"),
        "Should contain level tag: {output:?}"
    );
    assert!(
        output.contains("combined test"),
        "Should contain message: {output:?}"
    );
    assert!(
        !output.contains("\x1b["),
        "Should have no ANSI codes: {output:?}"
    );
    assert_eq!(output, "(my-thread) [WARN]  combined test\n");
}

#[test]
fn timestamp_only_line_is_exact() {
    let output = format_message_full(LogLevel::Info, "ok", false, Some("14:30:05"), None, None);
    assert_eq!(output, "14:30:05 [INFO]  ok\n");
}

#[test]
fn full_line_is_exact() {
    let output = format_message_full(
        LogLevel::Debug,
        "payload ready",
        false,
        Some("23:59:59.999"),
        Some(("src/net/mod.rs", 1207)),
        Some("ThreadId(3)"),
    );
    assert_eq!(
        output,
        "23:59:59.999 (ThreadId(3)) [DEBUG] [src/net/mod.rs:1207] payload ready\n"
    );
}

#[test]
fn line_numbers_are_decimal() {
    for (line, text) in [
        (0u32, "0"),
        (7, "7"),
        (10, "10"),
        (99, "99"),
        (100, "100"),
        (1905, "1905"),
        (40000, "40000"),
        (u32::MAX, "4294967295"),
    ] {
        let output = format_message_full(LogLevel::Trace, "m", false, None, Some(("f.rs", line)), None);
        assert_eq!(output, format!("[TRACE] [f.rs:{text}] m\n"));
    }
}

#[test]
fn absent_segments_leave_no_trace() {
    assert_eq!(
        format_message_full(LogLevel::Error, "m", false, None, None, None),
        "[ERROR] m\n"
    );
    assert_eq!(
        format_message_full(LogLevel::Error, "m", false, None, Some(("a.rs", 3)), None),
        "[ERROR] [a.rs:3] m\n"
    );
    assert_eq!(
        format_message_full(LogLevel::Error, "m", false, Some("t"), None, Some("n")),
        "t (n) [ERROR] m\n"
    );
    assert_eq!(format_message_full(LogLevel::Error, "", false, None, None, None), "[ERROR] \n");
}

#[test]
fn compose_line_takes_any_tag() {
    assert_eq!(
        compose_line("<tag>", "msg", Some("ts"), Some(("file", 12)), Some("th")),
        "ts (th) <tag> [file:12] msg\n"
    );
    assert_eq!(compose_line("", "", None, None, None), " \n");
}

#[test]
fn prop_message_format_structure() {
    for level in ALL_LEVELS {
        for msg in MESSAGES {
            let output = format_message(level, msg, false);
            let tag = level.tag();
            assert!(output.ends_with('\n'));
            let expected = format!("{tag} {msg}\n");
            assert_eq!(output, expected);
        }
    }
}

#[test]
fn prop_plain_text_no_ansi() {
    for level in ALL_LEVELS {
        for msg in MESSAGES.iter().chain(["", "[", "[[", "1;31m"].iter()) {
            let output = format_message(level, msg, false);
            assert!(
                !output.contains("\x1b["),
                "Plain text output must not contain ANSI escape sequences: {:?}",
                output
            );
        }
    }
}

#[test]
fn prop_timestamp_format_structure() {
    for level in ALL_LEVELS {
        for msg in MESSAGES {
            for (h, m, s) in [(0u32, 0u32, 0u32), (9, 5, 3), (14, 30, 5), (23, 59, 59)] {
                let ts = format!("{h:02}:{m:02}:{s:02}");
                let output = format_message_with_timestamp(level, msg, false, Some(&ts));
                let tag = level.tag();
                let expected = format!("{ts} {tag} {msg}\n");
                assert_eq!(output, expected);
            }
        }
    }
}

#[test]
fn prop_no_timestamp_matches_format_message() {
    for level in ALL_LEVELS {
        for msg in MESSAGES {
            let with_ts = format_message_with_timestamp(level, msg, false, None);
            let without = format_message(level, msg, false);
            assert_eq!(with_ts, without);
        }
    }
}

#[test]
fn prop_thread_info_format_and_placement() {
    for level in ALL_LEVELS {
        for msg in ["a", "message 42", "UPPER lower 09"] {
            for thread_name in ["main", "worker-1", "tokio_rt_7"] {
                for ts in [None, Some("08:15:00")] {
                    let output = format_message_full(level, msg, false, ts, None, Some(thread_name));
                    let tag = level.tag();
                    let wrapped = format!("({thread_name})");
                    assert!(output.contains(&wrapped));
                    let thread_pos = output.find(&wrapped).unwrap();
                    let tag_pos = output.find(&tag).unwrap();
                    assert!(thread_pos < tag_pos);
                    if let Some(ts) = ts {
                        let ts_pos = output.find(ts).unwrap();
                        assert!(ts_pos < thread_pos);
                    }
                }
            }
        }
    }
}

#[test]
fn prop_thread_info_disabled_preserves_format() {
    for level in ALL_LEVELS {
        for ts in [None, Some("08:15:00")] {
            for loc in [None, Some(("src/lib_a/x", 77u32))] {
                let with_none = format_message_full(level, "some message", false, ts, loc, None);
                let without = format_message_full(level, "some message", false, ts, loc, None);
                assert_eq!(&with_none, &without);
                let tag = level.tag();
                let tag_pos = with_none.find(&tag).unwrap();
                let before_tag = &with_none[..tag_pos];
                assert!(!before_tag.contains('('));
            }
        }
    }
}

#[test]
fn prop_source_location_format() {
    for level in ALL_LEVELS {
        for (file, line) in [("src/main.rs", 1u32), ("a/b/c.rs", 99_999), ("x", 4242)] {
            for msg in MESSAGES {
                let output = format_message_full(level, msg, false, None, Some((file, line)), None);
                let tag = level.tag();
                let loc_tag = format!("[{file}:{line}]");
                assert!(output.ends_with('\n'));
                assert!(output.contains(&loc_tag));
                let tag_pos = output.find(&tag).expect("tag must be present");
                let loc_pos = output.find(&loc_tag).expect("loc must be present");
                let msg_pos = output.rfind(msg).expect("msg must be present");
                assert!(tag_pos < loc_pos, "Tag should come before location");
                assert!(loc_pos < msg_pos, "Location should come before message");
            }
        }
    }
}

#[test]
fn prop_source_location_omitted() {
    for level in ALL_LEVELS {
        for msg in ["a", "message 42", "UPPER lower 09"] {
            let output = format_message_full(level, msg, false, None, None, None);
            let tag = level.tag();
            let after_tag = &output[output.find(&tag).unwrap() + tag.len()..];
            assert!(!after_tag.contains('['));
        }
    }
}

#[test]
fn prop_test_output_contains_no_ansi() {
    for level in ALL_LEVELS {
        for ts in [None, Some("08:15:00")] {
            for loc in [None, Some(("src/lib_a/x", 77u32))] {
                for thread in [None, Some("worker-1")] {
                    let output = format_message_full(level, "some message", false, ts, loc, thread);
                    assert!(!output.contains("\x1b["));
                }
            }
        }
    }
}

#[test]
fn segments_come_in_fixed_order() {
    for level in ALL_LEVELS {
        let output = format_message_full(
            level,
            "the message",
            false,
            Some("12:00:00.000"),
            Some(("dir/file.rs", 15)),
            Some("named"),
        );
        let ts_pos = output.find("12:00:00.000").unwrap();
        let thread_pos = output.find("(named)").unwrap();
        let tag_pos = output.find(&level.tag()).unwrap();
        let loc_pos = output.find("[dir/file.rs:15]").unwrap();
        let msg_pos = output.find("the message").unwrap();
        assert_eq!(ts_pos, 0);
        assert!(ts_pos < thread_pos);
        assert!(thread_pos < tag_pos);
        assert!(tag_pos < loc_pos);
        assert!(loc_pos < msg_pos);
        assert!(output.ends_with("the message\n"));
    }
}
