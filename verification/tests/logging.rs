use ajisen::logging::{level_filter, LogLevel};
use ajisen::settings::{Discord, Logging, Settings};

fn asks(level: &str) -> LogLevel {
    level_filter(&Logging {
        level: level.to_string(),
        file: String::from("bot.log"),
    })
}

#[test]
fn each_level_is_known_by_its_name() {
    assert_eq!(asks("off"), LogLevel::Off);
    assert_eq!(asks("error"), LogLevel::Error);
    assert_eq!(asks("warn"), LogLevel::Warn);
    assert_eq!(asks("info"), LogLevel::Info);
    assert_eq!(asks("debug"), LogLevel::Debug);
    assert_eq!(asks("trace"), LogLevel::Trace);
}

#[test]
fn a_level_name_may_be_in_any_case() {
    assert_eq!(asks("OFF"), LogLevel::Off);
    assert_eq!(asks("Debug"), LogLevel::Debug);
    assert_eq!(asks("tRaCe"), LogLevel::Trace);
}

#[test]
fn an_unknown_level_name_means_info() {
    assert_eq!(asks(""), LogLevel::Info);
    assert_eq!(asks("verbose"), LogLevel::Info);
    assert_eq!(asks(" debug"), LogLevel::Info);
    assert_eq!(asks("warning"), LogLevel::Info);
    assert_eq!(asks("debu\u{67}\u{301}"), LogLevel::Info);
    assert_eq!(asks("o\u{66}\u{46}"), LogLevel::Off);
    assert_eq!(asks("\u{212a}"), LogLevel::Info);
}

#[test]
fn settings_hold_what_they_are_given() {
    let settings = Settings {
        discord: Discord {
            token: String::from("abc123"),
        },
        logging: Logging {
            level: String::from("warn"),
            file: String::from("bot.log"),
        },
    };
    assert_eq!(settings.discord.token, "abc123");
    assert_eq!(settings.logging.file, "bot.log");
    assert_eq!(level_filter(&settings.logging), LogLevel::Warn);
}
