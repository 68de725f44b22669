use ajisen::poll::{is_whitespace, poll, PollError, PollRequest};

const AUTHOR: &str = "<@42>";
use regex::Regex;

#[test]
fn simple_fail() {
    const SAMPLE: &'static str = "";
    assert_eq!(PollRequest::extract(SAMPLE), None);
}

#[test]
fn weird_fail() {
    const SAMPLE: &'static str = "~poll \"Hell\"o\"";
    assert_eq!(PollRequest::extract(SAMPLE), None);
}

#[test]
fn simple() {
    const SAMPLE: &'static str = "~poll \"Hello\"";
    assert_eq!(
        PollRequest::extract(SAMPLE),
        Some(PollRequest {
            question: "Hello",
            choices: None,
        })
    );
}

#[test]
fn actual_options() {
    const SAMPLE: &'static str = "~poll \"Hello\" \"Data\" \"More \\\" Data\"";
    assert_eq!(
        PollRequest::extract(SAMPLE),
        Some(PollRequest {
            question: "Hello",
            choices: Some(vec!["Data", "More \\\" Data"])
        })
    );
}

#[test]
fn head_may_stand_in_whitespace() {
    assert_eq!(PollRequest::without_head("  \t~poll \n \"Q\""), Some("\"Q\""));
    assert_eq!(PollRequest::without_head("~poll"), Some(""));
    assert_eq!(PollRequest::without_head("~poll\"Q\""), Some("\"Q\""));
}

#[test]
fn head_is_required_at_the_start() {
    assert_eq!(PollRequest::without_head("x ~poll \"Q\""), None);
    assert_eq!(PollRequest::without_head("~pol"), None);
    assert_eq!(PollRequest::without_head("~Poll \"Q\""), None);
    assert_eq!(PollRequest::without_head("   "), None);
}

#[test]
fn args_stop_at_the_first_text_without_quotes() {
    assert_eq!(
        PollRequest::args("\"a\" \"b\"c \"d\""),
        Some((vec!["a", "b"], "c \"d\""))
    );
    assert_eq!(PollRequest::args("none"), Some((vec![], "none")));
    assert_eq!(PollRequest::args(""), Some((vec![], "")));
}

#[test]
fn args_take_an_escaped_character_along() {
    assert_eq!(
        PollRequest::args("\"a\\\\\" \"b\\\"\""),
        Some((vec!["a\\\\", "b\\\""], ""))
    );
}

#[test]
fn an_open_text_is_no_argument() {
    assert_eq!(PollRequest::args("\"open"), Some((vec![], "\"open")));
    assert_eq!(PollRequest::args("\"ends in backslash\\"), Some((vec![], "\"ends in backslash\\")));
    assert_eq!(PollRequest::args("\"escaped quote\\\""), Some((vec![], "\"escaped quote\\\"")));
}

#[test]
fn a_text_may_be_empty_or_hold_newlines() {
    assert_eq!(
        PollRequest::extract("~poll \"\" \"a\nb\" \"\""),
        Some(PollRequest {
            question: "",
            choices: Some(vec!["a\nb", ""]),
        })
    );
}

#[test]
fn a_single_choice_is_dropped() {
    assert_eq!(
        PollRequest::extract("~poll \"Q\" \"only\""),
        Some(PollRequest {
            question: "Q",
            choices: None,
        })
    );
}

#[test]
fn a_request_without_a_question_is_none() {
    assert_eq!(PollRequest::extract("~poll"), None);
    assert_eq!(PollRequest::extract("~poll   "), None);
}

#[test]
fn trailing_text_is_refused() {
    assert_eq!(PollRequest::extract("~poll \"Q\" tail"), None);
    assert_eq!(PollRequest::extract("~poll \"Q\" \"a\" \"b\" \"open"), None);
}

#[test]
fn texts_beyond_ascii_are_kept() {
    assert_eq!(
        PollRequest::extract("\u{2003}~poll\u{a0}\"Stra\u{df}e \u{1F600}\"\u{3000}\"\u{e9}\" \"z\""),
        Some(PollRequest {
            question: "Stra\u{df}e \u{1F600}",
            choices: Some(vec!["\u{e9}", "z"]),
        })
    );
}

#[test]
fn whitespace_is_the_unicode_property() {
    let spaces = [
        '\t', '\n', '\u{b}', '\u{c}', '\r', ' ', '\u{85}', '\u{a0}', '\u{1680}', '\u{2000}',
        '\u{2005}', '\u{200a}', '\u{2028}', '\u{2029}', '\u{202f}', '\u{205f}', '\u{3000}',
    ];
    for c in spaces {
        assert!(is_whitespace(c), "{:?}", c);
    }
    let others = ['a', '"', '\\', '~', '\u{8}', '\u{e}', '\u{200b}', '\u{180e}', '\u{feff}', '\u{2060}'];
    for c in others {
        assert!(!is_whitespace(c), "{:?}", c);
    }
}

#[test]
fn whitespace_agrees_with_std_on_every_character() {
    let mut code: u32 = 0;
    while code <= 0x10FFFF {
        if let Some(c) = char::from_u32(code) {
            assert_eq!(is_whitespace(c), c.is_whitespace(), "{:x}", code);
        }
        code += 1;
    }
}

fn by_regex(msg: &str) -> Option<(String, Option<Vec<String>>)> {
    let head = Regex::new(r"^(?s:\s*~poll\s*)").unwrap();
    let text = Regex::new(r#"^(?s:(?:"(?P<text>(?:[^\\"]|(?:\\.))*)")\s*)"#).unwrap();
    let mut remaining = &msg[head.find(msg)?.end()..];
    let mut args: Vec<String> = Vec::new();
    while let Some(capture) = text.captures(remaining) {
        args.push(capture.name("text").unwrap().as_str().to_string());
        remaining = &remaining[capture.get(0).unwrap().end()..];
    }
    if args.is_empty() || !remaining.is_empty() {
        return None;
    }
    let question = args.remove(0);
    Some((question, if args.len() > 1 { Some(args) } else { None }))
}

fn by_library(msg: &str) -> Option<(String, Option<Vec<String>>)> {
    let request = PollRequest::extract(msg)?;
    Some((
        request.question.to_string(),
        request
            .choices
            .map(|list| list.iter().map(|text| text.to_string()).collect()),
    ))
}

#[test]
fn extract_agrees_with_the_patterns_on_samples() {
    let samples = [
        "",
        "~poll",
        "~poll \"Hello\"",
        "~poll \"Hell\"o\"",
        "~poll \"Hello\" \"Data\" \"More \\\" Data\"",
        "  ~poll\"a\"\"b\"\"c\"",
        "~poll \"a\" \"b\" \"c\" ",
        "~poll \"a\\\" \"b\" \"c\"",
        "~poll \"a\\\\\" \"b\" \"c\"",
        "~poll \"a\nb\"\n\"c\"\r\n\"d\"",
        "~poll \"\" \"\" \"\"",
        "~poll \"q\" x",
        "~poll x \"q\"",
        "~poll \"q\" \"open",
        "~poll \"q\" \"open\\",
        "\u{2003}~poll\u{a0}\"Stra\u{df}e\"\u{3000}\"\u{e9}\" \"z\"",
        "~poll \u{200b}\"q\"",
        "~poll ~poll \"q\"",
        "~pollster \"q\"",
        "\"q\" ~poll",
    ];
    for sample in samples {
        assert_eq!(by_library(sample), by_regex(sample), "{:?}", sample);
    }
}

#[test]
fn extract_agrees_with_the_patterns_on_generated_texts() {
    let alphabet = ['"', '\\', ' ', 'a', '~', '\n', '\u{e9}'];
    let mut state: u64 = 0x2545F4914F6CDD1D;
    for _ in 0..3000 {
        let mut text = String::from("~poll ");
        state ^= state << 13;
        state ^= state >> 7;
        state ^= state << 17;
        let len = (state % 12) as usize;
        for _ in 0..len {
            state ^= state << 13;
            state ^= state >> 7;
            state ^= state << 17;
            text.push(alphabet[(state % alphabet.len() as u64) as usize]);
        }
        assert_eq!(by_library(&text), by_regex(&text), "{:?}", text);
    }
}

#[test]
fn poll_without_choices_asks_yes_or_no() {
    let ballot = poll(AUTHOR, "~poll \"Lunch?\"").unwrap();
    assert_eq!(ballot.request.question, "Lunch?");
    assert_eq!(ballot.request.choices, None);
    assert_eq!(
        ballot.announcement,
        "@here, <@42> has started a poll!\n**Lunch?**\nHere are the choices:\n**Please select yes or no.**"
    );
    assert_eq!(ballot.reactions, vec!['\u{1F44D}', '\u{1F44E}']);
}

#[test]
fn poll_with_choices_reacts_with_one_indicator_each() {
    let ballot = poll(AUTHOR, "~poll \"Lunch?\" \"Soup\" \"Salad\" \"Nothing\"").unwrap();
    assert_eq!(ballot.request.choices, Some(vec!["Soup", "Salad", "Nothing"]));
    assert_eq!(
        ballot.announcement,
        "@here, <@42> has started a poll!\n**Lunch?**\nHere are the choices:\n\
         :regional_indicator_a: :**Soup**\n\
         :regional_indicator_b: :**Salad**\n\
         :regional_indicator_c: :**Nothing**\n\
         Please react with your response!"
    );
    assert_eq!(ballot.reactions, vec!['\u{1F1E6}', '\u{1F1E7}', '\u{1F1E8}']);
}

#[test]
fn poll_refuses_what_is_no_request() {
    assert_eq!(poll(AUTHOR, "hello"), Err(PollError::NotARequest));
    assert_eq!(poll(AUTHOR, "~poll \"Hell\"o\""), Err(PollError::NotARequest));
}

fn request_with_choices(n: usize) -> String {
    let mut text = String::from("~poll \"Q\"");
    for i in 0..n {
        text.push_str(&format!(" \"c{}\"", i));
    }
    text
}

#[test]
fn poll_takes_twenty_six_choices_and_no_more() {
    let text = request_with_choices(26);
    let ballot = poll(AUTHOR, &text).unwrap();
    assert_eq!(ballot.reactions.len(), 26);
    assert!(ballot
        .announcement
        .ends_with(":regional_indicator_z: :**c25**\nPlease react with your response!"));
    assert_eq!(ballot.announcement.matches(":regional_indicator_").count(), 26);
    assert_eq!(ballot.reactions[25], '\u{1F1FF}');
    let text = request_with_choices(27);
    assert_eq!(poll(AUTHOR, &text), Err(PollError::TooManyChoices));
}

#[test]
fn letters_and_indicators_run_from_a_to_z() {
    let text = request_with_choices(26);
    let ballot = poll(AUTHOR, &text).unwrap();
    for i in 0..26u32 {
        let letter = char::from_u32('a' as u32 + i).unwrap();
        let line = format!(":regional_indicator_{}: :**c{}**\n", letter, i);
        assert!(ballot.announcement.contains(&line), "{}", line);
        assert_eq!(ballot.reactions[i as usize] as u32, 0x1F1E6 + i);
    }
}

#[test]
fn the_announcement_keeps_the_texts_as_they_were_written() {
    let ballot = poll(AUTHOR, "~poll \"a \\\" b\" \"**x**\" \"@everyone\"").unwrap();
    assert_eq!(
        ballot.announcement,
        "@here, <@42> has started a poll!\n**a \\\" b**\nHere are the choices:\n\
         :regional_indicator_a: :****x****\n\
         :regional_indicator_b: :**@everyone**\n\
         Please react with your response!"
    );
}
