//! Poll requests: the text of a `~poll` command, taken apart.
//!
//! A request is the word `~poll` and one or more texts in double quotes,
//! with any whitespace around each. In a quoted text a backslash takes the
//! character after it along, so that `\"` does not end the text. The first
//! text is the question, the others are the choices.
//!
//! As regular expressions, the head is `^\s*~poll\s*` and a quoted text is
//! `^"((?:[^\\"]|\\.)*)"\s*`, where `\s` is any Unicode whitespace and `.`
//! any character, a line feed too. The functions here match exactly what
//! these two match.

use vstd::prelude::*;
use vstd::string::StrSliceExecFns;
use crate::text::{
    bold, build, built, line, new_builder, push_bold_line, push_bold_safe, push_line, push_text,
    safe,
};

verus! {

/// Whitespace, as Unicode has it (the property `White_Space`).
pub open spec fn is_space(c: char) -> bool {
    let u = c as u32;
    ||| 0x09 <= u <= 0x0D
    ||| u == 0x20
    ||| u == 0x85
    ||| u == 0xA0
    ||| u == 0x1680
    ||| 0x2000 <= u <= 0x200A
    ||| u == 0x2028
    ||| u == 0x2029
    ||| u == 0x202F
    ||| u == 0x205F
    ||| u == 0x3000
}

/// The first position at or after `from` that holds no whitespace; the
/// length of `s` where there is none.
pub open spec fn skip_spaces(s: Seq<char>, from: int) -> int
    decreases s.len() - from,
{
    if 0 <= from < s.len() && is_space(s[from]) {
        skip_spaces(s, from + 1)
    } else {
        from
    }
}

/// The word that a poll request starts with.
pub open spec fn head_word() -> Seq<char> {
    seq!['~', 'p', 'o', 'l', 'l']
}

/// Where the texts of a request begin: behind whitespace, the head word and
/// whitespace again. `None` where `s` does not start so.
pub open spec fn head_end(s: Seq<char>) -> Option<int> {
    let at = skip_spaces(s, 0);
    if at + 5 <= s.len() && s.subrange(at, at + 5) == head_word() {
        Some(skip_spaces(s, at + 5))
    } else {
        None
    }
}

/// The position of the quote that closes a text whose inside goes on at
/// `from`: the first quote from there on that no backslash takes along.
/// `None` where no such quote comes, or a backslash stands last.
pub open spec fn closing_quote(s: Seq<char>, from: int) -> Option<int>
    decreases s.len() - from,
{
    if from < 0 || from >= s.len() {
        None
    } else if s[from] == '"' {
        Some(from)
    } else if s[from] == '\\' {
        if from + 1 < s.len() {
            closing_quote(s, from + 2)
        } else {
            None
        }
    } else {
        closing_quote(s, from + 1)
    }
}

/// A quoted text at the start of a string: where its closing quote stands,
/// and where what follows it begins.
pub struct Quoted {
    pub close: int,
    pub end: int,
}

/// The quoted text that `s` starts with, if it starts with one.
pub open spec fn quoted(s: Seq<char>) -> Option<Quoted> {
    if s.len() > 0 && s[0] == '"' && closing_quote(s, 1) is Some {
        let close = closing_quote(s, 1)->0;
        Some(Quoted { close, end: skip_spaces(s, close + 1) })
    } else {
        None
    }
}

/// Skipping whitespace moves forward only, and not beyond the end.
pub proof fn lemma_skip_spaces(s: Seq<char>, from: int)
    requires
        0 <= from <= s.len(),
    ensures
        from <= skip_spaces(s, from) <= s.len(),
    decreases s.len() - from,
{
    if from < s.len() && is_space(s[from]) {
        lemma_skip_spaces(s, from + 1);
    }
}

/// A closing quote stands at or after the place where the search began, and
/// is a quote.
pub proof fn lemma_closing_quote(s: Seq<char>, from: int)
    ensures
        closing_quote(s, from) matches Some(at) ==> from <= at < s.len() && s[at] == '"',
    decreases s.len() - from,
{
    if 0 <= from < s.len() && s[from] != '"' {
        if s[from] == '\\' {
            if from + 1 < s.len() {
                lemma_closing_quote(s, from + 2);
            }
        } else {
            lemma_closing_quote(s, from + 1);
        }
    }
}

/// A quoted text takes up at least its two quotes, and ends within the
/// string.
pub proof fn lemma_quoted(s: Seq<char>)
    ensures
        quoted(s) matches Some(q) ==> 1 <= q.close < q.end <= s.len(),
{
    if quoted(s) is Some {
        lemma_closing_quote(s, 1);
        lemma_skip_spaces(s, closing_quote(s, 1)->0 + 1);
    }
}

/// The quoted texts that `s` starts with, without their quotes, and what is
/// left of `s` behind the last of them.
pub open spec fn arguments(s: Seq<char>) -> (Seq<Seq<char>>, Seq<char>)
    decreases s.len(),
{
    match quoted(s) {
        Some(q) => {
            proof {
                lemma_quoted(s);
            }
            let rest = arguments(s.skip(q.end));
            (seq![s.subrange(1, q.close)] + rest.0, rest.1)
        },
        None => (Seq::empty(), s),
    }
}

/// A [`PollRequest`] as contracts speak of it: its texts as sequences of
/// characters.
pub struct PollView {
    pub question: Seq<char>,
    pub choices: Option<Seq<Seq<char>>>,
}

/// The request that a text makes. There is one if the text starts with the
/// head and consists of quoted texts from there to its end, at least one.
/// The first is the question. Two or more others are the choices; a single
/// other text is no choice to make, and is dropped.
pub open spec fn extracted(s: Seq<char>) -> Option<PollView> {
    match head_end(s) {
        Some(at) => {
            let (texts, rest) = arguments(s.skip(at));
            if texts.len() >= 1 && rest.len() == 0 {
                Some(
                    PollView {
                        question: texts[0],
                        choices: if texts.len() > 2 {
                            Some(texts.skip(1))
                        } else {
                            None
                        },
                    },
                )
            } else {
                None
            }
        },
        None => None,
    }
}

/// The texts of a list of string slices.
pub open spec fn texts_of(list: Seq<&str>) -> Seq<Seq<char>> {
    Seq::new(list.len(), |i: int| list[i]@)
}

/// A poll request: a question, and the choices if there are any. Without
/// choices the poll asks for yes or no.
#[derive(Debug, Clone, PartialEq, Eq, Hash)]
pub struct PollRequest<'a> {
    pub question: &'a str,
    pub choices: Option<Vec<&'a str>>,
}

impl<'a> View for PollRequest<'a> {
    type V = PollView;

    open spec fn view(&self) -> PollView {
        PollView {
            question: self.question@,
            choices: match self.choices {
                Some(list) => Some(texts_of(list@)),
                None => None,
            },
        }
    }
}

/// Whether `c` is whitespace.
pub fn is_whitespace(c: char) -> (yes: bool)
    ensures
        yes == is_space(c),
{
    let u: u32 = c as u32;
    (0x09 <= u && u <= 0x0D) || u == 0x20 || u == 0x85 || u == 0xA0 || u == 0x1680 || (0x2000 <= u
        && u <= 0x200A) || u == 0x2028 || u == 0x2029 || u == 0x202F || u == 0x205F || u == 0x3000
}

/// The characters of a text, one by one.
fn chars_of(text: &str) -> (chars: Vec<char>)
    ensures
        chars@ == text@,
{
    let mut chars: Vec<char> = Vec::new();
    for c in it: text.chars()
        invariant
            chars@ == it.seq().take(it.index()),
            it.seq() == text@,
    {
        chars.push(c);
    }
    chars
}

/// The first position at or after `from` that holds no whitespace.
fn spaces_end(chars: &Vec<char>, from: usize) -> (at: usize)
    requires
        from <= chars.len(),
    ensures
        at == skip_spaces(chars@, from as int),
        from <= at <= chars.len(),
{
    let mut at = from;
    while at < chars.len() && is_whitespace(chars[at])
        invariant
            from <= at <= chars.len(),
            skip_spaces(chars@, from as int) == skip_spaces(chars@, at as int),
        decreases chars.len() - at,
    {
        at += 1;
    }
    at
}

/// The position of the quote that closes a text whose inside goes on at
/// `from`.
fn find_closing_quote(chars: &Vec<char>, from: usize) -> (found: Option<usize>)
    requires
        from <= chars.len(),
    ensures
        match closing_quote(chars@, from as int) {
            Some(at) => found == Some(at as usize) && from <= at < chars.len(),
            None => found is None,
        },
{
    let mut at = from;
    loop
        invariant
            from <= at <= chars.len(),
            closing_quote(chars@, from as int) == closing_quote(chars@, at as int),
        decreases chars.len() - at,
    {
        if at >= chars.len() {
            return None;
        }
        let c = chars[at];
        if c == '"' {
            return Some(at);
        } else if c == '\\' {
            if at + 1 < chars.len() {
                at += 2;
            } else {
                return None;
            }
        } else {
            at += 1;
        }
    }
}

/// The quoted text that `text` starts with, without its quotes, and what
/// follows it; `None` where `text` starts with none.
fn first_argument<'a>(text: &'a str) -> (found: Option<(&'a str, &'a str)>)
    ensures
        match quoted(text@) {
            Some(q) => found matches Some(pair) && pair.0@ == text@.subrange(1, q.close)
                && pair.1@ == text@.skip(q.end) && q.end > 0,
            None => found is None,
        },
{
    let chars = chars_of(text);
    if chars.len() == 0 || chars[0] != '"' {
        return None;
    }
    match find_closing_quote(&chars, 1) {
        Some(close) => {
            let end = spaces_end(&chars, close + 1);
            let inside = text.substring_char(1, close);
            let rest = text.substring_char(end, chars.len());
            assert(text@.subrange(end as int, chars.len() as int) =~= text@.skip(end as int));
            Some((inside, rest))
        },
        None => None,
    }
}

impl<'a> PollRequest<'a> {
    /// What follows the head of a request in `msg`; `None` where `msg` does
    /// not start with the head.
    pub fn without_head(msg: &'a str) -> (rest: Option<&'a str>)
        ensures
            match head_end(msg@) {
                Some(at) => rest is Some && rest->0@ == msg@.skip(at),
                None => rest is None,
            },
    {
        let chars = chars_of(msg);
        let at = spaces_end(&chars, 0);
        if chars.len() - at < 5 {
            return None;
        }
        if chars[at] == '~' && chars[at + 1] == 'p' && chars[at + 2] == 'o' && chars[at + 3] == 'l'
            && chars[at + 4] == 'l' {
            assert(chars@.subrange(at as int, at + 5) =~= head_word());
            let end = spaces_end(&chars, at + 5);
            let rest = msg.substring_char(end, chars.len());
            assert(msg@.subrange(end as int, chars.len() as int) =~= msg@.skip(end as int));
            Some(rest)
        } else {
            assert(chars@.subrange(at as int, at + 5)[0] == chars@[at as int]);
            assert(chars@.subrange(at as int, at + 5)[1] == chars@[at + 1]);
            assert(chars@.subrange(at as int, at + 5)[2] == chars@[at + 2]);
            assert(chars@.subrange(at as int, at + 5)[3] == chars@[at + 3]);
            assert(chars@.subrange(at as int, at + 5)[4] == chars@[at + 4]);
            None
        }
    }

    /// The quoted texts that `msg` starts with, and what is left of it
    /// behind them ([`arguments`]). There is always an answer; with no quoted
    /// text in front, the list is empty and all of `msg` is left.
    pub fn args(msg: &'a str) -> (found: Option<(Vec<&'a str>, &'a str)>)
        ensures
            found matches Some(pair) && texts_of(pair.0@) == arguments(msg@).0 && pair.1@
                == arguments(msg@).1,
    {
        let mut texts: Vec<&'a str> = Vec::new();
        let mut remaining: &'a str = msg;
        loop
            invariant
                arguments(msg@).0 == texts_of(texts@) + arguments(remaining@).0,
                arguments(msg@).1 == arguments(remaining@).1,
            ensures
                texts_of(texts@) == arguments(msg@).0,
                remaining@ == arguments(msg@).1,
            decreases remaining@.len(),
        {
            match first_argument(remaining) {
                Some((inside, rest)) => {
                    proof {
                        lemma_quoted(remaining@);
                        assert(texts_of(texts@.push(inside)) =~= texts_of(texts@) + seq![inside@]);
                    }
                    texts.push(inside);
                    remaining = rest;
                },
                None => {
                    assert(texts_of(texts@) + Seq::<Seq<char>>::empty() =~= texts_of(texts@));
                    break ;
                },
            }
        }
        Some((texts, remaining))
    }

    /// Takes a poll request from the text of a message ([`extracted`]);
    /// `None` where the text is no request.
    pub fn extract(msg: &'a str) -> (request: Option<PollRequest<'a>>)
        ensures
            match extracted(msg@) {
                Some(poll) => request is Some && request->0@ == poll,
                None => request is None,
            },
    {
        let remaining = match Self::without_head(msg) {
            Some(rest) => rest,
            None => {
                return None;
            },
        };
        let (mut args, remaining) = match Self::args(remaining) {
            Some(found) => found,
            None => (Vec::new(), remaining),
        };
        if args.len() < 1 {
            None
        } else if remaining.unicode_len() == 0 {
            let ghost texts = args@;
            let question = args.remove(0);
            assert(texts_of(args@) =~= texts_of(texts).skip(1));
            Some(
                PollRequest {
                    question,
                    choices: if args.len() > 1 {
                        Some(args)
                    } else {
                        None
                    },
                },
            )
        } else {
            None
        }
    }
}

/// The most choices that a poll can have: one for each letter.
pub const MAX_CHOICES: usize = 26;

/// Why a text makes no poll.
#[derive(Clone, Copy, Debug, PartialEq, Eq, Structural)]
pub enum PollError {
    /// The text is no poll request.
    NotARequest,
    /// The request has more choices than there are letters.
    TooManyChoices,
}

/// The letter that stands for the choice at position `i`: `a` for the first.
pub open spec fn letter_of(i: int) -> char {
    (0x61 + i) as char
}

/// The reaction that stands for the choice at position `i`: the regional
/// indicator symbol of its letter.
pub open spec fn indicator_of(i: int) -> char {
    (0x1F1E6 + i) as char
}

/// The reactions that a poll is opened with: one regional indicator for
/// each choice, or thumbs up and thumbs down for a poll without choices.
pub open spec fn reactions_of(poll: PollView) -> Seq<char> {
    match poll.choices {
        Some(list) => Seq::new(list.len(), |i: int| indicator_of(i)),
        None => seq!['\u{1F44D}', '\u{1F44E}'],
    }
}

/// The lines that list the first `n` choices, behind `head`: for each choice
/// the name of the emoji of its letter between colons, a colon, and the
/// choice in bold.
pub open spec fn with_choices(head: Seq<char>, choices: Seq<Seq<char>>, n: nat) -> Seq<char>
    decreases n,
{
    if n == 0 {
        head
    } else {
        with_choices(head, choices, (n - 1) as nat) + ":regional_indicator_"@ + seq![
            letter_of(n - 1),
        ] + ": :"@ + line(bold(choices[n - 1]))
    }
}

/// The text that announces a poll. `author` is the mention of the one who
/// asked.
pub open spec fn announced(author: Seq<char>, poll: PollView) -> Seq<char> {
    let head = "@here, "@ + author + line(" has started a poll!"@) + line(bold(poll.question))
        + line("Here are the choices:"@);
    match poll.choices {
        Some(list) => with_choices(head, list, list.len()) + "Please react with your response!"@,
        None => head + bold(safe("Please select yes or no."@)),
    }
}

/// A poll that is ready to be announced.
#[derive(Debug, PartialEq, Eq)]
pub struct Ballot<'a> {
    /// What is asked.
    pub request: PollRequest<'a>,
    /// The text that announces the poll.
    pub announcement: String,
    /// The reactions to put under the announcement, in order.
    pub reactions: Vec<char>,
}

/// The letter of the choice at position `idx`, as a text.
fn letter_text(idx: usize) -> (letter: &'static str)
    requires
        idx < MAX_CHOICES,
    ensures
        letter@ == seq![letter_of(idx as int)],
{
    proof {
        reveal_strlit("a");
        reveal_strlit("b");
        reveal_strlit("c");
        reveal_strlit("d");
        reveal_strlit("e");
        reveal_strlit("f");
        reveal_strlit("g");
        reveal_strlit("h");
        reveal_strlit("i");
        reveal_strlit("j");
        reveal_strlit("k");
        reveal_strlit("l");
        reveal_strlit("m");
        reveal_strlit("n");
        reveal_strlit("o");
        reveal_strlit("p");
        reveal_strlit("q");
        reveal_strlit("r");
        reveal_strlit("s");
        reveal_strlit("t");
        reveal_strlit("u");
        reveal_strlit("v");
        reveal_strlit("w");
        reveal_strlit("x");
        reveal_strlit("y");
        reveal_strlit("z");
    }
    let letter = match idx {
        0 => "a",
        1 => "b",
        2 => "c",
        3 => "d",
        4 => "e",
        5 => "f",
        6 => "g",
        7 => "h",
        8 => "i",
        9 => "j",
        10 => "k",
        11 => "l",
        12 => "m",
        13 => "n",
        14 => "o",
        15 => "p",
        16 => "q",
        17 => "r",
        18 => "s",
        19 => "t",
        20 => "u",
        21 => "v",
        22 => "w",
        23 => "x",
        24 => "y",
        _ => "z",
    };
    assert(letter@ =~= seq![letter_of(idx as int)]);
    letter
}

/// Puts the announcement of a poll together.
fn announce(author: &str, request: &PollRequest) -> (text: String)
    requires
        request.choices matches Some(list) ==> list@.len() <= MAX_CHOICES,
    ensures
        text@ == announced(author@, request@),
{
    let mut builder = new_builder();
    push_text(&mut builder, "@here, ");
    assert(built(builder) =~= "@here, "@);
    push_text(&mut builder, author);
    push_line(&mut builder, " has started a poll!");
    push_bold_line(&mut builder, request.question);
    push_line(&mut builder, "Here are the choices:");
    match &request.choices {
        Some(list) => {
            let ghost head = built(builder);
            let ghost choices = texts_of(list@);
            let mut i: usize = 0;
            while i < list.len()
                invariant
                    i <= list.len() <= MAX_CHOICES,
                    choices == texts_of(list@),
                    built(builder) == with_choices(head, choices, i as nat),
                decreases list.len() - i,
            {
                push_text(&mut builder, ":regional_indicator_");
                push_text(&mut builder, letter_text(i));
                push_text(&mut builder, ": :");
                push_bold_line(&mut builder, list[i]);
                i += 1;
            }
            push_text(&mut builder, "Please react with your response!");
        },
        None => {
            push_bold_safe(&mut builder, "Please select yes or no.");
        },
    }
    build(builder)
}

/// The reaction that stands for the choice at position `idx`.
fn choice_indicator(idx: usize) -> (indicator: char)
    requires
        idx < MAX_CHOICES,
    ensures
        indicator == indicator_of(idx as int),
{
    match idx {
        0 => '\u{1F1E6}',
        1 => '\u{1F1E7}',
        2 => '\u{1F1E8}',
        3 => '\u{1F1E9}',
        4 => '\u{1F1EA}',
        5 => '\u{1F1EB}',
        6 => '\u{1F1EC}',
        7 => '\u{1F1ED}',
        8 => '\u{1F1EE}',
        9 => '\u{1F1EF}',
        10 => '\u{1F1F0}',
        11 => '\u{1F1F1}',
        12 => '\u{1F1F2}',
        13 => '\u{1F1F3}',
        14 => '\u{1F1F4}',
        15 => '\u{1F1F5}',
        16 => '\u{1F1F6}',
        17 => '\u{1F1F7}',
        18 => '\u{1F1F8}',
        19 => '\u{1F1F9}',
        20 => '\u{1F1FA}',
        21 => '\u{1F1FB}',
        22 => '\u{1F1FC}',
        23 => '\u{1F1FD}',
        24 => '\u{1F1FE}',
        _ => '\u{1F1FF}',
    }
}

/// The poll that the text of a message asks for. `author` is the mention
/// of the one who sent it.
///
/// The text must be a request ([`extracted`]), or the answer is
/// `NotARequest`; and it must not have more than [`MAX_CHOICES`] choices, or
/// the answer is `TooManyChoices`. The ballot holds the request, the text
/// that announces it ([`announced`]) and its reactions ([`reactions_of`]).
pub fn poll<'a>(author: &str, content: &'a str) -> (ballot: Result<Ballot<'a>, PollError>)
    ensures
        match extracted(content@) {
            None => ballot == Err::<Ballot<'a>, PollError>(PollError::NotARequest),
            Some(asked) => if asked.choices is Some && asked.choices->0.len() > MAX_CHOICES {
                ballot == Err::<Ballot<'a>, PollError>(PollError::TooManyChoices)
            } else {
                ballot matches Ok(b) && b.request@ == asked && b.announcement@ == announced(
                    author@,
                    asked,
                ) && b.reactions@ == reactions_of(asked)
            },
        },
{
    let request = match PollRequest::extract(content) {
        Some(request) => request,
        None => {
            return Err(PollError::NotARequest);
        },
    };
    let mut reactions: Vec<char> = Vec::new();
    match &request.choices {
        Some(list) => {
            if list.len() > MAX_CHOICES {
                return Err(PollError::TooManyChoices);
            }
            let mut i: usize = 0;
            while i < list.len()
                invariant
                    i <= list.len() <= MAX_CHOICES,
                    reactions@ == Seq::new(i as nat, |k: int| indicator_of(k)),
                decreases list.len() - i,
            {
                reactions.push(choice_indicator(i));
                assert(reactions@ =~= Seq::new((i + 1) as nat, |k: int| indicator_of(k)));
                i += 1;
            }
        },
        None => {
            reactions.push('\u{1F44D}');
            reactions.push('\u{1F44E}');
            assert(reactions@ =~= seq!['\u{1F44D}', '\u{1F44E}']);
        },
    }
    let announcement = announce(author, &request);
    Ok(Ballot { request, announcement, reactions })
}

} // verus!
