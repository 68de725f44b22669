//! The texts of the bot's answers, put together with the chat library's
//! message builder.

use serenity::utils::MessageBuilder;
use vstd::prelude::*;

verus! {

/// The chat library's `serenity::utils::MessageBuilder`, taken as a whole:
/// all that contracts say of a builder is the text that it holds
/// ([`built`]).
#[verifier::external_type_specification]
#[verifier::external_body]
pub struct ExMessageBuilder(serenity::utils::MessageBuilder);

/// The text that a message builder holds.
pub uninterp spec fn built(builder: MessageBuilder) -> Seq<char>;

/// What the message builder makes of a content that it is asked to push
/// bold and safe, before it puts the asterisks around it: the content with
/// invitations, mentions of everyone, marks of writing direction and pairs
/// of asterisks made harmless.
pub uninterp spec fn safe(content: Seq<char>) -> Seq<char>;

/// `text` with every occurrence of `from` replaced by `to`, as
/// `str::replace` does it.
pub uninterp spec fn replaced(text: Seq<char>, from: Seq<char>, to: Seq<char>) -> Seq<char>;

/// A text and a line feed.
pub open spec fn line(text: Seq<char>) -> Seq<char> {
    text + seq!['\n']
}

/// A text between two pairs of asterisks, which the platform shows in bold.
pub open spec fn bold(text: Seq<char>) -> Seq<char> {
    seq!['*', '*'] + text + seq!['*', '*']
}

/// The digit for a number below ten.
pub open spec fn digit(n: nat) -> char {
    (0x30 + n) as char
}

/// A number in decimal digits, without leading zeros.
pub open spec fn decimal(n: nat) -> Seq<char>
    decreases n,
{
    if n < 10 {
        seq![digit(n)]
    } else {
        decimal(n / 10).push(digit(n % 10))
    }
}

/// `MessageBuilder::new`: a builder that holds no text yet.
#[verifier::external_body]
pub(crate) fn new_builder() -> (builder: MessageBuilder)
    ensures
        built(builder) == Seq::<char>::empty(),
{
    MessageBuilder::new()
}

/// `MessageBuilder::push`: the content is put behind the text that the
/// builder holds, as it is.
#[verifier::external_body]
pub(crate) fn push_text(builder: &mut MessageBuilder, content: &str)
    ensures
        built(*final(builder)) == built(*old(builder)) + content@,
{
    builder.push(content);
}

/// `MessageBuilder::push_line`: the content, then a line feed.
#[verifier::external_body]
pub(crate) fn push_line(builder: &mut MessageBuilder, content: &str)
    ensures
        built(*final(builder)) == built(*old(builder)) + line(content@),
{
    builder.push_line(content);
}

/// `MessageBuilder::push_bold_line`: the content between two pairs of
/// asterisks, then a line feed.
#[verifier::external_body]
pub(crate) fn push_bold_line(builder: &mut MessageBuilder, content: &str)
    ensures
        built(*final(builder)) == built(*old(builder)) + line(bold(content@)),
{
    builder.push_bold_line(content);
}

/// `MessageBuilder::push_bold_safe`: two asterisks, what the builder makes
/// of the content to render it harmless, and two asterisks. What that is
/// has the name [`safe`]; it depends on the content alone.
#[verifier::external_body]
pub(crate) fn push_bold_safe(builder: &mut MessageBuilder, content: &str)
    ensures
        built(*final(builder)) == built(*old(builder)) + bold(safe(content@)),
{
    builder.push_bold_safe(content);
}

/// `MessageBuilder::build`: the text that the builder holds.
#[verifier::external_body]
pub(crate) fn build(builder: MessageBuilder) -> (text: String)
    ensures
        text@ == built(builder),
{
    let mut builder = builder;
    builder.build()
}

/// `str::replace`: a new text in which every match of `from` in `text` is
/// replaced by `to`. What that is has the name [`replaced`].
#[verifier::external_body]
pub(crate) fn replace_all(text: &str, from: &str, to: &str) -> (out: String)
    ensures
        out@ == replaced(text@, from@, to@),
{
    text.replace(from, to)
}

/// `u64::to_string`: the number in decimal digits.
#[verifier::external_body]
pub(crate) fn decimal_text(n: u64) -> (text: String)
    ensures
        text@ == decimal(n as nat),
{
    n.to_string()
}

} // verus!
