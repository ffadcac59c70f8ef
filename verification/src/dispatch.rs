//! The dispatcher's parse step: from the text of a message, or the name and
//! options of a structured command, to one command of a closed set.

use crate::pattern::{strip_anchors, without_anchors};
use crate::text::{char_is_space, is_space, text_of, to_chars};
use vstd::prelude::*;

verus! {

/// Why a command could not be read.
#[derive(Clone, Copy, Debug, PartialEq, Eq, Structural)]
pub enum ParseError {
    /// No keyword: nothing but white space, or a quote that is not closed on
    /// its line.
    MissingKeyword,
    /// Nothing stands after the keyword and its separator.
    EmptyReply,
}

/// The character that opens and closes a keyword of several words.
pub open spec fn is_quote(c: char) -> bool {
    c == '"'
}

/// The character that ends a line.
pub open spec fn is_line_end(c: char) -> bool {
    c == '\n'
}

/// The first index from `from` on at which `s` holds white space; the length
/// of `s` where it holds none.
pub open spec fn next_space(s: Seq<char>, from: int) -> int
    decreases s.len() - from,
{
    if from >= s.len() {
        s.len() as int
    } else if is_space(s[from]) {
        from
    } else {
        next_space(s, from + 1)
    }
}

/// The first index from `from` on at which `s` holds anything but white
/// space; the length of `s` where it holds nothing else.
pub open spec fn next_word(s: Seq<char>, from: int) -> int
    decreases s.len() - from,
{
    if from >= s.len() {
        s.len() as int
    } else if !is_space(s[from]) {
        from
    } else {
        next_word(s, from + 1)
    }
}

/// The index at which the first line of `s` ends: that of its first line
/// break from `from` on, or the length of `s`.
pub open spec fn line_end(s: Seq<char>, from: int) -> int
    decreases s.len() - from,
{
    if from >= s.len() {
        s.len() as int
    } else if is_line_end(s[from]) {
        from
    } else {
        line_end(s, from + 1)
    }
}

/// The first index from `from` on at which `s` holds a quote; the length of
/// `s` where it holds none.
pub open spec fn next_quote(s: Seq<char>, from: int) -> int
    decreases s.len() - from,
{
    if from >= s.len() {
        s.len() as int
    } else if is_quote(s[from]) {
        from
    } else {
        next_quote(s, from + 1)
    }
}

/// What follows the separator at index `at`: the reply, exactly as typed.
pub open spec fn after_separator(s: Seq<char>, at: int) -> Seq<char> {
    if at + 1 <= s.len() {
        s.skip(at + 1)
    } else {
        Seq::empty()
    }
}

/// A keyword with its reply; the reply must not be empty.
pub open spec fn with_reply(keyword: Seq<char>, reply: Seq<char>) -> Result<
    (Seq<char>, Seq<char>),
    ParseError,
> {
    if reply.len() == 0 {
        Err(ParseError::EmptyReply)
    } else {
        Ok((keyword, reply))
    }
}

/// The keyword and the reply that the body of a `set` command gives.
///
/// A body that opens with a quote gives the keyword between that quote and
/// the next one, which must stand on the first line. Any other body gives
/// its first word. One character separates the keyword, or its closing
/// quote, from the reply, which is taken as typed, quotes and all.
pub open spec fn parsed_set(body: Seq<char>) -> Result<(Seq<char>, Seq<char>), ParseError> {
    if body.len() > 0 && is_quote(body[0]) {
        let close = next_quote(body, 1);
        if close >= line_end(body, 0) {
            Err(ParseError::MissingKeyword)
        } else {
            with_reply(body.subrange(1, close), after_separator(body, close + 1))
        }
    } else {
        let start = next_word(body, 0);
        if start == body.len() {
            Err(ParseError::MissingKeyword)
        } else {
            let end = next_space(body, start);
            with_reply(body.subrange(start, end), after_separator(body, end))
        }
    }
}

fn scan_space(chars: &Vec<char>, from: usize) -> (at: usize)
    requires
        from <= chars.len(),
    ensures
        at == next_space(chars@, from as int),
        from <= at <= chars.len(),
{
    let mut at = from;
    while at < chars.len() && !char_is_space(chars[at])
        invariant
            from <= at <= chars.len(),
            next_space(chars@, at as int) == next_space(chars@, from as int),
        decreases chars.len() - at,
    {
        at += 1;
    }
    at
}

fn scan_word(chars: &Vec<char>, from: usize) -> (at: usize)
    requires
        from <= chars.len(),
    ensures
        at == next_word(chars@, from as int),
        from <= at <= chars.len(),
{
    let mut at = from;
    while at < chars.len() && char_is_space(chars[at])
        invariant
            from <= at <= chars.len(),
            next_word(chars@, at as int) == next_word(chars@, from as int),
        decreases chars.len() - at,
    {
        at += 1;
    }
    at
}

fn scan_line_end(chars: &Vec<char>, from: usize) -> (at: usize)
    requires
        from <= chars.len(),
    ensures
        at == line_end(chars@, from as int),
        from <= at <= chars.len(),
{
    let mut at = from;
    while at < chars.len() && chars[at] != '\n'
        invariant
            from <= at <= chars.len(),
            line_end(chars@, at as int) == line_end(chars@, from as int),
        decreases chars.len() - at,
    {
        at += 1;
    }
    at
}

fn scan_quote(chars: &Vec<char>, from: usize) -> (at: usize)
    requires
        from <= chars.len(),
    ensures
        at == next_quote(chars@, from as int),
        from <= at <= chars.len(),
{
    let mut at = from;
    while at < chars.len() && chars[at] != '"'
        invariant
            from <= at <= chars.len(),
            next_quote(chars@, at as int) == next_quote(chars@, from as int),
        decreases chars.len() - at,
    {
        at += 1;
    }
    at
}

fn reply_after(chars: &Vec<char>, at: usize) -> (reply: String)
    requires
        at <= chars.len(),
    ensures
        reply@ == after_separator(chars@, at as int),
{
    if at < chars.len() {
        let reply = text_of(chars, at + 1, chars.len());
        assert(chars@.subrange(at + 1, chars@.len() as int) =~= chars@.skip(at + 1));
        reply
    } else {
        String::new()
    }
}

/// The view of a keyword with its reply.
pub open spec fn pair_text(pair: (String, String)) -> (Seq<char>, Seq<char>) {
    (pair.0@, pair.1@)
}

/// The view of what [`parse_set_body`] returns.
pub open spec fn parse_view(r: Result<(String, String), ParseError>) -> Result<
    (Seq<char>, Seq<char>),
    ParseError,
> {
    match r {
        Ok(pair) => Ok(pair_text(pair)),
        Err(e) => Err(e),
    }
}

/// Reads the keyword and the reply from the body of a `set` command.
pub fn parse_set_body(body: &str) -> (r: Result<(String, String), ParseError>)
    ensures
        parse_view(r) == parsed_set(body@),
{
    let chars = to_chars(body);
    if chars.len() > 0 && chars[0] == '"' {
        let end = scan_line_end(&chars, 0);
        let close = scan_quote(&chars, 1);
        if close >= end {
            return Err(ParseError::MissingKeyword);
        }
        let reply = reply_after(&chars, close + 1);
        if reply.as_str().is_empty() {
            return Err(ParseError::EmptyReply);
        }
        Ok((text_of(&chars, 1, close), reply))
    } else {
        let start = scan_word(&chars, 0);
        if start == chars.len() {
            return Err(ParseError::MissingKeyword);
        }
        let end = scan_space(&chars, start);
        let reply = reply_after(&chars, end);
        if reply.as_str().is_empty() {
            return Err(ParseError::EmptyReply);
        }
        Ok((text_of(&chars, start, end), reply))
    }
}

} // verus!

verus! {

/// The word that awards a point.
pub const AWARD_WORD: &'static str = "based";

/// The word that asks for a picture.
pub const FETCH_WORD: &'static str = "gank";

/// The text that asks for the scores.
pub const SCORES_COMMAND: &'static str = "!basedstats";

/// The text that asks for the responses.
pub const LIST_COMMAND: &'static str = "!list";

/// What a `set` command begins with; the body follows.
pub const SET_PREFIX: &'static str = "!set ";

/// The name of the structured command that asks for the scores.
pub const SCORES_NAME: &'static str = "basedstats";

/// The name of the structured command that asks for the responses.
pub const LIST_NAME: &'static str = "listresponses";

/// The name of the structured command that adds a response.
pub const SET_NAME: &'static str = "setresp";

/// The name of the structured command that removes a response.
pub const REMOVE_NAME: &'static str = "delresp";

/// The option that holds the keyword.
pub const KEYWORD_OPTION: &'static str = "fraza";

/// The option that holds the reply.
pub const REPLY_OPTION: &'static str = "odpowiedz";

/// What a message or a structured command asks for.
#[derive(Debug)]
pub enum Command {
    /// Nothing.
    Nothing,
    /// A point for another user.
    Award,
    /// The scores of the community.
    ListScores,
    /// The responses of the community.
    ListResponses,
    /// A new response.
    AddResponse { keyword: String, reply: String },
    /// The end of a response.
    RemoveResponse { keyword: String },
    /// A picture drawn at random.
    FetchAttachment,
    /// A command that could not be read.
    Malformed(ParseError),
}

/// A command as a mathematical value.
pub enum CommandView {
    Nothing,
    Award,
    ListScores,
    ListResponses,
    AddResponse { keyword: Seq<char>, reply: Seq<char> },
    RemoveResponse { keyword: Seq<char> },
    FetchAttachment,
    Malformed(ParseError),
}

impl View for Command {
    type V = CommandView;

    open spec fn view(&self) -> CommandView {
        match *self {
            Command::Nothing => CommandView::Nothing,
            Command::Award => CommandView::Award,
            Command::ListScores => CommandView::ListScores,
            Command::ListResponses => CommandView::ListResponses,
            Command::AddResponse { keyword, reply } => CommandView::AddResponse {
                keyword: keyword@,
                reply: reply@,
            },
            Command::RemoveResponse { keyword } => CommandView::RemoveResponse { keyword: keyword@ },
            Command::FetchAttachment => CommandView::FetchAttachment,
            Command::Malformed(e) => CommandView::Malformed(e),
        }
    }
}

/// The command that adds what the body of a `set` command gives, or the
/// reason why it gives nothing.
pub open spec fn set_command(parsed: Result<(Seq<char>, Seq<char>), ParseError>) -> CommandView {
    match parsed {
        Ok(pair) => CommandView::AddResponse { keyword: pair.0, reply: pair.1 },
        Err(e) => CommandView::Malformed(e),
    }
}

/// The command that the text of a message stands for: one of the four exact
/// texts, or the `set` prefix with its body, or nothing.
pub open spec fn classified(content: Seq<char>) -> CommandView {
    if content == FETCH_WORD@ {
        CommandView::FetchAttachment
    } else if content == AWARD_WORD@ {
        CommandView::Award
    } else if content == SCORES_COMMAND@ {
        CommandView::ListScores
    } else if content == LIST_COMMAND@ {
        CommandView::ListResponses
    } else if SET_PREFIX@.is_prefix_of(content) {
        set_command(parsed_set(content.skip(SET_PREFIX@.len() as int)))
    } else {
        CommandView::Nothing
    }
}

/// The character that the texts of commands begin with.
pub const COMMAND_PREFIX: char = '!';

/// Whether `content` begins with the command prefix.
pub open spec fn is_prefixed(content: Seq<char>) -> bool {
    content.len() > 0 && content[0] == COMMAND_PREFIX
}

/// Whether a message is a command: it stands for one, or it begins with the
/// command prefix.
pub open spec fn is_command(content: Seq<char>) -> bool {
    classified(content) !is Nothing || is_prefixed(content)
}

/// Reads the text of a message as a command.
pub fn classify_text(content: &str) -> (command: Command)
    ensures
        command@ == classified(content@),
{
    if crate::text::same_text(content, FETCH_WORD) {
        Command::FetchAttachment
    } else if crate::text::same_text(content, AWARD_WORD) {
        Command::Award
    } else if crate::text::same_text(content, SCORES_COMMAND) {
        Command::ListScores
    } else if crate::text::same_text(content, LIST_COMMAND) {
        Command::ListResponses
    } else {
        let chars = to_chars(content);
        let prefix = to_chars(SET_PREFIX);
        if crate::text::has_prefix(&chars, &prefix) {
            let body = text_of(&chars, prefix.len(), chars.len());
            assert(chars@.subrange(prefix@.len() as int, chars@.len() as int) =~= content@.skip(
                SET_PREFIX@.len() as int,
            ));
            match parse_set_body(body.as_str()) {
                Ok((keyword, reply)) => Command::AddResponse { keyword, reply },
                Err(e) => Command::Malformed(e),
            }
        } else {
            Command::Nothing
        }
    }
}

/// Tests `content` for the command prefix.
pub fn begins_with_prefix(content: &str) -> (held: bool)
    ensures
        held == is_prefixed(content@),
{
    let mut chars = content.chars();
    match chars.next() {
        Some(first) => first == COMMAND_PREFIX,
        None => false,
    }
}

/// Whether the text of a message makes it a command.
pub fn is_command_text(content: &str) -> (held: bool)
    ensures
        held == is_command(content@),
{
    match classify_text(content) {
        Command::Nothing => begins_with_prefix(content),
        _ => true,
    }
}

} // verus!

verus! {

/// The names and values of `options`, in order.
pub open spec fn option_texts(options: Seq<(String, String)>) -> Seq<(Seq<char>, Seq<char>)> {
    options.map_values(|option: (String, String)| (option.0@, option.1@))
}

/// The value of the last of `options` that is named `name`.
pub open spec fn option_value(options: Seq<(Seq<char>, Seq<char>)>, name: Seq<char>) -> Option<
    Seq<char>,
>
    decreases options.len(),
{
    if options.len() == 0 {
        None
    } else if options.last().0 == name {
        Some(options.last().1)
    } else {
        option_value(options.drop_last(), name)
    }
}

/// The command that adds the response of the two options, where both are
/// there and the reply is not empty.
pub open spec fn set_from_options(options: Seq<(Seq<char>, Seq<char>)>) -> CommandView {
    match option_value(options, KEYWORD_OPTION@) {
        None => CommandView::Malformed(ParseError::MissingKeyword),
        Some(keyword) => match option_value(options, REPLY_OPTION@) {
            None => CommandView::Malformed(ParseError::EmptyReply),
            Some(reply) => set_command(with_reply(keyword, reply)),
        },
    }
}

/// The command that removes the response named by the first option, given
/// bare or between anchors.
pub open spec fn remove_from_options(options: Seq<(Seq<char>, Seq<char>)>) -> CommandView {
    if options.len() == 0 {
        CommandView::Malformed(ParseError::MissingKeyword)
    } else {
        CommandView::RemoveResponse { keyword: without_anchors(options[0].1) }
    }
}

/// The command that a structured command stands for, by its name.
pub open spec fn classified_command(
    name: Seq<char>,
    options: Seq<(Seq<char>, Seq<char>)>,
) -> CommandView {
    if name == SCORES_NAME@ {
        CommandView::ListScores
    } else if name == LIST_NAME@ {
        CommandView::ListResponses
    } else if name == SET_NAME@ {
        set_from_options(options)
    } else if name == REMOVE_NAME@ {
        remove_from_options(options)
    } else {
        CommandView::Nothing
    }
}

fn find_option(options: &Vec<(String, String)>, name: &str) -> (found: Option<usize>)
    ensures
        found matches Some(at) ==> at < options.len() && option_value(
            option_texts(options@),
            name@,
        ) == Some(options[at as int].1@),
        found is None ==> option_value(option_texts(options@), name@) is None,
{
    let wanted = name.to_owned();
    let ghost texts = option_texts(options@);
    let mut i: usize = options.len();
    assert(texts.take(i as int) =~= texts);
    while i > 0
        invariant
            i <= options.len(),
            wanted@ == name@,
            texts == option_texts(options@),
            option_value(texts.take(i as int), name@) == option_value(texts, name@),
        decreases i,
    {
        let ghost upto = texts.take(i as int);
        assert(upto.last() == texts[i - 1]);
        assert(texts[i - 1] == (options[i - 1].0@, options[i - 1].1@));
        assert(upto.drop_last() =~= texts.take(i - 1));
        if options[i - 1].0 == wanted {
            return Some(i - 1);
        }
        i -= 1;
    }
    None
}

/// Reads a structured command, given by its name and its options, each a
/// name with a value.
pub fn classify_command(name: &str, options: &Vec<(String, String)>) -> (command: Command)
    ensures
        command@ == classified_command(name@, option_texts(options@)),
{
    if crate::text::same_text(name, SCORES_NAME) {
        Command::ListScores
    } else if crate::text::same_text(name, LIST_NAME) {
        Command::ListResponses
    } else if crate::text::same_text(name, SET_NAME) {
        match find_option(options, KEYWORD_OPTION) {
            None => Command::Malformed(ParseError::MissingKeyword),
            Some(k) => match find_option(options, REPLY_OPTION) {
                None => Command::Malformed(ParseError::EmptyReply),
                Some(r) => {
                    if options[r].1.as_str().is_empty() {
                        Command::Malformed(ParseError::EmptyReply)
                    } else {
                        Command::AddResponse {
                            keyword: options[k].1.clone(),
                            reply: options[r].1.clone(),
                        }
                    }
                },
            },
        }
    } else if crate::text::same_text(name, REMOVE_NAME) {
        if options.len() == 0 {
            Command::Malformed(ParseError::MissingKeyword)
        } else {
            assert(option_texts(options@)[0] == (options[0].0@, options[0].1@));
            Command::RemoveResponse { keyword: strip_anchors(options[0].1.as_str()) }
        }
    } else {
        Command::Nothing
    }
}

} // verus!
