use vstd::prelude::*;
use vstd::string::*;

verus! {

/// One client command, parsed from the text of a request.
///
/// A command is immutable: it is built once per connection from the raw
/// request and consumed exactly once by the dispatch.
pub enum Command {
    /// Append the carried message at the tail of the queue.
    Publish(String),
    /// Remove and return the oldest message of the queue.
    Retrieve,
}

/// The spec-level value of a [`Command`]: the same tag, with the
/// message as a sequence of characters.
pub enum CommandView {
    Publish(Seq<char>),
    Retrieve,
}

impl View for Command {
    type V = CommandView;

    open spec fn view(&self) -> CommandView {
        match self {
            Command::Publish(message) => CommandView::Publish(message@),
            Command::Retrieve => CommandView::Retrieve,
        }
    }
}

/// Why a request failed to parse. Each variant names one way the wire
/// grammar was violated; [`ParseError::message`] gives the reason text
/// used in the error response.
#[derive(Clone, Copy, Debug, PartialEq, Eq, Structural)]
pub enum ParseError {
    /// The request was empty (at most a line terminator).
    EmptyMessage,
    /// More data followed the first line terminator.
    TrailingData,
    /// The command keyword is not `PUBLISH` or `RETRIEVE`.
    UnknownCommand,
    /// `RETRIEVE` was followed by a payload, which it does not take.
    UnexpectedPayload,
    /// `PUBLISH` came without the payload it requires.
    MissingPayload,
}

/// The request with one final line feed, if present, removed.
pub open spec fn strip_final_newline(s: Seq<char>) -> Seq<char> {
    if s.len() > 0 && s.last() == '\n' {
        s.drop_last()
    } else {
        s
    }
}

/// `prefix` is an initial segment of `s`.
pub open spec fn has_prefix(s: Seq<char>, prefix: Seq<char>) -> bool {
    s.len() >= prefix.len() && s.subrange(0, prefix.len() as int) == prefix
}

/// The wire grammar. A request is one command line, optionally
/// terminated by a single final line feed:
///
/// - `RETRIEVE` parses to [`CommandView::Retrieve`];
/// - `PUBLISH <payload>` parses to [`CommandView::Publish`] carrying
///   everything after the single space, which may itself be empty;
/// - any character after a non-final line feed is [`ParseError::TrailingData`];
/// - an empty line is [`ParseError::EmptyMessage`];
/// - `RETRIEVE <payload>` is [`ParseError::UnexpectedPayload`];
/// - a bare `PUBLISH` is [`ParseError::MissingPayload`];
/// - every other line is [`ParseError::UnknownCommand`].
pub open spec fn spec_parse(s: Seq<char>) -> Result<CommandView, ParseError> {
    let line = strip_final_newline(s);
    if line.contains('\n') {
        Err(ParseError::TrailingData)
    } else if line.len() == 0 {
        Err(ParseError::EmptyMessage)
    } else if line == "RETRIEVE"@ {
        Ok(CommandView::Retrieve)
    } else if has_prefix(line, "RETRIEVE "@) {
        Err(ParseError::UnexpectedPayload)
    } else if line == "PUBLISH"@ {
        Err(ParseError::MissingPayload)
    } else if has_prefix(line, "PUBLISH "@) {
        Ok(CommandView::Publish(line.skip("PUBLISH "@.len() as int)))
    } else {
        Err(ParseError::UnknownCommand)
    }
}

/// The characters of `s` and `t` are equal.
fn str_eq(s: &str, t: &str) -> (r: bool)
    ensures
        r == (s@ == t@),
{
    let n = s.unicode_len();
    let m = t.unicode_len();
    if n != m {
        return false;
    }
    let mut i: usize = 0;
    while i < n
        invariant
            n == s@.len(),
            n == t@.len(),
            i <= n,
            forall|j: int| 0 <= j < i ==> s@[j] == t@[j],
        decreases n - i,
    {
        if s.get_char(i) != t.get_char(i) {
            return false;
        }
        i = i + 1;
    }
    proof {
        assert(s@ =~= t@);
    }
    true
}

/// `s` begins with the characters of `prefix`.
fn str_has_prefix(s: &str, prefix: &str) -> (r: bool)
    ensures
        r == has_prefix(s@, prefix@),
{
    let n = s.unicode_len();
    let m = prefix.unicode_len();
    if n < m {
        return false;
    }
    let mut i: usize = 0;
    while i < m
        invariant
            n == s@.len(),
            m == prefix@.len(),
            m <= n,
            i <= m,
            forall|j: int| 0 <= j < i ==> s@[j] == prefix@[j],
        decreases m - i,
    {
        if s.get_char(i) != prefix.get_char(i) {
            proof {
                assert(s@.subrange(0, m as int)[i as int] != prefix@[i as int]);
            }
            return false;
        }
        i = i + 1;
    }
    proof {
        assert(s@.subrange(0, m as int) =~= prefix@);
    }
    true
}

/// Parses the raw text of one request into a [`Command`].
///
/// A pure function of the request text: it performs no I/O, touches no
/// queue, and returns exactly what [`spec_parse`] gives on the text.
pub fn parse(input: &str) -> (result: Result<Command, ParseError>)
    ensures
        (match result {
            Ok(command) => spec_parse(input@) == Ok::<CommandView, ParseError>(command@),
            Err(e) => spec_parse(input@) == Err::<CommandView, ParseError>(e),
        }),
{
    let n = input.unicode_len();
    let line: &str = if n > 0 && input.get_char(n - 1) == '\n' {
        input.substring_char(0, n - 1)
    } else {
        input
    };
    proof {
        assert(line@ =~= strip_final_newline(input@));
    }
    let line_len = line.unicode_len();
    let mut i: usize = 0;
    while i < line_len
        invariant
            line@ == strip_final_newline(input@),
            line_len == line@.len(),
            i <= line_len,
            forall|j: int| 0 <= j < i ==> line@[j] != '\n',
        decreases line_len - i,
    {
        if line.get_char(i) == '\n' {
            proof {
                assert(line@.contains('\n')) by {
                    assert(line@[i as int] == '\n');
                }
            }
            return Err(ParseError::TrailingData);
        }
        i = i + 1;
    }
    assert(!line@.contains('\n'));
    if line_len == 0 {
        return Err(ParseError::EmptyMessage);
    }
    if str_eq(line, "RETRIEVE") {
        return Ok(Command::Retrieve);
    }
    if str_has_prefix(line, "RETRIEVE ") {
        return Err(ParseError::UnexpectedPayload);
    }
    if str_eq(line, "PUBLISH") {
        return Err(ParseError::MissingPayload);
    }
    if str_has_prefix(line, "PUBLISH ") {
        proof {
            reveal_strlit("PUBLISH ");
        }
        let payload = line.substring_char(8, line_len);
        proof {
            assert(payload@ =~= line@.skip("PUBLISH "@.len() as int));
        }
        return Ok(Command::Publish(payload.to_owned()));
    }
    Err(ParseError::UnknownCommand)
}

impl ParseError {
    /// The reason text of this error, as it stands between `Error: `
    /// and `!` in the response to an unparseable request.
    pub open spec fn spec_message(&self) -> Seq<char> {
        match self {
            ParseError::EmptyMessage => "Empty message"@,
            ParseError::TrailingData => "Trailing data"@,
            ParseError::UnknownCommand => "Unknown command"@,
            ParseError::UnexpectedPayload => "Unexpected payload"@,
            ParseError::MissingPayload => "Missing payload"@,
        }
    }

    /// The reason text, for building the error response.
    pub fn message(&self) -> (text: String)
        ensures
            text@ == self.spec_message(),
    {
        match self {
            ParseError::EmptyMessage => "Empty message".to_owned(),
            ParseError::TrailingData => "Trailing data".to_owned(),
            ParseError::UnknownCommand => "Unknown command".to_owned(),
            ParseError::UnexpectedPayload => "Unexpected payload".to_owned(),
            ParseError::MissingPayload => "Missing payload".to_owned(),
        }
    }
}

/// Parsing is deterministic: the parse result is a function of the
/// request text alone, so parsing the same text twice gives the same
/// result both times. (It is also free of side effects: [`spec_parse`]
/// is a mathematical function, and [`parse`] takes nothing but the text
/// — in particular no queue.)
pub proof fn lemma_parse_deterministic(s1: Seq<char>, s2: Seq<char>)
    requires
        s1 == s2,
    ensures
        spec_parse(s1) == spec_parse(s2),
{
}

} // verus!
