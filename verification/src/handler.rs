use crate::parser::{parse, spec_parse, Command, CommandView};
use crate::queue::MessageQueue;
use vstd::prelude::*;
use vstd::string::*;

verus! {

/// The queue contents after the request `request` is applied to a queue
/// holding `q`: a publish appends its message, a retrieve drops the
/// oldest message if there is one, and a request that does not parse
/// leaves the queue untouched.
pub open spec fn next_queue(q: Seq<Seq<char>>, request: Seq<char>) -> Seq<Seq<char>> {
    match spec_parse(request) {
        Ok(CommandView::Publish(message)) => q.push(message),
        Ok(CommandView::Retrieve) => if q.len() == 0 {
            q
        } else {
            q.drop_first()
        },
        Err(_) => q,
    }
}

/// The response text for the request `request` applied to a queue
/// holding `q`. Every response is newline-terminated:
///
/// - a publish is answered `OK`;
/// - a retrieve is answered `Got: <message>` with the oldest message,
///   or `Error: Queue empty!` when there is none;
/// - a request that does not parse is answered `Error: <reason>!`.
pub open spec fn spec_response(q: Seq<Seq<char>>, request: Seq<char>) -> Seq<char> {
    match spec_parse(request) {
        Ok(CommandView::Publish(_)) => "OK\n"@,
        Ok(CommandView::Retrieve) => if q.len() == 0 {
            "Error: Queue empty!\n"@
        } else {
            "Got: "@ + q[0] + "\n"@
        },
        Err(e) => "Error: "@ + e.spec_message() + "!\n"@,
    }
}

/// Drives one request/response exchange against the queue: parses
/// `input`, applies the parsed command (if any) to `queue`, and returns
/// the response text to send back.
///
/// The queue is read or changed only through its two operations, after
/// parsing succeeded; a request that does not parse never touches it.
/// A retrieve on an empty queue leaves the queue empty and is answered
/// with the queue-empty response: an expected outcome, not a failure.
pub fn handle_request(input: &str, queue: &mut MessageQueue) -> (response: String)
    ensures
        final(queue)@ == next_queue(old(queue)@, input@),
        response@ == spec_response(old(queue)@, input@),
{
    match parse(input) {
        Ok(Command::Publish(message)) => {
            queue.enqueue(message);
            "OK\n".to_owned()
        },
        Ok(Command::Retrieve) => match queue.dequeue() {
            Some(message) => {
                let mut response = "Got: ".to_owned();
                response.append(message.as_str());
                response.append("\n");
                response
            },
            None => "Error: Queue empty!\n".to_owned(),
        },
        Err(e) => {
            let reason = e.message();
            let mut response = "Error: ".to_owned();
            response.append(reason.as_str());
            response.append("!\n");
            response
        },
    }
}

} // verus!
