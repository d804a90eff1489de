use tcp_server::handler::handle_request;
use tcp_server::parser::{parse, Command, ParseError};
use tcp_server::queue::MessageQueue;

fn expect_publish(input: &str, payload: &str) {
    match parse(input) {
        Ok(Command::Publish(m)) => assert_eq!(m, payload),
        Ok(Command::Retrieve) => panic!("parsed {:?} as a retrieve", input),
        Err(e) => panic!("failed to parse {:?}: {:?}", input, e),
    }
}

fn expect_error(input: &str, expected: ParseError) {
    match parse(input) {
        Ok(_) => panic!("parsed {:?} although it is malformed", input),
        Err(e) => assert_eq!(e, expected),
    }
}

#[test]
fn parse_retrieve() {
    assert!(matches!(parse("RETRIEVE\n"), Ok(Command::Retrieve)));
}

#[test]
fn parse_retrieve_without_newline() {
    assert!(matches!(parse("RETRIEVE"), Ok(Command::Retrieve)));
}

#[test]
fn parse_publish() {
    expect_publish("PUBLISH hello\n", "hello");
}

#[test]
fn parse_publish_without_newline() {
    expect_publish("PUBLISH hello", "hello");
}

#[test]
fn parse_publish_keeps_spaces_in_payload() {
    expect_publish("PUBLISH one two three\n", "one two three");
}

#[test]
fn parse_publish_empty_payload() {
    expect_publish("PUBLISH \n", "");
}

#[test]
fn parse_publish_unicode_payload() {
    expect_publish("PUBLISH héllo wörld\n", "héllo wörld");
}

#[test]
fn parse_keyword_must_be_followed_by_a_space() {
    expect_error("PUBLISHx\n", ParseError::UnknownCommand);
    expect_error("RETRIEVEx\n", ParseError::UnknownCommand);
}

#[test]
fn parse_data_after_an_inner_newline_is_trailing() {
    expect_error("PUBLISH a\nb", ParseError::TrailingData);
    expect_error("\n\n", ParseError::TrailingData);
}

#[test]
fn parse_empty_input() {
    expect_error("", ParseError::EmptyMessage);
}

#[test]
fn parse_bare_newline() {
    expect_error("\n", ParseError::EmptyMessage);
}

#[test]
fn parse_trailing_data() {
    expect_error("RETRIEVE\nmore\n", ParseError::TrailingData);
}

#[test]
fn parse_unknown_command() {
    expect_error("FOO\n", ParseError::UnknownCommand);
}

#[test]
fn parse_lowercase_keyword_is_unknown() {
    expect_error("retrieve\n", ParseError::UnknownCommand);
}

#[test]
fn parse_retrieve_with_payload() {
    expect_error("RETRIEVE now\n", ParseError::UnexpectedPayload);
}

#[test]
fn parse_publish_without_payload() {
    expect_error("PUBLISH\n", ParseError::MissingPayload);
}

#[test]
fn parse_twice_gives_the_same_result() {
    for input in ["PUBLISH hello\n", "RETRIEVE\n", "FOO\n", ""] {
        let first = parse(input);
        let second = parse(input);
        match (first, second) {
            (Ok(Command::Publish(a)), Ok(Command::Publish(b))) => assert_eq!(a, b),
            (Ok(Command::Retrieve), Ok(Command::Retrieve)) => (),
            (Err(a), Err(b)) => assert_eq!(a, b),
            _ => panic!("parsing {:?} twice gave different results", input),
        }
    }
}

#[test]
fn error_messages() {
    assert_eq!(ParseError::EmptyMessage.message(), "Empty message");
    assert_eq!(ParseError::TrailingData.message(), "Trailing data");
    assert_eq!(ParseError::UnknownCommand.message(), "Unknown command");
    assert_eq!(ParseError::UnexpectedPayload.message(), "Unexpected payload");
    assert_eq!(ParseError::MissingPayload.message(), "Missing payload");
}

#[test]
fn queue_starts_empty() {
    let q = MessageQueue::new();
    assert_eq!(q.len(), 0);
}

#[test]
fn queue_is_fifo() {
    let mut q = MessageQueue::new();
    let messages = ["first", "second", "third", "fourth"];
    for m in messages {
        q.enqueue(m.to_string());
    }
    assert_eq!(q.len(), messages.len());
    for m in messages {
        assert_eq!(q.dequeue().as_deref(), Some(m));
    }
    assert_eq!(q.len(), 0);
}

#[test]
fn dequeue_on_empty_returns_none_and_keeps_the_queue_empty() {
    let mut q = MessageQueue::new();
    assert_eq!(q.dequeue(), None);
    assert_eq!(q.len(), 0);
    assert_eq!(q.dequeue(), None);
}

#[test]
fn publish_then_retrieve_delivers_each_message_exactly_once() {
    let mut q = MessageQueue::new();
    let n = 50;
    for i in 0..n {
        q.enqueue(format!("message-{}", i));
    }
    for i in 0..n {
        assert_eq!(q.dequeue(), Some(format!("message-{}", i)));
    }
    assert_eq!(q.dequeue(), None);
}

#[test]
fn publish_hello_is_answered_ok() {
    let mut q = MessageQueue::new();
    let response = handle_request("PUBLISH hello\n", &mut q);
    assert_eq!(response, "OK\n");
    assert_eq!(q.len(), 1);
}

#[test]
fn retrieve_returns_the_published_message() {
    let mut q = MessageQueue::new();
    handle_request("PUBLISH hello\n", &mut q);
    let response = handle_request("RETRIEVE\n", &mut q);
    assert_eq!(response, "Got: hello\n");
    assert!(response.contains("hello"));
    assert_eq!(q.len(), 0);
}

#[test]
fn retrieve_on_empty_queue_is_answered_with_the_empty_error() {
    let mut q = MessageQueue::new();
    let response = handle_request("RETRIEVE\n", &mut q);
    assert_eq!(response, "Error: Queue empty!\n");
    assert_eq!(q.len(), 0);
}

#[test]
fn malformed_input_is_answered_with_a_parse_error_and_leaves_the_queue() {
    let mut q = MessageQueue::new();
    handle_request("PUBLISH hello\n", &mut q);
    let response = handle_request("FOO\n", &mut q);
    assert_eq!(response, "Error: Unknown command!\n");
    assert_eq!(q.len(), 1);
}

#[test]
fn concurrent_publishes_then_concurrent_retrieves_deliver_each_message_exactly_once() {
    let runtime = tokio::runtime::Builder::new_multi_thread()
        .worker_threads(4)
        .build()
        .unwrap();
    runtime.block_on(async {
        let queue = std::sync::Arc::new(tokio::sync::Mutex::new(MessageQueue::new()));
        let n = 32;

        let mut publishers = Vec::new();
        for i in 0..n {
            let queue = queue.clone();
            publishers.push(tokio::spawn(async move {
                let request = format!("PUBLISH message-{}\n", i);
                let response = handle_request(&request, &mut *queue.lock().await);
                assert_eq!(response, "OK\n");
            }));
        }
        for publisher in publishers {
            publisher.await.unwrap();
        }

        let mut retrievers = Vec::new();
        for _ in 0..n {
            let queue = queue.clone();
            retrievers.push(tokio::spawn(
                async move { handle_request("RETRIEVE\n", &mut *queue.lock().await) },
            ));
        }
        let mut delivered = Vec::new();
        for retriever in retrievers {
            delivered.push(retriever.await.unwrap());
        }
        let response = handle_request("RETRIEVE\n", &mut *queue.lock().await);
        assert_eq!(response, "Error: Queue empty!\n");

        let mut expected: Vec<String> = (0..n).map(|i| format!("Got: message-{}\n", i)).collect();
        expected.sort();
        delivered.sort();
        assert_eq!(delivered, expected);
    });
}

#[test]
fn two_publishes_then_two_retrieves_deliver_both_messages() {
    let mut q = MessageQueue::new();
    assert_eq!(handle_request("PUBLISH a\n", &mut q), "OK\n");
    assert_eq!(handle_request("PUBLISH b\n", &mut q), "OK\n");
    let third = handle_request("RETRIEVE\n", &mut q);
    let fourth = handle_request("RETRIEVE\n", &mut q);
    assert!(third == "Got: a\n" || third == "Got: b\n");
    if third == "Got: a\n" {
        assert_eq!(fourth, "Got: b\n");
    } else {
        assert_eq!(fourth, "Got: a\n");
    }
    assert_eq!(q.len(), 0);
}
