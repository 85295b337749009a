use sms_client::config::Configure;
use sms_client::dispatch::{drain_until_terminate, upstream_step, DispatchAction, InnerCommand};

#[test]
fn test_upstream_step_forwards_and_stops() {
    let action = upstream_step(InnerCommand::Message(String::from("hello")));
    match action {
        DispatchAction::Forward(text) => assert_eq!(text, "hello"),
        DispatchAction::Stop => panic!("a notification must be forwarded"),
    }
    assert!(matches!(
        upstream_step(InnerCommand::Terminate),
        DispatchAction::Stop
    ));
}

#[test]
fn test_drain_until_terminate() {
    let queue = vec![
        InnerCommand::Message(String::from("a")),
        InnerCommand::Message(String::from("b")),
        InnerCommand::Terminate,
        InnerCommand::Message(String::from("c")),
    ];
    // Notifications already queued ahead of the terminate are all handed out,
    // in order; the terminate stops the drain.
    let out = drain_until_terminate(&queue);
    assert_eq!(out, vec![String::from("a"), String::from("b")]);
}

#[test]
fn test_drain_without_terminate_keeps_everything() {
    let queue = vec![
        InnerCommand::Message(String::from("x")),
        InnerCommand::Message(String::from("y")),
    ];
    let out = drain_until_terminate(&queue);
    assert_eq!(out, vec![String::from("x"), String::from("y")]);
    let empty: Vec<InnerCommand> = Vec::new();
    assert_eq!(drain_until_terminate(&empty).len(), 0);
}

#[test]
fn test_configure_upstream() {
    let config = Configure {
        upstream: String::from("https://example.invalid/bot"),
        applications: None,
    };
    assert_eq!(config.get_upstream(), "https://example.invalid/bot");
}
