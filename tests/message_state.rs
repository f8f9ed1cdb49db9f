use blame_lsp::message_state::{MessageState, Notification, Request, RequestId, Response};

type NotState = MessageState<Notification<String>, ()>;
type ReqState = MessageState<Request<String>, Response<String>>;

fn notification(method: &str, params: &str) -> NotState {
    MessageState::Unhandled(Notification { method: method.to_string(), params: params.to_string() })
}

fn request(id: i32, method: &str, params: &str) -> ReqState {
    MessageState::Unhandled(Request {
        id: RequestId::Num(id),
        method: method.to_string(),
        params: params.to_string(),
    })
}

fn number(p: &String) -> Option<u32> {
    p.parse().ok()
}

#[test]
fn first_matching_handler_alone_runs() {
    let mut ran: Vec<&str> = Vec::new();
    let state = notification("textDocument/didOpen", "7")
        .handle("textDocument/didChange", number, |_: u32| -> Result<(), String> {
            ran.push("change");
            Ok(())
        })
        .unwrap()
        .handle("textDocument/didOpen", number, |_: u32| -> Result<(), String> {
            ran.push("open");
            Ok(())
        })
        .unwrap()
        .handle("textDocument/didOpen", number, |_: u32| -> Result<(), String> {
            ran.push("open again");
            Ok(())
        })
        .unwrap();
    assert_eq!(state, MessageState::Handled(()));
    assert_eq!(ran, vec!["open"]);
}

#[test]
fn unmatched_notification_is_kept() {
    let state = notification("exit", "1")
        .handle("textDocument/didOpen", number, |_: u32| -> Result<(), String> { Ok(()) })
        .unwrap();
    assert_eq!(state, notification("exit", "1"));
}

#[test]
fn payload_mismatch_falls_through() {
    let mut seen: Vec<String> = Vec::new();
    let state = notification("m", "not a number")
        .handle("m", number, |_: u32| -> Result<(), String> { panic!("must not run") })
        .unwrap()
        .handle("m", |p: &String| Some(p.clone()), |p: String| -> Result<(), String> {
            seen.push(p);
            Ok(())
        })
        .unwrap();
    assert_eq!(state, MessageState::Handled(()));
    assert_eq!(seen, vec!["not a number".to_string()]);
}

#[test]
fn handler_failure_aborts_the_chain() {
    let r = notification("m", "3")
        .handle("m", number, |_: u32| -> Result<(), String> { Err("broken".to_string()) });
    assert_eq!(r, Err("broken".to_string()));
}

#[test]
fn request_answer_keeps_the_id() {
    let state = request(42, "textDocument/hover", "5")
        .handle("textDocument/codeAction", number, |_: u32| -> Result<String, String> {
            panic!("must not run")
        })
        .unwrap()
        .handle("textDocument/hover", number, |n: u32| -> Result<String, String> {
            Ok(format!("line {n}"))
        })
        .unwrap();
    assert_eq!(
        state,
        MessageState::Handled(Response { id: RequestId::Num(42), result: Some("line 5".to_string()) })
    );
}

#[test]
fn handled_request_passes_through() {
    let done: ReqState = MessageState::Handled(Response {
        id: RequestId::Text("a".to_string()),
        result: None,
    });
    let state = done
        .handle("textDocument/hover", number, |_: u32| -> Result<String, String> {
            panic!("must not run")
        })
        .unwrap();
    assert_eq!(
        state,
        MessageState::Handled(Response { id: RequestId::Text("a".to_string()), result: None })
    );
}

#[test]
fn unmatched_request_keeps_its_id() {
    let state = request(3, "shutdown", "")
        .handle("textDocument/hover", number, |_: u32| -> Result<String, String> {
            panic!("must not run")
        })
        .unwrap();
    assert_eq!(state, request(3, "shutdown", ""));
}
