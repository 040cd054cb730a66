use llama_bridge::conversation::{ChatRequest, Role, Turn};
use llama_bridge::error::{FailKind, OperationError};

#[test]
fn error_reasons_by_kind() {
    let c = OperationError::new(FailKind::Connection, "refused".to_string());
    let s = OperationError::new(FailKind::Stream, "bad chunk".to_string());
    let d = OperationError::new(FailKind::Delivery, "closed".to_string());
    assert_eq!(c.reason(), "refused");
    assert_eq!(s.reason(), "Stream error bad chunk");
    assert_eq!(d.reason(), "closed");
}

#[test]
fn chat_request_keeps_turn_order() {
    let turns = vec![
        Turn::new(Role::System, "be brief".to_string()),
        Turn::new(Role::User, "hi".to_string()),
        Turn::new(Role::Assistant, "hello".to_string()),
    ];
    let r = ChatRequest::new("llama3".to_string(), turns);
    assert_eq!(r.model, "llama3");
    assert_eq!(r.turns.len(), 3);
    assert_eq!(r.turns[0].role, Role::System);
    assert_eq!(r.turns[1].content, "hi");
    assert_eq!(r.turns[2].role, Role::Assistant);
}
