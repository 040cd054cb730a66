use llama_bridge::error::FailKind;
use llama_bridge::models::{list_outcome, model_names, ModelRecord};

fn record(name: &str, modified_at: &str, size: u64) -> ModelRecord {
    ModelRecord { name: name.to_string(), modified_at: modified_at.to_string(), size }
}

#[test]
fn names_keep_order_and_drop_metadata() {
    let records = vec![
        record("llama3:8b", "2024-05-01T10:00:00Z", 4_661_224_676),
        record("mistral:latest", "2024-04-02T09:30:00Z", 4_109_865_159),
        record("phi3", "2024-06-11T12:00:00Z", 2_176_178_913),
    ];
    assert_eq!(model_names(&records), vec!["llama3:8b", "mistral:latest", "phi3"]);
}

#[test]
fn no_models_gives_no_names() {
    assert!(model_names(&Vec::new()).is_empty());
}

#[test]
fn duplicate_names_are_kept() {
    let records = vec![record("a", "t1", 1), record("a", "t2", 2)];
    assert_eq!(model_names(&records), vec!["a", "a"]);
}

#[test]
fn listing_success_yields_names() {
    let r = list_outcome(Ok(vec![record("qwen2", "t", 7)]));
    assert_eq!(r.ok(), Some(vec!["qwen2".to_string()]));
}

#[test]
fn listing_failure_is_a_connection_error() {
    let r = list_outcome(Err("Reqwest(connection refused)".to_string()));
    match r {
        Err(e) => {
            assert_eq!(e.kind, FailKind::Connection);
            assert_eq!(e.reason(), "Failed to list models: Reqwest(connection refused)");
        }
        Ok(_) => panic!("a failed listing must fail"),
    }
}
