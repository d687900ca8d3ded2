use bitcoin_rpc_web::rpc_client::{RpcClient, RpcConfig};
use bitcoin_rpc_web::rpc_page::{
    batch_answer, batch_request, handle_rpc, single_request, single_response, RpcAction, RpcEvent,
    RpcState,
};
use bitcoin_rpc_web::schema::SchemaIndex;

fn page() -> RpcState {
    RpcState::new(SchemaIndex::from_str(
        r#"{"methods": [
            {"name": "getblockcount", "tags": [{"name": "blockchain"}]},
            {"name": "stop", "tags": [{"name": "control"}]},
            {"name": "uptime", "tags": [{"name": "control"}]}
        ]}"#,
    ))
}

#[test]
fn a_new_page_collapses_every_category() {
    let state = page();
    assert_eq!(state.collapsed_categories, vec!["blockchain", "control", "control"]);
    assert_eq!(state.selected_method.as_deref(), Some("getblockchaininfo"));
    assert_eq!(state.params_input, "[]");
    assert_eq!(state.batch_input, "[]");
    assert!(!state.batch_mode && !state.execute_in_flight);
    assert!(state.schema.is_some() && state.schema_error.is_none());

    let broken = RpcState::new(Err("no schema".to_string()));
    assert!(broken.schema.is_none());
    assert_eq!(broken.schema_error.as_deref(), Some("no schema"));
    assert!(broken.collapsed_categories.is_empty());
}

#[test]
fn toggling_opens_and_collapses_a_category() {
    let mut state = page();
    handle_rpc(&mut state, RpcEvent::CategoryToggled("control".to_string()));
    assert_eq!(state.collapsed_categories, vec!["blockchain"]);
    handle_rpc(&mut state, RpcEvent::CategoryToggled("control".to_string()));
    assert_eq!(state.collapsed_categories, vec!["blockchain", "control"]);
    handle_rpc(&mut state, RpcEvent::CategoryToggled("wallet".to_string()));
    assert_eq!(state.collapsed_categories, vec!["blockchain", "control", "wallet"]);
    handle_rpc(&mut state, RpcEvent::CategoryToggled("blockchain".to_string()));
    assert_eq!(state.collapsed_categories, vec!["control", "wallet"]);
}

#[test]
fn edits_set_their_field_and_clear_the_error() {
    let mut state = page();
    state.error = Some("old".to_string());
    handle_rpc(&mut state, RpcEvent::SearchChanged("mem".to_string()));
    assert_eq!(state.search, "mem");
    assert_eq!(state.error.as_deref(), Some("old"));
    handle_rpc(&mut state, RpcEvent::MethodSelected("stop".to_string()));
    assert_eq!(state.selected_method.as_deref(), Some("stop"));
    assert!(state.error.is_none());
    state.error = Some("old".to_string());
    handle_rpc(&mut state, RpcEvent::ParamsChanged("[1]".to_string()));
    assert_eq!(state.params_input, "[1]");
    assert!(state.error.is_none());
    handle_rpc(&mut state, RpcEvent::BatchChanged("[{}]".to_string()));
    assert_eq!(state.batch_input, "[{}]");
    handle_rpc(&mut state, RpcEvent::BatchModeToggled(true));
    assert!(state.batch_mode);
}

#[test]
fn executing_runs_one_call_or_a_batch() {
    let mut state = page();
    state.response = Some("old".to_string());
    handle_rpc(&mut state, RpcEvent::ParamsChanged("[7]".to_string()));
    let action = handle_rpc(&mut state, RpcEvent::ExecutePressed);
    assert!(matches!(
        action,
        RpcAction::RunSingle { ref method, ref params_text }
            if method == "getblockchaininfo" && params_text == "[7]"
    ));
    assert!(state.execute_in_flight);
    assert!(state.response.is_none());
    assert!(matches!(handle_rpc(&mut state, RpcEvent::ExecutePressed), RpcAction::Idle));

    handle_rpc(&mut state, RpcEvent::ExecuteFinished(Ok("{}".to_string())));
    assert!(!state.execute_in_flight);
    assert_eq!(state.response.as_deref(), Some("{}"));
    handle_rpc(&mut state, RpcEvent::ExecuteFinished(Err("down".to_string())));
    assert_eq!(state.error.as_deref(), Some("down"));
    assert!(state.response.is_none());

    handle_rpc(&mut state, RpcEvent::BatchModeToggled(true));
    handle_rpc(&mut state, RpcEvent::BatchChanged("[1]".to_string()));
    let action = handle_rpc(&mut state, RpcEvent::ExecutePressed);
    assert!(matches!(action, RpcAction::RunBatch { ref batch_text } if batch_text == "[1]"));

    let mut unselected = page();
    unselected.selected_method = None;
    let action = handle_rpc(&mut unselected, RpcEvent::ExecutePressed);
    assert!(matches!(action, RpcAction::Idle));
    assert!(!unselected.execute_in_flight);
    assert_eq!(unselected.error.as_deref(), Some("Select an RPC method first"));
}

#[test]
fn requests_are_made_of_the_inputs() {
    let client = RpcClient::new(RpcConfig::default());
    let request = single_request(&client, "getblock", r#"["00", 1]"#).unwrap();
    assert_eq!(request.body, r#"{"id":1,"jsonrpc":"2.0","method":"getblock","params":["00",1]}"#);
    assert!(single_request(&client, "getblock", "[").unwrap_err().starts_with("invalid params json: "));

    let request = batch_request(&client, r#"[{"method": "uptime"}]"#).unwrap();
    assert_eq!(request.body, r#"[{"method":"uptime"}]"#);
    assert_eq!(
        batch_request(&client, r#"{"method": "uptime"}"#).unwrap_err(),
        "batch mode expects a JSON array"
    );
    assert!(batch_request(&client, "nope").unwrap_err().starts_with("invalid batch json: "));
}

#[test]
fn answers_are_shown_indented() {
    assert_eq!(
        single_response(r#"{"result": {"blocks": 5}, "error": null}"#).unwrap(),
        "{\n  \"blocks\": 5\n}"
    );
    assert_eq!(
        single_response(r#"{"error": {"code": -1, "message": "no"}}"#).unwrap_err(),
        "rpc error: no"
    );
    assert_eq!(
        single_response(r#"{"id": 1}"#).unwrap_err(),
        "invalid response: missing result field"
    );
    assert!(single_response("<html>").unwrap_err().starts_with("invalid response: "));
    assert_eq!(batch_answer("[1,2]").unwrap(), "[\n  1,\n  2\n]");
    assert!(batch_answer("").is_err());
}
