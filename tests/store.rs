use session_store::error::{close_result, update_result, StoreError, WriteOutcome};
use session_store::keys::{make_hash, make_range, open_time_prefix, sort_key, time_key, Client};
use session_store::record::{get_date_time, open_conversation, Conversation};
use session_store::store::{
    close_all_replacements, latest_open, next_open_query, open_key, open_query, plan_close,
    plan_close_all, plan_update, replacement_for, scan_step, update_request,
};

fn client() -> Client {
    Client::new("b", "c", "u")
}

fn row(id: &str, now: &str) -> Conversation {
    Conversation::new(&client(), id, "cipher", "flowA", "step1", now)
}

#[test]
fn hash_names_all_three_identity_fields() {
    assert_eq!(make_hash(&client()), "bot_id:b#channel_id:c#user_id:u");
    let other = Client::new("b", "c", "v");
    assert_ne!(make_hash(&client()), make_hash(&other));
}

#[test]
fn range_joins_segments_with_hash_sign() {
    assert_eq!(make_range(&["a", "b", "c"]), "a#b#c");
    assert_eq!(make_range(&[]), "");
    assert_eq!(make_range(&["solo"]), "solo");
    assert_eq!(make_range(&["", "x"]), "x");
    assert_eq!(make_range(&["a", ""]), "a#");
}

#[test]
fn sort_and_time_keys() {
    assert_eq!(sort_key("OPEN", "X"), "conversation#OPEN#X");
    assert_eq!(sort_key("CLOSED", "X"), "conversation#CLOSED#X");
    assert_eq!(
        time_key("interaction", "CLOSED", "2020-03-12T12:33:42.123[Z]", "X"),
        "interaction#CLOSED#2020-03-12T12:33:42.123[Z]#X"
    );
    assert_eq!(open_time_prefix(), "conversation#OPEN#");
}

#[test]
fn new_row_is_open_under_open_keys() {
    let r = row("X", "T0");
    assert_eq!(r.hash, "bot_id:b#channel_id:c#user_id:u");
    assert_eq!(r.range, "conversation#OPEN#X");
    assert_eq!(r.range_time, "conversation#OPEN#T0#X");
    assert!(r.range_time.starts_with(&open_time_prefix()));
    assert_eq!(r.status, "OPEN");
    assert_eq!(r.created_at, "T0");
    assert_eq!(r.updated_at, "T0");
    assert_eq!(r.last_interaction_at, "T0");
    assert_eq!(r.metadata, "cipher");
}

#[test]
fn opened_conversation_has_fresh_id_and_one_timestamp() {
    let a = open_conversation(&client(), "flowA", "step1", "cipher");
    let b = open_conversation(&client(), "flowA", "step1", "cipher");
    assert!(!a.id.is_empty());
    assert_ne!(a.id, b.id);
    assert!(!a.created_at.is_empty());
    assert_eq!(a.created_at, a.updated_at);
    assert_eq!(a.created_at, a.last_interaction_at);
    assert_eq!(a.range, format!("conversation#OPEN#{}", a.id));
    assert_eq!(a.range_time, format!("conversation#OPEN#{}#{}", a.created_at, a.id));
}

#[test]
fn clock_reads_utc_with_milliseconds() {
    let now = get_date_time();
    assert_eq!(now.len(), 26);
    assert_eq!(&now[10..11], "T");
    assert_eq!(&now[19..20], ".");
    assert!(now.ends_with("[Z]"));
}

#[test]
fn create_then_find_returns_same_session() {
    let created = open_conversation(&client(), "flowA", "step1", "cipher");
    let q = open_query(&client());
    assert_eq!(q.hash, created.hash);
    assert!(created.range_time.starts_with(&q.prefix));
    assert!(q.after.is_none());
    let found = latest_open(vec![created.copy()]).unwrap();
    assert_eq!(found.id, created.id);
    assert_eq!(found.flow_id, "flowA");
    assert_eq!(found.step_id, "step1");
    assert_eq!(found.metadata, "cipher");
    assert_eq!(found.status, "OPEN");
}

#[test]
fn empty_page_means_no_open_session() {
    assert!(latest_open(vec![]).is_none());
}

#[test]
fn close_of_absent_row_plans_nothing() {
    assert!(plan_close(None, "CLOSED").is_none());
}

#[test]
fn close_moves_row_to_new_status_key() {
    let r = row("X", "T0");
    let key = open_key(&client(), "X");
    assert_eq!(key.hash, r.hash);
    assert_eq!(key.range, r.range);
    let rep = plan_close(Some(r.copy()), "CLOSED").unwrap();
    assert_eq!(rep.old_key.hash, r.hash);
    assert_eq!(rep.old_key.range, "conversation#OPEN#X");
    let n = &rep.new_row;
    assert_eq!(n.id, "X");
    assert_eq!(n.status, "CLOSED");
    assert_eq!(n.range, "conversation#CLOSED#X");
    assert_eq!(n.range_time, format!("interaction#CLOSED#{}#X", n.updated_at));
    assert!(!n.range_time.starts_with(&open_time_prefix()));
    assert_eq!(n.updated_at, n.last_interaction_at);
    assert_eq!(n.created_at, "T0");
    assert_eq!(n.flow_id, "flowA");
    assert_eq!(n.step_id, "step1");
    assert_eq!(n.metadata, "cipher");
}

#[test]
fn close_keeps_custom_terminal_label() {
    let rep = replacement_for(&row("X", "T0"), "EXPIRED", "T1");
    assert_eq!(rep.new_row.status, "EXPIRED");
    assert_eq!(rep.new_row.range, "conversation#EXPIRED#X");
    assert_eq!(rep.new_row.range_time, "interaction#EXPIRED#T1#X");
    assert_eq!(rep.new_row.updated_at, "T1");
}

#[test]
fn example_session_lifecycle() {
    let c = Client::new("b", "c", "u");
    let created = open_conversation(&c, "flowA", "step1", "{\"k\":1}");
    let x = created.id.clone();
    let found = latest_open(vec![created.copy()]).unwrap();
    assert_eq!(found.id, x);
    assert_eq!(found.flow_id, "flowA");
    assert_eq!(found.step_id, "step1");
    assert_eq!(found.metadata, "{\"k\":1}");
    assert_eq!(found.status, "OPEN");
    let rep = plan_close(Some(found), "CLOSED").unwrap();
    assert_eq!(rep.old_key.range, format!("conversation#OPEN#{}", x));
    assert_eq!(rep.new_row.range, format!("conversation#CLOSED#{}", x));
    assert!(close_result(WriteOutcome::Written).is_ok());
    assert!(latest_open(vec![]).is_none());
}

#[test]
fn update_with_flow_only() {
    let u = update_request("X", &client(), Some("flowB".to_string()), None, "T1");
    assert_eq!(u.key.range, "conversation#OPEN#X");
    assert_eq!(
        u.expression,
        "SET last_interaction_at = :lastInteractionAtVal, flow_id = :flowIdVal"
    );
    assert_eq!(u.condition, "#hashKey = :hashVal AND #rangeKey = :rangeVal");
    assert_eq!(
        u.names,
        vec![
            ("#hashKey".to_string(), "hash".to_string()),
            ("#rangeKey".to_string(), "range".to_string())
        ]
    );
    assert_eq!(
        u.values,
        vec![
            (":hashVal".to_string(), "bot_id:b#channel_id:c#user_id:u".to_string()),
            (":rangeVal".to_string(), "conversation#OPEN#X".to_string()),
            (":lastInteractionAtVal".to_string(), "T1".to_string()),
            (":flowIdVal".to_string(), "flowB".to_string()),
        ]
    );
    assert_eq!(u.flow_id, Some("flowB".to_string()));
    assert_eq!(u.step_id, None);
}

#[test]
fn update_with_both_and_with_neither() {
    let both = update_request("X", &client(), Some("f".to_string()), Some("s".to_string()), "T");
    assert_eq!(
        both.expression,
        "SET last_interaction_at = :lastInteractionAtVal, flow_id = :flowIdVal, step_id = :stepIdVal"
    );
    assert_eq!(both.values.len(), 5);
    assert_eq!(both.values[4], (":stepIdVal".to_string(), "s".to_string()));
    let none = update_request("X", &client(), None, None, "T");
    assert_eq!(none.expression, "SET last_interaction_at = :lastInteractionAtVal");
    assert_eq!(none.values.len(), 3);
    let stamped = plan_update("X", &client(), None, Some("s".to_string()));
    assert!(!stamped.last_interaction_at.is_empty());
    assert_eq!(stamped.values[2].1, stamped.last_interaction_at);
}

#[test]
fn update_of_missing_row_is_precondition_failure() {
    assert!(matches!(
        update_result(WriteOutcome::ConditionFailed),
        Err(StoreError::PreconditionFailed)
    ));
    assert!(update_result(WriteOutcome::Written).is_ok());
    match update_result(WriteOutcome::Failed("throttled".to_string())) {
        Err(StoreError::StorageError(m)) => assert_eq!(m, "throttled"),
        _ => panic!("expected a storage error"),
    }
}

#[test]
fn second_close_of_same_row_is_noop() {
    assert!(close_result(WriteOutcome::ConditionFailed).is_ok());
    match close_result(WriteOutcome::Failed("conflict".to_string())) {
        Err(StoreError::StorageError(m)) => assert_eq!(m, "conflict"),
        _ => panic!("expected a storage error"),
    }
}

#[test]
fn scan_collects_each_open_row_once() {
    let mut found: Vec<Conversation> = Vec::new();
    let q = next_open_query(&client(), &found);
    assert!(q.after.is_none());
    assert!(scan_step(&mut found, vec![row("A", "T0")]));
    assert!(scan_step(&mut found, vec![row("B", "T1")]));
    let q = next_open_query(&client(), &found);
    assert_eq!(q.after.unwrap().id, "B");
    assert!(!scan_step(&mut found, vec![row("A", "T0")]));
    assert!(!scan_step(&mut found, vec![]));
    assert_eq!(found.len(), 2);
    assert_eq!(found[0].id, "A");
    assert_eq!(found[1].id, "B");
}

#[test]
fn bulk_close_of_zero_one_and_three_rows() {
    assert!(close_all_replacements(&vec![], "CLOSED", "T9").is_empty());
    let one = close_all_replacements(&vec![row("A", "T0")], "CLOSED", "T9");
    assert_eq!(one.len(), 1);
    assert_eq!(one[0].new_row.range, "conversation#CLOSED#A");
    let rows = vec![row("A", "T0"), row("B", "T1"), row("C", "T2")];
    let three = plan_close_all(&rows, "CLOSED");
    assert_eq!(three.len(), 3);
    for (i, rep) in three.iter().enumerate() {
        assert_eq!(rep.old_key.range, rows[i].range);
        assert_eq!(rep.new_row.id, rows[i].id);
        assert_eq!(rep.new_row.status, "CLOSED");
        assert_eq!(rep.new_row.range, format!("conversation#CLOSED#{}", rows[i].id));
        assert!(!rep.new_row.range_time.starts_with(&open_time_prefix()));
        assert_eq!(rep.new_row.updated_at, three[0].new_row.updated_at);
    }
}
