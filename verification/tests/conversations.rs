use backend::conversations::{
    conversation_id_result, parse_conversation_id, require_conversation, route_not_found,
    sort_conversations,
};
use backend::models::Conversation;

fn conversation(id: &str, created_at: &str, updated_at: &str) -> Conversation {
    Conversation {
        id: id.to_owned(),
        title: format!("title {id}"),
        created_at: created_at.to_owned(),
        updated_at: updated_at.to_owned(),
    }
}

#[test]
fn conversations_list_uses_deterministic_tie_breaker_order() {
    let timestamp = "2026-01-01T00:00:00.000Z";
    let rows = vec![
        conversation("33333333-3333-4333-8333-333333333333", timestamp, timestamp),
        conversation("11111111-1111-4111-8111-111111111111", timestamp, timestamp),
        conversation("22222222-2222-4222-8222-222222222222", timestamp, timestamp),
    ];
    let ids: Vec<String> = sort_conversations(rows).into_iter().map(|c| c.id).collect();
    assert_eq!(
        ids,
        vec![
            "11111111-1111-4111-8111-111111111111",
            "22222222-2222-4222-8222-222222222222",
            "33333333-3333-4333-8333-333333333333",
        ]
    );
}

#[test]
fn conversations_are_listed_most_recent_first() {
    let rows = vec![
        conversation("a", "2026-01-01T00:00:00.000Z", "2026-01-02T00:00:00.000Z"),
        conversation("b", "2026-01-01T00:00:00.000Z", "2026-01-03T00:00:00.000Z"),
        conversation("c", "2026-01-02T00:00:00.000Z", "2026-01-02T00:00:00.000Z"),
        conversation("d", "2026-01-01T00:00:00.000Z", "2026-01-02T00:00:00.000Z"),
    ];
    let ids: Vec<String> = sort_conversations(rows).into_iter().map(|c| c.id).collect();
    assert_eq!(ids, vec!["b", "c", "a", "d"]);
    assert!(sort_conversations(Vec::new()).is_empty());
}

#[test]
fn conversation_ids_must_be_uuids() {
    let id = "11111111-1111-4111-8111-111111111111";
    assert_eq!(parse_conversation_id(id).unwrap(), id);
    let error = parse_conversation_id("not-a-uuid").unwrap_err();
    assert_eq!(error.code(), "bad_request");
    assert_eq!(error.status(), 400);
    assert!(error.client_message().contains("UUID"));
    assert!(parse_conversation_id("{11111111-1111-4111-8111-111111111111}").is_ok());
    assert!(parse_conversation_id("11111111111141118111111111111111").is_ok());
    assert!(parse_conversation_id("11111111-1111-4111-8111-11111111111g").is_err());
    assert!(parse_conversation_id("URN:uuid:67e55044-10b1-426f-9247-bb680e5fe0c8").is_ok());
    assert!(parse_conversation_id("urn:uuix:67e55044-10b1-426f-9247-bb680e5fe0c8").is_err());
    assert!(parse_conversation_id("F9168C5E-CEB2-4faa-B6BF-329BF39FA1E4").is_ok());
    assert!(parse_conversation_id("F9168C5E+CEB2-4faa-B6BF-329BF39FA1E4").is_err());
    assert!(parse_conversation_id("(11111111-1111-4111-8111-111111111111)").is_err());
    assert!(parse_conversation_id("").is_err());
    assert_eq!(conversation_id_result("x", true).unwrap(), "x");
    assert!(conversation_id_result("x", false).is_err());
}

#[test]
fn missing_conversations_and_routes_are_not_found() {
    let error = require_conversation(None).unwrap_err();
    assert_eq!(error.code(), "not_found");
    assert_eq!(error.status(), 404);
    assert_eq!(error.client_message(), "conversation not found");
    let found = conversation("a", "t", "t");
    assert_eq!(require_conversation(Some(found.clone())).unwrap(), found);
    assert_eq!(route_not_found().client_message(), "route not found");
}

#[test]
fn listing_does_not_depend_on_the_order_rows_arrive_in() {
    let rows = vec![
        conversation("a", "2026-01-01T00:00:00.000Z", "2026-01-02T00:00:00.000Z"),
        conversation("b", "2026-01-01T00:00:00.000Z", "2026-01-03T00:00:00.000Z"),
        conversation("c", "2026-01-02T00:00:00.000Z", "2026-01-02T00:00:00.000Z"),
        conversation("d", "2026-01-01T00:00:00.000Z", "2026-01-02T00:00:00.000Z"),
    ];
    let expected = sort_conversations(rows.clone());
    let orders = [[3, 2, 1, 0], [1, 3, 0, 2], [2, 0, 3, 1], [0, 2, 1, 3]];
    for order in orders {
        let permuted: Vec<Conversation> = order.iter().map(|&i| rows[i].clone()).collect();
        assert_eq!(sort_conversations(permuted), expected);
    }
}
