use coffeetap::chain::solana::{
    check_signature, decode_transaction, extract_sol_transfers, maybe_push_system_transfer,
    walk_value, SolTransfer,
};
use coffeetap::json::{same_text, Json};
use coffeetap::models::VerifyError;

fn text(s: &str) -> Json {
    Json::Text(s.to_string())
}

fn object(members: Vec<(&str, Json)>) -> Json {
    Json::Object(members.into_iter().map(|(k, v)| (k.to_string(), v)).collect())
}

fn transfer_node(source: Option<&str>, destination: &str, lamports: u64) -> Json {
    let mut info = Vec::new();
    if let Some(s) = source {
        info.push(("source", text(s)));
    }
    info.push(("destination", text(destination)));
    info.push(("lamports", Json::Unsigned(lamports)));
    object(vec![
        ("program", text("system")),
        (
            "parsed",
            object(vec![("type", text("transfer")), ("info", object(info))]),
        ),
    ])
}

fn document(slot: u64, instructions: Vec<Json>) -> Json {
    object(vec![
        ("slot", Json::Unsigned(slot)),
        (
            "transaction",
            object(vec![(
                "transaction",
                object(vec![(
                    "message",
                    object(vec![("instructions", Json::Array(instructions))]),
                )]),
            )]),
        ),
    ])
}

fn summary(transfers: &[SolTransfer]) -> Vec<(Option<String>, String, u64)> {
    transfers
        .iter()
        .map(|t| (t.source.clone(), t.destination.clone(), t.lamports))
        .collect()
}

#[test]
fn parse_transfer_from_json() {
    let sample = document(
        100,
        vec![transfer_node(Some("Donor111"), "Creator111", 1500000000u64)],
    );

    let transfers = extract_sol_transfers(&sample);
    assert_eq!(transfers.len(), 1);
    assert_eq!(transfers[0].destination, "Creator111");
    assert_eq!(transfers[0].lamports, 1_500_000_000);
}

#[test]
fn transfer_keeps_its_source() {
    let sample = document(7, vec![transfer_node(Some("Donor111"), "Creator111", 5)]);
    let transfers = extract_sol_transfers(&sample);
    assert_eq!(transfers[0].source, Some("Donor111".to_string()));
}

#[test]
fn transfer_without_source_is_found() {
    let sample = document(7, vec![transfer_node(None, "Creator111", 5)]);
    let transfers = extract_sol_transfers(&sample);
    assert_eq!(summary(&transfers), vec![(None, "Creator111".to_string(), 5)]);
}

#[test]
fn transfer_three_levels_deep_is_found() {
    let nested = Json::Array(vec![Json::Array(vec![Json::Array(vec![transfer_node(
        Some("Donor111"),
        "Creator111",
        42,
    )])])]);
    let sample = object(vec![
        ("slot", Json::Unsigned(1)),
        ("meta", object(vec![("innerInstructions", nested)])),
    ]);
    let transfers = extract_sol_transfers(&sample);
    assert_eq!(
        summary(&transfers),
        vec![(Some("Donor111".to_string()), "Creator111".to_string(), 42)]
    );
}

#[test]
fn extraction_twice_gives_the_same_sequence() {
    let sample = document(
        3,
        vec![
            transfer_node(Some("A"), "X", 1),
            Json::Array(vec![transfer_node(None, "Y", 2)]),
            transfer_node(Some("B"), "Z", 3),
        ],
    );
    let first = extract_sol_transfers(&sample);
    let second = extract_sol_transfers(&sample);
    assert_eq!(summary(&first), summary(&second));
    assert_eq!(
        summary(&first),
        vec![
            (Some("A".to_string()), "X".to_string(), 1),
            (None, "Y".to_string(), 2),
            (Some("B".to_string()), "Z".to_string(), 3),
        ]
    );
}

#[test]
fn node_is_a_transfer_and_holds_more() {
    let outer = object(vec![
        ("program", text("system")),
        (
            "parsed",
            object(vec![
                ("type", text("transfer")),
                (
                    "info",
                    object(vec![
                        ("destination", text("Outer")),
                        ("lamports", Json::Unsigned(10)),
                    ]),
                ),
            ]),
        ),
        ("inner", Json::Array(vec![transfer_node(None, "Inner", 20)])),
    ]);
    let transfers = extract_sol_transfers(&outer);
    assert_eq!(
        summary(&transfers),
        vec![
            (None, "Outer".to_string(), 10),
            (None, "Inner".to_string(), 20)
        ]
    );
}

#[test]
fn other_program_is_skipped() {
    let node = object(vec![
        ("program", text("spl-token")),
        (
            "parsed",
            object(vec![
                ("type", text("transfer")),
                (
                    "info",
                    object(vec![
                        ("destination", text("X")),
                        ("lamports", Json::Unsigned(10)),
                    ]),
                ),
            ]),
        ),
    ]);
    assert!(extract_sol_transfers(&node).is_empty());
}

#[test]
fn partial_instructions_are_skipped() {
    let no_destination = object(vec![
        ("program", text("system")),
        (
            "parsed",
            object(vec![
                ("type", text("transfer")),
                ("info", object(vec![("lamports", Json::Unsigned(10))])),
            ]),
        ),
    ]);
    let no_lamports = object(vec![
        ("program", text("system")),
        (
            "parsed",
            object(vec![
                ("type", text("transfer")),
                ("info", object(vec![("destination", text("X"))])),
            ]),
        ),
    ]);
    let wrong_type = object(vec![
        ("program", text("system")),
        (
            "parsed",
            object(vec![
                ("type", text("createAccount")),
                (
                    "info",
                    object(vec![
                        ("destination", text("X")),
                        ("lamports", Json::Unsigned(10)),
                    ]),
                ),
            ]),
        ),
    ]);
    let signed_amount = object(vec![
        ("program", text("system")),
        (
            "parsed",
            object(vec![
                ("type", text("transfer")),
                (
                    "info",
                    object(vec![("destination", text("X")), ("lamports", Json::Number)]),
                ),
            ]),
        ),
    ]);
    let no_parsed = object(vec![("program", text("system"))]);
    let all = Json::Array(vec![
        no_destination,
        no_lamports,
        wrong_type,
        signed_amount,
        no_parsed,
        Json::Null,
        Json::Bool(true),
        text("system"),
    ]);
    assert!(extract_sol_transfers(&all).is_empty());
}

#[test]
fn walk_appends_after_what_is_there() {
    let mut transfers = vec![SolTransfer {
        source: None,
        destination: "Earlier".to_string(),
        lamports: 1,
    }];
    walk_value(
        &Json::Array(vec![transfer_node(None, "Later", 2)]),
        &mut transfers,
    );
    assert_eq!(
        summary(&transfers),
        vec![
            (None, "Earlier".to_string(), 1),
            (None, "Later".to_string(), 2)
        ]
    );
}

#[test]
fn push_reads_the_node_itself_only() {
    let mut transfers = Vec::new();
    let node = object(vec![(
        "wrapper",
        transfer_node(Some("Donor111"), "Creator111", 9),
    )]);
    maybe_push_system_transfer(&node, &mut transfers);
    assert!(transfers.is_empty());
    maybe_push_system_transfer(&transfer_node(Some("Donor111"), "Creator111", 9), &mut transfers);
    assert_eq!(
        summary(&transfers),
        vec![(Some("Donor111".to_string()), "Creator111".to_string(), 9)]
    );
}

#[test]
fn decode_reads_slot_and_transfers() {
    let sample = document(100, vec![transfer_node(Some("Donor111"), "Creator111", 1_500_000_000)]);
    let verified = decode_transaction(&sample).unwrap();
    assert_eq!(verified.slot, 100);
    assert_eq!(
        summary(&verified.transfers),
        vec![(
            Some("Donor111".to_string()),
            "Creator111".to_string(),
            1_500_000_000
        )]
    );
}

#[test]
fn decode_without_transfers_is_empty() {
    let verified = decode_transaction(&document(5, vec![])).unwrap();
    assert_eq!(verified.slot, 5);
    assert!(verified.transfers.is_empty());
}

#[test]
fn decode_without_numeric_slot_fails() {
    let missing = object(vec![("transaction", Json::Null)]);
    assert_eq!(
        decode_transaction(&missing).unwrap_err(),
        VerifyError::MalformedResponse
    );
    let textual = object(vec![("slot", text("100"))]);
    assert_eq!(
        decode_transaction(&textual).unwrap_err(),
        VerifyError::MalformedResponse
    );
    assert_eq!(
        decode_transaction(&Json::Array(vec![])).unwrap_err(),
        VerifyError::MalformedResponse
    );
}

#[test]
fn get_takes_the_first_member_of_a_name() {
    let node = object(vec![
        ("a", Json::Unsigned(1)),
        ("b", text("x")),
        ("a", Json::Unsigned(2)),
    ]);
    assert_eq!(node.get_u64("a"), Some(1));
    assert_eq!(node.get_str("b"), Some("x"));
    assert_eq!(node.get_u64("b"), None);
    assert_eq!(node.get_str("a"), None);
    assert!(node.get("c").is_none());
    assert!(Json::Array(vec![]).get("a").is_none());
    assert_eq!(text("t").as_str(), Some("t"));
    assert_eq!(Json::Unsigned(3).as_u64(), Some(3));
    assert_eq!(Json::Number.as_u64(), None);
}

#[test]
fn same_text_compares_characters() {
    assert!(same_text("system", "system"));
    assert!(!same_text("system", "System"));
    assert!(!same_text("", "a"));
}

#[test]
fn well_formed_signature_is_accepted() {
    let signature = solana_sdk::signature::Signature::from([7u8; 64]).to_string();
    assert_eq!(check_signature(&signature), Ok(()));
}

#[test]
fn malformed_signature_is_rejected() {
    assert_eq!(
        check_signature("not-a-signature"),
        Err(VerifyError::InvalidSignature)
    );
    assert_eq!(check_signature(""), Err(VerifyError::InvalidSignature));
    let short = solana_sdk::signature::Signature::from([7u8; 64]).to_string();
    assert_eq!(
        check_signature(&short[..40]),
        Err(VerifyError::InvalidSignature)
    );
}
