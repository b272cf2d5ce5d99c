use chain_gateway::events::{
    create_event_filter, listener_setup, process_event, start_listener, transaction_of_log,
    EventAction, EventFilter, ListenError, SkipReason, TransactionLookup,
};
use chain_gateway::registry::EthersRepository;
use std::sync::Arc;

fn hex(bytes: &[u8]) -> String {
    bytes.iter().map(|byte| format!("{:02x}", byte)).collect()
}

const TETHER: [u8; 20] = [
    0xda, 0xc1, 0x7f, 0x95, 0x8d, 0x2e, 0xe5, 0x23, 0xa2, 0x20, 0x62, 0x06, 0x99, 0x45, 0x97, 0xc1,
    0x3d, 0x83, 0x1e, 0xc7,
];

#[test]
fn topic_of_the_transfer_event_is_the_keccak_of_its_signature() {
    let filter = create_event_filter(TETHER, "Transfer(address,address,uint256)");
    assert_eq!(filter.address, TETHER);
    assert_eq!(
        hex(&filter.topic0),
        "ddf252ad1be2c89b69c2b068fc378daa952ba7f163c4a11628f55a4df523b3ef"
    );
}

#[test]
fn topic_of_the_approval_event_is_the_keccak_of_its_signature() {
    let filter = create_event_filter([0; 20], "Approval(address,address,uint256)");
    assert_eq!(
        hex(&filter.topic0),
        "8c5be1e5ebec7d5bd14f71427d1e84f3dd0314c0f7b2291e5b200ac8c7c3b925"
    );
}

#[test]
fn topic_of_the_empty_signature_is_the_keccak_of_nothing() {
    let filter = create_event_filter([0; 20], "");
    assert_eq!(
        hex(&filter.topic0),
        "c5d2460186f7233c927e7db2dcc703c0e500b653ca82273b7bfad8045d85a470"
    );
}

fn registry_with_connection() -> EthersRepository<String, u8> {
    let mut registry = EthersRepository::new();
    registry.apply_connection(1, "node".to_string());
    registry
}

#[test]
fn listener_starts_with_connection_and_filter() {
    let registry = registry_with_connection();
    let (connection, filter) = start_listener(
        &registry,
        1,
        "0xdAC17F958D2ee523a2206206994597C13D831ec7",
        "Transfer(address,address,uint256)",
    )
    .unwrap();
    assert_eq!(*connection, "node");
    assert_eq!(filter.address, TETHER);
    assert_eq!(
        hex(&filter.topic0),
        "ddf252ad1be2c89b69c2b068fc378daa952ba7f163c4a11628f55a4df523b3ef"
    );
}

#[test]
fn address_is_read_without_prefix_too() {
    let registry = registry_with_connection();
    let (_, filter) =
        start_listener(&registry, 1, "dac17f958d2ee523a2206206994597c13d831ec7", "E()").unwrap();
    assert_eq!(filter.address, TETHER);
}

#[test]
fn listener_needs_a_connection() {
    let registry = registry_with_connection();
    assert_eq!(
        start_listener(&registry, 2, "0xdAC17F958D2ee523a2206206994597C13D831ec7", "E()").err(),
        Some(ListenError::ConnectionNotFound)
    );
    assert_eq!(
        start_listener(&registry, 2, "not an address", "E()").err(),
        Some(ListenError::ConnectionNotFound)
    );
}

#[test]
fn listener_needs_an_address() {
    let registry = registry_with_connection();
    for text in ["", "0x", "0x1234", "not an address", "0xdAC17F958D2ee523a2206206994597C13D831ec",
        "0xdAC17F958D2ee523a2206206994597C13D831ec7ff", "0xzAC17F958D2ee523a2206206994597C13D831ec7"]
    {
        assert_eq!(
            start_listener(&registry, 1, text, "E()").err(),
            Some(ListenError::InvalidAddress)
        );
    }
}

#[test]
fn setup_reports_the_missing_connection_first() {
    let topic = [7u8; 32];
    assert_eq!(
        listener_setup::<String>(None, None, topic).err(),
        Some(ListenError::ConnectionNotFound)
    );
    assert_eq!(
        listener_setup::<String>(None, Some(TETHER), topic).err(),
        Some(ListenError::ConnectionNotFound)
    );
    assert_eq!(
        listener_setup(Some(Arc::new("node".to_string())), None, topic).err(),
        Some(ListenError::InvalidAddress)
    );
    let (connection, filter) =
        listener_setup(Some(Arc::new("node".to_string())), Some(TETHER), topic).unwrap();
    assert_eq!(*connection, "node");
    assert_eq!(filter, EventFilter { address: TETHER, topic0: topic });
    assert_eq!(filter, EventFilter::new(TETHER, topic));
}

#[test]
fn log_names_the_transaction_to_look_up() {
    assert_eq!(transaction_of_log(Some([3u8; 32])), Ok([3u8; 32]));
    assert_eq!(transaction_of_log(None), Err(SkipReason::NoTransactionHash));
}

#[test]
fn found_transaction_is_delivered_under_the_address() {
    assert_eq!(
        process_event(TransactionLookup::Found("tx"), TETHER),
        EventAction::Deliver { address: TETHER, transaction: "tx" }
    );
}

#[test]
fn missing_transaction_is_skipped() {
    assert_eq!(
        process_event(TransactionLookup::<u8>::NotFound, TETHER),
        EventAction::Skip(SkipReason::TransactionNotFound)
    );
}

#[test]
fn failed_lookup_is_skipped() {
    assert_eq!(
        process_event(TransactionLookup::<u8>::Failed, TETHER),
        EventAction::Skip(SkipReason::LookupFailed)
    );
}

#[test]
fn address_is_written_as_lower_case_hex() {
    assert_eq!(
        chain_gateway::events::address_to_text(&TETHER),
        "0xdac17f958d2ee523a2206206994597c13d831ec7"
    );
    assert_eq!(
        chain_gateway::events::address_to_text(&[0u8; 20]),
        "0x0000000000000000000000000000000000000000"
    );
    assert_eq!(
        chain_gateway::events::address_to_text(&[0xffu8; 20]),
        "0xffffffffffffffffffffffffffffffffffffffff"
    );
}

#[test]
fn address_is_written_as_the_node_client_writes_it() {
    let written = serde_json::to_value(ethers::types::H160(TETHER)).unwrap();
    assert_eq!(
        written,
        serde_json::Value::String(chain_gateway::events::address_to_text(&TETHER))
    );
}

#[test]
fn payload_holds_the_transaction_under_the_address() {
    let transaction = chain_gateway::json::JsonValue::object1(
        "hash",
        chain_gateway::json::JsonValue::text("0xabc"),
    );
    let payload = chain_gateway::events::event_payload(&TETHER, transaction);
    assert_eq!(
        payload,
        chain_gateway::json::JsonValue::Object(vec![(
            "0xdac17f958d2ee523a2206206994597c13d831ec7".to_string(),
            chain_gateway::json::JsonValue::Object(vec![(
                "hash".to_string(),
                chain_gateway::json::JsonValue::Text("0xabc".to_string())
            )]),
        )])
    );
}

#[test]
fn blanks_between_the_digits_of_an_address_are_passed_over() {
    let registry = registry_with_connection();
    let (_, filter) = start_listener(
        &registry,
        1,
        "0xdAC17F958D2ee523a220 6206994597C13D831ec7\n",
        "E()",
    )
    .unwrap();
    assert_eq!(filter.address, TETHER);
    assert_eq!(
        start_listener(&registry, 1, " 0xdAC17F958D2ee523a2206206994597C13D831ec7", "E()").err(),
        Some(ListenError::InvalidAddress)
    );
}

#[test]
fn address_that_was_written_is_read_back() {
    let registry = registry_with_connection();
    for address in [TETHER, [0u8; 20], [0xffu8; 20], [0x0au8; 20]] {
        let text = chain_gateway::events::address_to_text(&address);
        let (_, filter) = start_listener(&registry, 1, &text, "E()").unwrap();
        assert_eq!(filter.address, address);
    }
}

#[test]
fn address_is_read_in_either_case_and_fails_on_a_digit_left_over() {
    let registry = registry_with_connection();
    let (_, filter) =
        start_listener(&registry, 1, "0xDAC17F958D2EE523A2206206994597C13D831EC7", "E()").unwrap();
    assert_eq!(filter.address, TETHER);
    assert_eq!(
        start_listener(&registry, 1, "0xdAC17F958D2ee523a2206206994597C13D831ec7a", "E()").err(),
        Some(ListenError::InvalidAddress)
    );
    assert_eq!(
        start_listener(&registry, 1, "0XdAC17F958D2ee523a2206206994597C13D831ec7", "E()").err(),
        Some(ListenError::InvalidAddress)
    );
    assert_eq!(
        start_listener(&registry, 1, "0x0xdAC17F958D2ee523a2206206994597C13D831ec7", "E()").err(),
        Some(ListenError::InvalidAddress)
    );
    assert_eq!(
        start_listener(&registry, 1, "0xdAC17F958D2ee523a2206206994597C13D831ec\u{e9}", "E()").err(),
        Some(ListenError::InvalidAddress)
    );
    let (_, spaced) = start_listener(
        &registry,
        1,
        "0x da c1 7f 95 8d 2e e5 23 a2 20 62 06 99 45 97 c1 3d 83 1e c7\r\n\t",
        "E()",
    )
    .unwrap();
    assert_eq!(spaced.address, TETHER);
}
