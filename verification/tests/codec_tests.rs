use fungible_ledger::decimal::parse_u128;
use fungible_ledger::decimal::u128_to_dec;
use fungible_ledger::events::EventLog;
use fungible_ledger::events::FtMint;
use fungible_ledger::events::FtTransfer;

#[test]
fn formats_amounts_in_decimal() {
    assert_eq!(u128_to_dec(0), "0");
    assert_eq!(u128_to_dec(7), "7");
    assert_eq!(u128_to_dec(1000), "1000");
    assert_eq!(u128_to_dec(90_000_000_000_000), "90000000000000");
    assert_eq!(
        u128_to_dec(u128::MAX),
        "340282366920938463463374607431768211455"
    );
}

#[test]
fn parses_decimal_amounts() {
    assert_eq!(parse_u128("0"), Some(0));
    assert_eq!(parse_u128("1000"), Some(1000));
    assert_eq!(parse_u128("00123"), Some(123));
    assert_eq!(
        parse_u128("340282366920938463463374607431768211455"),
        Some(u128::MAX)
    );
}

#[test]
fn rejects_out_of_range_and_malformed_amounts() {
    assert_eq!(parse_u128("340282366920938463463374607431768211456"), None);
    assert_eq!(parse_u128("999999999999999999999999999999999999999999"), None);
    assert_eq!(parse_u128(""), None);
    assert_eq!(parse_u128("12a"), None);
    assert_eq!(parse_u128("-5"), None);
    assert_eq!(parse_u128("+5"), None);
    assert_eq!(parse_u128(" 5"), None);
    assert_eq!(parse_u128("1 000"), None);
    assert_eq!(parse_u128("१२३"), None);
}

#[test]
fn parse_inverts_format() {
    for n in [0u128, 1, 9, 10, 4096, u128::MAX - 1, u128::MAX] {
        assert_eq!(parse_u128(u128_to_dec(n).as_str()), Some(n));
    }
}

#[test]
fn emit_many_writes_one_line_per_batch() {
    let mut log = EventLog::new();
    let batch = [
        FtMint { owner_id: "alice".to_string(), amount: 12, memo: None },
        FtMint { owner_id: "bob".to_string(), amount: 34, memo: Some("gift".to_string()) },
    ];
    FtMint::emit_many(&batch, &mut log);
    assert_eq!(log.len(), 1);
    let expected = "EVENT_JSON:{\"standard\":\"nep141\",\"version\":\"1.0.0\",\"event\":\"ft_mint\",\"data\":[{\"owner_id\":\"alice\",\"amount\":\"12\"},{\"owner_id\":\"bob\",\"amount\":\"34\",\"memo\":\"gift\"}]}";
    assert_eq!(log.line(0).as_str(), expected);
}

#[test]
fn transfer_emit_writes_the_documented_record() {
    let mut log = EventLog::new();
    FtTransfer {
        old_owner_id: "alice".to_string(),
        new_owner_id: "bob".to_string(),
        amount: 5,
        memo: None,
    }
    .emit(&mut log);
    FtTransfer::emit_many(&[], &mut log);
    assert_eq!(log.len(), 2);
    let expected = "EVENT_JSON:{\"standard\":\"nep141\",\"version\":\"1.0.0\",\"event\":\"ft_transfer\",\"data\":[{\"old_owner_id\":\"alice\",\"new_owner_id\":\"bob\",\"amount\":\"5\"}]}";
    assert_eq!(log.line(0).as_str(), expected);
    let expected_empty = "EVENT_JSON:{\"standard\":\"nep141\",\"version\":\"1.0.0\",\"event\":\"ft_transfer\",\"data\":[]}";
    assert_eq!(log.line(1).as_str(), expected_empty);
}
