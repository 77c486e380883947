use fungible_ledger::ledger::Contract;
use fungible_ledger::ledger::initialize;
use fungible_ledger::ledger::require_initialized;
use fungible_ledger::metadata::TokenMetadata;
use fungible_ledger::LedgerError;

fn meta() -> TokenMetadata {
    TokenMetadata {
        spec_version: "ft-1.0.0".to_string(),
        name: "Example NEAR fungible token".to_string(),
        symbol: "EXAMPLE".to_string(),
        icon: None,
        reference: None,
        reference_hash: None,
        decimals: 24,
    }
}

fn s(x: &str) -> String {
    x.to_string()
}

fn fresh(total: u128) -> Contract {
    Contract::new(s("owner.test"), total, meta(), true, true, s("glue.test")).unwrap()
}

#[test]
fn initialize_credits_owner_and_logs_mint() {
    let c = fresh(1000);
    assert_eq!(c.ft_balance_of(&s("owner.test")), 1000);
    assert_eq!(c.total_users(), 1);
    assert_eq!(c.total_fund_users(), 0);
    assert_eq!(c.log.len(), 1);
    let expected = "EVENT_JSON:{\"standard\":\"nep141\",\"version\":\"1.0.0\",\"event\":\"ft_mint\",\"data\":[{\"owner_id\":\"owner.test\",\"amount\":\"1000\",\"memo\":\"Initial tokens supply is minted\"}]}";
    assert_eq!(c.log.line(0).as_str(), expected);
}

#[test]
fn invalid_metadata_is_rejected() {
    let mut m = meta();
    m.spec_version = s("ft-2.0.0");
    let r = Contract::new(s("owner.test"), 1, m, true, true, s("glue.test"));
    assert!(matches!(r, Err(LedgerError::InvalidMetadata)));

    let mut m = meta();
    m.reference = Some(s("ipfs://example"));
    let r = Contract::new(s("owner.test"), 1, m, true, true, s("glue.test"));
    assert!(matches!(r, Err(LedgerError::InvalidMetadata)));

    let mut m = meta();
    m.reference = Some(s("ipfs://example"));
    m.reference_hash = Some(vec![7u8; 31]);
    let r = Contract::new(s("owner.test"), 1, m, true, true, s("glue.test"));
    assert!(matches!(r, Err(LedgerError::InvalidMetadata)));

    let mut m = meta();
    m.reference = Some(s("ipfs://example"));
    m.reference_hash = Some(vec![7u8; 32]);
    let r = Contract::new(s("owner.test"), 1, m, true, true, s("glue.test"));
    assert!(r.is_ok());
}

#[test]
fn transfer_moves_balance_and_logs_event() {
    let mut c = fresh(1000);
    let r = c.ft_transfer(&s("owner.test"), s("bob"), 300);
    assert_eq!(r, Ok(()));
    assert_eq!(c.ft_balance_of(&s("owner.test")), 700);
    assert_eq!(c.ft_balance_of(&s("bob")), 300);
    assert_eq!(c.log.len(), 2);
    let expected = "EVENT_JSON:{\"standard\":\"nep141\",\"version\":\"1.0.0\",\"event\":\"ft_transfer\",\"data\":[{\"old_owner_id\":\"owner.test\",\"new_owner_id\":\"bob\",\"amount\":\"300\",\"memo\":\"transferred\"}]}";
    assert_eq!(c.log.line(1).as_str(), expected);
}

#[test]
fn burn_beyond_balance_fails_and_changes_nothing() {
    let mut c = fresh(1000);
    assert_eq!(c.ft_transfer(&s("owner.test"), s("bob"), 300), Ok(()));
    let r = c.burnToken(&s("owner.test"), 1000);
    assert_eq!(r, Err(LedgerError::InsufficientBalance));
    assert_eq!(c.ft_balance_of(&s("owner.test")), 700);
    assert_eq!(c.ft_balance_of(&s("bob")), 300);
    assert_eq!(c.log.len(), 2);
}

#[test]
fn burn_reduces_owner_balance() {
    let mut c = fresh(1000);
    assert_eq!(c.burnToken(&s("owner.test"), 400), Ok(()));
    assert_eq!(c.ft_balance_of(&s("owner.test")), 600);
    // burning logs no event
    assert_eq!(c.log.len(), 1);
}

#[test]
fn glue_sends_owner_tokens_to_fund() {
    let mut c = fresh(1000);
    let r = c.sendToFund(&s("glue.test"), s("pool1"), 200);
    assert_eq!(r, Ok(()));
    assert_eq!(c.ft_balance_of(&s("owner.test")), 800);
    assert_eq!(c.ft_balance_of(&s("glue.test")), 0);
    assert_eq!(c.ft_fund_balance_of(&s("pool1")), 200);
    assert_eq!(c.total_fund_users(), 1);
    // no event for a fund deposit
    assert_eq!(c.log.len(), 1);
}

#[test]
fn send_from_fund_credits_destination_and_names_owner() {
    let mut c = fresh(1000);
    assert_eq!(c.sendToFund(&s("glue.test"), s("pool1"), 200), Ok(()));
    let r = c.sendFromFund(&s("owner.test"), s("pool1"), s("carol"), 150);
    assert_eq!(r, Ok(()));
    assert_eq!(c.ft_fund_balance_of(&s("pool1")), 50);
    assert_eq!(c.ft_balance_of(&s("carol")), 150);
    let expected = "EVENT_JSON:{\"standard\":\"nep141\",\"version\":\"1.0.0\",\"event\":\"ft_transfer\",\"data\":[{\"old_owner_id\":\"owner.test\",\"new_owner_id\":\"carol\",\"amount\":\"150\",\"memo\":\"transferred\"}]}";
    assert_eq!(c.log.line(1).as_str(), expected);
}

#[test]
fn send_from_fund_beyond_pool_fails() {
    let mut c = fresh(1000);
    assert_eq!(c.sendToFund(&s("owner.test"), s("pool1"), 100), Ok(()));
    let r = c.sendFromFund(&s("glue.test"), s("pool1"), s("carol"), 150);
    assert_eq!(r, Err(LedgerError::InsufficientBalance));
    assert_eq!(c.ft_fund_balance_of(&s("pool1")), 100);
    assert_eq!(c.ft_balance_of(&s("carol")), 0);
}

#[test]
fn non_owner_mint_is_unauthorized() {
    let mut c = fresh(1000);
    let r = c.mintToken(&s("mallory"), 1);
    assert_eq!(r, Err(LedgerError::Unauthorized));
    assert_eq!(c.ft_balance_of(&s("owner.test")), 1000);
    assert_eq!(c.ft_balance_of(&s("mallory")), 0);
    assert_eq!(c.total_users(), 1);
}

#[test]
fn owner_mint_raises_supply_without_event() {
    let mut c = fresh(1000);
    assert_eq!(c.mintToken(&s("owner.test"), 25), Ok(()));
    assert_eq!(c.ft_balance_of(&s("owner.test")), 1025);
    assert_eq!(c.log.len(), 1);
}

#[test]
fn disabled_flags_win_over_authorization() {
    let mut c = Contract::new(s("owner.test"), 10, meta(), false, false, s("glue.test"))
        .unwrap();
    assert_eq!(c.mintToken(&s("owner.test"), 1), Err(LedgerError::MintDisabled));
    assert_eq!(c.mintToken(&s("mallory"), 1), Err(LedgerError::MintDisabled));
    assert_eq!(c.burnToken(&s("owner.test"), 1), Err(LedgerError::BurnDisabled));
    assert_eq!(c.ft_balance_of(&s("owner.test")), 10);
}

#[test]
fn non_owner_burn_and_change_owner_are_unauthorized() {
    let mut c = fresh(1000);
    assert_eq!(c.burnToken(&s("glue.test"), 1), Err(LedgerError::Unauthorized));
    assert_eq!(c.changeOwner(&s("glue.test"), s("eve")), Err(LedgerError::Unauthorized));
    assert_eq!(c.ft_balance_of(&s("owner.test")), 1000);
}

#[test]
fn outsider_cannot_touch_funds() {
    let mut c = fresh(1000);
    assert_eq!(
        c.sendToFund(&s("mallory"), s("pool1"), 1),
        Err(LedgerError::Unauthorized)
    );
    assert_eq!(
        c.sendFromFund(&s("mallory"), s("pool1"), s("mallory"), 1),
        Err(LedgerError::Unauthorized)
    );
    assert_eq!(c.ft_balance_of(&s("owner.test")), 1000);
    assert_eq!(c.ft_fund_balance_of(&s("pool1")), 0);
}

#[test]
fn change_owner_hands_over_every_owner_right() {
    let mut c = fresh(1000);
    assert_eq!(c.changeOwner(&s("owner.test"), s("new.owner")), Ok(()));
    // the old owner keeps its balance but loses its rights
    assert_eq!(c.ft_balance_of(&s("owner.test")), 1000);
    assert_eq!(c.mintToken(&s("owner.test"), 1), Err(LedgerError::Unauthorized));
    // the new owner mints into its own (fresh) account
    assert_eq!(c.mintToken(&s("new.owner"), 5), Ok(()));
    assert_eq!(c.ft_balance_of(&s("new.owner")), 5);
    // a fund deposit now debits the new owner
    assert_eq!(c.sendToFund(&s("glue.test"), s("pool1"), 5), Ok(()));
    assert_eq!(c.ft_balance_of(&s("new.owner")), 0);
}

#[test]
fn self_transfer_keeps_balance_but_logs() {
    let mut c = fresh(1000);
    assert_eq!(c.ft_transfer(&s("owner.test"), s("owner.test"), 250), Ok(()));
    assert_eq!(c.ft_balance_of(&s("owner.test")), 1000);
    assert_eq!(c.log.len(), 2);
}

#[test]
fn transfer_without_balance_fails() {
    let mut c = fresh(1000);
    let r = c.ft_transfer(&s("bob"), s("carol"), 1);
    assert_eq!(r, Err(LedgerError::InsufficientBalance));
    assert_eq!(c.ft_balance_of(&s("carol")), 0);
    assert_eq!(c.log.len(), 1);
}

#[test]
fn zero_transfer_creates_entries() {
    let mut c = fresh(1000);
    assert_eq!(c.ft_transfer(&s("bob"), s("carol"), 0), Ok(()));
    assert_eq!(c.ft_balance_of(&s("bob")), 0);
    assert_eq!(c.ft_balance_of(&s("carol")), 0);
    assert_eq!(c.total_users(), 3);
}

#[test]
fn listings_keep_first_credit_order() {
    let mut c = fresh(1000);
    assert_eq!(c.ft_transfer(&s("owner.test"), s("bob"), 300), Ok(()));
    assert_eq!(c.ft_transfer(&s("owner.test"), s("carol"), 100), Ok(()));
    let all = c.list_balances(0, 10);
    let named: Vec<(String, u128)> = all;
    assert_eq!(
        named,
        vec![
            (s("owner.test"), 600),
            (s("bob"), 300),
            (s("carol"), 100),
        ]
    );
    let page = c.list_balances(1, 1);
    assert_eq!(page, vec![(s("bob"), 300)]);
    let tail = c.list_balances(2, 10);
    assert_eq!(tail, vec![(s("carol"), 100)]);
    let empty = c.list_balances(5, 10);
    assert!(empty.is_empty());
    assert_eq!(c.total_users(), 3);
}

#[test]
fn fund_listings_keep_first_credit_order() {
    let mut c = fresh(1000);
    assert_eq!(c.sendToFund(&s("owner.test"), s("pool1"), 10), Ok(()));
    assert_eq!(c.sendToFund(&s("owner.test"), s("pool2"), 20), Ok(()));
    assert_eq!(c.sendToFund(&s("owner.test"), s("pool1"), 5), Ok(()));
    let pools = c.list_fund_balances(0, 10);
    assert_eq!(pools, vec![(s("pool1"), 15), (s("pool2"), 20)]);
    assert_eq!(c.total_fund_users(), 2);
}

#[test]
fn reads_do_not_mutate() {
    let c = fresh(1000);
    let a = c.ft_balance_of(&s("owner.test"));
    let b = c.ft_balance_of(&s("owner.test"));
    assert_eq!(a, b);
    let l1 = c.list_balances(0, 10);
    let l2 = c.list_balances(0, 10);
    assert_eq!(l1, l2);
    assert_eq!(c.total_users(), 1);
    assert_eq!(c.log.len(), 1);
}

#[test]
fn metadata_round_trips() {
    let c = fresh(1000);
    let m = c.ft_metadata();
    assert_eq!(m.spec_version, "ft-1.0.0");
    assert_eq!(m.name, "Example NEAR fungible token");
    assert_eq!(m.symbol, "EXAMPLE");
    assert_eq!(m.decimals, 24);
    assert!(m.icon.is_none());
}

#[test]
fn initialization_happens_at_most_once() {
    let mut slot: Option<Contract> = None;
    assert!(matches!(
        require_initialized(&slot),
        Err(LedgerError::NotInitialized)
    ));
    let r = initialize(&mut slot, s("owner.test"), 1000, meta(), true, true, s("glue.test"));
    assert_eq!(r, Ok(()));
    let c = require_initialized(&slot).unwrap();
    assert_eq!(c.ft_balance_of(&s("owner.test")), 1000);
    let again = initialize(&mut slot, s("eve"), 5, meta(), true, true, s("glue.test"));
    assert_eq!(again, Err(LedgerError::AlreadyInitialized));
    let c = require_initialized(&slot).unwrap();
    assert_eq!(c.ft_balance_of(&s("owner.test")), 1000);
    assert_eq!(c.ft_balance_of(&s("eve")), 0);
}

#[test]
fn conservation_across_a_mixed_run() {
    let mut c = fresh(1000);
    let total = |c: &Contract| -> u128 {
        let mut t: u128 = 0;
        for (_, b) in c.list_balances(0, 100) {
            t += b;
        }
        for (_, b) in c.list_fund_balances(0, 100) {
            t += b;
        }
        t
    };
    assert_eq!(total(&c), 1000);
    assert_eq!(c.ft_transfer(&s("owner.test"), s("bob"), 300), Ok(()));
    assert_eq!(total(&c), 1000);
    assert_eq!(c.sendToFund(&s("glue.test"), s("pool1"), 200), Ok(()));
    assert_eq!(total(&c), 1000);
    assert_eq!(c.mintToken(&s("owner.test"), 50), Ok(()));
    assert_eq!(total(&c), 1050);
    assert_eq!(c.sendFromFund(&s("owner.test"), s("pool1"), s("carol"), 150), Ok(()));
    assert_eq!(total(&c), 1050);
    assert_eq!(c.burnToken(&s("owner.test"), 400), Ok(()));
    assert_eq!(total(&c), 650);
    assert_eq!(c.ft_transfer(&s("mallory"), s("bob"), 1), Err(LedgerError::InsufficientBalance));
    assert_eq!(total(&c), 650);
}

#[test]
fn event_strings_are_json_escaped() {
    let mut c = Contract::new(s("own\"er"), 10, meta(), true, true, s("glue.test")).unwrap();
    assert_eq!(c.ft_transfer(&s("own\"er"), s("b\\ob"), 3), Ok(()));
    let expected = "EVENT_JSON:{\"standard\":\"nep141\",\"version\":\"1.0.0\",\"event\":\"ft_transfer\",\"data\":[{\"old_owner_id\":\"own\\\"er\",\"new_owner_id\":\"b\\\\ob\",\"amount\":\"3\",\"memo\":\"transferred\"}]}";
    assert_eq!(c.log.line(1).as_str(), expected);
}
