use erc20::AccountId;
use erc20::Erc20;
use erc20::Error;
use erc20::Event;
use erc20::EventLog;

#[test]
fn construction_credits_creator() {
    let creator = AccountId(1);
    let ledger = Erc20::new(1000, creator);
    assert_eq!(ledger.total_supply(), 1000);
    assert_eq!(ledger.balance_of(creator), 1000);
    assert_eq!(ledger.balance_of(AccountId(2)), 0);
    assert_eq!(ledger.allowance(creator, AccountId(2)), 0);
}

#[test]
fn transfer_moves_value() {
    let a = AccountId(1);
    let b = AccountId(2);
    let mut sink = EventLog::new();
    let mut ledger = Erc20::new(1000, a);
    assert_eq!(ledger.transfer(a, b, 300, &mut sink), Ok(()));
    assert_eq!(ledger.balance_of(a), 700);
    assert_eq!(ledger.balance_of(b), 300);
    assert_eq!(ledger.total_supply(), 1000);
}

#[test]
fn transfer_emits_one_notification() {
    let a = AccountId(1);
    let b = AccountId(2);
    let mut sink = EventLog::new();
    let mut ledger = Erc20::new(1000, a);
    assert_eq!(ledger.transfer(a, b, 300, &mut sink), Ok(()));
    assert_eq!(sink.len(), 1);
    match sink.get(0) {
        Event::Transfer(t) => {
            assert_eq!(t.from, a);
            assert_eq!(t.to, b);
            assert_eq!(t.value, 300);
        }
        Event::Approval(_) => panic!("expected a transfer notification"),
    }
}

#[test]
fn transfer_insufficient_balance_changes_nothing() {
    let a = AccountId(1);
    let b = AccountId(2);
    let mut sink = EventLog::new();
    let mut ledger = Erc20::new(100, a);
    assert_eq!(ledger.transfer(a, b, 101, &mut sink), Err(Error::InsufficientBalance));
    assert_eq!(ledger.balance_of(a), 100);
    assert_eq!(ledger.balance_of(b), 0);
    assert_eq!(sink.len(), 0);
}

#[test]
fn transfer_zero_value_succeeds_and_notifies() {
    let a = AccountId(1);
    let b = AccountId(2);
    let mut sink = EventLog::new();
    let mut ledger = Erc20::new(100, a);
    assert_eq!(ledger.transfer(a, b, 0, &mut sink), Ok(()));
    assert_eq!(ledger.balance_of(a), 100);
    assert_eq!(ledger.balance_of(b), 0);
    assert_eq!(sink.len(), 1);
}

#[test]
fn transfer_from_empty_account_zero_value_succeeds() {
    let a = AccountId(1);
    let b = AccountId(2);
    let mut sink = EventLog::new();
    let mut ledger = Erc20::new(100, a);
    assert_eq!(ledger.transfer(b, a, 0, &mut sink), Ok(()));
    assert_eq!(ledger.balance_of(a), 100);
    assert_eq!(ledger.balance_of(b), 0);
}

#[test]
fn self_transfer_is_a_no_op_but_notifies() {
    let a = AccountId(1);
    let mut sink = EventLog::new();
    let mut ledger = Erc20::new(100, a);
    assert_eq!(ledger.transfer(a, a, 5, &mut sink), Ok(()));
    assert_eq!(ledger.balance_of(a), 100);
    assert_eq!(sink.len(), 1);
    match sink.get(0) {
        Event::Transfer(t) => {
            assert_eq!(t.from, a);
            assert_eq!(t.to, a);
            assert_eq!(t.value, 5);
        }
        Event::Approval(_) => panic!("expected a transfer notification"),
    }
}

#[test]
fn self_transfer_still_checks_balance() {
    let a = AccountId(1);
    let mut sink = EventLog::new();
    let mut ledger = Erc20::new(100, a);
    assert_eq!(ledger.transfer(a, a, 101, &mut sink), Err(Error::InsufficientBalance));
    assert_eq!(ledger.balance_of(a), 100);
    assert_eq!(sink.len(), 0);
}

#[test]
fn approve_sets_allowance_and_notifies() {
    let owner = AccountId(1);
    let spender = AccountId(2);
    let mut sink = EventLog::new();
    let mut ledger = Erc20::new(1000, owner);
    assert_eq!(ledger.approve(owner, spender, 250, &mut sink), Ok(()));
    assert_eq!(ledger.allowance(owner, spender), 250);
    assert_eq!(ledger.allowance(spender, owner), 0);
    assert_eq!(ledger.balance_of(owner), 1000);
    assert_eq!(sink.len(), 1);
    match sink.get(0) {
        Event::Approval(ap) => {
            assert_eq!(ap.owner, owner);
            assert_eq!(ap.spender, spender);
            assert_eq!(ap.value, 250);
        }
        Event::Transfer(_) => panic!("expected an approval notification"),
    }
}

#[test]
fn approve_overwrites_instead_of_adding() {
    let owner = AccountId(1);
    let spender = AccountId(2);
    let mut sink = EventLog::new();
    let mut ledger = Erc20::new(1000, owner);
    assert_eq!(ledger.approve(owner, spender, 70, &mut sink), Ok(()));
    assert_eq!(ledger.approve(owner, spender, 30, &mut sink), Ok(()));
    assert_eq!(ledger.allowance(owner, spender), 30);
}

#[test]
fn delegated_spend_decrements_exactly_once() {
    let owner = AccountId(1);
    let spender = AccountId(2);
    let dest = AccountId(3);
    let mut sink = EventLog::new();
    let mut ledger = Erc20::new(100, owner);
    assert_eq!(ledger.approve(owner, spender, 100, &mut sink), Ok(()));
    assert_eq!(ledger.transfer_from(spender, owner, dest, 40, &mut sink), Ok(()));
    assert_eq!(ledger.allowance(owner, spender), 60);
    assert_eq!(ledger.balance_of(owner), 60);
    assert_eq!(ledger.balance_of(dest), 40);
}

#[test]
fn delegated_transfer_notification_names_the_accounts() {
    let owner = AccountId(1);
    let spender = AccountId(2);
    let dest = AccountId(3);
    let mut sink = EventLog::new();
    let mut ledger = Erc20::new(100, owner);
    assert_eq!(ledger.approve(owner, spender, 100, &mut sink), Ok(()));
    assert_eq!(ledger.transfer_from(spender, owner, dest, 40, &mut sink), Ok(()));
    assert_eq!(sink.len(), 2);
    match sink.get(1) {
        Event::Transfer(t) => {
            assert_eq!(t.from, owner);
            assert_eq!(t.to, dest);
            assert_eq!(t.value, 40);
        }
        Event::Approval(_) => panic!("expected a transfer notification"),
    }
}

#[test]
fn insufficient_allowance_blocks_despite_balance() {
    let owner = AccountId(1);
    let spender = AccountId(2);
    let dest = AccountId(3);
    let mut sink = EventLog::new();
    let mut ledger = Erc20::new(1000, owner);
    assert_eq!(ledger.approve(owner, spender, 10, &mut sink), Ok(()));
    assert_eq!(
        ledger.transfer_from(spender, owner, dest, 50, &mut sink),
        Err(Error::InsufficientAllowance)
    );
    assert_eq!(ledger.balance_of(owner), 1000);
    assert_eq!(ledger.balance_of(dest), 0);
    assert_eq!(ledger.allowance(owner, spender), 10);
}

#[test]
fn insufficient_balance_blocks_despite_allowance() {
    let owner = AccountId(1);
    let spender = AccountId(2);
    let dest = AccountId(3);
    let other = AccountId(4);
    let mut sink = EventLog::new();
    let mut ledger = Erc20::new(1000, owner);
    assert_eq!(ledger.transfer(owner, other, 990, &mut sink), Ok(()));
    assert_eq!(ledger.balance_of(owner), 10);
    assert_eq!(ledger.approve(owner, spender, 1000, &mut sink), Ok(()));
    assert_eq!(
        ledger.transfer_from(spender, owner, dest, 50, &mut sink),
        Err(Error::InsufficientBalance)
    );
    assert_eq!(ledger.balance_of(owner), 10);
    assert_eq!(ledger.balance_of(dest), 0);
    assert_eq!(ledger.allowance(owner, spender), 1000);
}

#[test]
fn balances_always_sum_to_total_supply() {
    let a = AccountId(1);
    let b = AccountId(2);
    let c = AccountId(3);
    let mut sink = EventLog::new();
    let mut ledger = Erc20::new(1000, a);
    assert_eq!(ledger.transfer(a, b, 400, &mut sink), Ok(()));
    assert_eq!(ledger.approve(b, c, 150, &mut sink), Ok(()));
    assert_eq!(ledger.transfer_from(c, b, c, 150, &mut sink), Ok(()));
    assert_eq!(ledger.transfer(c, a, 25, &mut sink), Ok(()));
    let total = ledger.balance_of(a) + ledger.balance_of(b) + ledger.balance_of(c);
    assert_eq!(total, ledger.total_supply());
}

#[test]
fn full_balance_can_move() {
    let a = AccountId(1);
    let b = AccountId(2);
    let mut sink = EventLog::new();
    let mut ledger = Erc20::new(u128::MAX, a);
    assert_eq!(ledger.transfer(a, b, u128::MAX, &mut sink), Ok(()));
    assert_eq!(ledger.balance_of(a), 0);
    assert_eq!(ledger.balance_of(b), u128::MAX);
    assert_eq!(ledger.transfer(b, a, 1, &mut sink), Ok(()));
    assert_eq!(ledger.balance_of(a), 1);
    assert_eq!(ledger.balance_of(b), u128::MAX - 1);
}

#[test]
fn zero_supply_ledger_works() {
    let a = AccountId(1);
    let b = AccountId(2);
    let mut sink = EventLog::new();
    let mut ledger = Erc20::new(0, a);
    assert_eq!(ledger.balance_of(a), 0);
    assert_eq!(ledger.transfer(a, b, 0, &mut sink), Ok(()));
    assert_eq!(ledger.transfer(a, b, 1, &mut sink), Err(Error::InsufficientBalance));
}
