use greenova8::addresses::Address;
use greenova8::addresses::Capability;
use greenova8::addresses::Identity;
use greenova8::errors::ErrorCode;
use greenova8::errors::TransferError;
use greenova8::escrow::Escrow;
use greenova8::records::InitializeProject;
use greenova8::records::Invest;
use greenova8::records::WithdrawFunds;

fn id(key: u64) -> Identity {
    Identity { key }
}

fn fresh_project(escrow: &mut Escrow, project_id: u64, target: u64, authority: Identity) {
    escrow
        .initialize_project(
            InitializeProject { authority },
            project_id,
            target,
            "Solar".to_string(),
        )
        .unwrap();
}

#[test]
fn create_project_sets_fields() {
    let mut escrow = Escrow::new();
    let authority = id(7);
    let ev = escrow
        .initialize_project(
            InitializeProject { authority },
            42,
            1_000_000_000,
            "Solar".to_string(),
        )
        .unwrap();
    assert_eq!(ev.project_id, 42);
    assert_eq!(ev.target_amount, 1_000_000_000);
    assert_eq!(ev.authority, authority);
    let p = escrow.get_project(42).unwrap();
    assert_eq!(p.project_id, 42);
    assert_eq!(p.target_amount, 1_000_000_000);
    assert_eq!(p.raised_amount, 0);
    assert_eq!(p.investor_count, 0);
    assert_eq!(p.project_name, "Solar".to_string());
    assert!(p.is_active);
    assert_eq!(p.authority, authority);
    assert_eq!(escrow.get_balance(Address::VaultAt { project_id: 42 }), 0);
}

#[test]
fn create_project_accepts_zero_target_and_empty_name() {
    let mut escrow = Escrow::new();
    let ev = escrow
        .initialize_project(InitializeProject { authority: id(1) }, 5, 0, String::new())
        .unwrap();
    assert_eq!(ev.target_amount, 0);
    let p = escrow.get_project(5).unwrap();
    assert_eq!(p.target_amount, 0);
    assert_eq!(p.project_name, String::new());
}

#[test]
fn create_duplicate_project_rejected() {
    let mut escrow = Escrow::new();
    fresh_project(&mut escrow, 1, 1_000_000_000, id(7));
    let r = escrow.initialize_project(
        InitializeProject { authority: id(8) },
        1,
        5,
        "Again".to_string(),
    );
    assert_eq!(r, Err(ErrorCode::AlreadyExists));
    let p = escrow.get_project(1).unwrap();
    assert_eq!(p.authority, id(7));
    assert_eq!(p.target_amount, 1_000_000_000);
    assert!(escrow
        .initialize_project(InitializeProject { authority: id(8) }, 2, 5, "Other".to_string())
        .is_ok());
}

#[test]
fn invest_below_minimum_rejected() {
    let mut escrow = Escrow::new();
    fresh_project(&mut escrow, 1, 1_000_000_000, id(7));
    let investor = id(20);
    escrow.fund_wallet(investor, 500_000_000).unwrap();
    let r = escrow.invest(Invest { project_id: 1, investor, now: 1_700_000_000 }, 99_999_999);
    assert_eq!(r, Err(ErrorCode::MinimumInvestmentNotMet));
    assert_eq!(escrow.get_project(1).unwrap().raised_amount, 0);
    assert_eq!(escrow.get_project(1).unwrap().investor_count, 0);
    assert_eq!(escrow.get_balance(Address::WalletAt { holder: investor }), 500_000_000);
}

#[test]
fn invest_at_minimum_accepted() {
    let mut escrow = Escrow::new();
    fresh_project(&mut escrow, 1, 1_000_000_000, id(7));
    let investor = id(20);
    escrow.fund_wallet(investor, 500_000_000).unwrap();
    let ev = escrow
        .invest(Invest { project_id: 1, investor, now: 1_700_000_000 }, 100_000_000)
        .unwrap();
    assert_eq!(ev.project_id, 1);
    assert_eq!(ev.investor, investor);
    assert_eq!(ev.amount, 100_000_000);
    assert_eq!(ev.timestamp, 1_700_000_000);
    let p = escrow.get_project(1).unwrap();
    assert_eq!(p.raised_amount, 100_000_000);
    assert_eq!(p.investor_count, 1);
    assert_eq!(escrow.get_balance(Address::VaultAt { project_id: 1 }), 100_000_000);
    assert_eq!(escrow.get_balance(Address::WalletAt { holder: investor }), 400_000_000);
    let receipt = escrow.get_investment(1, investor).unwrap();
    assert_eq!(receipt.project_id, 1);
    assert_eq!(receipt.investor, investor);
    assert_eq!(receipt.amount, 100_000_000);
    assert_eq!(receipt.timestamp, 1_700_000_000);
}

#[test]
fn repeat_investor_rejected() {
    let mut escrow = Escrow::new();
    fresh_project(&mut escrow, 1, 1_000_000_000, id(7));
    let investor = id(20);
    escrow.fund_wallet(investor, 900_000_000).unwrap();
    escrow
        .invest(Invest { project_id: 1, investor, now: 100 }, 100_000_000)
        .unwrap();
    let r = escrow.invest(Invest { project_id: 1, investor, now: 200 }, 100_000_000);
    assert_eq!(r, Err(ErrorCode::AlreadyExists));
    let p = escrow.get_project(1).unwrap();
    assert_eq!(p.raised_amount, 100_000_000);
    assert_eq!(p.investor_count, 1);
    assert_eq!(escrow.get_investment(1, investor).unwrap().timestamp, 100);
    assert_eq!(escrow.get_balance(Address::WalletAt { holder: investor }), 800_000_000);
}

#[test]
fn invest_exceeds_target_rejected_boundary_accepted() {
    let mut escrow = Escrow::new();
    fresh_project(&mut escrow, 1, 1_000_000_000, id(7));
    let first = id(20);
    let second = id(21);
    escrow.fund_wallet(first, 1_000_000_000).unwrap();
    escrow.fund_wallet(second, 1_000_000_000).unwrap();
    escrow
        .invest(Invest { project_id: 1, investor: first, now: 1 }, 500_000_000)
        .unwrap();
    let r = escrow.invest(Invest { project_id: 1, investor: second, now: 2 }, 600_000_000);
    assert_eq!(r, Err(ErrorCode::ExceedsTargetAmount));
    assert_eq!(escrow.get_project(1).unwrap().raised_amount, 500_000_000);
    let ev = escrow
        .invest(Invest { project_id: 1, investor: second, now: 3 }, 500_000_000)
        .unwrap();
    assert_eq!(ev.amount, 500_000_000);
    assert_eq!(escrow.get_project(1).unwrap().raised_amount, 1_000_000_000);
}

#[test]
fn invest_underfunded_wallet_fails() {
    let mut escrow = Escrow::new();
    fresh_project(&mut escrow, 1, 1_000_000_000, id(7));
    let investor = id(20);
    escrow.fund_wallet(investor, 50_000_000).unwrap();
    let r = escrow.invest(Invest { project_id: 1, investor, now: 1 }, 100_000_000);
    assert_eq!(
        r,
        Err(ErrorCode::TransferFailed(TransferError::InsufficientBalance))
    );
    assert_eq!(escrow.get_project(1).unwrap().raised_amount, 0);
    assert_eq!(escrow.get_balance(Address::WalletAt { holder: investor }), 50_000_000);
    assert!(escrow.get_investment(1, investor).is_none());
}

#[test]
fn invest_overflow_rejected() {
    let mut escrow = Escrow::new();
    fresh_project(&mut escrow, 1, u64::MAX, id(7));
    let first = id(20);
    escrow.fund_wallet(first, 200_000_000).unwrap();
    escrow
        .invest(Invest { project_id: 1, investor: first, now: 1 }, 100_000_000)
        .unwrap();
    let second = id(21);
    let r = escrow.invest(Invest { project_id: 1, investor: second, now: 2 }, u64::MAX);
    assert_eq!(r, Err(ErrorCode::ArithmeticOverflow));
    assert_eq!(escrow.get_project(1).unwrap().raised_amount, 100_000_000);
}

#[test]
fn withdraw_unauthorized_rejected() {
    let mut escrow = Escrow::new();
    let authority = id(7);
    fresh_project(&mut escrow, 1, 1_000_000_000, authority);
    let investor = id(20);
    escrow.fund_wallet(investor, 500_000_000).unwrap();
    escrow
        .invest(Invest { project_id: 1, investor, now: 1 }, 500_000_000)
        .unwrap();
    let intruder = id(99);
    let r = escrow.withdraw_funds(WithdrawFunds { project_id: 1, authority: intruder }, 1);
    assert_eq!(r, Err(ErrorCode::Unauthorized));
    assert_eq!(escrow.get_balance(Address::VaultAt { project_id: 1 }), 500_000_000);
    assert_eq!(escrow.get_balance(Address::WalletAt { holder: intruder }), 0);
}

#[test]
fn withdraw_moves_funds_and_repeats() {
    let mut escrow = Escrow::new();
    let authority = id(7);
    fresh_project(&mut escrow, 1, 1_000_000_000, authority);
    let investor = id(20);
    escrow.fund_wallet(investor, 400_000_000).unwrap();
    escrow
        .invest(Invest { project_id: 1, investor, now: 1 }, 400_000_000)
        .unwrap();
    let ev = escrow
        .withdraw_funds(WithdrawFunds { project_id: 1, authority }, 200_000_000)
        .unwrap();
    assert_eq!(ev.project_id, 1);
    assert_eq!(ev.authority, authority);
    assert_eq!(ev.amount, 200_000_000);
    assert_eq!(escrow.get_balance(Address::VaultAt { project_id: 1 }), 200_000_000);
    assert_eq!(escrow.get_balance(Address::WalletAt { holder: authority }), 200_000_000);
    escrow
        .withdraw_funds(WithdrawFunds { project_id: 1, authority }, 200_000_000)
        .unwrap();
    assert_eq!(escrow.get_balance(Address::VaultAt { project_id: 1 }), 0);
    assert_eq!(escrow.get_balance(Address::WalletAt { holder: authority }), 400_000_000);
    assert_eq!(escrow.get_project(1).unwrap().raised_amount, 400_000_000);
}

#[test]
fn withdraw_more_than_raised_rejected() {
    let mut escrow = Escrow::new();
    let authority = id(7);
    fresh_project(&mut escrow, 1, 1_000_000_000, authority);
    let investor = id(20);
    escrow.fund_wallet(investor, 400_000_000).unwrap();
    escrow
        .invest(Invest { project_id: 1, investor, now: 1 }, 400_000_000)
        .unwrap();
    let r = escrow.withdraw_funds(WithdrawFunds { project_id: 1, authority }, 400_000_001);
    assert_eq!(r, Err(ErrorCode::InsufficientFunds));
    assert_eq!(escrow.get_balance(Address::VaultAt { project_id: 1 }), 400_000_000);
}

#[test]
fn fund_wallet_overflow_rejected() {
    let mut escrow = Escrow::new();
    let holder = id(1);
    escrow.fund_wallet(holder, u64::MAX).unwrap();
    assert_eq!(escrow.get_balance(Address::WalletAt { holder }), u64::MAX);
    let r = escrow.fund_wallet(id(2), 1);
    assert_eq!(r, Err(ErrorCode::ArithmeticOverflow));
    assert_eq!(escrow.get_balance(Address::WalletAt { holder: id(2) }), 0);
}

#[test]
fn transfer_requires_matching_capability() {
    let mut escrow = Escrow::new();
    let owner = id(1);
    let other = id(2);
    escrow.fund_wallet(owner, 300).unwrap();
    let from = Address::WalletAt { holder: owner };
    let to = Address::WalletAt { holder: other };
    let r = escrow.transfer(100, from, to, Capability::Key { owner: other });
    assert_eq!(r, Err(TransferError::Unauthorized));
    let r = escrow.transfer(100, from, to, Capability::VaultAuthority { project_id: 1 });
    assert_eq!(r, Err(TransferError::Unauthorized));
    assert_eq!(escrow.get_balance(from), 300);
    escrow.transfer(100, from, to, Capability::Key { owner }).unwrap();
    assert_eq!(escrow.get_balance(from), 200);
    assert_eq!(escrow.get_balance(to), 100);
}

#[test]
fn transfer_insufficient_balance_rejected() {
    let mut escrow = Escrow::new();
    let owner = id(1);
    escrow.fund_wallet(owner, 50).unwrap();
    let from = Address::WalletAt { holder: owner };
    let to = Address::WalletAt { holder: id(2) };
    let r = escrow.transfer(51, from, to, Capability::Key { owner });
    assert_eq!(r, Err(TransferError::InsufficientBalance));
    assert_eq!(escrow.get_balance(from), 50);
    assert_eq!(escrow.get_balance(to), 0);
}

#[test]
fn raised_accumulates_over_investors() {
    let mut escrow = Escrow::new();
    fresh_project(&mut escrow, 1, 1_000_000_000, id(7));
    let amounts: [u64; 3] = [100_000_000, 200_000_000, 300_000_000];
    for (k, amount) in amounts.iter().enumerate() {
        let investor = id(20 + k as u64);
        escrow.fund_wallet(investor, *amount).unwrap();
        escrow
            .invest(Invest { project_id: 1, investor, now: k as i64 }, *amount)
            .unwrap();
    }
    let p = escrow.get_project(1).unwrap();
    assert_eq!(p.raised_amount, 600_000_000);
    assert_eq!(p.investor_count, 3);
    assert_eq!(escrow.get_balance(Address::VaultAt { project_id: 1 }), 600_000_000);
}

#[test]
fn transfer_to_self_changes_nothing() {
    let mut escrow = Escrow::new();
    let owner = id(1);
    escrow.fund_wallet(owner, 300).unwrap();
    let a = Address::WalletAt { holder: owner };
    escrow.transfer(200, a, a, Capability::Key { owner }).unwrap();
    assert_eq!(escrow.get_balance(a), 300);
    let r = escrow.transfer(301, a, a, Capability::Key { owner });
    assert_eq!(r, Err(TransferError::InsufficientBalance));
}

#[test]
fn missing_project_reads_as_none() {
    let escrow = Escrow::new();
    assert!(escrow.get_project(1).is_none());
    assert!(escrow.get_investment(1, id(2)).is_none());
    assert_eq!(escrow.get_balance(Address::VaultAt { project_id: 1 }), 0);
}
