use greenova8::addresses::Address;
use greenova8::addresses::Capability;
use greenova8::addresses::Identity;
use greenova8::errors::ErrorCode;
use greenova8::errors::TransferError;
use greenova8::escrow::Escrow;
use greenova8::records::InitializeProject;
use greenova8::records::Invest;
use greenova8::records::WithdrawFunds;

#[test]
fn end_to_end_campaign() {
    let mut escrow = Escrow::new();
    let authority = Identity { key: 7 };
    let investor_a = Identity { key: 10 };
    let investor_b = Identity { key: 11 };
    let investor_c = Identity { key: 12 };

    escrow
        .initialize_project(
            InitializeProject { authority },
            1,
            1_000_000_000,
            "Solar".to_string(),
        )
        .unwrap();
    escrow.fund_wallet(investor_a, 600_000_000).unwrap();
    escrow.fund_wallet(investor_b, 600_000_000).unwrap();
    escrow.fund_wallet(investor_c, 600_000_000).unwrap();

    escrow
        .invest(Invest { project_id: 1, investor: investor_a, now: 1000 }, 500_000_000)
        .unwrap();
    escrow
        .invest(Invest { project_id: 1, investor: investor_b, now: 1001 }, 500_000_000)
        .unwrap();

    let p = escrow.get_project(1).unwrap();
    assert_eq!(p.raised_amount, 1_000_000_000);
    assert_eq!(p.investor_count, 2);
    assert_eq!(escrow.get_balance(Address::VaultAt { project_id: 1 }), 1_000_000_000);

    let r = escrow.invest(Invest { project_id: 1, investor: investor_c, now: 1002 }, 1);
    assert_eq!(r, Err(ErrorCode::ExceedsTargetAmount));
    assert_eq!(escrow.get_project(1).unwrap().raised_amount, 1_000_000_000);

    escrow
        .withdraw_funds(WithdrawFunds { project_id: 1, authority }, 1_000_000_000)
        .unwrap();
    assert_eq!(escrow.get_balance(Address::VaultAt { project_id: 1 }), 0);
    assert_eq!(
        escrow.get_balance(Address::WalletAt { holder: authority }),
        1_000_000_000
    );

    // The withdrawal did not write the raised total down, so the same
    // authorization check admits a further claim of 1: it passes the
    // bookkeeping gate and fails only because the vault is empty.
    assert_eq!(escrow.get_project(1).unwrap().raised_amount, 1_000_000_000);
    let r = escrow.withdraw_funds(WithdrawFunds { project_id: 1, authority }, 1);
    assert_eq!(
        r,
        Err(ErrorCode::TransferFailed(TransferError::InsufficientBalance))
    );

    // Once the vault holds value again, the claim of 1 goes through, even
    // though everything raised has already been paid out once.
    escrow
        .transfer(
            1,
            Address::WalletAt { holder: authority },
            Address::VaultAt { project_id: 1 },
            Capability::Key { owner: authority },
        )
        .unwrap();
    escrow
        .withdraw_funds(WithdrawFunds { project_id: 1, authority }, 1)
        .unwrap();
    assert_eq!(escrow.get_balance(Address::VaultAt { project_id: 1 }), 0);
    assert_eq!(
        escrow.get_balance(Address::WalletAt { holder: authority }),
        1_000_000_000
    );
    assert_eq!(escrow.get_project(1).unwrap().raised_amount, 1_000_000_000);
}
