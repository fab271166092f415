use vstd::prelude::*;

verus! {

/// A principal, held as a fixed-size key. Identities sign for their own
/// wallets; one of them is recorded as a project's withdrawal authority.
#[derive(Clone, Copy, Debug, PartialEq, Eq, Structural)]
pub struct Identity {
    pub key: u64,
}

/// A derived storage location: a role tag together with the key fields that
/// the role needs. Re-deriving with the same inputs always yields the same
/// address, distinct inputs always yield distinct addresses, and no central
/// directory is needed to locate a resource.
#[derive(Clone, Copy, Debug, PartialEq, Eq, Structural)]
pub enum Address {
    /// The project record of the project named by `project_id`.
    ProjectAt { project_id: u64 },
    /// The custody vault pooling the funds of the project named by `project_id`.
    VaultAt { project_id: u64 },
    /// The single investment receipt of `investor` in the project named by
    /// `project_id`.
    InvestmentAt { project_id: u64, investor: Identity },
    /// The value account that `holder` controls with their own key.
    WalletAt { holder: Identity },
}

/// Evidence of the right to move value out of an account. A wallet is spent
/// with its holder's own key; a vault authorizes outgoing transfers of its own
/// funds through a capability derived from the project's identity, which is
/// never reachable through any human key.
#[derive(Clone, Copy, Debug, PartialEq, Eq, Structural)]
pub enum Capability {
    /// A signature by `owner`'s own key.
    Key { owner: Identity },
    /// The self-authorization of the vault of the project named by `project_id`.
    VaultAuthority { project_id: u64 },
}

/// The derived address of a project record.
pub open spec fn project_address(project_id: u64) -> Address {
    Address::ProjectAt { project_id }
}

/// The derived address of a project's custody vault.
pub open spec fn vault_address(project_id: u64) -> Address {
    Address::VaultAt { project_id }
}

/// The derived address of one investor's receipt in one project.
pub open spec fn investment_address(project_id: u64, investor: Identity) -> Address {
    Address::InvestmentAt { project_id, investor }
}

/// The derived address of an identity's own value account.
pub open spec fn wallet_address(holder: Identity) -> Address {
    Address::WalletAt { holder }
}

/// Whether `a` locates a value account: a wallet or a vault. Only value
/// accounts carry a balance, and only they can take part in a transfer.
pub open spec fn is_value_address(a: Address) -> bool {
    a is VaultAt || a is WalletAt
}

/// Whether capability `c` controls outgoing transfers from the account at
/// `from`: a wallet is controlled by its holder's key, a vault only by its own
/// derived authority.
pub open spec fn authorizes(c: Capability, from: Address) -> bool {
    match from {
        Address::WalletAt { holder } => c == (Capability::Key { owner: holder }),
        Address::VaultAt { project_id } => c == (Capability::VaultAuthority { project_id }),
        _ => false,
    }
}

/// Address derivation is deterministic and collision-free: equal (role, key)
/// inputs give equal addresses, addresses of distinct roles never coincide,
/// and within one role the address determines the key fields.
pub proof fn lemma_address_derivation_injective(
    pid_a: u64,
    pid_b: u64,
    inv_a: Identity,
    inv_b: Identity,
)
    ensures
        project_address(pid_a) == project_address(pid_b) <==> pid_a == pid_b,
        vault_address(pid_a) == vault_address(pid_b) <==> pid_a == pid_b,
        wallet_address(inv_a) == wallet_address(inv_b) <==> inv_a == inv_b,
        investment_address(pid_a, inv_a) == investment_address(pid_b, inv_b) <==> (pid_a == pid_b && inv_a == inv_b),
        project_address(pid_a) != vault_address(pid_b),
        project_address(pid_a) != investment_address(pid_b, inv_b),
        project_address(pid_a) != wallet_address(inv_b),
        vault_address(pid_a) != investment_address(pid_b, inv_b),
        vault_address(pid_a) != wallet_address(inv_b),
        investment_address(pid_a, inv_a) != wallet_address(inv_b),
{
}

} // verus!
