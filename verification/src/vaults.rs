//! The rent of vault balances: how long a user's balance is kept alive in persistent storage.

use vstd::prelude::*;
use soroban_sdk::Address;

verus! {

/// The first part of the storage key of a balance; the second is the user's address.
pub const BALANCE_KEY: &'static str = "Balance";

/// A balance that has fewer ledgers to live than this is extended.
pub const TTL_THRESHOLD: u32 = 100_000;

/// How many ledgers an extended balance has to live.
pub const TTL_EXTENSION: u32 = 100_000;

/// A request to keep the entry under `(entry, user)` alive: if it has fewer than `threshold`
/// ledgers to live, it is to have `extend_to`.
pub struct TtlExtension {
    pub entry: &'static str,
    pub user: Address,
    pub threshold: u32,
    pub extend_to: u32,
}

impl TtlExtension {
    /// The time to live that is asked for, for an entry that has `ttl` ledgers to live.
    pub open spec fn requested_ttl(self, ttl: nat) -> nat {
        if ttl < self.threshold {
            self.extend_to as nat
        } else {
            ttl
        }
    }
}

/// `extension` is the one that a user's balance is kept alive with.
pub open spec fn extends_balance_of(extension: TtlExtension, user: Address) -> bool {
    &&& extension.entry@ == BALANCE_KEY@
    &&& extension.user == user
    &&& extension.threshold == TTL_THRESHOLD
    &&& extension.extend_to == TTL_EXTENSION
}

/// Keeps vault balances alive.
#[derive(Clone, Copy, Debug, PartialEq, Eq)]
pub struct VaultContract;

impl VaultContract {
    /// The extension that keeps the balance of `user_address` alive.
    pub fn extend_vault_user_ttl(user_address: Address) -> (extension: TtlExtension)
        ensures
            extends_balance_of(extension, user_address),
    {
        TtlExtension {
            entry: BALANCE_KEY,
            user: user_address,
            threshold: TTL_THRESHOLD,
            extend_to: TTL_EXTENSION,
        }
    }
}

/// The extension is for the entry of the user under `Balance`. It leaves an entry with 100000
/// ledgers or more to live as it is, and gives any other 100000.
pub proof fn law_extension_is_of_the_balance(extension: TtlExtension, user: Address, ttl: nat)
    requires
        extends_balance_of(extension, user),
    ensures
        extension.entry@ == "Balance"@,
        extension.user == user,
        extension.threshold == 100_000,
        extension.extend_to == 100_000,
        ttl < 100_000 ==> extension.requested_ttl(ttl) == 100_000,
        ttl >= 100_000 ==> extension.requested_ttl(ttl) == ttl,
{
}

/// However long a balance had to live, the extension asks for at least `TTL_EXTENSION` ledgers,
/// and never for fewer than there were.
pub proof fn law_extension_never_shortens(extension: TtlExtension, user: Address, ttl: nat)
    requires
        extends_balance_of(extension, user),
    ensures
        extension.requested_ttl(ttl) >= TTL_EXTENSION,
        extension.requested_ttl(ttl) >= ttl,
{
}

} // verus!
