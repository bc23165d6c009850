use soroban_sdk::testutils::storage::Persistent;
use soroban_sdk::testutils::{Address as _, ContractFunctionSet, EnvTestConfig};
use soroban_sdk::{Address, Env, Symbol, Val};
use zk_verifier::vaults::VaultContract;

struct Vault;

impl ContractFunctionSet for Vault {
    fn call(&self, _func: &str, _env: Env, _args: &[Val]) -> Option<Val> {
        None
    }
}

#[test]
fn test_extend_vault_user_ttl() {
    let env = Env::new_with_config(EnvTestConfig { capture_snapshot_at_drop: false });
    let contract_id = env.register(Vault, ());
    let user = Address::generate(&env);

    let key = (Symbol::new(&env, "Balance"), user.clone());
    env.as_contract(&contract_id, || {
        env.storage().persistent().set(&key, &1000i128);

        let extension = VaultContract::extend_vault_user_ttl(user.clone());
        let entry = (Symbol::new(&env, extension.entry), extension.user);
        env.storage().persistent().extend_ttl(&entry, extension.threshold, extension.extend_to);

        let ttl = env.storage().persistent().get_ttl(&key);
        assert!(ttl >= 100_000);
    });
}

#[test]
fn the_extension_names_the_balance_of_the_user() {
    let env = Env::default();
    let user = Address::generate(&env);
    let extension = VaultContract::extend_vault_user_ttl(user.clone());
    assert_eq!(extension.entry, "Balance");
    assert_eq!(extension.user, user);
    assert_eq!(extension.threshold, 100_000);
    assert_eq!(extension.extend_to, 100_000);
}
