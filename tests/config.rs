use multisig::config::{ConfigError, ConfigModule, OngoingUpgradeOperation};

fn addr(n: u8) -> [u8; 32] {
    [n; 32]
}

#[test]
fn ongoing_upgrade_operation_keeps_its_parts() {
    let op = OngoingUpgradeOperation::new(addr(1), vec![vec![1, 2], vec![3]], vec![addr(2), addr(3)]);
    assert_eq!(op.template_address, addr(1));
    assert_eq!(op.arguments, vec![vec![1, 2], vec![3]]);
    assert_eq!(op.contracts_remaining, vec![addr(2), addr(3)]);
}

#[test]
fn blacklist_rules() {
    let owner = addr(1);
    let mut c = ConfigModule::new(owner);
    assert_eq!(c.add_deployer(&addr(9), &addr(2)), Err(ConfigError::NotOwner));
    assert_eq!(c.add_deployer_to_blacklist(&owner, &addr(2)), Err(ConfigError::NotADeployer));
    c.add_deployer(&owner, &addr(2)).unwrap();
    c.add_deployer(&owner, &addr(3)).unwrap();
    c.add_deployer(&owner, &addr(4)).unwrap();
    c.add_deployer(&owner, &addr(4)).unwrap();
    assert_eq!(c.get_all_deployers(), &vec![addr(2), addr(3), addr(4)]);
    assert_eq!(c.add_deployer_to_blacklist(&owner, &addr(2)), Ok(()));
    assert_eq!(c.add_deployer_to_blacklist(&owner, &addr(2)), Err(ConfigError::AlreadyBlacklisted));
    c.add_deployer_to_blacklist(&owner, &addr(3)).unwrap();
    c.add_deployer_to_blacklist(&owner, &addr(4)).unwrap();
    assert_eq!(c.remove_deployer_from_blacklist(&owner, &addr(2)), Ok(()));
    assert_eq!(c.get_all_blacklisted_deployers(), &vec![addr(4), addr(3)]);
    assert_eq!(c.remove_deployer_from_blacklist(&owner, &addr(2)), Err(ConfigError::NotBlacklisted));
    assert_eq!(c.remove_deployer_from_blacklist(&addr(2), &addr(3)), Err(ConfigError::NotOwner));
}

#[test]
fn default_gas_is_owner_only() {
    let owner = addr(1);
    let mut c = ConfigModule::new(owner);
    assert_eq!(c.set_default_gas_for_save_operation(&addr(2), 5), Err(ConfigError::NotOwner));
    assert_eq!(c.get_default_gas_for_save_operation(), 0);
    c.set_default_gas_for_save_operation(&owner, 5_000_000).unwrap();
    assert_eq!(c.get_default_gas_for_save_operation(), 5_000_000);
}

#[test]
fn deployed_contracts_by_template_and_in_all() {
    let mut c = ConfigModule::new(addr(1));
    let user = addr(5);
    let (t1, t2) = (addr(10), addr(11));
    c.record_deployed_contract(&user, &t1, &addr(20));
    c.record_deployed_contract(&user, &t2, &addr(21));
    c.record_deployed_contract(&user, &t1, &addr(22));
    c.record_deployed_contract(&addr(6), &t1, &addr(23));
    assert_eq!(c.get_deployer_contracts_by_template(&user, &t1), vec![addr(20), addr(22)]);
    assert_eq!(c.get_deployer_contracts_by_template(&user, &t2), vec![addr(21)]);
    assert_eq!(c.get_deployer_contracts_by_template(&user, &addr(12)), Vec::<[u8; 32]>::new());
    assert_eq!(c.get_all_deployer_contracts(&user), vec![addr(20), addr(22), addr(21)]);
    assert_eq!(c.get_all_deployer_contracts(&addr(7)), Vec::<[u8; 32]>::new());
}
