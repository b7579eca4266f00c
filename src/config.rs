use vstd::prelude::*;

use crate::identity::addresses_distinct;
use crate::state::copy_vec;
use crate::types::{addresses_equal, Address};

verus! {

/// An upgrade of many contracts to the code of one template, done in steps:
/// the contracts that still wait for the upgrade, and the arguments each gets.
pub struct OngoingUpgradeOperation {
    pub template_address: Address,
    pub arguments: Vec<Vec<u8>>,
    pub contracts_remaining: Vec<Address>,
}

impl OngoingUpgradeOperation {
    pub fn new(
        template_address: Address,
        arguments: Vec<Vec<u8>>,
        contracts_remaining: Vec<Address>,
    ) -> (r: Self)
        ensures
            r.template_address == template_address,
            r.arguments == arguments,
            r.contracts_remaining == contracts_remaining,
    {
        OngoingUpgradeOperation { template_address, arguments, contracts_remaining }
    }
}

/// Why an operation of the configuration was refused; a refused call changes nothing.
#[derive(Clone, Copy, Debug, PartialEq, Eq, Structural)]
pub enum ConfigError {
    /// Only the owner may change the configuration.
    NotOwner,
    /// The address is not a deployer.
    NotADeployer,
    /// The deployer is already blacklisted.
    AlreadyBlacklisted,
    /// The address is not blacklisted.
    NotBlacklisted,
}

/// The contracts that one deployer deployed from one template, oldest first.
pub struct DeployedFromTemplate {
    pub deployer: Address,
    pub template: Address,
    pub contracts: Vec<Address>,
}

/// Whether `a` occurs in `s`.
pub open spec fn has_address(s: Seq<Address>, a: Address) -> bool {
    exists|i: int| 0 <= i < s.len() && s[i] == a
}

/// The contracts that `user` deployed, template by template in the order the
/// templates were first used, each template's contracts oldest first.
pub open spec fn all_contracts_of(records: Seq<(Address, Address, Seq<Address>)>, user: Address) -> Seq<Address>
    decreases records.len(),
{
    if records.len() == 0 {
        Seq::empty()
    } else if records.last().0 == user {
        all_contracts_of(records.drop_last(), user) + records.last().2
    } else {
        all_contracts_of(records.drop_last(), user)
    }
}

/// The contracts that `user` deployed from `template`; empty where there are none.
pub open spec fn contracts_by_template(records: Seq<(Address, Address, Seq<Address>)>, user: Address, template: Address) -> Seq<Address>
    decreases records.len(),
{
    if records.len() == 0 {
        Seq::empty()
    } else if records.last().0 == user && records.last().1 == template {
        records.last().2
    } else {
        contracts_by_template(records.drop_last(), user, template)
    }
}

/// Index of the last record of `user` and `template`; -1 where there is none.
pub open spec fn find_record(records: Seq<(Address, Address, Seq<Address>)>, user: Address, template: Address) -> int
    decreases records.len(),
{
    if records.len() == 0 {
        -1
    } else if records.last().0 == user && records.last().1 == template {
        records.len() - 1
    } else {
        find_record(records.drop_last(), user, template)
    }
}

pub proof fn lemma_find_record(records: Seq<(Address, Address, Seq<Address>)>, user: Address, template: Address)
    ensures
        -1 <= find_record(records, user, template) < records.len(),
        find_record(records, user, template) >= 0 ==> records[find_record(records, user, template)].0 == user
            && records[find_record(records, user, template)].1 == template
            && contracts_by_template(records, user, template) == records[find_record(records, user, template)].2,
        find_record(records, user, template) < 0 ==> contracts_by_template(records, user, template)
            == Seq::<Address>::empty(),
        forall|k: int|
            find_record(records, user, template) < k < records.len() ==> !((#[trigger] records[k]).0 == user
                && records[k].1 == template),
    decreases records.len(),
{
    if records.len() > 0 {
        lemma_find_record(records.drop_last(), user, template);
        let p = records.drop_last();
        if !(records.last().0 == user && records.last().1 == template) {
            assert forall|k: int| find_record(records, user, template) < k < records.len() implies !(
            (#[trigger] records[k]).0 == user && records[k].1 == template) by {
                if k < records.len() - 1 {
                    assert(p[k] == records[k]);
                }
            }
        }
    }
}

/// Position of `a` in `v`, if it occurs.
pub fn find_address(v: &Vec<Address>, a: &Address) -> (r: Option<usize>)
    ensures
        match r {
            Some(i) => i < v@.len() && v@[i as int] == *a,
            None => !has_address(v@, *a),
        },
{
    let mut i: usize = 0;
    while i < v.len()
        invariant
            i <= v@.len(),
            forall|k: int| 0 <= k < i ==> v@[k] != *a,
        decreases v@.len() - i,
    {
        if addresses_equal(&v[i], a) {
            return Some(i);
        }
        i = i + 1;
    }
    None
}

/// Configuration of the deployer: who owns it, who may deploy, who is
/// blacklisted, the gas given to a save operation, and what each deployer deployed.
pub struct ConfigModule {
    owner: Address,
    deployers_list: Vec<Address>,
    blacklisted_deployers_list: Vec<Address>,
    default_gas_for_save_operation: u64,
    deployer_template_addresses: Vec<DeployedFromTemplate>,
}

/// The configuration as plain values.
pub struct ConfigView {
    pub owner: Address,
    pub deployers: Seq<Address>,
    pub blacklist: Seq<Address>,
    pub default_gas: u64,
    pub deployed: Seq<(Address, Address, Seq<Address>)>,
}

impl View for ConfigModule {
    type V = ConfigView;

    closed spec fn view(&self) -> ConfigView {
        ConfigView {
            owner: self.owner,
            deployers: self.deployers_list@,
            blacklist: self.blacklisted_deployers_list@,
            default_gas: self.default_gas_for_save_operation,
            deployed: self.deployer_template_addresses@.map_values(
                |r: DeployedFromTemplate| (r.deployer, r.template, r.contracts@),
            ),
        }
    }
}

impl ConfigModule {
    /// Neither list holds an address twice.
    pub open spec fn wf(&self) -> bool {
        &&& addresses_distinct(self@.deployers)
        &&& addresses_distinct(self@.blacklist)
    }

    pub fn new(owner: Address) -> (r: Self)
        ensures
            r.wf(),
            r@.owner == owner,
            r@.deployers == Seq::<Address>::empty(),
            r@.blacklist == Seq::<Address>::empty(),
            r@.default_gas == 0,
            r@.deployed == Seq::<(Address, Address, Seq<Address>)>::empty(),
    {
        let r = ConfigModule {
            owner,
            deployers_list: Vec::new(),
            blacklisted_deployers_list: Vec::new(),
            default_gas_for_save_operation: 0,
            deployer_template_addresses: Vec::new(),
        };
        assert(r@.deployed =~= Seq::<(Address, Address, Seq<Address>)>::empty());
        r
    }

    /// Lets `deployer` deploy; adding a deployer twice changes nothing. Only the
    /// owner may call it.
    pub fn add_deployer(&mut self, caller: &Address, deployer: &Address) -> (r: Result<(), ConfigError>)
        requires
            old(self).wf(),
        ensures
            final(self).wf(),
            *caller != old(self)@.owner ==> r == Err::<(), ConfigError>(ConfigError::NotOwner) && final(self)@
                == old(self)@,
            *caller == old(self)@.owner ==> r is Ok && final(self)@ == (ConfigView {
                deployers: if has_address(old(self)@.deployers, *deployer) {
                    old(self)@.deployers
                } else {
                    old(self)@.deployers.push(*deployer)
                },
                ..old(self)@
            }),
    {
        if !addresses_equal(caller, &self.owner) {
            return Err(ConfigError::NotOwner);
        }
        if let None = find_address(&self.deployers_list, deployer) {
            let ghost prev = self@;
            self.deployers_list.push(*deployer);
            assert forall|i: int, j: int| 0 <= i < self@.deployers.len() && 0 <= j < self@.deployers.len() && i != j
                implies self@.deployers[i] != self@.deployers[j] by {
                if i == prev.deployers.len() as int {
                    assert(!has_address(prev.deployers, *deployer));
                    assert(self@.deployers[j] == prev.deployers[j]);
                } else if j == prev.deployers.len() as int {
                    assert(self@.deployers[i] == prev.deployers[i]);
                }
            }
        }
        Ok(())
    }

    /// Blacklists deployer `blacklisted_address`. Only the owner may call it; fails
    /// with `NotADeployer` for an address that is not a deployer and with
    /// `AlreadyBlacklisted` for one that is blacklisted.
    pub fn add_deployer_to_blacklist(&mut self, caller: &Address, blacklisted_address: &Address) -> (r: Result<
        (),
        ConfigError,
    >)
        requires
            old(self).wf(),
        ensures
            final(self).wf(),
            *caller != old(self)@.owner ==> r == Err::<(), ConfigError>(ConfigError::NotOwner) && final(self)@
                == old(self)@,
            *caller == old(self)@.owner && !has_address(old(self)@.deployers, *blacklisted_address) ==> r
                == Err::<(), ConfigError>(ConfigError::NotADeployer) && final(self)@ == old(self)@,
            *caller == old(self)@.owner && has_address(old(self)@.deployers, *blacklisted_address)
                && has_address(old(self)@.blacklist, *blacklisted_address) ==> r == Err::<(), ConfigError>(
                ConfigError::AlreadyBlacklisted,
            ) && final(self)@ == old(self)@,
            *caller == old(self)@.owner && has_address(old(self)@.deployers, *blacklisted_address)
                && !has_address(old(self)@.blacklist, *blacklisted_address) ==> r is Ok && final(self)@ == (
            ConfigView { blacklist: old(self)@.blacklist.push(*blacklisted_address), ..old(self)@ }),
    {
        if !addresses_equal(caller, &self.owner) {
            return Err(ConfigError::NotOwner);
        }
        if let None = find_address(&self.deployers_list, blacklisted_address) {
            return Err(ConfigError::NotADeployer);
        }
        if let Some(_) = find_address(&self.blacklisted_deployers_list, blacklisted_address) {
            return Err(ConfigError::AlreadyBlacklisted);
        }
        let ghost prev = self@;
        self.blacklisted_deployers_list.push(*blacklisted_address);
        assert forall|i: int, j: int| 0 <= i < self@.blacklist.len() && 0 <= j < self@.blacklist.len() && i != j
            implies self@.blacklist[i] != self@.blacklist[j] by {
            if i == prev.blacklist.len() as int {
                assert(self@.blacklist[j] == prev.blacklist[j]);
            } else if j == prev.blacklist.len() as int {
                assert(self@.blacklist[i] == prev.blacklist[i]);
            }
        }
        Ok(())
    }

    /// Takes `address` off the blacklist; the last entry of the list takes its
    /// place. Only the owner may call it; fails with `NotBlacklisted` for an
    /// address that is not blacklisted.
    pub fn remove_deployer_from_blacklist(&mut self, caller: &Address, address: &Address) -> (r: Result<
        (),
        ConfigError,
    >)
        requires
            old(self).wf(),
        ensures
            final(self).wf(),
            *caller != old(self)@.owner ==> r == Err::<(), ConfigError>(ConfigError::NotOwner) && final(self)@
                == old(self)@,
            *caller == old(self)@.owner && !has_address(old(self)@.blacklist, *address) ==> r == Err::<
                (),
                ConfigError,
            >(ConfigError::NotBlacklisted) && final(self)@ == old(self)@,
            *caller == old(self)@.owner && has_address(old(self)@.blacklist, *address) ==> r is Ok && exists|
                i: int,
            |
                0 <= i < old(self)@.blacklist.len() && old(self)@.blacklist[i] == *address && final(self)@ == (
                ConfigView {
                    blacklist: old(self)@.blacklist.update(i, old(self)@.blacklist.last()).drop_last(),
                    ..old(self)@
                }),
    {
        if !addresses_equal(caller, &self.owner) {
            return Err(ConfigError::NotOwner);
        }
        let i = match find_address(&self.blacklisted_deployers_list, address) {
            Some(i) => i,
            None => return Err(ConfigError::NotBlacklisted),
        };
        let ghost prev = self@;
        self.blacklisted_deployers_list.swap_remove(i);
        let ghost b = prev.blacklist;
        assert forall|x: int, y: int| 0 <= x < self@.blacklist.len() && 0 <= y < self@.blacklist.len() && x != y
            implies self@.blacklist[x] != self@.blacklist[y] by {
            let last = b.len() - 1;
            let ox = if x == i { last } else { x };
            let oy = if y == i { last } else { y };
            assert(self@.blacklist[x] == b[ox]);
            assert(self@.blacklist[y] == b[oy]);
        }
        assert(self@ == (ConfigView { blacklist: b.update(i as int, b.last()).drop_last(), ..prev }));
        Ok(())
    }

    /// Sets the gas given to a save operation. Only the owner may call it.
    pub fn set_default_gas_for_save_operation(&mut self, caller: &Address, default_gas_for_save_operation: u64) -> (r:
        Result<(), ConfigError>)
        requires
            old(self).wf(),
        ensures
            final(self).wf(),
            *caller != old(self)@.owner ==> r == Err::<(), ConfigError>(ConfigError::NotOwner) && final(self)@
                == old(self)@,
            *caller == old(self)@.owner ==> r is Ok && final(self)@ == (ConfigView {
                default_gas: default_gas_for_save_operation,
                ..old(self)@
            }),
    {
        if !addresses_equal(caller, &self.owner) {
            return Err(ConfigError::NotOwner);
        }
        self.default_gas_for_save_operation = default_gas_for_save_operation;
        Ok(())
    }

    pub fn get_default_gas_for_save_operation(&self) -> (r: u64)
        ensures
            r == self@.default_gas,
    {
        self.default_gas_for_save_operation
    }

    pub fn get_all_deployers(&self) -> (r: &Vec<Address>)
        ensures
            r@ == self@.deployers,
    {
        &self.deployers_list
    }

    pub fn get_all_blacklisted_deployers(&self) -> (r: &Vec<Address>)
        ensures
            r@ == self@.blacklist,
    {
        &self.blacklisted_deployers_list
    }

    /// Records that `deployer` deployed `contract` from `template`, after the
    /// contracts it deployed from that template before.
    pub fn record_deployed_contract(&mut self, deployer: &Address, template: &Address, contract: &Address)
        requires
            old(self).wf(),
        ensures
            final(self).wf(),
            ({
                let old_records = old(self)@.deployed;
                let k = find_record(old_records, *deployer, *template);
                final(self)@ == (ConfigView {
                    deployed: if k >= 0 {
                        old_records.update(k, (*deployer, *template, old_records[k].2.push(*contract)))
                    } else {
                        old_records.push((*deployer, *template, seq![*contract]))
                    },
                    ..old(self)@
                })
            }),
    {
        let ghost prev = self@;
        proof {
            lemma_find_record(prev.deployed, *deployer, *template);
        }
        let k = self.find_record(deployer, template);
        match k {
            Some(i) => {
                let mut contracts = copy_vec(&self.deployer_template_addresses[i].contracts);
                contracts.push(*contract);
                let record = DeployedFromTemplate { deployer: *deployer, template: *template, contracts };
                let ghost rv = (record.deployer, record.template, record.contracts@);
                self.deployer_template_addresses.set(i, record);
                assert(self@.deployed =~= prev.deployed.update(i as int, rv));
            },
            None => {
                let mut contracts: Vec<Address> = Vec::new();
                contracts.push(*contract);
                let record = DeployedFromTemplate { deployer: *deployer, template: *template, contracts };
                let ghost rv = (record.deployer, record.template, record.contracts@);
                assert(rv.2 =~= seq![*contract]);
                self.deployer_template_addresses.push(record);
                assert(self@.deployed =~= prev.deployed.push(rv));
            },
        }
    }

    fn find_record(&self, user: &Address, template: &Address) -> (r: Option<usize>)
        ensures
            match r {
                Some(i) => i == find_record(self@.deployed, *user, *template),
                None => find_record(self@.deployed, *user, *template) < 0,
            },
    {
        proof {
            lemma_find_record(self@.deployed, *user, *template);
        }
        let mut i: usize = self.deployer_template_addresses.len();
        while i > 0
            invariant
                i <= self@.deployed.len(),
                forall|k: int| i <= k < self@.deployed.len() ==> !((#[trigger] self@.deployed[k]).0 == *user
                    && self@.deployed[k].1 == *template),
                -1 <= find_record(self@.deployed, *user, *template) < i,
                forall|k: int|
                    find_record(self@.deployed, *user, *template) < k < self@.deployed.len() ==> !(
                    (#[trigger] self@.deployed[k]).0 == *user && self@.deployed[k].1 == *template),
                find_record(self@.deployed, *user, *template) >= 0 ==> self@.deployed[find_record(
                    self@.deployed,
                    *user,
                    *template,
                )].0 == *user && self@.deployed[find_record(self@.deployed, *user, *template)].1 == *template,
            decreases i,
        {
            let record = &self.deployer_template_addresses[i - 1];
            assert(self@.deployed[i - 1] == (record.deployer, record.template, record.contracts@));
            if addresses_equal(&record.deployer, user) && addresses_equal(&record.template, template) {
                assert(self@.deployed[i - 1].0 == *user && self@.deployed[i - 1].1 == *template);
                return Some(i - 1);
            }
            i = i - 1;
        }
        None
    }

    /// The contracts that `user` deployed from `template`, oldest first; empty
    /// where there are none.
    pub fn get_deployer_contracts_by_template(&self, user: &Address, template_address: &Address) -> (r: Vec<Address>)
        ensures
            r@ == contracts_by_template(self@.deployed, *user, *template_address),
    {
        proof {
            lemma_find_record(self@.deployed, *user, *template_address);
        }
        match self.find_record(user, template_address) {
            Some(i) => {
                assert(self@.deployed[i as int].2 == self.deployer_template_addresses@[i as int].contracts@);
                copy_vec(&self.deployer_template_addresses[i].contracts)
            },
            None => Vec::new(),
        }
    }

    /// Every contract that `user` deployed, template by template.
    pub fn get_all_deployer_contracts(&self, user: &Address) -> (r: Vec<Address>)
        ensures
            r@ == all_contracts_of(self@.deployed, *user),
    {
        let mut out: Vec<Address> = Vec::new();
        let mut i: usize = 0;
        while i < self.deployer_template_addresses.len()
            invariant
                i <= self@.deployed.len(),
                out@ == all_contracts_of(self@.deployed.subrange(0, i as int), *user),
            decreases self@.deployed.len() - i,
        {
            let record = &self.deployer_template_addresses[i];
            assert(self@.deployed[i as int] == (record.deployer, record.template, record.contracts@));
            assert(self@.deployed.subrange(0, i + 1).drop_last() =~= self@.deployed.subrange(0, i as int));
            if addresses_equal(&record.deployer, user) {
                let mut more = copy_vec(&record.contracts);
                out.append(&mut more);
            }
            i = i + 1;
        }
        assert(self@.deployed.subrange(0, i as int) =~= self@.deployed);
        out
    }
}

} // verus!
