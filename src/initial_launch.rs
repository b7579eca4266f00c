use vstd::prelude::*;

use crate::config::{find_address, has_address};
use crate::identity::addresses_distinct;
use crate::types::Address;

verus! {

/// A fee, in hundredths of a percent.
pub type Percentage = u32;

/// The blocks during which the initial launch runs, both included.
#[derive(Clone, Copy, Debug, PartialEq, Eq, Structural)]
pub struct InitialLaunchBlocks {
    pub start: u64,
    pub end: u64,
}

/// Limits and fees of the initial launch. Fees fall linearly over the launch
/// blocks from their start value toward their end value.
#[derive(Clone, Copy, Debug, PartialEq, Eq, Structural)]
pub struct InitialLaunchInfo {
    pub account_buy_limit: u128,
    pub tx_buy_limit: u128,
    pub buy_fee_percentage_start: Percentage,
    pub buy_fee_percentage_end: Percentage,
    pub sell_fee_percentage_start: Percentage,
    pub sell_fee_percentage_end: Percentage,
}

/// Why a trade during the launch was refused; a refused call changes nothing.
#[derive(Clone, Copy, Debug, PartialEq, Eq, Structural)]
pub enum LaunchError {
    /// The launch is over.
    InitialLaunchPassed,
    /// The launch is still running.
    InitialLaunchRunning,
    /// The block is after the launch, so no launch fee applies.
    InvalidBuySellBlock,
    /// The pair is not a known contract.
    UnknownPair,
    /// One purchase received more than the per-transaction limit.
    TxLimitExceeded,
    /// The buyer's purchases would exceed the per-account limit.
    TotalBuyExceeded,
}

/// The fee decrease after `current - start` launch blocks: the fee span times the
/// blocks passed, divided by one less than the launch length.
pub open spec fn fee_decrease(blocks: InitialLaunchBlocks, fee_start: Percentage, fee_end: Percentage, current: u64) -> int {
    (fee_start - fee_end) * (current - blocks.start) / (blocks.end - blocks.start - 1)
}

/// Whether the fee curve from `fee_start` to `fee_end` is defined on every launch
/// block: the launch lasts at least two blocks, the fee does not rise, and it never
/// falls below zero.
pub open spec fn fee_curve_valid(blocks: InitialLaunchBlocks, fee_start: Percentage, fee_end: Percentage) -> bool {
    &&& blocks.start + 2 <= blocks.end
    &&& fee_end <= fee_start
    &&& (fee_start - fee_end) * (blocks.end - blocks.start) <= u64::MAX
    &&& fee_decrease(blocks, fee_start, fee_end, blocks.end) <= fee_start
}

/// State of the initial launch: its blocks and limits, the pairs it trades
/// through, and how much each buyer bought so far.
pub struct InitialLaunchModule {
    initial_launch_blocks: InitialLaunchBlocks,
    initial_launch_info: InitialLaunchInfo,
    known_contracts: Vec<Address>,
    buyers: Vec<Address>,
    total_bought: Vec<u128>,
}

impl InitialLaunchModule {
    pub closed spec fn blocks(&self) -> InitialLaunchBlocks {
        self.initial_launch_blocks
    }

    pub closed spec fn info(&self) -> InitialLaunchInfo {
        self.initial_launch_info
    }

    pub closed spec fn known(&self) -> Seq<Address> {
        self.known_contracts@
    }

    /// How much `buyer` bought during the launch so far.
    pub closed spec fn bought(&self, buyer: Address) -> u128 {
        if has_address(self.buyers@, buyer) {
            self.total_bought@[choose|i: int| 0 <= i < self.buyers@.len() && self.buyers@[i] == buyer]
        } else {
            0
        }
    }

    pub closed spec fn wf(&self) -> bool {
        &&& addresses_distinct(self.buyers@)
        &&& self.buyers@.len() == self.total_bought@.len()
        &&& fee_curve_valid(
            self.initial_launch_blocks,
            self.initial_launch_info.buy_fee_percentage_start,
            self.initial_launch_info.buy_fee_percentage_end,
        )
        &&& fee_curve_valid(
            self.initial_launch_blocks,
            self.initial_launch_info.sell_fee_percentage_start,
            self.initial_launch_info.sell_fee_percentage_end,
        )
    }

    /// A launch over `blocks` with the limits and fees of `info`, trading through
    /// `known_pairs`, where nobody bought anything yet.
    pub fn new(blocks: InitialLaunchBlocks, info: InitialLaunchInfo, known_pairs: Vec<Address>) -> (r: Self)
        requires
            fee_curve_valid(blocks, info.buy_fee_percentage_start, info.buy_fee_percentage_end),
            fee_curve_valid(blocks, info.sell_fee_percentage_start, info.sell_fee_percentage_end),
        ensures
            r.wf(),
            r.blocks() == blocks,
            r.info() == info,
            r.known() == known_pairs@,
            forall|a: Address| r.bought(a) == 0,
    {
        InitialLaunchModule {
            initial_launch_blocks: blocks,
            initial_launch_info: info,
            known_contracts: known_pairs,
            buyers: Vec::new(),
            total_bought: Vec::new(),
        }
    }

    /// The fee that applies at `current_block` on the curve from
    /// `fee_percentage_start` to `fee_percentage_end`; fails with
    /// `InvalidBuySellBlock` after the launch.
    pub fn get_fee_percentage(
        &self,
        current_block: u64,
        fee_percentage_start: Percentage,
        fee_percentage_end: Percentage,
    ) -> (r: Result<Percentage, LaunchError>)
        requires
            fee_curve_valid(self.blocks(), fee_percentage_start, fee_percentage_end),
            self.blocks().start <= current_block,
        ensures
            current_block > self.blocks().end ==> r == Err::<Percentage, LaunchError>(
                LaunchError::InvalidBuySellBlock,
            ),
            current_block <= self.blocks().end ==> r == Ok::<Percentage, LaunchError>(
                (fee_percentage_start - fee_decrease(
                    self.blocks(),
                    fee_percentage_start,
                    fee_percentage_end,
                    current_block,
                )) as Percentage,
            ),
    {
        let blocks = self.initial_launch_blocks;
        if current_block > blocks.end {
            return Err(LaunchError::InvalidBuySellBlock);
        }
        let blocks_passed_in_penalty_phase = current_block - blocks.start;
        let blocks_diff = blocks.end - blocks.start;
        let percentage_diff = fee_percentage_start - fee_percentage_end;
        assert((percentage_diff as u64) * blocks_passed_in_penalty_phase <= (percentage_diff as u64) * blocks_diff)
            by (nonlinear_arith)
            requires
                blocks_passed_in_penalty_phase <= blocks_diff,
        ;
        let penalty_percentage_decrease = (percentage_diff as u64) * blocks_passed_in_penalty_phase / (blocks_diff
            - 1);
        proof {
            let d = percentage_diff as int;
            let bd = blocks_diff as int - 1;
            assert(d * (blocks_passed_in_penalty_phase as int) / bd <= d * (blocks_diff as int) / bd) by (nonlinear_arith)
                requires
                    bd > 0,
                    d >= 0,
                    blocks_passed_in_penalty_phase <= blocks_diff,
                    d * (blocks_passed_in_penalty_phase as int) <= d * (blocks_diff as int),
            {
                vstd::arithmetic::div_mod::lemma_div_is_ordered(
                    d * (blocks_passed_in_penalty_phase as int),
                    d * (blocks_diff as int),
                    bd,
                );
            }
        }
        Ok(fee_percentage_start - penalty_percentage_decrease as u32)
    }

    /// Fails with `InitialLaunchPassed` once the launch is over.
    pub fn require_initial_launch(&self, current_block: u64) -> (r: Result<(), LaunchError>)
        ensures
            r is Ok <==> current_block <= self.blocks().end,
            r is Err ==> r == Err::<(), LaunchError>(LaunchError::InitialLaunchPassed),
    {
        if current_block <= self.initial_launch_blocks.end {
            Ok(())
        } else {
            Err(LaunchError::InitialLaunchPassed)
        }
    }

    /// Fails with `InitialLaunchRunning` while the launch runs.
    pub fn require_not_initial_launch(&self, current_block: u64) -> (r: Result<(), LaunchError>)
        ensures
            r is Ok <==> current_block > self.blocks().end,
            r is Err ==> r == Err::<(), LaunchError>(LaunchError::InitialLaunchRunning),
    {
        if current_block > self.initial_launch_blocks.end {
            Ok(())
        } else {
            Err(LaunchError::InitialLaunchRunning)
        }
    }

    fn trade_fee_percentage(
        &self,
        current_block: u64,
        pair_address: &Address,
        fee_start: Percentage,
        fee_end: Percentage,
    ) -> (r: Result<Percentage, LaunchError>)
        requires
            fee_curve_valid(self.blocks(), fee_start, fee_end),
            self.blocks().start <= current_block,
        ensures
            current_block > self.blocks().end ==> r == Err::<Percentage, LaunchError>(
                LaunchError::InitialLaunchPassed,
            ),
            current_block <= self.blocks().end && !has_address(self.known(), *pair_address) ==> r == Err::<
                Percentage,
                LaunchError,
            >(LaunchError::UnknownPair),
            current_block <= self.blocks().end && has_address(self.known(), *pair_address) ==> r == Ok::<
                Percentage,
                LaunchError,
            >((fee_start - fee_decrease(self.blocks(), fee_start, fee_end, current_block)) as Percentage),
    {
        match self.require_initial_launch(current_block) {
            Ok(()) => {},
            Err(e) => return Err(e),
        }
        if let None = find_address(&self.known_contracts, pair_address) {
            return Err(LaunchError::UnknownPair);
        }
        self.get_fee_percentage(current_block, fee_start, fee_end)
    }

    /// The checks made before a purchase through `pair_address` at `current_block`,
    /// and the buy fee that then applies. Fails with `InitialLaunchPassed` after the
    /// launch and with `UnknownPair` for a pair that is not known.
    pub fn buy_token_fee_percentage(&self, current_block: u64, pair_address: &Address) -> (r: Result<
        Percentage,
        LaunchError,
    >)
        requires
            self.wf(),
            self.blocks().start <= current_block,
        ensures
            current_block > self.blocks().end ==> r == Err::<Percentage, LaunchError>(
                LaunchError::InitialLaunchPassed,
            ),
            current_block <= self.blocks().end && !has_address(self.known(), *pair_address) ==> r == Err::<
                Percentage,
                LaunchError,
            >(LaunchError::UnknownPair),
            current_block <= self.blocks().end && has_address(self.known(), *pair_address) ==> r == Ok::<
                Percentage,
                LaunchError,
            >(
                (self.info().buy_fee_percentage_start - fee_decrease(
                    self.blocks(),
                    self.info().buy_fee_percentage_start,
                    self.info().buy_fee_percentage_end,
                    current_block,
                )) as Percentage,
            ),
    {
        let info = self.initial_launch_info;
        self.trade_fee_percentage(current_block, pair_address, info.buy_fee_percentage_start, info.buy_fee_percentage_end)
    }

    /// The checks made before a sale through `pair_address` at `current_block`,
    /// and the sell fee that then applies. Fails as `buy_token_fee_percentage` does.
    pub fn sell_token_fee_percentage(&self, current_block: u64, pair_address: &Address) -> (r: Result<
        Percentage,
        LaunchError,
    >)
        requires
            self.wf(),
            self.blocks().start <= current_block,
        ensures
            current_block > self.blocks().end ==> r == Err::<Percentage, LaunchError>(
                LaunchError::InitialLaunchPassed,
            ),
            current_block <= self.blocks().end && !has_address(self.known(), *pair_address) ==> r == Err::<
                Percentage,
                LaunchError,
            >(LaunchError::UnknownPair),
            current_block <= self.blocks().end && has_address(self.known(), *pair_address) ==> r == Ok::<
                Percentage,
                LaunchError,
            >(
                (self.info().sell_fee_percentage_start - fee_decrease(
                    self.blocks(),
                    self.info().sell_fee_percentage_start,
                    self.info().sell_fee_percentage_end,
                    current_block,
                )) as Percentage,
            ),
    {
        let info = self.initial_launch_info;
        self.trade_fee_percentage(current_block, pair_address, info.sell_fee_percentage_start, info.sell_fee_percentage_end)
    }

    /// Records that `buyer` received `amount` tokens from one purchase and returns
    /// the buyer's new total. Fails with `TxLimitExceeded` where `amount` is above
    /// the per-transaction limit, and with `TotalBuyExceeded` where the total would
    /// pass the per-account limit.
    pub fn record_bought_tokens(&mut self, buyer: &Address, amount: u128) -> (r: Result<u128, LaunchError>)
        requires
            old(self).wf(),
        ensures
            final(self).wf(),
            final(self).blocks() == old(self).blocks(),
            final(self).info() == old(self).info(),
            final(self).known() == old(self).known(),
            amount > old(self).info().tx_buy_limit ==> r == Err::<u128, LaunchError>(LaunchError::TxLimitExceeded)
                && *final(self) == *old(self),
            amount <= old(self).info().tx_buy_limit && old(self).bought(*buyer) + amount > old(
                self,
            ).info().account_buy_limit ==> r == Err::<u128, LaunchError>(LaunchError::TotalBuyExceeded) && *final(self)
                == *old(self),
            amount <= old(self).info().tx_buy_limit && old(self).bought(*buyer) + amount <= old(
                self,
            ).info().account_buy_limit ==> r == Ok::<u128, LaunchError>((old(self).bought(*buyer) + amount) as u128)
                && final(self).bought(*buyer) == old(self).bought(*buyer) + amount && forall|a: Address|
                a != *buyer ==> #[trigger] final(self).bought(a) == old(self).bought(a),
    {
        let info = self.initial_launch_info;
        if amount > info.tx_buy_limit {
            return Err(LaunchError::TxLimitExceeded);
        }
        let found = find_address(&self.buyers, buyer);
        let ghost prev_buyers = self.buyers@;
        let ghost prev_totals = self.total_bought@;
        let before: u128 = match found {
            Some(i) => {
                proof {
                    let c = choose|k: int| 0 <= k < prev_buyers.len() && prev_buyers[k] == *buyer;
                    assert(c == i as int);
                }
                self.total_bought[i]
            },
            None => 0,
        };
        if amount > info.account_buy_limit || before > info.account_buy_limit - amount {
            return Err(LaunchError::TotalBuyExceeded);
        }
        let total = before + amount;
        match found {
            Some(i) => {
                self.total_bought.set(i, total);
                proof {
                    assert(self.buyers@ == prev_buyers);
                    assert forall|a: Address| a != *buyer implies #[trigger] self.bought(a) == old(self).bought(a) by {
                        if has_address(prev_buyers, a) {
                            let c = choose|k: int| 0 <= k < prev_buyers.len() && prev_buyers[k] == a;
                            assert(c != i as int);
                        }
                    }
                    let c = choose|k: int| 0 <= k < prev_buyers.len() && prev_buyers[k] == *buyer;
                    assert(c == i as int);
                }
            },
            None => {
                self.buyers.push(*buyer);
                self.total_bought.push(total);
                proof {
                    let n = prev_buyers.len() as int;
                    assert(self.buyers@[n] == *buyer);
                    assert(has_address(self.buyers@, *buyer));
                    let c = choose|k: int| 0 <= k < self.buyers@.len() && self.buyers@[k] == *buyer;
                    if c < n {
                        assert(prev_buyers[c] == *buyer);
                    }
                    assert forall|x: int, y: int| 0 <= x < self.buyers@.len() && 0 <= y < self.buyers@.len() && x != y
                        implies self.buyers@[x] != self.buyers@[y] by {
                        if x == n {
                            assert(self.buyers@[y] == prev_buyers[y]);
                        } else if y == n {
                            assert(self.buyers@[x] == prev_buyers[x]);
                        }
                    }
                    assert forall|a: Address| a != *buyer implies #[trigger] self.bought(a) == old(self).bought(a) by {
                        if has_address(prev_buyers, a) {
                            let k = choose|k: int| 0 <= k < prev_buyers.len() && prev_buyers[k] == a;
                            assert(self.buyers@[k] == a);
                            let c2 = choose|k: int| 0 <= k < self.buyers@.len() && self.buyers@[k] == a;
                            assert(c2 != n);
                            assert(prev_buyers[c2] == a);
                        } else if has_address(self.buyers@, a) {
                            let c2 = choose|k: int| 0 <= k < self.buyers@.len() && self.buyers@[k] == a;
                            if c2 < n {
                                assert(prev_buyers[c2] == a);
                            }
                        }
                    }
                }
            },
        }
        Ok(total)
    }
}

} // verus!
