//! The lottery state machine: prize table, configuration, draws and the
//! ledger of results.
use vstd::prelude::*;

use crate::amount::Amount;
use crate::ids::{native_token_name, Address, TokenId};

verus! {

/// How many results `get_recent_lottery_results` shows when no count is given.
pub const DEFAULT_NUMBER_OF_RESULTS_TO_SHOW: u32 = 20;

/// One entry of the prize table: an amount of a token.
#[derive(Debug)]
pub struct ResultType {
    pub token_id: TokenId,
    pub amount: Amount,
}

impl View for ResultType {
    type V = (Seq<u8>, nat);

    open spec fn view(&self) -> (Seq<u8>, nat) {
        (self.token_id@, self.amount@)
    }
}

impl ResultType {
    pub fn new(token_id: TokenId, amount: Amount) -> (r: ResultType)
        ensures
            r.token_id@ == token_id@,
            r.amount == amount,
    {
        ResultType { token_id, amount }
    }

    /// A copy of this prize.
    pub fn copy(&self) -> (r: ResultType)
        ensures
            r@ == self@,
    {
        ResultType { token_id: self.token_id.copy(), amount: self.amount }
    }
}

/// One draw of the ledger: which prize came out, for whom, and when.
#[derive(Clone, Copy, Debug)]
pub struct Result {
    /// Index of the prize in the prize table.
    pub result_type: u32,
    pub user_address: Address,
    /// Block timestamp, in seconds since the epoch.
    pub timestamp: u64,
}

/// Why an operation was refused. A refused operation changes nothing.
#[derive(Clone, Copy, Debug, PartialEq, Eq, Structural)]
pub enum LotteryError {
    /// The prize table given at initialisation is empty or has more entries
    /// than a `u32` index can reach.
    InvalidConfiguration,
    /// An administrative call from an account other than the owner.
    Unauthorized,
    /// The payment is not in the native currency.
    WrongAssetType,
    /// The payment is below the required amount.
    InsufficientPayment,
}

/// The state of one deployed lottery.
pub struct SpinWheelGame {
    owner: Address,
    default_input_amount: Amount,
    lottery_output_esdt_token: TokenId,
    result_types: Vec<ResultType>,
    results: Vec<Result>,
}

/// The `count` most recent entries of `ledger`, most recent first.
pub open spec fn recent_results(ledger: Seq<Result>, count: nat) -> Seq<Result> {
    let n = if count <= ledger.len() { count } else { ledger.len() };
    Seq::new(n, |i: int| ledger[ledger.len() - 1 - i])
}

/// The number of results a query shows for an optional count.
pub open spec fn effective_count(opt: Option<u32>) -> nat {
    match opt {
        Some(v) => v as nat,
        None => DEFAULT_NUMBER_OF_RESULTS_TO_SHOW as nat,
    }
}

impl SpinWheelGame {
    /// The administrator, fixed at deployment.
    pub closed spec fn owner_spec(&self) -> Address {
        self.owner
    }

    /// The payment a draw requires at least.
    pub closed spec fn required_payment(&self) -> nat {
        self.default_input_amount@
    }

    /// The configured output token.
    pub closed spec fn output_token(&self) -> Seq<u8> {
        self.lottery_output_esdt_token@
    }

    /// The prize table, as (token, amount) pairs.
    pub closed spec fn prizes(&self) -> Seq<(Seq<u8>, nat)> {
        self.result_types@.map_values(|p: ResultType| p@)
    }

    /// The ledger of draws, oldest first.
    pub closed spec fn ledger(&self) -> Seq<Result> {
        self.results@
    }

    /// Owner, prize table and ledger are those of `other`.
    pub open spec fn keeps_draw_state(&self, other: SpinWheelGame) -> bool {
        &&& self.owner_spec() == other.owner_spec()
        &&& self.prizes() == other.prizes()
        &&& self.ledger() == other.ledger()
        &&& self.wf() == other.wf()
    }

    /// The prize table is non-empty and indexable by `u32`, and every draw
    /// of the ledger names one of its entries.
    pub closed spec fn wf(&self) -> bool {
        &&& 0 < self.result_types@.len() <= u32::MAX
        &&& forall|i: int|
            0 <= i < self.results@.len() ==> (#[trigger] self.results@[i]).result_type
                < self.result_types@.len()
    }

    /// The administrator.
    pub fn owner(&self) -> (r: Address)
        ensures
            r == self.owner_spec(),
    {
        self.owner
    }

    /// The payment a draw requires at least.
    pub fn default_input_amount(&self) -> (r: Amount)
        ensures
            r@ == self.required_payment(),
    {
        self.default_input_amount
    }

    /// The configured output token.
    pub fn lottery_output_edst_token(&self) -> (r: TokenId)
        ensures
            r@ == self.output_token(),
    {
        self.lottery_output_esdt_token.copy()
    }

    /// The number of entries of the prize table: draws take an index below it.
    pub fn number_of_result_types(&self) -> (r: u32)
        requires
            self.wf(),
        ensures
            r == self.prizes().len(),
    {
        self.result_types.len() as u32
    }

    /// The prize table.
    pub fn result_types(&self) -> (r: Vec<ResultType>)
        ensures
            r@.map_values(|p: ResultType| p@) == self.prizes(),
    {
        let mut out: Vec<ResultType> = Vec::new();
        let mut i: usize = 0;
        while i < self.result_types.len()
            invariant
                i <= self.result_types@.len(),
                out@.len() == i,
                forall|j: int| 0 <= j < i ==> (#[trigger] out@[j])@ == self.result_types@[j]@,
            decreases self.result_types@.len() - i,
        {
            out.push(self.result_types[i].copy());
            i = i + 1;
        }
        assert(out@.map_values(|p: ResultType| p@) =~= self.prizes());
        out
    }

    /// Every draw of the ledger, oldest first.
    pub fn results(&self) -> (r: Vec<Result>)
        ensures
            r@ == self.ledger(),
    {
        let mut out: Vec<Result> = Vec::new();
        let mut i: usize = 0;
        while i < self.results.len()
            invariant
                i <= self.results@.len(),
                out@ == self.results@.subrange(0, i as int),
            decreases self.results@.len() - i,
        {
            out.push(self.results[i]);
            i = i + 1;
            assert(out@ =~= self.results@.subrange(0, i as int));
        }
        assert(out@ =~= self.results@);
        out
    }

    /// Sets up a lottery owned by `owner`, with an empty ledger.
    pub fn init(
        owner: Address,
        lottery_output_esdt_token: TokenId,
        default_input_amount: Amount,
        result_types: Vec<ResultType>,
    ) -> (r: core::result::Result<SpinWheelGame, LotteryError>)
        ensures
            r is Err <==> (result_types@.len() == 0 || result_types@.len() > u32::MAX),
            r matches Err(e) ==> e == LotteryError::InvalidConfiguration,
            r matches Ok(g) ==> {
                &&& g.wf()
                &&& g.owner_spec() == owner
                &&& g.required_payment() == default_input_amount@
                &&& g.output_token() == lottery_output_esdt_token@
                &&& g.prizes() == result_types@.map_values(|p: ResultType| p@)
                &&& g.ledger().len() == 0
            },
    {
        if result_types.len() == 0 || result_types.len() > u32::MAX as usize {
            return Err(LotteryError::InvalidConfiguration);
        }
        Ok(SpinWheelGame {
            owner,
            default_input_amount,
            lottery_output_esdt_token,
            result_types,
            results: Vec::new(),
        })
    }

    /// Rebuilds a lottery from persisted state: its configuration, prize
    /// table and ledger. Refused with `InvalidConfiguration` where the table
    /// is empty, has more entries than a `u32` index can reach, or a draw of
    /// the ledger names no entry of it.
    pub fn restore(
        owner: Address,
        lottery_output_esdt_token: TokenId,
        default_input_amount: Amount,
        result_types: Vec<ResultType>,
        results: Vec<Result>,
    ) -> (r: core::result::Result<SpinWheelGame, LotteryError>)
        ensures
            r is Err <==> (result_types@.len() == 0 || result_types@.len() > u32::MAX || exists|i: int|
                0 <= i < results@.len() && #[trigger] results@[i].result_type >= result_types@.len()),
            r matches Err(e) ==> e == LotteryError::InvalidConfiguration,
            r matches Ok(g) ==> {
                &&& g.wf()
                &&& g.owner_spec() == owner
                &&& g.required_payment() == default_input_amount@
                &&& g.output_token() == lottery_output_esdt_token@
                &&& g.prizes() == result_types@.map_values(|p: ResultType| p@)
                &&& g.ledger() == results@
            },
    {
        if result_types.len() == 0 || result_types.len() > u32::MAX as usize {
            return Err(LotteryError::InvalidConfiguration);
        }
        let n: usize = result_types.len();
        let mut i: usize = 0;
        while i < results.len()
            invariant
                n == result_types@.len(),
                i <= results@.len(),
                forall|j: int| 0 <= j < i ==> (#[trigger] results@[j]).result_type < n,
            decreases results@.len() - i,
        {
            if results[i].result_type as usize >= n {
                return Err(LotteryError::InvalidConfiguration);
            }
            i = i + 1;
        }
        Ok(SpinWheelGame {
            owner,
            default_input_amount,
            lottery_output_esdt_token,
            result_types,
            results,
        })
    }

    /// Draws prize `rand_index` for `caller`, paid with `payment_amount` of
    /// `payment_token`, at block time `timestamp`.
    ///
    /// The payment must be in the native currency and at least the required
    /// amount; overpayment is accepted. On success the draw is appended to the
    /// ledger and the prize to credit to `caller` is returned.
    pub fn do_lottery(
        &mut self,
        caller: &Address,
        payment_token: &TokenId,
        payment_amount: &Amount,
        timestamp: u64,
        rand_index: u32,
    ) -> (r: core::result::Result<ResultType, LotteryError>)
        requires
            old(self).wf(),
            rand_index < old(self).prizes().len(),
        ensures
            final(self).wf(),
            r is Ok <==> (payment_token@ == native_token_name() && payment_amount@
                >= old(self).required_payment()),
            r matches Err(e) ==> {
                &&& *final(self) == *old(self)
                &&& e == if payment_token@ != native_token_name() {
                    LotteryError::WrongAssetType
                } else {
                    LotteryError::InsufficientPayment
                }
            },
            r matches Ok(prize) ==> {
                &&& final(self).ledger() == old(self).ledger().push(
                    Result { result_type: rand_index, user_address: *caller, timestamp },
                )
                &&& final(self).ledger().len() == old(self).ledger().len() + 1
                &&& prize@ == final(self).prizes()[final(self).ledger().last().result_type as int]
                &&& final(self).prizes() == old(self).prizes()
                &&& final(self).owner_spec() == old(self).owner_spec()
                &&& final(self).required_payment() == old(self).required_payment()
                &&& final(self).output_token() == old(self).output_token()
            },
    {
        if !payment_token.is_native() {
            return Err(LotteryError::WrongAssetType);
        }
        if !payment_amount.ge(&self.default_input_amount) {
            return Err(LotteryError::InsufficientPayment);
        }
        let prize = self.result_types[rand_index as usize].copy();
        self.results.push(Result { result_type: rand_index, user_address: *caller, timestamp });
        assert(self.results@.last().result_type == rand_index);
        Ok(prize)
    }

    /// Sets the required payment; only the owner may.
    pub fn set_default_input_amount(&mut self, caller: &Address, default_input_amount: Amount)
        -> (r: core::result::Result<(), LotteryError>)
        ensures
            r is Ok <==> caller.bytes@ == old(self).owner_spec().bytes@,
            r matches Err(e) ==> e == LotteryError::Unauthorized && *final(self) == *old(self),
            r is Ok ==> {
                &&& final(self).required_payment() == default_input_amount@
                &&& final(self).output_token() == old(self).output_token()
                &&& final(self).keeps_draw_state(*old(self))
            },
    {
        if !caller.same_as(&self.owner) {
            return Err(LotteryError::Unauthorized);
        }
        self.default_input_amount = default_input_amount;
        assert(self.keeps_draw_state(*old(self)));
        Ok(())
    }

    /// Sets the output token; only the owner may.
    pub fn set_lottery_output_edst_token(&mut self, caller: &Address, lottery_output_edst_token: TokenId)
        -> (r: core::result::Result<(), LotteryError>)
        ensures
            r is Ok <==> caller.bytes@ == old(self).owner_spec().bytes@,
            r matches Err(e) ==> e == LotteryError::Unauthorized && *final(self) == *old(self),
            r is Ok ==> {
                &&& final(self).output_token() == lottery_output_edst_token@
                &&& final(self).required_payment() == old(self).required_payment()
                &&& final(self).keeps_draw_state(*old(self))
            },
    {
        if !caller.same_as(&self.owner) {
            return Err(LotteryError::Unauthorized);
        }
        self.lottery_output_esdt_token = lottery_output_edst_token;
        assert(self.keeps_draw_state(*old(self)));
        Ok(())
    }

    /// The `count` most recent draws, most recent first, where `count` is
    /// the given number or, without one, twenty. Fewer come back when the
    /// ledger is shorter.
    pub fn get_recent_lottery_results(&self, opt_number_of_results_to_show: Option<u32>) -> (r: Vec<
        Result,
    >)
        ensures
            r@ == recent_results(self.ledger(), effective_count(opt_number_of_results_to_show)),
            r@.len() == if effective_count(opt_number_of_results_to_show) <= self.ledger().len() {
                effective_count(opt_number_of_results_to_show)
            } else {
                self.ledger().len()
            },
            forall|i: int|
                0 <= i < r@.len() ==> #[trigger] r@[i] == self.ledger()[self.ledger().len() - 1 - i],
            self.ledger().len() == 0 ==> r@.len() == 0,
    {
        let mut number_of_results_to_show: u32 = match opt_number_of_results_to_show {
            Some(v) => v,
            None => DEFAULT_NUMBER_OF_RESULTS_TO_SHOW,
        };
        let number_of_results: usize = self.results.len();
        if (number_of_results_to_show as usize) > number_of_results {
            number_of_results_to_show = number_of_results as u32;
        }
        let ghost expected = recent_results(self.ledger(), effective_count(opt_number_of_results_to_show));
        let mut items_vec: Vec<Result> = Vec::new();
        let mut i: u32 = 0;
        while i < number_of_results_to_show
            invariant
                number_of_results == self.results@.len(),
                number_of_results_to_show as nat == expected.len(),
                number_of_results_to_show <= number_of_results,
                i <= number_of_results_to_show,
                expected == recent_results(self.ledger(), effective_count(opt_number_of_results_to_show)),
                items_vec@ == expected.subrange(0, i as int),
            decreases number_of_results_to_show - i,
        {
            items_vec.push(self.results[number_of_results - 1 - i as usize]);
            i = i + 1;
            assert(items_vec@ =~= expected.subrange(0, i as int));
        }
        assert(items_vec@ =~= expected);
        items_vec
    }
}

} // verus!
