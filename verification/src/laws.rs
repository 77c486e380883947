//! The ledger's global laws, stated over an abstract view of the engine and
//! proved once and for all: conservation of supply over every sequence of
//! operations, rejection of any debit that exceeds the stored balance, and
//! authorization of the privileged operations.

use vstd::prelude::*;
use crate::store::bal_of;
use crate::store::credit_spec;
use crate::store::debit_spec;
use crate::store::keys_distinct;
use crate::store::sum_of;
use crate::store::lemma_credit;
use crate::store::lemma_debit;

verus! {

/// The balance-bearing state of a ledger, abstracted to views: the two
/// stores' entries, the two privileged identities, and the two flags.
pub struct LedgerState {
    pub accounts: Seq<(Seq<char>, u128)>,
    pub funds: Seq<(Seq<char>, u128)>,
    pub owner: Seq<char>,
    pub glue: Seq<char>,
    pub can_mint: bool,
    pub can_burn: bool,
}

/// One balance-moving operation, named by its caller and arguments.
pub enum LedgerOp {
    Mint { caller: Seq<char>, amount: u128 },
    Burn { caller: Seq<char>, amount: u128 },
    Transfer { caller: Seq<char>, receiver: Seq<char>, amount: u128 },
    SendToFund { caller: Seq<char>, id: Seq<char>, amount: u128 },
    SendFromFund { caller: Seq<char>, id: Seq<char>, destination: Seq<char>, amount: u128 },
    ChangeOwner { caller: Seq<char>, address: Seq<char> },
}

/// Both stores keep each key at most once.
pub open spec fn state_wf(m: LedgerState) -> bool {
    keys_distinct(m.accounts) && keys_distinct(m.funds)
}

/// The sum of every account balance and every fund-pool balance.
pub open spec fn state_total(m: LedgerState) -> int {
    sum_of(m.accounts) + sum_of(m.funds)
}

/// Whether the operation goes through on `m`: its caller is authorized, the
/// governing flag is set, the debited balance covers the amount, and the
/// credited balance can take it.
pub open spec fn op_allowed(m: LedgerState, op: LedgerOp) -> bool {
    match op {
        LedgerOp::Mint { caller, amount } => m.can_mint && caller == m.owner && bal_of(
            m.accounts,
            m.owner,
        ) + amount <= u128::MAX,
        LedgerOp::Burn { caller, amount } => m.can_burn && caller == m.owner && bal_of(
            m.accounts,
            m.owner,
        ) >= amount,
        LedgerOp::Transfer { caller, receiver, amount } => bal_of(m.accounts, caller)
            >= amount && (caller != receiver ==> bal_of(m.accounts, receiver) + amount
            <= u128::MAX),
        LedgerOp::SendToFund { caller, id, amount } => (caller == m.owner || caller
            == m.glue) && bal_of(m.accounts, m.owner) >= amount && bal_of(m.funds, id)
            + amount <= u128::MAX,
        LedgerOp::SendFromFund { caller, id, destination, amount } => (caller == m.owner
            || caller == m.glue) && bal_of(m.funds, id) >= amount && bal_of(
            m.accounts,
            destination,
        ) + amount <= u128::MAX,
        LedgerOp::ChangeOwner { caller, address } => caller == m.owner,
    }
}

/// The state after one operation; an operation that is not allowed changes
/// nothing.
pub open spec fn apply_op(m: LedgerState, op: LedgerOp) -> LedgerState {
    if !op_allowed(m, op) {
        m
    } else {
        match op {
            LedgerOp::Mint { caller, amount } => LedgerState {
                accounts: credit_spec(m.accounts, m.owner, amount),
                ..m
            },
            LedgerOp::Burn { caller, amount } => LedgerState {
                accounts: debit_spec(m.accounts, m.owner, amount),
                ..m
            },
            LedgerOp::Transfer { caller, receiver, amount } => LedgerState {
                accounts: credit_spec(
                    debit_spec(m.accounts, caller, amount),
                    receiver,
                    amount,
                ),
                ..m
            },
            LedgerOp::SendToFund { caller, id, amount } => LedgerState {
                accounts: debit_spec(m.accounts, m.owner, amount),
                funds: credit_spec(m.funds, id, amount),
                ..m
            },
            LedgerOp::SendFromFund { caller, id, destination, amount } => LedgerState {
                funds: debit_spec(m.funds, id, amount),
                accounts: credit_spec(m.accounts, destination, amount),
                ..m
            },
            LedgerOp::ChangeOwner { caller, address } => LedgerState { owner: address, ..m },
        }
    }
}

/// How one operation moves the total supply: `amount` up for a mint that
/// goes through, `amount` down for a burn that goes through, nothing
/// otherwise.
pub open spec fn op_delta(m: LedgerState, op: LedgerOp) -> int {
    if !op_allowed(m, op) {
        0
    } else {
        match op {
            LedgerOp::Mint { caller, amount } => amount as int,
            LedgerOp::Burn { caller, amount } => -(amount as int),
            _ => 0,
        }
    }
}

/// The state after a whole sequence of operations, applied in order.
pub open spec fn apply_ops(m: LedgerState, ops: Seq<LedgerOp>) -> LedgerState
    decreases ops.len(),
{
    if ops.len() == 0 {
        m
    } else {
        apply_op(apply_ops(m, ops.drop_last()), ops.last())
    }
}

/// The total of the mints minus the burns that went through along the way.
pub open spec fn ops_delta(m: LedgerState, ops: Seq<LedgerOp>) -> int
    decreases ops.len(),
{
    if ops.len() == 0 {
        0
    } else {
        ops_delta(m, ops.drop_last()) + op_delta(apply_ops(m, ops.drop_last()), ops.last())
    }
}

/// Conservation, one step: an operation keeps both stores well formed and
/// moves the total supply by exactly its own delta — a transfer or a fund
/// movement leaves it untouched, a mint raises it by its amount, a burn
/// lowers it by its amount, and a rejected operation changes nothing.
pub proof fn lemma_step_conservation(m: LedgerState, op: LedgerOp)
    requires
        state_wf(m),
    ensures
        state_wf(apply_op(m, op)),
        state_total(apply_op(m, op)) == state_total(m) + op_delta(m, op),
{
    if op_allowed(m, op) {
        match op {
            LedgerOp::Mint { caller, amount } => {
                lemma_credit(m.accounts, m.owner, amount);
            },
            LedgerOp::Burn { caller, amount } => {
                lemma_debit(m.accounts, m.owner, amount);
            },
            LedgerOp::Transfer { caller, receiver, amount } => {
                lemma_debit(m.accounts, caller, amount);
                lemma_credit(debit_spec(m.accounts, caller, amount), receiver, amount);
            },
            LedgerOp::SendToFund { caller, id, amount } => {
                lemma_debit(m.accounts, m.owner, amount);
                lemma_credit(m.funds, id, amount);
            },
            LedgerOp::SendFromFund { caller, id, destination, amount } => {
                lemma_debit(m.funds, id, amount);
                lemma_credit(m.accounts, destination, amount);
            },
            LedgerOp::ChangeOwner { caller, address } => {},
        }
    }
}

/// Conservation: over every sequence of operations, from any well-formed
/// state, the combined account-plus-fund total equals the starting total
/// plus every minted amount minus every burned amount — at every point in
/// time, since every prefix of `ops` is itself such a sequence.
pub proof fn lemma_conservation(m: LedgerState, ops: Seq<LedgerOp>)
    requires
        state_wf(m),
    ensures
        state_wf(apply_ops(m, ops)),
        state_total(apply_ops(m, ops)) == state_total(m) + ops_delta(m, ops),
    decreases ops.len(),
{
    if ops.len() > 0 {
        lemma_conservation(m, ops.drop_last());
        lemma_step_conservation(apply_ops(m, ops.drop_last()), ops.last());
    }
}

/// Rejected debits: an operation whose debited balance is short of its
/// amount changes nothing — the engine reports it as `InsufficientBalance`
/// and no balance moves, so no balance can ever go below zero.
pub proof fn lemma_insufficient_rejected(m: LedgerState, op: LedgerOp)
    requires
        state_wf(m),
        match op {
            LedgerOp::Burn { caller, amount } => bal_of(m.accounts, m.owner) < amount,
            LedgerOp::Transfer { caller, receiver, amount } => bal_of(m.accounts, caller)
                < amount,
            LedgerOp::SendToFund { caller, id, amount } => bal_of(m.accounts, m.owner)
                < amount,
            LedgerOp::SendFromFund { caller, id, destination, amount } => bal_of(
                m.funds,
                id,
            ) < amount,
            _ => false,
        },
    ensures
        apply_op(m, op) == m,
{
}

/// Authorization: a mint, burn or owner change whose caller is not the
/// owner changes nothing, and a fund movement whose caller is neither the
/// owner nor the glue identity changes nothing — the engine reports each as
/// `Unauthorized`.
pub proof fn lemma_authorization(m: LedgerState, op: LedgerOp)
    requires
        state_wf(m),
        match op {
            LedgerOp::Mint { caller, amount } => caller != m.owner,
            LedgerOp::Burn { caller, amount } => caller != m.owner,
            LedgerOp::ChangeOwner { caller, address } => caller != m.owner,
            LedgerOp::SendToFund { caller, id, amount } => caller != m.owner && caller
                != m.glue,
            LedgerOp::SendFromFund { caller, id, destination, amount } => caller != m.owner
                && caller != m.glue,
            LedgerOp::Transfer { caller, receiver, amount } => false,
        },
    ensures
        apply_op(m, op) == m,
        op_delta(m, op) == 0,
{
}

} // verus!
