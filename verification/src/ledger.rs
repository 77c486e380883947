//! The ledger engine: one initialized contract instance, holding the token
//! configuration, the account and fund-pool balance stores, and the event
//! log. Every mutating operation takes the authenticated caller identity as
//! an explicit argument, checks authorization before touching any state,
//! applies its balance movement atomically, and then logs its event (where
//! one is emitted); a failing operation returns its error with the whole
//! ledger untouched.

use vstd::prelude::*;
use crate::LedgerError;
use crate::events::EventLog;
use crate::events::FtMint;
use crate::events::FtTransfer;
use crate::events::mint_line;
use crate::events::transfer_line;
use crate::metadata::TokenMetadata;
use crate::store::Balances;
use crate::store::bal_of;
use crate::store::credit_spec;
use crate::store::debit_spec;
use crate::store::sum_of;
use crate::store::lemma_credit;
use crate::store::lemma_debit;
use crate::laws::LedgerOp;
use crate::laws::LedgerState;
use crate::laws::apply_op;

verus! {

/// An initialized ledger. The configuration (metadata, flags, the glue
/// identity) is immutable after construction; only the owner identity can
/// be reassigned, and only by the current owner.
pub struct Contract {
    pub metadata: TokenMetadata,
    pub fund_accounts: Balances,
    pub accounts: Balances,
    pub can_mint: bool,
    pub can_burn: bool,
    pub owner_id: String,
    pub glue_id: String,
    pub log: EventLog,
}

impl Contract {
    /// Both stores keep each key at most once, and the metadata passed
    /// validation at initialization.
    pub open spec fn wf(self) -> bool {
        &&& self.accounts.wf()
        &&& self.fund_accounts.wf()
        &&& self.metadata.valid()
    }

    /// The sum of every account balance and every fund-pool balance.
    pub open spec fn total_supply(self) -> int {
        sum_of(self.accounts@) + sum_of(self.fund_accounts@)
    }

    /// Whether `caller` is the current owner.
    pub open spec fn is_owner(self, caller: Seq<char>) -> bool {
        caller == self.owner_id@
    }

    /// Whether `caller` is the current owner or the glue identity.
    pub open spec fn is_owner_or_glue(self, caller: Seq<char>) -> bool {
        caller == self.owner_id@ || caller == self.glue_id@
    }

    /// This ledger's balance-bearing state, abstracted to views; the laws
    /// of `crate::laws` are stated over it.
    pub open spec fn abs(self) -> LedgerState {
        LedgerState {
            accounts: self.accounts@,
            funds: self.fund_accounts@,
            owner: self.owner_id@,
            glue: self.glue_id@,
            can_mint: self.can_mint,
            can_burn: self.can_burn,
        }
    }

    /// The configuration fields an operation on balances never touches.
    pub open spec fn same_config(self, o: Contract) -> bool {
        &&& self.metadata == o.metadata
        &&& self.can_mint == o.can_mint
        &&& self.can_burn == o.can_burn
        &&& self.owner_id == o.owner_id
        &&& self.glue_id == o.glue_id
    }

    /// Initializes a ledger: validates the metadata, credits the caller —
    /// who becomes the owner — with the whole initial supply, and logs one
    /// mint with the memo `Initial tokens supply is minted`.
    pub fn new(
        caller: String,
        total_supply: u128,
        metadata: TokenMetadata,
        can_mint: bool,
        can_burn: bool,
        glue_id: String,
    ) -> (r: Result<Contract, LedgerError>)
        ensures
            r is Ok <==> metadata.valid(),
            !metadata.valid() ==> r == Err::<Contract, LedgerError>(
                LedgerError::InvalidMetadata,
            ),
            r matches Ok(c) ==> {
                &&& c.wf()
                &&& c.owner_id@ == caller@
                &&& c.glue_id@ == glue_id@
                &&& c.can_mint == can_mint
                &&& c.can_burn == can_burn
                &&& c.metadata == metadata
                &&& c.accounts@ == seq![(caller@, total_supply)]
                &&& c.fund_accounts@ == Seq::<(Seq<char>, u128)>::empty()
                &&& c.log@ == seq![
                    mint_line(
                        seq![
                            (
                                caller@,
                                total_supply,
                                Some("Initial tokens supply is minted"@),
                            ),
                        ],
                    ),
                ]
                &&& c.total_supply() == total_supply
            },
    {
        if !metadata.is_valid() {
            return Err(LedgerError::InvalidMetadata);
        }
        let mut accounts = Balances::new();
        proof {
            lemma_credit(accounts@, caller@, total_supply);
        }
        accounts.credit(&caller, total_supply);
        let fund_accounts = Balances::new();
        let mut log = EventLog::new();
        let owner_id = caller.clone();
        FtMint {
            owner_id: caller.clone(),
            amount: total_supply,
            memo: Some("Initial tokens supply is minted".to_owned()),
        }.emit(&mut log);
        let c = Contract {
            metadata,
            fund_accounts,
            accounts,
            can_mint,
            can_burn,
            owner_id,
            glue_id,
            log,
        };
        proof {
            assert(c.accounts@ =~= seq![(caller@, total_supply)]);
            assert(c.accounts@.drop_last() =~= Seq::<(Seq<char>, u128)>::empty());
            assert(sum_of(c.accounts@) == total_supply);
            assert(c.log@ =~= seq![
                mint_line(
                    seq![(caller@, total_supply, Some("Initial tokens supply is minted"@))],
                ),
            ]);
        }
        Ok(c)
    }

    /// Creates `amount` new tokens in the owner's account. Allowed only
    /// when minting was enabled at initialization and the caller is the
    /// owner. Emits no event.
    #[allow(non_snake_case)]
    pub fn mintToken(&mut self, caller: &String, amount: u128) -> (r: Result<(), LedgerError>)
        requires
            old(self).wf(),
            (old(self).can_mint && old(self).is_owner(caller@)) ==> bal_of(
                old(self).accounts@,
                old(self).owner_id@,
            ) + amount <= u128::MAX,
        ensures
            final(self).wf(),
            !old(self).can_mint ==> r == Err::<(), LedgerError>(LedgerError::MintDisabled)
                && *final(self) == *old(self),
            old(self).can_mint && !old(self).is_owner(caller@) ==> r == Err::<
                (),
                LedgerError,
            >(LedgerError::Unauthorized) && *final(self) == *old(self),
            old(self).can_mint && old(self).is_owner(caller@) ==> {
                &&& r == Ok::<(), LedgerError>(())
                &&& final(self).accounts@ == credit_spec(
                    old(self).accounts@,
                    old(self).owner_id@,
                    amount,
                )
                &&& final(self).fund_accounts == old(self).fund_accounts
                &&& final(self).log == old(self).log
                &&& final(self).same_config(*old(self))
                &&& final(self).total_supply() == old(self).total_supply() + amount
            },
            final(self).abs() == apply_op(
                old(self).abs(),
                LedgerOp::Mint { caller: caller@, amount },
            ),
    {
        if !self.can_mint {
            return Err(LedgerError::MintDisabled);
        }
        if !(*caller == self.owner_id) {
            return Err(LedgerError::Unauthorized);
        }
        let owner = self.owner_id.clone();
        proof {
            lemma_credit(self.accounts@, owner@, amount);
        }
        self.accounts.credit(&owner, amount);
        Ok(())
    }

    /// Destroys `amount` tokens from the owner's account. Allowed only when
    /// burning was enabled at initialization and the caller is the owner;
    /// fails `InsufficientBalance` when the owner holds less than `amount`.
    #[allow(non_snake_case)]
    pub fn burnToken(&mut self, caller: &String, amount: u128) -> (r: Result<(), LedgerError>)
        requires
            old(self).wf(),
        ensures
            final(self).wf(),
            !old(self).can_burn ==> r == Err::<(), LedgerError>(LedgerError::BurnDisabled)
                && *final(self) == *old(self),
            old(self).can_burn && !old(self).is_owner(caller@) ==> r == Err::<
                (),
                LedgerError,
            >(LedgerError::Unauthorized) && *final(self) == *old(self),
            old(self).can_burn && old(self).is_owner(caller@) && bal_of(
                old(self).accounts@,
                old(self).owner_id@,
            ) < amount ==> r == Err::<(), LedgerError>(LedgerError::InsufficientBalance)
                && *final(self) == *old(self),
            old(self).can_burn && old(self).is_owner(caller@) && bal_of(
                old(self).accounts@,
                old(self).owner_id@,
            ) >= amount ==> {
                &&& r == Ok::<(), LedgerError>(())
                &&& final(self).accounts@ == debit_spec(
                    old(self).accounts@,
                    old(self).owner_id@,
                    amount,
                )
                &&& final(self).fund_accounts == old(self).fund_accounts
                &&& final(self).log == old(self).log
                &&& final(self).same_config(*old(self))
                &&& final(self).total_supply() == old(self).total_supply() - amount
            },
            final(self).abs() == apply_op(
                old(self).abs(),
                LedgerOp::Burn { caller: caller@, amount },
            ),
    {
        if !self.can_burn {
            return Err(LedgerError::BurnDisabled);
        }
        if !(*caller == self.owner_id) {
            return Err(LedgerError::Unauthorized);
        }
        let owner = self.owner_id.clone();
        let ghost pre = self.accounts@;
        let ok = self.accounts.debit(&owner, amount);
        if !ok {
            return Err(LedgerError::InsufficientBalance);
        }
        proof {
            lemma_debit(pre, owner@, amount);
        }
        Ok(())
    }

    /// Moves `amount` from the caller's account to `receiver_id`'s. Any
    /// account may transfer; the only failure is a balance short of
    /// `amount`. A self-transfer is permitted, changes no balance, and
    /// still logs its event. Logs a transfer with the memo `transferred`.
    pub fn ft_transfer(
        &mut self,
        caller: &String,
        receiver_id: String,
        amount: u128,
    ) -> (r: Result<(), LedgerError>)
        requires
            old(self).wf(),
            (bal_of(old(self).accounts@, caller@) >= amount && caller@ != receiver_id@)
                ==> bal_of(old(self).accounts@, receiver_id@) + amount <= u128::MAX,
        ensures
            final(self).wf(),
            r is Ok <==> bal_of(old(self).accounts@, caller@) >= amount,
            bal_of(old(self).accounts@, caller@) < amount ==> r == Err::<(), LedgerError>(
                LedgerError::InsufficientBalance,
            ) && *final(self) == *old(self),
            r is Ok ==> {
                &&& final(self).accounts@ == credit_spec(
                    debit_spec(old(self).accounts@, caller@, amount),
                    receiver_id@,
                    amount,
                )
                &&& final(self).fund_accounts == old(self).fund_accounts
                &&& final(self).log@ == old(self).log@.push(
                    transfer_line(
                        seq![(caller@, receiver_id@, amount, Some("transferred"@))],
                    ),
                )
                &&& final(self).same_config(*old(self))
                &&& final(self).total_supply() == old(self).total_supply()
            },
            final(self).abs() == apply_op(
                old(self).abs(),
                LedgerOp::Transfer { caller: caller@, receiver: receiver_id@, amount },
            ),
    {
        let ghost pre = self.accounts@;
        let ok = self.accounts.debit(caller, amount);
        if !ok {
            return Err(LedgerError::InsufficientBalance);
        }
        proof {
            lemma_debit(pre, caller@, amount);
            lemma_credit(debit_spec(pre, caller@, amount), receiver_id@, amount);
        }
        self.accounts.credit(&receiver_id, amount);
        FtTransfer {
            old_owner_id: caller.clone(),
            new_owner_id: receiver_id,
            amount,
            memo: Some("transferred".to_owned()),
        }.emit(&mut self.log);
        Ok(())
    }

    /// Moves `amount` from the owner's account — always the owner's, also
    /// when the glue identity is the caller — into the named fund pool.
    /// Allowed for the owner and the glue identity. Emits no event.
    #[allow(non_snake_case)]
    pub fn sendToFund(&mut self, caller: &String, id: String, amount: u128) -> (r: Result<
        (),
        LedgerError,
    >)
        requires
            old(self).wf(),
            (old(self).is_owner_or_glue(caller@) && bal_of(
                old(self).accounts@,
                old(self).owner_id@,
            ) >= amount) ==> bal_of(old(self).fund_accounts@, id@) + amount <= u128::MAX,
        ensures
            final(self).wf(),
            !old(self).is_owner_or_glue(caller@) ==> r == Err::<(), LedgerError>(
                LedgerError::Unauthorized,
            ) && *final(self) == *old(self),
            old(self).is_owner_or_glue(caller@) && bal_of(
                old(self).accounts@,
                old(self).owner_id@,
            ) < amount ==> r == Err::<(), LedgerError>(LedgerError::InsufficientBalance)
                && *final(self) == *old(self),
            old(self).is_owner_or_glue(caller@) && bal_of(
                old(self).accounts@,
                old(self).owner_id@,
            ) >= amount ==> {
                &&& r == Ok::<(), LedgerError>(())
                &&& final(self).accounts@ == debit_spec(
                    old(self).accounts@,
                    old(self).owner_id@,
                    amount,
                )
                &&& final(self).fund_accounts@ == credit_spec(
                    old(self).fund_accounts@,
                    id@,
                    amount,
                )
                &&& final(self).log == old(self).log
                &&& final(self).same_config(*old(self))
                &&& final(self).total_supply() == old(self).total_supply()
            },
            final(self).abs() == apply_op(
                old(self).abs(),
                LedgerOp::SendToFund { caller: caller@, id: id@, amount },
            ),
    {
        if !(*caller == self.owner_id || *caller == self.glue_id) {
            return Err(LedgerError::Unauthorized);
        }
        let owner = self.owner_id.clone();
        let ghost pre = self.accounts@;
        let ok = self.accounts.debit(&owner, amount);
        if !ok {
            return Err(LedgerError::InsufficientBalance);
        }
        proof {
            lemma_debit(pre, owner@, amount);
            lemma_credit(self.fund_accounts@, id@, amount);
        }
        self.fund_accounts.credit(&id, amount);
        Ok(())
    }

    /// Moves `amount` out of the named fund pool into `walletAddress`'s
    /// account. Allowed for the owner and the glue identity; fails
    /// `InsufficientBalance` when the pool holds less than `amount`. Logs a
    /// transfer that names the owner — not the pool — as the debited side,
    /// with the memo `transferred`.
    #[allow(non_snake_case)]
    pub fn sendFromFund(
        &mut self,
        caller: &String,
        id: String,
        walletAddress: String,
        amount: u128,
    ) -> (r: Result<(), LedgerError>)
        requires
            old(self).wf(),
            (old(self).is_owner_or_glue(caller@) && bal_of(old(self).fund_accounts@, id@)
                >= amount) ==> bal_of(old(self).accounts@, walletAddress@) + amount
                <= u128::MAX,
        ensures
            final(self).wf(),
            !old(self).is_owner_or_glue(caller@) ==> r == Err::<(), LedgerError>(
                LedgerError::Unauthorized,
            ) && *final(self) == *old(self),
            old(self).is_owner_or_glue(caller@) && bal_of(old(self).fund_accounts@, id@)
                < amount ==> r == Err::<(), LedgerError>(LedgerError::InsufficientBalance)
                && *final(self) == *old(self),
            old(self).is_owner_or_glue(caller@) && bal_of(old(self).fund_accounts@, id@)
                >= amount ==> {
                &&& r == Ok::<(), LedgerError>(())
                &&& final(self).fund_accounts@ == debit_spec(
                    old(self).fund_accounts@,
                    id@,
                    amount,
                )
                &&& final(self).accounts@ == credit_spec(
                    old(self).accounts@,
                    walletAddress@,
                    amount,
                )
                &&& final(self).log@ == old(self).log@.push(
                    transfer_line(
                        seq![
                            (
                                old(self).owner_id@,
                                walletAddress@,
                                amount,
                                Some("transferred"@),
                            ),
                        ],
                    ),
                )
                &&& final(self).same_config(*old(self))
                &&& final(self).total_supply() == old(self).total_supply()
            },
            final(self).abs() == apply_op(
                old(self).abs(),
                LedgerOp::SendFromFund {
                    caller: caller@,
                    id: id@,
                    destination: walletAddress@,
                    amount,
                },
            ),
    {
        if !(*caller == self.owner_id || *caller == self.glue_id) {
            return Err(LedgerError::Unauthorized);
        }
        let ghost pre_f = self.fund_accounts@;
        let ok = self.fund_accounts.debit(&id, amount);
        if !ok {
            return Err(LedgerError::InsufficientBalance);
        }
        proof {
            lemma_debit(pre_f, id@, amount);
            lemma_credit(self.accounts@, walletAddress@, amount);
        }
        self.accounts.credit(&walletAddress, amount);
        FtTransfer {
            old_owner_id: self.owner_id.clone(),
            new_owner_id: walletAddress,
            amount,
            memo: Some("transferred".to_owned()),
        }.emit(&mut self.log);
        Ok(())
    }

    /// Reassigns the owner identity. Allowed only for the current owner;
    /// every other configuration field stays as it was for the contract's
    /// lifetime.
    #[allow(non_snake_case)]
    pub fn changeOwner(&mut self, caller: &String, address: String) -> (r: Result<
        (),
        LedgerError,
    >)
        requires
            old(self).wf(),
        ensures
            final(self).wf(),
            !old(self).is_owner(caller@) ==> r == Err::<(), LedgerError>(
                LedgerError::Unauthorized,
            ) && *final(self) == *old(self),
            old(self).is_owner(caller@) ==> {
                &&& r == Ok::<(), LedgerError>(())
                &&& final(self).owner_id@ == address@
                &&& final(self).accounts == old(self).accounts
                &&& final(self).fund_accounts == old(self).fund_accounts
                &&& final(self).log == old(self).log
                &&& final(self).glue_id == old(self).glue_id
                &&& final(self).can_mint == old(self).can_mint
                &&& final(self).can_burn == old(self).can_burn
                &&& final(self).metadata == old(self).metadata
                &&& final(self).total_supply() == old(self).total_supply()
            },
            final(self).abs() == apply_op(
                old(self).abs(),
                LedgerOp::ChangeOwner { caller: caller@, address: address@ },
            ),
    {
        if !(*caller == self.owner_id) {
            return Err(LedgerError::Unauthorized);
        }
        self.owner_id = address;
        Ok(())
    }

    /// The balance of an account; 0 for one never credited. Mutates
    /// nothing.
    pub fn ft_balance_of(&self, account_id: &String) -> (r: u128)
        requires
            self.wf(),
        ensures
            r == bal_of(self.accounts@, account_id@),
    {
        self.accounts.balance_of(account_id)
    }

    /// The balance of a fund pool; 0 for one never credited. Mutates
    /// nothing.
    pub fn ft_fund_balance_of(&self, account_id: &String) -> (r: u128)
        requires
            self.wf(),
        ensures
            r == bal_of(self.fund_accounts@, account_id@),
    {
        self.fund_accounts.balance_of(account_id)
    }

    /// How many distinct accounts hold an entry.
    pub fn total_users(&self) -> (r: u64)
        ensures
            r == self.accounts@.len(),
    {
        self.accounts.count()
    }

    /// How many distinct fund pools hold an entry.
    pub fn total_fund_users(&self) -> (r: u64)
        ensures
            r == self.fund_accounts@.len(),
    {
        self.fund_accounts.count()
    }

    /// The account entries in their stable first-credit order, skipping
    /// `start_index` of them and yielding at most `limit`.
    pub fn list_balances(&self, start_index: usize, limit: usize) -> (r: Vec<(String, u128)>)
        ensures
            ({
                let s = self.accounts@;
                let lo = if start_index as int <= s.len() {
                    start_index as int
                } else {
                    s.len() as int
                };
                let hi = if start_index as int + limit as int <= s.len() {
                    start_index as int + limit as int
                } else {
                    s.len() as int
                };
                &&& r@.len() == hi - lo
                &&& forall|j: int|
                    0 <= j < r@.len() ==> r@[j].0@ == s[lo + j].0 && r@[j].1 == s[lo + j].1
            }),
    {
        self.accounts.list(start_index, limit)
    }

    /// The fund-pool entries in their stable first-credit order, skipping
    /// `start_index` of them and yielding at most `limit`.
    pub fn list_fund_balances(&self, start_index: usize, limit: usize) -> (r: Vec<
        (String, u128),
    >)
        ensures
            ({
                let s = self.fund_accounts@;
                let lo = if start_index as int <= s.len() {
                    start_index as int
                } else {
                    s.len() as int
                };
                let hi = if start_index as int + limit as int <= s.len() {
                    start_index as int + limit as int
                } else {
                    s.len() as int
                };
                &&& r@.len() == hi - lo
                &&& forall|j: int|
                    0 <= j < r@.len() ==> r@[j].0@ == s[lo + j].0 && r@[j].1 == s[lo + j].1
            }),
    {
        self.fund_accounts.list(start_index, limit)
    }

    /// The metadata fixed at initialization.
    pub fn ft_metadata(&self) -> (r: TokenMetadata)
        ensures
            r.spec_version == self.metadata.spec_version,
            r.name == self.metadata.name,
            r.symbol == self.metadata.symbol,
            r.icon == self.metadata.icon,
            r.reference == self.metadata.reference,
            r.decimals == self.metadata.decimals,
            r.reference_hash is Some <==> self.metadata.reference_hash is Some,
            r.reference_hash matches Some(h) ==> (self.metadata.reference_hash matches Some(
                g,
            ) && h@ == g@),
            r.valid() == self.metadata.valid(),
    {
        self.metadata.duplicate()
    }
}

/// Initializes the one ledger a deployment holds: the configuration has
/// exactly two states, uninitialized and initialized, and this transition
/// runs at most once. A second call fails `AlreadyInitialized` and changes
/// nothing; a first call with malformed metadata fails `InvalidMetadata`
/// and leaves the slot empty.
pub fn initialize(
    slot: &mut Option<Contract>,
    caller: String,
    total_supply: u128,
    metadata: TokenMetadata,
    can_mint: bool,
    can_burn: bool,
    glue_id: String,
) -> (r: Result<(), LedgerError>)
    ensures
        (*old(slot)) is Some ==> r == Err::<(), LedgerError>(LedgerError::AlreadyInitialized)
            && *final(slot) == *old(slot),
        (*old(slot)) is None && !metadata.valid() ==> r == Err::<(), LedgerError>(
            LedgerError::InvalidMetadata,
        ) && (*final(slot)) is None,
        (*old(slot)) is None && metadata.valid() ==> {
            &&& r == Ok::<(), LedgerError>(())
            &&& (*final(slot)) matches Some(c) && {
                &&& c.wf()
                &&& c.owner_id@ == caller@
                &&& c.glue_id@ == glue_id@
                &&& c.can_mint == can_mint
                &&& c.can_burn == can_burn
                &&& c.metadata == metadata
                &&& c.accounts@ == seq![(caller@, total_supply)]
                &&& c.fund_accounts@ == Seq::<(Seq<char>, u128)>::empty()
                &&& c.log@ == seq![
                    mint_line(
                        seq![
                            (
                                caller@,
                                total_supply,
                                Some("Initial tokens supply is minted"@),
                            ),
                        ],
                    ),
                ]
            }
        },
{
    if slot.is_some() {
        return Err(LedgerError::AlreadyInitialized);
    }
    match Contract::new(caller, total_supply, metadata, can_mint, can_burn, glue_id) {
        Ok(c) => {
            *slot = Some(c);
            Ok(())
        },
        Err(e) => Err(e),
    }
}

/// Every operation but `initialize` requires the initialized state: this
/// hands out the ledger, or fails `NotInitialized` while the slot is still
/// empty.
pub fn require_initialized(slot: &Option<Contract>) -> (r: Result<&Contract, LedgerError>)
    ensures
        *slot is Some <==> r is Ok,
        *slot is None ==> r == Err::<&Contract, LedgerError>(LedgerError::NotInitialized),
        r matches Ok(c) ==> (*slot matches Some(c0) && *c == c0),
{
    match slot {
        Some(c) => Ok(c),
        None => Err(LedgerError::NotInitialized),
    }
}

} // verus!
