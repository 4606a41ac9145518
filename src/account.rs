//! A bank account entity: a balance that deposits raise and withdrawals lower,
//! never below zero, with its command engine.
use vstd::prelude::*;

use crate::event_store::{
    envelope_views, numbered, payloads, EventEnvelope, PostgresEventStore, Replicate,
    StoreError,
};
use crate::events::AggregateError;

verus! {

/// A request to change an account. Amounts are in the smallest unit of the currency.
#[derive(Clone, Copy, Debug, PartialEq, Eq, Structural)]
pub enum AccountCommand {
    DepositMoney { amount: u64 },
    WithdrawMoney { amount: u64 },
}

/// A fact about an account.
#[derive(Clone, Copy, Debug, PartialEq, Eq, Structural)]
pub enum AccountEvent {
    MoneyDeposited { amount: u64 },
    MoneyWithdrawn { amount: u64 },
}

impl Replicate for AccountEvent {
    fn replicate(&self) -> (r: AccountEvent) {
        *self
    }
}

/// A rule of the account that a command broke.
#[derive(Clone, Copy, Debug, PartialEq, Eq, Structural)]
pub enum AccountError {
    /// The withdrawal is larger than the balance.
    InsufficientFunds,
    /// The deposit would take the balance past what a `u64` holds.
    BalanceOverflow,
}

/// The state of an account.
#[derive(Debug)]
pub struct BankAccount {
    pub balance: u64,
}

/// The balance after one event; it stays within `0..=u64::MAX`.
pub open spec fn apply_account(balance: nat, e: AccountEvent) -> nat {
    match e {
        AccountEvent::MoneyDeposited { amount } => if balance + amount > u64::MAX {
            u64::MAX as nat
        } else {
            (balance + amount) as nat
        },
        AccountEvent::MoneyWithdrawn { amount } => if amount > balance {
            0
        } else {
            (balance - amount) as nat
        },
    }
}

/// The balance after replaying `events` in order from zero.
pub open spec fn account_balance(events: Seq<AccountEvent>) -> nat
    decreases events.len(),
{
    if events.len() == 0 {
        0
    } else {
        apply_account(account_balance(events.drop_last()), events.last())
    }
}

/// The decision on `c` for an account holding `balance`.
pub open spec fn decide_account(balance: nat, c: AccountCommand) -> Result<
    Seq<AccountEvent>,
    AccountError,
> {
    match c {
        AccountCommand::DepositMoney { amount } => if balance + amount > u64::MAX {
            Err(AccountError::BalanceOverflow)
        } else {
            Ok(seq![AccountEvent::MoneyDeposited { amount }])
        },
        AccountCommand::WithdrawMoney { amount } => if amount > balance {
            Err(AccountError::InsufficientFunds)
        } else {
            Ok(seq![AccountEvent::MoneyWithdrawn { amount }])
        },
    }
}

pub open spec fn same_account_outcome(
    r: Result<Vec<AccountEvent>, AccountError>,
    d: Result<Seq<AccountEvent>, AccountError>,
) -> bool {
    match (r, d) {
        (Ok(v), Ok(s)) => v@ == s,
        (Err(e), Err(f)) => e == f,
        _ => false,
    }
}

fn one_event(e: AccountEvent) -> (r: Vec<AccountEvent>)
    ensures
        r@ == seq![e],
{
    let mut v: Vec<AccountEvent> = Vec::new();
    v.push(e);
    assert(v@ =~= seq![e]);
    v
}

impl BankAccount {
    /// An account with a zero balance.
    pub fn new() -> (r: BankAccount)
        ensures
            r.balance == 0,
    {
        BankAccount { balance: 0 }
    }

    /// Decides on `command`: a deposit is taken unless the balance would
    /// overflow; a withdrawal is refused when it exceeds the balance.
    pub fn decide(&self, command: AccountCommand) -> (r: Result<Vec<AccountEvent>, AccountError>)
        ensures
            same_account_outcome(r, decide_account(self.balance as nat, command)),
    {
        match command {
            AccountCommand::DepositMoney { amount } => {
                if amount > u64::MAX - self.balance {
                    return Err(AccountError::BalanceOverflow);
                }
                Ok(one_event(AccountEvent::MoneyDeposited { amount }))
            },
            AccountCommand::WithdrawMoney { amount } => {
                if amount > self.balance {
                    return Err(AccountError::InsufficientFunds);
                }
                Ok(one_event(AccountEvent::MoneyWithdrawn { amount }))
            },
        }
    }

    /// Folds one event into the balance. Never fails.
    pub fn apply(&mut self, event: &AccountEvent)
        ensures
            final(self).balance == apply_account(old(self).balance as nat, *event),
    {
        match event {
            AccountEvent::MoneyDeposited { amount } => {
                self.balance = self.balance.saturating_add(*amount);
            },
            AccountEvent::MoneyWithdrawn { amount } => {
                self.balance = self.balance.saturating_sub(*amount);
            },
        }
    }
}

/// An account's state as loaded from the log, with the length of its stream.
pub struct AccountContext {
    aggregate_id: u128,
    current_sequence: usize,
    account: BankAccount,
}

impl AccountContext {
    pub closed spec fn id(&self) -> u128 {
        self.aggregate_id
    }

    pub closed spec fn sequence(&self) -> nat {
        self.current_sequence as nat
    }

    pub closed spec fn balance(&self) -> nat {
        self.account.balance as nat
    }

    /// Replays `events`, the stream of account `aggregate_id`, from zero.
    pub fn new(aggregate_id: u128, events: &Vec<EventEnvelope<AccountEvent>>) -> (r: Self)
        ensures
            r.id() == aggregate_id,
            r.sequence() == events@.len(),
            r.balance() == account_balance(payloads(envelope_views(events@))),
    {
        let ghost evs = payloads(envelope_views(events@));
        let mut account = BankAccount::new();
        let mut i: usize = 0;
        assert(evs.subrange(0, 0) =~= Seq::<AccountEvent>::empty());
        while i < events.len()
            invariant
                i <= events@.len(),
                evs == payloads(envelope_views(events@)),
                evs.len() == events@.len(),
                account.balance == account_balance(evs.subrange(0, i as int)),
            decreases events@.len() - i,
        {
            assert(evs.subrange(0, i + 1).drop_last() =~= evs.subrange(0, i as int));
            assert(evs[i as int] == events@[i as int].payload);
            account.apply(&events[i].payload);
            i += 1;
        }
        assert(evs.subrange(0, events@.len() as int) =~= evs);
        AccountContext { aggregate_id, current_sequence: events.len(), account }
    }

    /// The account's balance.
    pub fn current_balance(&self) -> (r: u64)
        ensures
            r == self.balance(),
    {
        self.account.balance
    }

    /// The number of events the state was built from.
    pub fn current_sequence(&self) -> (r: usize)
        ensures
            r == self.sequence(),
    {
        self.current_sequence
    }
}

/// Attempts that `submit` makes before it reports a conflict.
pub const MAX_ATTEMPTS: usize = 3;

/// The command engine of accounts, with its log.
pub struct AccountFramework {
    store: PostgresEventStore<AccountEvent>,
}

impl AccountFramework {
    pub closed spec fn log(&self) -> PostgresEventStore<AccountEvent> {
        self.store
    }

    pub open spec fn wf(&self) -> bool {
        self.log().wf()
    }

    /// The balance of account `id` that its committed events give.
    pub open spec fn balance_of(&self, id: u128) -> nat {
        account_balance(payloads(self.log().stream(id)))
    }

    /// Whether `context` is a load of an earlier state of this log: the log
    /// only grows, so such a load is a prefix of the stream.
    pub open spec fn loaded_earlier(&self, context: AccountContext) -> bool {
        let s = self.log().stream(context.id());
        &&& context.sequence() <= s.len()
        &&& context.balance() == account_balance(payloads(s.subrange(0, context.sequence() as int)))
    }

    /// An engine with an empty log.
    pub fn new() -> (r: Self)
        ensures
            r.wf(),
            r.log().entries().len() == 0,
    {
        AccountFramework { store: PostgresEventStore::new() }
    }

    /// The log.
    pub fn event_store(&self) -> (r: &PostgresEventStore<AccountEvent>)
        ensures
            *r == self.log(),
    {
        &self.store
    }

    /// Loads account `aggregate_id` from the log.
    pub fn load_account(&self, aggregate_id: u128) -> (r: AccountContext)
        ensures
            r.id() == aggregate_id,
            r.sequence() == self.log().stream(aggregate_id).len(),
            r.balance() == self.balance_of(aggregate_id),
            self.loaded_earlier(r),
    {
        let events = self.store.load_events(aggregate_id);
        let r = AccountContext::new(aggregate_id, &events);
        assert(self.log().stream(aggregate_id).subrange(0, r.sequence() as int)
            =~= self.log().stream(aggregate_id));
        r
    }

    /// Appends `events` to the account of `context`, provided no other write
    /// reached it since `context` was loaded.
    pub fn commit(
        &mut self,
        events: Vec<AccountEvent>,
        context: &AccountContext,
        metadata: Vec<(String, String)>,
    ) -> (r: Result<Vec<EventEnvelope<AccountEvent>>, AggregateError<AccountError>>)
        requires
            old(self).wf(),
        ensures
            final(self).wf(),
            r matches Err(AggregateError::AggregateConflict) <==> context.sequence() != old(
                self,
            ).log().stream(context.id()).len(),
            r matches Err(AggregateError::StorageExhausted) <==> context.sequence() == old(
                self,
            ).log().stream(context.id()).len() && old(self).log().entries().len() + events@.len()
                > usize::MAX,
            !(r matches Err(AggregateError::UserError(_))),
            !(r is Ok) ==> final(self).log().entries() == old(self).log().entries(),
            r is Ok ==> {
                let added = numbered(
                    context.id(),
                    context.sequence() as int,
                    events@,
                    metadata@,
                );
                &&& envelope_views(r->Ok_0@) == added
                &&& final(self).log().entries() == old(self).log().entries() + added
            },
    {
        let id = context.aggregate_id;
        match self.store.append(id, context.current_sequence, events, metadata) {
            Ok(committed) => Ok(committed),
            Err(StoreError::ConcurrencyConflict) => Err(AggregateError::AggregateConflict),
            Err(StoreError::StorageExhausted) => Err(AggregateError::StorageExhausted),
        }
    }

    /// Carries out `command` on account `aggregate_id`: the account decides on
    /// its current balance; a refusal commits nothing.
    pub fn execute(&mut self, aggregate_id: u128, command: AccountCommand) -> (r: Result<
        Vec<EventEnvelope<AccountEvent>>,
        AggregateError<AccountError>,
    >)
        requires
            old(self).wf(),
        ensures
            final(self).wf(),
            !(r matches Err(AggregateError::AggregateConflict)),
            match decide_account(old(self).balance_of(aggregate_id), command) {
                Err(f) => r == Err::<Vec<EventEnvelope<AccountEvent>>, AggregateError<AccountError>>(
                    AggregateError::UserError(f),
                ),
                Ok(evs) => {
                    ||| old(self).log().entries().len() + evs.len() > usize::MAX && r matches Err(
                        AggregateError::StorageExhausted,
                    )
                    ||| r matches Ok(committed) && envelope_views(committed@) == numbered(
                        aggregate_id,
                        old(self).log().stream(aggregate_id).len() as int,
                        evs,
                        Seq::empty(),
                    )
                },
            },
            !(r is Ok) ==> final(self).log().entries() == old(self).log().entries(),
            r matches Ok(committed) ==> final(self).log().entries() == old(self).log().entries()
                + envelope_views(committed@),
    {
        let context = self.load_account(aggregate_id);
        match context.account.decide(command) {
            Err(e) => Err(AggregateError::UserError(e)),
            Ok(events) => self.commit(events, &context, Vec::new()),
        }
    }

    /// Carries out `command` as decided on `context`, which may be stale. A
    /// refusal on `context` is returned as it is. Where another write came
    /// first, the account is loaded again and decides again, up to
    /// `MAX_ATTEMPTS` times in all; under exclusive access the second attempt
    /// cannot meet a conflict.
    pub fn submit(&mut self, context: AccountContext, command: AccountCommand) -> (r: Result<
        Vec<EventEnvelope<AccountEvent>>,
        AggregateError<AccountError>,
    >)
        requires
            old(self).wf(),
            old(self).loaded_earlier(context),
        ensures
            final(self).wf(),
            !(r matches Err(AggregateError::AggregateConflict)),
            decide_account(context.balance(), command) matches Err(f) ==> r == Err::<
                Vec<EventEnvelope<AccountEvent>>,
                AggregateError<AccountError>,
            >(AggregateError::UserError(f)),
            decide_account(context.balance(), command) is Ok ==> match decide_account(
                old(self).balance_of(context.id()),
                command,
            ) {
                Err(f) => r == Err::<Vec<EventEnvelope<AccountEvent>>, AggregateError<AccountError>>(
                    AggregateError::UserError(f),
                ),
                Ok(evs) => {
                    ||| old(self).log().entries().len() + evs.len() > usize::MAX && r matches Err(
                        AggregateError::StorageExhausted,
                    )
                    ||| r matches Ok(committed) && envelope_views(committed@) == numbered(
                        context.id(),
                        old(self).log().stream(context.id()).len() as int,
                        evs,
                        Seq::empty(),
                    )
                },
            },
            !(r is Ok) ==> final(self).log().entries() == old(self).log().entries(),
            r matches Ok(committed) ==> final(self).log().entries() == old(self).log().entries()
                + envelope_views(committed@),
    {
        let id = context.aggregate_id;
        let mut current = AccountContext {
            aggregate_id: context.aggregate_id,
            current_sequence: context.current_sequence,
            account: BankAccount { balance: context.account.balance },
        };
        let mut attempts: usize = 0;
        loop
            invariant
                self.wf(),
                self.log().entries() == old(self).log().entries(),
                id == context.id(),
                current.id() == id,
                attempts == 0 ==> current.sequence() == context.sequence() && current.balance()
                    == context.balance(),
                self.loaded_earlier(current),
                attempts == 0 || current.sequence() == self.log().stream(id).len(),
                attempts == 0 || current.balance() == self.balance_of(id),
                attempts > 0 ==> decide_account(context.balance(), command) is Ok,
                attempts < MAX_ATTEMPTS,
            decreases MAX_ATTEMPTS - attempts,
        {
            proof {
                if current.sequence() == self.log().stream(id).len() {
                    assert(self.log().stream(id).subrange(0, current.sequence() as int)
                        =~= self.log().stream(id));
                }
            }
            let events = match current.account.decide(command) {
                Err(e) => {
                    return Err(AggregateError::UserError(e));
                },
                Ok(events) => events,
            };
            let r = self.commit(events, &current, Vec::new());
            if !matches!(r, Err(AggregateError::AggregateConflict)) {
                return r;
            }
            attempts += 1;
            if attempts >= MAX_ATTEMPTS {
                return r;
            }
            current = self.load_account(id);
        }
    }
}

} // verus!
