//! A named collection of transactions in one currency.

use vstd::prelude::*;
use crate::balance::{Balance, balance_of};
use crate::currency::{Currency, RateTable, convert_amount_spec, rate_table_wf};
use crate::date::{Date, valid_date};
use crate::ids::{IdGenerator, id_generator_wf};
use crate::period::Period;
use crate::text::{valid_description, valid_name};
use crate::transaction::{
    Transaction, clone_description, for_period_spec, opt_text_view, transaction_dates_wf,
    transaction_different, transaction_valid,
};

verus! {

/// A wallet: transactions in one currency, in insertion order (the order does
/// not affect balances but is preserved for display). Identifier 0 marks a
/// draft.
#[derive(Clone, Debug)]
pub struct Wallet {
    pub id: usize,
    pub name: String,
    pub description: Option<String>,
    pub currency: Currency,
    pub transactions: Vec<Transaction>,
}

/// Every transaction's dates are on the calendar.
pub open spec fn wallet_dates_wf(w: Wallet) -> bool {
    forall|i: int|
        0 <= i < w.transactions@.len() ==> transaction_dates_wf(#[trigger] w.transactions@[i])
}

/// A wallet that may be persisted: name and description as for transactions,
/// and every contained transaction valid.
pub open spec fn wallet_valid(w: Wallet) -> bool {
    &&& valid_name(w.name@)
    &&& (w.description matches Some(d) ==> valid_description(d@))
    &&& forall|i: int|
        0 <= i < w.transactions@.len() ==> transaction_valid(#[trigger] w.transactions@[i])
}

/// Two wallets differ in a field the user can edit, or some pair of
/// transactions at the same position differs. Positions past the shorter list
/// are not compared.
pub open spec fn wallet_different(a: Wallet, b: Wallet) -> bool {
    ||| a.name@ != b.name@
    ||| opt_text_view(a.description) != opt_text_view(b.description)
    ||| a.currency != b.currency
    ||| exists|i: int|
        0 <= i < a.transactions@.len() && i < b.transactions@.len() && transaction_different(
            #[trigger] a.transactions@[i],
            b.transactions@[i],
        )
}

/// The sequence with every transaction of the given identifier removed.
pub open spec fn remove_txn_id(s: Seq<Transaction>, id: usize) -> Seq<Transaction>
    decreases s.len(),
{
    if s.len() == 0 {
        Seq::empty()
    } else {
        remove_txn_id(s.drop_last(), id) + (if s.last().id == id {
            Seq::empty()
        } else {
            seq![s.last()]
        })
    }
}

/// Removal can also be unfolded from the front of the sequence.
pub proof fn lemma_remove_txn_id_head(s: Seq<Transaction>, id: usize)
    requires
        s.len() > 0,
    ensures
        remove_txn_id(s, id) == (if s[0].id == id {
            Seq::<Transaction>::empty()
        } else {
            seq![s[0]]
        }) + remove_txn_id(s.skip(1), id),
    decreases s.len(),
{
    let head: Seq<Transaction> = if s[0].id == id {
        Seq::empty()
    } else {
        seq![s[0]]
    };
    if s.len() == 1 {
        assert(s.drop_last() =~= Seq::<Transaction>::empty());
        assert(s.skip(1) =~= Seq::<Transaction>::empty());
        assert(remove_txn_id(s, id) =~= head + remove_txn_id(s.skip(1), id));
    } else {
        let dl = s.drop_last();
        lemma_remove_txn_id_head(dl, id);
        assert(dl[0] == s[0]);
        assert(dl.skip(1) =~= s.skip(1).drop_last());
        assert(s.skip(1).last() == s.last());
        assert(remove_txn_id(s, id) =~= head + remove_txn_id(s.skip(1), id));
    }
}

/// A transaction with its amount converted between currencies, all other
/// fields kept.
pub open spec fn txn_converted(t: Transaction, from: Currency, to: Currency, rt: RateTable) -> Transaction {
    Transaction { amount: convert_amount_spec(t.amount, from, to, rt), ..t }
}

impl Wallet {
    /// The entity has been promoted out of the draft state.
    pub fn is_created(&self) -> (r: bool)
        ensures
            r == (self.id != 0),
    {
        self.id != 0
    }

    /// Promotes a draft by drawing a fresh identifier; promoting again
    /// changes nothing.
    pub fn assign_global_id(self, gen: &mut IdGenerator) -> (r: Wallet)
        requires
            id_generator_wf(*old(gen)),
            old(gen).next_id < usize::MAX,
        ensures
            self.id != 0 ==> r == self && *final(gen) == *old(gen),
            self.id == 0 ==> r == (Wallet { id: old(gen).next_id, ..self }) && r.id > 0
                && final(gen).next_id == old(gen).next_id + 1,
            id_generator_wf(*final(gen)),
    {
        if self.is_created() {
            self
        } else {
            let id = gen.fresh();
            Wallet { id, ..self }
        }
    }

    pub fn is_valid(&self) -> (r: bool)
        ensures
            r == wallet_valid(*self),
    {
        if !crate::text::name_is_valid(self.name.as_str()) {
            return false;
        }
        match &self.description {
            Some(d) => {
                if !crate::text::description_is_valid(d.as_str()) {
                    return false;
                }
            },
            None => {},
        }
        let mut i: usize = 0;
        while i < self.transactions.len()
            invariant
                i <= self.transactions@.len(),
                forall|j: int| 0 <= j < i ==> transaction_valid(#[trigger] self.transactions@[j]),
            decreases self.transactions@.len() - i,
        {
            if !self.transactions[i].is_valid() {
                return false;
            }
            i = i + 1;
        }
        true
    }

    /// The fields a user can edit differ somewhere; transaction lists are
    /// compared pairwise up to the shorter length.
    pub fn is_different(&self, other: &Wallet) -> (r: bool)
        ensures
            r == wallet_different(*self, *other),
    {
        if !(self.name == other.name) {
            return true;
        }
        let desc_eq = match (&self.description, &other.description) {
            (None, None) => true,
            (Some(a), Some(b)) => *a == *b,
            _ => false,
        };
        if !desc_eq {
            return true;
        }
        if self.currency != other.currency {
            return true;
        }
        let mut i: usize = 0;
        while i < self.transactions.len() && i < other.transactions.len()
            invariant
                forall|j: int|
                    0 <= j < i && j < self.transactions@.len() && j < other.transactions@.len()
                        ==> !transaction_different(
                        #[trigger] self.transactions@[j],
                        other.transactions@[j],
                    ),
            decreases self.transactions@.len() - i,
        {
            if self.transactions[i].is_different(&other.transactions[i]) {
                return true;
            }
            i = i + 1;
        }
        false
    }

    /// The first transaction with the given identifier, in list order.
    pub fn find_transaction_by_id(&self, transaction_id: usize) -> (r: Option<&Transaction>)
        ensures
            r is None <==> (forall|i: int|
                0 <= i < self.transactions@.len() ==> (#[trigger] self.transactions@[i]).id
                    != transaction_id),
            r matches Some(t) ==> exists|i: int|
                0 <= i < self.transactions@.len() && #[trigger] self.transactions@[i] == *t
                    && t.id == transaction_id && (forall|j: int|
                    0 <= j < i ==> (#[trigger] self.transactions@[j]).id != transaction_id),
    {
        let mut i: usize = 0;
        while i < self.transactions.len()
            invariant
                i <= self.transactions@.len(),
                forall|j: int|
                    0 <= j < i ==> (#[trigger] self.transactions@[j]).id != transaction_id,
            decreases self.transactions@.len() - i,
        {
            if self.transactions[i].id == transaction_id {
                return Some(&self.transactions[i]);
            }
            i = i + 1;
        }
        None
    }

    /// Removes every transaction with the given identifier, keeping the order
    /// of the rest.
    pub fn remove_transaction_by_id(&mut self, transaction_id: usize)
        ensures
            final(self).transactions@ == remove_txn_id(old(self).transactions@, transaction_id),
            final(self).id == old(self).id,
            final(self).name == old(self).name,
            final(self).description == old(self).description,
            final(self).currency == old(self).currency,
    {
        let ghost orig = self.transactions@;
        let mut i: usize = 0;
        proof {
            assert(orig.take(0) =~= Seq::<Transaction>::empty());
            assert(orig.skip(0) =~= orig);
        }
        while i < self.transactions.len()
            invariant
                i <= self.transactions@.len(),
                self.id == old(self).id,
                self.name == old(self).name,
                self.description == old(self).description,
                self.currency == old(self).currency,
                remove_txn_id(orig, transaction_id) == self.transactions@.take(i as int)
                    + remove_txn_id(self.transactions@.skip(i as int), transaction_id),
                forall|j: int|
                    0 <= j < i ==> (#[trigger] self.transactions@[j]).id != transaction_id,
            decreases self.transactions@.len() - i,
        {
            let ghost pre = self.transactions@;
            proof {
                lemma_remove_txn_id_head(pre.skip(i as int), transaction_id);
            }
            if self.transactions[i].id == transaction_id {
                self.transactions.remove(i);
                proof {
                    assert(self.transactions@.take(i as int) =~= pre.take(i as int));
                    assert(pre.skip(i as int).skip(1) =~= self.transactions@.skip(i as int));
                    assert(remove_txn_id(orig, transaction_id) =~= self.transactions@.take(
                        i as int,
                    ) + remove_txn_id(self.transactions@.skip(i as int), transaction_id));
                }
            } else {
                proof {
                    assert(pre.skip(i as int)[0] == pre[i as int]);
                    assert(pre.skip(i as int).skip(1) =~= pre.skip(i + 1));
                    assert(pre.take(i + 1) =~= pre.take(i as int) + seq![pre[i as int]]);
                    assert(remove_txn_id(orig, transaction_id) =~= pre.take(i + 1)
                        + remove_txn_id(pre.skip(i + 1), transaction_id));
                }
                i = i + 1;
            }
        }
        proof {
            assert(self.transactions@.skip(i as int) =~= Seq::<Transaction>::empty());
            assert(self.transactions@.take(i as int) =~= self.transactions@);
            assert(final(self).transactions@ =~= remove_txn_id(orig, transaction_id));
        }
    }

    /// Replaces the first transaction that shares the new one's identifier,
    /// or appends the new one if no transaction has its identifier.
    pub fn add_or_update_transaction(&mut self, transaction: Transaction)
        ensures
            final(self).id == old(self).id,
            final(self).name == old(self).name,
            final(self).description == old(self).description,
            final(self).currency == old(self).currency,
            (forall|i: int|
                0 <= i < old(self).transactions@.len() ==> (#[trigger] old(
                    self,
                ).transactions@[i]).id != transaction.id) ==> final(self).transactions@ == old(
                self,
            ).transactions@.push(transaction),
            (exists|i: int|
                0 <= i < old(self).transactions@.len() && (#[trigger] old(
                    self,
                ).transactions@[i]).id == transaction.id) ==> exists|i: int|
                {
                    &&& 0 <= i < old(self).transactions@.len()
                    &&& (#[trigger] old(self).transactions@[i]).id == transaction.id
                    &&& (forall|j: int|
                        0 <= j < i ==> (#[trigger] old(self).transactions@[j]).id
                            != transaction.id)
                    &&& final(self).transactions@ == old(self).transactions@.update(i, transaction)
                },
    {
        let ghost orig = self.transactions@;
        let mut i: usize = 0;
        while i < self.transactions.len()
            invariant
                i <= self.transactions@.len(),
                *self == *old(self),
                orig == old(self).transactions@,
                forall|j: int| 0 <= j < i ==> (#[trigger] orig[j]).id != transaction.id,
            decreases orig.len() - i,
        {
            if self.transactions[i].id == transaction.id {
                self.transactions.remove(i);
                self.transactions.insert(i, transaction);
                proof {
                    assert(self.transactions@ =~= orig.update(i as int, transaction));
                }
                return ;
            }
            i = i + 1;
        }
        self.transactions.push(transaction);
    }

    /// The raw ledger total over all transactions, unfiltered by any period.
    pub fn balance(&self) -> (r: Balance)
        ensures
            r == balance_of(self.transactions@),
    {
        Balance::from_transactions(self.transactions.as_slice())
    }

    /// The wallet projected onto a reporting window: every transaction is
    /// individually projected, everything else is kept.
    pub fn for_period(&self, period: Period, today: Date) -> (r: Wallet)
        requires
            valid_date(today),
            today.year >= 1970,
            wallet_dates_wf(*self),
        ensures
            r.id == self.id,
            r.name == self.name,
            r.description == self.description,
            r.currency == self.currency,
            r.transactions@ == self.transactions@.map_values(
                |t: Transaction| for_period_spec(t, period, today),
            ),
    {
        let mut out: Vec<Transaction> = Vec::new();
        let mut i: usize = 0;
        while i < self.transactions.len()
            invariant
                i <= self.transactions@.len(),
                valid_date(today),
                today.year >= 1970,
                wallet_dates_wf(*self),
                out@.len() == i,
                forall|j: int|
                    0 <= j < i ==> out@[j] == for_period_spec(
                        #[trigger] self.transactions@[j],
                        period,
                        today,
                    ),
            decreases self.transactions@.len() - i,
        {
            out.push(self.transactions[i].for_period(period, today));
            i = i + 1;
        }
        proof {
            assert(out@ =~= self.transactions@.map_values(
                |t: Transaction| for_period_spec(t, period, today),
            ));
        }
        Wallet {
            id: self.id,
            name: self.name.clone(),
            description: clone_description(&self.description),
            currency: self.currency,
            transactions: out,
        }
    }

    /// A wallet with every amount converted into the target currency and the
    /// currency field updated; nothing is mutated in place.
    pub fn convert_to_currency(&self, target_currency: Currency, rates: &RateTable) -> (r: Wallet)
        requires
            rate_table_wf(*rates),
        ensures
            r.id == self.id,
            r.name == self.name,
            r.description == self.description,
            r.currency == target_currency,
            r.transactions@ == self.transactions@.map_values(
                |t: Transaction| txn_converted(t, self.currency, target_currency, *rates),
            ),
    {
        let mut out: Vec<Transaction> = Vec::new();
        let mut i: usize = 0;
        while i < self.transactions.len()
            invariant
                i <= self.transactions@.len(),
                rate_table_wf(*rates),
                out@.len() == i,
                forall|j: int|
                    0 <= j < i ==> out@[j] == txn_converted(
                        #[trigger] self.transactions@[j],
                        self.currency,
                        target_currency,
                        *rates,
                    ),
            decreases self.transactions@.len() - i,
        {
            let t = &self.transactions[i];
            let amount = self.currency.convert_amount(t.amount, target_currency, rates);
            out.push(
                Transaction {
                    id: t.id,
                    name: t.name.clone(),
                    description: clone_description(&t.description),
                    amount,
                    cycle: t.cycle,
                    start_date: t.start_date,
                    end_date: t.end_date,
                },
            );
            i = i + 1;
        }
        proof {
            assert(out@ =~= self.transactions@.map_values(
                |t: Transaction| txn_converted(t, self.currency, target_currency, *rates),
            ));
        }
        Wallet {
            id: self.id,
            name: self.name.clone(),
            description: clone_description(&self.description),
            currency: target_currency,
            transactions: out,
        }
    }

    /// Builds a wallet from the fields of a stored record, drawing a fresh
    /// identifier — identifiers are never persisted.
    pub fn from_record(
        name: String,
        description: Option<String>,
        currency: Currency,
        transactions: Vec<Transaction>,
        gen: &mut IdGenerator,
    ) -> (r: Wallet)
        requires
            id_generator_wf(*old(gen)),
            old(gen).next_id < usize::MAX,
        ensures
            r == (Wallet {
                id: old(gen).next_id,
                name,
                description,
                currency,
                transactions,
            }),
            r.id > 0,
            final(gen).next_id == old(gen).next_id + 1,
            id_generator_wf(*final(gen)),
    {
        let id = gen.fresh();
        Wallet { id, name, description, currency, transactions }
    }

}

impl Default for Wallet {
    fn default() -> (r: Self)
        ensures
            r.id == 0,
            r.name@ == Seq::<char>::empty(),
            r.description is None,
            r.currency == Currency::USD,
            r.transactions@ == Seq::<Transaction>::empty(),
    {
        Wallet {
            id: 0,
            name: String::new(),
            description: None,
            currency: Currency::USD,
            transactions: Vec::new(),
        }
    }
}

} // verus!
