//! The root aggregate: the wallets of a document plus the reporting currency
//! and reporting period.

use vstd::prelude::*;
use crate::balance::{Balance, balance_of, join_spec, zero_balance};
use crate::currency::{Currency, RateTable, rate_table_wf};
use crate::date::{Date, valid_date};
use crate::period::Period;
use crate::transaction::{Transaction, for_period_spec};
use crate::wallet::{Wallet, txn_converted, wallet_dates_wf, wallet_valid};

verus! {

/// A document's content. Wallet order is preserved as given; mutation works
/// by whole-value replacement.
#[derive(Clone, Debug)]
pub struct Data {
    pub wallets: Vec<Wallet>,
    pub currency: Currency,
    pub period: Period,
}

/// Safe to persist: at least one wallet, and every wallet valid. A document
/// with no wallets is "empty", not invalid, and is never written out.
pub open spec fn data_valid(d: Data) -> bool {
    &&& d.wallets@.len() > 0
    &&& forall|i: int| 0 <= i < d.wallets@.len() ==> wallet_valid(#[trigger] d.wallets@[i])
}

/// Every date in the document is on the calendar.
pub open spec fn data_dates_wf(d: Data) -> bool {
    forall|i: int| 0 <= i < d.wallets@.len() ==> wallet_dates_wf(#[trigger] d.wallets@[i])
}

/// The sequence with every wallet of the given identifier removed.
pub open spec fn remove_wallet_id(s: Seq<Wallet>, id: usize) -> Seq<Wallet>
    decreases s.len(),
{
    if s.len() == 0 {
        Seq::empty()
    } else {
        remove_wallet_id(s.drop_last(), id) + (if s.last().id == id {
            Seq::empty()
        } else {
            seq![s.last()]
        })
    }
}

/// Removal can also be unfolded from the front of the sequence.
pub proof fn lemma_remove_wallet_id_head(s: Seq<Wallet>, id: usize)
    requires
        s.len() > 0,
    ensures
        remove_wallet_id(s, id) == (if s[0].id == id {
            Seq::<Wallet>::empty()
        } else {
            seq![s[0]]
        }) + remove_wallet_id(s.skip(1), id),
    decreases s.len(),
{
    let head: Seq<Wallet> = if s[0].id == id {
        Seq::empty()
    } else {
        seq![s[0]]
    };
    if s.len() == 1 {
        assert(s.drop_last() =~= Seq::<Wallet>::empty());
        assert(s.skip(1) =~= Seq::<Wallet>::empty());
        assert(remove_wallet_id(s, id) =~= head + remove_wallet_id(s.skip(1), id));
    } else {
        let dl = s.drop_last();
        lemma_remove_wallet_id_head(dl, id);
        assert(dl[0] == s[0]);
        assert(dl.skip(1) =~= s.skip(1).drop_last());
        assert(s.skip(1).last() == s.last());
        assert(remove_wallet_id(s, id) =~= head + remove_wallet_id(s.skip(1), id));
    }
}

/// The wallet a projection produces: the same wallet with each transaction
/// projected onto the reporting window.
pub open spec fn wallet_projected(w_in: Wallet, p: Period, today: Date, w_out: Wallet) -> bool {
    &&& w_out.id == w_in.id
    &&& w_out.name == w_in.name
    &&& w_out.description == w_in.description
    &&& w_out.currency == w_in.currency
    &&& w_out.transactions@ == w_in.transactions@.map_values(
        |t: Transaction| for_period_spec(t, p, today),
    )
}

/// One wallet's contribution to the document total: project each transaction
/// onto the window, convert it from the wallet's currency to the reporting
/// currency, and take the balance.
pub open spec fn wallet_period_balance(
    w: Wallet,
    cur: Currency,
    p: Period,
    today: Date,
    rt: RateTable,
) -> Balance {
    balance_of(
        w.transactions@.map_values(
            |t: Transaction| txn_converted(for_period_spec(t, p, today), w.currency, cur, rt),
        ),
    )
}

/// The document total: every wallet's contribution joined together.
pub open spec fn total_balance_spec(
    ws: Seq<Wallet>,
    cur: Currency,
    p: Period,
    today: Date,
    rt: RateTable,
) -> Balance
    decreases ws.len(),
{
    if ws.len() == 0 {
        zero_balance()
    } else {
        join_spec(
            total_balance_spec(ws.drop_last(), cur, p, today, rt),
            wallet_period_balance(ws.last(), cur, p, today, rt),
        )
    }
}

/// Every transaction of `w` is one-time and dated between the epoch and
/// today (with any end date not before its start).
pub open spec fn wallet_all_one_time_past(w: Wallet, today: Date) -> bool {
    forall|i: int|
        0 <= i < w.transactions@.len() ==> {
            let t = #[trigger] w.transactions@[i];
            &&& t.cycle == crate::cycle::Cycle::OneTime
            &&& crate::transaction::transaction_dates_wf(t)
            &&& crate::date::date_le(crate::period::epoch_date(), t.start_date)
            &&& crate::date::date_le(t.start_date, today)
            &&& (t.end_date matches Some(e) ==> crate::date::date_le(t.start_date, e))
        }
}

/// For a wallet of one-time transactions dated between the epoch and today,
/// the all-time contribution is the conversion of its full, unprojected
/// history: the period projection drops out.
pub proof fn lemma_all_time_is_full_history(w: Wallet, cur: Currency, today: Date, rt: RateTable)
    requires
        valid_date(today),
        today.year >= 1970,
        wallet_all_one_time_past(w, today),
    ensures
        wallet_period_balance(w, cur, Period::All, today, rt) == balance_of(
            w.transactions@.map_values(|t: Transaction| txn_converted(t, w.currency, cur, rt)),
        ),
{
    assert forall|i: int| 0 <= i < w.transactions@.len() implies for_period_spec(
        #[trigger] w.transactions@[i],
        Period::All,
        today,
    ) == w.transactions@[i] by {
        crate::transaction::lemma_one_time_projection_identity(w.transactions@[i], today);
    }
    assert(w.transactions@.map_values(
        |t: Transaction| txn_converted(for_period_spec(t, Period::All, today), w.currency, cur, rt),
    ) =~= w.transactions@.map_values(|t: Transaction| txn_converted(t, w.currency, cur, rt)));
}

/// The total over exactly two wallets is the join of their contributions.
pub proof fn lemma_total_balance_pair(
    w1: Wallet,
    w2: Wallet,
    cur: Currency,
    p: Period,
    today: Date,
    rt: RateTable,
)
    ensures
        total_balance_spec(seq![w1, w2], cur, p, today, rt) == join_spec(
            wallet_period_balance(w1, cur, p, today, rt),
            wallet_period_balance(w2, cur, p, today, rt),
        ),
{
    let pair = seq![w1, w2];
    let b1 = wallet_period_balance(w1, cur, p, today, rt);
    let b2 = wallet_period_balance(w2, cur, p, today, rt);
    assert(pair.drop_last() =~= seq![w1]);
    assert(pair.last() == w2);
    assert(seq![w1].drop_last() =~= Seq::<Wallet>::empty());
    assert(seq![w1].last() == w1);
    assert(total_balance_spec(Seq::<Wallet>::empty(), cur, p, today, rt) == zero_balance());
    assert(total_balance_spec(seq![w1], cur, p, today, rt) == join_spec(zero_balance(), b1));
    crate::balance::lemma_join_zero(b1);
    assert(total_balance_spec(pair, cur, p, today, rt) == join_spec(
        total_balance_spec(seq![w1], cur, p, today, rt),
        b2,
    ));
}

impl Data {
    pub fn is_valid(&self) -> (r: bool)
        ensures
            r == data_valid(*self),
    {
        if self.wallets.len() == 0 {
            return false;
        }
        let mut i: usize = 0;
        while i < self.wallets.len()
            invariant
                i <= self.wallets@.len(),
                forall|j: int| 0 <= j < i ==> wallet_valid(#[trigger] self.wallets@[j]),
            decreases self.wallets@.len() - i,
        {
            if !self.wallets[i].is_valid() {
                return false;
            }
            i = i + 1;
        }
        true
    }

    pub fn is_empty(&self) -> (r: bool)
        ensures
            r == (self.wallets@.len() == 0),
    {
        self.wallets.len() == 0
    }

    /// The first wallet with the given identifier, in list order.
    pub fn find_wallet_by_id(&self, id: usize) -> (r: Option<&Wallet>)
        ensures
            r is None <==> (forall|i: int|
                0 <= i < self.wallets@.len() ==> (#[trigger] self.wallets@[i]).id != id),
            r matches Some(w) ==> exists|i: int|
                0 <= i < self.wallets@.len() && #[trigger] self.wallets@[i] == *w && w.id == id && (
                forall|j: int| 0 <= j < i ==> (#[trigger] self.wallets@[j]).id != id),
    {
        let mut i: usize = 0;
        while i < self.wallets.len()
            invariant
                i <= self.wallets@.len(),
                forall|j: int| 0 <= j < i ==> (#[trigger] self.wallets@[j]).id != id,
            decreases self.wallets@.len() - i,
        {
            if self.wallets[i].id == id {
                return Some(&self.wallets[i]);
            }
            i = i + 1;
        }
        None
    }

    /// Removes every wallet with the given identifier, keeping the order of
    /// the rest.
    pub fn remove_wallet_by_id(&mut self, id: usize)
        ensures
            final(self).wallets@ == remove_wallet_id(old(self).wallets@, id),
            final(self).currency == old(self).currency,
            final(self).period == old(self).period,
    {
        let ghost orig = self.wallets@;
        let mut i: usize = 0;
        proof {
            assert(orig.take(0) =~= Seq::<Wallet>::empty());
            assert(orig.skip(0) =~= orig);
        }
        while i < self.wallets.len()
            invariant
                i <= self.wallets@.len(),
                self.currency == old(self).currency,
                self.period == old(self).period,
                remove_wallet_id(orig, id) == self.wallets@.take(i as int) + remove_wallet_id(
                    self.wallets@.skip(i as int),
                    id,
                ),
                forall|j: int| 0 <= j < i ==> (#[trigger] self.wallets@[j]).id != id,
            decreases self.wallets@.len() - i,
        {
            let ghost pre = self.wallets@;
            proof {
                lemma_remove_wallet_id_head(pre.skip(i as int), id);
            }
            if self.wallets[i].id == id {
                self.wallets.remove(i);
                proof {
                    assert(self.wallets@.take(i as int) =~= pre.take(i as int));
                    assert(pre.skip(i as int).skip(1) =~= self.wallets@.skip(i as int));
                    assert(remove_wallet_id(orig, id) =~= self.wallets@.take(i as int)
                        + remove_wallet_id(self.wallets@.skip(i as int), id));
                }
            } else {
                proof {
                    assert(pre.skip(i as int)[0] == pre[i as int]);
                    assert(pre.skip(i as int).skip(1) =~= pre.skip(i + 1));
                    assert(pre.take(i + 1) =~= pre.take(i as int) + seq![pre[i as int]]);
                    assert(remove_wallet_id(orig, id) =~= pre.take(i + 1) + remove_wallet_id(
                        pre.skip(i + 1),
                        id,
                    ));
                }
                i = i + 1;
            }
        }
        proof {
            assert(self.wallets@.skip(i as int) =~= Seq::<Wallet>::empty());
            assert(self.wallets@.take(i as int) =~= self.wallets@);
            assert(final(self).wallets@ =~= remove_wallet_id(orig, id));
        }
    }

    /// Replaces the first wallet that shares the new one's identifier, or
    /// appends the new one if no wallet has its identifier.
    pub fn add_or_update_wallet(&mut self, wallet: Wallet)
        ensures
            final(self).currency == old(self).currency,
            final(self).period == old(self).period,
            (forall|i: int|
                0 <= i < old(self).wallets@.len() ==> (#[trigger] old(self).wallets@[i]).id
                    != wallet.id) ==> final(self).wallets@ == old(self).wallets@.push(wallet),
            (exists|i: int|
                0 <= i < old(self).wallets@.len() && (#[trigger] old(self).wallets@[i]).id
                    == wallet.id) ==> exists|i: int|
                {
                    &&& 0 <= i < old(self).wallets@.len()
                    &&& (#[trigger] old(self).wallets@[i]).id == wallet.id
                    &&& (forall|j: int|
                        0 <= j < i ==> (#[trigger] old(self).wallets@[j]).id != wallet.id)
                    &&& final(self).wallets@ == old(self).wallets@.update(i, wallet)
                },
    {
        let ghost orig = self.wallets@;
        let mut i: usize = 0;
        while i < self.wallets.len()
            invariant
                i <= self.wallets@.len(),
                *self == *old(self),
                orig == old(self).wallets@,
                forall|j: int| 0 <= j < i ==> (#[trigger] orig[j]).id != wallet.id,
            decreases orig.len() - i,
        {
            if self.wallets[i].id == wallet.id {
                self.wallets.remove(i);
                self.wallets.insert(i, wallet);
                proof {
                    assert(self.wallets@ =~= orig.update(i as int, wallet));
                }
                return ;
            }
            i = i + 1;
        }
        self.wallets.push(wallet);
    }

    /// Every wallet projected onto the document's reporting period.
    pub fn wallets_for_period(&self, today: Date) -> (r: Vec<Wallet>)
        requires
            valid_date(today),
            today.year >= 1970,
            data_dates_wf(*self),
        ensures
            r@.len() == self.wallets@.len(),
            forall|i: int|
                0 <= i < self.wallets@.len() ==> wallet_projected(
                    #[trigger] self.wallets@[i],
                    self.period,
                    today,
                    r@[i],
                ),
    {
        let mut out: Vec<Wallet> = Vec::new();
        let mut i: usize = 0;
        while i < self.wallets.len()
            invariant
                i <= self.wallets@.len(),
                valid_date(today),
                today.year >= 1970,
                data_dates_wf(*self),
                out@.len() == i,
                forall|j: int|
                    0 <= j < i ==> wallet_projected(
                        #[trigger] self.wallets@[j],
                        self.period,
                        today,
                        out@[j],
                    ),
            decreases self.wallets@.len() - i,
        {
            out.push(self.wallets[i].for_period(self.period, today));
            i = i + 1;
        }
        out
    }

    /// The document total for the reporting period: each wallet is projected
    /// onto the period, converted into the reporting currency, folded into a
    /// balance, and the balances are joined.
    pub fn total_balance_for_period(&self, today: Date, rates: &RateTable) -> (r: Balance)
        requires
            valid_date(today),
            today.year >= 1970,
            data_dates_wf(*self),
            rate_table_wf(*rates),
        ensures
            r == total_balance_spec(self.wallets@, self.currency, self.period, today, *rates),
    {
        let ghost ws = self.wallets@;
        let mut acc = Balance { income: 0, expense: 0 };
        let mut i: usize = 0;
        proof {
            assert(ws.take(0) =~= Seq::<Wallet>::empty());
        }
        while i < self.wallets.len()
            invariant
                i <= self.wallets@.len(),
                ws == self.wallets@,
                valid_date(today),
                today.year >= 1970,
                data_dates_wf(*self),
                rate_table_wf(*rates),
                acc == total_balance_spec(ws.take(i as int), self.currency, self.period, today, *rates),
            decreases self.wallets@.len() - i,
        {
            let w = &self.wallets[i];
            let projected = w.for_period(self.period, today);
            let converted = projected.convert_to_currency(self.currency, rates);
            let b = converted.balance();
            proof {
                assert(converted.transactions@ =~= w.transactions@.map_values(
                    |t: Transaction| txn_converted(
                        for_period_spec(t, self.period, today),
                        w.currency,
                        self.currency,
                        *rates,
                    ),
                ));
                assert(b == wallet_period_balance(
                    ws[i as int],
                    self.currency,
                    self.period,
                    today,
                    *rates,
                ));
                assert(ws.take(i + 1).drop_last() =~= ws.take(i as int));
                assert(ws.take(i + 1).last() == ws[i as int]);
            }
            acc = acc.join(&b);
            i = i + 1;
        }
        proof {
            assert(ws.take(ws.len() as int) =~= ws);
        }
        acc
    }
}

/// A fresh, empty document: no wallets, dollars, the all-time period.
impl Default for Data {
    fn default() -> (r: Self)
        ensures
            r.wallets@ == Seq::<Wallet>::empty(),
            r.currency == Currency::USD,
            r.period == Period::All,
    {
        Data { wallets: Vec::new(), currency: Currency::USD, period: Period::All }
    }
}

} // verus!
