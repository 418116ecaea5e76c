//! Laws of serialized stock histories.
//!
//! Every stock mutation of the store is one all-or-nothing atomic unit, so a
//! concurrent execution of `buy` and `restock` calls is equivalent to *some*
//! sequential order of those units. These laws quantify over every such
//! order: however the units interleave, no update is lost, stock never goes
//! negative, and `k` racing buy attempts against stock `n` succeed exactly
//! `min(k, n)` times.

use crate::book::BookView;
use crate::controller::listing;
use crate::store::has_item;
use crate::store::item_at;
use crate::store::lemma_index_of_unique;
use crate::store::rows_with_subject;
use crate::store::unique_items;
use vstd::prelude::*;

verus! {

/// One atomic unit applied to a single item's stock: a buy attempt, or a
/// restock by some amount.
pub enum StockEvent {
    Buy,
    Restock { amount: nat },
}

/// The stock after one atomic unit. A buy attempt on zero stock changes
/// nothing (the caller sees `OutOfStock`); otherwise it removes exactly one
/// unit. This is the transition `buy`'s contract gives for the bought item,
/// and `Restock` is the one `restock`'s contract gives for each row.
pub open spec fn apply_event(stock: nat, e: StockEvent) -> nat {
    match e {
        StockEvent::Buy => if stock > 0 {
            (stock - 1) as nat
        } else {
            stock
        },
        StockEvent::Restock { amount } => stock + amount,
    }
}

/// The stock after a serialized history of atomic units, oldest first.
pub open spec fn stock_after(stock: nat, es: Seq<StockEvent>) -> nat
    decreases es.len(),
{
    if es.len() == 0 {
        stock
    } else {
        stock_after(apply_event(stock, es.first()), es.drop_first())
    }
}

/// How many buy attempts of the history succeed (find positive stock at
/// their turn).
pub open spec fn successful_buys(stock: nat, es: Seq<StockEvent>) -> nat
    decreases es.len(),
{
    if es.len() == 0 {
        0
    } else {
        let here: nat = if es.first() is Buy && stock > 0 {
            1
        } else {
            0
        };
        here + successful_buys(apply_event(stock, es.first()), es.drop_first())
    }
}

/// The total amount the history's restock units add to the item.
pub open spec fn total_restocked(es: Seq<StockEvent>) -> nat
    decreases es.len(),
{
    if es.len() == 0 {
        0
    } else {
        let here: nat = match es.first() {
            StockEvent::Buy => 0,
            StockEvent::Restock { amount } => amount,
        };
        here + total_restocked(es.drop_first())
    }
}

/// A history of `k` buy attempts.
pub open spec fn buys(k: nat) -> Seq<StockEvent> {
    Seq::new(k, |i: int| StockEvent::Buy)
}

/// Net effect of any serialized history on one item: the final stock equals
/// the initial stock, minus one unit per successful buy, plus everything
/// restocked — whatever order the units took, no update is lost, and (the
/// result being a count) the stock never goes negative.
pub proof fn lemma_net_effect(stock: nat, es: Seq<StockEvent>)
    ensures
        stock_after(stock, es) + successful_buys(stock, es) == stock + total_restocked(es),
    decreases es.len(),
{
    if es.len() > 0 {
        lemma_net_effect(apply_event(stock, es.first()), es.drop_first());
    }
}

/// Concurrency law for one item: `k` buy attempts serialized against stock
/// `n` succeed exactly `min(k, n)` times — the remaining `k - min(k, n)`
/// find zero stock and fail — and leave the stock at `n - min(k, n)`.
pub proof fn lemma_concurrent_buys(n: nat, k: nat)
    ensures
        successful_buys(n, buys(k)) == if k <= n {
            k as int
        } else {
            n as int
        },
        stock_after(n, buys(k)) == if k <= n {
            n - k
        } else {
            0
        },
    decreases k,
{
    if k > 0 {
        assert(buys(k).first() == StockEvent::Buy);
        assert(buys(k).drop_first() =~= buys((k - 1) as nat));
        lemma_concurrent_buys(apply_event(n, StockEvent::Buy), (k - 1) as nat);
    }
}

/// Round trip: a row appended under a fresh item number is read back exactly
/// as written — every field, the cost included, with no loss. `add_book`
/// appends exactly the given row, and `find_by_id` and `search` read
/// `item_at`, so writing a book and immediately reading it back yields
/// identical values.
pub proof fn lemma_round_trip(s: Seq<BookView>, b: BookView)
    requires
        unique_items(s),
        !has_item(s, b.item_number),
    ensures
        has_item(s.push(b), b.item_number),
        item_at(s.push(b), b.item_number) == b,
{
    let t = s.push(b);
    assert(t[s.len() as int] == b);
    assert(unique_items(t)) by {
        assert forall|p: int, q: int| 0 <= p < q < t.len() implies t[p].item_number
            != t[q].item_number by {
            if q == s.len() {
                assert(t[p] == s[p]);
                if t[p].item_number == b.item_number {
                    assert(has_item(s, b.item_number));
                }
            } else {
                assert(t[p] == s[p] && t[q] == s[q]);
            }
        }
    }
    lemma_index_of_unique(t, b.item_number, s.len() as int);
}

/// A lookup whose subject matches no row yields the empty listing — not an
/// error.
pub proof fn lemma_lookup_no_match_is_empty(s: Seq<BookView>, subject: Seq<char>)
    requires
        forall|i: int| 0 <= i < s.len() ==> (#[trigger] s[i]).subject != subject,
    ensures
        rows_with_subject(s, subject).len() == 0,
        listing(rows_with_subject(s, subject)) == Seq::<char>::empty(),
    decreases s.len(),
{
    if s.len() > 0 {
        assert(s.last().subject != subject);
        lemma_lookup_no_match_is_empty(s.drop_last(), subject);
    }
}

} // verus!
