//! The stock controller: the domain operations the remote gateway and the
//! operator console both call. It is stateless between calls; every stock
//! mutation is one all-or-nothing step of the underlying `Inventory`.

use crate::book::Book;
use crate::book::BookView;
use crate::errors::DomainError;
use crate::errors::StoreError;
use crate::laws::apply_event;
use crate::laws::StockEvent;
use crate::render::book_line;
use crate::render::dec_digits;
use crate::render::format_book;
use crate::render::i64_to_string;
use crate::render::int_digits;
use crate::render::u64_to_string;
use crate::store::all_restocked;
use crate::store::has_item;
use crate::store::item_at;
use crate::store::rows_with_subject;
use crate::store::stock_of;
use crate::store::with_stock;
use crate::store::Inventory;
use vstd::prelude::*;
use vstd::string::StrSliceExecFns;
use vstd::string::StringExecFns;

verus! {

/// The confirmation text a successful `buy` returns.
pub open spec fn buy_confirmation(id: int) -> Seq<char> {
    "Bought 1 copy of "@ + int_digits(id) + "\n"@
}

/// The confirmation text a successful `restock` returns.
pub open spec fn restock_confirmation(amount: nat) -> Seq<char> {
    "Successfully restocked "@ + dec_digits(amount) + " books for each category!"@
}

/// The newline-terminated listing of `rows`, one rendered line per row.
pub open spec fn listing(rows: Seq<BookView>) -> Seq<char>
    decreases rows.len(),
{
    if rows.len() == 0 {
        Seq::empty()
    } else {
        listing(rows.drop_last()) + book_line(rows.last()) + "\n"@
    }
}

/// Listing one more row appends exactly that row's line.
pub proof fn lemma_listing_push(rows: Seq<BookView>, b: BookView)
    ensures
        listing(rows.push(b)) == listing(rows) + book_line(b) + "\n"@,
{
    assert(rows.push(b).drop_last() =~= rows);
    assert(rows.push(b).last() == b);
}

/// Relies on `rand::random_range`: a uniform sample within the given range,
/// so for the half-open range used here the result is at least 5 and
/// strictly below 25.
#[verifier::external_body]
fn draw_restock_amount() -> (a: u64)
    ensures
        5 <= a < 25,
{
    rand::random_range(5u64..25u64)
}

/// Buys one copy of `item_number`: one atomic check-and-decrement of its
/// stock. Fails with `UnknownItem` if and only if the item is absent, with
/// `OutOfStock` if and only if its stock is already zero; otherwise exactly
/// one unit is removed and a confirmation naming the item is returned.
pub fn buy(inv: &mut Inventory, item_number: i64) -> (r: Result<String, DomainError>)
    requires
        old(inv).wf(),
    ensures
        final(inv).wf(),
        !has_item(old(inv)@, item_number as int) ==> r == Err::<String, DomainError>(
            DomainError::UnknownItem,
        ) && final(inv)@ == old(inv)@,
        has_item(old(inv)@, item_number as int) && stock_of(old(inv)@, item_number as int) == 0
            ==> r == Err::<String, DomainError>(DomainError::OutOfStock) && final(inv)@ == old(
            inv,
        )@,
        has_item(old(inv)@, item_number as int) && stock_of(old(inv)@, item_number as int) > 0
            ==> (r matches Ok(c) && c@ == buy_confirmation(item_number as int)) && final(inv)@
            == with_stock(
            old(inv)@,
            item_number as int,
            (stock_of(old(inv)@, item_number as int) - 1) as nat,
        ),
        has_item(old(inv)@, item_number as int) ==> has_item(final(inv)@, item_number as int)
            && stock_of(final(inv)@, item_number as int) == apply_event(
            stock_of(old(inv)@, item_number as int),
            StockEvent::Buy,
        ),
{
    match inv.adjust_stock(item_number, -1) {
        Ok(()) => {
            proof {
                crate::store::lemma_with_stock_effect(
                    old(inv)@,
                    item_number as int,
                    (stock_of(old(inv)@, item_number as int) - 1) as nat,
                );
            }
            let mut c = "Bought 1 copy of ".to_owned();
            let id = i64_to_string(item_number);
            c.append(id.as_str());
            c.append("\n");
            proof {
                assert(c@ =~= buy_confirmation(item_number as int));
            }
            Ok(c)
        },
        Err(StoreError::NotFound) => Err(DomainError::UnknownItem),
        Err(_) => Err(DomainError::OutOfStock),
    }
}

/// Restocks the whole catalog: raises every row's stock by `amount` as one
/// atomic step and returns a confirmation naming the amount. Fails (leaving
/// the catalog untouched) only if some adjusted count would not be
/// machine-representable.
pub fn restock(inv: &mut Inventory, amount: u64) -> (r: Result<String, StoreError>)
    requires
        old(inv).wf(),
        5 <= amount < 25,
    ensures
        final(inv).wf(),
        r is Ok <==> (forall|i: int|
            0 <= i < old(inv)@.len() ==> (#[trigger] old(inv)@[i]).stock + amount <= u64::MAX),
        r matches Ok(c) ==> final(inv)@ == all_restocked(old(inv)@, amount as nat) && c@
            == restock_confirmation(amount as nat),
        r is Ok ==> forall|j: int|
            0 <= j < old(inv)@.len() ==> (#[trigger] final(inv)@[j]).stock == apply_event(
                old(inv)@[j].stock,
                StockEvent::Restock { amount: amount as nat },
            ),
        r matches Err(e) ==> e == StoreError::StockOverflow && final(inv)@ == old(inv)@,
{
    match inv.adjust_all_stock(amount) {
        Ok(()) => {
            proof {
                assert forall|j: int| 0 <= j < old(inv)@.len() implies (#[trigger] inv@[j]).stock
                    == old(inv)@[j].stock + amount by {
                    assert(inv@[j] == all_restocked(old(inv)@, amount as nat)[j]);
                }
            }
            let mut c = "Successfully restocked ".to_owned();
            let a = u64_to_string(amount);
            c.append(a.as_str());
            c.append(" books for each category!");
            proof {
                assert(c@ =~= restock_confirmation(amount as nat));
            }
            Ok(c)
        },
        Err(e) => Err(e),
    }
}

/// Restocks the whole catalog by a freshly drawn random amount in `[5, 25)`,
/// returning the confirmation and the amount that was applied. Whatever
/// amount the draw produced, success is owed whenever every stock is at
/// least 24 below the largest representable count.
pub fn restock_random(inv: &mut Inventory) -> (r: Result<(String, u64), StoreError>)
    requires
        old(inv).wf(),
    ensures
        final(inv).wf(),
        (forall|i: int|
            0 <= i < old(inv)@.len() ==> (#[trigger] old(inv)@[i]).stock + 24 <= u64::MAX) ==> r
            is Ok,
        r matches Ok((c, a)) ==> 5 <= a < 25 && final(inv)@ == all_restocked(old(inv)@, a as nat)
            && c@ == restock_confirmation(a as nat),
        r matches Err(e) ==> e == StoreError::StockOverflow && final(inv)@ == old(inv)@,
{
    let amount = draw_restock_amount();
    match restock(inv, amount) {
        Ok(c) => Ok((c, amount)),
        Err(e) => Err(e),
    }
}

/// Renders every row whose subject is `subject`, one line per row, in row
/// order; the empty string — not an error — when none match.
pub fn lookup(inv: &Inventory, subject: &str) -> (r: String)
    ensures
        r@ == listing(rows_with_subject(inv@, subject@)),
{
    let found = inv.find_by_subject(subject);
    let ghost rows = rows_with_subject(inv@, subject@);
    let n = found.len();
    let mut out = String::new();
    let mut i: usize = 0;
    proof {
        assert(rows.subrange(0, 0) =~= Seq::<BookView>::empty());
    }
    while i < n
        invariant
            found@.map_values(|b: Book| b@) == rows,
            n == found.len(),
            n == rows.len(),
            i <= n,
            out@ == listing(rows.subrange(0, i as int)),
        decreases n - i,
    {
        let line = format_book(&found[i]);
        out.append(line.as_str());
        out.append("\n");
        proof {
            assert(found@[i as int]@ == rows[i as int]);
            assert(rows.subrange(0, i as int + 1) =~= rows.subrange(0, i as int).push(
                rows[i as int],
            ));
            lemma_listing_push(rows.subrange(0, i as int), rows[i as int]);
            assert(out@ =~= listing(rows.subrange(0, i as int + 1)));
        }
        i += 1;
    }
    proof {
        assert(rows.subrange(0, rows.len() as int) =~= rows);
    }
    out
}

/// Renders the single row carrying `item_number`: its title, item number,
/// subject, and cost, exactly as stored. Fails with `UnknownItem` if and
/// only if no row carries `item_number`.
pub fn search(inv: &Inventory, item_number: i64) -> (r: Result<String, DomainError>)
    requires
        inv.wf(),
    ensures
        r matches Ok(c) ==> has_item(inv@, item_number as int) && c@ == book_line(
            item_at(inv@, item_number as int),
        ),
        r matches Err(e) ==> !has_item(inv@, item_number as int) && e == DomainError::UnknownItem,
        r is Ok <==> has_item(inv@, item_number as int),
{
    match inv.find_by_id(item_number) {
        Ok(b) => Ok(format_book(&b)),
        Err(_) => Err(DomainError::UnknownItem),
    }
}

} // verus!
