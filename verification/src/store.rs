//! The inventory store: a catalog of rows keyed by item number, with every
//! stock mutation an all-or-nothing step.
//!
//! A deployment persists these rows in a database and serializes mutations
//! through its transactions; this type is the verified meaning of those
//! transactions. Each mutating method either applies its whole effect or
//! leaves the catalog exactly as it was, which is what lets `laws` treat a
//! concurrent history as some sequential order of the same steps.

use crate::book::Book;
use crate::book::BookView;
use crate::errors::StoreError;
use vstd::pervasive::VecAdditionalExecFns;
use vstd::prelude::*;

verus! {

/// Item numbers identify at most one row each.
pub open spec fn unique_items(s: Seq<BookView>) -> bool {
    forall|i: int, j: int| 0 <= i < j < s.len() ==> s[i].item_number != s[j].item_number
}

/// Every stock count is machine-representable.
pub open spec fn stocks_representable(s: Seq<BookView>) -> bool {
    forall|i: int| 0 <= i < s.len() ==> (#[trigger] s[i]).stock <= u64::MAX
}

/// True when some row of `s` carries the item number `id`.
pub open spec fn has_item(s: Seq<BookView>, id: int) -> bool {
    exists|i: int| 0 <= i < s.len() && s[i].item_number == id
}

/// The index of the row carrying `id` (meaningful when `has_item(s, id)` and
/// the item numbers of `s` are unique).
pub open spec fn index_of(s: Seq<BookView>, id: int) -> int {
    choose|i: int| 0 <= i < s.len() && s[i].item_number == id
}

/// The row of `s` carrying `id`.
pub open spec fn item_at(s: Seq<BookView>, id: int) -> BookView {
    s[index_of(s, id)]
}

/// The stock count of the row of `s` carrying `id`.
pub open spec fn stock_of(s: Seq<BookView>, id: int) -> nat {
    item_at(s, id).stock
}

/// The rows of `s` whose subject is `subject`, in row order.
pub open spec fn rows_with_subject(s: Seq<BookView>, subject: Seq<char>) -> Seq<BookView>
    decreases s.len(),
{
    if s.len() == 0 {
        Seq::empty()
    } else {
        let rest = rows_with_subject(s.drop_last(), subject);
        if s.last().subject == subject {
            rest.push(s.last())
        } else {
            rest
        }
    }
}

/// `s` updated so that the row carrying `id` holds stock `new_stock`, all
/// other rows untouched.
pub open spec fn with_stock(s: Seq<BookView>, id: int, new_stock: nat) -> Seq<BookView> {
    s.update(index_of(s, id), BookView { stock: new_stock, ..item_at(s, id) })
}

/// `s` with every row's stock raised by `amount`.
pub open spec fn all_restocked(s: Seq<BookView>, amount: nat) -> Seq<BookView> {
    s.map_values(|b: BookView| BookView { stock: (b.stock + amount) as nat, ..b })
}

/// Under unique item numbers, any row carrying `id` is the row `index_of`
/// denotes.
pub proof fn lemma_index_of_unique(s: Seq<BookView>, id: int, i: int)
    requires
        unique_items(s),
        0 <= i < s.len(),
        s[i].item_number == id,
    ensures
        has_item(s, id),
        index_of(s, id) == i,
{
    assert(has_item(s, id));
    let j = index_of(s, id);
    assert(0 <= j < s.len() && s[j].item_number == id);
    if i < j {
        assert(s[i].item_number != s[j].item_number);
    } else if j < i {
        assert(s[j].item_number != s[i].item_number);
    }
}

/// What a single-row stock write leaves behind: the written row carries the
/// new count, every other row is untouched, and item numbers stay unique.
pub proof fn lemma_with_stock_effect(s: Seq<BookView>, id: int, n: nat)
    requires
        unique_items(s),
        has_item(s, id),
    ensures
        with_stock(s, id, n).len() == s.len(),
        unique_items(with_stock(s, id, n)),
        has_item(with_stock(s, id, n), id),
        stock_of(with_stock(s, id, n), id) == n,
        item_at(with_stock(s, id, n), id) == (BookView { stock: n, ..item_at(s, id) }),
        forall|j: int|
            0 <= j < s.len() && s[j].item_number != id ==> with_stock(s, id, n)[j] == s[j],
{
    let i = index_of(s, id);
    assert(0 <= i < s.len() && s[i].item_number == id);
    let t = with_stock(s, id, n);
    assert(item_at(s, id) == s[i]);
    assert(t[i] == (BookView { stock: n, ..s[i] }));
    assert(forall|j: int| 0 <= j < s.len() && j != i ==> t[j] == s[j]);
    assert(unique_items(t)) by {
        assert forall|p: int, q: int| 0 <= p < q < t.len() implies t[p].item_number
            != t[q].item_number by {
            assert(t[p].item_number == s[p].item_number);
            assert(t[q].item_number == s[q].item_number);
        }
    }
    lemma_index_of_unique(t, id, i);
}

/// Extending the catalog by one row extends its subject selection by that row
/// exactly when the subject matches.
pub proof fn lemma_rows_with_subject_push(s: Seq<BookView>, b: BookView, subject: Seq<char>)
    ensures
        rows_with_subject(s.push(b), subject) == if b.subject == subject {
            rows_with_subject(s, subject).push(b)
        } else {
            rows_with_subject(s, subject)
        },
{
    assert(s.push(b).drop_last() =~= s);
    assert(s.push(b).last() == b);
}

/// The catalog. Row order is the store's natural order; item numbers are
/// unique; stocks are non-negative by construction.
pub struct Inventory {
    books: Vec<Book>,
}

impl View for Inventory {
    type V = Seq<BookView>;

    closed spec fn view(&self) -> Seq<BookView> {
        self.books@.map_values(|b: Book| b@)
    }
}

impl Inventory {
    /// Item numbers identify at most one row each, and every stock count is
    /// machine-representable.
    pub open spec fn wf(&self) -> bool {
        unique_items(self@) && stocks_representable(self@)
    }

    /// An empty catalog.
    pub fn new() -> (inv: Inventory)
        ensures
            inv@ =~= Seq::<BookView>::empty(),
            inv.wf(),
    {
        Inventory { books: Vec::new() }
    }

    /// The number of rows.
    pub fn len(&self) -> (n: usize)
        ensures
            n == self@.len(),
    {
        self.books.len()
    }

    /// Seeds one row. The row is appended only when its item number is new;
    /// `added` reports which happened.
    pub fn add_book(&mut self, book: Book) -> (added: bool)
        requires
            old(self).wf(),
        ensures
            final(self).wf(),
            added <==> !has_item(old(self)@, book.item_number as int),
            added ==> final(self)@ =~= old(self)@.push(book@),
            !added ==> final(self)@ == old(self)@,
    {
        if self.contains_item(book.item_number) {
            false
        } else {
            let ghost prev = self@;
            self.books.push(book);
            proof {
                assert(self@ =~= prev.push(book@));
            }
            true
        }
    }

    /// Whether some row carries `item_number`.
    pub fn contains_item(&self, item_number: i64) -> (r: bool)
        ensures
            r == has_item(self@, item_number as int),
    {
        let n = self.books.len();
        let mut i: usize = 0;
        while i < n
            invariant
                n == self@.len(),
                0 <= i <= n,
                forall|k: int| 0 <= k < i ==> self@[k].item_number != item_number as int,
            decreases n - i,
        {
            if self.books[i].item_number == item_number {
                assert(self@[i as int].item_number == item_number as int);
                return true;
            }
            i += 1;
        }
        false
    }

    /// Finds the position of the row carrying `item_number`.
    fn position_of(&self, item_number: i64) -> (r: Option<usize>)
        requires
            self.wf(),
        ensures
            r matches Some(i) ==> has_item(self@, item_number as int) && 0 <= i < self@.len()
                && index_of(self@, item_number as int) == i as int,
            r is None ==> !has_item(self@, item_number as int),
    {
        let n = self.books.len();
        let mut i: usize = 0;
        while i < n
            invariant
                self.wf(),
                n == self@.len(),
                0 <= i <= n,
                forall|k: int| 0 <= k < i ==> self@[k].item_number != item_number as int,
            decreases n - i,
        {
            if self.books[i].item_number == item_number {
                proof {
                    lemma_index_of_unique(self@, item_number as int, i as int);
                }
                return Some(i);
            }
            i += 1;
        }
        None
    }

    /// Reads the stock count of one row. Fails with `NotFound` if and only if
    /// no row carries `item_number`.
    pub fn get_stock(&self, item_number: i64) -> (r: Result<u64, StoreError>)
        requires
            self.wf(),
        ensures
            has_item(self@, item_number as int) ==> r == Ok::<u64, StoreError>(
                stock_of(self@, item_number as int) as u64,
            ),
            !has_item(self@, item_number as int) ==> r == Err::<u64, StoreError>(
                StoreError::NotFound,
            ),
    {
        match self.position_of(item_number) {
            Some(i) => Ok(self.books[i].stock),
            None => Err(StoreError::NotFound),
        }
    }

    /// Reads one whole row. Fails with `NotFound` if and only if no row
    /// carries `item_number`.
    pub fn find_by_id(&self, item_number: i64) -> (r: Result<Book, StoreError>)
        requires
            self.wf(),
        ensures
            r matches Ok(b) ==> has_item(self@, item_number as int) && b@ == item_at(
                self@,
                item_number as int,
            ),
            r matches Err(e) ==> !has_item(self@, item_number as int) && e
                == StoreError::NotFound,
            r is Ok <==> has_item(self@, item_number as int),
    {
        match self.position_of(item_number) {
            Some(i) => Ok(self.books[i].clone()),
            None => Err(StoreError::NotFound),
        }
    }

    /// The rows whose subject is `subject`, cloned, in row order.
    pub fn find_by_subject(&self, subject: &str) -> (r: Vec<Book>)
        ensures
            r@.map_values(|b: Book| b@) == rows_with_subject(self@, subject@),
    {
        let subject_owned: String = subject.to_owned();
        let n = self.books.len();
        let mut out: Vec<Book> = Vec::new();
        let mut i: usize = 0;
        proof {
            assert(out@.map_values(|b: Book| b@) =~= rows_with_subject(
                self@.subrange(0, 0),
                subject@,
            ));
        }
        while i < n
            invariant
                n == self@.len(),
                i <= n,
                subject_owned@ == subject@,
                out@.map_values(|b: Book| b@) == rows_with_subject(
                    self@.subrange(0, i as int),
                    subject@,
                ),
            decreases n - i,
        {
            let ghost prefix = self@.subrange(0, i as int);
            let ghost prev = out@;
            if self.books[i].subject == subject_owned {
                let b = self.books[i].clone();
                out.push(b);
                proof {
                    assert(self@[i as int] == self.books@[i as int]@);
                    assert(out@.map_values(|b: Book| b@) =~= prev.map_values(|b: Book| b@).push(
                        self@[i as int],
                    ));
                }
            }
            proof {
                assert(self@.subrange(0, i as int + 1) =~= prefix.push(self@[i as int]));
                lemma_rows_with_subject_push(prefix, self@[i as int], subject@);
            }
            i += 1;
        }
        proof {
            assert(self@.subrange(0, n as int) =~= self@);
        }
        out
    }

    /// Applies `stock += delta` to the row carrying `item_number` as one
    /// all-or-nothing step: the new count must be non-negative, or nothing
    /// changes and `InsufficientStock` is reported. `NotFound` is reported if
    /// and only if no row carries `item_number`.
    pub fn adjust_stock(&mut self, item_number: i64, delta: i64) -> (r: Result<(), StoreError>)
        requires
            old(self).wf(),
            has_item(old(self)@, item_number as int) ==> stock_of(old(self)@, item_number as int)
                + delta <= u64::MAX,
        ensures
            final(self).wf(),
            !has_item(old(self)@, item_number as int) ==> r == Err::<(), StoreError>(
                StoreError::NotFound,
            ) && final(self)@ == old(self)@,
            has_item(old(self)@, item_number as int) && stock_of(old(self)@, item_number as int)
                + delta < 0 ==> r == Err::<(), StoreError>(StoreError::InsufficientStock)
                && final(self)@ == old(self)@,
            has_item(old(self)@, item_number as int) && stock_of(old(self)@, item_number as int)
                + delta >= 0 ==> r == Ok::<(), StoreError>(()) && final(self)@ == with_stock(
                old(self)@,
                item_number as int,
                (stock_of(old(self)@, item_number as int) + delta) as nat,
            ),
    {
        let i = match self.position_of(item_number) {
            Some(i) => i,
            None => {
                return Err(StoreError::NotFound);
            },
        };
        let stock = self.books[i].stock;
        let new_stock: u64 = if delta >= 0 {
            stock + (delta as u64)
        } else {
            let mag: u64 = if delta == i64::MIN {
                9223372036854775808u64
            } else {
                (-delta) as u64
            };
            if mag > stock {
                return Err(StoreError::InsufficientStock);
            }
            stock - mag
        };
        let mut row = self.books[i].clone();
        row.stock = new_stock;
        let ghost prev = self@;
        self.books.set(i, row);
        proof {
            assert(self@ =~= with_stock(
                prev,
                item_number as int,
                (stock_of(prev, item_number as int) + delta) as nat,
            ));
        }
        Ok(())
    }

    /// Raises every row's stock by `amount` as one all-or-nothing step: if any
    /// adjusted count would not be machine-representable, nothing changes and
    /// `StockOverflow` is reported; success is owed in every other case.
    pub fn adjust_all_stock(&mut self, amount: u64) -> (r: Result<(), StoreError>)
        requires
            old(self).wf(),
        ensures
            final(self).wf(),
            r is Ok <==> forall|i: int|
                0 <= i < old(self)@.len() ==> (#[trigger] old(self)@[i]).stock + amount
                    <= u64::MAX,
            r matches Err(e) ==> e == StoreError::StockOverflow && final(self)@ == old(self)@,
            r is Ok ==> final(self)@ == all_restocked(old(self)@, amount as nat),
    {
        let ghost orig = self@;
        let n = self.books.len();
        let mut i: usize = 0;
        while i < n
            invariant
                self.wf(),
                n == self@.len(),
                i <= n,
                self@ == orig,
                forall|k: int| 0 <= k < i ==> (#[trigger] orig[k]).stock + amount <= u64::MAX,
            decreases n - i,
        {
            if self.books[i].stock > u64::MAX - amount {
                assert(orig[i as int].stock + amount > u64::MAX);
                return Err(StoreError::StockOverflow);
            }
            i += 1;
        }
        let mut i: usize = 0;
        while i < n
            invariant
                n == self@.len(),
                n == orig.len(),
                i <= n,
                forall|k: int| 0 <= k < n ==> (#[trigger] orig[k]).stock + amount <= u64::MAX,
                forall|k: int|
                    0 <= k < i ==> self@[k] == (BookView {
                        stock: (orig[k].stock + amount) as nat,
                        ..orig[k]
                    }),
                forall|k: int| i <= k < n ==> self@[k] == orig[k],
            decreases n - i,
        {
            let mut row = self.books[i].clone();
            assert(row@ == orig[i as int]);
            row.stock = row.stock + amount;
            proof {
                assert(row@ == (BookView {
                    stock: (orig[i as int].stock + amount) as nat,
                    ..orig[i as int]
                }));
            }
            let ghost before = self@;
            self.books.set(i, row);
            proof {
                assert(self@ =~= before.update(i as int, row@));
            }
            i += 1;
        }
        proof {
            assert(self@ =~= all_restocked(orig, amount as nat));
            assert(self.wf());
        }
        Ok(())
    }
}

} // verus!
