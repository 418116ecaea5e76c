//! The catalog row: one book title with its stock count.

use vstd::prelude::*;

verus! {

/// The mathematical value of a catalog row.
pub struct BookView {
    pub item_number: int,
    pub title: Seq<char>,
    pub subject: Seq<char>,
    pub cost_cents: nat,
    pub stock: nat,
}

/// One catalog row. `item_number` is the unique key; `stock` is the only
/// field any exposed operation mutates. The unit price is held in cents so
/// that reading a row back returns exactly the value written.
#[derive(Debug)]
pub struct Book {
    pub item_number: i64,
    pub title: String,
    pub subject: String,
    pub cost_cents: u64,
    pub stock: u64,
}

impl View for Book {
    type V = BookView;

    open spec fn view(&self) -> BookView {
        BookView {
            item_number: self.item_number as int,
            title: self.title@,
            subject: self.subject@,
            cost_cents: self.cost_cents as nat,
            stock: self.stock as nat,
        }
    }
}

impl Clone for Book {
    fn clone(&self) -> (r: Book)
        ensures
            r@ == self@,
    {
        Book {
            item_number: self.item_number,
            title: self.title.clone(),
            subject: self.subject.clone(),
            cost_cents: self.cost_cents,
            stock: self.stock,
        }
    }
}

} // verus!
