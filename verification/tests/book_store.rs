use book_store::book::Book;
use book_store::controller::buy;
use book_store::controller::lookup;
use book_store::controller::restock;
use book_store::controller::restock_random;
use book_store::controller::search;
use book_store::errors::DomainError;
use book_store::errors::StoreError;
use book_store::render::format_book;
use book_store::render::i64_to_string;
use book_store::render::money_to_string;
use book_store::render::u64_to_string;
use book_store::store::Inventory;

fn book(id: i64, title: &str, subject: &str, cost_cents: u64, stock: u64) -> Book {
    Book {
        item_number: id,
        title: title.to_string(),
        subject: subject.to_string(),
        cost_cents,
        stock,
    }
}

fn sample_inventory() -> Inventory {
    let mut inv = Inventory::new();
    assert!(inv.add_book(book(1, "Dune", "scifi", 1299, 3)));
    assert!(inv.add_book(book(2, "Emma", "classics", 850, 0)));
    assert!(inv.add_book(book(3, "Hyperion", "scifi", 1500, 2)));
    inv
}

#[test]
fn buy_out_of_stock_fails_and_leaves_zero() {
    let mut inv = sample_inventory();
    assert_eq!(buy(&mut inv, 2).unwrap_err(), DomainError::OutOfStock);
    assert_eq!(inv.get_stock(2).unwrap(), 0);
}

#[test]
fn buy_decrements_stock_by_one() {
    let mut inv = sample_inventory();
    let confirmation = buy(&mut inv, 1).unwrap();
    assert_eq!(confirmation, "Bought 1 copy of 1\n");
    assert_eq!(inv.get_stock(1).unwrap(), 2);
    assert_eq!(inv.get_stock(2).unwrap(), 0);
    assert_eq!(inv.get_stock(3).unwrap(), 2);
}

#[test]
fn buy_unknown_item_fails() {
    let mut inv = sample_inventory();
    assert_eq!(buy(&mut inv, 99).unwrap_err(), DomainError::UnknownItem);
    assert_eq!(inv.len(), 3);
    assert_eq!(inv.get_stock(1).unwrap(), 3);
}

#[test]
fn serialized_buys_succeed_exactly_min_k_n_times() {
    let mut inv = sample_inventory();
    let mut successes: u32 = 0;
    let mut out_of_stock: u32 = 0;
    for _ in 0..5 {
        match buy(&mut inv, 1) {
            Ok(_) => successes += 1,
            Err(DomainError::OutOfStock) => out_of_stock += 1,
            Err(e) => panic!("unexpected error {:?}", e),
        }
    }
    assert_eq!(successes, 3);
    assert_eq!(out_of_stock, 2);
    assert_eq!(inv.get_stock(1).unwrap(), 0);
}

#[test]
fn restock_raises_every_row_by_the_amount() {
    let mut inv = sample_inventory();
    let confirmation = restock(&mut inv, 7).unwrap();
    assert_eq!(
        confirmation,
        "Successfully restocked 7 books for each category!"
    );
    assert_eq!(inv.get_stock(1).unwrap(), 10);
    assert_eq!(inv.get_stock(2).unwrap(), 7);
    assert_eq!(inv.get_stock(3).unwrap(), 9);
}

#[test]
fn interleaved_buys_and_restock_lose_no_update() {
    let mut inv = sample_inventory();
    assert!(buy(&mut inv, 1).is_ok());
    assert!(restock(&mut inv, 7).is_ok());
    assert!(buy(&mut inv, 1).is_ok());
    // net effect: 3 - 2 + 7
    assert_eq!(inv.get_stock(1).unwrap(), 8);
}

#[test]
fn lookup_without_match_returns_empty_listing() {
    let inv = sample_inventory();
    assert_eq!(lookup(&inv, "poetry"), "");
}

#[test]
fn lookup_lists_matching_rows_in_row_order() {
    let inv = sample_inventory();
    assert_eq!(
        lookup(&inv, "scifi"),
        "Title: Dune | ID: 1 | Subject: scifi | Cost 12.99\n\
         Title: Hyperion | ID: 3 | Subject: scifi | Cost 15.00\n"
    );
    assert_eq!(
        lookup(&inv, "classics"),
        "Title: Emma | ID: 2 | Subject: classics | Cost 8.50\n"
    );
}

#[test]
fn search_unknown_item_fails() {
    let inv = sample_inventory();
    assert_eq!(search(&inv, 99).unwrap_err(), DomainError::UnknownItem);
}

#[test]
fn search_formats_the_stored_fields() {
    let inv = sample_inventory();
    assert_eq!(
        search(&inv, 1).unwrap(),
        "Title: Dune | ID: 1 | Subject: scifi | Cost 12.99"
    );
}

#[test]
fn round_trip_preserves_every_field() {
    let mut inv = Inventory::new();
    assert!(inv.add_book(book(-12, "Ada", "history", 4205, 17)));
    let found = inv.find_by_id(-12).unwrap();
    assert_eq!(found.item_number, -12);
    assert_eq!(found.title, "Ada");
    assert_eq!(found.subject, "history");
    assert_eq!(found.cost_cents, 4205);
    assert_eq!(found.stock, 17);
    assert_eq!(
        search(&inv, -12).unwrap(),
        "Title: Ada | ID: -12 | Subject: history | Cost 42.05"
    );
}

#[test]
fn find_by_id_unknown_item_reports_not_found() {
    let inv = sample_inventory();
    assert_eq!(inv.find_by_id(42).unwrap_err(), StoreError::NotFound);
    assert_eq!(inv.get_stock(42).unwrap_err(), StoreError::NotFound);
}

#[test]
fn adjust_stock_never_goes_negative() {
    let mut inv = sample_inventory();
    assert_eq!(
        inv.adjust_stock(1, -10).unwrap_err(),
        StoreError::InsufficientStock
    );
    assert_eq!(inv.get_stock(1).unwrap(), 3);
    assert_eq!(inv.adjust_stock(1, -3), Ok(()));
    assert_eq!(inv.get_stock(1).unwrap(), 0);
}

#[test]
fn adjust_stock_unknown_item_reports_not_found() {
    let mut inv = sample_inventory();
    assert_eq!(inv.adjust_stock(99, -1).unwrap_err(), StoreError::NotFound);
}

#[test]
fn adjust_all_stock_is_all_or_nothing_on_overflow() {
    let mut inv = Inventory::new();
    assert!(inv.add_book(book(1, "A", "s", 100, 4)));
    assert!(inv.add_book(book(2, "B", "s", 100, u64::MAX - 2)));
    assert_eq!(
        inv.adjust_all_stock(5).unwrap_err(),
        StoreError::StockOverflow
    );
    assert_eq!(inv.get_stock(1).unwrap(), 4);
    assert_eq!(inv.get_stock(2).unwrap(), u64::MAX - 2);
    assert_eq!(inv.adjust_all_stock(2), Ok(()));
    assert_eq!(inv.get_stock(1).unwrap(), 6);
    assert_eq!(inv.get_stock(2).unwrap(), u64::MAX);
}

#[test]
fn restock_random_draws_an_amount_in_range_and_applies_it() {
    let mut inv = sample_inventory();
    let (confirmation, amount) = restock_random(&mut inv).unwrap();
    assert!((5..25).contains(&amount));
    assert_eq!(
        confirmation,
        format!("Successfully restocked {} books for each category!", amount)
    );
    assert_eq!(inv.get_stock(1).unwrap(), 3 + amount);
    assert_eq!(inv.get_stock(2).unwrap(), amount);
    assert_eq!(inv.get_stock(3).unwrap(), 2 + amount);
}

#[test]
fn restock_on_an_empty_catalog_succeeds() {
    let mut inv = Inventory::new();
    assert!(restock(&mut inv, 5).is_ok());
    assert_eq!(inv.len(), 0);
}

#[test]
fn add_book_rejects_a_duplicate_item_number() {
    let mut inv = sample_inventory();
    assert!(!inv.add_book(book(1, "Other", "other", 1, 1)));
    assert_eq!(inv.len(), 3);
    assert_eq!(search(&inv, 1).unwrap(), "Title: Dune | ID: 1 | Subject: scifi | Cost 12.99");
}

#[test]
fn contains_item_reports_presence() {
    let inv = sample_inventory();
    assert!(inv.contains_item(1));
    assert!(!inv.contains_item(99));
}

#[test]
fn decimal_rendering_matches_expected_values() {
    assert_eq!(u64_to_string(0), "0");
    assert_eq!(u64_to_string(907), "907");
    assert_eq!(u64_to_string(u64::MAX), "18446744073709551615");
    assert_eq!(i64_to_string(-42), "-42");
    assert_eq!(i64_to_string(7), "7");
    assert_eq!(i64_to_string(i64::MIN), "-9223372036854775808");
}

#[test]
fn money_rendering_always_shows_two_digit_cents() {
    assert_eq!(money_to_string(5), "0.05");
    assert_eq!(money_to_string(100), "1.00");
    assert_eq!(money_to_string(1299), "12.99");
    assert_eq!(money_to_string(850), "8.50");
}

#[test]
fn format_book_renders_all_four_fields() {
    let b = book(42, "Dune", "scifi", 1299, 3);
    assert_eq!(
        format_book(&b),
        "Title: Dune | ID: 42 | Subject: scifi | Cost 12.99"
    );
}

#[test]
fn fault_mapping_distinguishes_the_domain_errors() {
    assert_eq!(DomainError::UnknownItem.fault_code(), 404);
    assert_eq!(DomainError::OutOfStock.fault_code(), 400);
    assert_eq!(
        DomainError::UnknownItem.fault_message(),
        "no such item in the catalog"
    );
    assert_eq!(
        DomainError::OutOfStock.fault_message(),
        "no remaining stock of this item"
    );
}
