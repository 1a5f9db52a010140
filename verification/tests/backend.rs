use register::items::{Category, Item};
use register::receipts::{Payment, RawEntry, Receipt};
use register::summary::{Stats, Summary};
use register::time::Timestamp;
use register::{set_receipt_path, Error};
use std::path::PathBuf;

fn item(name: &str, price: i32, special: bool) -> Item {
    Item::from_row(name.to_string(), price, Some(true), Some(special), Some(Category::Drink))
}

fn at(secs: i64) -> Timestamp {
    Timestamp { secs, nanos: 0 }
}

fn entry(secs: i64, name: &str, price: i32, special: bool, amount: i32, payment: Payment) -> RawEntry {
    RawEntry::from_row(Some(at(secs)), amount, item(name, price, special), Some(payment))
}

#[test]
fn category_sql_text_round_trips() {
    for c in Category::ALL {
        assert_eq!(Category::from_sql_text(c.sql_text()), Some(c));
    }
    assert_eq!(Category::Alcohol.sql_text(), "alcohol");
    assert_eq!(Category::Other.sql_text(), "other");
    assert_eq!(Category::from_sql_text("Food"), None);
    assert_eq!(Category::from_sql_text(""), None);
}

#[test]
fn category_names_and_default() {
    assert_eq!(Category::Alcohol.to_string(), "Alkohol");
    assert_eq!(Category::Drink.to_string(), "Dryck");
    assert_eq!(Category::Food.to_string(), "Mat");
    assert_eq!(Category::Other.to_string(), "Övrigt");
    assert_eq!(Category::default(), Category::Other);
}

#[test]
fn payment_sql_text_and_names() {
    for p in Payment::variants() {
        assert_eq!(Payment::from_sql_text(p.sql_text()), Some(p));
    }
    assert_eq!(Payment::Paypal.sql_text(), "paypal");
    assert_eq!(Payment::from_sql_text("card"), None);
    assert_eq!(Payment::Cash.to_string(), "Cash");
    assert_eq!(Payment::Paypal.to_string(), "Paypal");
    assert_eq!(Payment::default(), Payment::Swish);
}

#[test]
fn item_from_row_defaults() {
    let i = Item::from_row("Öl".to_string(), 30, None, None, None);
    assert_eq!(i.name(), "Öl");
    assert_eq!(*i.price(), 30);
    assert_eq!(*i.available(), None);
    assert!(!i.is_special());
    assert_eq!(*i.category(), Category::Other);
    let s = Item::from_row("Dricks".to_string(), 1, Some(false), Some(true), Some(Category::Food));
    assert!(s.is_special());
    assert_eq!(*s.available(), Some(false));
    assert_eq!(*s.category(), Category::Food);
    assert!(i.same(&i.clone()));
    assert!(!i.same(&s));
}

#[test]
fn receipt_insert_merges_and_sums() {
    let mut r = Receipt::new(at(10), Payment::Cash);
    assert!(r.is_empty());
    r.insert(item("Öl", 30, false), 2);
    r.insert(item("Läsk", 15, false), 1);
    r.insert(item("Öl", 30, false), 3);
    assert!(!r.is_empty());
    assert_eq!(r.len(), 2);
    let (first, amount) = r.line(0);
    assert_eq!(first.name(), "Öl");
    assert_eq!(amount, 5);
    let (second, amount) = r.line(1);
    assert_eq!(second.name(), "Läsk");
    assert_eq!(amount, 1);
    assert_eq!(r.sum(), 5 * 30 + 15);
    assert_eq!(r.amount_of(&item("Öl", 30, false)), Some(5));
    assert_eq!(r.amount_of(&item("Öl", 31, false)), None);
    assert_eq!(r.time(), at(10));
    assert_eq!(r.payment(), Payment::Cash);
}

#[test]
fn receipt_same_name_other_price_is_another_line() {
    let mut r = Receipt::default();
    r.insert(item("Öl", 30, false), 1);
    r.insert(item("Öl", 35, false), 1);
    assert_eq!(r.len(), 2);
    assert_eq!(r.sum(), 65);
}

#[test]
fn receipt_setters_and_clone() {
    let mut r = Receipt::default();
    assert_eq!(r.time(), Timestamp::default());
    assert_eq!(r.payment(), Payment::Swish);
    r.insert(item("Mat", 50, false), 2);
    let r = r.with_time(at(99)).with_payment(Payment::Paypal);
    let c = r.clone();
    assert_eq!(c.time(), at(99));
    assert_eq!(c.payment(), Payment::Paypal);
    assert_eq!(c.len(), 1);
    assert_eq!(c.sum(), 100);
}

#[test]
fn raw_entry_defaults() {
    let e = RawEntry::from_row(None, 3, item("Öl", 30, false), None);
    assert_eq!(e.time, Timestamp::default());
    assert_eq!(e.payment, Payment::Swish);
    assert_eq!(e.amount, 3);
}

#[test]
fn recents_group_by_time_in_first_order() {
    let entries = vec![
        entry(20, "Öl", 30, false, 2, Payment::Swish),
        entry(20, "Läsk", 15, false, 1, Payment::Cash),
        entry(10, "Öl", 30, false, 1, Payment::Cash),
        entry(20, "Öl", 30, false, 1, Payment::Swish),
    ];
    let m = Receipt::get_recents(entries);
    assert_eq!(m.len(), 2);
    let (t0, r0) = m.get_index(0).unwrap();
    assert_eq!(*t0, at(20));
    assert_eq!(r0.payment(), Payment::Swish);
    assert_eq!(r0.len(), 2);
    assert_eq!(r0.line(0).1, 3);
    assert_eq!(r0.sum(), 3 * 30 + 15);
    let (t1, r1) = m.get_index(1).unwrap();
    assert_eq!(*t1, at(10));
    assert_eq!(r1.payment(), Payment::Cash);
    assert_eq!(r1.sum(), 30);
}

#[test]
fn recents_of_nothing_is_empty() {
    assert!(Receipt::get_recents(Vec::new()).is_empty());
}

#[test]
fn sales_summary_groups_by_payment() {
    let entries = vec![
        entry(5, "Öl", 30, false, 2, Payment::Swish),
        entry(6, "Öl", 30, false, 1, Payment::Cash),
        entry(7, "Dricks", 1, true, 40, Payment::Swish),
        entry(8, "Läsk", 15, false, 2, Payment::Swish),
    ];
    let s = Summary::get_sales_summary(at(0), at(100), entries);
    assert!(!s.is_empty());
    assert_eq!(*s.from(), at(0));
    assert_eq!(*s.to(), at(100));
    assert_eq!(s.len(), 2);
    let (p0, r0) = s.receipt(0);
    assert_eq!(p0, Payment::Swish);
    assert_eq!(r0.time(), at(5));
    assert_eq!(r0.len(), 3);
    assert_eq!(r0.sum(), 60 + 40 + 30);
    let (p1, r1) = s.receipt(1);
    assert_eq!(p1, Payment::Cash);
    assert_eq!(r1.sum(), 30);
}

#[test]
fn sales_table_puts_specials_last_and_adds_up() {
    let entries = vec![
        entry(5, "Dricks", 1, true, 40, Payment::Swish),
        entry(5, "Öl", 30, false, 2, Payment::Swish),
        entry(6, "Öl", 30, false, 1, Payment::Cash),
        entry(8, "Läsk", 15, false, 2, Payment::Cash),
    ];
    let s = Summary::get_sales_summary(at(0), at(100), entries);
    let t = s.sales_table();
    assert_eq!(t.payments, vec![Payment::Swish, Payment::Cash]);
    let names: Vec<&str> = t.rows.iter().map(|r| r.item.name().as_str()).collect();
    assert_eq!(names, vec!["Öl", "Läsk", "Dricks"]);
    assert_eq!(t.rows[0].cells, vec![Some(2), Some(1)]);
    assert_eq!(t.rows[0].total, 90);
    assert_eq!(t.rows[1].cells, vec![None, Some(2)]);
    assert_eq!(t.rows[1].total, 30);
    assert_eq!(t.rows[2].cells, vec![Some(40), None]);
    assert_eq!(t.rows[2].total, 40);
    assert_eq!(t.payment_totals, vec![Some(100), Some(60)]);
    assert_eq!(t.total, 160);
}

#[test]
fn sales_table_total_is_worth_of_all_lines() {
    let entries = vec![
        entry(1, "Öl", 30, false, 2, Payment::Paypal),
        entry(2, "Öl", 35, false, 1, Payment::Swish),
        entry(3, "Dricks", 1, true, 25, Payment::Cash),
        entry(4, "Öl", 30, false, -1, Payment::Swish),
        entry(5, "Läsk", 15, false, 3, Payment::Paypal),
        entry(6, "Dricks", 1, true, 5, Payment::Paypal),
    ];
    let worth: i32 = entries.iter().map(|e| e.item.price() * e.amount).sum();
    let s = Summary::get_sales_summary(at(0), at(10), entries);
    let by_receipts: i32 = (0..s.len()).map(|i| s.receipt(i).1.sum()).sum();
    let t = s.sales_table();
    assert_eq!(worth, 60 + 35 + 25 - 30 + 45 + 5);
    assert_eq!(t.total, worth);
    assert_eq!(t.total, by_receipts);
    let by_columns: i32 = t.payment_totals.iter().map(|c| c.unwrap_or(0)).sum();
    assert_eq!(by_columns, t.total);
}

#[test]
fn stats_of_empty_summary() {
    let s = Summary::new(at(0), at(1));
    assert!(s.is_empty());
    let t = s.sales_table();
    assert!(t.payments.is_empty());
    assert!(t.rows.is_empty());
    assert_eq!(t.total, 0);
}

#[test]
fn stats_table_direct() {
    let mut r = Receipt::new(at(1), Payment::Cash);
    r.insert(item("Öl", 30, false), 1);
    let data = vec![(Payment::Cash, r)];
    let t = Stats::new(&data).table();
    assert_eq!(t.total, 30);
    assert_eq!(t.payment_totals, vec![Some(30)]);
}

#[test]
fn receipt_path_is_set_once() {
    let mut slot: Option<PathBuf> = None;
    assert_eq!(set_receipt_path(&mut slot, PathBuf::from("/a")), Ok(()));
    assert_eq!(slot, Some(PathBuf::from("/a")));
    assert_eq!(set_receipt_path(&mut slot, PathBuf::from("/b")), Err(Error::PathAlreadySet));
    assert_eq!(slot, Some(PathBuf::from("/a")));
    assert_eq!(set_receipt_path(&mut slot, PathBuf::from("/c")), Err(Error::PathAlreadySet));
    assert_eq!(slot, Some(PathBuf::from("/a")));
}
