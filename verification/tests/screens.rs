use register::calc::{Calc, Message};
use register::icons::Icon;
use register::item::{Category, Item};
use register::items::Item as MenuItem;
use register::kinded::{Item as KindedItem, Sales as SalesKind, Stock};
use register::payment::Payment;
use register::receipts::{Payment as Method, RawEntry, Receipt};
use register::reciept::{Item as Line, Reciept};
use register::screens::manager::{Action as ManagerAction, Event as ManagerEvent, Manager, State as ManagerState};
use register::screens::menu::item::Item as OldMenuItem;
use register::screens::menu::{Action as MenuAction, Event as MenuEvent, Menu, State as MenuState};
use register::screens::sales::{Action as SalesAction, Event as SalesEvent, Picker, Sales};
use register::screens::transactions::{Event as TxEvent, State as TxState, Transactions};
use register::screens::TabId;
use register::summary::Summary;
use register::time::{Date, Timestamp};
use register::widgets::calc::{Calc as CalcWidget, Event as CalcEvent};
use register::widgets::numberinput::Event as NumberEvent;
use register::widgets::{ButtonScroller, DatePicker, NumberInput, TextInput};

fn at(secs: i64) -> Timestamp {
    Timestamp { secs, nanos: 0 }
}

fn menu_item(name: &str, price: i32) -> MenuItem {
    MenuItem::from_row(name.to_string(), price, Some(true), Some(false), Some(Category::Drink))
}

#[test]
fn calc_types_and_saves_multiplier() {
    let mut c = Calc::new();
    assert_eq!(c.0, 1);
    c.update(Message::Update(0));
    assert_eq!(c.typed(), 0);
    c.update(Message::Update(4));
    c.update(Message::Update(2));
    assert_eq!(c.typed(), 42);
    c.update(Message::Update(7));
    assert_eq!(c.typed(), 100);
    c.update(Message::Save);
    assert_eq!(c.0, 100);
    assert_eq!(c.typed(), 0);
    c.update(Message::Save);
    assert_eq!(c.0, 100);
    c.update(Message::Update(3));
    c.update(Message::Clear);
    assert_eq!(c.typed(), 0);
    assert_eq!(c.0, 100);
    c.update(Message::Clear);
    assert_eq!(c.0, 1);
}

#[test]
fn calc_widget_reports_multiplier() {
    let mut c = CalcWidget::new(0, |m: u32| m * 2);
    let mut typed = 0u32;
    assert_eq!(c.update(&mut typed, CalcEvent::Update(5)), None);
    assert_eq!(typed, 5);
    assert_eq!(c.update(&mut typed, CalcEvent::Save), Some(10));
    assert_eq!(typed, 0);
    assert_eq!(c.update(&mut typed, CalcEvent::Save), None);
    assert_eq!(c.update(&mut typed, CalcEvent::Clear), Some(2));
    c.update(&mut typed, CalcEvent::Update(9));
    assert_eq!(c.update(&mut typed, CalcEvent::Clear), None);
    assert_eq!(typed, 0);
}

#[test]
fn number_input_accepts_numbers_in_range() {
    let mut n = NumberInput::new(1..=1000, |v: i32| v, 5);
    assert_eq!(n.update(NumberEvent::Input("42".to_string())), Some(42));
    assert_eq!(n.update(NumberEvent::Input("+7".to_string())), Some(7));
    assert_eq!(n.update(NumberEvent::Input("1000".to_string())), Some(1000));
    assert_eq!(n.update(NumberEvent::Input("1001".to_string())), None);
    assert_eq!(n.update(NumberEvent::Input("0".to_string())), None);
    assert_eq!(n.update(NumberEvent::Input("-3".to_string())), None);
    assert_eq!(n.update(NumberEvent::Input(" 5".to_string())), None);
    assert_eq!(n.update(NumberEvent::Input("abc".to_string())), None);
    assert_eq!(n.update(NumberEvent::Input("99999999999".to_string())), None);
    assert_eq!(n.update(NumberEvent::Input(String::new())), None);
}

#[test]
fn text_and_date_fields_hold_values() {
    let mut t = TextInput::new();
    assert_eq!(t.value(), "");
    t.update("hej".to_string());
    assert_eq!(t.value(), "hej");
    let d0 = Date { year: 2024, month: 5, day: 1 };
    let d1 = Date { year: 2024, month: 5, day: 2 };
    let mut d = DatePicker::new(d0);
    assert_eq!(d.value(), d0);
    d.update(d1);
    assert_eq!(d.value(), d1);
}

#[test]
fn button_scroller_builds() {
    let s: ButtonScroller<u8, u32> = ButtonScroller::new_from(vec![1, 2, 3]).view_size(2).on_back(0).on_foward(1);
    let _ = s;
    let e: ButtonScroller<u8, u32> = ButtonScroller::new();
    let _ = e;
}

#[test]
fn payment_names_read_back_in_any_case() {
    assert_eq!(String::from(Payment::Paypal), "PayPal");
    assert_eq!(String::from(Payment::Swish), "Swish");
    for p in [Payment::Cash, Payment::Swish, Payment::Paypal] {
        assert_eq!(Payment::try_from(String::from(p)).unwrap(), p);
    }
    assert_eq!(Payment::try_from("CASH".to_string()).unwrap(), Payment::Cash);
    match Payment::try_from("card".to_string()) {
        Err(register::error::Error::Other(m)) => assert_eq!(m, "Invalid Payment Method"),
        Ok(_) => panic!("card is no payment method"),
    }
    assert_eq!(Payment::default(), Payment::Swish);
}

#[test]
fn icons_map_to_code_points() {
    assert_eq!(char::from(Icon::Trash), '\u{e872}');
    assert_eq!(char::from(Icon::Info), '\u{e88e}');
    assert_eq!(String::from(Icon::Print), "\u{e8ad}");
}

#[test]
fn screen_items_add_up() {
    let a = Item::new_sales("Öl".to_string(), 30, false, 2);
    let b = Item::new_sales("Öl".to_string(), 30, false, 3);
    assert!(a == b);
    assert_eq!(a.has_amount(), Some(2));
    let s = a.add(b);
    assert_eq!(s.has_amount(), Some(5));
    assert_eq!(s.price_total(), 150);
    let mut d = Item::new_sales("Dricks".to_string(), 10, true, 0);
    assert!(d.is_special());
    assert_eq!(d.has_amount(), None);
    d.add_assign(Item::new_sales("Dricks".to_string(), 25, true, 0));
    assert_eq!(d.price, 35);
    assert_eq!(d.price_total(), 35);
    assert!(d == Item::new_sales("Dricks".to_string(), 1, true, 0));
    assert!(Item::new_sales("Öl".to_string(), 30, false, 1) != Item::new_sales("Öl".to_string(), 31, false, 1));
    let mut m = Item::new_menu("Mat".to_string(), 50, Category::Food, false);
    m.set_amount(4);
    assert_eq!(m.price_total(), 200);
    let mut st = Item::new_stock("Chips".to_string(), 20, Category::Other, false);
    assert!(!st.is_in_stock());
    st.in_stock(true);
    assert!(st.is_in_stock());
    assert!(m.is_in_stock());
}

#[test]
fn kinded_items() {
    let a = KindedItem::new_sales("Öl".to_string(), 30, false, 2);
    let b = KindedItem::new_sales("Öl".to_string(), 30, false, 1);
    assert!(a == b);
    let s = a.add(b);
    assert_eq!(s.kind, SalesKind::Regular { num: 3 });
    assert_eq!(s.price_total(), 90);
    let mut m = KindedItem::new_menu("Mat".to_string(), 50, Category::Food, true);
    assert!(m.is_special());
    assert_eq!(m.has_amount(), None);
    assert_eq!(m.price_total(), 50);
    m = KindedItem::new_menu("Mat".to_string(), 50, Category::Food, false);
    m.set_amount(2);
    assert_eq!(m.price_total(), 100);
    let mut st = KindedItem::new_stock("Chips".to_string(), 20, Category::Other, true).with_index(4);
    assert_eq!(st.kind, Stock { idx: 4, available: true });
    st.in_stock(false);
    assert!(!st.is_in_stock());
    let w = st.on_press(|i| i.price);
    let _ = w;
}

#[test]
fn reciept_merges_lines_by_name() {
    let mut r = Reciept::new();
    r.add(OldMenuItem::new("Öl", 30, false).sell(2));
    r.add(OldMenuItem::new("Dricks", 5, true).sell(3));
    r.add(OldMenuItem::new("Öl", 30, false).sell(1));
    r.add(OldMenuItem::new("Dricks", 5, true).sell(1));
    assert_eq!(r.len(), 2);
    assert_eq!(r.sum, 90 + 20);
    match r.items.get("Öl").unwrap() {
        Line::Regular { num, price, .. } => {
            assert_eq!(*num, 3);
            assert_eq!(*price, 30);
        }
        Line::Special { .. } => panic!("Öl is sold by the piece"),
    }
    match r.items.get("Dricks").unwrap() {
        Line::Special { price, .. } => assert_eq!(*price, 20),
        Line::Regular { .. } => panic!("Dricks is sold by value"),
    }
    let l = Line::Special { name: "x".to_string(), price: 7 };
    assert_eq!(l.num(), 7);
    assert_eq!(l.price_total(), 7);
    assert_eq!(l.name(), "x");
}

fn recents() -> indexmap::IndexMap<Timestamp, Receipt> {
    let mk = |secs: i64, amount: i32| RawEntry::from_row(Some(at(secs)), amount, menu_item("Öl", 30), Some(Method::Cash));
    Receipt::get_recents(vec![mk(1, 1), mk(2, 2), mk(3, 3), mk(4, 4), mk(5, 5)])
}

#[test]
fn transactions_scroll_select_print() {
    let mut t = Transactions::new(recents());
    let mut s = TxState::default();
    assert!(t.update(&mut s, TxEvent::ScrollLeft).is_none());
    assert!(t.update(&mut s, TxEvent::ScrollRight).is_none());
    assert!(t.update(&mut s, TxEvent::ScrollRight).is_none());
    assert!(t.update(&mut s, TxEvent::Select(at(3))).is_none());
    let printed = t.update(&mut s, TxEvent::Print).expect("a receipt is selected");
    assert_eq!(printed.sum(), 90);
    assert!(t.update(&mut s, TxEvent::Print).is_none());
    t.update(&mut s, TxEvent::Select(at(77)));
    assert!(t.update(&mut s, TxEvent::Print).is_none());
    t.update(&mut s, TxEvent::Select(at(1)));
    t.update(&mut s, TxEvent::Deselect);
    assert!(t.update(&mut s, TxEvent::Print).is_none());
}

#[test]
fn transactions_scroll_stops_at_last_page() {
    let mut t = Transactions::new(recents());
    let mut s = TxState::default();
    for _ in 0..5 {
        t.update(&mut s, TxEvent::ScrollRight);
    }
    assert_eq!(s.offset(), 1);
    t.update(&mut s, TxEvent::ScrollLeft);
    assert_eq!(s.offset(), 0);
    t.update(&mut s, TxEvent::ScrollLeft);
    assert_eq!(s.offset(), 0);
    let mut empty = Transactions::new(indexmap::IndexMap::new());
    empty.update(&mut s, TxEvent::ScrollRight);
    assert_eq!(s.offset(), 0);
}

#[test]
fn locked_save_press_opens_login() {
    let mut m = Manager::new(vec![menu_item("Öl", 30)]);
    let mut s = ManagerState::default();
    assert!(matches!(Manager::save_press(&s), ManagerEvent::OpenLogin));
    m.update(&mut s, ManagerEvent::UpdatePassword("rätt".to_string()), None);
    m.update(&mut s, ManagerEvent::Login, Some("rätt"));
    assert!(matches!(Manager::save_press(&s), ManagerEvent::Save));
    m.update(&mut s, ManagerEvent::UpdatePassword("fel".to_string()), None);
    m.update(&mut s, ManagerEvent::Login, Some("rätt"));
    assert!(matches!(Manager::save_press(&s), ManagerEvent::OpenLogin));
    m.update(&mut s, ManagerEvent::Login, None);
    assert!(matches!(Manager::save_press(&s), ManagerEvent::Save));
}

#[test]
fn sales_screen_picks_dates_and_saves() {
    let d0 = Date { year: 2024, month: 1, day: 1 };
    let d1 = Date { year: 2024, month: 1, day: 9 };
    let mut sales = Sales::new(d0, d0, Summary::new(at(0), at(1)));
    let mut picker = None;
    match sales.update(&mut picker, SalesEvent::Save) {
        Some(SalesAction::Error(register::error::Error::Other(m))) => assert_eq!(m, "Ingen försäljning att spara"),
        _ => panic!("an empty summary is not saved"),
    }
    assert!(sales.update(&mut picker, SalesEvent::OpenDate(Picker::To)).is_none());
    assert_eq!(picker, Some(Picker::To));
    match sales.update(&mut picker, SalesEvent::UpdateDate(d1)) {
        Some(SalesAction::Load { from, to }) => {
            assert_eq!(from, d0);
            assert_eq!(to, d1);
        }
        _ => panic!("the period is loaded again"),
    }
    assert_eq!(picker, None);
    match sales.update(&mut picker, SalesEvent::CloseDate) {
        Some(SalesAction::Load { from, to }) => assert_eq!((from, to), (d0, d1)),
        _ => panic!("the period is loaded again"),
    }
    let e = RawEntry::from_row(Some(at(0)), 1, menu_item("Öl", 30), None);
    let mut full = Sales::new(d0, d1, Summary::get_sales_summary(at(0), at(1), vec![e]));
    assert!(matches!(full.update(&mut picker, SalesEvent::Save), Some(SalesAction::Save)));
}

#[test]
fn manager_edits_saves_and_logs_in() {
    let mut m = Manager::new(vec![menu_item("Öl", 30), menu_item("Läsk", 15)]);
    let mut s = ManagerState::default();
    match m.update(&mut s, ManagerEvent::ToggleItem(1, false), None) {
        Some(ManagerAction::SetAvailable { item, available }) => {
            assert_eq!(item.name(), "Läsk");
            assert!(!available);
        }
        _ => panic!("toggling asks for the stock flag"),
    }
    assert!(m.update(&mut s, ManagerEvent::ToggleItem(5, true), None).is_none());
    assert!(m.update(&mut s, ManagerEvent::Save, None).is_none());
    m.update(&mut s, ManagerEvent::EditItem(0), None);
    m.update(&mut s, ManagerEvent::UpdatePrice(35), None);
    match m.update(&mut s, ManagerEvent::Save, None) {
        Some(ManagerAction::Update { old_name, name, price, category }) => {
            assert_eq!(old_name, "Öl");
            assert_eq!(name, "Öl");
            assert_eq!(price, 35);
            assert_eq!(category, Category::Drink);
        }
        _ => panic!("saving an edited item changes it"),
    }
    m.update(&mut s, ManagerEvent::UpdateName("Vatten".to_string()), None);
    match m.update(&mut s, ManagerEvent::Save, None) {
        Some(ManagerAction::Insert { name, price, category }) => {
            assert_eq!(name, "Vatten");
            assert_eq!(price, 0);
            assert_eq!(category, Category::Other);
        }
        _ => panic!("saving a new item adds it"),
    }
    m.update(&mut s, ManagerEvent::OpenLogin, None);
    m.update(&mut s, ManagerEvent::UpdatePassword("fel".to_string()), None);
    assert!(m.update(&mut s, ManagerEvent::Login, Some("rätt")).is_none());
    m.update(&mut s, ManagerEvent::UpdatePassword("rätt".to_string()), None);
    m.update(&mut s, ManagerEvent::Login, Some("rätt"));
    m.update(&mut s, ManagerEvent::Cancel, None);
    m.update(&mut s, ManagerEvent::CloseLogin, None);
    m.update(&mut s, ManagerEvent::UpdateCategory(Category::Food), None);
}

#[test]
fn menu_rings_up_and_sells() {
    let mut m = Menu::new(vec![menu_item("Öl", 30), menu_item("Läsk", 15)]);
    let mut s = MenuState::default();
    assert!(m.update(&mut s, MenuEvent::Sell(Method::Swish), at(9)).is_none());
    m.update(&mut s, MenuEvent::Multiplier(3), at(9));
    m.update(&mut s, MenuEvent::SellItem(0), at(9));
    m.update(&mut s, MenuEvent::SellItem(1), at(9));
    m.update(&mut s, MenuEvent::SellItem(0), at(9));
    m.update(&mut s, MenuEvent::TogglePrint(true), at(9));
    match m.update(&mut s, MenuEvent::Sell(Method::Paypal), at(9)) {
        Some(MenuAction::Sell { receipt, print }) => {
            assert!(print);
            assert_eq!(receipt.payment(), Method::Paypal);
            assert_eq!(receipt.time(), at(9));
            assert_eq!(receipt.len(), 2);
            assert_eq!(receipt.line(0).1, 4);
            assert_eq!(receipt.sum(), 4 * 30 + 15);
        }
        None => panic!("a receipt with lines is sold"),
    }
    assert!(m.update(&mut s, MenuEvent::Sell(Method::Paypal), at(9)).is_none());
    m.update(&mut s, MenuEvent::SellItem(1), at(9));
    m.update(&mut s, MenuEvent::ClearReceipt, at(9));
    assert!(m.update(&mut s, MenuEvent::Sell(Method::Cash), at(9)).is_none());
}

#[test]
fn tabs_compare_by_screen() {
    let d0 = Date { year: 2024, month: 1, day: 1 };
    let d1 = Date { year: 2024, month: 2, day: 1 };
    assert!(TabId::Sales { from: d0, to: d0 } == TabId::Sales { from: d1, to: d1 });
    assert!(TabId::Menu == TabId::Menu);
    assert!(TabId::Menu != TabId::Info);
    assert!(TabId::Transactions != TabId::Manager);
}

#[test]
fn screen_receipt_sends_message_when_pressed() {
    let mut r = register::receipt::Receipt::from_receipt(Receipt::default()).on_press(7u8);
    assert_eq!(r.update(true), Some(7));
    assert_eq!(r.update(false), None);
    let mut q: register::receipt::Receipt<u8> = register::receipt::Receipt::from_receipt(Receipt::default());
    assert_eq!(q.update(true), None);
}
