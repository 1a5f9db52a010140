use vstd::prelude::*;
use crate::items::{Item, ItemView};
use crate::lines::{has_key, keys_distinct, key_index, map_put};
use crate::receipts::{
    amount_in, groups_distinct, lemma_group_step,
    add_to_group, all_wf, group_base, keyed_view, receipt_add, RawEntry, RawEntryView, Payment,
    Receipt, ReceiptView,
};
use crate::time::Timestamp;
use crate::sets::{set_at, set_insert, set_items, set_len, set_new, set_sort_pieces_first};
use indexmap::IndexSet;

verus! {

/// Sold lines grouped into one receipt per payment method, in order of first
/// appearance; a receipt takes the time of its first line.
pub open spec fn group_by_payment(es: Seq<RawEntryView>) -> Seq<(Payment, ReceiptView)>
    decreases es.len(),
{
    if es.len() == 0 {
        Seq::empty()
    } else {
        let g = group_by_payment(es.drop_last());
        let e = es.last();
        map_put(g, e.3, receipt_add(group_base(g, e.3, e.0, e.3), e.2, e.1))
    }
}

/// No amount overflows an `i32` while the lines are grouped by payment method.
pub open spec fn group_by_payment_fits(es: Seq<RawEntryView>) -> bool
    decreases es.len(),
{
    if es.len() == 0 {
        true
    } else {
        let g = group_by_payment(es.drop_last());
        let e = es.last();
        &&& group_by_payment_fits(es.drop_last())
        &&& i32::MIN <= amount_of_in(group_base(g, e.3, e.0, e.3), e.2) + e.1 <= i32::MAX
    }
}

/// The amount of item `k` on a receipt view.
pub open spec fn amount_of_in(r: ReceiptView, k: ItemView) -> int {
    crate::receipts::amount_of(r.0, k)
}

/// Every prefix of lines that group without overflow groups without overflow.
pub proof fn lemma_group_by_payment_fits_prefix(es: Seq<RawEntryView>, k: int)
    requires
        group_by_payment_fits(es),
        0 <= k <= es.len(),
    ensures
        group_by_payment_fits(es.take(k)),
    decreases es.len() - k,
{
    if k < es.len() {
        lemma_group_by_payment_fits_prefix(es, k + 1);
        assert(es.take(k + 1).drop_last() =~= es.take(k));
    } else {
        assert(es.take(k) =~= es);
    }
}

/// The view of a summary: first and last instant covered, and one receipt
/// per payment method.
pub type SummaryView = (Timestamp, Timestamp, Seq<(Payment, ReceiptView)>);

/// Sales of a period, with one receipt per payment method that holds all
/// that was sold with it.
#[derive(Debug)]
pub struct Summary {
    from: Timestamp,
    to: Timestamp,
    data: Vec<(Payment, Receipt)>,
}

impl View for Summary {
    type V = SummaryView;

    closed spec fn view(&self) -> SummaryView {
        (self.from, self.to, keyed_view(self.data@))
    }
}

impl Summary {
    /// No payment method occurs twice and no item twice on one receipt.
    pub closed spec fn wf(&self) -> bool {
        &&& keys_distinct(keyed_view(self.data@))
        &&& all_wf(self.data@)
    }

    /// An empty summary of the period from `from` to `to`.
    pub fn new(from: Timestamp, to: Timestamp) -> (s: Summary)
        ensures
            s@ == (from, to, Seq::<(Payment, ReceiptView)>::empty()),
            s.wf(),
    {
        let data: Vec<(Payment, Receipt)> = Vec::new();
        assert(keyed_view(data@) =~= Seq::<(Payment, ReceiptView)>::empty());
        Summary { from, to, data }
    }

    /// The first instant covered.
    pub fn from(&self) -> (t: &Timestamp)
        ensures
            *t == self@.0,
    {
        &self.from
    }

    /// The last instant covered.
    pub fn to(&self) -> (t: &Timestamp)
        ensures
            *t == self@.1,
    {
        &self.to
    }

    /// Whether nothing was sold in the period.
    pub fn is_empty(&self) -> (b: bool)
        ensures
            b == (self@.2.len() == 0),
    {
        self.data.len() == 0
    }

    /// The number of payment methods with sales.
    pub fn len(&self) -> (n: usize)
        ensures
            n == self@.2.len(),
    {
        self.data.len()
    }

    /// The payment method and receipt at position `i`.
    pub fn receipt(&self, i: usize) -> (pair: (Payment, &Receipt))
        requires
            i < self@.2.len(),
        ensures
            (pair.0, pair.1@) == self@.2[i as int],
    {
        let p = &self.data[i];
        (p.0, &p.1)
    }

    /// Groups the lines sold between `from` and `to`, as read back from the
    /// database, into one receipt per payment method (see
    /// `group_by_payment`).
    pub fn get_sales_summary(from: Timestamp, to: Timestamp, entries: Vec<RawEntry>) -> (s: Summary)
        requires
            group_by_payment_fits(entries@.map_values(|e: RawEntry| e@)),
        ensures
            s@ == (from, to, group_by_payment(entries@.map_values(|e: RawEntry| e@))),
            s.wf(),
    {
        let ghost es = entries@.map_values(|e: RawEntry| e@);
        let mut acc: Vec<(Payment, Receipt)> = Vec::new();
        let n = entries.len();
        let mut i: usize = 0;
        assert(keyed_view(acc@) =~= group_by_payment(es.take(0)));
        while i < n
            invariant
                n == es.len(),
                es == entries@.map_values(|e: RawEntry| e@),
                group_by_payment_fits(es),
                i <= n,
                keys_distinct(keyed_view(acc@)),
                all_wf(acc@),
                keyed_view(acc@) == group_by_payment(es.take(i as int)),
            decreases n - i,
        {
            let e = &entries[i];
            proof {
                lemma_group_by_payment_fits_prefix(es, i + 1);
                assert(es.take(i + 1).drop_last() =~= es.take(i as int));
                assert(es.take(i + 1).last() == es[i as int]);
                assert(es[i as int] == e@);
            }
            add_to_group(&mut acc, e.payment, e.time, e.payment, e.item.clone(), e.amount);
            i = i + 1;
        }
        assert(es.take(n as int) =~= es);
        Summary { from, to, data: acc }
    }
}

} // verus!

verus! {

/// One sold line of a summary: payment method, item, amount.
pub type SoldView = (Payment, ItemView, i32);

/// The lines of one receipt, tagged with its payment method.
pub open spec fn receipt_sold(p: Payment, lines: Seq<(ItemView, i32)>) -> Seq<SoldView> {
    lines.map_values(|l: (ItemView, i32)| (p, l.0, l.1))
}

/// All lines of all receipts, receipt after receipt.
pub open spec fn flat_sold(d: Seq<(Payment, ReceiptView)>) -> Seq<SoldView>
    decreases d.len(),
{
    if d.len() == 0 {
        Seq::empty()
    } else {
        flat_sold(d.drop_last()) + receipt_sold(d.last().0, d.last().1.0)
    }
}

/// The items of `f`, each once, in order of first appearance.
pub open spec fn first_seen(f: Seq<SoldView>) -> Seq<ItemView>
    decreases f.len(),
{
    if f.len() == 0 {
        Seq::empty()
    } else {
        let seen = first_seen(f.drop_last());
        if seen.contains(f.last().1) {
            seen
        } else {
            seen.push(f.last().1)
        }
    }
}

/// The items sold by value.
pub open spec fn is_special_view(k: ItemView) -> bool {
    k.3
}

/// The items with those sold by value moved last, each part keeping its order.
pub open spec fn specials_last(s: Seq<ItemView>) -> Seq<ItemView> {
    s.filter(|k: ItemView| !is_special_view(k)) + s.filter(|k: ItemView| is_special_view(k))
}

/// The rows of a sales summary: every item sold, once, those sold by value
/// last.
pub open spec fn summary_items(d: Seq<(Payment, ReceiptView)>) -> Seq<ItemView> {
    specials_last(first_seen(flat_sold(d)))
}

/// The payment methods of a sales summary, in its order.
pub open spec fn summary_payments(d: Seq<(Payment, ReceiptView)>) -> Seq<Payment> {
    d.map_values(|x: (Payment, ReceiptView)| x.0)
}

/// What a sales summary is made from: its payment methods, in order, and its
/// items, once each, those sold by value last.
pub struct Stats<'a> {
    payments: Vec<Payment>,
    items: IndexSet<Item>,
    data: &'a Vec<(Payment, Receipt)>,
}

/// The view of sales statistics: payment methods, items, and the receipts.
pub type StatsView = (Seq<Payment>, Seq<ItemView>, Seq<(Payment, ReceiptView)>);

impl<'a> View for Stats<'a> {
    type V = StatsView;

    closed spec fn view(&self) -> StatsView {
        (self.payments@, set_items(self.items), keyed_view(self.data@))
    }
}

impl<'a> Stats<'a> {
    /// Each receipt is well formed.
    pub closed spec fn wf(&self) -> bool {
        all_wf(self.data@)
    }

    /// The payment methods in order, and every item sold, once, in order of
    /// first appearance, then with those sold by value moved last.
    pub fn new(data: &'a Vec<(Payment, Receipt)>) -> (s: Stats<'a>)
        requires
            all_wf(data@),
        ensures
            s@ == (summary_payments(keyed_view(data@)), summary_items(keyed_view(data@)), keyed_view(data@)),
            s.wf(),
    {
        let ghost d = keyed_view(data@);
        let mut payments: Vec<Payment> = Vec::new();
        let mut items = set_new();
        let mut r: usize = 0;
        assert(d.take(0) =~= Seq::<(Payment, ReceiptView)>::empty());
        assert(flat_sold(d.take(0)) =~= Seq::<SoldView>::empty());
        while r < data.len()
            invariant
                d == keyed_view(data@),
                r <= data.len(),
                payments@ == summary_payments(d.take(r as int)),
                set_items(items) == first_seen(flat_sold(d.take(r as int))),
            decreases data.len() - r,
        {
            let (p, ref receipt) = data[r];
            let ghost before = flat_sold(d.take(r as int));
            let ghost lines = receipt@.0;
            assert(d.take(r + 1).drop_last() =~= d.take(r as int));
            assert(d.take(r + 1).last() == (p, receipt@));
            assert(flat_sold(d.take(r + 1)) == before + receipt_sold(p, lines));
            payments.push(p);
            assert(payments@ =~= summary_payments(d.take(r + 1)));
            let n = receipt.len();
            let mut l: usize = 0;
            assert(before + receipt_sold(p, lines).take(0) =~= before);
            while l < n
                invariant
                    n == lines.len(),
                    lines == receipt@.0,
                    l <= n,
                    set_items(items) == first_seen(before + receipt_sold(p, lines).take(l as int)),
                decreases n - l,
            {
                let (item, _amount) = receipt.line(l);
                let ghost f = before + receipt_sold(p, lines).take(l + 1);
                assert(f.drop_last() =~= before + receipt_sold(p, lines).take(l as int));
                assert(f.last().1 == item@);
                let _added = set_insert(&mut items, item.clone());
                assert(set_items(items) =~= first_seen(f));
                l = l + 1;
            }
            assert(receipt_sold(p, lines).take(n as int) =~= receipt_sold(p, lines));
            r = r + 1;
        }
        assert(d.take(data.len() as int) =~= d);
        set_sort_pieces_first(&mut items);
        Stats { payments, items, data }
    }
}

} // verus!

verus! {

/// The amount of item `k` sold with the `j`-th payment method, if any was.
pub open spec fn cell_amount(d: Seq<(Payment, ReceiptView)>, k: ItemView, j: int) -> Option<i32> {
    if has_key(d[j].1.0, k) {
        Some(d[j].1.0[key_index(d[j].1.0, k)].1)
    } else {
        None
    }
}

/// What item `k` sold for with the `j`-th payment method.
pub open spec fn cell_value(d: Seq<(Payment, ReceiptView)>, k: ItemView, j: int) -> int {
    match cell_amount(d, k, j) {
        Some(a) => k.1 * a,
        None => 0,
    }
}

/// What item `k` sold for with the first `m` payment methods.
pub open spec fn row_sum(d: Seq<(Payment, ReceiptView)>, k: ItemView, m: int) -> int
    decreases m,
{
    if m <= 0 {
        0
    } else {
        row_sum(d, k, m - 1) + cell_value(d, k, m - 1)
    }
}

/// What the first `n` items sold for with the `j`-th payment method.
pub open spec fn column_sum(d: Seq<(Payment, ReceiptView)>, ks: Seq<ItemView>, j: int, n: int) -> int
    decreases n,
{
    if n <= 0 {
        0
    } else {
        column_sum(d, ks, j, n - 1) + cell_value(d, ks[n - 1], j)
    }
}

/// Whether one of the first `n` items was sold with the `j`-th payment method.
pub open spec fn column_present(d: Seq<(Payment, ReceiptView)>, ks: Seq<ItemView>, j: int, n: int) -> bool
    decreases n,
{
    if n <= 0 {
        false
    } else {
        column_present(d, ks, j, n - 1) || cell_amount(d, ks[n - 1], j) is Some
    }
}

/// The total of the `j`-th payment method over the first `n` items, where
/// any of them was sold with it.
pub open spec fn column_total(d: Seq<(Payment, ReceiptView)>, ks: Seq<ItemView>, j: int, n: int) -> Option<i32> {
    if column_present(d, ks, j, n) {
        Some(column_sum(d, ks, j, n) as i32)
    } else {
        None
    }
}

/// What the first `n` items sold for with all payment methods.
pub open spec fn table_sum(d: Seq<(Payment, ReceiptView)>, ks: Seq<ItemView>, n: int) -> int
    decreases n,
{
    if n <= 0 {
        0
    } else {
        table_sum(d, ks, n - 1) + row_sum(d, ks[n - 1], d.len() as int)
    }
}

/// A payment method that none of the first `n` items was sold with sums
/// to nothing.
pub proof fn lemma_absent_column_sum(d: Seq<(Payment, ReceiptView)>, ks: Seq<ItemView>, j: int, n: int)
    requires
        !column_present(d, ks, j, n),
    ensures
        column_sum(d, ks, j, n) == 0,
    decreases n,
{
    if n > 0 {
        lemma_absent_column_sum(d, ks, j, n - 1);
    }
}

/// Whether `x` fits in an `i32`.
pub open spec fn fits_i32(x: int) -> bool {
    i32::MIN <= x <= i32::MAX
}

/// Every worth and running total the summary table adds up fits in an
/// `i32`: each cell, each row's running total, each column's running total,
/// and the running grand total, taken row after row.
pub open spec fn table_fits(d: Seq<(Payment, ReceiptView)>, ks: Seq<ItemView>) -> bool {
    &&& forall|i: int, j: int| 0 <= i < ks.len() && 0 <= j < d.len() ==> fits_i32(#[trigger] cell_value(d, ks[i], j))
    &&& forall|i: int, m: int| 0 <= i < ks.len() && 0 <= m <= d.len() ==> fits_i32(#[trigger] row_sum(d, ks[i], m))
    &&& forall|j: int, n: int| 0 <= j < d.len() && 0 <= n <= ks.len() ==> fits_i32(#[trigger] column_sum(d, ks, j, n))
    &&& forall|i: int, m: int| 0 <= i < ks.len() && 0 <= m <= d.len() ==> fits_i32(
        table_sum(d, ks, i) + #[trigger] row_sum(d, ks[i], m),
    )
}

/// One row of the sales summary: the item, the amount sold with each payment
/// method (none where it was not sold with it), and what it sold for in all.
#[derive(Debug)]
pub struct SalesRow {
    pub item: Item,
    pub cells: Vec<Option<i32>>,
    pub total: i32,
}

/// The sales summary table: payment methods, one row per item, what was
/// sold with each payment method (none where nothing was), and the total.
#[derive(Debug)]
pub struct SalesTable {
    pub payments: Vec<Payment>,
    pub rows: Vec<SalesRow>,
    pub payment_totals: Vec<Option<i32>>,
    pub total: i32,
}

impl<'a> Stats<'a> {
    /// The figures of the sales summary (see `SalesTable`).
    pub fn table(&self) -> (t: SalesTable)
        requires
            self.wf(),
            table_fits(self@.2, self@.1),
        ensures
            t.payments@ == self@.0,
            t.rows@.len() == self@.1.len(),
            forall|i: int| 0 <= i < self@.1.len() ==> {
                &&& (#[trigger] t.rows@[i]).item@ == self@.1[i]
                &&& t.rows@[i].cells@ == Seq::new(self@.2.len(), |j: int| cell_amount(self@.2, self@.1[i], j))
                &&& t.rows@[i].total == row_sum(self@.2, self@.1[i], self@.2.len() as int)
            },
            t.payment_totals@ == Seq::new(self@.2.len(), |j: int| column_total(self@.2, self@.1, j, self@.1.len() as int)),
            t.total == table_sum(self@.2, self@.1, self@.1.len() as int),
    {
        let ghost d = self@.2;
        let ghost ks = self@.1;
        let nd = self.data.len();
        let ni = set_len(&self.items);
        let mut payment_totals: Vec<Option<i32>> = Vec::new();
        let mut j: usize = 0;
        while j < nd
            invariant
                nd == d.len(),
                j <= nd,
                payment_totals@ == Seq::new(j as nat, |x: int| column_total(d, ks, x, 0)),
            decreases nd - j,
        {
            payment_totals.push(None);
            assert(payment_totals@ =~= Seq::new((j + 1) as nat, |x: int| column_total(d, ks, x, 0)));
            j = j + 1;
        }
        let mut rows: Vec<SalesRow> = Vec::new();
        let mut total: i32 = 0;
        let mut i: usize = 0;
        while i < ni
            invariant
                nd == d.len(),
                ni == ks.len(),
                d == self@.2,
                ks == self@.1,
                all_wf(self.data@),
                table_fits(d, ks),
                i <= ni,
                rows@.len() == i,
                forall|x: int| 0 <= x < i ==> {
                    &&& (#[trigger] rows@[x]).item@ == ks[x]
                    &&& rows@[x].cells@ == Seq::new(d.len(), |j: int| cell_amount(d, ks[x], j))
                    &&& rows@[x].total == row_sum(d, ks[x], d.len() as int)
                },
                payment_totals@ == Seq::new(nd as nat, |x: int| column_total(d, ks, x, i as int)),
                total == table_sum(d, ks, i as int),
            decreases ni - i,
        {
            let item = set_at(&self.items, i);
            assert(item@ == ks[i as int]);
            let mut cells: Vec<Option<i32>> = Vec::new();
            let mut row_total: i32 = 0;
            let mut j: usize = 0;
            while j < nd
                invariant
                    nd == d.len(),
                    ni == ks.len(),
                    d == self@.2,
                    ks == self@.1,
                    all_wf(self.data@),
                    table_fits(d, ks),
                    i < ni,
                    item@ == ks[i as int],
                    j <= nd,
                    cells@ == Seq::new(j as nat, |x: int| cell_amount(d, ks[i as int], x)),
                    row_total == row_sum(d, ks[i as int], j as int),
                    total == table_sum(d, ks, i as int) + row_sum(d, ks[i as int], j as int),
                    payment_totals@.len() == nd,
                    forall|x: int| 0 <= x < j ==> #[trigger] payment_totals@[x] == column_total(d, ks, x, i + 1),
                    forall|x: int| j <= x < nd ==> #[trigger] payment_totals@[x] == column_total(d, ks, x, i as int),
                decreases nd - j,
            {
                let receipt = &self.data[j].1;
                assert(receipt.wf());
                let found = receipt.amount_of(item);
                assert(found == cell_amount(d, ks[i as int], j as int));
                assert(fits_i32(cell_value(d, ks[i as int], j as int)));
                assert(fits_i32(row_sum(d, ks[i as int], j + 1)));
                assert(fits_i32(table_sum(d, ks, i as int) + row_sum(d, ks[i as int], j + 1)));
                assert(fits_i32(column_sum(d, ks, j as int, i + 1)));
                match found {
                    Some(a) => {
                        let v = *item.price() * a;
                        row_total = row_total + v;
                        total = total + v;
                        let before = match payment_totals[j] {
                            Some(x) => x,
                            None => 0,
                        };
                        proof {
                            if !column_present(d, ks, j as int, i as int) {
                                lemma_absent_column_sum(d, ks, j as int, i as int);
                            }
                            assert(fits_i32(column_sum(d, ks, j as int, i as int)));
                        }
                        assert(before == column_sum(d, ks, j as int, i as int));
                        payment_totals.set(j, Some(before + v));
                        cells.push(Some(a));
                    },
                    None => {
                        cells.push(None);
                    },
                }
                assert(cells@ =~= Seq::new((j + 1) as nat, |x: int| cell_amount(d, ks[i as int], x)));
                j = j + 1;
            }
            rows.push(SalesRow { item: item.clone(), cells, total: row_total });
            assert(payment_totals@ =~= Seq::new(nd as nat, |x: int| column_total(d, ks, x, i + 1)));
            i = i + 1;
        }
        SalesTable { payments: self.payments.clone(), rows, payment_totals, total }
    }
}

} // verus!

verus! {

/// What the first `n` items sold for, summed over the first `m` payment
/// methods column by column.
pub open spec fn columns_sum(d: Seq<(Payment, ReceiptView)>, ks: Seq<ItemView>, m: int, n: int) -> int
    decreases m,
{
    if m <= 0 {
        0
    } else {
        columns_sum(d, ks, m - 1, n) + column_sum(d, ks, m - 1, n)
    }
}

proof fn lemma_columns_sum_step(d: Seq<(Payment, ReceiptView)>, ks: Seq<ItemView>, m: int, n: int)
    requires
        n > 0,
    ensures
        columns_sum(d, ks, m, n) == columns_sum(d, ks, m, n - 1) + row_sum(d, ks[n - 1], m),
    decreases m,
{
    if m > 0 {
        lemma_columns_sum_step(d, ks, m - 1, n);
    }
}

/// The summary's grand total, added up row by row, equals the sum of its
/// payment methods' totals.
pub proof fn lemma_table_total_by_columns(d: Seq<(Payment, ReceiptView)>, ks: Seq<ItemView>, n: int)
    requires
        0 <= n <= ks.len(),
    ensures
        table_sum(d, ks, n) == columns_sum(d, ks, d.len() as int, n),
    decreases n,
{
    if n > 0 {
        lemma_table_total_by_columns(d, ks, n - 1);
        lemma_columns_sum_step(d, ks, d.len() as int, n);
    } else {
        lemma_columns_zero(d, ks, d.len() as int);
    }
}

proof fn lemma_columns_zero(d: Seq<(Payment, ReceiptView)>, ks: Seq<ItemView>, m: int)
    ensures
        columns_sum(d, ks, m, 0) == 0,
    decreases m,
{
    if m > 0 {
        lemma_columns_zero(d, ks, m - 1);
    }
}

impl Summary {
    /// The figures of the sales summary: payment methods in order, one row
    /// per item sold (those sold by value last), and the totals.
    pub fn sales_table(&self) -> (t: SalesTable)
        requires
            self.wf(),
            table_fits(self@.2, summary_items(self@.2)),
        ensures
            t.payments@ == summary_payments(self@.2),
            t.rows@.len() == summary_items(self@.2).len(),
            forall|i: int| 0 <= i < summary_items(self@.2).len() ==> {
                &&& (#[trigger] t.rows@[i]).item@ == summary_items(self@.2)[i]
                &&& t.rows@[i].cells@ == Seq::new(self@.2.len(), |j: int| cell_amount(self@.2, summary_items(self@.2)[i], j))
                &&& t.rows@[i].total == row_sum(self@.2, summary_items(self@.2)[i], self@.2.len() as int)
            },
            t.payment_totals@ == Seq::new(
                self@.2.len(),
                |j: int| column_total(self@.2, summary_items(self@.2), j, summary_items(self@.2).len() as int),
            ),
            t.total == table_sum(self@.2, summary_items(self@.2), summary_items(self@.2).len() as int),
    {
        let stats = Stats::new(&self.data);
        stats.table()
    }
}

} // verus!

verus! {

/// Grouping sold lines into one receipt per payment method loses and adds
/// nothing: the receipts are worth what the lines are.
pub proof fn lemma_group_by_payment_total(es: Seq<RawEntryView>)
    requires
        group_by_payment_fits(es),
    ensures
        crate::receipts::groups_total(group_by_payment(es)) == crate::receipts::entries_total(es),
    decreases es.len(),
{
    if es.len() > 0 {
        lemma_group_by_payment_total(es.drop_last());
        let e = es.last();
        crate::receipts::lemma_group_step_total(group_by_payment(es.drop_last()), e.3, e.0, e.3, e.2, e.1);
    }
}

} // verus!

verus! {

/// What item `k` is worth on the lines `s`: unit price times amount, 0 where
/// it is absent.
pub open spec fn worth_in(s: Seq<(ItemView, i32)>, k: ItemView) -> int {
    if has_key(s, k) {
        k.1 * s[key_index(s, k)].1
    } else {
        0
    }
}

/// What the first `n` items of `ks` are worth on the lines `s`.
pub open spec fn keys_worth(s: Seq<(ItemView, i32)>, ks: Seq<ItemView>, n: int) -> int
    decreases n,
{
    if n <= 0 {
        0
    } else {
        keys_worth(s, ks, n - 1) + worth_in(s, ks[n - 1])
    }
}

proof fn lemma_column_is_keys_worth(d: Seq<(Payment, ReceiptView)>, ks: Seq<ItemView>, j: int, n: int)
    ensures
        column_sum(d, ks, j, n) == keys_worth(d[j].1.0, ks, n),
    decreases n,
{
    if n > 0 {
        lemma_column_is_keys_worth(d, ks, j, n - 1);
    }
}

proof fn lemma_keys_worth_empty(ks: Seq<ItemView>, n: int)
    ensures
        keys_worth(Seq::<(ItemView, i32)>::empty(), ks, n) == 0,
    decreases n,
{
    if n > 0 {
        lemma_keys_worth_empty(ks, n - 1);
    }
}

/// Dropping the last line takes its worth off, where its item is among the
/// first `n` of `ks`.
proof fn lemma_keys_worth_step(s: Seq<(ItemView, i32)>, ks: Seq<ItemView>, n: int)
    requires
        s.len() > 0,
        keys_distinct(s),
        ks.no_duplicates(),
        0 <= n <= ks.len(),
    ensures
        keys_worth(s, ks, n) == keys_worth(s.drop_last(), ks, n) + (if ks.take(n).contains(s.last().0) {
            crate::receipts::line_value(s.last())
        } else {
            0
        }),
    decreases n,
{
    let t = s.drop_last();
    let l = s.last();
    let last = s.len() - 1;
    assert(s[last] == l);
    if n > 0 {
        lemma_keys_worth_step(s, ks, n - 1);
        let k = ks[n - 1];
        if k == l.0 {
            assert(has_key(s, k)) by {
                assert(s[last].0 == k);
            }
            let i = key_index(s, k);
            assert(s[i].0 == s[last].0);
            assert(i == last);
            assert(!has_key(t, k)) by {
                if has_key(t, k) {
                    let i2 = key_index(t, k);
                    assert(t[i2] == s[i2]);
                    assert(s[i2].0 == s[last].0);
                }
            }
            assert(!ks.take(n - 1).contains(l.0)) by {
                if ks.take(n - 1).contains(l.0) {
                    let p = choose|p: int| 0 <= p < ks.take(n - 1).len() && #[trigger] ks.take(n - 1)[p] == l.0;
                    assert(ks[p] == ks[n - 1]);
                }
            }
            assert(ks.take(n)[n - 1] == l.0);
        } else {
            if has_key(s, k) {
                let i1 = key_index(s, k);
                assert(s[i1].0 == k);
                assert(i1 != last);
                assert(t[i1] == s[i1]);
                assert(has_key(t, k));
                let i2 = key_index(t, k);
                assert(t[i2].0 == k);
                assert(s[i2] == t[i2]);
                assert(s[i1].0 == s[i2].0);
                assert(i1 == i2);
            } else {
                assert(!has_key(t, k)) by {
                    if has_key(t, k) {
                        let i2 = key_index(t, k);
                        assert(s[i2] == t[i2]);
                        assert(s[i2].0 == k);
                    }
                }
            }
            assert(ks.take(n).contains(l.0) == ks.take(n - 1).contains(l.0)) by {
                if ks.take(n).contains(l.0) {
                    let p = choose|p: int| 0 <= p < ks.take(n).len() && #[trigger] ks.take(n)[p] == l.0;
                    assert(p != n - 1);
                    assert(ks.take(n - 1)[p] == l.0);
                }
                if ks.take(n - 1).contains(l.0) {
                    let p = choose|p: int| 0 <= p < ks.take(n - 1).len() && #[trigger] ks.take(n - 1)[p] == l.0;
                    assert(ks.take(n)[p] == l.0);
                }
            }
        }
    }
}

/// Summed over a list of items that holds each item of the lines once, the
/// items' worth is what the lines are worth.
proof fn lemma_keys_worth_total(s: Seq<(ItemView, i32)>, ks: Seq<ItemView>)
    requires
        keys_distinct(s),
        ks.no_duplicates(),
        forall|i: int| 0 <= i < s.len() ==> ks.contains(#[trigger] s[i].0),
    ensures
        keys_worth(s, ks, ks.len() as int) == crate::receipts::lines_total(s),
    decreases s.len(),
{
    if s.len() == 0 {
        assert(s =~= Seq::<(ItemView, i32)>::empty());
        lemma_keys_worth_empty(ks, ks.len() as int);
    } else {
        let t = s.drop_last();
        assert forall|a: int, b: int| 0 <= a < t.len() && 0 <= b < t.len() && #[trigger] t[a].0 == #[trigger] t[b].0 implies a == b by {
            assert(t[a] == s[a]);
            assert(t[b] == s[b]);
        }
        assert forall|i: int| 0 <= i < t.len() implies ks.contains(#[trigger] t[i].0) by {
            assert(t[i] == s[i]);
        }
        lemma_keys_worth_total(t, ks);
        lemma_keys_worth_step(s, ks, ks.len() as int);
        assert(ks.take(ks.len() as int) =~= ks);
        assert(s[s.len() - 1] == s.last());
    }
}

proof fn lemma_first_seen(f: Seq<SoldView>)
    ensures
        first_seen(f).no_duplicates(),
        forall|i: int| 0 <= i < f.len() ==> first_seen(f).contains(#[trigger] f[i].1),
    decreases f.len(),
{
    if f.len() > 0 {
        let g = f.drop_last();
        let x = f.last().1;
        lemma_first_seen(g);
        let seen = first_seen(g);
        if !seen.contains(x) {
            let r = seen.push(x);
            assert forall|a: int, b: int| 0 <= a < r.len() && 0 <= b < r.len() && a != b implies r[a] != r[b] by {
                if a < seen.len() && b < seen.len() {
                    assert(r[a] == seen[a]);
                    assert(r[b] == seen[b]);
                } else if a < seen.len() {
                    assert(r[a] == seen[a]);
                } else {
                    assert(r[b] == seen[b]);
                }
            }
        }
        assert forall|i: int| 0 <= i < f.len() implies first_seen(f).contains(#[trigger] f[i].1) by {
            if i < f.len() - 1 {
                assert(g[i] == f[i]);
                assert(seen.contains(g[i].1));
                if !seen.contains(x) {
                    let p = choose|p: int| 0 <= p < seen.len() && seen[p] == f[i].1;
                    assert(seen.push(x)[p] == f[i].1);
                }
            } else {
                assert(f[i] == f.last());
                if !seen.contains(x) {
                    assert(seen.push(x)[seen.len() as int] == x);
                }
            }
        }
    }
}

/// Where line `i` of receipt `j` stands among all sold lines.
proof fn lemma_flat_sold_has(d: Seq<(Payment, ReceiptView)>, j: int, i: int) -> (p: int)
    requires
        0 <= j < d.len(),
        0 <= i < d[j].1.0.len(),
    ensures
        0 <= p < flat_sold(d).len(),
        flat_sold(d)[p].1 == d[j].1.0[i].0,
    decreases d.len(),
{
    let prev = flat_sold(d.drop_last());
    let tail = receipt_sold(d.last().0, d.last().1.0);
    if j == d.len() - 1 {
        assert(d.last() == d[j]);
        assert(flat_sold(d)[prev.len() + i] == tail[i]);
        prev.len() + i
    } else {
        assert(d.drop_last()[j] == d[j]);
        let p = lemma_flat_sold_has(d.drop_last(), j, i);
        assert(flat_sold(d)[p] == prev[p]);
        p
    }
}

proof fn lemma_filter_no_duplicates(s: Seq<ItemView>, pred: spec_fn(ItemView) -> bool)
    requires
        s.no_duplicates(),
    ensures
        s.filter(pred).no_duplicates(),
    decreases s.len(),
{
    reveal(Seq::filter);
    if s.len() > 0 {
        let t = s.drop_last();
        let x = s.last();
        assert forall|a: int, b: int| 0 <= a < t.len() && 0 <= b < t.len() && a != b implies t[a] != t[b] by {
            assert(t[a] == s[a]);
            assert(t[b] == s[b]);
        }
        lemma_filter_no_duplicates(t, pred);
        let ft = t.filter(pred);
        if pred(x) {
            assert(!ft.contains(x)) by {
                if ft.contains(x) {
                    t.lemma_filter_contains_rev(pred, x);
                    let q = choose|q: int| 0 <= q < t.len() && t[q] == x;
                    assert(s[q] == s[s.len() - 1]);
                }
            }
            let r = ft.push(x);
            assert forall|a: int, b: int| 0 <= a < r.len() && 0 <= b < r.len() && a != b implies r[a] != r[b] by {
                if a < ft.len() && b < ft.len() {
                    assert(r[a] == ft[a]);
                    assert(r[b] == ft[b]);
                } else if a < ft.len() {
                    assert(r[a] == ft[a]);
                } else {
                    assert(r[b] == ft[b]);
                }
            }
        }
    }
}

proof fn lemma_specials_last(s: Seq<ItemView>)
    requires
        s.no_duplicates(),
    ensures
        specials_last(s).no_duplicates(),
        forall|x: ItemView| s.contains(x) ==> #[trigger] specials_last(s).contains(x),
{
    let pr = |k: ItemView| !is_special_view(k);
    let ps = |k: ItemView| is_special_view(k);
    let a = s.filter(pr);
    let b = s.filter(ps);
    lemma_filter_no_duplicates(s, pr);
    lemma_filter_no_duplicates(s, ps);
    assert forall|i: int, j: int| 0 <= i < a.len() && 0 <= j < b.len() implies a[i] != b[j] by {
        s.lemma_filter_pred(pr, i);
        s.lemma_filter_pred(ps, j);
    }
    vstd::seq_lib::lemma_no_dup_in_concat(a, b);
    assert forall|x: ItemView| s.contains(x) implies #[trigger] specials_last(s).contains(x) by {
        let i = choose|i: int| 0 <= i < s.len() && s[i] == x;
        if is_special_view(x) {
            s.lemma_filter_contains(ps, i);
            let q = choose|q: int| 0 <= q < b.len() && b[q] == x;
            assert((a + b)[a.len() + q] == x);
        } else {
            s.lemma_filter_contains(pr, i);
            let q = choose|q: int| 0 <= q < a.len() && a[q] == x;
            assert((a + b)[q] == x);
        }
    }
}

proof fn lemma_columns_total(d: Seq<(Payment, ReceiptView)>, ks: Seq<ItemView>, m: int)
    requires
        0 <= m <= d.len(),
        ks.no_duplicates(),
        forall|j: int| 0 <= j < d.len() ==> keys_distinct(#[trigger] d[j].1.0),
        forall|j: int, i: int| 0 <= j < d.len() && 0 <= i < d[j].1.0.len() ==> ks.contains(#[trigger] d[j].1.0[i].0),
    ensures
        columns_sum(d, ks, m, ks.len() as int) == crate::receipts::groups_total(d.take(m)),
    decreases m,
{
    if m > 0 {
        lemma_columns_total(d, ks, m - 1);
        assert(d.take(m).drop_last() =~= d.take(m - 1));
        assert(d.take(m).last() == d[m - 1]);
        lemma_column_is_keys_worth(d, ks, m - 1, ks.len() as int);
        let s = d[m - 1].1.0;
        assert(keys_distinct(s));
        assert forall|i: int| 0 <= i < s.len() implies ks.contains(#[trigger] s[i].0) by {
            assert(ks.contains(d[m - 1].1.0[i].0));
        }
        lemma_keys_worth_total(s, ks);
    } else {
        assert(d.take(0).len() == 0);
    }
}

/// The grand total of a sales summary is what all its receipts are worth
/// together, where no receipt holds an item twice.
pub proof fn lemma_sales_table_total(d: Seq<(Payment, ReceiptView)>)
    requires
        forall|j: int| 0 <= j < d.len() ==> keys_distinct(#[trigger] d[j].1.0),
    ensures
        table_sum(d, summary_items(d), summary_items(d).len() as int) == crate::receipts::groups_total(d),
{
    let f = flat_sold(d);
    let ks = summary_items(d);
    lemma_first_seen(f);
    lemma_specials_last(first_seen(f));
    assert forall|j: int, i: int| 0 <= j < d.len() && 0 <= i < d[j].1.0.len() implies ks.contains(#[trigger] d[j].1.0[i].0) by {
        let p = lemma_flat_sold_has(d, j, i);
        assert(first_seen(f).contains(f[p].1));
    }
    lemma_table_total_by_columns(d, ks, ks.len() as int);
    lemma_columns_total(d, ks, d.len() as int);
    assert(d.take(d.len() as int) =~= d);
}

/// No receipt of the grouping by payment method holds an item twice.
proof fn lemma_group_by_payment_distinct(es: Seq<RawEntryView>)
    ensures
        forall|j: int| 0 <= j < group_by_payment(es).len() ==> keys_distinct(#[trigger] group_by_payment(es)[j].1.0),
    decreases es.len(),
{
    if es.len() > 0 {
        let g = group_by_payment(es.drop_last());
        let e = es.last();
        lemma_group_by_payment_distinct(es.drop_last());
        let base = group_base(g, e.3, e.0, e.3);
        if !has_key(g, e.3) {
            assert(keys_distinct(base.0));
        }
        crate::lines::lemma_map_put_keys_distinct(base.0, e.2, (crate::receipts::amount_of(base.0, e.2) + e.1) as i32);
        let new = receipt_add(base, e.2, e.1);
        let r = group_by_payment(es);
        assert(r == map_put(g, e.3, new));
        assert forall|j: int| 0 <= j < r.len() implies keys_distinct(#[trigger] r[j].1.0) by {
            if has_key(g, e.3) {
                if j != key_index(g, e.3) {
                    assert(r[j] == g[j]);
                }
            } else if j < g.len() {
                assert(r[j] == g[j]);
            }
        }
    }
}

/// The grand total of the sales summary of a period is what all the lines
/// sold in it are worth.
pub proof fn lemma_summary_total(es: Seq<RawEntryView>)
    requires
        group_by_payment_fits(es),
    ensures
        table_sum(group_by_payment(es), summary_items(group_by_payment(es)), summary_items(group_by_payment(es)).len() as int)
            == crate::receipts::entries_total(es),
{
    lemma_group_by_payment_distinct(es);
    lemma_sales_table_total(group_by_payment(es));
    lemma_group_by_payment_total(es);
}

/// How much of item `it` the lines paid with `p` hold in all.
pub open spec fn sold_with(es: Seq<RawEntryView>, p: Payment, it: ItemView) -> int
    decreases es.len(),
{
    if es.len() == 0 {
        0
    } else {
        sold_with(es.drop_last(), p, it) + (if es.last().3 == p && es.last().2 == it { es.last().1 as int } else { 0 })
    }
}

/// Whether `j` is the first of the lines paid with its payment method.
pub open spec fn first_with_payment(es: Seq<RawEntryView>, j: int) -> bool {
    forall|j2: int| 0 <= j2 < j ==> es[j2].3 != es[j].3
}

/// The receipt of a payment method has a line for the item of every line
/// paid with it, and the time of the first line paid with it.
pub open spec fn present_with(es: Seq<RawEntryView>, j: int) -> bool {
    let g = group_by_payment(es);
    &&& has_key(g, es[j].3)
    &&& has_key(g[key_index(g, es[j].3)].1.0, es[j].2)
    &&& first_with_payment(es, j) ==> g[key_index(g, es[j].3)].1.1 == es[j].0
}

proof fn lemma_group_by_payment_groups_distinct(es: Seq<RawEntryView>)
    requires
        group_by_payment_fits(es),
    ensures
        groups_distinct(group_by_payment(es)),
    decreases es.len(),
{
    if es.len() > 0 {
        let e = es.last();
        lemma_group_by_payment_groups_distinct(es.drop_last());
        lemma_group_step(group_by_payment(es.drop_last()), e.3, e.0, e.3, e.2, e.1, e.3, e.2);
    }
}

proof fn lemma_group_by_payment_own_payment(es: Seq<RawEntryView>)
    ensures
        forall|i: int| 0 <= i < group_by_payment(es).len() ==> (#[trigger] group_by_payment(es)[i]).1.2 == group_by_payment(es)[i].0,
    decreases es.len(),
{
    if es.len() > 0 {
        let e = es.last();
        lemma_group_by_payment_own_payment(es.drop_last());
        let g = group_by_payment(es.drop_last());
        let g2 = group_by_payment(es);
        if has_key(g, e.3) {
            let k = key_index(g, e.3);
            assert(g[k].0 == e.3);
            assert forall|i: int| 0 <= i < g2.len() implies (#[trigger] g2[i]).1.2 == g2[i].0 by {
                if i != k {
                    assert(g2[i] == g[i]);
                }
            }
        } else {
            assert forall|i: int| 0 <= i < g2.len() implies (#[trigger] g2[i]).1.2 == g2[i].0 by {
                if i < g.len() {
                    assert(g2[i] == g[i]);
                }
            }
        }
    }
}

proof fn lemma_group_by_payment_amounts(es: Seq<RawEntryView>)
    requires
        group_by_payment_fits(es),
    ensures
        forall|p: Payment, it: ItemView| #[trigger] amount_in(group_by_payment(es), p, it) == sold_with(es, p, it),
    decreases es.len(),
{
    if es.len() > 0 {
        let e = es.last();
        let xs = es.drop_last();
        lemma_group_by_payment_amounts(xs);
        lemma_group_by_payment_groups_distinct(xs);
        let g = group_by_payment(xs);
        assert forall|p: Payment, it: ItemView| #[trigger] amount_in(group_by_payment(es), p, it) == sold_with(es, p, it) by {
            lemma_group_step(g, e.3, e.0, e.3, e.2, e.1, p, it);
            assert(amount_in(g, p, it) == sold_with(xs, p, it));
        }
    } else {
        assert forall|p: Payment, it: ItemView| #[trigger] amount_in(group_by_payment(es), p, it) == sold_with(es, p, it) by {}
    }
}

proof fn lemma_group_by_payment_keys(es: Seq<RawEntryView>)
    ensures
        forall|p: Payment| #[trigger] has_key(group_by_payment(es), p) ==> exists|j: int| 0 <= j < es.len() && es[j].3 == p,
    decreases es.len(),
{
    if es.len() > 0 {
        let e = es.last();
        let xs = es.drop_last();
        let n = es.len() - 1;
        lemma_group_by_payment_keys(xs);
        let g = group_by_payment(xs);
        assert forall|p: Payment| #[trigger] has_key(group_by_payment(es), p) implies exists|j: int| 0 <= j < es.len() && es[j].3 == p by {
            let g2 = group_by_payment(es);
            let i = choose|i: int| 0 <= i < g2.len() && #[trigger] g2[i].0 == p;
            if p == e.3 {
                assert(es[n] == e);
            } else {
                if has_key(g, e.3) {
                    assert(g[key_index(g, e.3)].0 == e.3);
                    assert(g2[i] == g[i]);
                } else {
                    assert(i < g.len());
                    assert(g2[i] == g[i]);
                }
                assert(has_key(g, p));
                let j = choose|j: int| 0 <= j < xs.len() && xs[j].3 == p;
                assert(es[j] == xs[j]);
            }
        }
    } else {
        assert forall|p: Payment| #[trigger] has_key(group_by_payment(es), p) implies exists|j: int| 0 <= j < es.len() && es[j].3 == p by {}
    }
}

proof fn lemma_present_with_step(es: Seq<RawEntryView>, j: int)
    requires
        es.len() > 0,
        0 <= j < es.len(),
        group_by_payment_fits(es),
        groups_distinct(group_by_payment(es.drop_last())),
        j < es.len() - 1 ==> present_with(es.drop_last(), j),
    ensures
        present_with(es, j),
{
    let xs = es.drop_last();
    let e = es.last();
    let n = es.len() - 1;
    assert(es[n] == e);
    let g = group_by_payment(xs);
    lemma_group_step(g, e.3, e.0, e.3, e.2, e.1, es[j].3, es[j].2);
    if j < n {
        assert(es[j] == xs[j]);
        if first_with_payment(es, j) {
            assert forall|j2: int| 0 <= j2 < j implies xs[j2].3 != xs[j].3 by {
                assert(es[j2] == xs[j2]);
            }
            assert(first_with_payment(xs, j));
        }
    } else if first_with_payment(es, j) {
        lemma_group_by_payment_keys(xs);
        assert(!has_key(g, e.3)) by {
            if has_key(g, e.3) {
                let j2 = choose|j2: int| 0 <= j2 < xs.len() && xs[j2].3 == e.3;
                assert(es[j2] == xs[j2]);
            }
        }
    }
}

proof fn lemma_group_by_payment_present(es: Seq<RawEntryView>)
    requires
        group_by_payment_fits(es),
    ensures
        forall|j: int| 0 <= j < es.len() ==> #[trigger] present_with(es, j),
    decreases es.len(),
{
    if es.len() > 0 {
        let xs = es.drop_last();
        lemma_group_by_payment_present(xs);
        lemma_group_by_payment_groups_distinct(xs);
        assert forall|j: int| 0 <= j < es.len() implies #[trigger] present_with(es, j) by {
            if j < es.len() - 1 {
                assert(present_with(xs, j));
            }
            lemma_present_with_step(es, j);
        }
    }
}

/// Grouping sold lines by payment method keeps every line: there is one
/// receipt per payment method something was paid with, and no other; it
/// carries that method as its own, and the time of the first line paid
/// with it; it has a line for every item paid with it (also one sold for
/// nothing), and the amount of each item is the sum of the amounts of it
/// paid with that method.
pub proof fn lemma_group_by_payment_lines(es: Seq<RawEntryView>)
    requires
        group_by_payment_fits(es),
    ensures
        groups_distinct(group_by_payment(es)),
        forall|i: int| 0 <= i < group_by_payment(es).len() ==> (#[trigger] group_by_payment(es)[i]).1.2 == group_by_payment(es)[i].0,
        forall|p: Payment, it: ItemView| #[trigger] amount_in(group_by_payment(es), p, it) == sold_with(es, p, it),
        forall|p: Payment| #[trigger] has_key(group_by_payment(es), p) ==> exists|j: int| 0 <= j < es.len() && es[j].3 == p,
        forall|j: int| 0 <= j < es.len() ==> #[trigger] present_with(es, j),
{
    lemma_group_by_payment_groups_distinct(es);
    lemma_group_by_payment_own_payment(es);
    lemma_group_by_payment_amounts(es);
    lemma_group_by_payment_keys(es);
    lemma_group_by_payment_present(es);
}

proof fn lemma_first_seen_from(f: Seq<SoldView>, x: ItemView)
    requires
        first_seen(f).contains(x),
    ensures
        exists|p: int| 0 <= p < f.len() && #[trigger] f[p].1 == x,
    decreases f.len(),
{
    let g = f.drop_last();
    let seen = first_seen(g);
    let n = f.len() - 1;
    if seen.contains(x) {
        lemma_first_seen_from(g, x);
        let p = choose|p: int| 0 <= p < g.len() && #[trigger] g[p].1 == x;
        assert(f[p] == g[p]);
    } else {
        let q = choose|q: int| 0 <= q < first_seen(f).len() && first_seen(f)[q] == x;
        assert(first_seen(f) == seen.push(f.last().1));
        assert(q == seen.len());
        assert(f[n] == f.last());
        assert(f[n].1 == x);
    }
}

proof fn lemma_flat_sold_from(d: Seq<(Payment, ReceiptView)>, p: int) -> (ji: (int, int))
    requires
        0 <= p < flat_sold(d).len(),
    ensures
        0 <= ji.0 < d.len(),
        0 <= ji.1 < d[ji.0].1.0.len(),
        d[ji.0].1.0[ji.1].0 == flat_sold(d)[p].1,
    decreases d.len(),
{
    let prev = flat_sold(d.drop_last());
    let tail = receipt_sold(d.last().0, d.last().1.0);
    let n = d.len() - 1;
    assert(d[n] == d.last());
    if p < prev.len() {
        assert(flat_sold(d)[p] == prev[p]);
        let (j, i) = lemma_flat_sold_from(d.drop_last(), p);
        assert(d.drop_last()[j] == d[j]);
        (j, i)
    } else {
        let i = p - prev.len();
        assert(flat_sold(d)[p] == tail[i]);
        (n, i)
    }
}

/// The rows of a sales summary list every item sold, once each, and no
/// item that was not sold; the items sold by the piece come before those
/// sold by value.
pub proof fn lemma_summary_items(d: Seq<(Payment, ReceiptView)>)
    ensures
        summary_items(d).no_duplicates(),
        forall|j: int, i: int| 0 <= j < d.len() && 0 <= i < d[j].1.0.len() ==> summary_items(d).contains(#[trigger] d[j].1.0[i].0),
        forall|x: ItemView| #[trigger] summary_items(d).contains(x) ==> exists|j: int, i: int| 0 <= j < d.len() && 0 <= i < d[j].1.0.len() && d[j].1.0[i].0 == x,
        forall|a: int, b: int| 0 <= a < b < summary_items(d).len() && is_special_view(#[trigger] summary_items(d)[a]) ==> is_special_view(#[trigger] summary_items(d)[b]),
{
    let f = flat_sold(d);
    let fs = first_seen(f);
    let ks = summary_items(d);
    lemma_first_seen(f);
    lemma_specials_last(fs);
    assert forall|j: int, i: int| 0 <= j < d.len() && 0 <= i < d[j].1.0.len() implies ks.contains(#[trigger] d[j].1.0[i].0) by {
        let p = lemma_flat_sold_has(d, j, i);
        assert(fs.contains(f[p].1));
    }
    let pr = |k: ItemView| !is_special_view(k);
    let ps = |k: ItemView| is_special_view(k);
    let a = fs.filter(pr);
    let b = fs.filter(ps);
    assert(ks == a + b);
    assert forall|x: ItemView| #[trigger] ks.contains(x) implies exists|j: int, i: int| 0 <= j < d.len() && 0 <= i < d[j].1.0.len() && d[j].1.0[i].0 == x by {
        let q = choose|q: int| 0 <= q < ks.len() && ks[q] == x;
        if q < a.len() {
            assert(a[q] == x);
            fs.lemma_filter_contains_rev(pr, x);
        } else {
            assert(b[q - a.len()] == x);
            fs.lemma_filter_contains_rev(ps, x);
        }
        lemma_first_seen_from(f, x);
        let p = choose|p: int| 0 <= p < f.len() && #[trigger] f[p].1 == x;
        let (j, i) = lemma_flat_sold_from(d, p);
        assert(d[j].1.0[i].0 == x);
    }
    assert forall|x: int, y: int| 0 <= x < y < ks.len() && is_special_view(#[trigger] ks[x]) implies is_special_view(#[trigger] ks[y]) by {
        if x < a.len() {
            fs.lemma_filter_pred(pr, x);
            assert(ks[x] == a[x]);
        }
        if y >= a.len() {
            fs.lemma_filter_pred(ps, y - a.len());
            assert(ks[y] == b[y - a.len()]);
        }
    }
}

} // verus!
