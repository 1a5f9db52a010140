use vstd::prelude::*;
use indexmap::IndexMap;
use crate::items::{Item, ItemView};
use crate::lines::{
    recents_entries, recents_new, recents_insert,
    has_key, keys_distinct, key_index, map_put, receipt_entries, lines_new, lines_len, lines_get,
    lines_insert, lines_at,
};
use crate::text::str_equals;
use crate::time::Timestamp;

verus! {

/// How a receipt was paid.
#[derive(Debug, Clone, Copy, PartialEq, Eq, Hash, Structural)]
pub enum Payment {
    Cash,
    Swish,
    Paypal,
}

impl Default for Payment {
    /// Receipts are paid by Swish unless said otherwise.
    fn default() -> (p: Self)
        ensures
            p == Payment::Swish,
    {
        Payment::Swish
    }
}

/// The text a payment method is stored as in the database.
pub open spec fn payment_text(p: Payment) -> Seq<char> {
    match p {
        Payment::Cash => "cash"@,
        Payment::Swish => "swish"@,
        Payment::Paypal => "paypal"@,
    }
}

/// The payment method a stored text stands for, if any.
pub open spec fn payment_from_text(t: Seq<char>) -> Option<Payment> {
    if t == "cash"@ {
        Some(Payment::Cash)
    } else if t == "swish"@ {
        Some(Payment::Swish)
    } else if t == "paypal"@ {
        Some(Payment::Paypal)
    } else {
        None
    }
}

/// The name a payment method is shown by.
pub open spec fn payment_name(p: Payment) -> Seq<char> {
    match p {
        Payment::Cash => "Cash"@,
        Payment::Swish => "Swish"@,
        Payment::Paypal => "Paypal"@,
    }
}

impl Payment {
    /// Every payment method, in declaration order.
    pub fn variants() -> (v: [Payment; 3])
        ensures
            v@ == seq![Payment::Cash, Payment::Swish, Payment::Paypal],
    {
        [Payment::Cash, Payment::Swish, Payment::Paypal]
    }

    /// The text this payment method is stored as.
    pub fn sql_text(&self) -> (s: &'static str)
        ensures
            s@ == payment_text(*self),
    {
        match self {
            Payment::Cash => "cash",
            Payment::Swish => "swish",
            Payment::Paypal => "paypal",
        }
    }

    /// Reads a stored text back; `None` for any text that names no method.
    pub fn from_sql_text(t: &str) -> (r: Option<Payment>)
        ensures
            r == payment_from_text(t@),
    {
        if str_equals(t, "cash") {
            Some(Payment::Cash)
        } else if str_equals(t, "swish") {
            Some(Payment::Swish)
        } else if str_equals(t, "paypal") {
            Some(Payment::Paypal)
        } else {
            None
        }
    }

    /// The name this payment method is shown by.
    pub fn to_string(&self) -> (s: String)
        ensures
            s@ == payment_name(*self),
    {
        match self {
            Payment::Cash => String::from_str("Cash"),
            Payment::Swish => String::from_str("Swish"),
            Payment::Paypal => String::from_str("Paypal"),
        }
    }
}

/// The texts payment methods are stored as are the database's fixed ones:
/// `cash`, `swish` and `paypal`, each read back as its method and nothing
/// else read back at all; they are shown as `Cash`, `Swish` and `Paypal`.
pub proof fn lemma_payment_stored_texts(t: Seq<char>)
    ensures
        payment_text(Payment::Cash) == seq!['c', 'a', 's', 'h'],
        payment_text(Payment::Swish) == seq!['s', 'w', 'i', 's', 'h'],
        payment_text(Payment::Paypal) == seq!['p', 'a', 'y', 'p', 'a', 'l'],
        payment_from_text(seq!['c', 'a', 's', 'h']) == Some(Payment::Cash),
        payment_from_text(seq!['s', 'w', 'i', 's', 'h']) == Some(Payment::Swish),
        payment_from_text(seq!['p', 'a', 'y', 'p', 'a', 'l']) == Some(Payment::Paypal),
        t != seq!['c', 'a', 's', 'h'] && t != seq!['s', 'w', 'i', 's', 'h'] && t != seq!['p', 'a', 'y', 'p', 'a', 'l'] ==> payment_from_text(t) is None,
        payment_name(Payment::Cash) == seq!['C', 'a', 's', 'h'],
        payment_name(Payment::Swish) == seq!['S', 'w', 'i', 's', 'h'],
        payment_name(Payment::Paypal) == seq!['P', 'a', 'y', 'p', 'a', 'l'],
{
    reveal_strlit("cash");
    reveal_strlit("swish");
    reveal_strlit("paypal");
    reveal_strlit("Cash");
    reveal_strlit("Swish");
    reveal_strlit("Paypal");
    assert("cash"@ =~= seq!['c', 'a', 's', 'h']);
    assert("swish"@ =~= seq!['s', 'w', 'i', 's', 'h']);
    assert("paypal"@ =~= seq!['p', 'a', 'y', 'p', 'a', 'l']);
    assert("Cash"@ =~= seq!['C', 'a', 's', 'h']);
    assert("Swish"@ =~= seq!['S', 'w', 'i', 's', 'h']);
    assert("Paypal"@ =~= seq!['P', 'a', 'y', 'p', 'a', 'l']);
}

/// Every payment method reads back as itself from the text it is stored as.
pub proof fn lemma_payment_text_round_trip(p: Payment)
    ensures
        payment_from_text(payment_text(p)) == Some(p),
{
    reveal_strlit("cash");
    reveal_strlit("swish");
    reveal_strlit("paypal");
    assert("swish"@.len() != "cash"@.len());
    assert("paypal"@.len() != "cash"@.len());
    assert("paypal"@.len() != "swish"@.len());
}

/// The worth of one line of a receipt: unit price times amount.
pub open spec fn line_value(l: (ItemView, i32)) -> int {
    l.0.1 * l.1
}

/// The worth of all lines.
pub open spec fn lines_total(s: Seq<(ItemView, i32)>) -> int
    decreases s.len(),
{
    if s.len() == 0 {
        0
    } else {
        lines_total(s.drop_last()) + line_value(s.last())
    }
}

/// Each line's worth, and the running total after each line, fit in an `i32`.
pub open spec fn total_fits(s: Seq<(ItemView, i32)>) -> bool {
    &&& forall|i: int| 0 <= i < s.len() ==> i32::MIN <= #[trigger] line_value(s[i]) <= i32::MAX
    &&& forall|k: int| 0 <= k <= s.len() ==> i32::MIN <= #[trigger] lines_total(s.take(k)) <= i32::MAX
}

/// The amount of item `k` on the lines, 0 where the item is absent.
pub open spec fn amount_of(s: Seq<(ItemView, i32)>, k: ItemView) -> int {
    if has_key(s, k) {
        s[key_index(s, k)].1 as int
    } else {
        0
    }
}

/// The lines after `a` more of item `k` are added.
pub open spec fn add_amount(s: Seq<(ItemView, i32)>, k: ItemView, a: i32) -> Seq<(ItemView, i32)> {
    map_put(s, k, (amount_of(s, k) + a) as i32)
}

/// The view of a receipt: its lines (item and amount, in order of first
/// insertion), its time, its payment method.
pub type ReceiptView = (Seq<(ItemView, i32)>, Timestamp, Payment);

/// A receipt: the amounts sold of each item, when, and how it was paid.
#[derive(Debug)]
pub struct Receipt {
    items: IndexMap<Item, i32>,
    time: Timestamp,
    payment: Payment,
}

impl View for Receipt {
    type V = ReceiptView;

    closed spec fn view(&self) -> ReceiptView {
        (receipt_entries(self.items), self.time, self.payment)
    }
}

impl Default for Receipt {
    /// An empty receipt at the epoch, paid by Swish.
    fn default() -> (r: Self)
        ensures
            r@ == (Seq::<(ItemView, i32)>::empty(), Timestamp { secs: 0, nanos: 0 }, Payment::Swish),
            r.wf(),
    {
        Receipt { items: lines_new(), time: Timestamp { secs: 0, nanos: 0 }, payment: Payment::Swish }
    }
}

impl Clone for Receipt {
    /// A copy of the receipt, line by line.
    fn clone(&self) -> (c: Self)
        ensures
            self.wf() ==> c@ == self@ && c.wf(),
    {
        let ghost s = self@.0;
        let n = lines_len(&self.items);
        let mut items = lines_new();
        let mut i: usize = 0;
        while i < n
            invariant
                n == s.len(),
                s == self@.0,
                i <= n,
                keys_distinct(s) ==> receipt_entries(items) == s.take(i as int),
            decreases n - i,
        {
            let (item, amount) = lines_at(&self.items, i);
            let ghost t = receipt_entries(items);
            lines_insert(&mut items, item.clone(), amount);
            proof {
                if keys_distinct(s) {
                    if has_key(t, item@) {
                        let j = choose|j: int| 0 <= j < t.len() && #[trigger] t[j].0 == item@;
                        assert(s[j].0 == s[i as int].0);
                    }
                    assert(receipt_entries(items) =~= s.take(i + 1));
                }
            }
            i = i + 1;
        }
        assert(s.take(n as int) =~= s);
        Receipt { items, time: self.time, payment: self.payment }
    }
}

impl Receipt {
    /// No item occurs on two lines.
    pub open spec fn wf(&self) -> bool {
        keys_distinct(self@.0)
    }

    /// An empty receipt with the given time and payment method.
    pub fn new(time: Timestamp, payment: Payment) -> (r: Self)
        ensures
            r@ == (Seq::<(ItemView, i32)>::empty(), time, payment),
            r.wf(),
    {
        Receipt { items: lines_new(), time, payment }
    }

    /// The receipt with its time set to `time`.
    pub fn with_time(self, time: Timestamp) -> (r: Self)
        ensures
            r@ == (self@.0, time, self@.2),
    {
        Receipt { time, ..self }
    }

    /// The receipt with its payment method set to `payment`.
    pub fn with_payment(self, payment: Payment) -> (r: Self)
        ensures
            r@ == (self@.0, self@.1, payment),
    {
        Receipt { payment, ..self }
    }

    /// The receipt's time.
    pub fn time(&self) -> (t: Timestamp)
        ensures
            t == self@.1,
    {
        self.time
    }

    /// The receipt's payment method.
    pub fn payment(&self) -> (p: Payment)
        ensures
            p == self@.2,
    {
        self.payment
    }

    /// Adds `amount` of `item`: to its line where the item is on the
    /// receipt already, on a new last line otherwise.
    pub fn insert(&mut self, item: Item, amount: i32)
        requires
            old(self).wf(),
            fits_amount(old(self)@.0, item@, amount),
        ensures
            final(self).wf(),
            final(self)@ == (add_amount(old(self)@.0, item@, amount), old(self)@.1, old(self)@.2),
    {
        let ghost s = receipt_entries(self.items);
        let ghost k = item@;
        let cur = lines_get(&self.items, &item);
        let new_amount = match cur {
            Some(v) => {
                proof {
                    let j = choose|j: int| 0 <= j < s.len() && s[j] == (k, v);
                    assert(s[j].0 == k);
                    assert(s[key_index(s, k)].0 == k);
                }
                v + amount
            },
            None => amount,
        };
        lines_insert(&mut self.items, item, new_amount);
        proof {
            let t = receipt_entries(self.items);
            if has_key(s, k) {
                let i = choose|i: int| 0 <= i < s.len() && s[i].0 == k
                    && t == s.update(i, (k, new_amount));
                assert(s[key_index(s, k)].0 == k);
                assert(i == key_index(s, k));
                assert(t =~= add_amount(s, k, amount));
                assert forall|a: int, b: int| 0 <= a < t.len() && 0 <= b < t.len() && #[trigger] t[a].0 == #[trigger] t[b].0 implies a == b by {
                    assert(s[a].0 == t[a].0 || a == i);
                    assert(s[b].0 == t[b].0 || b == i);
                }
            } else {
                assert(t =~= add_amount(s, k, amount));
                assert forall|a: int, b: int| 0 <= a < t.len() && 0 <= b < t.len() && #[trigger] t[a].0 == #[trigger] t[b].0 implies a == b by {
                    if a < s.len() && b < s.len() {
                        assert(s[a].0 == s[b].0);
                    } else if a < s.len() {
                        assert(s[a].0 == k);
                    } else if b < s.len() {
                        assert(s[b].0 == k);
                    }
                }
            }
        }
    }

    /// The amount of `item` on the receipt, if it is on it.
    pub fn amount_of(&self, item: &Item) -> (r: Option<i32>)
        requires
            self.wf(),
        ensures
            r == (if has_key(self@.0, item@) {
                Some(self@.0[key_index(self@.0, item@)].1)
            } else {
                None::<i32>
            }),
    {
        let r = lines_get(&self.items, item);
        proof {
            let s = self@.0;
            if let Some(v) = r {
                let j = choose|j: int| 0 <= j < s.len() && s[j] == (item@, v);
                assert(s[j].0 == item@);
                assert(s[key_index(s, item@)].0 == item@);
            }
        }
        r
    }

    /// Whether the receipt has no lines.
    pub fn is_empty(&self) -> (b: bool)
        ensures
            b == (self@.0.len() == 0),
    {
        lines_len(&self.items) == 0
    }

    /// The number of lines.
    pub fn len(&self) -> (n: usize)
        ensures
            n == self@.0.len(),
    {
        lines_len(&self.items)
    }

    /// The item and amount on line `i`.
    pub fn line(&self, i: usize) -> (pair: (&Item, i32))
        requires
            i < self@.0.len(),
        ensures
            (pair.0@, pair.1) == self@.0[i as int],
    {
        lines_at(&self.items, i)
    }

    /// The receipt's total: the sum over its lines of unit price times amount.
    pub fn sum(&self) -> (total: i32)
        requires
            total_fits(self@.0),
        ensures
            total == lines_total(self@.0),
    {
        let ghost s = self@.0;
        let n = lines_len(&self.items);
        let mut acc: i32 = 0;
        let mut i: usize = 0;
        assert(s.take(0) =~= Seq::<(ItemView, i32)>::empty());
        while i < n
            invariant
                n == s.len(),
                s == self@.0,
                total_fits(s),
                i <= n,
                acc == lines_total(s.take(i as int)),
            decreases n - i,
        {
            let (item, amount) = lines_at(&self.items, i);
            assert(s.take(i + 1).drop_last() =~= s.take(i as int));
            assert(s.take(i + 1).last() == s[i as int]);
            assert(i32::MIN <= line_value(s[i as int]) <= i32::MAX);
            assert(i32::MIN <= lines_total(s.take(i + 1)) <= i32::MAX);
            let v = *item.price() * amount;
            acc = acc + v;
            i = i + 1;
        }
        assert(s.take(n as int) =~= s);
        acc
    }
}

} // verus!

verus! {

/// One sold line as read back from the database: when, how many, what, and
/// how it was paid.
#[derive(Debug)]
pub struct RawEntry {
    pub time: Timestamp,
    pub amount: i32,
    pub item: Item,
    pub payment: Payment,
}

/// The view of a sold line: time, amount, item, payment method.
pub type RawEntryView = (Timestamp, i32, ItemView, Payment);

impl View for RawEntry {
    type V = RawEntryView;

    open spec fn view(&self) -> RawEntryView {
        (self.time, self.amount, self.item@, self.payment)
    }
}

impl RawEntry {
    /// Builds a sold line from the columns of a row: a row without a time
    /// counts as sold at the epoch, one without a payment method as paid by
    /// Swish.
    pub fn from_row(time: Option<Timestamp>, amount: i32, item: Item, payment: Option<Payment>) -> (e: RawEntry)
        ensures
            e@ == (
                match time {
                    Some(t) => t,
                    None => Timestamp { secs: 0, nanos: 0 },
                },
                amount,
                item@,
                match payment {
                    Some(p) => p,
                    None => Payment::Swish,
                },
            ),
    {
        RawEntry {
            time: match time {
                Some(t) => t,
                None => Timestamp::default(),
            },
            amount,
            item,
            payment: match payment {
                Some(p) => p,
                None => Payment::default(),
            },
        }
    }
}

/// A receipt view with `a` more of item `k`.
pub open spec fn receipt_add(r: ReceiptView, k: ItemView, a: i32) -> ReceiptView {
    (add_amount(r.0, k, a), r.1, r.2)
}

/// The receipt a group starts from: the one already grouped under `key`
/// where there is one, otherwise an empty one with the given time and payment.
pub open spec fn group_base<K>(g: Seq<(K, ReceiptView)>, key: K, time: Timestamp, payment: Payment) -> ReceiptView {
    if has_key(g, key) {
        g[key_index(g, key)].1
    } else {
        (Seq::<(ItemView, i32)>::empty(), time, payment)
    }
}

/// Sold lines grouped into receipts by their time, in order of first
/// appearance: each line is added to the receipt of its time, and a receipt
/// takes the payment method of its first line.
pub open spec fn group_by_time(es: Seq<RawEntryView>) -> Seq<(Timestamp, ReceiptView)>
    decreases es.len(),
{
    if es.len() == 0 {
        Seq::empty()
    } else {
        let g = group_by_time(es.drop_last());
        let e = es.last();
        map_put(g, e.0, receipt_add(group_base(g, e.0, e.0, e.3), e.2, e.1))
    }
}

/// No amount overflows an `i32` while the lines are grouped by time.
pub open spec fn group_by_time_fits(es: Seq<RawEntryView>) -> bool
    decreases es.len(),
{
    if es.len() == 0 {
        true
    } else {
        let g = group_by_time(es.drop_last());
        let e = es.last();
        &&& group_by_time_fits(es.drop_last())
        &&& i32::MIN <= amount_of(group_base(g, e.0, e.0, e.3).0, e.2) + e.1 <= i32::MAX
    }
}

/// A key that receipts are grouped under.
pub trait GroupKey: Copy {
    /// Whether two keys are the same.
    fn same(&self, other: &Self) -> (b: bool)
        ensures
            b == (*self == *other);
}

impl GroupKey for Timestamp {
    fn same(&self, other: &Self) -> (b: bool) {
        *self == *other
    }
}

impl GroupKey for Payment {
    fn same(&self, other: &Self) -> (b: bool) {
        *self == *other
    }
}

/// The views of keyed receipts.
pub open spec fn keyed_view<K>(v: Seq<(K, Receipt)>) -> Seq<(K, ReceiptView)> {
    v.map_values(|p: (K, Receipt)| (p.0, p.1@))
}

/// Every receipt is well formed.
pub open spec fn all_wf<K>(v: Seq<(K, Receipt)>) -> bool {
    forall|i: int| 0 <= i < v.len() ==> (#[trigger] v[i]).1.wf()
}

/// Adds `amount` of `item` to the receipt kept under `key`, making a new
/// receipt with `time` and `payment` where there is none yet.
pub(crate) fn add_to_group<K: GroupKey>(
    acc: &mut Vec<(K, Receipt)>,
    key: K,
    time: Timestamp,
    payment: Payment,
    item: Item,
    amount: i32,
)
    requires
        keys_distinct(keyed_view(old(acc)@)),
        all_wf(old(acc)@),
        i32::MIN <= amount_of(group_base(keyed_view(old(acc)@), key, time, payment).0, item@) + amount <= i32::MAX,
    ensures
        keys_distinct(keyed_view(final(acc)@)),
        all_wf(final(acc)@),
        keyed_view(final(acc)@) == map_put(
            keyed_view(old(acc)@),
            key,
            receipt_add(group_base(keyed_view(old(acc)@), key, time, payment), item@, amount),
        ),
{
    let ghost g = keyed_view(acc@);
    let n = acc.len();
    let mut j: usize = 0;
    while j < n
        invariant
            n == acc@.len(),
            j <= n,
            forall|x: int| 0 <= x < j ==> acc@[x].0 != key,
        ensures
            j <= n,
            j < n ==> acc@[j as int].0 == key,
            forall|x: int| 0 <= x < j ==> acc@[x].0 != key,
        decreases n - j,
    {
        if acc[j].0.same(&key) {
            break;
        }
        j = j + 1;
    }
    if j < n {
        assert(g[j as int].0 == key);
        assert(has_key(g, key));
        assert(g[key_index(g, key)].0 == key);
        assert(key_index(g, key) == j);
        let (k, mut r) = acc.remove(j);
        r.insert(item, amount);
        acc.insert(j, (k, r));
        assert(keyed_view(acc@) =~= g.update(j as int, (key, receipt_add(g[j as int].1, item@, amount))));
        assert forall|a: int, b: int| 0 <= a < keyed_view(acc@).len() && 0 <= b < keyed_view(acc@).len()
            && #[trigger] keyed_view(acc@)[a].0 == #[trigger] keyed_view(acc@)[b].0 implies a == b by {
            assert(keyed_view(acc@)[a].0 == g[a].0);
            assert(keyed_view(acc@)[b].0 == g[b].0);
        }
        assert forall|x: int| 0 <= x < acc@.len() implies (#[trigger] acc@[x]).1.wf() by {
            if x != j {
                assert(acc@[x] == old(acc)@[x]);
            }
        }
    } else {
        assert(!has_key(g, key)) by {
            if has_key(g, key) {
                let x = choose|x: int| 0 <= x < g.len() && #[trigger] g[x].0 == key;
                assert(acc@[x].0 == key);
            }
        }
        let mut r = Receipt::new(time, payment);
        r.insert(item, amount);
        acc.push((key, r));
        assert(keyed_view(acc@) =~= g.push((key, receipt_add((Seq::<(ItemView, i32)>::empty(), time, payment), item@, amount))));
        assert forall|a: int, b: int| 0 <= a < keyed_view(acc@).len() && 0 <= b < keyed_view(acc@).len()
            && #[trigger] keyed_view(acc@)[a].0 == #[trigger] keyed_view(acc@)[b].0 implies a == b by {
            if a < n && b < n {
                assert(keyed_view(acc@)[a].0 == g[a].0);
                assert(keyed_view(acc@)[b].0 == g[b].0);
            } else if a < n {
                assert(acc@[a].0 == old(acc)@[a].0);
            } else if b < n {
                assert(acc@[b].0 == old(acc)@[b].0);
            }
        }
        assert forall|x: int| 0 <= x < acc@.len() implies (#[trigger] acc@[x]).1.wf() by {
            if x < n {
                assert(acc@[x] == old(acc)@[x]);
            }
        }
    }
}

} // verus!

verus! {

/// Every prefix of lines that group without overflow groups without overflow.
pub proof fn lemma_group_by_time_fits_prefix(es: Seq<RawEntryView>, k: int)
    requires
        group_by_time_fits(es),
        0 <= k <= es.len(),
    ensures
        group_by_time_fits(es.take(k)),
    decreases es.len() - k,
{
    if k < es.len() {
        lemma_group_by_time_fits_prefix(es, k + 1);
        assert(es.take(k + 1).drop_last() =~= es.take(k));
    } else {
        assert(es.take(k) =~= es);
    }
}

/// Moves receipts kept in a vector into a map, in order; the keys are distinct.
fn keyed_into_recents(acc: Vec<(Timestamp, Receipt)>) -> (m: IndexMap<Timestamp, Receipt>)
    requires
        keys_distinct(keyed_view(acc@)),
        all_wf(acc@),
    ensures
        recents_entries(m) == keyed_view(acc@),
        keys_distinct(recents_entries(m)),
        forall|i: int| 0 <= i < recents_entries(m).len() ==> keys_distinct((#[trigger] recents_entries(m)[i]).1.0),
{
    let ghost orig = keyed_view(acc@);
    let ghost acc0 = acc;
    let mut acc = acc;
    let mut m = recents_new();
    let n = acc.len();
    let mut i: usize = 0;
    while i < n
        invariant
            n == orig.len(),
            i <= n,
            keys_distinct(orig),
            keyed_view(acc@) == orig.skip(i as int),
            recents_entries(m) == orig.take(i as int),
        decreases n - i,
    {
        let ghost before = recents_entries(m);
        assert(acc@.len() == keyed_view(acc@).len());
        assert(keyed_view(acc@)[0] == orig[i as int]);
        assert(acc@[0].0 == orig[i as int].0);
        let ghost prev = acc@;
        let (k, r) = acc.remove(0);
        assert(acc@ == prev.remove(0));
        assert forall|x: int| 0 <= x < acc@.len() implies #[trigger] keyed_view(acc@)[x] == orig.skip(i + 1)[x] by {
            assert(acc@[x] == prev[x + 1]);
            assert(keyed_view(prev)[x + 1] == orig.skip(i as int)[x + 1]);
        }
        assert(before == orig.take(i as int));
        assert(!has_key(before, k)) by {
            if has_key(before, k) {
                let x = choose|x: int| 0 <= x < before.len() && #[trigger] before[x].0 == k;
                assert(orig[x].0 == orig[i as int].0);
            }
        }
        recents_insert(&mut m, k, r);
        assert(recents_entries(m) =~= orig.take(i + 1));
        assert(keyed_view(acc@) =~= orig.skip(i + 1));
        i = i + 1;
    }
    assert(orig.take(n as int) =~= orig);
    assert forall|x: int| 0 <= x < recents_entries(m).len() implies keys_distinct((#[trigger] recents_entries(m)[x]).1.0) by {
        assert(acc0@[x].1.wf());
    }
    m
}

impl Receipt {
    /// Groups sold lines read back from the database into receipts, keyed by
    /// time in order of first appearance (see `group_by_time`).
    pub fn get_recents(entries: Vec<RawEntry>) -> (m: IndexMap<Timestamp, Receipt>)
        requires
            group_by_time_fits(entries@.map_values(|e: RawEntry| e@)),
        ensures
            recents_entries(m) == group_by_time(entries@.map_values(|e: RawEntry| e@)),
            keys_distinct(recents_entries(m)),
            forall|i: int| 0 <= i < recents_entries(m).len() ==> keys_distinct((#[trigger] recents_entries(m)[i]).1.0),
    {
        let ghost es = entries@.map_values(|e: RawEntry| e@);
        let mut acc: Vec<(Timestamp, Receipt)> = Vec::new();
        let n = entries.len();
        let mut i: usize = 0;
        assert(keyed_view(acc@) =~= group_by_time(es.take(0)));
        while i < n
            invariant
                n == es.len(),
                es == entries@.map_values(|e: RawEntry| e@),
                group_by_time_fits(es),
                i <= n,
                keys_distinct(keyed_view(acc@)),
                all_wf(acc@),
                keyed_view(acc@) == group_by_time(es.take(i as int)),
            decreases n - i,
        {
            let e = &entries[i];
            proof {
                lemma_group_by_time_fits_prefix(es, i + 1);
                assert(es.take(i + 1).drop_last() =~= es.take(i as int));
                assert(es.take(i + 1).last() == es[i as int]);
                assert(es[i as int] == e@);
            }
            add_to_group(&mut acc, e.time, e.time, e.payment, e.item.clone(), e.amount);
            i = i + 1;
        }
        assert(es.take(n as int) =~= es);
        keyed_into_recents(acc)
    }
}

} // verus!

verus! {

/// Changing one line changes the total by the difference of the two lines.
pub proof fn lemma_lines_total_update(s: Seq<(ItemView, i32)>, i: int, l: (ItemView, i32))
    requires
        0 <= i < s.len(),
    ensures
        lines_total(s.update(i, l)) == lines_total(s) - line_value(s[i]) + line_value(l),
    decreases s.len(),
{
    let t = s.update(i, l);
    if i == s.len() - 1 {
        assert(t.drop_last() =~= s.drop_last());
    } else {
        lemma_lines_total_update(s.drop_last(), i, l);
        assert(t.drop_last() =~= s.drop_last().update(i, l));
    }
}

/// Adding `a` of an item to a receipt raises its total by the item's price
/// times `a`.
pub proof fn lemma_insert_total(s: Seq<(ItemView, i32)>, k: ItemView, a: i32)
    requires
        fits_amount(s, k, a),
    ensures
        lines_total(add_amount(s, k, a)) == lines_total(s) + k.1 * a,
{
    if has_key(s, k) {
        let i = key_index(s, k);
        assert(s[i].0 == k);
        lemma_lines_total_update(s, i, (k, (amount_of(s, k) + a) as i32));
        assert(k.1 * (s[i].1 + a) == k.1 * s[i].1 + k.1 * a) by (nonlinear_arith);
    } else {
        assert(add_amount(s, k, a).drop_last() =~= s);
    }
}

/// Adding `a` of an item does not overflow its amount.
pub open spec fn fits_amount(s: Seq<(ItemView, i32)>, k: ItemView, a: i32) -> bool {
    i32::MIN <= amount_of(s, k) + a <= i32::MAX
}

/// Adding `a` and then `b` of an item is adding `a + b` of it at once.
pub proof fn lemma_insert_twice(s: Seq<(ItemView, i32)>, k: ItemView, a: i32, b: i32)
    requires
        keys_distinct(s),
        fits_amount(s, k, a),
        fits_amount(add_amount(s, k, a), k, b),
        i32::MIN <= a + b <= i32::MAX,
    ensures
        add_amount(add_amount(s, k, a), k, b) == add_amount(s, k, (a + b) as i32),
{
    let t = add_amount(s, k, a);
    assert(has_key(t, k)) by {
        if has_key(s, k) {
            assert(s[key_index(s, k)].0 == k);
            assert(t[key_index(s, k)].0 == k);
        } else {
            assert(t[s.len() as int].0 == k);
        }
    }
    assert(t[key_index(t, k)].0 == k);
    if has_key(s, k) {
        let i = key_index(s, k);
        assert(s[i].0 == k);
        let j = key_index(t, k);
        assert(j == i) by {
            if j != i {
                assert(t[j] == s[j]);
            }
        }
    } else {
        let j = key_index(t, k);
        assert(j == s.len()) by {
            if j != s.len() {
                assert(t[j] == s[j]);
            }
        }
    }
    assert(add_amount(t, k, b) =~= add_amount(s, k, (a + b) as i32));
}

} // verus!

verus! {

/// What all grouped receipts are worth together.
pub open spec fn groups_total<K>(g: Seq<(K, ReceiptView)>) -> int
    decreases g.len(),
{
    if g.len() == 0 {
        0
    } else {
        groups_total(g.drop_last()) + lines_total(g.last().1.0)
    }
}

/// What all sold lines are worth together: price times amount, summed.
pub open spec fn entries_total(es: Seq<RawEntryView>) -> int
    decreases es.len(),
{
    if es.len() == 0 {
        0
    } else {
        entries_total(es.drop_last()) + es.last().2.1 * es.last().1
    }
}

proof fn lemma_groups_total_update<K>(g: Seq<(K, ReceiptView)>, i: int, x: (K, ReceiptView))
    requires
        0 <= i < g.len(),
    ensures
        groups_total(g.update(i, x)) == groups_total(g) - lines_total(g[i].1.0) + lines_total(x.1.0),
    decreases g.len(),
{
    let t = g.update(i, x);
    if i == g.len() - 1 {
        assert(t.drop_last() =~= g.drop_last());
    } else {
        lemma_groups_total_update(g.drop_last(), i, x);
        assert(t.drop_last() =~= g.drop_last().update(i, x));
    }
}

/// Adding a line to the receipt of its group raises the groups' worth by
/// what the line is worth.
pub(crate) proof fn lemma_group_step_total<K>(g: Seq<(K, ReceiptView)>, key: K, time: Timestamp, payment: Payment, k: ItemView, a: i32)
    requires
        fits_amount(group_base(g, key, time, payment).0, k, a),
    ensures
        groups_total(map_put(g, key, receipt_add(group_base(g, key, time, payment), k, a))) == groups_total(g) + k.1 * a,
{
    let base = group_base(g, key, time, payment);
    lemma_insert_total(base.0, k, a);
    if has_key(g, key) {
        lemma_groups_total_update(g, key_index(g, key), (key, receipt_add(base, k, a)));
    } else {
        let t = g.push((key, receipt_add(base, k, a)));
        assert(t.drop_last() =~= g);
        assert(lines_total(Seq::<(ItemView, i32)>::empty()) == 0);
    }
}

/// Grouping sold lines into receipts by time loses and adds nothing: the
/// receipts are worth what the lines are.
pub proof fn lemma_group_by_time_total(es: Seq<RawEntryView>)
    requires
        group_by_time_fits(es),
    ensures
        groups_total(group_by_time(es)) == entries_total(es),
    decreases es.len(),
{
    if es.len() > 0 {
        lemma_group_by_time_total(es.drop_last());
        let e = es.last();
        lemma_group_step_total(group_by_time(es.drop_last()), e.0, e.0, e.3, e.2, e.1);
    }
}

/// Adding `a` of item `k` changes the amount of `k` by `a` and of no other
/// item; `k` is then on the lines, and so is every item that was.
pub proof fn lemma_add_amount_lookup(s: Seq<(ItemView, i32)>, k: ItemView, a: i32, k2: ItemView)
    requires
        keys_distinct(s),
        fits_amount(s, k, a),
    ensures
        keys_distinct(add_amount(s, k, a)),
        has_key(add_amount(s, k, a), k2) == (k2 == k || has_key(s, k2)),
        amount_of(add_amount(s, k, a), k2) == amount_of(s, k2) + (if k2 == k { a as int } else { 0 }),
{
    crate::lines::lemma_map_put_keys_distinct(s, k, (amount_of(s, k) + a) as i32);
    crate::lines::lemma_map_put_lookup(s, k, (amount_of(s, k) + a) as i32, k2);
}

/// The amount of item `it` on the receipt kept under `p`, 0 where there is
/// none.
pub open spec fn amount_in<K>(g: Seq<(K, ReceiptView)>, p: K, it: ItemView) -> int {
    if has_key(g, p) {
        amount_of(g[key_index(g, p)].1.0, it)
    } else {
        0
    }
}

/// No key occurs twice, and no receipt holds an item twice.
pub open spec fn groups_distinct<K>(g: Seq<(K, ReceiptView)>) -> bool {
    &&& keys_distinct(g)
    &&& forall|j: int| 0 <= j < g.len() ==> keys_distinct(#[trigger] g[j].1.0)
}

/// Adding `a` of `item` to the receipt under `key`: that receipt is there
/// afterwards (new, with `time` and `payment`, where there was none), its
/// amount of `item` grows by `a`, and nothing else changes.
pub proof fn lemma_group_step<K>(
    g: Seq<(K, ReceiptView)>,
    key: K,
    time: Timestamp,
    payment: Payment,
    item: ItemView,
    a: i32,
    p: K,
    it: ItemView,
)
    requires
        groups_distinct(g),
        fits_amount(group_base(g, key, time, payment).0, item, a),
    ensures
        ({
            let g2 = map_put(g, key, receipt_add(group_base(g, key, time, payment), item, a));
            &&& groups_distinct(g2)
            &&& has_key(g2, p) == (p == key || has_key(g, p))
            &&& amount_in(g2, p, it) == amount_in(g, p, it) + (if p == key && it == item { a as int } else { 0 })
            &&& has_key(g2, p) ==> has_key(g2[key_index(g2, p)].1.0, it) == ((p == key && it == item) || (has_key(g, p)
                && has_key(g[key_index(g, p)].1.0, it)))
            &&& has_key(g2, p) && p != key ==> g2[key_index(g2, p)].1 == g[key_index(g, p)].1
            &&& has_key(g2, p) && p == key ==> g2[key_index(g2, p)].1.1 == group_base(g, key, time, payment).1
                && g2[key_index(g2, p)].1.2 == group_base(g, key, time, payment).2
        }),
{
    let base = group_base(g, key, time, payment);
    let nr = receipt_add(base, item, a);
    let g2 = map_put(g, key, nr);
    if has_key(g, key) {
        assert(keys_distinct(g[key_index(g, key)].1.0));
    }
    assert(keys_distinct(base.0));
    lemma_add_amount_lookup(base.0, item, a, it);
    crate::lines::lemma_map_put_keys_distinct(g, key, nr);
    crate::lines::lemma_map_put_lookup(g, key, nr, p);
    assert forall|j: int| 0 <= j < g2.len() implies keys_distinct(#[trigger] g2[j].1.0) by {
        if has_key(g, key) {
            if j != key_index(g, key) {
                assert(g2[j] == g[j]);
            }
        } else if j < g.len() {
            assert(g2[j] == g[j]);
        }
    }
    if has_key(g, p) {
        assert(keys_distinct(g[key_index(g, p)].1.0));
    }
}

/// How much of item `it` the lines sold at time `t` hold in all.
pub open spec fn sold_at(es: Seq<RawEntryView>, t: Timestamp, it: ItemView) -> int
    decreases es.len(),
{
    if es.len() == 0 {
        0
    } else {
        sold_at(es.drop_last(), t, it) + (if es.last().0 == t && es.last().2 == it { es.last().1 as int } else { 0 })
    }
}

/// Whether `j` is the first of the lines sold at its time.
pub open spec fn first_at_time(es: Seq<RawEntryView>, j: int) -> bool {
    forall|j2: int| 0 <= j2 < j ==> es[j2].0 != es[j].0
}

proof fn lemma_group_by_time_distinct(es: Seq<RawEntryView>)
    requires
        group_by_time_fits(es),
    ensures
        groups_distinct(group_by_time(es)),
    decreases es.len(),
{
    if es.len() > 0 {
        let e = es.last();
        lemma_group_by_time_distinct(es.drop_last());
        lemma_group_step(group_by_time(es.drop_last()), e.0, e.0, e.3, e.2, e.1, e.0, e.2);
    }
}

proof fn lemma_group_by_time_own_time(es: Seq<RawEntryView>)
    ensures
        forall|i: int| 0 <= i < group_by_time(es).len() ==> (#[trigger] group_by_time(es)[i]).1.1 == group_by_time(es)[i].0,
    decreases es.len(),
{
    if es.len() > 0 {
        let e = es.last();
        lemma_group_by_time_own_time(es.drop_last());
        let g = group_by_time(es.drop_last());
        let g2 = group_by_time(es);
        if has_key(g, e.0) {
            let k = key_index(g, e.0);
            assert(g[k].0 == e.0);
            assert forall|i: int| 0 <= i < g2.len() implies (#[trigger] g2[i]).1.1 == g2[i].0 by {
                if i != k {
                    assert(g2[i] == g[i]);
                }
            }
        } else {
            assert forall|i: int| 0 <= i < g2.len() implies (#[trigger] g2[i]).1.1 == g2[i].0 by {
                if i < g.len() {
                    assert(g2[i] == g[i]);
                }
            }
        }
    }
}

proof fn lemma_group_by_time_amounts(es: Seq<RawEntryView>)
    requires
        group_by_time_fits(es),
    ensures
        forall|t: Timestamp, it: ItemView| #[trigger] amount_in(group_by_time(es), t, it) == sold_at(es, t, it),
    decreases es.len(),
{
    if es.len() > 0 {
        let e = es.last();
        let xs = es.drop_last();
        lemma_group_by_time_amounts(xs);
        lemma_group_by_time_distinct(xs);
        let g = group_by_time(xs);
        assert forall|t: Timestamp, it: ItemView| #[trigger] amount_in(group_by_time(es), t, it) == sold_at(es, t, it) by {
            lemma_group_step(g, e.0, e.0, e.3, e.2, e.1, t, it);
            assert(amount_in(g, t, it) == sold_at(xs, t, it));
        }
    } else {
        assert forall|t: Timestamp, it: ItemView| #[trigger] amount_in(group_by_time(es), t, it) == sold_at(es, t, it) by {}
    }
}

proof fn lemma_group_by_time_keys(es: Seq<RawEntryView>)
    ensures
        forall|t: Timestamp| #[trigger] has_key(group_by_time(es), t) ==> exists|j: int| 0 <= j < es.len() && es[j].0 == t,
    decreases es.len(),
{
    if es.len() > 0 {
        let e = es.last();
        let xs = es.drop_last();
        let n = es.len() - 1;
        lemma_group_by_time_keys(xs);
        let g = group_by_time(xs);
        assert forall|t: Timestamp| #[trigger] has_key(group_by_time(es), t) implies exists|j: int| 0 <= j < es.len() && es[j].0 == t by {
            let g2 = group_by_time(es);
            let i = choose|i: int| 0 <= i < g2.len() && #[trigger] g2[i].0 == t;
            if t == e.0 {
                assert(es[n] == e);
            } else {
                if has_key(g, e.0) {
                    assert(g2[i] == g[i] || i == key_index(g, e.0));
                    assert(g[key_index(g, e.0)].0 == e.0);
                    assert(g2[i] == g[i]);
                } else {
                    assert(i < g.len());
                    assert(g2[i] == g[i]);
                }
                assert(has_key(g, t));
                let j = choose|j: int| 0 <= j < xs.len() && xs[j].0 == t;
                assert(es[j] == xs[j]);
            }
        }
    } else {
        assert forall|t: Timestamp| #[trigger] has_key(group_by_time(es), t) implies exists|j: int| 0 <= j < es.len() && es[j].0 == t by {}
    }
}

/// The receipt of a time has a line for the item of every line sold at it,
/// and the payment method of the first line sold at it.
pub open spec fn present_at(es: Seq<RawEntryView>, j: int) -> bool {
    let g = group_by_time(es);
    &&& has_key(g, es[j].0)
    &&& has_key(g[key_index(g, es[j].0)].1.0, es[j].2)
    &&& first_at_time(es, j) ==> g[key_index(g, es[j].0)].1.2 == es[j].3
}

proof fn lemma_present_step(es: Seq<RawEntryView>, j: int)
    requires
        es.len() > 0,
        0 <= j < es.len(),
        group_by_time_fits(es),
        groups_distinct(group_by_time(es.drop_last())),
        j < es.len() - 1 ==> present_at(es.drop_last(), j),
    ensures
        present_at(es, j),
{
    let xs = es.drop_last();
    let e = es.last();
    let n = es.len() - 1;
    assert(es[n] == e);
    let g = group_by_time(xs);
    let t = es[j].0;
    lemma_group_step(g, e.0, e.0, e.3, e.2, e.1, t, es[j].2);
    if j < n {
        assert(es[j] == xs[j]);
        if first_at_time(es, j) {
            assert forall|j2: int| 0 <= j2 < j implies xs[j2].0 != xs[j].0 by {
                assert(es[j2] == xs[j2]);
            }
            assert(first_at_time(xs, j));
        }
    } else if first_at_time(es, j) {
        lemma_group_by_time_keys(xs);
        assert(!has_key(g, e.0)) by {
            if has_key(g, e.0) {
                let j2 = choose|j2: int| 0 <= j2 < xs.len() && xs[j2].0 == e.0;
                assert(es[j2] == xs[j2]);
            }
        }
    }
}

proof fn lemma_group_by_time_present(es: Seq<RawEntryView>)
    requires
        group_by_time_fits(es),
    ensures
        forall|j: int| 0 <= j < es.len() ==> #[trigger] present_at(es, j),
    decreases es.len(),
{
    if es.len() > 0 {
        let xs = es.drop_last();
        lemma_group_by_time_present(xs);
        lemma_group_by_time_distinct(xs);
        assert forall|j: int| 0 <= j < es.len() implies #[trigger] present_at(es, j) by {
            if j < es.len() - 1 {
                assert(present_at(xs, j));
            }
            lemma_present_step(es, j);
        }
    }
}

/// Grouping sold lines by time keeps every line: there is one receipt per
/// time at which something was sold, and no other; it carries that time as
/// its own, and the payment method of the first line sold at it; it has a
/// line for every item sold at that time, and the amount of each item is
/// the sum of the amounts sold of it at that time.
pub proof fn lemma_group_by_time_lines(es: Seq<RawEntryView>)
    requires
        group_by_time_fits(es),
    ensures
        groups_distinct(group_by_time(es)),
        forall|i: int| 0 <= i < group_by_time(es).len() ==> (#[trigger] group_by_time(es)[i]).1.1 == group_by_time(es)[i].0,
        forall|t: Timestamp, it: ItemView| #[trigger] amount_in(group_by_time(es), t, it) == sold_at(es, t, it),
        forall|t: Timestamp| #[trigger] has_key(group_by_time(es), t) ==> exists|j: int| 0 <= j < es.len() && es[j].0 == t,
        forall|j: int| 0 <= j < es.len() ==> #[trigger] present_at(es, j),
{
    lemma_group_by_time_distinct(es);
    lemma_group_by_time_own_time(es);
    lemma_group_by_time_amounts(es);
    lemma_group_by_time_keys(es);
    lemma_group_by_time_present(es);
}

} // verus!
