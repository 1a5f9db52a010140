use vstd::prelude::*;
use crate::text::str_equals;

verus! {

/// What kind of product a menu item is.
#[derive(Debug, Clone, Copy, PartialEq, Eq, Hash, Structural)]
pub enum Category {
    Alcohol,
    Drink,
    Food,
    Other,
}

/// The text a category is stored as in the database.
pub open spec fn category_text(c: Category) -> Seq<char> {
    match c {
        Category::Alcohol => "alcohol"@,
        Category::Drink => "drink"@,
        Category::Food => "food"@,
        Category::Other => "other"@,
    }
}

/// The category a stored text stands for, if any.
pub open spec fn category_from_text(t: Seq<char>) -> Option<Category> {
    if t == "alcohol"@ {
        Some(Category::Alcohol)
    } else if t == "drink"@ {
        Some(Category::Drink)
    } else if t == "food"@ {
        Some(Category::Food)
    } else if t == "other"@ {
        Some(Category::Other)
    } else {
        None
    }
}

impl Category {
    /// The text this category is stored as.
    pub fn sql_text(&self) -> (s: &'static str)
        ensures
            s@ == category_text(*self),
    {
        match self {
            Category::Alcohol => "alcohol",
            Category::Drink => "drink",
            Category::Food => "food",
            Category::Other => "other",
        }
    }

    /// Reads a stored text back; `None` for any text that names no category.
    pub fn from_sql_text(t: &str) -> (r: Option<Category>)
        ensures
            r == category_from_text(t@),
    {
        if str_equals(t, "alcohol") {
            Some(Category::Alcohol)
        } else if str_equals(t, "drink") {
            Some(Category::Drink)
        } else if str_equals(t, "food") {
            Some(Category::Food)
        } else if str_equals(t, "other") {
            Some(Category::Other)
        } else {
            None
        }
    }
}

/// The view of a menu item: name, price, stock flag, special flag, category.
pub type ItemView = (Seq<char>, i32, Option<bool>, bool, Category);

/// An item of the menu.
#[derive(Debug, PartialEq, Eq, Hash)]
pub struct Item {
    name: String,
    price: i32,
    available: Option<bool>,
    special: bool,
    category: Category,
}

/// The name a category is shown by.
pub open spec fn category_name(c: Category) -> Seq<char> {
    match c {
        Category::Alcohol => "Alkohol"@,
        Category::Drink => "Dryck"@,
        Category::Food => "Mat"@,
        Category::Other => "Övrigt"@,
    }
}

impl Category {
    /// Every category, in declaration order.
    pub const ALL: [Category; 4] = [Category::Alcohol, Category::Drink, Category::Food, Category::Other];

    /// The name this category is shown by.
    pub fn to_string(&self) -> (s: String)
        ensures
            s@ == category_name(*self),
    {
        match self {
            Category::Alcohol => String::from_str("Alkohol"),
            Category::Drink => String::from_str("Dryck"),
            Category::Food => String::from_str("Mat"),
            Category::Other => String::from_str("Övrigt"),
        }
    }
}

impl Default for Category {
    /// Items without a stored category count as `Other`.
    fn default() -> (c: Self)
        ensures
            c == Category::Other,
    {
        Category::Other
    }
}

impl View for Item {
    type V = ItemView;

    closed spec fn view(&self) -> ItemView {
        (self.name@, self.price, self.available, self.special, self.category)
    }
}

impl Clone for Item {
    /// A copy of the item.
    fn clone(&self) -> (c: Self)
        ensures
            c@ == self@,
    {
        Item {
            name: self.name.clone(),
            price: self.price,
            available: self.available,
            special: self.special,
            category: self.category,
        }
    }
}

impl Item {
    /// Builds an item from the columns of a menu or receipt row. `name` is
    /// the `name` column, or the `item` column where the row has no `name`;
    /// the stock flag is absent where the row has none; an item without the
    /// `special` column is not special; one without a category is `Other`.
    pub fn from_row(
        name: String,
        price: i32,
        available: Option<bool>,
        special: Option<bool>,
        category: Option<Category>,
    ) -> (item: Item)
        ensures
            item@ == (
                name@,
                price,
                available,
                match special {
                    Some(b) => b,
                    None => false,
                },
                match category {
                    Some(c) => c,
                    None => Category::Other,
                },
            ),
    {
        Item {
            name,
            price,
            available,
            special: match special {
                Some(b) => b,
                None => false,
            },
            category: match category {
                Some(c) => c,
                None => Category::Other,
            },
        }
    }

    /// Whether two items are the same item: same name, price, stock flag,
    /// special flag and category.
    pub fn same(&self, other: &Item) -> (b: bool)
        ensures
            b == (self@ == other@),
    {
        let avail_eq = match (self.available, other.available) {
            (Some(a), Some(b)) => a == b,
            (None, None) => true,
            _ => false,
        };
        self.name == other.name && self.price == other.price && avail_eq && self.special == other.special
            && self.category == other.category
    }

    /// Whether the item is sold by value (its amount is a sum in kronor).
    pub fn is_special(&self) -> (b: bool)
        ensures
            b == self@.3,
    {
        self.special
    }

    /// The item's name.
    pub fn name(&self) -> (n: &String)
        ensures
            n@ == self@.0,
    {
        &self.name
    }

    /// The item's unit price in kronor.
    pub fn price(&self) -> (p: &i32)
        ensures
            *p == self@.1,
    {
        &self.price
    }

    /// Whether the item is in stock, where the row said so.
    pub fn available(&self) -> (a: &Option<bool>)
        ensures
            *a == self@.2,
    {
        &self.available
    }

    /// The item's category.
    pub fn category(&self) -> (c: &Category)
        ensures
            *c == self@.4,
    {
        &self.category
    }
}

} // verus!

verus! {

/// The texts categories are stored as are the database's fixed ones:
/// `alcohol`, `drink`, `food` and `other`, each read back as its category
/// and nothing else read back at all; they are shown as `Alkohol`, `Dryck`,
/// `Mat` and `Övrigt`.
pub proof fn lemma_category_stored_texts(t: Seq<char>)
    ensures
        category_text(Category::Alcohol) == seq!['a', 'l', 'c', 'o', 'h', 'o', 'l'],
        category_text(Category::Drink) == seq!['d', 'r', 'i', 'n', 'k'],
        category_text(Category::Food) == seq!['f', 'o', 'o', 'd'],
        category_text(Category::Other) == seq!['o', 't', 'h', 'e', 'r'],
        category_from_text(seq!['a', 'l', 'c', 'o', 'h', 'o', 'l']) == Some(Category::Alcohol),
        category_from_text(seq!['d', 'r', 'i', 'n', 'k']) == Some(Category::Drink),
        category_from_text(seq!['f', 'o', 'o', 'd']) == Some(Category::Food),
        category_from_text(seq!['o', 't', 'h', 'e', 'r']) == Some(Category::Other),
        t != seq!['a', 'l', 'c', 'o', 'h', 'o', 'l'] && t != seq!['d', 'r', 'i', 'n', 'k'] && t != seq!['f', 'o', 'o', 'd'] && t != seq!['o', 't', 'h', 'e', 'r'] ==> category_from_text(t) is None,
        category_name(Category::Alcohol) == seq!['A', 'l', 'k', 'o', 'h', 'o', 'l'],
        category_name(Category::Drink) == seq!['D', 'r', 'y', 'c', 'k'],
        category_name(Category::Food) == seq!['M', 'a', 't'],
        category_name(Category::Other) == seq!['Ö', 'v', 'r', 'i', 'g', 't'],
{
    reveal_strlit("alcohol");
    reveal_strlit("Alkohol");
    assert("alcohol"@ =~= seq!['a', 'l', 'c', 'o', 'h', 'o', 'l']);
    assert("Alkohol"@ =~= seq!['A', 'l', 'k', 'o', 'h', 'o', 'l']);
    reveal_strlit("drink");
    reveal_strlit("Dryck");
    assert("drink"@ =~= seq!['d', 'r', 'i', 'n', 'k']);
    assert("Dryck"@ =~= seq!['D', 'r', 'y', 'c', 'k']);
    reveal_strlit("food");
    reveal_strlit("Mat");
    assert("food"@ =~= seq!['f', 'o', 'o', 'd']);
    assert("Mat"@ =~= seq!['M', 'a', 't']);
    reveal_strlit("other");
    reveal_strlit("Övrigt");
    assert("other"@ =~= seq!['o', 't', 'h', 'e', 'r']);
    assert("Övrigt"@ =~= seq!['Ö', 'v', 'r', 'i', 'g', 't']);
}

/// Every category reads back as itself from the text it is stored as.
pub proof fn lemma_category_text_round_trip(c: Category)
    ensures
        category_from_text(category_text(c)) == Some(c),
{
    reveal_strlit("alcohol");
    reveal_strlit("drink");
    reveal_strlit("food");
    reveal_strlit("other");
    assert("drink"@.len() != "alcohol"@.len());
    assert("food"@.len() != "alcohol"@.len());
    assert("food"@.len() != "drink"@.len());
    assert("other"@.len() != "alcohol"@.len());
    assert("other"@.len() != "food"@.len());
    assert("other"@[0] != "drink"@[0]);
}

} // verus!
