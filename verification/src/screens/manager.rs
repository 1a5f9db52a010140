//! The menu management screen: items put in and out of stock, added and
//! changed, behind a login.
use vstd::prelude::*;
use crate::items::{Category, Item, ItemView};
use crate::text::str_equals;

verus! {

/// The management screen: the menu's items.
pub struct Manager {
    menu: Vec<Item>,
}

/// Whether the item form adds a new item or changes the one of the given
/// name.
#[derive(Debug)]
pub enum Mode {
    New,
    Update(String),
}

impl Default for Mode {
    /// The form adds a new item unless said otherwise.
    fn default() -> (m: Self)
        ensures
            m is New,
    {
        Mode::New
    }
}

/// What the management screen keeps between events: whether saving is
/// locked, whether the login dialog is open, the password typed in it, the
/// form's mode, and the form's name, price and category.
pub struct State {
    locked: bool,
    login_modal: bool,
    password: String,
    mode: Mode,
    name: String,
    price: i32,
    category: Option<Category>,
}

/// The view of a mode: the name of the item being changed, none for a new
/// item.
pub open spec fn mode_view(m: Mode) -> Option<Seq<char>> {
    match m {
        Mode::New => None,
        Mode::Update(n) => Some(n@),
    }
}

/// The view of the state: locked, login dialog open, password, mode, name,
/// price, category.
pub type StateView = (bool, bool, Seq<char>, Option<Seq<char>>, Seq<char>, i32, Option<Category>);

impl View for State {
    type V = StateView;

    closed spec fn view(&self) -> StateView {
        (self.locked, self.login_modal, self.password@, mode_view(self.mode), self.name@, self.price, self.category)
    }
}

impl Default for State {
    /// Locked, dialog closed, everything empty, adding a new item.
    fn default() -> (s: Self)
        ensures
            s@ == (true, false, Seq::<char>::empty(), None::<Seq<char>>, Seq::<char>::empty(), 0i32, None::<Category>),
    {
        State {
            locked: true,
            login_modal: false,
            password: String::new(),
            mode: Mode::New,
            name: String::new(),
            price: 0,
            category: None,
        }
    }
}

/// What the management screen receives.
#[derive(Debug)]
pub enum Event {
    ToggleItem(usize, bool),
    EditItem(usize),
    UpdateName(String),
    UpdatePrice(i32),
    UpdateCategory(Category),
    Cancel,
    Save,
    OpenLogin,
    CloseLogin,
    UpdatePassword(String),
    Login,
}

/// What the management screen asks for: an item's stock flag to be set, a
/// new item to be added, or the item of a given name to be changed; the
/// menu is reloaded afterwards.
#[derive(Debug)]
pub enum Action {
    SetAvailable { item: Item, available: bool },
    Insert { name: String, price: i32, category: Category },
    Update { old_name: String, name: String, price: i32, category: Category },
}

impl View for Manager {
    type V = Seq<ItemView>;

    closed spec fn view(&self) -> Seq<ItemView> {
        self.menu@.map_values(|i: Item| i@)
    }
}

impl Manager {
    /// The screen over the given menu.
    pub fn new(menu: Vec<Item>) -> (m: Self)
        ensures
            m@ == menu@.map_values(|i: Item| i@),
    {
        Manager { menu }
    }

    /// What pressing the form's save button sends: the login dialog is
    /// opened while saving is locked, the form is saved otherwise.
    pub fn save_press(state: &State) -> (e: Event)
        ensures
            if state@.0 {
                e is OpenLogin
            } else {
                e is Save
            },
    {
        if state.locked {
            Event::OpenLogin
        } else {
            Event::Save
        }
    }

    /// Handles an event. Toggling an item asks for its stock flag to be set;
    /// editing an item fills the form with it; the form's fields take what
    /// is typed or picked; cancelling empties the form's name and price and
    /// makes it add a new item. Saving a form with a name empties it and asks
    /// for the item to be added or changed (with category `Other` where none
    /// was picked); a form without a name is left as it is. Logging in
    /// closes the dialog and unlocks saving where the typed password is the
    /// one required, or where none is required (`password` is `None`);
    /// otherwise it locks saving.
    pub fn update(&mut self, state: &mut State, event: Event, password: Option<&str>) -> (a: Option<Action>)
        requires
            event matches Event::EditItem(i) ==> i < old(self)@.len(),
        ensures
            final(self)@ == old(self)@,
            match event {
                Event::ToggleItem(i, b) => final(state)@ == old(state)@ && if i < old(self)@.len() {
                    a matches Some(Action::SetAvailable { item, available }) && item@ == old(self)@[i as int]
                        && available == b
                } else {
                    a is None
                },
                Event::EditItem(i) => a is None && final(state)@ == (
                    old(state)@.0,
                    old(state)@.1,
                    old(state)@.2,
                    Some(old(self)@[i as int].0),
                    old(self)@[i as int].0,
                    old(self)@[i as int].1,
                    Some(old(self)@[i as int].4),
                ),
                Event::UpdateName(s) => a is None && final(state)@ == (
                    old(state)@.0, old(state)@.1, old(state)@.2, old(state)@.3, s@, old(state)@.5, old(state)@.6,
                ),
                Event::UpdatePrice(n) => a is None && final(state)@ == (
                    old(state)@.0, old(state)@.1, old(state)@.2, old(state)@.3, old(state)@.4, n, old(state)@.6,
                ),
                Event::UpdateCategory(c) => a is None && final(state)@ == (
                    old(state)@.0, old(state)@.1, old(state)@.2, old(state)@.3, old(state)@.4, old(state)@.5, Some(c),
                ),
                Event::Cancel => a is None && final(state)@ == (
                    old(state)@.0,
                    old(state)@.1,
                    old(state)@.2,
                    None::<Seq<char>>,
                    Seq::<char>::empty(),
                    0i32,
                    old(state)@.6,
                ),
                Event::Save => if old(state)@.4.len() == 0 {
                    a is None && final(state)@ == old(state)@
                } else {
                    &&& final(state)@ == (
                        old(state)@.0,
                        old(state)@.1,
                        old(state)@.2,
                        None::<Seq<char>>,
                        Seq::<char>::empty(),
                        0i32,
                        None::<Category>,
                    )
                    &&& match old(state)@.3 {
                        None => a matches Some(Action::Insert { name, price, category }) && name@ == old(state)@.4
                            && price == old(state)@.5 && category == match old(state)@.6 {
                            Some(c) => c,
                            None => Category::Other,
                        },
                        Some(old_name) => a matches Some(Action::Update { old_name: o, name, price, category })
                            && o@ == old_name && name@ == old(state)@.4 && price == old(state)@.5 && category
                            == match old(state)@.6 {
                            Some(c) => c,
                            None => Category::Other,
                        },
                    }
                },
                Event::OpenLogin => a is None && final(state)@ == (
                    old(state)@.0, true, old(state)@.2, old(state)@.3, old(state)@.4, old(state)@.5, old(state)@.6,
                ),
                Event::CloseLogin => a is None && final(state)@ == (
                    old(state)@.0, false, old(state)@.2, old(state)@.3, old(state)@.4, old(state)@.5, old(state)@.6,
                ),
                Event::UpdatePassword(p) => a is None && final(state)@ == (
                    old(state)@.0, old(state)@.1, p@, old(state)@.3, old(state)@.4, old(state)@.5, old(state)@.6,
                ),
                Event::Login => a is None && final(state)@ == (
                    match password {
                        None => false,
                        Some(pw) => old(state)@.2 != pw@,
                    },
                    false,
                    old(state)@.2,
                    old(state)@.3,
                    old(state)@.4,
                    old(state)@.5,
                    old(state)@.6,
                ),
            },
    {
        match event {
            Event::ToggleItem(i, b) => {
                if i < self.menu.len() {
                    let item = self.menu[i].clone();
                    return Some(Action::SetAvailable { item, available: b });
                }
                None
            },
            Event::EditItem(i) => {
                let item = &self.menu[i];
                state.mode = Mode::Update(item.name().clone());
                state.name = item.name().clone();
                state.price = *item.price();
                state.category = Some(*item.category());
                None
            },
            Event::UpdateName(s) => {
                state.name = s;
                None
            },
            Event::UpdatePrice(n) => {
                state.price = n;
                None
            },
            Event::UpdateCategory(c) => {
                state.category = Some(c);
                None
            },
            Event::Cancel => {
                state.mode = Mode::New;
                state.name = String::new();
                state.price = 0;
                None
            },
            Event::Save => {
                let mut name = String::new();
                std::mem::swap(&mut name, &mut state.name);
                if !name.as_str().is_empty() {
                    let price = state.price;
                    state.price = 0;
                    let category = match state.category.take() {
                        Some(c) => c,
                        None => Category::default(),
                    };
                    let mut mode = Mode::New;
                    std::mem::swap(&mut mode, &mut state.mode);
                    match mode {
                        Mode::New => Some(Action::Insert { name, price, category }),
                        Mode::Update(old_name) => Some(Action::Update { old_name, name, price, category }),
                    }
                } else {
                    state.name = name;
                    None
                }
            },
            Event::OpenLogin => {
                state.login_modal = true;
                None
            },
            Event::CloseLogin => {
                state.login_modal = false;
                None
            },
            Event::UpdatePassword(p) => {
                state.password = p;
                None
            },
            Event::Login => {
                state.locked = match password {
                    None => false,
                    Some(pw) => !str_equals(state.password.as_str(), pw),
                };
                state.login_modal = false;
                None
            },
        }
    }
}

} // verus!
