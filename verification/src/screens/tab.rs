use vstd::prelude::*;
use vstd::std_specs::cmp::PartialEqSpec;
use crate::time::Date;

verus! {

/// Which screen is shown; the sales screen with the period it shows.
#[derive(Debug, Clone, Copy)]
pub enum TabId {
    Menu,
    Transactions,
    Sales { from: Date, to: Date },
    Manager,
    Info,
}

/// Whether two tabs are the same screen, whatever period a sales screen
/// shows.
pub open spec fn same_tab(a: TabId, b: TabId) -> bool {
    match (a, b) {
        (TabId::Menu, TabId::Menu) => true,
        (TabId::Transactions, TabId::Transactions) => true,
        (TabId::Sales { .. }, TabId::Sales { .. }) => true,
        (TabId::Manager, TabId::Manager) => true,
        (TabId::Info, TabId::Info) => true,
        _ => false,
    }
}

impl PartialEq for TabId {
    /// Whether the tabs are the same screen (see `same_tab`).
    fn eq(&self, other: &Self) -> (b: bool) {
        match (self, other) {
            (TabId::Menu, TabId::Menu) => true,
            (TabId::Transactions, TabId::Transactions) => true,
            (TabId::Sales { .. }, TabId::Sales { .. }) => true,
            (TabId::Manager, TabId::Manager) => true,
            (TabId::Info, TabId::Info) => true,
            _ => false,
        }
    }
}

impl vstd::std_specs::cmp::PartialEqSpecImpl for TabId {
    open spec fn obeys_eq_spec() -> bool {
        true
    }

    open spec fn eq_spec(&self, other: &TabId) -> bool {
        same_tab(*self, *other)
    }
}

impl Eq for TabId {
}

/// Being the same screen is an equivalence: reflexive, symmetric and
/// transitive.
pub proof fn lemma_same_tab_equivalence(a: TabId, b: TabId, c: TabId)
    ensures
        same_tab(a, a),
        same_tab(a, b) ==> same_tab(b, a),
        same_tab(a, b) && same_tab(b, c) ==> same_tab(a, c),
{
}

/// Tabs are the same screen exactly when they are of the same kind: a sales
/// tab is the same as any other sales tab, whatever its period, and never
/// the same as a tab of another kind. `==` on tabs says exactly this.
pub proof fn lemma_same_tab_by_kind(a: TabId, b: TabId)
    ensures
        a.eq_spec(&b) == same_tab(a, b),
        same_tab(a, b) == ((a is Menu && b is Menu) || (a is Transactions && b is Transactions) || (a is Sales
            && b is Sales) || (a is Manager && b is Manager) || (a is Info && b is Info)),
{
}

} // verus!
