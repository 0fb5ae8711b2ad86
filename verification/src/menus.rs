//! The top bar's dropdown menus (vault, new, more): opening one closes the
//! others, and picking an item closes its menu.
use vstd::prelude::*;

verus! {

/// The dropdown menus of the top bar.
#[derive(Debug, Clone, Copy, PartialEq, Eq, Structural)]
pub enum TopBarMenu {
    Vault,
    New,
    More,
}

/// Which dropdown menus are open.
#[derive(Debug, Clone, Copy, PartialEq, Eq, Structural)]
pub struct TopBarMenus {
    pub vault_open: bool,
    pub new_open: bool,
    pub more_open: bool,
}

impl TopBarMenus {
    /// Whether `menu` is open.
    pub open spec fn is_open(self, menu: TopBarMenu) -> bool {
        match menu {
            TopBarMenu::Vault => self.vault_open,
            TopBarMenu::New => self.new_open,
            TopBarMenu::More => self.more_open,
        }
    }

    /// No two menus are open together.
    pub open spec fn at_most_one_open(self) -> bool {
        !(self.vault_open && self.new_open) && !(self.vault_open && self.more_open) && !(self.new_open
            && self.more_open)
    }

    /// All menus closed.
    pub fn closed() -> (menus: TopBarMenus)
        ensures
            forall|m: TopBarMenu| !menus.is_open(m),
    {
        TopBarMenus { vault_open: false, new_open: false, more_open: false }
    }

    /// A click on a menu's button: that menu opens when it was closed and
    /// closes when it was open; the other menus close.
    pub fn toggle(&mut self, menu: TopBarMenu)
        ensures
            toggled(*old(self), *final(self), menu),
    {
        match menu {
            TopBarMenu::Vault => {
                self.vault_open = !self.vault_open;
                self.new_open = false;
                self.more_open = false;
            },
            TopBarMenu::New => {
                self.new_open = !self.new_open;
                self.vault_open = false;
                self.more_open = false;
            },
            TopBarMenu::More => {
                self.more_open = !self.more_open;
                self.vault_open = false;
                self.new_open = false;
            },
        }
    }

    /// Picking an item of a menu closes that menu.
    pub fn close(&mut self, menu: TopBarMenu)
        ensures
            closed_after_pick(*old(self), *final(self), menu),
    {
        match menu {
            TopBarMenu::Vault => self.vault_open = false,
            TopBarMenu::New => self.new_open = false,
            TopBarMenu::More => self.more_open = false,
        }
    }
}

/// The state after a click on `menu`'s button, as `toggle` leaves it.
pub open spec fn toggled(before: TopBarMenus, after: TopBarMenus, menu: TopBarMenu) -> bool {
    &&& after.is_open(menu) == !before.is_open(menu)
    &&& forall|m: TopBarMenu| m != menu ==> !after.is_open(m)
}

/// The state after picking an item of `menu`, as `close` leaves it.
pub open spec fn closed_after_pick(before: TopBarMenus, after: TopBarMenus, menu: TopBarMenu) -> bool {
    &&& !after.is_open(menu)
    &&& forall|m: TopBarMenu| m != menu ==> after.is_open(m) == before.is_open(m)
}

/// After a click on a menu's button at most one menu is open, whatever was
/// open before.
pub proof fn lemma_toggle_leaves_one_open(before: TopBarMenus, after: TopBarMenus, menu: TopBarMenu)
    requires
        toggled(before, after, menu),
    ensures
        after.at_most_one_open(),
{
    assert(after.is_open(TopBarMenu::Vault) == after.vault_open);
    assert(after.is_open(TopBarMenu::New) == after.new_open);
    assert(after.is_open(TopBarMenu::More) == after.more_open);
}

/// Picking an item keeps at most one menu open.
pub proof fn lemma_close_keeps_one_open(before: TopBarMenus, after: TopBarMenus, menu: TopBarMenu)
    requires
        before.at_most_one_open(),
        closed_after_pick(before, after, menu),
    ensures
        after.at_most_one_open(),
{
    assert(after.is_open(TopBarMenu::Vault) == after.vault_open);
    assert(after.is_open(TopBarMenu::New) == after.new_open);
    assert(after.is_open(TopBarMenu::More) == after.more_open);
    assert(before.is_open(TopBarMenu::Vault) == before.vault_open);
    assert(before.is_open(TopBarMenu::New) == before.new_open);
    assert(before.is_open(TopBarMenu::More) == before.more_open);
}

} // verus!
