//! The installer's opening question: install the resources, or cancel.

use vstd::prelude::*;
use crate::menu::Menu;

verus! {

/// The entry highlighted when the question is first shown: Cancel.
pub const INITIAL_SELECTION: isize = 1;

/// The answer to the opening question.
#[derive(Clone, Copy, Debug, PartialEq, Eq, Structural)]
pub enum InstallChoice {
    Install,
    Cancel,
}

/// The entries of the opening question.
pub open spec fn install_entries() -> Seq<Seq<char>> {
    seq![seq!['I', 'n', 's', 't', 'a', 'l', 'l'], seq!['C', 'a', 'n', 'c', 'e', 'l']]
}

/// The menu of the opening question: Install, then Cancel.
pub fn install_menu() -> (m: Menu<'static>)
    ensures
        m@ == install_entries(),
{
    let install = "Install";
    let cancel = "Cancel";
    proof {
        reveal_strlit("Install");
        reveal_strlit("Cancel");
        assert(install@ =~= install_entries()[0]);
        assert(cancel@ =~= install_entries()[1]);
    }
    let mut m = Menu::new();
    m.add(install);
    m.add(cancel);
    assert(m@ =~= install_entries());
    m
}

/// The answer that a chosen entry gives: the second entry cancels, any
/// other installs.
pub open spec fn choice_for(chosen: nat) -> InstallChoice {
    if chosen == 1 { InstallChoice::Cancel } else { InstallChoice::Install }
}

/// The answer that the chosen entry gives.
pub fn choice_of(chosen: usize) -> (c: InstallChoice)
    ensures
        c == choice_for(chosen as nat),
{
    if chosen == 1 { InstallChoice::Cancel } else { InstallChoice::Install }
}

} // verus!
