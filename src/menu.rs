use vstd::prelude::*;

verus! {

/// An option of the main menu.
#[derive(Clone, Copy, Debug, PartialEq, Eq, Structural)]
pub enum MenuChoice {
    ViewAvailable,
    ViewBorrowed,
    Borrow,
    Return,
    Exit,
}

/// The option a menu token names: `1` to `5`, exactly; anything else names none.
pub open spec fn menu_choice_of(token: Seq<char>) -> Option<MenuChoice> {
    if token == seq!['1'] {
        Some(MenuChoice::ViewAvailable)
    } else if token == seq!['2'] {
        Some(MenuChoice::ViewBorrowed)
    } else if token == seq!['3'] {
        Some(MenuChoice::Borrow)
    } else if token == seq!['4'] {
        Some(MenuChoice::Return)
    } else if token == seq!['5'] {
        Some(MenuChoice::Exit)
    } else {
        None
    }
}

/// Reads a menu token; `None` asks the caller to prompt again.
pub fn menu_choice(token: &str) -> (r: Option<MenuChoice>)
    ensures
        r == menu_choice_of(token@),
{
    if token.unicode_len() != 1 {
        assert(token@ != seq!['1'] && token@ != seq!['2'] && token@ != seq!['3']);
        assert(token@ != seq!['4'] && token@ != seq!['5']);
        return None;
    }
    let c = token.get_char(0);
    let ghost one = seq![c];
    assert(token@ =~= one);
    assert(seq!['1'][0] == '1' && seq!['2'][0] == '2' && seq!['3'][0] == '3');
    assert(seq!['4'][0] == '4' && seq!['5'][0] == '5');
    if c == '1' {
        Some(MenuChoice::ViewAvailable)
    } else if c == '2' {
        Some(MenuChoice::ViewBorrowed)
    } else if c == '3' {
        Some(MenuChoice::Borrow)
    } else if c == '4' {
        Some(MenuChoice::Return)
    } else if c == '5' {
        Some(MenuChoice::Exit)
    } else {
        None
    }
}

} // verus!
