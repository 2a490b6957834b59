//! The operator's line-based menu.

use vstd::prelude::*;

verus! {

broadcast use vstd::string::group_string_axioms;

/// What the operator picked.
#[derive(Clone, Copy, Debug, PartialEq, Eq, Structural)]
pub enum MenuChoice {
    Broadcast,
    Unicast,
    ShowStatus,
    Shutdown,
    Invalid,
}

/// The menu entry named by `input` (already trimmed): "1" to "4", anything else
/// being invalid.
pub fn menu_choice(input: &str) -> (c: MenuChoice)
    ensures
        c == (if input@ == "1"@ {
            MenuChoice::Broadcast
        } else if input@ == "2"@ {
            MenuChoice::Unicast
        } else if input@ == "3"@ {
            MenuChoice::ShowStatus
        } else if input@ == "4"@ {
            MenuChoice::Shutdown
        } else {
            MenuChoice::Invalid
        }),
{
    proof {
        reveal_strlit("1");
        reveal_strlit("2");
        reveal_strlit("3");
        reveal_strlit("4");
        assert("1"@ =~= seq!['1']);
        assert("2"@ =~= seq!['2']);
        assert("3"@ =~= seq!['3']);
        assert("4"@ =~= seq!['4']);
    }
    let n = input.unicode_len();
    if n != 1 {
        return MenuChoice::Invalid;
    }
    let c = input.get_char(0);
    proof {
        assert(input@ =~= seq![c]);
    }
    if c == '1' {
        MenuChoice::Broadcast
    } else if c == '2' {
        MenuChoice::Unicast
    } else if c == '3' {
        MenuChoice::ShowStatus
    } else if c == '4' {
        MenuChoice::Shutdown
    } else {
        MenuChoice::Invalid
    }
}

} // verus!
