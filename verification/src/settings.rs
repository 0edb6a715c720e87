//! Switches that an operator sets by text.
use crate::names::same_str;
use vstd::prelude::*;

verus! {

/// The text switches something on.
pub open spec fn is_on(text: Seq<char>) -> bool {
    text == "1"@ || text == "true"@ || text == "TRUE"@ || text == "yes"@ || text == "YES"@
}

/// The text switches something off.
pub open spec fn is_off(text: Seq<char>) -> bool {
    text == "0"@ || text == "false"@ || text == "off"@
}

/// Whether a switch that is off by default is on.
pub fn switched_on(setting: Option<&str>) -> (on: bool)
    ensures
        on == (setting matches Some(text) && is_on(text@)),
{
    match setting {
        Some(text) => same_str(text, "1") || same_str(text, "true") || same_str(text, "TRUE")
            || same_str(text, "yes") || same_str(text, "YES"),
        None => false,
    }
}

/// Whether a switch that is on by default is off.
pub fn switched_off(setting: Option<&str>) -> (off: bool)
    ensures
        off == (setting matches Some(text) && is_off(text@)),
{
    match setting {
        Some(text) => same_str(text, "0") || same_str(text, "false") || same_str(text, "off"),
        None => false,
    }
}

/// A setting is on where it is a one, or the word true or yes, in small or in
/// capital letters throughout; it is off where it is a zero, or the word false or
/// off in small letters. No setting is both.
pub proof fn settings_are_on_or_off(text: Seq<char>)
    ensures
        is_on(text) <==> text == seq!['1'] || text == seq!['t', 'r', 'u', 'e'] || text == seq![
            'T',
            'R',
            'U',
            'E',
        ] || text == seq!['y', 'e', 's'] || text == seq!['Y', 'E', 'S'],
        is_off(text) <==> text == seq!['0'] || text == seq!['f', 'a', 'l', 's', 'e'] || text == seq![
            'o',
            'f',
            'f',
        ],
        !(is_on(text) && is_off(text)),
{
    reveal_strlit("1");
    reveal_strlit("true");
    reveal_strlit("TRUE");
    reveal_strlit("yes");
    reveal_strlit("YES");
    reveal_strlit("0");
    reveal_strlit("false");
    reveal_strlit("off");
    assert("1"@ =~= seq!['1']);
    assert("true"@ =~= seq!['t', 'r', 'u', 'e']);
    assert("TRUE"@ =~= seq!['T', 'R', 'U', 'E']);
    assert("yes"@ =~= seq!['y', 'e', 's']);
    assert("YES"@ =~= seq!['Y', 'E', 'S']);
    assert("0"@ =~= seq!['0']);
    assert("false"@ =~= seq!['f', 'a', 'l', 's', 'e']);
    assert("off"@ =~= seq!['o', 'f', 'f']);
    if is_on(text) && is_off(text) {
        assert(text[0] == '0' || text[0] == 'f' || text[0] == 'o');
        assert(text[0] == '1' || text[0] == 't' || text[0] == 'T' || text[0] == 'y' || text[0]
            == 'Y');
    }
}

} // verus!
