//! The decisions of the interactive menu: which option was chosen, how
//! typed answers are read, and how many search hits are shown.
use vstd::prelude::*;
use crate::text::{lowercase_of, same_text, to_lowercase, trim, trimmed};

verus! {

/// An option of the interactive menu.
#[derive(Clone, Copy, Debug, PartialEq, Eq, Structural)]
pub enum MenuChoice {
    Dashboard,
    List,
    Search,
    Add,
    Delete,
    Clear,
    McpServer,
    Help,
    ToggleLanguage,
    Exit,
    Invalid,
}

/// The option that a typed line selects, by its digit once trimmed.
pub open spec fn choice_of(line: Seq<char>) -> MenuChoice {
    let t = trimmed(line);
    if t == "1"@ {
        MenuChoice::Dashboard
    } else if t == "2"@ {
        MenuChoice::List
    } else if t == "3"@ {
        MenuChoice::Search
    } else if t == "4"@ {
        MenuChoice::Add
    } else if t == "5"@ {
        MenuChoice::Delete
    } else if t == "6"@ {
        MenuChoice::Clear
    } else if t == "7"@ {
        MenuChoice::McpServer
    } else if t == "8"@ {
        MenuChoice::Help
    } else if t == "9"@ {
        MenuChoice::ToggleLanguage
    } else if t == "0"@ {
        MenuChoice::Exit
    } else {
        MenuChoice::Invalid
    }
}

/// Each digit selects the option printed next to it in the menu: 1 the
/// dashboard, 2 the listing, 3 the search, 4 adding, 5 deleting by
/// identifier, 6 clearing a user, 7 the tool server, 8 the help, 9 the
/// language switch and 0 leaving; whatever else is typed is invalid.
pub proof fn lemma_menu_digits(line: Seq<char>)
    ensures
        trimmed(line) == seq!['1'] ==> choice_of(line) == MenuChoice::Dashboard,
        trimmed(line) == seq!['2'] ==> choice_of(line) == MenuChoice::List,
        trimmed(line) == seq!['3'] ==> choice_of(line) == MenuChoice::Search,
        trimmed(line) == seq!['4'] ==> choice_of(line) == MenuChoice::Add,
        trimmed(line) == seq!['5'] ==> choice_of(line) == MenuChoice::Delete,
        trimmed(line) == seq!['6'] ==> choice_of(line) == MenuChoice::Clear,
        trimmed(line) == seq!['7'] ==> choice_of(line) == MenuChoice::McpServer,
        trimmed(line) == seq!['8'] ==> choice_of(line) == MenuChoice::Help,
        trimmed(line) == seq!['9'] ==> choice_of(line) == MenuChoice::ToggleLanguage,
        trimmed(line) == seq!['0'] ==> choice_of(line) == MenuChoice::Exit,
        (trimmed(line).len() != 1 || !('0' <= trimmed(line)[0] <= '9')) ==> choice_of(line)
            == MenuChoice::Invalid,
{
    reveal_strlit("1");
    reveal_strlit("2");
    reveal_strlit("3");
    reveal_strlit("4");
    reveal_strlit("5");
    reveal_strlit("6");
    reveal_strlit("7");
    reveal_strlit("8");
    reveal_strlit("9");
    reveal_strlit("0");
    assert("1"@ =~= seq!['1'] && "2"@ =~= seq!['2'] && "3"@ =~= seq!['3'] && "4"@ =~= seq!['4']);
    assert("5"@ =~= seq!['5'] && "6"@ =~= seq!['6'] && "7"@ =~= seq!['7'] && "8"@ =~= seq!['8']);
    assert("9"@ =~= seq!['9'] && "0"@ =~= seq!['0']);
    let t = trimmed(line);
    if t.len() == 1 {
        assert(t == seq![t[0]]);
        assert(seq!['1'][0] == '1' && seq!['2'][0] == '2' && seq!['3'][0] == '3' && seq!['4'][0] == '4');
        assert(seq!['5'][0] == '5' && seq!['6'][0] == '6' && seq!['7'][0] == '7' && seq!['8'][0] == '8');
        assert(seq!['9'][0] == '9' && seq!['0'][0] == '0');
    }
}

/// Reads the menu option from a typed line.
pub fn parse_choice(line: &str) -> (c: MenuChoice)
    ensures
        c == choice_of(line@),
{
    let t = trim(line);
    let t = t.as_str();
    if same_text(t, "1") {
        MenuChoice::Dashboard
    } else if same_text(t, "2") {
        MenuChoice::List
    } else if same_text(t, "3") {
        MenuChoice::Search
    } else if same_text(t, "4") {
        MenuChoice::Add
    } else if same_text(t, "5") {
        MenuChoice::Delete
    } else if same_text(t, "6") {
        MenuChoice::Clear
    } else if same_text(t, "7") {
        MenuChoice::McpServer
    } else if same_text(t, "8") {
        MenuChoice::Help
    } else if same_text(t, "9") {
        MenuChoice::ToggleLanguage
    } else if same_text(t, "0") {
        MenuChoice::Exit
    } else {
        MenuChoice::Invalid
    }
}

/// The user a typed line names: the trimmed line, or `default` when blank.
pub open spec fn user_of(line: Seq<char>) -> Seq<char> {
    if trimmed(line).len() == 0 {
        "default"@
    } else {
        trimmed(line)
    }
}

/// A typed user identifier is the line without its surrounding blanks;
/// only a blank line names the `default` user.
pub proof fn lemma_user_typed_or_default(line: Seq<char>)
    ensures
        trimmed(line).len() > 0 ==> user_of(line) == trimmed(line),
        trimmed(line).len() == 0 ==> user_of(line) == seq!['d', 'e', 'f', 'a', 'u', 'l', 't'],
{
    reveal_strlit("default");
    assert("default"@ =~= seq!['d', 'e', 'f', 'a', 'u', 'l', 't']);
}

/// Reads a user identifier from a typed line.
pub fn user_or_default(line: &str) -> (u: String)
    ensures
        u@ == user_of(line@),
{
    let t = trim(line);
    if t.as_str().is_empty() {
        "default".to_owned()
    } else {
        t
    }
}

/// Whether a lowercased, trimmed answer agrees: `y` or `yes`.
pub fn confirmation_answer(lowered: &str) -> (yes: bool)
    ensures
        yes == (lowered@ == "y"@ || lowered@ == "yes"@),
{
    same_text(lowered, "y") || same_text(lowered, "yes")
}

/// Whether a typed answer confirms clearing: once trimmed and lowercased it
/// reads `y` or `yes`.
pub fn is_confirmed(line: &str) -> (yes: bool)
    ensures
        yes == (lowercase_of(trimmed(line@)) == "y"@ || lowercase_of(trimmed(line@)) == "yes"@),
{
    let t = trim(line);
    let lowered = to_lowercase(t.as_str());
    confirmation_answer(lowered.as_str())
}

/// What the menu does once an option has run.
#[derive(Clone, Copy, Debug, PartialEq, Eq, Structural)]
pub enum MenuFlow {
    /// Leave the menu.
    Stop,
    /// Show the menu again at once.
    BackToMenu,
    /// Wait for Enter, then show the menu again.
    PauseThenMenu,
    /// Say the option was invalid, wait for Enter, then show the menu again.
    PauseThenRetry,
}

/// What follows an option, given whether the text it asked for (the query,
/// the fact or the identifier) was answered with something other than
/// blanks: exiting and the tool server end the menu; an unanswered question,
/// the dashboard and the language switch return to the menu at once; every
/// other option waits for Enter first.
pub open spec fn flow_after(choice: MenuChoice, answered: bool) -> MenuFlow {
    match choice {
        MenuChoice::Exit | MenuChoice::McpServer => MenuFlow::Stop,
        MenuChoice::Dashboard | MenuChoice::ToggleLanguage => MenuFlow::BackToMenu,
        MenuChoice::Search | MenuChoice::Add | MenuChoice::Delete => if answered {
            MenuFlow::PauseThenMenu
        } else {
            MenuFlow::BackToMenu
        },
        MenuChoice::List | MenuChoice::Clear | MenuChoice::Help => MenuFlow::PauseThenMenu,
        MenuChoice::Invalid => MenuFlow::PauseThenRetry,
    }
}

/// Decides what follows an option (see [`flow_after`]).
pub fn next_flow(choice: MenuChoice, answered: bool) -> (f: MenuFlow)
    ensures
        f == flow_after(choice, answered),
{
    match choice {
        MenuChoice::Exit | MenuChoice::McpServer => MenuFlow::Stop,
        MenuChoice::Dashboard | MenuChoice::ToggleLanguage => MenuFlow::BackToMenu,
        MenuChoice::Search | MenuChoice::Add | MenuChoice::Delete => if answered {
            MenuFlow::PauseThenMenu
        } else {
            MenuFlow::BackToMenu
        },
        MenuChoice::List | MenuChoice::Clear | MenuChoice::Help => MenuFlow::PauseThenMenu,
        MenuChoice::Invalid => MenuFlow::PauseThenRetry,
    }
}

/// How many search hits the menu shows.
pub const MENU_SEARCH_LIMIT: u64 = 5;

} // verus!
