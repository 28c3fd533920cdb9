//! The fixed command registry: the recognised command names and their
//! help texts.
//!
//! Three entries — `reset`, `theme`, `full` — are host-delegated: the
//! dispatcher recognises them and returns empty text, and the host
//! performs the actual effect.  Their names are reserved like any
//! other command name.

use vstd::prelude::*;

verus! {

use crate::chars::{str_to_chars, eq_str};

/// Whether `name` is a registered command.
pub open spec fn spec_is_command(name: Seq<char>) -> bool {
    name == "return"@ || name == "repeat"@ || name == "help"@ || name == "set"@ || name == "get"@
        || name == "ol"@ || name == "olc"@ || name == "fn"@ || name == "exec"@ || name == "list"@
        || name == "replace"@ || name == "random"@ || name == "calc"@ || name == "if"@ || name
        == "reset"@ || name == "theme"@ || name == "full"@
}

/// Executable mirror of [`spec_is_command`].
pub fn is_command(name: &Vec<char>) -> (r: bool)
    ensures
        r == spec_is_command(name@),
{
    eq_str(name, "return") || eq_str(name, "repeat") || eq_str(name, "help") || eq_str(name, "set")
        || eq_str(name, "get") || eq_str(name, "ol") || eq_str(name, "olc") || eq_str(name, "fn")
        || eq_str(name, "exec") || eq_str(name, "list") || eq_str(name, "replace") || eq_str(
        name,
        "random",
    ) || eq_str(name, "calc") || eq_str(name, "if") || eq_str(name, "reset") || eq_str(
        name,
        "theme",
    ) || eq_str(name, "full")
}

/// All registered command names, in registry order.
pub open spec fn spec_command_names() -> Seq<Seq<char>> {
    seq![
        "return"@,
        "repeat"@,
        "help"@,
        "set"@,
        "get"@,
        "ol"@,
        "olc"@,
        "fn"@,
        "exec"@,
        "list"@,
        "replace"@,
        "random"@,
        "calc"@,
        "if"@,
        "reset"@,
        "theme"@,
        "full"@,
    ]
}

/// Executable mirror of [`spec_command_names`].
pub fn command_names() -> (r: Vec<Vec<char>>)
    ensures
        r.deep_view() == spec_command_names(),
{
    let mut r: Vec<Vec<char>> = Vec::new();
    r.push(str_to_chars("return"));
    r.push(str_to_chars("repeat"));
    r.push(str_to_chars("help"));
    r.push(str_to_chars("set"));
    r.push(str_to_chars("get"));
    r.push(str_to_chars("ol"));
    r.push(str_to_chars("olc"));
    r.push(str_to_chars("fn"));
    r.push(str_to_chars("exec"));
    r.push(str_to_chars("list"));
    r.push(str_to_chars("replace"));
    r.push(str_to_chars("random"));
    r.push(str_to_chars("calc"));
    r.push(str_to_chars("if"));
    r.push(str_to_chars("reset"));
    r.push(str_to_chars("theme"));
    r.push(str_to_chars("full"));
    proof {
        assert(r.deep_view() =~~= spec_command_names());
    }
    r
}

/// The help text of a registered command, if `name` is one.
pub open spec fn spec_help_of(name: Seq<char>) -> Option<Seq<char>> {
    if name == "return"@ {
        Some("Print text to the terminal. Example: |return hello world!|"@)
    } else if name == "repeat"@ {
        Some("Repeat commands x number of times. Example: |repeat 10 i return index: #i|"@)
    } else if name == "help"@ {
        Some(
            "|help| will list all commands. |help command_name| will give a description of how you use that command."@,
        )
    } else if name == "set"@ {
        Some("Set a variable. |set variable_name variable_value|"@)
    } else if name == "get"@ {
        Some("Get a variable. |get variable_name|"@)
    } else if name == "ol"@ {
        Some("Runs commands, but makes their output one-line. Example: |ol repeat 15 return hello|"@)
    } else if name == "olc"@ {
        Some(
            "Runs commands, but makes their output one-line, without spaces. Example: |ol repeat 15 return hello|"@,
        )
    } else if name == "fn"@ {
        Some(
            "Create a function. Example: |fn function_name(param1,param2) return p1: --param1, p2: --param2|"@,
        )
    } else if name == "exec"@ {
        Some("Execute a function. Example: |exec function_name(param1,param2)|"@)
    } else if name == "list"@ {
        Some("List global variables. Example: |list vars|, |list cmd|, |list fn|"@)
    } else if name == "replace"@ {
        Some(
            "Replace strings inside of a string. Example: |replace hello lo loooo|, |replace hi hi :space: :nothing:|"@,
        )
    } else if name == "random"@ {
        Some("Get a random number. Example: |random 1 100|"@)
    } else if name == "calc"@ {
        Some("Calculate things. Example: |calc 5 * 2 + 1 - 4 / 5|"@)
    } else if name == "if"@ {
        Some(
            "Execute a commands depending on a condition. Example: |if (eval(calc 5 * 5) == 25) {return yes} else {return this will never be called}|"@,
        )
    } else if name == "reset"@ {
        Some("[HOST-SIDE] Clears the terminal. Variables are still kept."@)
    } else if name == "theme"@ {
        Some("[HOST-SIDE] Changes the theme. Example: |theme aqua|"@)
    } else if name == "full"@ {
        Some("[HOST-SIDE] Toggles fullscreen."@)
    } else {
        None
    }
}

/// Executable mirror of [`spec_help_of`].
pub fn help_of(name: &Vec<char>) -> (r: Option<Vec<char>>)
    ensures
        ({
            let s = spec_help_of(name@);
            (r is Some <==> s is Some) && (r is Some ==> r->0@ == s->0)
        }),
{
    if eq_str(name, "return") {
        Some(str_to_chars("Print text to the terminal. Example: |return hello world!|"))
    } else if eq_str(name, "repeat") {
        Some(
            str_to_chars(
                "Repeat commands x number of times. Example: |repeat 10 i return index: #i|",
            ),
        )
    } else if eq_str(name, "help") {
        Some(
            str_to_chars(
                "|help| will list all commands. |help command_name| will give a description of how you use that command.",
            ),
        )
    } else if eq_str(name, "set") {
        Some(str_to_chars("Set a variable. |set variable_name variable_value|"))
    } else if eq_str(name, "get") {
        Some(str_to_chars("Get a variable. |get variable_name|"))
    } else if eq_str(name, "ol") {
        Some(
            str_to_chars(
                "Runs commands, but makes their output one-line. Example: |ol repeat 15 return hello|",
            ),
        )
    } else if eq_str(name, "olc") {
        Some(
            str_to_chars(
                "Runs commands, but makes their output one-line, without spaces. Example: |ol repeat 15 return hello|",
            ),
        )
    } else if eq_str(name, "fn") {
        Some(
            str_to_chars(
                "Create a function. Example: |fn function_name(param1,param2) return p1: --param1, p2: --param2|",
            ),
        )
    } else if eq_str(name, "exec") {
        Some(str_to_chars("Execute a function. Example: |exec function_name(param1,param2)|"))
    } else if eq_str(name, "list") {
        Some(str_to_chars("List global variables. Example: |list vars|, |list cmd|, |list fn|"))
    } else if eq_str(name, "replace") {
        Some(
            str_to_chars(
                "Replace strings inside of a string. Example: |replace hello lo loooo|, |replace hi hi :space: :nothing:|",
            ),
        )
    } else if eq_str(name, "random") {
        Some(str_to_chars("Get a random number. Example: |random 1 100|"))
    } else if eq_str(name, "calc") {
        Some(str_to_chars("Calculate things. Example: |calc 5 * 2 + 1 - 4 / 5|"))
    } else if eq_str(name, "if") {
        Some(
            str_to_chars(
                "Execute a commands depending on a condition. Example: |if (eval(calc 5 * 5) == 25) {return yes} else {return this will never be called}|",
            ),
        )
    } else if eq_str(name, "reset") {
        Some(str_to_chars("[HOST-SIDE] Clears the terminal. Variables are still kept."))
    } else if eq_str(name, "theme") {
        Some(str_to_chars("[HOST-SIDE] Changes the theme. Example: |theme aqua|"))
    } else if eq_str(name, "full") {
        Some(str_to_chars("[HOST-SIDE] Toggles fullscreen."))
    } else {
        None
    }
}

} // verus!
