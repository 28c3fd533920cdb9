use termlang::Interpreter;

fn run(interp: &mut Interpreter, line: &str) -> String {
    interp.command(line.to_string())
}

#[test]
fn return_joins_arguments() {
    let mut t = Interpreter::new(1);
    assert_eq!(run(&mut t, "return hello world!"), "hello world!");
}

#[test]
fn unknown_command_reports_not_found() {
    let mut t = Interpreter::new(1);
    assert_eq!(run(&mut t, "nosuch thing"), "Command not found!");
}

#[test]
fn empty_input_reports_not_found() {
    let mut t = Interpreter::new(1);
    assert_eq!(run(&mut t, ""), "Command not found!");
}

#[test]
fn compound_outputs_join_with_line_break_token() {
    let mut t = Interpreter::new(1);
    assert_eq!(run(&mut t, "return a && return b"), "a<br />b");
}

#[test]
fn unmatched_segment_is_skipped_silently() {
    let mut t = Interpreter::new(1);
    assert_eq!(run(&mut t, "return a && bogus thing"), "a");
}

#[test]
fn first_binding_wins_over_later_sets() {
    let mut t = Interpreter::new(1);
    assert_eq!(
        run(&mut t, "set x 1 && set x 2 && get x"),
        "Success<br />Success<br />1"
    );
}

#[test]
fn get_of_unbound_name_is_null() {
    let mut t = Interpreter::new(1);
    assert_eq!(run(&mut t, "get nothing"), "null");
}

#[test]
fn set_takes_only_one_value_token() {
    let mut t = Interpreter::new(1);
    run(&mut t, "set x hello world");
    assert_eq!(run(&mut t, "get x"), "hello");
}

#[test]
fn repeat_counts_from_zero() {
    let mut t = Interpreter::new(1);
    assert_eq!(run(&mut t, "repeat 3 i return #i"), "0<br />1<br />2");
}

#[test]
fn repeat_with_unparseable_count_runs_once() {
    let mut t = Interpreter::new(1);
    assert_eq!(run(&mut t, "repeat abc i return x"), "x");
}

#[test]
fn repeat_missing_count_is_an_error() {
    let mut t = Interpreter::new(1);
    assert_eq!(
        run(&mut t, "repeat"),
        "Num-repeat not specified! Type |help repeat| for further info."
    );
}

#[test]
fn repeat_missing_index_is_an_error() {
    let mut t = Interpreter::new(1);
    assert_eq!(
        run(&mut t, "repeat 3"),
        "Index not specified! Type |help repeat| for further info."
    );
}

#[test]
fn repeat_missing_command_is_an_error() {
    let mut t = Interpreter::new(1);
    assert_eq!(
        run(&mut t, "repeat 3 i"),
        "No command to repeat was specified! Type |help repeat| for further info."
    );
}

#[test]
fn declare_and_execute_a_function() {
    let mut t = Interpreter::new(1);
    assert_eq!(run(&mut t, "fn greet(name) return Hello --name"), "Success!");
    assert_eq!(run(&mut t, "exec greet(World)"), "Hello World");
}

#[test]
fn function_arguments_may_come_from_variables() {
    let mut t = Interpreter::new(1);
    run(&mut t, "fn greet(name) return Hello --name");
    run(&mut t, "set who Bob");
    assert_eq!(run(&mut t, "exec greet(var(who))"), "Hello Bob");
}

#[test]
fn function_body_restores_compound_separator() {
    let mut t = Interpreter::new(1);
    assert_eq!(run(&mut t, "fn two() return a __AND__ return b"), "Success!");
    assert_eq!(run(&mut t, "exec two()"), "a<br />b");
}

#[test]
fn missing_function_arguments_bind_to_empty_text() {
    let mut t = Interpreter::new(1);
    run(&mut t, "fn pair(a,b) return [--a|--b]");
    assert_eq!(run(&mut t, "exec pair(x)"), "[x|]");
}

#[test]
fn reserved_name_cannot_be_declared() {
    let mut t = Interpreter::new(1);
    assert_eq!(
        run(&mut t, "fn return() return x"),
        "Function name 'return' is reserved!"
    );
    assert_eq!(
        run(&mut t, "fn reset() return x"),
        "Function name 'reset' is reserved!"
    );
}

#[test]
fn fn_without_name_is_an_error() {
    let mut t = Interpreter::new(1);
    assert_eq!(
        run(&mut t, "fn"),
        "Function name not specified! Type |help fn| for further info."
    );
}

#[test]
fn fn_without_parens_is_an_error() {
    let mut t = Interpreter::new(1);
    assert_eq!(
        run(&mut t, "fn foo"),
        "Invalid fn declaration! Type |help fn| for further info."
    );
}

#[test]
fn fn_without_body_is_an_error() {
    let mut t = Interpreter::new(1);
    assert_eq!(
        run(&mut t, "fn foo()"),
        "No command was specified! Type |help fn| for further info."
    );
}

#[test]
fn exec_of_unknown_function_is_null() {
    let mut t = Interpreter::new(1);
    assert_eq!(run(&mut t, "exec nope()"), "null");
}

#[test]
fn exec_without_parens_is_an_error() {
    let mut t = Interpreter::new(1);
    assert_eq!(
        run(&mut t, "exec zz"),
        "Invalid fn declaration! Type |help fn| for further info."
    );
}

#[test]
fn runaway_recursion_is_cut_off() {
    let mut t = Interpreter::new(1);
    run(&mut t, "fn loopy() exec loopy()");
    assert_eq!(run(&mut t, "exec loopy()"), "Recursion limit reached!");
}

#[test]
fn first_function_declaration_wins() {
    let mut t = Interpreter::new(1);
    run(&mut t, "fn f() return first");
    run(&mut t, "fn f() return second");
    assert_eq!(run(&mut t, "exec f()"), "first");
}

#[test]
fn list_fn_shows_each_declaration_once() {
    let mut t = Interpreter::new(1);
    run(&mut t, "fn dup() return a");
    assert_eq!(run(&mut t, "list fn"), "dup");
    run(&mut t, "fn dup() return a");
    assert_eq!(run(&mut t, "list fn"), "dup | dup");
}

#[test]
fn list_var_shows_names_in_insertion_order() {
    let mut t = Interpreter::new(1);
    run(&mut t, "set a 1 && set b 2 && set a 3");
    assert_eq!(run(&mut t, "list var"), "a | b | a");
}

#[test]
fn list_cmd_shows_the_registry() {
    let mut t = Interpreter::new(1);
    assert_eq!(
        run(&mut t, "list cmd"),
        "return | repeat | help | set | get | ol | olc | fn | exec | list | replace | random | calc | if | reset | theme | full"
    );
}

#[test]
fn list_of_anything_else_is_refused() {
    let mut t = Interpreter::new(1);
    assert_eq!(
        run(&mut t, "list bogus"),
        "Couldn't list that. Type |help list| for further info."
    );
}

#[test]
fn help_of_a_command_gives_its_text() {
    let mut t = Interpreter::new(1);
    assert_eq!(
        run(&mut t, "help return"),
        "Print text to the terminal. Example: |return hello world!|"
    );
}

#[test]
fn help_of_unknown_name_is_a_miss_message() {
    let mut t = Interpreter::new(1);
    assert_eq!(run(&mut t, "help nosuch"), "No such command: 'nosuch'");
}

#[test]
fn help_without_argument_lists_all_names() {
    let mut t = Interpreter::new(1);
    let out = run(&mut t, "help");
    assert!(out.starts_with("Type |help command_name| for further info on each command<br />"));
    assert!(out.ends_with("return - repeat - help - set - get - ol - olc - fn - exec - list - replace - random - calc - if - reset - theme - full"));
}

#[test]
fn host_delegated_commands_answer_empty_text() {
    let mut t = Interpreter::new(1);
    assert_eq!(run(&mut t, "reset"), "");
    assert_eq!(run(&mut t, "theme aqua"), "");
    assert_eq!(run(&mut t, "full"), "");
}

#[test]
fn ol_flattens_line_breaks_to_spaces() {
    let mut t = Interpreter::new(1);
    assert_eq!(run(&mut t, "ol repeat 2 i return x"), "x x");
}

#[test]
fn olc_removes_line_breaks() {
    let mut t = Interpreter::new(1);
    assert_eq!(run(&mut t, "olc repeat 2 i return x"), "xx");
}

#[test]
fn replace_command_rewrites_the_leading_text() {
    let mut t = Interpreter::new(1);
    assert_eq!(run(&mut t, "replace hello lo loooo"), "helloooo");
}

#[test]
fn replace_command_space_and_nothing_tokens() {
    let mut t = Interpreter::new(1);
    assert_eq!(run(&mut t, "replace hello world :space: :nothing:"), "helloworld");
    assert_eq!(run(&mut t, "replace hello world :space: _"), "hello_world");
    assert_eq!(run(&mut t, "replace banana a :nothing:"), "bnn");
}

#[test]
fn replace_command_needs_two_trailing_arguments() {
    let mut t = Interpreter::new(1);
    assert_eq!(
        run(&mut t, "replace x"),
        "Character to replace not specified. Type |help replace| for more info."
    );
}
