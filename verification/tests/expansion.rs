use termlang::Interpreter;

fn run(interp: &mut Interpreter, line: &str) -> String {
    interp.command(line.to_string())
}

#[test]
fn replace_directive_rewrites_its_source() {
    let mut t = Interpreter::new(1);
    assert_eq!(run(&mut t, "return replace(hello,lo,loooo)"), "helloooo");
}

#[test]
fn replace_directive_needs_three_parts() {
    let mut t = Interpreter::new(1);
    assert_eq!(run(&mut t, "return replace(a,b)"), "Invalid replace command!");
}

#[test]
fn angle_brackets_interpolate_variables() {
    let mut t = Interpreter::new(1);
    assert_eq!(
        run(&mut t, "set who World && return Hello <who>"),
        "Success<br />Hello World"
    );
}

#[test]
fn angle_brackets_of_unbound_names_read_null() {
    let mut t = Interpreter::new(1);
    assert_eq!(run(&mut t, "return <missing>"), "null");
}

#[test]
fn var_directive_interpolates_too() {
    let mut t = Interpreter::new(1);
    assert_eq!(
        run(&mut t, "set name Verus && return var(name)"),
        "Success<br />Verus"
    );
    assert_eq!(run(&mut t, "return var(other)"), "null");
}

#[test]
fn line_break_escape_becomes_the_break_token() {
    let mut t = Interpreter::new(1);
    assert_eq!(run(&mut t, "return a\\nb"), "a<br />b");
}

#[test]
fn underscore_escape_becomes_a_space() {
    let mut t = Interpreter::new(1);
    assert_eq!(run(&mut t, "return a\\_b"), "a b");
}

#[test]
fn random_directive_renders_a_number_in_range() {
    let mut t = Interpreter::new(3);
    let out = t.replace_info(":random 5-6:".to_string());
    assert_eq!(out, "5");
    let mut u = Interpreter::new(11);
    let wide: i32 = u.replace_info(":random 10-20:".to_string()).parse().unwrap();
    assert!(10 <= wide && wide < 20);
}

#[test]
fn malformed_random_directive_is_left_alone() {
    let mut t = Interpreter::new(1);
    assert_eq!(t.replace_info(":random 5:".to_string()), ":random 5:");
}

#[test]
fn expansion_is_identity_on_resolved_text() {
    let mut t = Interpreter::new(1);
    assert_eq!(
        t.replace_info("hello world, nothing to do.".to_string()),
        "hello world, nothing to do."
    );
}

#[test]
fn expansion_keeps_rendered_break_tokens() {
    let mut t = Interpreter::new(1);
    assert_eq!(t.replace_info("a<br />b".to_string()), "a<br />b");
}

#[test]
fn repeat_index_may_feed_calc() {
    let mut t = Interpreter::new(1);
    assert_eq!(
        run(&mut t, "repeat 3 i return eval(calc #i * 2)"),
        "0<br />2<br />4"
    );
}
