use termlang::Interpreter;

fn run(interp: &mut Interpreter, line: &str) -> String {
    interp.command(line.to_string())
}

#[test]
fn calc_orders_passes_by_priority() {
    let mut t = Interpreter::new(1);
    assert_eq!(run(&mut t, "calc 5 * 2 + 1 - 4 / 5"), "10.2");
}

#[test]
fn calc_single_number_passes_through() {
    let mut t = Interpreter::new(1);
    assert_eq!(run(&mut t, "calc 42"), "42");
}

#[test]
fn calc_division_keeps_fractions() {
    let mut t = Interpreter::new(1);
    assert_eq!(run(&mut t, "calc 7 / 2"), "3.5");
}

#[test]
fn calc_power_binds_tightest() {
    let mut t = Interpreter::new(1);
    assert_eq!(run(&mut t, "calc 2 ! 10"), "1024");
    assert_eq!(run(&mut t, "calc 2 ! 3 * 2"), "16");
}

#[test]
fn calc_same_operator_chains_fold_left_to_right() {
    let mut t = Interpreter::new(1);
    assert_eq!(run(&mut t, "calc 5 - 2 - 1"), "2");
    assert_eq!(run(&mut t, "calc 100 / 10 / 5"), "2");
}

#[test]
fn calc_can_go_negative() {
    let mut t = Interpreter::new(1);
    assert_eq!(run(&mut t, "calc 3 - 5"), "-2");
}

#[test]
fn calc_division_by_zero_is_unbounded() {
    let mut t = Interpreter::new(1);
    assert_eq!(run(&mut t, "calc 5 / 0"), "inf");
    assert_eq!(run(&mut t, "calc 0 / 0"), "NaN");
}

#[test]
fn calc_leaves_inert_text_alone() {
    let mut t = Interpreter::new(1);
    assert_eq!(run(&mut t, "calc hello"), "hello");
}

#[test]
fn calc_malformed_numbers_read_as_zero() {
    let mut t = Interpreter::new(1);
    assert_eq!(run(&mut t, "calc 1.2.3 + 1"), "1");
}

#[test]
fn calc_evaluates_nested_commands_first() {
    let mut t = Interpreter::new(1);
    assert_eq!(
        run(&mut t, "set x 10 && calc eval(get x) + 5"),
        "Success<br />15"
    );
}

#[test]
fn if_compares_numbers_and_text() {
    let mut t = Interpreter::new(1);
    assert_eq!(
        run(&mut t, "if (5 == 5) {return yes} else {return no}"),
        "yes"
    );
    assert_eq!(
        run(&mut t, "if (3 < 2) {return yes} else {return no}"),
        "no"
    );
    assert_eq!(
        run(&mut t, "if (3 > 2) {return big} else {return small}"),
        "big"
    );
}

#[test]
fn if_condition_may_use_modulo() {
    let mut t = Interpreter::new(1);
    assert_eq!(
        run(&mut t, "if (10 % 3 == 1) {return y} else {return n}"),
        "y"
    );
}

#[test]
fn if_condition_may_be_computed() {
    let mut t = Interpreter::new(1);
    assert_eq!(
        run(&mut t, "if (eval(calc 5 * 5) == 25) {return yes} else {return no}"),
        "yes"
    );
}

#[test]
fn if_without_its_shape_is_an_error() {
    let mut t = Interpreter::new(1);
    assert_eq!(run(&mut t, "if 5 == 5"), "Condition not found");
}

#[test]
fn if_with_unreducible_condition_is_an_error() {
    let mut t = Interpreter::new(1);
    assert_eq!(
        run(&mut t, "if (blah) {return a} else {return b}"),
        "Error parsing condition"
    );
}

#[test]
fn random_stays_in_its_half_open_range() {
    let mut t = Interpreter::new(7);
    for _ in 0..20 {
        let out = run(&mut t, "random 1 100");
        let v: i32 = out.parse().unwrap();
        assert!(1 <= v && v < 100);
    }
}

#[test]
fn random_with_a_single_value_range_is_constant() {
    let mut t = Interpreter::new(9);
    assert_eq!(run(&mut t, "random 5 6"), "5");
}

#[test]
fn random_missing_bounds_are_errors() {
    let mut t = Interpreter::new(1);
    assert_eq!(run(&mut t, "random"), "Minimum val not specified.");
    assert_eq!(run(&mut t, "random 1"), "Maximum val not specified.");
}
