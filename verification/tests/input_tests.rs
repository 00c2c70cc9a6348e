use taylor_params::input::EatingBias;
use taylor_params::input::Input;
use taylor_params::philosopher::Philosopher;

fn mk(xs: &[&str]) -> Vec<String> {
    let mut v: Vec<String> = Vec::new();
    for x in xs {
        v.push((*x).to_string());
    }
    v
}

#[test]
fn input_uniform_three_philosophers() {
    let r = Input::from_args(&mk(&["phil.txt", "10", "U"]), &mk(&["3", "1 2 3"])).unwrap();
    assert_eq!(r.max_eats, 10);
    assert_eq!(r.num_philosophers, 3);
    assert_eq!(r.weights, vec![1, 2, 3]);
    assert_eq!(r.bias, EatingBias::Uniform);
}

#[test]
fn input_proportional_single_philosopher() {
    let r = Input::from_args(&mk(&["-", "5", "P"]), &mk(&["1", "7"])).unwrap();
    assert_eq!(r.max_eats, 5);
    assert_eq!(r.num_philosophers, 1);
    assert_eq!(r.weights, vec![7]);
    assert_eq!(r.bias, EatingBias::Proportional);
}

#[test]
fn input_bad_arity() {
    let e = Input::from_args(&mk(&["a", "b"]), &mk(&[])).unwrap_err();
    assert_eq!(e.as_str(), "Invalid number of arguments, expected 3");
    let e1 = Input::from_args(&mk(&["a", "1", "U", "extra"]), &mk(&[])).unwrap_err();
    assert_eq!(e1.as_str(), "Invalid number of arguments, expected 3");
}

#[test]
fn input_bad_max_eats() {
    let e = Input::from_args(&mk(&["f", "x", "U"]), &mk(&["1", "1"])).unwrap_err();
    assert_eq!(e.as_str(), "Invalid max eats 'x'");
}

#[test]
fn input_bad_mode() {
    let e = Input::from_args(&mk(&["f", "1", "Z"]), &mk(&["1", "1"])).unwrap_err();
    assert_eq!(e.as_str(), "Invalid mode 'Z'");
}

#[test]
fn input_missing_count_line() {
    let e = Input::from_args(&mk(&["f", "1", "U"]), &mk(&[])).unwrap_err();
    assert_eq!(e.as_str(), "Missing number of philosophers");
}

#[test]
fn input_bad_count_line() {
    let e = Input::from_args(&mk(&["f", "1", "U"]), &mk(&["x", "1"])).unwrap_err();
    assert_eq!(e.as_str(), "Invalid number of philosophers");
}

#[test]
fn input_missing_weights_line() {
    let e = Input::from_args(&mk(&["f", "1", "U"]), &mk(&["2"])).unwrap_err();
    assert_eq!(e.as_str(), "Missing weights");
}

#[test]
fn input_bad_weight() {
    let e = Input::from_args(&mk(&["f", "1", "U"]), &mk(&["2", "1 a"])).unwrap_err();
    assert_eq!(e.as_str(), "Invalid weight 'a'");
}

#[test]
fn input_extra_weights() {
    let e = Input::from_args(&mk(&["f", "1", "U"]), &mk(&["1", "1 2"])).unwrap_err();
    assert_eq!(e.as_str(), "Extra weights found, expected only 1");
}

#[test]
fn input_too_few_weights() {
    let e = Input::from_args(&mk(&["f", "1", "U"]), &mk(&["3", "1 2"])).unwrap_err();
    assert_eq!(e.as_str(), "2 weights found, expected at least 3");
}

#[test]
fn input_empty_weights_line_is_one_empty_token() {
    let e = Input::from_args(&mk(&["f", "1", "U"]), &mk(&["0", ""])).unwrap_err();
    assert_eq!(e.as_str(), "Extra weights found, expected only 0");
}

#[test]
fn philosopher_new_and_eat() {
    let p = Philosopher::new(5);
    assert_eq!(p.weight, 5);
    assert_eq!(p.num_eaten, 0);
    let p1 = p.eat();
    assert_eq!(p1.weight, 5);
    assert_eq!(p1.num_eaten, 1);
    let p2 = p1.eat();
    assert_eq!(p2.num_eaten, 2);
}
