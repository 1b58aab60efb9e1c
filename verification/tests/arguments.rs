use endpoint_scan::args::AppArguments;

fn parse(args: &[&str]) -> AppArguments {
    AppArguments::new(args.iter().map(|a| String::from(*a)).collect())
}

#[test]
fn option_takes_the_argument_after_it_as_value() {
    let args = parse(&["scan", "-mapdir", "/srv/app"]);
    assert_eq!(args.exec_path, "scan");
    assert_eq!(args.argument("mapdir").map(|s| s.as_str()), Some("/srv/app"));
    assert!(args.parameters.is_empty());
    assert_eq!(args.arguments.len(), 1);
    assert_eq!(args.argument("-mapdir"), None);
    assert_eq!(args.argument("other"), None);
}

#[test]
fn arguments_that_belong_to_no_option_are_parameters() {
    let args = parse(&["scan", "one", "-mapdir", "/srv/app", "two", "three"]);
    assert_eq!(args.parameters, vec!["one", "two", "three"]);
    assert_eq!(args.argument("mapdir").map(|s| s.as_str()), Some("/srv/app"));
}

#[test]
fn value_may_start_with_a_dash() {
    let args = parse(&["scan", "-a", "-b", "-c", "d"]);
    assert_eq!(args.argument("a").map(|s| s.as_str()), Some("-b"));
    assert_eq!(args.argument("c").map(|s| s.as_str()), Some("d"));
    assert_eq!(args.argument("b"), None);
    assert!(args.parameters.is_empty());
    assert_eq!(args.arguments.len(), 2);
}

#[test]
fn option_named_twice_keeps_the_later_value() {
    let args = parse(&["scan", "-mapdir", "first", "-mapdir", "second"]);
    assert_eq!(args.argument("mapdir").map(|s| s.as_str()), Some("second"));
    assert_eq!(args.arguments.len(), 1);
}

#[test]
fn option_without_a_value_is_dropped() {
    let args = parse(&["scan", "x", "-mapdir"]);
    assert_eq!(args.argument("mapdir"), None);
    assert_eq!(args.parameters, vec!["x"]);
    assert!(args.arguments.is_empty());
}

#[test]
fn first_argument_is_the_path_of_the_program_even_with_a_dash() {
    let args = parse(&["-scan", "value"]);
    assert_eq!(args.exec_path, "-scan");
    assert_eq!(args.parameters, vec!["value"]);
    assert!(args.arguments.is_empty());
}

#[test]
fn no_arguments_at_all() {
    let args = parse(&[]);
    assert_eq!(args.exec_path, "");
    assert!(args.parameters.is_empty());
    assert!(args.arguments.is_empty());
}

#[test]
fn lone_dash_names_the_option_without_a_name() {
    let args = parse(&["scan", "-", "value", ""]);
    assert_eq!(args.argument("").map(|s| s.as_str()), Some("value"));
    assert_eq!(args.parameters, vec![""]);
}
