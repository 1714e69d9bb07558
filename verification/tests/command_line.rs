use keyhook::{commands_to_run, parse_run_plan, split_on};

fn strings(items: &[&str]) -> Vec<String> {
    items.iter().map(|s| s.to_string()).collect()
}

fn groups(items: &[&[&str]]) -> Vec<Vec<String>> {
    items.iter().map(|g| strings(g)).collect()
}

#[test]
fn split_on_cuts_at_each_separator() {
    let args = strings(&["ls", "-l", "--", "echo", "hi"]);
    assert_eq!(split_on(&args, &"--".to_string()), groups(&[&["ls", "-l"], &["echo", "hi"]]));
}

#[test]
fn split_on_keeps_empty_groups() {
    let args = strings(&["--", "a", "--", "--", "b", "--"]);
    assert_eq!(
        split_on(&args, &"--".to_string()),
        groups(&[&[], &["a"], &[], &["b"], &[]])
    );
}

#[test]
fn split_on_empty_input_is_one_empty_group() {
    let args: Vec<String> = Vec::new();
    assert_eq!(split_on(&args, &"--".to_string()), groups(&[&[]]));
}

#[test]
fn split_on_without_separator_is_the_input() {
    let args = strings(&["a", "-b", "c--"]);
    assert_eq!(split_on(&args, &"--".to_string()), vec![args.clone()]);
}

#[test]
fn split_then_join_gives_back_the_arguments() {
    let args = strings(&["x", "--", "--", "y", "z", "--"]);
    let sep = "--".to_string();
    let parts = split_on(&args, &sep);
    assert_eq!(parts.len(), 4);
    let mut joined: Vec<String> = Vec::new();
    for (i, part) in parts.iter().enumerate() {
        if i > 0 {
            joined.push(sep.clone());
        }
        joined.extend(part.iter().cloned());
    }
    assert_eq!(joined, args);
    assert!(parts.iter().all(|p| !p.contains(&sep)));
}

#[test]
fn commands_skip_empty_groups() {
    let args = strings(&["--", "sleep", "1", "--", "--", "echo", "a", "--cb", "echo", "b", "--"]);
    assert_eq!(
        commands_to_run(&args),
        groups(&[&["sleep", "1"], &["echo", "a", "--cb", "echo", "b"]])
    );
}

#[test]
fn commands_of_only_separators_is_empty() {
    let args = strings(&["--", "--"]);
    assert!(commands_to_run(&args).is_empty());
}

#[test]
fn plan_without_callback() {
    let plan = parse_run_plan(&strings(&["cargo", "build", "--release"]));
    assert_eq!(plan.main.program, "cargo");
    assert_eq!(plan.main.args, strings(&["build", "--release"]));
    assert!(plan.callback.is_none());
}

#[test]
fn plan_with_callback() {
    let plan = parse_run_plan(&strings(&["make", "--cb", "notify-send", "done", "now"]));
    assert_eq!(plan.main.program, "make");
    assert!(plan.main.args.is_empty());
    let callback = plan.callback.unwrap();
    assert_eq!(callback.program, "notify-send");
    assert_eq!(callback.args, strings(&["done", "now"]));
}

#[test]
fn plan_with_empty_callback_group_has_no_callback() {
    let plan = parse_run_plan(&strings(&["make", "all", "--cb"]));
    assert_eq!(plan.main.program, "make");
    assert_eq!(plan.main.args, strings(&["all"]));
    assert!(plan.callback.is_none());

    let plan = parse_run_plan(&strings(&["make", "--cb", "--cb", "echo"]));
    assert!(plan.callback.is_none());
}

#[test]
fn plan_ignores_groups_after_the_second() {
    let plan = parse_run_plan(&strings(&["a", "--cb", "b", "1", "--cb", "c", "2"]));
    assert_eq!(plan.main.program, "a");
    let callback = plan.callback.unwrap();
    assert_eq!(callback.program, "b");
    assert_eq!(callback.args, strings(&["1"]));
}
