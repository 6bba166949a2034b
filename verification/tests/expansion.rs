use io_process::command::Command;
use io_process::envs::EnvMap;
use io_process::expand::{expand_text, expanded_or_input, Ambient};

fn vars(pairs: &[(&str, &str)]) -> EnvMap {
    let mut map = EnvMap::new();
    for (key, value) in pairs {
        map.insert(key.to_string(), value.to_string());
    }
    map
}

fn home() -> Option<String> {
    Some("/home/me".to_string())
}

#[test]
fn expanded_or_input_prefers_the_expansion() {
    assert_eq!(expanded_or_input("$A", Some("1".to_string())), "1");
    assert_eq!(expanded_or_input("$A", Some(String::new())), "");
}

#[test]
fn expanded_or_input_falls_back_to_the_input() {
    assert_eq!(expanded_or_input("$A", None), "$A");
    assert_eq!(expanded_or_input("", None), "");
}

#[test]
fn text_without_tilde_or_dollar_is_unchanged() {
    assert_eq!(expand_text("some/path", &home(), &vars(&[("A", "1")])), "some/path");
    assert_eq!(expand_text("", &home(), &vars(&[])), "");
}

#[test]
fn variables_are_replaced_by_their_values() {
    let map = vars(&[("A", "a value"), ("B", "b value")]);
    assert_eq!(expand_text("begin/$A/${B}s/end", &None, &map), "begin/a value/b values/end");
}

#[test]
fn unknown_variables_stay_as_written() {
    let map = vars(&[("A", "1")]);
    assert_eq!(expand_text("begin/$UNKNOWN/${OTHER}/end", &None, &map), "begin/$UNKNOWN/${OTHER}/end");
}

#[test]
fn a_default_stands_in_for_an_unknown_variable() {
    assert_eq!(expand_text("${UNSET:-42}", &None, &vars(&[])), "42");
    assert_eq!(expand_text("${SET:-42}", &None, &vars(&[("SET", "7")])), "7");
}

#[test]
fn a_leading_tilde_is_the_home_directory() {
    assert_eq!(expand_text("~", &home(), &vars(&[])), "/home/me");
    assert_eq!(expand_text("~/dir", &home(), &vars(&[])), "/home/me/dir");
}

#[test]
fn a_tilde_elsewhere_or_before_a_name_stays() {
    assert_eq!(expand_text("a~", &home(), &vars(&[])), "a~");
    assert_eq!(expand_text("~other/dir", &home(), &vars(&[])), "~other/dir");
}

#[test]
fn a_tilde_stays_where_no_home_is_known() {
    assert_eq!(expand_text("~/dir", &None, &vars(&[])), "~/dir");
}

#[test]
fn a_tilde_that_comes_from_a_variable_is_not_expanded() {
    let map = vars(&[("T", "~"), ("A", "a")]);
    assert_eq!(expand_text("$T/$A", &home(), &map), "~/a");
}

#[test]
fn tilde_and_variables_are_expanded_together() {
    let map = vars(&[("A", "a"), ("B", "b")]);
    assert_eq!(expand_text("~/$A/$B", &home(), &map), "/home/me/a/b");
}

#[test]
fn command_expand_looks_among_its_own_variables_first() {
    let mut command = Command::new("echo");
    command.env("HELLO", "own");
    let ambient = Ambient::new(None, vars(&[("HELLO", "process"), ("USER", "me")]));
    assert_eq!(command.expand("$HELLO $USER", &ambient), "own me");
}

#[test]
fn command_expand_falls_back_to_the_process_variables() {
    let command = Command::new("echo");
    let ambient = Ambient::new(home(), vars(&[("HELLO", "process")]));
    assert_eq!(command.expand("~/$HELLO/$NOWHERE", &ambient), "/home/me/process/$NOWHERE");
}

#[test]
fn command_expand_does_not_ask_for_the_flag() {
    let mut command = Command::new("echo");
    command.env("A", "1");
    assert!(!command.expand);
    assert_eq!(command.expand("$A", &Ambient::empty()), "1");
}

#[test]
fn ambient_new_keeps_what_it_is_given() {
    let ambient = Ambient::new(home(), vars(&[("A", "1")]));
    assert_eq!(ambient.home, home());
    assert_eq!(ambient.vars.get("A"), Some(&"1".to_string()));
    assert_eq!(ambient.vars.len(), 1);
}

#[test]
fn ambient_empty_knows_nothing() {
    let ambient = Ambient::empty();
    assert_eq!(ambient.home, None);
    assert!(ambient.vars.is_empty());
}

#[test]
fn ambient_with_vars_keeps_the_variables_and_asks_for_the_home() {
    let ambient = Ambient::with_vars(vars(&[("A", "1"), ("B", "2")]));
    assert_eq!(ambient.vars.len(), 2);
    assert_eq!(ambient.vars.get("A"), Some(&"1".to_string()));
    assert_eq!(ambient.vars.get("B"), Some(&"2".to_string()));
    let expected = dirs::home_dir().map(|path| path.to_string_lossy().to_string());
    assert_eq!(ambient.home, expected);
}
