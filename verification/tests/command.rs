use io_process::command::Command;
use io_process::envs::EnvMap;
use io_process::expand::Ambient;
use io_process::stdio::Stdio;

fn strings(list: &[&str]) -> Vec<String> {
    list.iter().map(|s| s.to_string()).collect()
}

fn sorted(map: &EnvMap) -> Vec<(String, String)> {
    let mut pairs = map.entries().clone();
    pairs.sort();
    pairs
}

fn env_pairs(command: &Command) -> Option<Vec<(String, String)>> {
    command.envs.as_ref().map(sorted)
}

fn pair(key: &str, value: &str) -> (String, String) {
    (key.to_string(), value.to_string())
}

#[test]
fn new_sets_the_program_and_nothing_else() {
    let command = Command::new("ls");
    assert_eq!(command.program, "ls");
    assert_eq!(command.args, None);
    assert!(command.envs.is_none());
    assert_eq!(command.current_dir, None);
    assert!(command.stdin.is_none());
    assert!(command.stdout.is_none());
    assert!(command.stderr.is_none());
    assert!(!command.expand);
}

#[test]
fn arg_appends_in_order() {
    let mut command = Command::new("ls");
    command.arg("-l");
    assert_eq!(command.args, Some(strings(&["-l"])));
    command.arg("-a").arg("/tmp");
    assert_eq!(command.args, Some(strings(&["-l", "-a", "/tmp"])));
}

#[test]
fn arg_keeps_empty_and_repeated_arguments() {
    let mut command = Command::new("printf");
    command.arg("").arg("x").arg("x");
    assert_eq!(command.args, Some(strings(&["", "x", "x"])));
}

#[test]
fn args_appends_each_in_order() {
    let mut command = Command::new("ls");
    command.arg("-l").args(&["-a", "/tmp"]);
    assert_eq!(command.args, Some(strings(&["-l", "-a", "/tmp"])));
}

#[test]
fn args_of_nothing_leaves_the_arguments_absent() {
    let mut command = Command::new("ls");
    command.args(&[]);
    assert_eq!(command.args, None);
    command.arg("-l").args(&[]);
    assert_eq!(command.args, Some(strings(&["-l"])));
}

#[test]
fn env_sets_and_overwrites() {
    let mut command = Command::new("env");
    command.env("A", "1").env("B", "2").env("A", "3");
    assert_eq!(env_pairs(&command), Some(vec![pair("A", "3"), pair("B", "2")]));
}

#[test]
fn envs_sets_each_in_turn_and_the_later_pair_decides() {
    let mut command = Command::new("env");
    command.envs(&[("A", "1"), ("B", "2"), ("A", "3")]);
    assert_eq!(env_pairs(&command), Some(vec![pair("A", "3"), pair("B", "2")]));
}

#[test]
fn envs_of_nothing_leaves_the_variables_absent() {
    let mut command = Command::new("env");
    command.envs(&[]);
    assert!(command.envs.is_none());
}

#[test]
fn env_remove_takes_one_variable_out() {
    let mut command = Command::new("env");
    command.env("A", "1").env("B", "2").env_remove("A");
    assert_eq!(env_pairs(&command), Some(vec![pair("B", "2")]));
    command.env_remove("B");
    assert_eq!(env_pairs(&command), Some(vec![]));
}

#[test]
fn env_remove_without_variables_leaves_them_absent() {
    let mut command = Command::new("env");
    command.env_remove("A");
    assert!(command.envs.is_none());
}

#[test]
fn env_clear_forgets_all_variables() {
    let mut command = Command::new("env");
    command.env("A", "1").env_clear();
    assert!(command.envs.is_none());
    command.env_clear();
    assert!(command.envs.is_none());
}

#[test]
fn current_dir_is_set_and_replaced() {
    let mut command = Command::new("ls");
    command.current_dir("/tmp");
    assert_eq!(command.current_dir, Some("/tmp".to_string()));
    command.current_dir("/var");
    assert_eq!(command.current_dir, Some("/var".to_string()));
}

#[test]
fn streams_are_set_one_by_one() {
    let mut command = Command::new("cat");
    command.stdin(Stdio::Handle(3)).stdout(Stdio::Piped).stderr(Stdio::Null);
    assert!(matches!(command.stdin, Some(Stdio::Handle(3))));
    assert!(matches!(command.stdout, Some(Stdio::Piped)));
    assert!(matches!(command.stderr, Some(Stdio::Null)));
    command.stdin(Stdio::Inherit);
    assert!(matches!(command.stdin, Some(Stdio::Inherit)));
    assert!(matches!(command.stdout, Some(Stdio::Piped)));
}

#[test]
fn builders_leave_the_other_fields_alone() {
    let mut command = Command::new("ls");
    command.arg("-l").env("A", "1").current_dir("/tmp").stdout(Stdio::Piped);
    command.expand = true;
    command.arg("-a");
    assert_eq!(command.program, "ls");
    assert_eq!(command.args, Some(strings(&["-l", "-a"])));
    assert_eq!(env_pairs(&command), Some(vec![pair("A", "1")]));
    assert_eq!(command.current_dir, Some("/tmp".to_string()));
    assert!(matches!(command.stdout, Some(Stdio::Piped)));
    assert!(command.expand);
}

#[test]
fn equality_compares_program_arguments_directory_and_flag() {
    let mut left = Command::new("ls");
    left.arg("-l").current_dir("/tmp");
    let mut right = Command::new("ls");
    right.arg("-l").current_dir("/tmp");
    assert!(left == right);

    let mut other_program = Command::new("dir");
    other_program.arg("-l").current_dir("/tmp");
    assert!(left != other_program);

    let mut other_args = Command::new("ls");
    other_args.arg("-a").current_dir("/tmp");
    assert!(left != other_args);

    let mut more_args = Command::new("ls");
    more_args.arg("-l").arg("-a").current_dir("/tmp");
    assert!(left != more_args);

    let mut other_dir = Command::new("ls");
    other_dir.arg("-l").current_dir("/var");
    assert!(left != other_dir);

    let mut no_dir = Command::new("ls");
    no_dir.arg("-l");
    assert!(left != no_dir);

    let mut other_flag = Command::new("ls");
    other_flag.arg("-l").current_dir("/tmp");
    other_flag.expand = true;
    assert!(left != other_flag);
}

#[test]
fn equality_tells_absent_arguments_from_none_given() {
    let absent = Command::new("ls");
    let mut empty = Command::new("ls");
    empty.args = Some(Vec::new());
    assert!(absent != empty);
}

#[test]
fn equality_ignores_variables_and_streams() {
    let mut left = Command::new("ls");
    left.env("A", "1").stdin(Stdio::Null);
    let mut right = Command::new("ls");
    right.env("B", "2").stdout(Stdio::Piped);
    assert!(left == right);
    assert!(left == Command::new("ls"));
}

#[test]
fn clone_copies_all_but_the_streams() {
    let mut command = Command::new("ls");
    command.arg("-l").env("A", "1").current_dir("/tmp");
    command.stdin(Stdio::Handle(1)).stdout(Stdio::Piped).stderr(Stdio::Null);
    command.expand = true;

    let copy = command.clone();
    assert_eq!(copy.program, "ls");
    assert_eq!(copy.args, Some(strings(&["-l"])));
    assert_eq!(env_pairs(&copy), Some(vec![pair("A", "1")]));
    assert_eq!(copy.current_dir, Some("/tmp".to_string()));
    assert!(copy.expand);
    assert!(copy.stdin.is_none());
    assert!(copy.stdout.is_none());
    assert!(copy.stderr.is_none());
    assert!(copy == command);
}

#[test]
fn clone_of_a_command_that_binds_nothing_has_no_variables() {
    let mut command = Command::new("env");
    command.env("K", "v").env_remove("K");
    assert_eq!(env_pairs(&command), Some(vec![]));
    let copy = command.clone();
    assert!(copy.envs.is_none());
    assert!(copy == command);
}

#[test]
fn clone_keeps_present_but_empty_arguments() {
    let mut command = Command::new("ls");
    command.args = Some(Vec::new());
    let copy = command.clone();
    assert_eq!(copy.args, Some(Vec::new()));
    assert!(copy == command);
}

#[test]
fn clone_is_read_by_a_runtime_as_its_source() {
    let mut command = Command::new("$TOOL");
    command.arg("$A").arg("~").env("A", "1").env("TOOL", "run");
    command.expand = true;
    let copy = command.clone();
    let mut vars = EnvMap::new();
    vars.insert("A".to_string(), "process".to_string());
    let ambient = Ambient::new(Some("/home/me".to_string()), vars);
    assert_eq!(copy.get_program(&ambient), command.get_program(&ambient));
    assert_eq!(copy.get_args(&ambient), command.get_args(&ambient));
    assert_eq!(copy.get_args(&ambient), Some(strings(&["1", "/home/me"])));
}

#[test]
fn clone_of_a_bare_command_is_bare() {
    let copy = Command::new("ls").clone();
    assert_eq!(copy.program, "ls");
    assert_eq!(copy.args, None);
    assert!(copy.envs.is_none());
    assert_eq!(copy.current_dir, None);
    assert!(!copy.expand);
}

#[test]
fn clone_shares_nothing_with_its_source() {
    let mut command = Command::new("ls");
    command.arg("-l").env("A", "1");
    let mut copy = command.clone();
    copy.arg("-a").env("A", "2").env("B", "3").current_dir("/tmp");
    assert_eq!(command.args, Some(strings(&["-l"])));
    assert_eq!(env_pairs(&command), Some(vec![pair("A", "1")]));
    assert_eq!(command.current_dir, None);
    assert_eq!(copy.args, Some(strings(&["-l", "-a"])));
    assert_eq!(env_pairs(&copy), Some(vec![pair("A", "2"), pair("B", "3")]));
}

#[test]
fn get_program_and_get_args_are_as_written_without_the_flag() {
    let mut command = Command::new("$SHELL");
    command.arg("~").arg("$HOME/x").env("SHELL", "sh");
    let mut vars = EnvMap::new();
    vars.insert("HOME".to_string(), "/home/me".to_string());
    let ambient = Ambient::new(Some("/home/me".to_string()), vars);
    assert_eq!(command.get_program(&ambient), "$SHELL");
    assert_eq!(command.get_args(&ambient), Some(strings(&["~", "$HOME/x"])));
}

#[test]
fn get_program_and_get_args_are_expanded_with_the_flag() {
    let mut command = Command::new("$SHELL");
    command.arg("~").arg("$HOME/x").arg("plain").env("SHELL", "sh");
    command.expand = true;
    let mut vars = EnvMap::new();
    vars.insert("HOME".to_string(), "/home/me".to_string());
    let ambient = Ambient::new(Some("/home/me".to_string()), vars);
    assert_eq!(command.get_program(&ambient), "sh");
    assert_eq!(command.get_args(&ambient), Some(strings(&["/home/me", "/home/me/x", "plain"])));
}

#[test]
fn get_args_is_absent_where_no_argument_was_given() {
    let mut command = Command::new("ls");
    assert_eq!(command.get_args(&Ambient::empty()), None);
    command.expand = true;
    assert_eq!(command.get_args(&Ambient::empty()), None);
    command.args = Some(Vec::new());
    assert_eq!(command.get_args(&Ambient::empty()), Some(Vec::new()));
}

#[test]
fn variables_are_those_of_the_process_under_the_commands_own() {
    let mut command = Command::new("ls");
    command.env("A", "own").env("B", "own");
    let mut vars = EnvMap::new();
    vars.insert("A".to_string(), "process".to_string());
    vars.insert("C".to_string(), "process".to_string());
    let merged = command.variables(&Ambient::new(None, vars));
    assert_eq!(merged.len(), 3);
    assert_eq!(merged.get("A"), Some(&"own".to_string()));
    assert_eq!(merged.get("B"), Some(&"own".to_string()));
    assert_eq!(merged.get("C"), Some(&"process".to_string()));
}

#[test]
fn variables_without_own_are_those_of_the_process() {
    let command = Command::new("ls");
    let mut vars = EnvMap::new();
    vars.insert("A".to_string(), "process".to_string());
    let merged = command.variables(&Ambient::new(None, vars));
    assert_eq!(sorted(&merged), vec![pair("A", "process")]);
}
