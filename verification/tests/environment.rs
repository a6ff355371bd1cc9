use vagga_isolation::command::{CommandDescriptor, Namespace};
use vagga_isolation::config::Settings;
use vagga_isolation::environ::{is_app_variable, lookup};
use vagga_isolation::wrap::{workdir_path, Wrapper};

fn settings(subdir: Option<&str>) -> Settings {
    Settings {
        storage_subdir_from_env_var: subdir.map(|s| s.to_string()),
        alpine_mirror: "http://mirror.example/alpine/".to_string(),
        subordinate_uids: vec![],
        subordinate_gids: vec![],
    }
}

fn host(pairs: &[(&str, &str)]) -> Vec<(String, String)> {
    pairs.iter().map(|(k, v)| (k.to_string(), v.to_string())).collect()
}

fn value(cmd: &CommandDescriptor, name: &str) -> Option<String> {
    cmd.env_value(name).cloned()
}

fn names(cmd: &CommandDescriptor) -> Vec<String> {
    let mut all: Vec<String> = cmd.env.iter().map(|(k, _)| k.clone()).collect();
    all.sort();
    all.dedup();
    all
}

#[test]
fn prefixed_and_path_survive_and_unrelated_does_not() {
    let env = host(&[("VAGGAENV_FOO", "bar"), ("PATH", "/usr/bin"), ("UNRELATED", "baz")]);
    let cmd: CommandDescriptor = Wrapper::new(None, &settings(None), &env);
    assert_eq!(value(&cmd, "VAGGAENV_FOO"), Some("bar".to_string()));
    assert_eq!(value(&cmd, "_VAGGA_PATH"), Some("/usr/bin".to_string()));
    assert_eq!(value(&cmd, "UNRELATED"), None);
    assert_eq!(value(&cmd, "FOO"), None);
    assert_eq!(value(&cmd, "PATH"), None);
    assert_eq!(names(&cmd), vec!["VAGGAENV_FOO".to_string(), "_VAGGA_PATH".to_string()]);
    assert!(cmd.env_cleared);
}

#[test]
fn wrapper_runs_this_program_in_wrapper_mode() {
    let cmd: CommandDescriptor = Wrapper::new(None, &settings(None), &host(&[]));
    assert_eq!(cmd.program, "/proc/self/exe");
    assert_eq!(cmd.args, vec!["__wrapper__".to_string()]);
    assert!(cmd.env.is_empty());
    assert!(cmd.id_map.is_none());
}

#[test]
fn root_is_passed_as_flag_and_value() {
    let cmd: CommandDescriptor = Wrapper::new(Some("/srv/root"), &settings(None), &host(&[]));
    assert_eq!(
        cmd.args,
        vec!["__wrapper__".to_string(), "--root".to_string(), "/srv/root".to_string()]
    );
}

#[test]
fn mount_ipc_and_pid_are_unshared_and_nothing_else() {
    let cmd: CommandDescriptor = Wrapper::new(None, &settings(None), &host(&[]));
    assert_eq!(cmd.namespaces, vec![Namespace::Mount, Namespace::Ipc, Namespace::Pid]);
    assert!(!cmd.namespaces.contains(&Namespace::Net));
    assert!(!cmd.namespaces.contains(&Namespace::User));
}

#[test]
fn operational_variables_are_copied_under_their_child_names() {
    let env = host(&[
        ("PATH", "/bin"),
        ("RUST_LOG", "debug"),
        ("RUST_BACKTRACE", "1"),
        ("VAGGA_DEBUG_CMDENV", "yes"),
        ("VAGGA_SETTINGS", "/etc/vagga.yaml"),
        ("HOME", "/home/u"),
        ("SHELL", "/bin/sh"),
    ]);
    let cmd: CommandDescriptor = Wrapper::new(None, &settings(None), &env);
    assert_eq!(value(&cmd, "_VAGGA_PATH"), Some("/bin".to_string()));
    assert_eq!(value(&cmd, "RUST_LOG"), Some("debug".to_string()));
    assert_eq!(value(&cmd, "RUST_BACKTRACE"), Some("1".to_string()));
    assert_eq!(value(&cmd, "VAGGA_DEBUG_CMDENV"), Some("yes".to_string()));
    assert_eq!(value(&cmd, "VAGGA_SETTINGS"), Some("/etc/vagga.yaml".to_string()));
    assert_eq!(value(&cmd, "_VAGGA_HOME"), Some("/home/u".to_string()));
    assert_eq!(value(&cmd, "HOME"), None);
    assert_eq!(value(&cmd, "SHELL"), None);
    assert_eq!(names(&cmd).len(), 6);
}

#[test]
fn absent_operational_variables_are_not_invented() {
    let cmd: CommandDescriptor = Wrapper::new(None, &settings(None), &host(&[("HOME", "/h")]));
    assert_eq!(names(&cmd), vec!["_VAGGA_HOME".to_string()]);
}

#[test]
fn storage_subdir_is_exported_from_the_named_variable() {
    let env = host(&[("PROJECT_DIR", "alpha"), ("OTHER", "x")]);
    let cmd: CommandDescriptor = Wrapper::new(None, &settings(Some("PROJECT_DIR")), &env);
    assert_eq!(value(&cmd, "_VAGGA_STORAGE_SUBDIR"), Some("alpha".to_string()));
    assert_eq!(value(&cmd, "PROJECT_DIR"), None);
    assert_eq!(names(&cmd), vec!["_VAGGA_STORAGE_SUBDIR".to_string()]);
}

#[test]
fn storage_subdir_is_empty_where_the_host_lacks_the_variable() {
    let cmd: CommandDescriptor =
        Wrapper::new(None, &settings(Some("PROJECT_DIR")), &host(&[("OTHER", "x")]));
    assert_eq!(value(&cmd, "_VAGGA_STORAGE_SUBDIR"), Some(String::new()));
}

#[test]
fn storage_subdir_is_absent_without_the_setting() {
    let cmd: CommandDescriptor =
        Wrapper::new(None, &settings(None), &host(&[("_VAGGA_STORAGE_SUBDIR", "x")]));
    assert_eq!(value(&cmd, "_VAGGA_STORAGE_SUBDIR"), None);
}

#[test]
fn prefix_is_compared_exactly() {
    assert!(is_app_variable("VAGGAENV_FOO"));
    assert!(is_app_variable("VAGGAENV_"));
    assert!(!is_app_variable("VAGGAENV"));
    assert!(!is_app_variable("vaggaenv_foo"));
    assert!(!is_app_variable("XVAGGAENV_FOO"));
    assert!(!is_app_variable(""));
    assert!(!is_app_variable("VAGGA_ENV_FOO"));
}

#[test]
fn lower_case_prefix_does_not_pass() {
    let env = host(&[("vaggaenv_foo", "1"), ("VAGGAENV_bar", "2")]);
    let cmd: CommandDescriptor = Wrapper::new(None, &settings(None), &env);
    assert_eq!(names(&cmd), vec!["VAGGAENV_bar".to_string()]);
}

#[test]
fn repeated_names_in_the_host_block() {
    let env = host(&[
        ("PATH", "/first"),
        ("VAGGAENV_X", "old"),
        ("PATH", "/second"),
        ("VAGGAENV_X", "new"),
    ]);
    assert_eq!(lookup(&env, "PATH"), Some(&"/first".to_string()));
    assert_eq!(lookup(&env, "MISSING"), None);
    let cmd: CommandDescriptor = Wrapper::new(None, &settings(None), &env);
    assert_eq!(value(&cmd, "_VAGGA_PATH"), Some("/first".to_string()));
    assert_eq!(value(&cmd, "VAGGAENV_X"), Some("new".to_string()));
}

#[test]
fn empty_workdir_is_the_root() {
    assert_eq!(workdir_path(""), "/work");
    let mut cmd: CommandDescriptor = Wrapper::new(None, &settings(None), &host(&[]));
    cmd.workdir("");
    assert_eq!(value(&cmd, "_VAGGA_WORKDIR"), Some("/work".to_string()));
}

#[test]
fn relative_workdir_is_joined_to_the_root() {
    assert_eq!(workdir_path("src"), "/work/src");
    assert_eq!(workdir_path("src/lib"), "/work/src/lib");
    assert_eq!(workdir_path("."), "/work/.");
    let mut cmd: CommandDescriptor = Wrapper::new(None, &settings(None), &host(&[]));
    cmd.workdir("src/lib");
    assert_eq!(value(&cmd, "_VAGGA_WORKDIR"), Some("/work/src/lib".to_string()));
    assert!(!workdir_path("src").contains("//"));
}

#[test]
fn absolute_workdir_stands_for_itself() {
    assert_eq!(workdir_path("/srv/app"), "/srv/app");
}

#[test]
fn workdir_keeps_the_rest_of_the_descriptor() {
    let env = host(&[("VAGGAENV_FOO", "bar")]);
    let mut cmd: CommandDescriptor = Wrapper::new(Some("/r"), &settings(None), &env);
    let args = cmd.args.clone();
    cmd.workdir("a");
    cmd.workdir("b");
    assert_eq!(cmd.args, args);
    assert_eq!(value(&cmd, "_VAGGA_WORKDIR"), Some("/work/b".to_string()));
    assert_eq!(value(&cmd, "VAGGAENV_FOO"), Some("bar".to_string()));
}

#[test]
fn descriptor_builder_records_what_it_is_told() {
    let mut cmd = CommandDescriptor::for_program("/bin/true");
    assert!(!cmd.env_cleared);
    cmd.arg("-x");
    cmd.env("A", "1");
    cmd.env("A", "2");
    cmd.unshare(Namespace::Net);
    assert_eq!(cmd.program, "/bin/true");
    assert_eq!(cmd.args, vec!["-x".to_string()]);
    assert_eq!(value(&cmd, "A"), Some("2".to_string()));
    assert_eq!(cmd.namespaces, vec![Namespace::Net]);
    cmd.env_clear();
    assert!(cmd.env_cleared);
    assert_eq!(value(&cmd, "A"), None);
}
