use vagga_isolation::command::{CommandDescriptor, Namespace};
use vagga_isolation::config::Settings;
use vagga_isolation::native::{has_nul, to_command};
use vagga_isolation::uidmap::{IdentityMap, MapEntry};
use vagga_isolation::wrap::Wrapper;

fn host(pairs: &[(&str, &str)]) -> Vec<(String, String)> {
    pairs.iter().map(|(k, v)| (k.to_string(), v.to_string())).collect()
}

fn printed(desc: &CommandDescriptor, ambient: &[(&str, &str)]) -> String {
    format!("{:?}", to_command(desc, &host(ambient)).unwrap())
}

#[test]
fn program_and_arguments_reach_the_command() {
    let mut desc = CommandDescriptor::for_program("/bin/echo");
    desc.env_clear();
    desc.arg("hello");
    desc.arg("wide world");
    assert_eq!(
        printed(&desc, &[("IGNORED", "1")]),
        "<Command \"/bin/echo\" \"hello\" \"wide world\"; environ: {}>"
    );
}

#[test]
fn cleared_environment_holds_the_set_variables_only() {
    let mut desc = CommandDescriptor::for_program("/bin/env");
    desc.env_clear();
    desc.env("A", "1");
    desc.env("A", "2");
    assert_eq!(
        printed(&desc, &[("HOST", "x")]),
        "<Command \"/bin/env\"; environ: {\"A\"=\"2\",}>"
    );
}

#[test]
fn inherited_environment_is_overridden_by_set_variables() {
    let mut desc = CommandDescriptor::for_program("/bin/env");
    desc.env("PATH", "/vagga/bin");
    assert_eq!(
        printed(&desc, &[("PATH", "/usr/bin")]),
        "<Command \"/bin/env\"; environ: {\"PATH\"=\"/vagga/bin\",}>"
    );
    let text = printed(&desc, &[("PATH", "/usr/bin"), ("HOME", "/h")]);
    assert!(text.contains("\"PATH\"=\"/vagga/bin\","));
    assert!(text.contains("\"HOME\"=\"/h\","));
    assert!(!text.contains("/usr/bin"));
}

#[test]
fn identity_map_reaches_the_command() {
    let mut desc = CommandDescriptor::for_program("/bin/true");
    desc.env_clear();
    desc.unshare(Namespace::Mount);
    desc.id_map = Some(IdentityMap {
        uids: vec![MapEntry { inside: 0, outside: 100000, count: 10 }],
        gids: vec![MapEntry { inside: 5, outside: 200000, count: 2 }],
    });
    let text = printed(&desc, &[]);
    assert!(text.contains("uid_map=[UidMap { inside_uid: 0, outside_uid: 100000, count: 10 }]"));
    assert!(text.contains("gid_map=[GidMap { inside_gid: 5, outside_gid: 200000, count: 2 }]"));
}

#[test]
fn wrapper_descriptor_becomes_a_command() {
    let settings = Settings {
        storage_subdir_from_env_var: None,
        alpine_mirror: String::new(),
        subordinate_uids: vec![],
        subordinate_gids: vec![],
    };
    let env = host(&[("PATH", "/usr/bin"), ("UNRELATED", "baz")]);
    let desc: CommandDescriptor = Wrapper::new(Some("/r"), &settings, &env);
    let text = format!("{:?}", to_command(&desc, &env).unwrap());
    assert_eq!(
        text,
        "<Command \"/proc/self/exe\" \"__wrapper__\" \"--root\" \"/r\"; \
         environ: {\"_VAGGA_PATH\"=\"/usr/bin\",}>"
    );
}

#[test]
fn nul_in_the_command_line_is_refused() {
    assert!(has_nul("a\0b"));
    assert!(has_nul("\0"));
    assert!(!has_nul("ab"));
    assert!(!has_nul(""));
    let bad_program = CommandDescriptor::for_program("/bin/e\0cho");
    assert!(to_command(&bad_program, &vec![]).is_none());
    let mut bad_arg = CommandDescriptor::for_program("/bin/echo");
    bad_arg.arg("fine");
    bad_arg.arg("not\0fine");
    assert!(to_command(&bad_arg, &vec![]).is_none());
    let mut nul_in_env = CommandDescriptor::for_program("/bin/echo");
    nul_in_env.env_clear();
    nul_in_env.env("A", "x\0y");
    assert!(to_command(&nul_in_env, &vec![]).is_some());
}
