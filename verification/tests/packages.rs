use std::sync::Arc;
use vagga_isolation::command::CommandDescriptor;
use vagga_isolation::config::Settings;
use vagga_isolation::packages::{apk_run, ensure, record, Feature, State};

fn capsule() -> State {
    State::new(&Arc::new(Settings {
        storage_subdir_from_env_var: None,
        alpine_mirror: "http://mirror.example/alpine/".to_string(),
        subordinate_uids: vec![],
        subordinate_gids: vec![],
    }))
}

fn strings(items: &[&str]) -> Vec<String> {
    items.iter().map(|s| s.to_string()).collect()
}

fn is_apk(cmd: &CommandDescriptor, args: &[&str]) {
    assert_eq!(cmd.program, "/vagga/bin/apk");
    assert_eq!(cmd.args, strings(args));
    assert!(!cmd.env_cleared);
    assert_eq!(cmd.env, vec![("PATH".to_string(), "/vagga/bin".to_string())]);
    assert!(cmd.namespaces.is_empty());
    assert!(cmd.id_map.is_none());
}

#[test]
fn fresh_capsule_has_nothing() {
    let state = capsule();
    assert!(!state.is_base_ready());
    assert!(state.nothing_installed());
    assert!(!state.has_package("wget"));
}

#[test]
fn no_feature_needs_nothing() {
    let plan = ensure(&capsule(), &[], "v3.15");
    assert!(plan.bootstrap.is_none());
    assert!(plan.install.is_none());
}

#[test]
fn first_feature_sets_the_base_up() {
    let plan = ensure(&capsule(), &[Feature::Https], "v3.15");
    let bootstrap = plan.bootstrap.unwrap();
    assert_eq!(bootstrap.cache_dir, "/vagga/cache/alpine-cache");
    assert_eq!(bootstrap.apk_cache_dir, "/etc/apk/cache");
    assert_eq!(bootstrap.repositories_path, "/etc/apk/repositories");
    assert_eq!(bootstrap.repositories, "http://mirror.example/alpine/v3.15/main\n");
    is_apk(
        &bootstrap.init,
        &["--allow-untrusted", "--initdb", "add", "--force", "/vagga/bin/alpine-keys.apk"],
    );
    let install = plan.install.unwrap();
    assert_eq!(install.packages, strings(&["wget", "ca-certificates"]));
    is_apk(&install.command, &["--update-cache", "add", "wget", "ca-certificates"]);
}

#[test]
fn installer_feature_needs_the_base_only() {
    let plan = ensure(&capsule(), &[Feature::AlpineInstaller], "v3.15");
    assert!(plan.bootstrap.is_some());
    assert!(plan.install.is_none());
}

#[test]
fn each_feature_has_its_packages() {
    let all = [Feature::Gzip, Feature::Bzip2, Feature::Xz, Feature::Git, Feature::Https];
    let plan = ensure(&capsule(), &all, "v3.15");
    assert_eq!(
        plan.install.unwrap().packages,
        strings(&["gzip", "bzip2", "xz", "git", "ca-certificates", "wget", "ca-certificates"])
    );
}

#[test]
fn ready_base_is_not_set_up_again() {
    let mut state = capsule();
    state.base_installed();
    assert!(state.is_base_ready());
    let plan = ensure(&state, &[Feature::Xz], "v3.15");
    assert!(plan.bootstrap.is_none());
    is_apk(&plan.install.unwrap().command, &["--update-cache", "add", "xz"]);
}

#[test]
fn installed_packages_are_not_installed_again() {
    let mut state = capsule();
    state.base_installed();
    state.packages_installed(&strings(&["wget", "ca-certificates", "wget"]));
    assert!(state.has_package("wget"));
    assert!(state.has_package("ca-certificates"));
    assert!(!state.has_package("git"));
    assert!(!state.nothing_installed());
    let plan = ensure(&state, &[Feature::Https, Feature::Git], "v3.15");
    let install = plan.install.unwrap();
    assert_eq!(install.packages, strings(&["git"]));
    is_apk(&install.command, &["add", "git"]);
    state.packages_installed(&install.packages);
    let plan = ensure(&state, &[Feature::Https, Feature::Git], "v3.15");
    assert!(plan.bootstrap.is_none());
    assert!(plan.install.is_none());
}

#[test]
fn package_manager_command() {
    let cmd = apk_run(&["add", "--force"], &strings(&["xz", "git"]));
    is_apk(&cmd, &["add", "--force", "xz", "git"]);
    let bare = apk_run(&[], &[]);
    is_apk(&bare, &[]);
}

#[test]
fn success_of_both_steps_is_recorded() {
    let mut state = capsule();
    let plan = ensure(&state, &[Feature::Https], "v3.15");
    record(&mut state, &plan, true, true);
    assert!(state.is_base_ready());
    assert!(state.has_package("wget"));
    assert!(state.has_package("ca-certificates"));
    assert!(!state.has_package("git"));
}

#[test]
fn failed_bootstrap_records_nothing() {
    let mut state = capsule();
    let plan = ensure(&state, &[Feature::Https], "v3.15");
    record(&mut state, &plan, false, false);
    assert!(!state.is_base_ready());
    assert!(state.nothing_installed());
}

#[test]
fn failed_installation_keeps_the_base() {
    let mut state = capsule();
    let plan = ensure(&state, &[Feature::Git], "v3.15");
    record(&mut state, &plan, true, false);
    assert!(state.is_base_ready());
    assert!(state.nothing_installed());
    let again = ensure(&state, &[Feature::Git], "v3.15");
    assert!(again.bootstrap.is_none());
    assert_eq!(again.install.unwrap().packages, strings(&["git", "ca-certificates"]));
}

#[test]
fn plan_without_steps_records_nothing() {
    let mut state = capsule();
    let plan = ensure(&state, &[], "v3.15");
    record(&mut state, &plan, true, true);
    assert!(!state.is_base_ready());
    assert!(state.nothing_installed());
    let mut ready = capsule();
    ready.base_installed();
    ready.packages_installed(&strings(&["xz"]));
    let plan = ensure(&ready, &[Feature::Xz], "v3.15");
    assert!(plan.bootstrap.is_none() && plan.install.is_none());
    record(&mut ready, &plan, true, true);
    assert!(ready.is_base_ready());
    assert!(ready.has_package("xz"));
}
