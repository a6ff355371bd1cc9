//! Packages of the build capsule: which ones a set of features needs, and
//! what has to be done to have them installed.

use vstd::prelude::*;
use vstd::string::*;
use std::sync::Arc;
use crate::command::{views, CommandDescriptor};
use crate::config::Settings;

verus! {

/// Something that the capsule can be asked to be able to do.
#[derive(Clone, Copy, Debug, PartialEq, Eq, Structural)]
pub enum Feature {
    Https,
    Gzip,
    Bzip2,
    Xz,
    AlpineInstaller,
    Git,
}

/// What is known to be set up in the capsule.
pub struct State {
    capsule_base: bool,
    installed_packages: Vec<String>,
    settings: Arc<Settings>,
}

/// The packages that one feature needs, in the order they are asked for.
/// The installer feature needs the base only.
pub open spec fn feature_packages(feature: Feature) -> Seq<Seq<char>> {
    match feature {
        Feature::AlpineInstaller => seq![],
        Feature::Https => seq!["wget"@, "ca-certificates"@],
        Feature::Gzip => seq!["gzip"@],
        Feature::Bzip2 => seq!["bzip2"@],
        Feature::Xz => seq!["xz"@],
        Feature::Git => seq!["git"@, "ca-certificates"@],
    }
}

/// The packages that a list of features needs, feature by feature. A package
/// that two features need stands twice.
pub open spec fn requested_packages(features: Seq<Feature>) -> Seq<Seq<char>>
    decreases features.len(),
{
    if features.len() == 0 {
        seq![]
    } else {
        requested_packages(features.drop_last()) + feature_packages(features.last())
    }
}

/// The packages of `queue` that are not in `installed`, in their order.
pub open spec fn missing_packages(queue: Seq<Seq<char>>, installed: Set<Seq<char>>) -> Seq<
    Seq<char>,
>
    decreases queue.len(),
{
    if queue.len() == 0 {
        seq![]
    } else if installed.contains(queue.last()) {
        missing_packages(queue.drop_last(), installed)
    } else {
        missing_packages(queue.drop_last(), installed).push(queue.last())
    }
}

/// The names that a list of strings holds.
pub open spec fn names_in(items: Seq<String>) -> Set<Seq<char>> {
    Set::new(|name: Seq<char>| exists|i: int| 0 <= i < items.len() && #[trigger] items[i]@ == name)
}

/// The line that names the package repository of a release on a mirror.
pub open spec fn repositories_text(mirror: Seq<char>, version: Seq<char>) -> Seq<char> {
    mirror + version + "/main\n"@
}

/// Whether `cmd` runs the package manager with the given arguments: in the
/// starting process's environment but for its own search path, and in no new
/// namespace.
pub open spec fn is_apk_command(cmd: &CommandDescriptor, args: Seq<Seq<char>>) -> bool {
    &&& cmd.program@ == "/vagga/bin/apk"@
    &&& cmd.arg_views() == args
    &&& !cmd.env_cleared
    &&& cmd.env_map() == Map::<Seq<char>, Seq<char>>::empty().insert("PATH"@, "/vagga/bin"@)
    &&& cmd.namespaces@.len() == 0
    &&& cmd.id_map is None
}

/// The views of a slice of string slices.
pub open spec fn str_views(items: Seq<&str>) -> Seq<Seq<char>> {
    items.map_values(|s: &str| s@)
}

/// Calls `Arc::clone`: the result points to the same settings.
#[verifier::external_body]
fn share_settings(settings: &Arc<Settings>) -> (shared: Arc<Settings>)
    ensures
        shared == settings,
{
    settings.clone()
}

impl State {
    /// Whether the base of the capsule has been set up.
    pub closed spec fn base_ready(&self) -> bool {
        self.capsule_base
    }

    /// The packages known to be installed.
    pub closed spec fn installed(&self) -> Set<Seq<char>> {
        names_in(self.installed_packages@)
    }

    /// The settings that the capsule works under.
    pub closed spec fn settings(&self) -> Settings {
        *self.settings
    }

    /// No package is recorded twice.
    pub closed spec fn wf(&self) -> bool {
        forall|i: int, j: int|
            0 <= i < j < self.installed_packages@.len() ==> self.installed_packages@[i]@
                != self.installed_packages@[j]@
    }

    /// The state of a capsule in which nothing has been set up yet.
    pub fn new(settings: &Arc<Settings>) -> (state: State)
        ensures
            state.wf(),
            !state.base_ready(),
            state.installed() == Set::<Seq<char>>::empty(),
            state.settings() == **settings,
    {
        let state = State {
            capsule_base: false,
            installed_packages: Vec::new(),
            settings: share_settings(settings),
        };
        proof {
            assert(state.installed() =~= Set::<Seq<char>>::empty());
        }
        state
    }

    /// Whether the base of the capsule has been set up.
    pub fn is_base_ready(&self) -> (ready: bool)
        ensures
            ready == self.base_ready(),
    {
        self.capsule_base
    }

    /// Whether a package is known to be installed.
    pub fn has_package(&self, name: &str) -> (found: bool)
        ensures
            found == self.installed().contains(name@),
    {
        let wanted = String::from_str(name);
        let mut i: usize = 0;
        while i < self.installed_packages.len()
            invariant
                i <= self.installed_packages.len(),
                wanted@ == name@,
                forall|j: int| 0 <= j < i ==> self.installed_packages@[j]@ != name@,
            decreases self.installed_packages.len() - i,
        {
            if self.installed_packages[i] == wanted {
                return true;
            }
            i += 1;
        }
        false
    }

    /// Whether no package is known to be installed.
    pub fn nothing_installed(&self) -> (none: bool)
        ensures
            none == (self.installed() == Set::<Seq<char>>::empty()),
    {
        let none = self.installed_packages.len() == 0;
        proof {
            if none {
                assert(self.installed() =~= Set::<Seq<char>>::empty());
            } else {
                assert(self.installed().contains(self.installed_packages@[0]@));
            }
        }
        none
    }

    /// Records that the base of the capsule has been set up.
    pub fn base_installed(&mut self)
        ensures
            old(self).wf() ==> final(self).wf(),
            final(self).base_ready(),
            final(self).installed() == old(self).installed(),
            final(self).settings() == old(self).settings(),
    {
        self.capsule_base = true;
    }

    /// Records that the given packages have been installed.
    pub fn packages_installed(&mut self, packages: &Vec<String>)
        ensures
            old(self).wf() ==> final(self).wf(),
            final(self).base_ready() == old(self).base_ready(),
            final(self).installed() == old(self).installed().union(names_in(packages@)),
            final(self).settings() == old(self).settings(),
    {
        let mut i: usize = 0;
        proof {
            assert(names_in(packages@.take(0)) =~= Set::<Seq<char>>::empty());
            assert(self.installed() =~= old(self).installed().union(names_in(packages@.take(0))));
        }
        while i < packages.len()
            invariant
                i <= packages.len(),
                old(self).wf() ==> self.wf(),
                self.capsule_base == old(self).capsule_base,
                self.settings == old(self).settings,
                self.installed() == old(self).installed().union(names_in(packages@.take(i as int))),
            decreases packages.len() - i,
        {
            let ghost before = self.installed_packages@;
            let known = self.has_package(packages[i].as_str());
            if !known {
                self.installed_packages.push(packages[i].clone());
            }
            proof {
                let name = packages@[i as int]@;
                let after = self.installed_packages@;
                let seen = packages@.take(i as int);
                let seen_next = packages@.take(i + 1);
                assert(seen_next[i as int]@ == name);
                assert forall|n: Seq<char>| names_in(seen_next).contains(n) <==> (names_in(
                    seen,
                ).contains(n) || n == name) by {
                    if names_in(seen_next).contains(n) {
                        let k = choose|k: int| 0 <= k < seen_next.len() && seen_next[k]@ == n;
                        if k < i {
                            assert(seen[k]@ == n);
                        }
                    }
                    if names_in(seen).contains(n) {
                        let k = choose|k: int| 0 <= k < seen.len() && seen[k]@ == n;
                        assert(seen_next[k]@ == n);
                    }
                }
                assert forall|n: Seq<char>| names_in(after).contains(n) <==> (names_in(
                    before,
                ).contains(n) || n == name) by {
                    if names_in(after).contains(n) {
                        let k = choose|k: int| 0 <= k < after.len() && after[k]@ == n;
                        if k < before.len() {
                            assert(before[k]@ == n);
                        }
                    }
                    if names_in(before).contains(n) {
                        let k = choose|k: int| 0 <= k < before.len() && before[k]@ == n;
                        assert(after[k]@ == n);
                    }
                    if n == name {
                        if known {
                            assert(names_in(before).contains(n));
                        } else {
                            assert(after[before.len() as int]@ == n);
                        }
                    }
                }
                assert(self.installed() =~= old(self).installed().union(names_in(seen_next)));
            }
            i += 1;
        }
        proof {
            assert(packages@.take(i as int) =~= packages@);
        }
    }
}

/// Setting up the base of the capsule: the package cache is bound into
/// place, the signing keys are installed, and the repository is named.
#[derive(Debug)]
pub struct Bootstrap {
    /// Directory that holds the package cache; made if it is missing.
    pub cache_dir: String,
    /// Directory that the package manager looks for its cache in; made with
    /// its parents, and the cache directory is bound onto it.
    pub apk_cache_dir: String,
    /// The command that installs the signing keys.
    pub init: CommandDescriptor,
    /// File that names the repositories.
    pub repositories_path: String,
    /// What the file is to hold.
    pub repositories: String,
}

/// Installing packages.
#[derive(Debug)]
pub struct Install {
    /// The command that installs them.
    pub command: CommandDescriptor,
    /// The packages that it installs.
    pub packages: Vec<String>,
}

/// What has to be done for a set of features, in this order: the bootstrap,
/// where the base is not set up, then the installation, where packages are
/// missing.
#[derive(Debug)]
pub struct Plan {
    pub bootstrap: Option<Bootstrap>,
    pub install: Option<Install>,
}

/// The arguments that install the signing keys.
pub open spec fn init_args() -> Seq<Seq<char>> {
    seq![
        "--allow-untrusted"@,
        "--initdb"@,
        "add"@,
        "--force"@,
        "/vagga/bin/alpine-keys.apk"@,
    ]
}

/// The arguments that install packages. The package index is fetched along
/// with the first packages.
pub open spec fn install_args(first: bool) -> Seq<Seq<char>> {
    if first {
        seq!["--update-cache"@, "add"@]
    } else {
        seq!["add"@]
    }
}

/// Whether `bootstrap` sets the base up for a mirror and a release.
pub open spec fn is_bootstrap(bootstrap: &Bootstrap, mirror: Seq<char>, version: Seq<char>) -> bool {
    &&& bootstrap.cache_dir@ == "/vagga/cache/alpine-cache"@
    &&& bootstrap.apk_cache_dir@ == "/etc/apk/cache"@
    &&& is_apk_command(&bootstrap.init, init_args())
    &&& bootstrap.repositories_path@ == "/etc/apk/repositories"@
    &&& bootstrap.repositories@ == repositories_text(mirror, version)
}

/// Whether `install` installs exactly `packages`, as the first installation
/// or a later one.
pub open spec fn is_install(install: &Install, first: bool, packages: Seq<Seq<char>>) -> bool {
    &&& views(install.packages@) == packages
    &&& is_apk_command(&install.command, install_args(first) + packages)
}

/// Whether `plan` is what the features ask for in a capsule in this state.
///
/// No feature asks for nothing. Otherwise the base is set up unless it is
/// ready, and the packages of the features that are not installed yet are
/// installed, in the order of the features.
pub open spec fn is_plan_for(
    plan: &Plan,
    capsule: &State,
    features: Seq<Feature>,
    version: Seq<char>,
) -> bool {
    let missing = missing_packages(requested_packages(features), capsule.installed());
    &&& match plan.bootstrap {
        Some(bootstrap) => features.len() > 0 && !capsule.base_ready() && is_bootstrap(
            &bootstrap,
            capsule.settings().alpine_mirror@,
            version,
        ),
        None => features.len() == 0 || capsule.base_ready(),
    }
    &&& match plan.install {
        Some(install) => missing.len() > 0 && is_install(
            &install,
            capsule.installed() == Set::<Seq<char>>::empty(),
            missing,
        ),
        None => missing.len() == 0,
    }
}

/// Appending a string appends its view.
proof fn lemma_views_push(items: Seq<String>, item: String)
    ensures
        views(items.push(item)) == views(items).push(item@),
{
    assert(views(items.push(item)) =~= views(items).push(item@));
}

/// The command that runs the package manager with `args` followed by
/// `packages`.
pub fn apk_run(args: &[&str], packages: &[String]) -> (cmd: CommandDescriptor)
    ensures
        is_apk_command(&cmd, str_views(args@) + views(packages@)),
{
    let mut cmd = CommandDescriptor::for_program("/vagga/bin/apk");
    cmd.env("PATH", "/vagga/bin");
    proof {
        assert(cmd.arg_views() =~= str_views(args@.take(0)));
    }
    let mut i: usize = 0;
    while i < args.len()
        invariant
            i <= args.len(),
            cmd.program@ == "/vagga/bin/apk"@,
            !cmd.env_cleared,
            cmd.env_map() == Map::<Seq<char>, Seq<char>>::empty().insert("PATH"@, "/vagga/bin"@),
            cmd.namespaces@.len() == 0,
            cmd.id_map is None,
            cmd.arg_views() == str_views(args@.take(i as int)),
        decreases args.len() - i,
    {
        cmd.arg(args[i]);
        proof {
            assert(str_views(args@.take(i as int)).push(args@[i as int]@) =~= str_views(
                args@.take(i + 1),
            ));
        }
        i += 1;
    }
    proof {
        assert(args@.take(i as int) =~= args@);
        assert(cmd.arg_views() =~= str_views(args@) + views(packages@.take(0)));
    }
    let mut j: usize = 0;
    while j < packages.len()
        invariant
            j <= packages.len(),
            cmd.program@ == "/vagga/bin/apk"@,
            !cmd.env_cleared,
            cmd.env_map() == Map::<Seq<char>, Seq<char>>::empty().insert("PATH"@, "/vagga/bin"@),
            cmd.namespaces@.len() == 0,
            cmd.id_map is None,
            cmd.arg_views() == str_views(args@) + views(packages@.take(j as int)),
        decreases packages.len() - j,
    {
        cmd.arg(packages[j].as_str());
        proof {
            assert((str_views(args@) + views(packages@.take(j as int))).push(packages@[j as int]@)
                =~= str_views(args@) + views(packages@.take(j + 1)));
        }
        j += 1;
    }
    proof {
        assert(packages@.take(j as int) =~= packages@);
    }
    cmd
}

/// Adds the packages of one feature to a queue.
fn queue_feature(queue: &mut Vec<String>, feature: Feature)
    ensures
        views(final(queue)@) == views(old(queue)@) + feature_packages(feature),
{
    let ghost before = queue@;
    match feature {
        Feature::AlpineInstaller => {},
        Feature::Https => {
            queue.push(String::from_str("wget"));
            queue.push(String::from_str("ca-certificates"));
        },
        Feature::Gzip => {
            queue.push(String::from_str("gzip"));
        },
        Feature::Bzip2 => {
            queue.push(String::from_str("bzip2"));
        },
        Feature::Xz => {
            queue.push(String::from_str("xz"));
        },
        Feature::Git => {
            queue.push(String::from_str("git"));
            queue.push(String::from_str("ca-certificates"));
        },
    }
    proof {
        assert(views(queue@) =~= views(before) + feature_packages(feature));
    }
}

/// Works out what has to be done so that the capsule has the given features.
/// Nothing is done here: the caller carries the plan out and records each
/// part that succeeded with `base_installed` and `packages_installed`.
///
/// `version` names the release whose repository is used.
pub fn ensure(capsule: &State, features: &[Feature], version: &str) -> (plan: Plan)
    ensures
        is_plan_for(&plan, capsule, features@, version@),
{
    if features.len() == 0 {
        return Plan { bootstrap: None, install: None };
    }
    let bootstrap = if !capsule.capsule_base {
        let no_packages: Vec<String> = Vec::new();
        let init = apk_run(
            &["--allow-untrusted", "--initdb", "add", "--force", "/vagga/bin/alpine-keys.apk"],
            no_packages.as_slice(),
        );
        proof {
            assert(init.arg_views() =~= init_args());
        }
        Some(
            Bootstrap {
                cache_dir: String::from_str("/vagga/cache/alpine-cache"),
                apk_cache_dir: String::from_str("/etc/apk/cache"),
                init,
                repositories_path: String::from_str("/etc/apk/repositories"),
                repositories: capsule.settings.alpine_mirror.clone().concat(version).concat(
                    "/main\n",
                ),
            },
        )
    } else {
        None
    };
    let mut queue: Vec<String> = Vec::new();
    let mut i: usize = 0;
    proof {
        assert(views(queue@) =~= requested_packages(features@.take(0)));
    }
    while i < features.len()
        invariant
            i <= features.len(),
            views(queue@) == requested_packages(features@.take(i as int)),
        decreases features.len() - i,
    {
        proof {
            assert(features@.take(i + 1).drop_last() =~= features@.take(i as int));
        }
        queue_feature(&mut queue, features[i]);
        i += 1;
    }
    proof {
        assert(features@.take(i as int) =~= features@);
    }
    let mut missing: Vec<String> = Vec::new();
    let mut k: usize = 0;
    proof {
        assert(views(missing@) =~= missing_packages(views(queue@).take(0), capsule.installed()));
    }
    while k < queue.len()
        invariant
            k <= queue.len(),
            views(missing@) == missing_packages(views(queue@).take(k as int), capsule.installed()),
        decreases queue.len() - k,
    {
        proof {
            assert(views(queue@).take(k + 1).drop_last() =~= views(queue@).take(k as int));
            assert(views(queue@).take(k + 1).last() == queue@[k as int]@);
            lemma_views_push(missing@, queue@[k as int]);
        }
        if !capsule.has_package(queue[k].as_str()) {
            let package = queue[k].clone();
            proof {
                lemma_views_push(missing@, package);
            }
            missing.push(package);
        }
        k += 1;
    }
    proof {
        assert(views(queue@).take(k as int) =~= views(queue@));
    }
    let install = if missing.len() > 0 {
        let first = capsule.nothing_installed();
        let command = if first {
            apk_run(&["--update-cache", "add"], missing.as_slice())
        } else {
            apk_run(&["add"], missing.as_slice())
        };
        proof {
            assert(command.arg_views() =~= install_args(first) + views(missing@));
        }
        Some(Install { command, packages: missing })
    } else {
        None
    };
    Plan { bootstrap, install }
}

/// The packages that a plan installs; none where it installs nothing.
pub open spec fn plan_packages(plan: &Plan) -> Set<Seq<char>> {
    match plan.install {
        Some(install) => names_in(install.packages@),
        None => Set::empty(),
    }
}

/// Records what carrying a plan out has achieved. `bootstrap_ok` says that
/// the bootstrap of the plan was run and succeeded, `install_ok` that its
/// installation was. The installation is run only after the bootstrap, where
/// the plan has one, succeeded.
///
/// The base is ready afterwards where it was before or the plan's bootstrap
/// succeeded. The installed packages grow by those of the plan where its
/// installation succeeded, and are unchanged otherwise.
pub fn record(capsule: &mut State, plan: &Plan, bootstrap_ok: bool, install_ok: bool)
    ensures
        old(capsule).wf() ==> final(capsule).wf(),
        final(capsule).base_ready() == (old(capsule).base_ready() || (plan.bootstrap is Some
            && bootstrap_ok)),
        final(capsule).installed() == if plan.install is Some && install_ok {
            old(capsule).installed().union(plan_packages(plan))
        } else {
            old(capsule).installed()
        },
        final(capsule).settings() == old(capsule).settings(),
{
    if plan.bootstrap.is_some() && bootstrap_ok {
        capsule.base_installed();
    }
    if install_ok {
        if let Some(install) = &plan.install {
            capsule.packages_installed(&install.packages);
        }
    }
}

} // verus!
