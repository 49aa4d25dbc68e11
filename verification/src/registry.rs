//! The runner registry: discovered installs, the freshness-windowed
//! cache, release resolution against a remote repository, and the
//! decisions of the two runner families' managers.
//!
//! Filesystem scanning and network fetching live in the thin I/O
//! shell; this module holds every decision they delegate: which
//! directory counts as an install, which release asset is taken,
//! which installed version is the latest.

use vstd::prelude::*;

use crate::chars::contains_seq;
use crate::chars::ends_with;
use crate::chars::lower_seq;
use crate::chars::replace_seq;
use crate::chars::starts_with;
use crate::chars::str_to_chars;
use crate::version::dxvk_version_spec;
use crate::version::extract_dxvk_version;
use crate::version::extract_proton_version;
use crate::version::proton_version_spec;
use crate::version::version_key_spec;
use crate::version::version_sort_key;

verus! {

/// Why a release could not be resolved.
#[derive(Debug, Clone, Copy, PartialEq, Eq, Structural)]
pub enum ResolveError {
    /// The remote repository has no release under the requested tag.
    ReleaseNotFound,
    /// The release has no asset the family's rule accepts.
    AssetNotFound,
    /// The requested version is not among the available releases.
    VersionNotFound,
}

impl ResolveError {
    /// A human-readable description of the error.
    pub fn message(&self) -> &'static str {
        match self {
            ResolveError::ReleaseNotFound => "Failed to fetch release info",
            ResolveError::AssetNotFound => "No suitable asset found",
            ResolveError::VersionNotFound => "Version not found in available releases",
        }
    }
}

/// One versioned, on-disk installation of a runner family.
#[derive(Debug, Clone)]
pub struct Runner {
    pub name: String,
    pub version: String,
    pub path: String,
    pub runner_type: RunnerType,
    pub installed: bool,
}

/// The supported runner families.
#[derive(Debug, Clone, Copy, PartialEq, Eq, Structural)]
pub enum RunnerType {
    Proton,
    Wine,
    Dxvk,
}

// ---------------------------------------------------------------------------
// The cache
// ---------------------------------------------------------------------------

/// The current time in Unix seconds.
///
/// Relies on `chrono::Utc::now` and `DateTime::timestamp`: the wall
/// clock as seconds since the epoch. The value depends on the clock,
/// so nothing is promised of it.
#[verifier::external_body]
fn now_unix_seconds() -> i64 {
    chrono::Utc::now().timestamp()
}

/// The discovered runners together with when they were discovered.
/// Stale caches are discarded and rebuilt by a live rescan.
#[derive(Debug, Clone)]
pub struct RunnerCache {
    pub runners: Vec<Runner>,
    pub last_updated: i64,
}

impl RunnerCache {
    /// An empty cache stamped with the current time.
    pub fn new() -> (r: Self)
        ensures
            r.runners@ == Seq::<Runner>::empty(),
    {
        RunnerCache { runners: Vec::new(), last_updated: now_unix_seconds() }
    }

    /// Adds one runner and restamps the cache.
    pub fn add_runner(&mut self, runner: Runner)
        ensures
            final(self).runners@ == old(self).runners@.push(runner),
    {
        self.runners.push(runner);
        self.last_updated = now_unix_seconds();
    }

    /// Whether the cache is still fresh at the given time: strictly
    /// less than one hour old (a future-dated cache counts as fresh).
    pub fn is_fresh_at(&self, now: i64) -> (r: bool)
        ensures
            r == ((now as int) - (self.last_updated as int) < 3600),
    {
        let age: i128 = (now as i128) - (self.last_updated as i128);
        age < 3600
    }

    /// Whether the cache is still fresh now. The answer depends on
    /// the clock; the freshness rule itself is `is_fresh_at`.
    pub fn is_fresh(&self) -> bool {
        let now = now_unix_seconds();
        self.is_fresh_at(now)
    }

    /// The first runner carrying the name, and the version when one is
    /// asked for.
    pub fn find_runner<'a>(&'a self, name: &str, version: Option<&str>) -> (r: Option<&'a Runner>)
        ensures
            match r {
                Some(x) => exists|i: int|
                    0 <= i < self.runners@.len() && #[trigger] cache_match(
                        self.runners@[i],
                        name@,
                        opt_view(version),
                    ) && *x == self.runners@[i] && forall|j: int|
                        0 <= j < i ==> !cache_match(self.runners@[j], name@, opt_view(version)),
                None => forall|i: int|
                    0 <= i < self.runners@.len() ==> !cache_match(
                        #[trigger] self.runners@[i],
                        name@,
                        opt_view(version),
                    ),
            },
    {
        let nc = str_to_chars(name);
        let mut i: usize = 0;
        while i < self.runners.len()
            invariant
                i <= self.runners@.len(),
                nc@ == name@,
                forall|j: int|
                    0 <= j < i ==> !cache_match(
                        #[trigger] self.runners@[j],
                        name@,
                        opt_view(version),
                    ),
            decreases self.runners@.len() - i,
        {
            let rn = str_to_chars(self.runners[i].name.as_str());
            if crate::chars::chars_eq(&rn, &nc) {
                match version {
                    None => {
                        proof {
                            assert(cache_match(self.runners@[i as int], name@, opt_view(version)));
                        }
                        return Some(&self.runners[i]);
                    },
                    Some(v) => {
                        let vc = str_to_chars(v);
                        let rv = str_to_chars(self.runners[i].version.as_str());
                        if crate::chars::chars_eq(&rv, &vc) {
                            proof {
                                assert(cache_match(
                                    self.runners@[i as int],
                                    name@,
                                    opt_view(version),
                                ));
                            }
                            return Some(&self.runners[i]);
                        }
                    },
                }
            }
            i += 1;
        }
        None
    }

    /// All runners of one family, in cache order.
    pub fn get_runners_by_type<'a>(&'a self, runner_type: RunnerType) -> (r: Vec<&'a Runner>)
        ensures
            r@.map_values(|x: &Runner| *x) == runners_of_type(self.runners@, runner_type),
    {
        let mut out: Vec<&Runner> = Vec::new();
        let mut i: usize = 0;
        proof {
            assert(self.runners@.subrange(0, 0) =~= Seq::<Runner>::empty());
            assert(out@.map_values(|x: &Runner| *x) =~= runners_of_type(
                self.runners@.subrange(0, 0),
                runner_type,
            ));
        }
        while i < self.runners.len()
            invariant
                i <= self.runners@.len(),
                out@.map_values(|x: &Runner| *x) == runners_of_type(
                    self.runners@.subrange(0, i as int),
                    runner_type,
                ),
            decreases self.runners@.len() - i,
        {
            let ghost prefix = self.runners@.subrange(0, i as int);
            proof {
                assert(self.runners@.subrange(0, i + 1) =~= prefix.push(self.runners@[i as int]));
                lemma_runners_of_type_push(prefix, self.runners@[i as int], runner_type);
            }
            let ghost pre = out@.map_values(|x: &Runner| *x);
            if self.runners[i].runner_type == runner_type {
                out.push(&self.runners[i]);
                proof {
                    assert(out@.map_values(|x: &Runner| *x) =~= pre.push(self.runners@[i as int]));
                    assert(pre.push(self.runners@[i as int]) =~= pre + seq![
                        self.runners@[i as int],
                    ]);
                }
            } else {
                proof {
                    assert(pre + Seq::<Runner>::empty() =~= pre);
                }
            }
            i += 1;
        }
        proof {
            assert(self.runners@.subrange(0, self.runners@.len() as int) =~= self.runners@);
        }
        out
    }
}

/// The view of an optional string.
pub open spec fn opt_view(v: Option<&str>) -> Option<Seq<char>> {
    match v {
        Some(s) => Some(s@),
        None => None,
    }
}

/// How the cache matches a lookup: by name, and by version when one is
/// asked for.
pub open spec fn cache_match(r: Runner, name: Seq<char>, version: Option<Seq<char>>) -> bool {
    r.name@ == name && (version is None || version == Some(r.version@))
}

/// The runners of one family, in order.
pub open spec fn runners_of_type(s: Seq<Runner>, t: RunnerType) -> Seq<Runner>
    decreases s.len(),
{
    if s.len() == 0 {
        Seq::empty()
    } else {
        (if s[0].runner_type == t {
            seq![s[0]]
        } else {
            Seq::empty()
        }) + runners_of_type(s.drop_first(), t)
    }
}

proof fn lemma_runners_of_type_push(s: Seq<Runner>, x: Runner, t: RunnerType)
    ensures
        runners_of_type(s.push(x), t) == runners_of_type(s, t) + (if x.runner_type == t {
            seq![x]
        } else {
            Seq::<Runner>::empty()
        }),
    decreases s.len(),
{
    let tail: Seq<Runner> = if x.runner_type == t {
        seq![x]
    } else {
        Seq::empty()
    };
    if s.len() == 0 {
        assert(s.push(x)[0] == x);
        assert(s.push(x).drop_first() =~= Seq::<Runner>::empty());
        assert(runners_of_type(Seq::<Runner>::empty(), t) == Seq::<Runner>::empty());
        assert(tail + Seq::<Runner>::empty() =~= tail);
        assert(runners_of_type(s, t) + tail =~= tail);
    } else {
        assert(s.push(x)[0] == s[0]);
        assert(s.push(x).drop_first() =~= s.drop_first().push(x));
        lemma_runners_of_type_push(s.drop_first(), x, t);
        let head: Seq<Runner> = if s[0].runner_type == t {
            seq![s[0]]
        } else {
            Seq::empty()
        };
        assert(runners_of_type(s.push(x), t) == head + (runners_of_type(s.drop_first(), t)
            + tail));
        assert(head + (runners_of_type(s.drop_first(), t) + tail) =~= (head + runners_of_type(
            s.drop_first(),
            t,
        )) + tail);
    }
}

// ---------------------------------------------------------------------------
// Release resolution
// ---------------------------------------------------------------------------

/// The two asset-selection rules the families use.
#[derive(Debug, Clone, Copy, PartialEq, Eq, Structural)]
pub enum AssetRule {
    /// Accepts gzip tarballs.
    TarGz,
    /// Accepts gzip tarballs that are not source bundles.
    TarGzNotSource,
}

/// What a rule accepts.
pub open spec fn asset_rule_matches(rule: AssetRule, name: Seq<char>) -> bool {
    match rule {
        AssetRule::TarGz => ends_with(name, ".tar.gz"@),
        AssetRule::TarGzNotSource => ends_with(name, ".tar.gz"@) && !contains_seq(
            name,
            "source"@,
        ),
    }
}

impl AssetRule {
    /// Whether this rule accepts an asset name.
    pub fn matches(&self, name: &str) -> (r: bool)
        ensures
            r == asset_rule_matches(*self, name@),
    {
        let v = str_to_chars(name);
        let suffix = str_to_chars(".tar.gz");
        let tar = crate::chars::ends_with_chars(&v, &suffix);
        match self {
            AssetRule::TarGz => tar,
            AssetRule::TarGzNotSource => {
                tar && !crate::chars::contains_chars(&v, &str_to_chars("source"))
            },
        }
    }
}

/// The identity and bounds of one family's remote repository.
#[derive(Debug, Clone)]
pub struct GitHubRunnerConfig {
    pub repo_owner: String,
    pub repo_name: String,
    pub user_agent: String,
    pub max_download_size: u64,
    pub asset_rule: AssetRule,
}

/// One release of the remote repository.
#[derive(Debug, Clone)]
pub struct GitHubRelease {
    pub tag_name: String,
    pub name: String,
    pub assets: Vec<GitHubAsset>,
}

/// One downloadable asset of a release.
#[derive(Debug, Clone)]
pub struct GitHubAsset {
    pub name: String,
    pub browser_download_url: String,
    pub size: u64,
}

/// The shared client of the repository-backed runner families.
#[derive(Debug, Clone)]
pub struct BaseGitHubRunner {
    pub config: GitHubRunnerConfig,
    pub cellar_runners_path: String,
}

impl BaseGitHubRunner {
    /// A client for the given repository and store root.
    pub fn new(config: GitHubRunnerConfig, cellar_runners_path: String) -> (r: Self)
        ensures
            r.config == config,
            r.cellar_runners_path@ == cellar_runners_path@,
    {
        BaseGitHubRunner { config, cellar_runners_path }
    }

    /// The release-by-tag endpoint for a version under the family's
    /// tag convention.
    pub fn release_tag_url(&self, version: &str, tag_prefix: &str) -> (r: String)
        ensures
            r@ == "https://api.github.com/repos/"@ + self.config.repo_owner@ + "/"@
                + self.config.repo_name@ + "/releases/tags/"@ + tag_prefix@ + version@,
    {
        String::from_str("https://api.github.com/repos/").concat(
            self.config.repo_owner.as_str(),
        ).concat("/").concat(self.config.repo_name.as_str()).concat("/releases/tags/").concat(
            tag_prefix,
        ).concat(version)
    }

    /// The all-releases endpoint.
    pub fn releases_url(&self) -> (r: String)
        ensures
            r@ == "https://api.github.com/repos/"@ + self.config.repo_owner@ + "/"@
                + self.config.repo_name@ + "/releases"@,
    {
        String::from_str("https://api.github.com/repos/").concat(
            self.config.repo_owner.as_str(),
        ).concat("/").concat(self.config.repo_name.as_str()).concat("/releases")
    }

    /// The first asset the family's rule accepts.
    pub fn select_asset<'a>(&self, assets: &'a Vec<GitHubAsset>) -> (r: Result<
        &'a GitHubAsset,
        ResolveError,
    >)
        ensures
            match r {
                Ok(a) => exists|i: int|
                    0 <= i < assets@.len() && #[trigger] asset_rule_matches(
                        self.config.asset_rule,
                        assets@[i].name@,
                    ) && *a == assets@[i] && forall|j: int|
                        0 <= j < i ==> !asset_rule_matches(
                            self.config.asset_rule,
                            assets@[j].name@,
                        ),
                Err(e) => e == ResolveError::AssetNotFound && forall|i: int|
                    0 <= i < assets@.len() ==> !asset_rule_matches(
                        self.config.asset_rule,
                        (#[trigger] assets@[i]).name@,
                    ),
            },
    {
        let mut i: usize = 0;
        while i < assets.len()
            invariant
                i <= assets@.len(),
                forall|j: int|
                    0 <= j < i ==> !asset_rule_matches(
                        self.config.asset_rule,
                        (#[trigger] assets@[j]).name@,
                    ),
            decreases assets@.len() - i,
        {
            if self.config.asset_rule.matches(assets[i].name.as_str()) {
                return Ok(&assets[i]);
            }
            i += 1;
        }
        Err(ResolveError::AssetNotFound)
    }
}

// ---------------------------------------------------------------------------
// Family managers
// ---------------------------------------------------------------------------

/// The Windows-compatibility runner family, backed by the GE-Proton
/// releases.
#[derive(Debug, Clone)]
pub struct ProtonManager {
    pub steam_path: Option<String>,
    pub base_runner: BaseGitHubRunner,
}

impl ProtonManager {
    /// A manager over the given store root. The third-party launcher's
    /// own library directory, when one is present, is supplied by the
    /// thin I/O shell through `with_steam_path`.
    pub fn new(cellar_runners_path: String) -> (r: Self)
        ensures
            r.steam_path is None,
            r.base_runner.config.repo_owner@ == "GloriousEggroll"@,
            r.base_runner.config.repo_name@ == "proton-ge-custom"@,
            r.base_runner.config.user_agent@ == "cellar/0.1.0"@,
            r.base_runner.config.max_download_size == 2147483648u64,
            r.base_runner.config.asset_rule == AssetRule::TarGz,
            r.base_runner.cellar_runners_path@ == cellar_runners_path@,
    {
        let config = GitHubRunnerConfig {
            repo_owner: String::from_str("GloriousEggroll"),
            repo_name: String::from_str("proton-ge-custom"),
            user_agent: String::from_str("cellar/0.1.0"),
            max_download_size: 2147483648,
            asset_rule: AssetRule::TarGz,
        };
        ProtonManager {
            steam_path: None,
            base_runner: BaseGitHubRunner::new(config, cellar_runners_path),
        }
    }

    /// The same manager with the launcher library path resolved.
    pub fn with_steam_path(self, steam_path: Option<String>) -> (r: Self)
        ensures
            r.steam_path == steam_path,
            r.base_runner == self.base_runner,
    {
        ProtonManager { steam_path, base_runner: self.base_runner }
    }

    /// Judges one directory of the launcher's library: an install when
    /// it is a directory, carries the family's word in its name, and
    /// holds the runner executable.
    pub fn steam_proton_candidate(name: &str, path: &str, is_dir: bool, has_proton_exe: bool) -> (r:
        Option<Runner>)
        ensures
            r is Some <==> is_dir && contains_seq(lower_seq(name@), "proton"@) && has_proton_exe,
            r matches Some(x) ==> x.name@ == name@ && x.version@ == proton_version_spec(name@)
                && x.path@ == path@ && x.runner_type == RunnerType::Proton && x.installed,
    {
        if !is_dir {
            return None;
        }
        let lowered = crate::chars::to_lower_chars(&str_to_chars(name));
        if !crate::chars::contains_chars(&lowered, &str_to_chars("proton")) {
            return None;
        }
        if !has_proton_exe {
            return None;
        }
        Some(
            Runner {
                name: String::from_str(name),
                version: extract_proton_version(name),
                path: String::from_str(path),
                runner_type: RunnerType::Proton,
                installed: true,
            },
        )
    }

    /// Judges one directory of the managed store: an install when it
    /// is a directory holding the runner executable.
    pub fn cellar_proton_candidate(name: &str, path: &str, is_dir: bool, has_proton_exe: bool) -> (
        r: Option<Runner>)
        ensures
            r is Some <==> is_dir && has_proton_exe,
            r matches Some(x) ==> x.name@ == name@ && x.version@ == proton_version_spec(name@)
                && x.path@ == path@ && x.runner_type == RunnerType::Proton && x.installed,
    {
        if !is_dir || !has_proton_exe {
            return None;
        }
        Some(
            Runner {
                name: String::from_str(name),
                version: extract_proton_version(name),
                path: String::from_str(path),
                runner_type: RunnerType::Proton,
                installed: true,
            },
        )
    }

    /// The install directory name for a downloaded archive: its
    /// filename with every `.tar.gz` removed.
    pub fn install_version_from_filename(filename: &str) -> (r: String)
        ensures
            r@ == replace_seq(filename@, ".tar.gz"@, Seq::<char>::empty()),
    {
        let v = str_to_chars(filename);
        let from = str_to_chars(".tar.gz");
        let to: Vec<char> = Vec::new();
        let out = crate::chars::replace_chars(&v, &from, &to);
        proof {
            assert(to@ =~= Seq::<char>::empty());
        }
        crate::chars::chars_to_string(&out)
    }

    /// The tag-version number of a requested version: a full
    /// `GE-Proton{...}` name is reduced to what follows the prefix.
    pub fn download_version_number(version: &str) -> (r: String)
        ensures
            r@ == (if starts_with(version@, "GE-Proton"@) {
                version@.subrange("GE-Proton"@.len() as int, version@.len() as int)
            } else {
                version@
            }),
    {
        let v = str_to_chars(version);
        let prefix = str_to_chars("GE-Proton");
        if crate::chars::starts_with_chars(&v, &prefix) {
            let rest = crate::chars::slice_chars(&v, prefix.len(), v.len());
            crate::chars::chars_to_string(&rest)
        } else {
            String::from_str(version)
        }
    }
}

/// The graphics-translation runner family, backed by the DXVK
/// releases.
#[derive(Debug, Clone)]
pub struct DxvkManager {
    pub base_runner: BaseGitHubRunner,
}

impl DxvkManager {
    /// A manager over the given store root.
    pub fn new(cellar_runners_path: String) -> (r: Self)
        ensures
            r.base_runner.config.repo_owner@ == "doitsujin"@,
            r.base_runner.config.repo_name@ == "dxvk"@,
            r.base_runner.config.user_agent@ == "cellar/0.1.0"@,
            r.base_runner.config.max_download_size == 1073741824u64,
            r.base_runner.config.asset_rule == AssetRule::TarGzNotSource,
            r.base_runner.cellar_runners_path@ == cellar_runners_path@,
    {
        let config = GitHubRunnerConfig {
            repo_owner: String::from_str("doitsujin"),
            repo_name: String::from_str("dxvk"),
            user_agent: String::from_str("cellar/0.1.0"),
            max_download_size: 1073741824,
            asset_rule: AssetRule::TarGzNotSource,
        };
        DxvkManager { base_runner: BaseGitHubRunner::new(config, cellar_runners_path) }
    }

    /// Judges one directory of the managed store: an install when it
    /// is a directory holding either architecture subdirectory.
    pub fn dxvk_candidate(name: &str, path: &str, is_dir: bool, has_x64: bool, has_x32: bool) -> (r:
        Option<Runner>)
        ensures
            r is Some <==> is_dir && (has_x64 || has_x32),
            r matches Some(x) ==> x.name@ == "DXVK-"@ + name@ && x.version@ == dxvk_version_spec(
                name@,
            ) && x.path@ == path@ && x.runner_type == RunnerType::Dxvk && x.installed,
    {
        if !is_dir || (!has_x64 && !has_x32) {
            return None;
        }
        Some(
            Runner {
                name: String::from_str("DXVK-").concat(name),
                version: extract_dxvk_version(name),
                path: String::from_str(path),
                runner_type: RunnerType::Dxvk,
                installed: true,
            },
        )
    }

    /// The version of a downloaded archive, read from its filename:
    /// the `dxvk-` prefix, the `.tar.gz` suffix and a leading `v` are
    /// stripped in turn, each falling back to the whole filename.
    pub fn install_version_from_filename(filename: &str) -> (r: String)
        ensures
            r@ == dxvk_install_version_spec(filename@),
    {
        let f = str_to_chars(filename);
        let p1 = str_to_chars("dxvk-");
        let s1 = if crate::chars::starts_with_chars(&f, &p1) {
            crate::chars::slice_chars(&f, p1.len(), f.len())
        } else {
            clone_chars(&f)
        };
        let p2 = str_to_chars(".tar.gz");
        let s2 = if crate::chars::ends_with_chars(&s1, &p2) {
            crate::chars::slice_chars(&s1, 0, s1.len() - p2.len())
        } else {
            clone_chars(&f)
        };
        let p3 = str_to_chars("v");
        let s3 = if crate::chars::starts_with_chars(&s2, &p3) {
            crate::chars::slice_chars(&s2, p3.len(), s2.len())
        } else {
            clone_chars(&f)
        };
        crate::chars::chars_to_string(&s3)
    }

    /// Strips a leading `v` from each available version, for
    /// consistency with the family's own version tokens.
    pub fn strip_v_prefixes(versions: Vec<String>) -> (r: Vec<String>)
        ensures
            r.deep_view().len() == versions.deep_view().len(),
            forall|i: int|
                0 <= i < versions.deep_view().len() ==> #[trigger] r.deep_view()[i] == (
                if starts_with(versions.deep_view()[i], "v"@) {
                    versions.deep_view()[i].subrange(1, versions.deep_view()[i].len() as int)
                } else {
                    versions.deep_view()[i]
                }),
    {
        let ghost dv = versions.deep_view();
        let p = str_to_chars("v");
        proof {
            assert("v"@.len() == 1) by {
                reveal_strlit("v");
            }
        }
        let mut out: Vec<String> = Vec::new();
        let mut i: usize = 0;
        while i < versions.len()
            invariant
                i <= versions@.len(),
                dv == versions.deep_view(),
                p@ == "v"@,
                p@.len() == 1,
                out@.len() == i,
                forall|k: int|
                    0 <= k < i ==> #[trigger] out@[k]@ == (if starts_with(dv[k], "v"@) {
                        dv[k].subrange(1, dv[k].len() as int)
                    } else {
                        dv[k]
                    }),
            decreases versions@.len() - i,
        {
            let v = str_to_chars(versions[i].as_str());
            proof {
                assert(dv[i as int] =~= versions@[i as int]@);
            }
            if crate::chars::starts_with_chars(&v, &p) {
                let rest = crate::chars::slice_chars(&v, 1, v.len());
                out.push(crate::chars::chars_to_string(&rest));
            } else {
                out.push(versions[i].clone());
            }
            i += 1;
        }
        proof {
            assert forall|i: int| 0 <= i < versions.deep_view().len() implies #[trigger] out.deep_view()[i]
                == (if starts_with(versions.deep_view()[i], "v"@) {
                versions.deep_view()[i].subrange(1, versions.deep_view()[i].len() as int)
            } else {
                versions.deep_view()[i]
            }) by {
                assert(out.deep_view()[i] == out@[i]@);
            }
        }
        out
    }
}

/// Clones a character vector.
fn clone_chars(v: &Vec<char>) -> (r: Vec<char>)
    ensures
        r@ == v@,
{
    crate::chars::slice_chars(v, 0, v.len())
}

/// The result of stripping `dxvk-`, `.tar.gz` and `v` in turn from a
/// filename, each strip falling back to the whole filename when it
/// does not apply.
pub open spec fn dxvk_install_version_spec(f: Seq<char>) -> Seq<char> {
    let s1 = if starts_with(f, "dxvk-"@) {
        f.subrange("dxvk-"@.len() as int, f.len() as int)
    } else {
        f
    };
    let s2 = if ends_with(s1, ".tar.gz"@) {
        s1.subrange(0, s1.len() - ".tar.gz"@.len())
    } else {
        f
    };
    if starts_with(s2, "v"@) {
        s2.subrange("v"@.len() as int, s2.len() as int)
    } else {
        f
    }
}

// ---------------------------------------------------------------------------
// Version matching and the latest pick
// ---------------------------------------------------------------------------

/// How a requested version matches a discovered runner: by its version
/// token, or anywhere in its name.
pub open spec fn runner_version_match(r: Runner, v: Seq<char>) -> bool {
    r.version@ == v || contains_seq(r.name@, v)
}

/// The first runner matching a requested version.
pub fn find_matching_runner<'a>(runners: &'a Vec<Runner>, version: &str) -> (r: Option<
    &'a Runner,
>)
    ensures
        match r {
            Some(x) => exists|i: int|
                0 <= i < runners@.len() && #[trigger] runner_version_match(runners@[i], version@)
                    && *x == runners@[i] && forall|j: int|
                    0 <= j < i ==> !runner_version_match(runners@[j], version@),
            None => forall|i: int|
                0 <= i < runners@.len() ==> !runner_version_match(
                    #[trigger] runners@[i],
                    version@,
                ),
        },
{
    let vc = str_to_chars(version);
    let mut i: usize = 0;
    while i < runners.len()
        invariant
            i <= runners@.len(),
            vc@ == version@,
            forall|j: int| 0 <= j < i ==> !runner_version_match(#[trigger] runners@[j], version@),
        decreases runners@.len() - i,
    {
        let rv = str_to_chars(runners[i].version.as_str());
        if crate::chars::chars_eq(&rv, &vc) {
            proof {
                assert(runner_version_match(runners@[i as int], version@));
            }
            return Some(&runners[i]);
        }
        let rn = str_to_chars(runners[i].name.as_str());
        if crate::chars::contains_chars(&rn, &vc) {
            proof {
                assert(runner_version_match(runners@[i as int], version@));
            }
            return Some(&runners[i]);
        }
        i += 1;
    }
    None
}

/// Position `i` holds the latest runner: no other beats its numeric
/// sort key, and it is the first with that key.
pub open spec fn is_latest_at(runners: Seq<Runner>, i: int) -> bool {
    &&& 0 <= i < runners.len()
    &&& forall|j: int|
        0 <= j < runners.len() ==> version_key_spec(#[trigger] runners[j].version@)
            <= version_key_spec(runners[i].version@)
    &&& forall|j: int|
        0 <= j < i ==> version_key_spec(#[trigger] runners[j].version@) < version_key_spec(
            runners[i].version@,
        )
}

/// The version of the latest runner: the first one whose numeric sort
/// key no other exceeds. Callers must treat this ordering as
/// best-effort, not exact semantic versioning.
pub fn latest_runner_version(runners: &Vec<Runner>) -> (r: Option<String>)
    ensures
        match r {
            Some(v) => exists|i: int| #[trigger] is_latest_at(runners@, i) && v@
                == runners@[i].version@,
            None => runners@.len() == 0,
        },
{
    if runners.len() == 0 {
        return None;
    }
    let mut best: usize = 0;
    let mut best_key: u64 = version_sort_key(runners[0].version.as_str());
    let mut i: usize = 1;
    while i < runners.len()
        invariant
            1 <= i <= runners@.len(),
            best < i,
            best_key as int == version_key_spec(runners@[best as int].version@),
            forall|j: int|
                0 <= j < i ==> version_key_spec(runners@[j].version@) <= best_key as int,
            forall|j: int|
                0 <= j < best ==> version_key_spec(runners@[j].version@) < best_key as int,
        decreases runners@.len() - i,
    {
        let key = version_sort_key(runners[i].version.as_str());
        if key > best_key {
            best = i;
            best_key = key;
        }
        i += 1;
    }
    proof {
        assert(is_latest_at(runners@, best as int));
    }
    Some(runners[best].version.clone())
}

/// The first available version matching a request: an exact match, or
/// the first whose name holds the request or ends with a dash and the
/// request.
pub fn check_version_available(available: &Vec<String>, version: &str) -> (r: Result<
    String,
    ResolveError,
>)
    ensures
        match r {
            Ok(v) => (exists|i: int|
                0 <= i < available.deep_view().len() && #[trigger] available.deep_view()[i]
                    == version@ && v@ == version@) || (v@ != version@ && exists|i: int|
                0 <= i < available.deep_view().len() && #[trigger] partial_version_match(
                    available.deep_view()[i],
                    version@,
                ) && v@ == available.deep_view()[i]),
            Err(e) => e == ResolveError::VersionNotFound && (forall|i: int|
                0 <= i < available.deep_view().len() ==> #[trigger] available.deep_view()[i]
                    != version@) && (forall|i: int|
                0 <= i < available.deep_view().len() ==> !partial_version_match(
                    #[trigger] available.deep_view()[i],
                    version@,
                )),
        },
{
    let ghost dv = available.deep_view();
    let vc = str_to_chars(version);
    let mut i: usize = 0;
    while i < available.len()
        invariant
            i <= available@.len(),
            dv == available.deep_view(),
            vc@ == version@,
            forall|j: int| 0 <= j < i ==> dv[j] != version@,
        decreases available@.len() - i,
    {
        let av = str_to_chars(available[i].as_str());
        proof {
            assert(dv[i as int] =~= available@[i as int]@);
        }
        if crate::chars::chars_eq(&av, &vc) {
            return Ok(String::from_str(version));
        }
        i += 1;
    }
    let dash_version = {
        let mut d: Vec<char> = Vec::new();
        d.push('-');
        let mut k: usize = 0;
        while k < vc.len()
            invariant
                k <= vc@.len(),
                d@ == seq!['-'] + vc@.subrange(0, k as int),
            decreases vc@.len() - k,
        {
            d.push(vc[k]);
            k += 1;
            proof {
                assert(d@ =~= seq!['-'] + vc@.subrange(0, k as int));
            }
        }
        proof {
            assert(vc@.subrange(0, vc@.len() as int) =~= vc@);
        }
        d
    };
    proof {
        assert(dash_version@ == seq!['-'] + version@);
    }
    let mut j: usize = 0;
    while j < available.len()
        invariant
            j <= available@.len(),
            dv == available.deep_view(),
            vc@ == version@,
            dash_version@ == seq!['-'] + version@,
            forall|m: int| 0 <= m < dv.len() ==> dv[m] != version@,
            forall|m: int| 0 <= m < j ==> !partial_version_match(#[trigger] dv[m], version@),
        decreases available@.len() - j,
    {
        let av = str_to_chars(available[j].as_str());
        proof {
            assert(dv[j as int] =~= available@[j as int]@);
        }
        if crate::chars::contains_chars(&av, &vc) || crate::chars::ends_with_chars(
            &av,
            &dash_version,
        ) {
            proof {
                assert(partial_version_match(dv[j as int], version@));
            }
            return Ok(available[j].clone());
        }
        j += 1;
    }
    Err(ResolveError::VersionNotFound)
}

/// A partial version match: the request occurs in the name, or the
/// name ends with a dash and the request.
pub open spec fn partial_version_match(name: Seq<char>, version: Seq<char>) -> bool {
    contains_seq(name, version) || ends_with(name, seq!['-'] + version)
}

} // verus!
