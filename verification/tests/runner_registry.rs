use cellar::registry::AssetRule;
use cellar::registry::BaseGitHubRunner;
use cellar::registry::DxvkManager;
use cellar::registry::GitHubAsset;
use cellar::registry::GitHubRunnerConfig;
use cellar::registry::ProtonManager;
use cellar::registry::ResolveError;
use cellar::registry::Runner;
use cellar::registry::RunnerCache;
use cellar::registry::RunnerType;
use cellar::registry::check_version_available;
use cellar::registry::find_matching_runner;
use cellar::registry::latest_runner_version;
use cellar::version::extract_dxvk_version;
use cellar::version::extract_proton_version;
use cellar::version::extract_version_number;
use cellar::version::version_sort_key;

#[test]
fn mod_test_runner_cache() {
    let mut cache = RunnerCache::new();

    let proton_runner = Runner {
        name: "Test Proton".to_string(),
        version: "1.0".to_string(),
        path: "/test/path".to_string(),
        runner_type: RunnerType::Proton,
        installed: true,
    };

    let wine_runner = Runner {
        name: "Test Wine".to_string(),
        version: "8.0".to_string(),
        path: "/test/wine".to_string(),
        runner_type: RunnerType::Wine,
        installed: true,
    };

    cache.add_runner(proton_runner.clone());
    cache.add_runner(wine_runner.clone());
    assert_eq!(cache.runners.len(), 2);

    let found = cache.find_runner("Test Proton", Some("1.0"));
    assert!(found.is_some());
    assert_eq!(found.unwrap().name, "Test Proton");

    let found_no_version = cache.find_runner("Test Proton", None);
    assert!(found_no_version.is_some());

    let proton_runners = cache.get_runners_by_type(RunnerType::Proton);
    assert_eq!(proton_runners.len(), 1);
    assert_eq!(proton_runners[0].name, "Test Proton");

    let wine_runners = cache.get_runners_by_type(RunnerType::Wine);
    assert_eq!(wine_runners.len(), 1);
    assert_eq!(wine_runners[0].name, "Test Wine");

    let dxvk_runners = cache.get_runners_by_type(RunnerType::Dxvk);
    assert_eq!(dxvk_runners.len(), 0);
}

#[test]
fn runners_test_runner_cache() {
    let mut cache = RunnerCache::new();

    let runner = Runner {
        name: "Test Runner".to_string(),
        version: "1.0".to_string(),
        path: "/test/path".to_string(),
        runner_type: RunnerType::Proton,
        installed: true,
    };

    cache.add_runner(runner.clone());
    assert_eq!(cache.runners.len(), 1);

    let found = cache.find_runner("Test Runner", Some("1.0"));
    assert!(found.is_some());
    assert_eq!(found.unwrap().name, "Test Runner");

    let found_no_version = cache.find_runner("Test Runner", None);
    assert!(found_no_version.is_some());
}

#[test]
fn test_runner_cache_basic() {
    let mut cache = RunnerCache::new();

    let runner = Runner {
        name: "Test".to_string(),
        version: "1.0".to_string(),
        path: "/test".to_string(),
        runner_type: RunnerType::Proton,
        installed: true,
    };

    cache.add_runner(runner);
    assert_eq!(cache.runners.len(), 1);
}

#[test]
fn test_cache_freshness_window() {
    let cache = RunnerCache::new();
    // a cache is fresh right after creation
    assert!(cache.is_fresh());
    // the window is strictly one hour
    assert!(cache.is_fresh_at(cache.last_updated + 3599));
    assert!(!cache.is_fresh_at(cache.last_updated + 3600));
    // a future-dated cache counts as fresh
    assert!(cache.is_fresh_at(cache.last_updated - 10));
}

#[test]
fn mod_test_runner_creation() {
    let runner = Runner {
        name: "GE-Proton8-32".to_string(),
        version: "8-32".to_string(),
        path: "/path/to/proton".to_string(),
        runner_type: RunnerType::Proton,
        installed: true,
    };

    assert_eq!(runner.name, "GE-Proton8-32");
    assert_eq!(runner.version, "8-32");
    assert!(runner.installed);
}

#[test]
fn runners_test_runner_creation() {
    let runner = Runner {
        name: "GE-Proton8-32".to_string(),
        version: "8-32".to_string(),
        path: "/path/to/proton".to_string(),
        runner_type: RunnerType::Proton,
        installed: true,
    };

    assert_eq!(runner.name, "GE-Proton8-32");
    assert_eq!(runner.version, "8-32");
    assert!(runner.installed);
}

#[test]
fn commands_test_version_extraction() {
    let key = |name: &str| -> f64 {
        let (major, minor) = extract_version_number(name);
        major as f64 + (minor as f64 / 100.0)
    };
    assert_eq!(key("GE-Proton9-1"), 9.01);
    assert_eq!(key("GE-Proton10-10"), 10.10);
    assert_eq!(key("GE-Proton8-32"), 8.32);

    assert_eq!(key("some-version-5"), 5.0);
    assert_eq!(key("no-numbers"), 0.0);
}

#[test]
fn cli_test_version_extraction() {
    let key = |name: &str| -> f64 {
        let (major, minor) = extract_version_number(name);
        major as f64 + (minor as f64 / 100.0)
    };
    assert_eq!(key("GE-Proton9-1"), 9.01);
    assert_eq!(key("GE-Proton10-10"), 10.10);
    assert_eq!(key("GE-Proton8-32"), 8.32);

    assert_eq!(key("some-version-5"), 5.0);
    assert_eq!(key("no-numbers"), 0.0);
}

#[test]
fn test_version_parts_exact() {
    assert_eq!(extract_version_number("GE-Proton9-1"), (9, 1));
    assert_eq!(extract_version_number("GE-Proton10-10"), (10, 10));
    assert_eq!(extract_version_number("some-version-5"), (5, 0));
    assert_eq!(extract_version_number("no-numbers"), (0, 0));
    assert_eq!(version_sort_key("GE-Proton9-1"), 901);
    assert_eq!(version_sort_key("GE-Proton10-10"), 1010);
}

#[test]
fn test_latest_version_numeric_not_lexicographic() {
    // two installed versions: the numeric-aware compare must pick the
    // ten-series one, where a lexicographic compare would pick nine
    let runners = vec![
        Runner {
            name: "GE-Proton9-1".to_string(),
            version: "9-1".to_string(),
            path: "/a".to_string(),
            runner_type: RunnerType::Proton,
            installed: true,
        },
        Runner {
            name: "GE-Proton10-10".to_string(),
            version: "10-10".to_string(),
            path: "/b".to_string(),
            runner_type: RunnerType::Proton,
            installed: true,
        },
    ];
    assert_eq!(latest_runner_version(&runners).unwrap(), "10-10");

    let by_full_name = vec![
        Runner {
            name: "GE-Proton9-1".to_string(),
            version: "GE-Proton9-1".to_string(),
            path: "/a".to_string(),
            runner_type: RunnerType::Proton,
            installed: true,
        },
        Runner {
            name: "GE-Proton10-10".to_string(),
            version: "GE-Proton10-10".to_string(),
            path: "/b".to_string(),
            runner_type: RunnerType::Proton,
            installed: true,
        },
    ];
    assert_eq!(latest_runner_version(&by_full_name).unwrap(), "GE-Proton10-10");

    assert!(latest_runner_version(&vec![]).is_none());
}

#[test]
fn test_proton_version_extraction() {
    assert_eq!(extract_proton_version("GE-Proton8-32"), "8-32");
    assert_eq!(extract_proton_version("Proton 8.0"), "8.0");
    assert_eq!(extract_proton_version("proton-9"), "9");
    assert_eq!(extract_proton_version("unknown"), "unknown");
}

#[test]
fn test_dxvk_version_extraction() {
    assert_eq!(extract_dxvk_version("dxvk-2.3.1"), "2.3.1");
    assert_eq!(extract_dxvk_version("v1.10"), "1.10");
    assert_eq!(extract_dxvk_version("unknown"), "unknown");
}

#[test]
fn test_find_matching_runner() {
    let runners = vec![
        Runner {
            name: "GE-Proton9-1".to_string(),
            version: "9-1".to_string(),
            path: "/a".to_string(),
            runner_type: RunnerType::Proton,
            installed: true,
        },
    ];
    assert!(find_matching_runner(&runners, "9-1").is_some());
    assert!(find_matching_runner(&runners, "GE-Proton9").is_some());
    assert!(find_matching_runner(&runners, "8-0").is_none());
}

#[test]
fn test_manager_configurations() {
    let pm = ProtonManager::new("/store/runners".to_string());
    assert!(pm.steam_path.is_none());
    assert_eq!(pm.base_runner.config.repo_owner, "GloriousEggroll");
    assert_eq!(pm.base_runner.config.repo_name, "proton-ge-custom");
    assert_eq!(pm.base_runner.config.user_agent, "cellar/0.1.0");
    assert_eq!(pm.base_runner.config.max_download_size, 2 * 1024 * 1024 * 1024);
    assert_eq!(pm.base_runner.cellar_runners_path, "/store/runners");

    let dm = DxvkManager::new("/store/runners".to_string());
    assert_eq!(dm.base_runner.config.repo_owner, "doitsujin");
    assert_eq!(dm.base_runner.config.repo_name, "dxvk");
    assert_eq!(dm.base_runner.config.max_download_size, 1024 * 1024 * 1024);
}

#[test]
fn test_release_urls() {
    let runner = BaseGitHubRunner::new(
        GitHubRunnerConfig {
            repo_owner: "owner".to_string(),
            repo_name: "repo".to_string(),
            user_agent: "agent".to_string(),
            max_download_size: 1000,
            asset_rule: AssetRule::TarGz,
        },
        "/runners".to_string(),
    );
    assert_eq!(
        runner.release_tag_url("9-1", "GE-Proton"),
        "https://api.github.com/repos/owner/repo/releases/tags/GE-Proton9-1"
    );
    assert_eq!(runner.releases_url(), "https://api.github.com/repos/owner/repo/releases");
}

#[test]
fn test_asset_selection() {
    let runner = BaseGitHubRunner::new(
        GitHubRunnerConfig {
            repo_owner: "owner".to_string(),
            repo_name: "repo".to_string(),
            user_agent: "agent".to_string(),
            max_download_size: 1000,
            asset_rule: AssetRule::TarGzNotSource,
        },
        "/runners".to_string(),
    );
    let assets = vec![
        GitHubAsset {
            name: "notes.txt".to_string(),
            browser_download_url: "u1".to_string(),
            size: 5,
        },
        GitHubAsset {
            name: "dxvk-source.tar.gz".to_string(),
            browser_download_url: "u2".to_string(),
            size: 10,
        },
        GitHubAsset {
            name: "dxvk-2.3.tar.gz".to_string(),
            browser_download_url: "u3".to_string(),
            size: 20,
        },
    ];
    let chosen = runner.select_asset(&assets).unwrap();
    assert_eq!(chosen.name, "dxvk-2.3.tar.gz");

    let none = vec![
        GitHubAsset {
            name: "notes.txt".to_string(),
            browser_download_url: "u1".to_string(),
            size: 5,
        },
    ];
    assert!(matches!(runner.select_asset(&none), Err(ResolveError::AssetNotFound)));
}

#[test]
fn test_install_version_from_filenames() {
    assert_eq!(
        ProtonManager::install_version_from_filename("GE-Proton9-1.tar.gz"),
        "GE-Proton9-1"
    );
    // each strip falls back to the whole filename: without a leading
    // `v` on the stripped form, the name passes through unchanged
    assert_eq!(
        DxvkManager::install_version_from_filename("dxvk-2.3.1.tar.gz"),
        "dxvk-2.3.1.tar.gz"
    );
    assert_eq!(DxvkManager::install_version_from_filename("dxvk-v2.3.1.tar.gz"), "2.3.1");
    assert_eq!(DxvkManager::install_version_from_filename("other.zip"), "other.zip");
}

#[test]
fn test_download_version_number() {
    assert_eq!(ProtonManager::download_version_number("GE-Proton10-10"), "10-10");
    assert_eq!(ProtonManager::download_version_number("10-10"), "10-10");
}

#[test]
fn test_strip_v_prefixes() {
    let stripped = DxvkManager::strip_v_prefixes(vec![
        "v2.3".to_string(),
        "2.2".to_string(),
        "v1.10.3".to_string(),
    ]);
    assert_eq!(stripped, vec!["2.3".to_string(), "2.2".to_string(), "1.10.3".to_string()]);
}

#[test]
fn test_check_version_available() {
    let available = vec![
        "GE-Proton9-1".to_string(),
        "GE-Proton10-10".to_string(),
    ];
    assert_eq!(check_version_available(&available, "GE-Proton9-1").unwrap(), "GE-Proton9-1");
    assert_eq!(check_version_available(&available, "10-10").unwrap(), "GE-Proton10-10");
    assert_eq!(
        check_version_available(&available, "7-0"),
        Err(ResolveError::VersionNotFound)
    );
}

#[test]
fn test_runner_candidates() {
    let steam = ProtonManager::steam_proton_candidate("Proton 9.0 (Beta)", "/lib/p9", true, true);
    let found = steam.unwrap();
    assert_eq!(found.name, "Proton 9.0 (Beta)");
    assert_eq!(found.version, "9.0");
    assert_eq!(found.path, "/lib/p9");
    assert!(found.installed);

    // not a runner install without the executable stub
    assert!(ProtonManager::steam_proton_candidate("Proton 9.0", "/lib/p9", true, false).is_none());
    // the launcher scan requires the family's word in the name
    assert!(ProtonManager::steam_proton_candidate("SomeGame", "/lib/g", true, true).is_none());

    let cellar = ProtonManager::cellar_proton_candidate("GE-Proton8-32", "/store/p", true, true);
    assert_eq!(cellar.unwrap().version, "8-32");

    let dxvk = DxvkManager::dxvk_candidate("v2.3.1", "/store/d", true, true, false);
    let d = dxvk.unwrap();
    assert_eq!(d.name, "DXVK-v2.3.1");
    assert_eq!(d.version, "2.3.1");
    assert!(DxvkManager::dxvk_candidate("v2.3.1", "/store/d", true, false, false).is_none());
}
