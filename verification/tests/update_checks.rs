//! Tests of update discovery: tag derivation, installer selection,
//! fetch-outcome handling, and install planning.

use quickrun::assets::find_installer_asset;
use quickrun::assets::Asset;
use quickrun::update::check_for_update_impl;
use quickrun::update::derive_version;
use quickrun::update::installer_filename;
use quickrun::update::next_install_step;
use quickrun::update::plan_install;
use quickrun::update::ApiError;
use quickrun::update::FetchOutcome;
use quickrun::update::InstallPlan;
use quickrun::update::ReleaseInfo;
use quickrun::update::UpdateInfo;

fn asset(name: &str, url: &str) -> Asset {
    Asset { name: String::from(name), url: String::from(url) }
}

fn release(tag: &str, body: Option<&str>, assets: Vec<Asset>) -> ReleaseInfo {
    ReleaseInfo {
        tag_name: String::from(tag),
        body: body.map(String::from),
        html_url: String::from("https://github.com/Swatto86/QuickRun/releases/tag/latest"),
        assets,
    }
}

#[test]
fn tag_marker_is_stripped_once() {
    assert_eq!(derive_version("v1.5.0"), String::from("1.5.0"));
    assert_eq!(derive_version("1.5.0"), String::from("1.5.0"));
    assert_eq!(derive_version("v"), String::from(""));
    assert_eq!(derive_version(""), String::from(""));
    assert_eq!(derive_version("vv1.0.0"), String::from("v1.0.0"));
}

#[test]
fn setup_asset_is_preferred() {
    let assets = vec![
        asset("QuickRun-Portable.exe", "https://dl/portable"),
        asset("QuickRun-Setup.exe", "https://dl/setup"),
        asset("QuickRun-Setup.msi", "https://dl/msi"),
    ];
    assert_eq!(find_installer_asset(&assets), Some(String::from("https://dl/setup")));
}

#[test]
fn selection_is_case_insensitive() {
    let assets = vec![asset("QUICKRUN-SETUP.EXE", "https://dl/upper")];
    assert_eq!(find_installer_asset(&assets), Some(String::from("https://dl/upper")));
}

#[test]
fn fallback_takes_any_non_portable_executable() {
    let assets = vec![
        asset("Other-Portable.exe", "https://dl/portable"),
        asset("Other-Setup.exe", "https://dl/other"),
    ];
    assert_eq!(find_installer_asset(&assets), Some(String::from("https://dl/other")));
}

#[test]
fn no_matching_asset_selects_nothing() {
    let assets = vec![
        asset("QuickRun-Portable.exe", "https://dl/portable"),
        asset("QuickRun-Setup.msi", "https://dl/msi"),
        asset("README.md", "https://dl/readme"),
    ];
    assert_eq!(find_installer_asset(&assets), None);
    assert_eq!(find_installer_asset(&Vec::new()), None);
}

#[test]
fn not_found_reads_as_no_update() {
    let r = check_for_update_impl("1.0.0", FetchOutcome::NotFound).unwrap();
    assert!(!r.available);
    assert_eq!(r.version, String::from("1.0.0"));
    assert_eq!(r.current_version, String::from("1.0.0"));
    assert_eq!(r.body, String::from(""));
    assert_eq!(r.release_url, String::from("https://github.com/Swatto86/QuickRun/releases"));
    assert_eq!(r.installer_url, None);
}

#[test]
fn other_http_errors_propagate() {
    let outcome = FetchOutcome::HttpError(ApiError {
        status: 500,
        body: String::from("server fell over"),
    });
    let e = check_for_update_impl("1.0.0", outcome).unwrap_err();
    assert_eq!(e.status, 500);
    assert_eq!(e.body, String::from("server fell over"));
}

#[test]
fn newer_release_is_available() {
    let rel = release(
        "v1.5.0",
        Some("notes"),
        vec![asset("QuickRun-Setup.exe", "https://dl/setup")],
    );
    let r = check_for_update_impl("1.0.0", FetchOutcome::Release(rel)).unwrap();
    assert!(r.available);
    assert_eq!(r.version, String::from("1.5.0"));
    assert_eq!(r.body, String::from("notes"));
    assert_eq!(r.current_version, String::from("1.0.0"));
    assert_eq!(r.installer_url, Some(String::from("https://dl/setup")));
}

#[test]
fn same_or_older_release_is_not_available() {
    let rel = release("v1.0.0", None, Vec::new());
    let r = check_for_update_impl("1.0.0", FetchOutcome::Release(rel)).unwrap();
    assert!(!r.available);
    assert_eq!(r.body, String::from(""));

    let older = release("0.9.0", None, Vec::new());
    let r = check_for_update_impl("1.0.0", FetchOutcome::Release(older)).unwrap();
    assert!(!r.available);
}

#[test]
fn malformed_tag_never_offers_an_update() {
    let rel = release("not-a-version", None, Vec::new());
    let r = check_for_update_impl("1.0.0", FetchOutcome::Release(rel)).unwrap();
    assert!(!r.available);
    assert_eq!(r.version, String::from("not-a-version"));
}

#[test]
fn checking_twice_answers_identically() {
    let make = || {
        release(
            "v2.0.0",
            Some("changes"),
            vec![
                asset("QuickRun-Portable.exe", "https://dl/portable"),
                asset("QuickRun-Setup.exe", "https://dl/setup"),
            ],
        )
    };
    let a = check_for_update_impl("1.0.0", FetchOutcome::Release(make())).unwrap();
    let b = check_for_update_impl("1.0.0", FetchOutcome::Release(make())).unwrap();
    assert_eq!(a.available, b.available);
    assert_eq!(a.version, b.version);
    assert_eq!(a.body, b.body);
    assert_eq!(a.current_version, b.current_version);
    assert_eq!(a.release_url, b.release_url);
    assert_eq!(a.installer_url, b.installer_url);
}

#[test]
fn installer_file_name_is_the_last_url_segment() {
    assert_eq!(
        installer_filename("https://dl/a/b/QuickRun-Setup.exe"),
        String::from("QuickRun-Setup.exe")
    );
    assert_eq!(installer_filename("name.exe"), String::from("name.exe"));
    assert_eq!(installer_filename("https://dl/a/"), String::from("quickrun-setup.exe"));
    assert_eq!(installer_filename(""), String::from("quickrun-setup.exe"));
}

#[test]
fn install_plan_prefers_the_installer() {
    let info = UpdateInfo {
        available: true,
        version: String::from("1.5.0"),
        body: String::from(""),
        current_version: String::from("1.0.0"),
        release_url: String::from("https://github.com/Swatto86/QuickRun/releases"),
        installer_url: Some(String::from("https://dl/a/QuickRun-Setup.exe")),
    };
    match plan_install(&info) {
        InstallPlan::RunInstaller { url, filename } => {
            assert_eq!(url, String::from("https://dl/a/QuickRun-Setup.exe"));
            assert_eq!(filename, String::from("QuickRun-Setup.exe"));
        }
        InstallPlan::OpenBrowser { .. } => panic!("expected the installer plan"),
    }
}

#[test]
fn failed_installer_step_falls_back_once() {
    let info = UpdateInfo {
        available: true,
        version: String::from("1.5.0"),
        body: String::from(""),
        current_version: String::from("1.0.0"),
        release_url: String::from("https://github.com/Swatto86/QuickRun/releases"),
        installer_url: Some(String::from("https://dl/a/QuickRun-Setup.exe")),
    };
    let first = plan_install(&info);
    match next_install_step(&info, &first) {
        Some(InstallPlan::OpenBrowser { url }) => {
            assert_eq!(url, String::from("https://github.com/Swatto86/QuickRun/releases"));
        }
        other => panic!("expected the browser fallback, got {:?}", other),
    }
    let fallback = InstallPlan::OpenBrowser {
        url: String::from("https://github.com/Swatto86/QuickRun/releases"),
    };
    assert!(next_install_step(&info, &fallback).is_none());
}

#[test]
fn install_plan_falls_back_to_the_release_page() {
    let info = UpdateInfo {
        available: true,
        version: String::from("1.5.0"),
        body: String::from(""),
        current_version: String::from("1.0.0"),
        release_url: String::from("https://github.com/Swatto86/QuickRun/releases"),
        installer_url: None,
    };
    match plan_install(&info) {
        InstallPlan::OpenBrowser { url } => {
            assert_eq!(url, String::from("https://github.com/Swatto86/QuickRun/releases"));
        }
        InstallPlan::RunInstaller { .. } => panic!("expected the browser plan"),
    }
}
