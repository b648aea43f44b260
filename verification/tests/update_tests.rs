use gravador::update::{check_release, strip_leading_v, ReleaseAsset, ReleaseInfo};

fn asset(name: Option<&str>, url: Option<&str>) -> ReleaseAsset {
    ReleaseAsset { name: name.map(|s| s.to_string()), browser_download_url: url.map(|s| s.to_string()) }
}

#[test]
fn newer_release_is_offered_with_installer() {
    let info = ReleaseInfo {
        tag_name: Some("v1.3.0".to_string()),
        body: Some("notas".to_string()),
        assets: Some(vec![
            asset(Some("app.zip"), Some("https://x/app.zip")),
            asset(Some("AMS_Setup.exe"), Some("https://x/setup.exe")),
        ]),
    };
    let offer = check_release(&info, "1.2.5").expect("offer");
    assert_eq!(offer.version, "1.3.0");
    assert_eq!(offer.body, "notas");
    assert_eq!(offer.download_url, "https://x/setup.exe");
}

#[test]
fn same_or_older_release_is_not_offered() {
    let info = ReleaseInfo { tag_name: Some("v1.2.0".to_string()), body: None, assets: None };
    assert!(check_release(&info, "1.2").is_none());
    assert!(check_release(&info, "1.3").is_none());
    let none = ReleaseInfo { tag_name: None, body: None, assets: None };
    assert!(check_release(&none, "0.1").is_none());
}

#[test]
fn first_installer_decides_the_address() {
    let info = ReleaseInfo {
        tag_name: Some("2.0".to_string()),
        body: None,
        assets: Some(vec![asset(Some("Setup-a.exe"), None), asset(Some("Setup-b.exe"), Some("https://b"))]),
    };
    let offer = check_release(&info, "1.0").unwrap();
    assert_eq!(offer.download_url, "");
    assert_eq!(offer.body, "");
}

#[test]
fn no_installer_gives_empty_address() {
    let info = ReleaseInfo {
        tag_name: Some("vv3".to_string()),
        body: None,
        assets: Some(vec![asset(None, Some("https://a")), asset(Some("setup.exe"), Some("https://b"))]),
    };
    let offer = check_release(&info, "2.9").unwrap();
    assert_eq!(offer.version, "3");
    assert_eq!(offer.download_url, "");
}

#[test]
fn leading_vs_are_stripped() {
    assert_eq!(strip_leading_v("vvv1.0"), "1.0");
    assert_eq!(strip_leading_v("1.0v"), "1.0v");
    assert_eq!(strip_leading_v(""), "");
}
