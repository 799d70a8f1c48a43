use owl_control::updates::{installer_url, latest_valid_release, Asset, Release};

fn release(tag: &str, draft: bool, prerelease: bool, assets: &[&str]) -> Release {
    Release {
        html_url: format!("https://example.invalid/{tag}"),
        published_at_nanos: None,
        tag_name: tag.to_string(),
        name: tag.to_string(),
        draft,
        prerelease,
        assets: assets
            .iter()
            .map(|n| Asset { name: n.to_string(), browser_download_url: format!("dl/{n}") })
            .collect(),
    }
}

#[test]
fn first_release_that_is_neither_draft_nor_prerelease() {
    let rs = vec![
        release("v3", true, false, &[]),
        release("v2", false, true, &[]),
        release("v1", false, false, &[]),
        release("v0", false, false, &[]),
    ];
    assert_eq!(latest_valid_release(&rs), Some(2));
    let unusable = vec![release("v3", true, false, &[]), release("v2", false, true, &[])];
    assert_eq!(latest_valid_release(&unusable), None);
    assert_eq!(latest_valid_release(&vec![]), None);
}

#[test]
fn installer_is_the_first_exe_asset() {
    let r = release("v1", false, false, &["notes.txt", "setup.exe", "other.exe"]);
    assert_eq!(installer_url(&r), "dl/setup.exe");
}

#[test]
fn without_installer_the_release_page_is_used() {
    let r = release("v1", false, false, &["app.zip", "exe", "x.EXE"]);
    assert_eq!(installer_url(&r), "https://example.invalid/v1");
}
