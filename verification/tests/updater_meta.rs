use appflow::updater::{bearer_value, download_acceptable, ApiResponse, ApiResponseAsset, GithubUpdater};

fn asset(name: &str, url: &str) -> ApiResponseAsset {
    ApiResponseAsset {
        name: name.to_string(),
        size: 1,
        content_type: "application/octet-stream".to_string(),
        url: url.to_string(),
    }
}

#[test]
fn release_url_names_owner_and_repo() {
    let u = GithubUpdater {
        repo: "myrepo".to_string(),
        owner: "me".to_string(),
        token: None,
        app_name: "myapp".to_string(),
    };
    assert_eq!(
        u.release_url(),
        "https://api.github.com/repos/me/myrepo/releases/latest"
    );
}

#[test]
fn bearer_value_prefixes_the_token() {
    assert_eq!(bearer_value("SECRET-REDACTED"), "Bearer SECRET-REDACTED");
}

#[test]
fn find_asset_picks_the_first_match() {
    let response = ApiResponse {
        name: "v1.2.3".to_string(),
        assets: vec![
            asset("other", "u0"),
            asset("myapp", "u1"),
            asset("myapp", "u2"),
        ],
    };
    let i = response.find_asset("myapp").unwrap();
    assert_eq!(i, 1);
    assert_eq!(response.assets[i].url, "u1");
    assert!(response.find_asset("absent").is_none());
}

#[test]
fn only_a_plain_success_is_downloadable() {
    assert!(download_acceptable(200));
    assert!(!download_acceptable(302));
    assert!(!download_acceptable(404));
    assert!(!download_acceptable(500));
}
