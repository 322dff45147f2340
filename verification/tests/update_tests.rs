use periph_monitor::update::{
    check_for_update, compare_versions, receive_error_message, send_error_message,
    prerelease_parts_of, response_text, status_error_message, version_parts_of, Release,
};

fn release(tag: &str, prerelease: bool, draft: bool) -> Release {
    Release {
        tag_name: tag.to_string(),
        prerelease,
        draft,
        html_url: format!("https://example.invalid/{}", tag),
    }
}

#[test]
fn version_parts() {
    assert_eq!(version_parts_of("v1.10.2"), vec![1, 10, 2]);
    assert_eq!(version_parts_of("vv2.0"), vec![2, 0]);
    assert_eq!(version_parts_of("1.2.3-beta"), vec![1, 2, 3]);
    assert_eq!(version_parts_of("v2.0.0-rc.1-x"), vec![2, 0, 0]);
    assert_eq!(version_parts_of(""), Vec::<u32>::new());
}

#[test]
fn version_comparison() {
    assert!(compare_versions("1.2.0", "1.10.0"));
    assert!(!compare_versions("1.10.0", "1.2.0"));
    assert!(!compare_versions("1.2.0", "1.2.0"));
    assert!(compare_versions("1.2", "1.2.1"));
    assert!(!compare_versions("1.2.1", "1.2"));
    assert!(compare_versions("v0.9", "1.0"));
}

#[test]
fn prerelease_parts() {
    assert_eq!(prerelease_parts_of("1.3.0-beta.1"), Some(vec![1]));
    assert_eq!(prerelease_parts_of("v2.0.0-rc.2.5"), Some(vec![2, 5]));
    assert_eq!(prerelease_parts_of("1.3.0-beta"), Some(Vec::<u32>::new()));
    assert_eq!(prerelease_parts_of("1.3.0"), None);
}

#[test]
fn release_is_newer_than_its_prerelease() {
    assert!(compare_versions("1.3.0-beta.1", "1.3.0"));
    assert!(!compare_versions("1.3.0", "1.3.0-beta.1"));
    assert!(compare_versions("1.3.0-beta.1", "1.3.0-beta.2"));
    assert!(!compare_versions("1.3.0-beta.2", "1.3.0-beta.1"));
    assert!(!compare_versions("1.3.0-beta.1", "1.3.0-beta.1"));
    assert!(compare_versions("1.3.0", "1.3.1-beta.1"));
    assert!(!compare_versions("1.3.1-beta.1", "1.3.0"));
}

#[test]
fn update_check_picks_first_offered_release() {
    let releases = vec![release("v2.0.0-rc1", true, false), release("v1.5.0", false, true), release("v1.4.0", false, false)];
    let info = check_for_update("1.3.0", false, &releases);
    assert!(info.has_update);
    assert_eq!(info.current_version, "1.3.0");
    assert_eq!(info.latest_version, "1.4.0");
    assert_eq!(info.release_url, "https://example.invalid/v1.4.0");
    let pre = check_for_update("1.3.0", true, &releases);
    assert_eq!(pre.latest_version, "2.0.0-rc1");
    assert!(pre.has_update);
    let same = check_for_update("1.4.0", false, &releases);
    assert!(!same.has_update);
}

#[test]
fn update_check_without_releases() {
    let info = check_for_update("1.3.0", false, &vec![release("v9", false, true)]);
    assert!(!info.has_update);
    assert_eq!(info.latest_version, "1.3.0");
    assert_eq!(info.release_url, "");
}

#[test]
fn network_error_messages() {
    assert_eq!(send_error_message(12007), "DNS 解析失败");
    assert_eq!(send_error_message(12002), "网络连接超时");
    assert_eq!(send_error_message(12030), "网络连接超时");
    assert_eq!(send_error_message(5), "网络错误 (5)");
    assert_eq!(receive_error_message(12007), "网络错误 (12007)");
    assert_eq!(receive_error_message(12002), "网络连接超时");
    assert_eq!(status_error_message(200), None);
    assert_eq!(status_error_message(403), Some("GitHub API 请求过于频繁，请稍后再试".to_string()));
    assert_eq!(status_error_message(502), Some("GitHub 服务器错误 (502)".to_string()));
}

#[test]
fn response_body_read_as_utf8() {
    assert_eq!(response_text(vec![0x68, 0x69]), Ok("hi".to_string()));
    assert_eq!(response_text("版本".as_bytes().to_vec()), Ok("版本".to_string()));
    assert_eq!(response_text(vec![0xff, 0x68]), Err("响应编码错误".to_string()));
    assert_eq!(response_text(Vec::new()), Ok(String::new()));
}
