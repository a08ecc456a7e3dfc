use hypnos_audio::bluetooth::{endpoint_transition, is_headphone_form_factor, DeviceEvent, EndpointState, FormFactor};
use hypnos_audio::notifications::{toast_xml, xml_escape, Notice};
use hypnos_audio::startup::{reg_sz_data, run_value_delete_outcome, run_value_query_outcome};
use hypnos_audio::tray::{tray_command, TrayCommand, TrayMenuItem};
use hypnos_audio::updater::{check_and_download_notify, configured_repo_url, github_repo_url, should_download, UpdateCheckStatus};

#[test]
fn endpoint_states_map_to_headset_events() {
    assert_eq!(endpoint_transition(EndpointState::Active), Some(DeviceEvent::HeadsetConnected));
    assert_eq!(endpoint_transition(EndpointState::NotPresent), Some(DeviceEvent::HeadsetDisconnected));
    assert_eq!(endpoint_transition(EndpointState::Unplugged), Some(DeviceEvent::HeadsetDisconnected));
    assert_eq!(endpoint_transition(EndpointState::Disabled), None);
    assert_eq!(endpoint_transition(EndpointState::Other), None);
}

#[test]
fn only_headphones_and_headsets_count() {
    assert!(is_headphone_form_factor(Some(FormFactor::Headphones)));
    assert!(is_headphone_form_factor(Some(FormFactor::Headset)));
    assert!(!is_headphone_form_factor(Some(FormFactor::Other)));
    assert!(!is_headphone_form_factor(None));
}

#[test]
fn xml_escape_replaces_special_characters() {
    assert_eq!(xml_escape("a<b>&\"c\""), "a&lt;b&gt;&amp;&quot;c&quot;");
    assert_eq!(xml_escape("plain text"), "plain text");
    assert_eq!(xml_escape(""), "");
    assert_eq!(xml_escape("耳机 & 音量"), "耳机 &amp; 音量");
    assert_eq!(xml_escape("&amp;"), "&amp;amp;");
    assert_eq!(xml_escape("it's"), "it's");
}

#[test]
fn toast_xml_builds_two_line_toast_with_icon() {
    let xml = toast_xml("file:///C:/Apps/assets/icon.png", "Hypnos <Audio>", "a & b");
    assert_eq!(
        xml,
        "<toast>\n  <visual>\n    <binding template=\"ToastText02\">\n      <image placement=\"appLogoOverride\" src=\"file:///C:/Apps/assets/icon.png\"/>\n      <text id=\"1\">Hypnos &lt;Audio&gt;</text>\n      <text id=\"2\">a &amp; b</text>\n    </binding>\n  </visual>\n</toast>"
    );
}

#[test]
fn toast_xml_escapes_the_icon_uri() {
    let xml = toast_xml("a\"b&c", "", "");
    assert!(xml.contains("src=\"a&quot;b&amp;c\"/>"));
}

#[test]
fn notices_have_their_texts_and_tags() {
    assert_eq!(Notice::HeadsetConnected.title(), "Hypnos Audio");
    assert_eq!(Notice::HeadsetConnected.body(), "耳机已连接，音量已恢复");
    assert_eq!(Notice::HeadsetConnected.tag(), Some("headset-connected"));
    assert_eq!(Notice::HeadsetDisconnected.body(), "耳机已断开，系统已静音");
    assert_eq!(Notice::HeadsetDisconnected.tag(), Some("headset-disconnected"));
    assert_eq!(Notice::UpdateDownloaded.body(), "发现新版本，已下载，将在下次启动时更新");
    assert_eq!(Notice::UpToDate.body(), "当前已是最新版本");
    assert_eq!(Notice::UpdateCheckFailed.body(), "更新检查失败，请稍后再试");
    assert_eq!(Notice::UpdateCheckFailed.tag(), None);
}

#[test]
fn registry_query_codes() {
    assert_eq!(run_value_query_outcome(0), Ok(true));
    assert_eq!(run_value_query_outcome(2), Ok(false));
    assert_eq!(run_value_query_outcome(5), Err(5));
    assert_eq!(run_value_delete_outcome(0), Ok(()));
    assert_eq!(run_value_delete_outcome(2), Ok(()));
    assert_eq!(run_value_delete_outcome(5), Err(5));
}

#[test]
fn reg_sz_data_is_little_endian_with_terminator() {
    assert_eq!(reg_sz_data(&vec![]), vec![0, 0]);
    assert_eq!(reg_sz_data(&vec![0x0041, 0x263A]), vec![0x41, 0x00, 0x3A, 0x26, 0, 0]);
    let path: Vec<u16> = "C:\\Apps\\hypnos.exe".encode_utf16().collect();
    let data = reg_sz_data(&path);
    assert_eq!(data.len(), 2 * path.len() + 2);
    let back: Vec<u16> = data.chunks(2).map(|c| u16::from_le_bytes([c[0], c[1]])).collect();
    assert_eq!(&back[..path.len()], &path[..]);
    assert_eq!(back[path.len()], 0);
}

#[test]
fn update_feed_and_decisions() {
    assert_eq!(
        github_repo_url("starknt/hypnos-audio"),
        "https://github.com/starknt/hypnos-audio"
    );
    assert_eq!(
        configured_repo_url(Some("owner/repo".to_string())),
        Some("https://github.com/owner/repo".to_string())
    );
    assert_eq!(configured_repo_url(None), None);
    assert_eq!(configured_repo_url(Some(String::new())), None);
    assert!(should_download(UpdateCheckStatus::UpdateAvailable));
    assert!(!should_download(UpdateCheckStatus::NoUpdateAvailable));
    assert!(!should_download(UpdateCheckStatus::RemoteIsEmpty));
    assert!(!should_download(UpdateCheckStatus::CheckFailed));
    assert_eq!(check_and_download_notify(Ok(true)), Notice::UpdateDownloaded);
    assert_eq!(check_and_download_notify(Ok(false)), Notice::UpToDate);
    assert_eq!(check_and_download_notify(Err("offline".to_string())), Notice::UpdateCheckFailed);
}

#[test]
fn tray_clicks_become_commands() {
    assert_eq!(tray_command(TrayMenuItem::Exit, false), TrayCommand::Shutdown);
    assert_eq!(tray_command(TrayMenuItem::CheckForUpdates, true), TrayCommand::CheckForUpdates);
    assert_eq!(tray_command(TrayMenuItem::LaunchOnStartup, true), TrayCommand::SetLaunchOnStartup(true));
    assert_eq!(tray_command(TrayMenuItem::LaunchOnStartup, false), TrayCommand::SetLaunchOnStartup(false));
}
