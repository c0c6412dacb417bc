//! Tests of path derivation, launch planning, size formatting, and the
//! configuration-blob decoder.

use antigravity_agent::codec::{decrypt_config_data, xor_with_key};
use antigravity_agent::launcher::{
    first_existing_path, get_antigravity_linux_paths, launch_failure_message, launch_plan,
    LaunchCandidate,
};
use antigravity_agent::loginfo::{format_file_size, log_info_absent, log_info_present};
use antigravity_agent::paths::{
    agent_config_dir, find_antigravity_installations, get_antigravity_data_dir,
    get_antigravity_db_path, join_path, snapshot_file_name, AppPaths,
};
use antigravity_agent::platform::HostOs;
use antigravity_agent::text::{str_contains, str_has_prefix, str_has_suffix, str_lt};
use base64::Engine;

#[test]
fn data_dir_choice_per_host() {
    let config = Some("/home/u/.config".to_string());
    let data = Some("/home/u/.local/share".to_string());
    assert_eq!(
        get_antigravity_data_dir(HostOs::Linux, &config, &data),
        Some("/home/u/.config/Antigravity/User/globalStorage".to_string())
    );
    assert_eq!(
        get_antigravity_data_dir(HostOs::Linux, &None, &data),
        Some("/home/u/.local/share/Antigravity/User/globalStorage".to_string())
    );
    assert_eq!(
        get_antigravity_data_dir(HostOs::MacOs, &config, &data),
        Some("/home/u/.local/share/Antigravity/User/globalStorage".to_string())
    );
    let win_config = Some("C:\\Users\\u\\AppData\\Roaming".to_string());
    assert_eq!(
        get_antigravity_data_dir(HostOs::Windows, &win_config, &None),
        Some("C:\\Users\\u\\AppData\\Roaming\\Antigravity\\User\\globalStorage".to_string())
    );
    assert_eq!(get_antigravity_data_dir(HostOs::Windows, &None, &data), None);
}

#[test]
fn installation_candidates_cover_both_bases() {
    let data = Some("/home/u/.local/share".to_string());
    let config = Some("/home/u/.config".to_string());
    assert_eq!(
        find_antigravity_installations(&data, &config, HostOs::Linux),
        vec![
            "/home/u/.local/share/Antigravity".to_string(),
            "/home/u/.config/Antigravity".to_string(),
        ]
    );
    assert_eq!(
        find_antigravity_installations(&None, &config, HostOs::Linux),
        vec!["/home/u/.config/Antigravity".to_string()]
    );
}

#[test]
fn db_path_prefers_validated_custom_path() {
    let custom = Some("/custom/data".to_string());
    let auto = Some("/auto/data".to_string());
    assert_eq!(
        get_antigravity_db_path(HostOs::Linux, &custom, true, &auto),
        Some("/custom/data/state.vscdb".to_string())
    );
    assert_eq!(
        get_antigravity_db_path(HostOs::Linux, &custom, false, &auto),
        Some("/auto/data/state.vscdb".to_string())
    );
    assert_eq!(get_antigravity_db_path(HostOs::Linux, &None, false, &None), None);
}

#[test]
fn agent_config_dir_fallback_chain() {
    assert_eq!(
        agent_config_dir(
            HostOs::Windows,
            &Some("C:\\AppData".to_string()),
            &Some("C:\\Users\\u".to_string()),
            &None
        ),
        "C:\\AppData\\.antigravity-agent"
    );
    assert_eq!(
        agent_config_dir(HostOs::Windows, &None, &Some("C:\\Users\\u".to_string()), &None),
        "C:\\Users\\u\\AppData\\Roaming\\.antigravity-agent"
    );
    assert_eq!(
        agent_config_dir(HostOs::Linux, &None, &None, &Some("/home/u/.config".to_string())),
        "/home/u/.config/.antigravity-agent"
    );
    assert_eq!(agent_config_dir(HostOs::Linux, &None, &None, &None), "./.antigravity-agent");
}

#[test]
fn agent_directory_layout() {
    let agent = "/home/u/.config/.antigravity-agent";
    assert_eq!(AppPaths::log_dir(agent, HostOs::Linux), format!("{}/logs", agent));
    assert_eq!(
        AppPaths::backup_dir(agent, HostOs::Linux),
        format!("{}/antigravity-accounts", agent)
    );
    assert_eq!(AppPaths::profile_backup_dir(agent, HostOs::Linux), format!("{}/backups", agent));
    assert_eq!(join_path("a", "b", HostOs::Windows), "a\\b");
    assert_eq!(snapshot_file_name("user@example.com"), "user@example.com.json");
}

#[test]
fn launch_plan_prefers_validated_custom_executable() {
    let plan = launch_plan(
        HostOs::Linux,
        &Some("/opt/bin/antigravity".to_string()),
        true,
        &Some("/home/u".to_string()),
        &None,
    );
    assert_eq!(plan, vec![LaunchCandidate::FilePath("/opt/bin/antigravity".to_string())]);

    let plan = launch_plan(HostOs::Linux, &None, false, &None, &None);
    assert_eq!(
        plan,
        vec![
            LaunchCandidate::FilePath("/usr/share/antigravity/antigravity".to_string()),
            LaunchCandidate::CommandName("antigravity".to_string()),
            LaunchCandidate::CommandName("Antigravity".to_string()),
        ]
    );

    // the capitalised command comes first elsewhere
    let plan = launch_plan(HostOs::MacOs, &None, false, &None, &None);
    assert_eq!(
        plan.last(),
        Some(&LaunchCandidate::CommandName("antigravity".to_string()))
    );
    assert_eq!(get_antigravity_linux_paths(), vec![
        "/usr/share/antigravity/antigravity".to_string()
    ]);
}

#[test]
fn first_existing_path_picks_first_hit() {
    let paths = vec!["a".to_string(), "b".to_string(), "c".to_string()];
    assert_eq!(first_existing_path(&paths, &vec![false, true, true]), Some(1));
    assert_eq!(first_existing_path(&paths, &vec![false, false, false]), None);
}

#[test]
fn launch_failure_report_lists_attempts() {
    let attempts = vec![
        ("/a/app".to_string(), "file does not exist".to_string()),
        ("app".to_string(), "spawn failed".to_string()),
    ];
    assert_eq!(
        launch_failure_message(&attempts),
        "/a/app: file does not exist\napp: spawn failed"
    );
    assert_eq!(launch_failure_message(&vec![]), "");
}

#[test]
fn file_sizes_render_with_two_decimals() {
    assert_eq!(format_file_size(0), "0 B");
    assert_eq!(format_file_size(1023), "1023 B");
    assert_eq!(format_file_size(1024), "1.00 KB");
    assert_eq!(format_file_size(1536), "1.50 KB");
    assert_eq!(format_file_size(10 * 1024 * 1024), "10.00 MB");
    assert_eq!(format_file_size(3 * 1024 * 1024 * 1024 / 2), "1.50 GB");
}

#[test]
fn log_info_records() {
    let present = log_info_present(2048, "2024-01-01 00:00:00 UTC".to_string());
    assert!(present.exists);
    assert_eq!(present.size_human, "2.00 KB");
    assert_eq!(present.size_bytes, 2048);
    let absent = log_info_absent();
    assert!(!absent.exists);
    assert_eq!(absent.size_human, "0 B");
}

#[test]
fn decrypt_round_trip() {
    let plain = "{\"user\":\"u\",\"token\":\"t\"}";
    let key = "secret";
    let cipher: Vec<u8> = plain
        .as_bytes()
        .iter()
        .enumerate()
        .map(|(i, b)| b ^ key.as_bytes()[i % key.len()])
        .collect();
    let encoded = base64::engine::general_purpose::STANDARD.encode(&cipher);
    assert_eq!(decrypt_config_data(&encoded, key), Ok(plain.to_string()));
}

#[test]
fn decrypt_rejects_bad_inputs() {
    assert!(decrypt_config_data("%%% not base64 %%%", "k").is_err());
    // decodes, but the decrypted bytes are not JSON
    let encoded = base64::engine::general_purpose::STANDARD.encode(b"zzzz");
    assert!(decrypt_config_data(&encoded, "\u{0}").is_err());
    assert!(decrypt_config_data(&encoded, "").is_err());
}

#[test]
fn xor_is_an_involution() {
    let data = vec![1u8, 2, 3, 250, 0, 77];
    let key = vec![9u8, 200];
    let once = xor_with_key(&data, &key);
    let twice = xor_with_key(&once, &key);
    assert_eq!(twice, data);
    assert_ne!(once, data);
}

#[test]
fn string_predicates() {
    assert!(str_has_prefix("antigravity.notification.x", "antigravity.notification."));
    assert!(!str_has_prefix("antigravity.notif", "antigravity.notification."));
    assert!(str_has_suffix("Antigravity Helper (GPU)", "(GPU)"));
    assert!(str_contains("/Applications/Antigravity.app/x", "Antigravity.app"));
    assert!(!str_contains("Chrome", "Antigravity"));
    assert!(str_lt("a", "b"));
    assert!(str_lt("a", "ab"));
    assert!(!str_lt("b", "ab"));
    assert!(!str_lt("a", "a"));
}
