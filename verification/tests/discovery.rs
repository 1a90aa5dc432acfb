use ohmypi_prompt_files::discovery::OhMyPiDiscoverySettings;

#[test]
fn key_paths_name_the_skill_settings() {
    let paths = OhMyPiDiscoverySettings::key_paths();
    assert_eq!(paths[0], &["skills", "enabled"]);
    assert_eq!(paths[1], &["skills", "enableClaudeUser"]);
    assert_eq!(paths[2], &["skills", "enableClaudeProject"]);
    assert_eq!(paths[3], &["skills", "enableCodexUser"]);
    assert_eq!(paths[4], &["skills", "enablePiUser"]);
    assert_eq!(paths[5], &["skills", "enablePiProject"]);
    assert_eq!(paths[6], &["skills", "enableAgentsUser"]);
    assert_eq!(paths[7], &["skills", "enableAgentsProject"]);
}

#[test]
fn settings_round_trip_through_values() {
    let settings = OhMyPiDiscoverySettings {
        skills_enabled: Some(true),
        skills_enable_claude_user: None,
        skills_enable_claude_project: Some(false),
        skills_enable_codex_user: None,
        skills_enable_pi_user: Some(true),
        skills_enable_pi_project: None,
        skills_enable_agents_user: None,
        skills_enable_agents_project: Some(false),
        append_only_context: Some("ctx".to_string()),
    };
    let values = settings.setting_values();
    assert_eq!(values, [Some(true), None, Some(false), None, Some(true), None, None, Some(false)]);
    let back = OhMyPiDiscoverySettings::from_setting_values(values, settings.append_only_context.clone());
    assert_eq!(back.setting_values(), values);
    assert_eq!(back.append_only_context.as_deref(), Some("ctx"));
}

#[test]
fn bool_writes_cover_set_values_only() {
    let settings = OhMyPiDiscoverySettings {
        skills_enabled: Some(false),
        skills_enable_pi_user: Some(true),
        skills_enable_agents_project: Some(true),
        ..Default::default()
    };
    assert_eq!(settings.bool_writes(), vec![(0, false), (4, true), (7, true)]);
    assert!(OhMyPiDiscoverySettings::default().bool_writes().is_empty());
}
