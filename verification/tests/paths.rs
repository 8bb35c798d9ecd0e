use zju_assist::cli::{cli_config_path, ConfigEnv};

#[test]
fn settings_stand_in_the_home_directory() {
    let env = ConfigEnv {
        windows: false,
        appdata: Some("A".to_string()),
        xdg_config_home: None,
        home: Some("/home/u".to_string()),
        current_dir: Ok("/tmp".to_string()),
    };
    assert_eq!(
        cli_config_path(&env).ok().unwrap(),
        vec!["/home/u", ".config", "zju-learning-assistant", "cli-config.json"]
    );
}
