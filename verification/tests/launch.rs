use rust_prec::launch::{config_with_flags, local_config_path, LaunchConfigError};

fn config(options: &str) -> String {
    format!(
        "\"UserLocalConfigStore\"\n{{\n\t\"Software\"\n\t{{\n\t\t\"Valve\"\n\t\t{{\n\t\t\t\"Steam\"\n\t\t\t{{\n\t\t\t\t\"apps\"\n\t\t\t\t{{\n\t\t\t\t\t\"440\"\n\t\t\t\t\t{{\n\t\t\t\t\t\t\"LaunchOptions\"\t\t\"{}\"\n\t\t\t\t\t}}\n\t\t\t\t}}\n\t\t\t}}\n\t\t}}\n\t}}\n}}\n",
        options
    )
}

#[test]
fn flags_are_added_to_the_launch_options() {
    let text = config("-novid -high");
    let out = config_with_flags(&text).unwrap().unwrap();
    assert_eq!(out, config("-novid -high -condebug -conclearlog -usercon"));
    assert_eq!(out, text.replace("-novid -high", "-novid -high -condebug -conclearlog -usercon"));
}

#[test]
fn flags_already_there_change_nothing() {
    let text = config("-novid -condebug -conclearlog -usercon");
    assert_eq!(config_with_flags(&text), Ok(None));
    let once = config_with_flags(&config("-high")).unwrap().unwrap();
    assert_eq!(config_with_flags(&once), Ok(None));
}

#[test]
fn unreadable_configs_are_refused() {
    assert_eq!(config_with_flags("\"a\"\n{\n\t\"b\" \"c\"\n"), Err(LaunchConfigError::InvalidVdf));
    assert_eq!(config_with_flags("\"a\"\n{\n\t\"Software\" \"c\"\n}\n"), Err(LaunchConfigError::NoLaunchOptions));
    assert_eq!(config_with_flags("\"a\"\n{\n}\n"), Err(LaunchConfigError::NoLaunchOptions));
}

#[test]
fn config_file_of_a_steam_user() {
    assert_eq!(
        local_config_path("/home/u/.steam/steam", 76561198000000000),
        Some("/home/u/.steam/steam/userdata/39734272/config/localconfig.vdf".to_string())
    );
    assert_eq!(local_config_path("/s", u64::MAX), None);
    assert_eq!(local_config_path("/s", 0), Some("/s/userdata/0/config/localconfig.vdf".to_string()));
}

