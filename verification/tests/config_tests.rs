use orbit_bluez::config::{
    default_margin, default_position, default_stack_transition, default_transition_duration,
    default_window_transition, Config, ConfigFile,
};

fn empty_file() -> ConfigFile {
    ConfigFile {
        position: None,
        window_transition: None,
        window_transition_duration: None,
        stack_transition: None,
        stack_transition_duration: None,
        margin_top: None,
        margin_right: None,
        margin_bottom: None,
        margin_left: None,
    }
}

fn assert_default(c: &Config) {
    assert_eq!(c.position, "center");
    assert_eq!(c.window_transition, "slidedown");
    assert_eq!(c.window_transition_duration, 200);
    assert_eq!(c.stack_transition, "slidehorizontal");
    assert_eq!(c.stack_transition_duration, 200);
    assert_eq!(c.margin_top, 10);
    assert_eq!(c.margin_right, 10);
    assert_eq!(c.margin_bottom, 10);
    assert_eq!(c.margin_left, 10);
}

#[test]
fn defaults_have_documented_values() {
    assert_eq!(default_position(), "center");
    assert_eq!(default_window_transition(), "slidedown");
    assert_eq!(default_stack_transition(), "slidehorizontal");
    assert_eq!(default_transition_duration(), 200);
    assert_eq!(default_margin(), 10);
}

#[test]
fn default_config_uses_every_default() {
    assert_default(&Config::default());
}

#[test]
fn empty_file_gives_defaults() {
    assert_default(&Config::from_file(empty_file()));
}

#[test]
fn file_values_override_defaults() {
    let mut f = empty_file();
    f.position = Some("top-right".to_string());
    f.window_transition_duration = Some(350);
    f.margin_left = Some(-4);
    let c = Config::from_file(f);
    assert_eq!(c.position, "top-right");
    assert_eq!(c.window_transition_duration, 350);
    assert_eq!(c.margin_left, -4);
    assert_eq!(c.window_transition, "slidedown");
    assert_eq!(c.stack_transition_duration, 200);
    assert_eq!(c.margin_top, 10);
}

#[test]
fn unreadable_file_gives_defaults() {
    assert_default(&Config::load_from(None));
}

#[test]
fn parsed_file_is_used_when_loading() {
    let mut f = empty_file();
    f.stack_transition = Some("crossfade".to_string());
    let c = Config::load_from(Some(f));
    assert_eq!(c.stack_transition, "crossfade");
    assert_eq!(c.position, "center");
}

#[test]
fn config_path_under_plain_home() {
    assert_eq!(Config::config_path_in("/home/ada"), "/home/ada/.config/orbit/config.toml");
}

#[test]
fn config_path_under_home_with_trailing_slash() {
    assert_eq!(Config::config_path_in("/home/ada/"), "/home/ada/.config/orbit/config.toml");
}

#[test]
fn config_path_under_empty_home() {
    assert_eq!(Config::config_path_in(""), ".config/orbit/config.toml");
}

#[test]
fn config_path_under_root() {
    assert_eq!(Config::config_path_in("/"), "/.config/orbit/config.toml");
}
