use g13_nexus::config::{brightness_of, max_channel};
use g13_nexus::{default_color, default_profile_name, G13Config};

#[test]
fn default_profile_name_is_default() {
    assert_eq!(default_profile_name(), "default");
}

#[test]
fn default_color_is_red() {
    assert_eq!(default_color(), [255, 0, 0]);
}

#[test]
fn default_config_has_defaults_and_nothing_bound() {
    let c = G13Config::default();
    assert_eq!(c.profile_name, "default");
    assert_eq!(c.color, [255, 0, 0]);
    assert!(c.keys.entries().is_empty());
    assert!(c.profiles.entries().is_empty());
    assert!(c.keys.get("G1").is_none());
}

#[test]
fn max_channel_picks_brightest() {
    assert_eq!(max_channel([10, 200, 30]), 200);
    assert_eq!(max_channel([90, 20, 90]), 90);
    assert_eq!(max_channel([0, 0, 7]), 7);
    assert_eq!(max_channel([0, 0, 0]), 0);
}

#[test]
fn brightness_is_at_least_one() {
    assert_eq!(brightness_of([0, 0, 0]), 1);
    assert_eq!(brightness_of([255, 0, 0]), 255);
    assert_eq!(brightness_of([3, 1, 2]), 3);
}
