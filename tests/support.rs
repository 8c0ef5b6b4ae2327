use idot::configuration::{
    detect_configuration_path, effective_flag, ConfigurationFormat, ConfigurationProbe,
    DefaultGroupConfigurationLoader,
};
use idot::error::Error;
use idot::path::{
    absolutize, home_expanded, is_under_path, join_path, parent_path, EntryKind,
    PathExtension,
};

#[test]
fn error_new_has_no_cause() {
    let e = Error::new("boom");
    assert_eq!(e.message, "boom");
    assert!(e.inner_error.is_none());
    assert_eq!(e.describe(), "boom");
}

#[test]
fn error_chain_is_described() {
    let e = Error::new("Invalid symbolic link.").with_inner_error("no such file");
    assert_eq!(e.describe(), "Invalid symbolic link. -> no such file");
}

#[test]
fn flags_fall_back_in_order() {
    assert!(effective_flag(Some(true), Some(false)));
    assert!(!effective_flag(Some(false), Some(true)));
    assert!(effective_flag(None, Some(true)));
    assert!(!effective_flag(None, None));
}

#[test]
fn paths_join_like_std() {
    assert_eq!(join_path("/ws", "vimrc"), "/ws/vimrc");
    assert_eq!(join_path("/ws/", "vimrc"), "/ws/vimrc");
    assert_eq!(join_path("/ws", "/etc/x"), "/etc/x");
    assert_eq!(join_path("", "x"), "x");
}

#[test]
fn parents_of_paths() {
    assert_eq!(parent_path("/home/u/.vimrc").unwrap(), "/home/u");
    assert_eq!(parent_path("/.vimrc").unwrap(), "/");
    assert!(parent_path("/").is_none());
}

#[test]
fn under_compares_segments() {
    assert!(is_under_path("/ws/a", "/ws"));
    assert!(is_under_path("/ws", "/ws"));
    assert!(!is_under_path("/ws2/a", "/ws"));
    assert!(is_under_path("/anything", "/"));
    assert!(!is_under_path("/w", "/ws"));
}

#[test]
fn absolutize_normalizes() {
    assert_eq!(absolutize("/a/./b/../c").unwrap(), "/a/c");
}

#[test]
fn absolutize_expands_home() {
    let r = absolutize("~/x").unwrap();
    assert!(r.starts_with('/'));
    assert!(r.ends_with("/x"));
    assert!(!r.contains('~'));
}

#[test]
fn absolutize_keeps_normal_paths() {
    assert_eq!(absolutize("/etc/x").unwrap(), "/etc/x");
}

#[test]
fn entry_queries() {
    let dangling = EntryKind::Symlink { content: "/gone".to_string() };
    assert!(dangling.actually_exists());
    assert!(dangling.is_symbolic());
    assert!(EntryKind::File.actually_exists());
    assert!(!EntryKind::File.is_symbolic());
    assert!(!EntryKind::Missing.actually_exists());
    assert!(!EntryKind::Missing.is_symbolic());
}

fn probe(is_directory: bool, json: bool, toml: bool, yaml: bool) -> ConfigurationProbe {
    ConfigurationProbe { is_directory, json_is_file: json, toml_is_file: toml, yaml_is_file: yaml }
}

#[test]
fn configuration_prefers_json_then_toml_then_yaml() {
    assert_eq!(detect_configuration_path("/ws", &probe(true, true, true, true)).unwrap(), "/ws/idot.json");
    assert_eq!(detect_configuration_path("/ws", &probe(true, false, true, true)).unwrap(), "/ws/idot.toml");
    assert_eq!(detect_configuration_path("/ws", &probe(true, false, false, true)).unwrap(), "/ws/idot.yaml");
    assert!(detect_configuration_path("/ws", &probe(true, false, false, false)).is_none());
    assert!(detect_configuration_path("/ws", &probe(false, true, true, true)).is_none());
}

#[test]
fn loader_locates_format() {
    let loader = DefaultGroupConfigurationLoader::new();
    let (path, format) = loader.locate("/ws", &probe(true, false, true, false)).unwrap();
    assert_eq!(path, "/ws/idot.toml");
    assert_eq!(format, ConfigurationFormat::Toml);
    let e = loader.locate("/ws", &probe(true, false, false, false)).unwrap_err();
    assert_eq!(e.message, "Not found configuration file");
}

#[test]
fn unknown_home_is_an_error() {
    let e = home_expanded("~/x", "~/x".to_string()).unwrap_err();
    assert_eq!(e.message, "The home directory cannot be determined.");
    assert!(home_expanded("~", "~".to_string()).is_err());
    assert_eq!(home_expanded("~/x", "/home/u/x".to_string()).unwrap(), "/home/u/x");
    assert_eq!(home_expanded("~user/x", "~user/x".to_string()).unwrap(), "~user/x");
    assert_eq!(home_expanded("/x", "/x".to_string()).unwrap(), "/x");
}
