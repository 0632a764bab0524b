use dorg::{Config, ConfigError, Mode, SortType};

fn args(tokens: &[&str]) -> Vec<String> {
    tokens.iter().map(|t| t.to_string()).collect()
}

#[test]
fn build_fails_without_a_directory() {
    assert_eq!(Config::build(args(&["dorg"])).err(), Some("Directory not specified"));
    assert_eq!(Config::build(args(&[])).err(), Some("Directory not specified"));
    assert_eq!(Config::parse(&args(&["dorg"])).err(), Some(ConfigError::MissingDirectory));
    assert_eq!(Config::parse(&args(&[])).err(), Some(ConfigError::MissingDirectory));
}

#[test]
fn build_uses_defaults_without_flags() {
    let config = Config::build(args(&["dorg", "photos"])).unwrap();
    assert_eq!(config.directory_path, "photos");
    assert!(!config.recursive);
    assert_eq!(config.mode, Mode::Month);
    assert_eq!(config.sort_type, SortType::Created);
}

#[test]
fn build_ignores_the_program_name() {
    let config = Config::build(args(&["-r", "photos"])).unwrap();
    assert_eq!(config.directory_path, "photos");
    assert!(!config.recursive);
}

#[test]
fn build_takes_the_second_token_as_the_directory_whatever_it_is() {
    let config = Config::build(args(&["dorg", "-r"])).unwrap();
    assert_eq!(config.directory_path, "-r");
    assert!(!config.recursive);
}

#[test]
fn build_reads_each_flag() {
    let config = Config::build(args(&["dorg", "photos", "-r"])).unwrap();
    assert!(config.recursive);
    assert_eq!(config.mode, Mode::Month);
    assert_eq!(config.sort_type, SortType::Created);

    let config = Config::build(args(&["dorg", "photos", "mode=day"])).unwrap();
    assert!(!config.recursive);
    assert_eq!(config.mode, Mode::Day);

    let config = Config::build(args(&["dorg", "photos", "mode=month"])).unwrap();
    assert_eq!(config.mode, Mode::Month);

    let config = Config::build(args(&["dorg", "photos", "sort=modified"])).unwrap();
    assert_eq!(config.sort_type, SortType::Modified);

    let config = Config::build(args(&["dorg", "photos", "sort=created"])).unwrap();
    assert_eq!(config.sort_type, SortType::Created);
}

#[test]
fn build_does_not_depend_on_the_order_of_flags() {
    let one = Config::build(args(&["dorg", "photos", "-r", "mode=day", "sort=modified"])).unwrap();
    let other = Config::build(args(&["dorg", "photos", "sort=modified", "-r", "mode=day"])).unwrap();
    for config in [one, other] {
        assert_eq!(config.directory_path, "photos");
        assert!(config.recursive);
        assert_eq!(config.mode, Mode::Day);
        assert_eq!(config.sort_type, SortType::Modified);
    }
}

#[test]
fn build_lets_the_last_of_repeated_flags_win() {
    let config = Config::build(args(&[
        "dorg",
        "photos",
        "mode=day",
        "sort=modified",
        "mode=month",
        "sort=created",
        "-r",
        "-r",
    ]))
    .unwrap();
    assert!(config.recursive);
    assert_eq!(config.mode, Mode::Month);
    assert_eq!(config.sort_type, SortType::Created);

    let config = Config::build(args(&["dorg", "photos", "mode=month", "mode=day"])).unwrap();
    assert_eq!(config.mode, Mode::Day);
}

#[test]
fn build_rejects_an_invalid_mode() {
    assert_eq!(Config::build(args(&["dorg", "photos", "mode=week"])).err(), Some("Invalid mode"));
    assert_eq!(Config::build(args(&["dorg", "photos", "mode="])).err(), Some("Invalid mode"));
    assert_eq!(Config::build(args(&["dorg", "photos", "mode=Day"])).err(), Some("Invalid mode"));
    assert_eq!(Config::build(args(&["dorg", "photos", "mode=days"])).err(), Some("Invalid mode"));
    assert_eq!(
        Config::parse(&args(&["dorg", "photos", "mode=week"])).err(),
        Some(ConfigError::InvalidMode)
    );
}

#[test]
fn build_rejects_an_invalid_sort_type() {
    assert_eq!(
        Config::build(args(&["dorg", "photos", "sort=accessed"])).err(),
        Some("Invalid sort type")
    );
    assert_eq!(Config::build(args(&["dorg", "photos", "sort="])).err(), Some("Invalid sort type"));
    assert_eq!(
        Config::parse(&args(&["dorg", "photos", "sort=size"])).err(),
        Some(ConfigError::InvalidSortType)
    );
}

#[test]
fn build_rejects_an_unknown_argument() {
    for token in ["-x", "", "r", "-R", "mode", "sort", "sortcreated", "--recursive", " -r", "-r "] {
        assert_eq!(
            Config::build(args(&["dorg", "photos", token])).err(),
            Some("Unknown argument"),
            "token {token:?}"
        );
    }
    assert_eq!(
        Config::parse(&args(&["dorg", "photos", "extra"])).err(),
        Some(ConfigError::UnknownArgument)
    );
}

#[test]
fn build_reports_the_first_token_at_fault() {
    assert_eq!(
        Config::build(args(&["dorg", "photos", "-r", "sort=x", "mode=y", "z"])).err(),
        Some("Invalid sort type")
    );
    assert_eq!(
        Config::build(args(&["dorg", "photos", "z", "mode=y"])).err(),
        Some("Unknown argument")
    );
}

#[test]
fn build_handles_text_beyond_ascii() {
    let config = Config::build(args(&["dorg", "фото/été", "-r"])).unwrap();
    assert_eq!(config.directory_path, "фото/été");
    assert!(config.recursive);
    assert_eq!(Config::build(args(&["dorg", "p", "mode=день"])).err(), Some("Invalid mode"));
    assert_eq!(Config::build(args(&["dorg", "p", "sorté"])).err(), Some("Unknown argument"));
}

#[test]
fn config_error_messages() {
    assert_eq!(ConfigError::MissingDirectory.message(), "Directory not specified");
    assert_eq!(ConfigError::UnknownArgument.message(), "Unknown argument");
    assert_eq!(ConfigError::InvalidMode.message(), "Invalid mode");
    assert_eq!(ConfigError::InvalidSortType.message(), "Invalid sort type");
}
