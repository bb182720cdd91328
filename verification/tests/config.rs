use the_solana_api::config::{ConfigError, Settings};

#[test]
fn settings_fall_back_to_defaults() {
    let s = Settings::from_values(None, None);
    assert_eq!(s.bind_address, "0.0.0.0:80");
    assert_eq!(s.validators_csv, "config/validators.csv");
    let s = Settings::from_values(Some("127.0.0.1:9000".to_string()), Some("v.csv".to_string()));
    assert_eq!(s.bind_address, "127.0.0.1:9000");
    assert_eq!(s.validators_csv, "v.csv");
}

#[test]
fn missing_csv_message_names_the_path() {
    assert_eq!(
        ConfigError::MissingValidatorsCsv("x/y.csv".to_string()).message(),
        "validators csv file not found at x/y.csv"
    );
}
