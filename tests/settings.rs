use address_comment_loader::settings::{column_number, load_config, zero_based, SettingsError};

const GOOD: &str = r#"
log_level = "debug"
screenworks_csv_dir = "in/sw"
toyopuc_csv_dir = "in/toyo"
sw_output_path = "out/sw.bin"
sw_addr_col = 2
sw_comment_col = 5
toyo_output_path = "out/toyo.bin"
toyo_addr_col = 1
toyo_comment_col = 3
"#;

#[test]
fn reads_all_settings() {
    let s = load_config(GOOD).unwrap();
    assert_eq!(s.log_level, "debug");
    assert_eq!(s.screenworks_csv_dir, "in/sw");
    assert_eq!(s.toyopuc_csv_dir, "in/toyo");
    assert_eq!(s.sw_output_path, "out/sw.bin");
    assert_eq!(s.sw_addr_col, 2);
    assert_eq!(s.sw_comment_col, 5);
    assert_eq!(s.toyo_output_path, "out/toyo.bin");
    assert_eq!(s.toyo_addr_col, 1);
    assert_eq!(s.toyo_comment_col, 3);
}

#[test]
fn column_zero_is_refused() {
    let text = GOOD.replace("toyo_addr_col = 1", "toyo_addr_col = 0");
    assert_eq!(load_config(&text).unwrap_err(), SettingsError::BadColumn);
}

#[test]
fn missing_key_is_refused() {
    let text = GOOD.replace("log_level = \"debug\"", "");
    assert_eq!(load_config(&text).unwrap_err(), SettingsError::BadValue);
}

#[test]
fn unparsable_text_is_refused() {
    assert_eq!(load_config("this is = = not toml [").unwrap_err(), SettingsError::Unparsable);
}

#[test]
fn column_numbers() {
    assert_eq!(column_number(1), Some(1));
    assert_eq!(column_number(42), Some(42));
    assert_eq!(column_number(0), None);
    assert_eq!(column_number(-3), None);
}

#[test]
fn zero_based_columns() {
    assert_eq!(zero_based(1), Some(0));
    assert_eq!(zero_based(7), Some(6));
    assert_eq!(zero_based(0), None);
}

#[test]
fn unknown_keys_are_ignored() {
    let text = format!("{GOOD}\nextra_key = \"whatever\"\nanother = 12\n");
    let a = load_config(GOOD).unwrap();
    let b = load_config(&text).unwrap();
    assert_eq!(a.log_level, b.log_level);
    assert_eq!(a.sw_output_path, b.sw_output_path);
    assert_eq!(a.toyo_output_path, b.toyo_output_path);
    assert_eq!(a.screenworks_csv_dir, b.screenworks_csv_dir);
    assert_eq!(a.toyopuc_csv_dir, b.toyopuc_csv_dir);
    assert_eq!(
        (a.sw_addr_col, a.sw_comment_col, a.toyo_addr_col, a.toyo_comment_col),
        (b.sw_addr_col, b.sw_comment_col, b.toyo_addr_col, b.toyo_comment_col)
    );
}

#[test]
fn non_integer_column_is_refused() {
    let text = GOOD.replace("sw_comment_col = 5", "sw_comment_col = \"five\"");
    assert_eq!(load_config(&text).unwrap_err(), SettingsError::BadValue);
}

#[test]
fn negative_column_is_refused() {
    let text = GOOD.replace("sw_addr_col = 2", "sw_addr_col = -2");
    assert_eq!(load_config(&text).unwrap_err(), SettingsError::BadColumn);
}

#[test]
fn missing_key_wins_over_bad_column() {
    let text = GOOD.replace("sw_addr_col = 2", "sw_addr_col = 0").replace("toyo_output_path = \"out/toyo.bin\"", "");
    assert_eq!(load_config(&text).unwrap_err(), SettingsError::BadValue);
}

#[test]
fn bracketed_key_is_an_ordinary_unknown_key() {
    let text = format!("\"a[-1]\" = 1\n{GOOD}");
    assert_eq!(load_config(&text).unwrap().sw_addr_col, 2);
}

#[test]
fn keys_are_matched_exactly() {
    let text = format!("Log_Level = \"trace\"\n{GOOD}");
    assert_eq!(load_config(&text).unwrap().log_level, "debug");
    let only_other_case = GOOD.replace("log_level", "LOG_LEVEL");
    assert_eq!(load_config(&only_other_case).unwrap_err(), SettingsError::BadValue);
}

#[test]
fn string_column_is_not_an_integer() {
    let text = GOOD.replace("sw_addr_col = 2", "sw_addr_col = \"2\"");
    assert_eq!(load_config(&text).unwrap_err(), SettingsError::BadValue);
}
