//! The settings of a conversion run, read from the top-level keys of a TOML
//! document: paths and the log level as strings, columns as integers.

use vstd::prelude::*;

verus! {

/// Whether text is a well-formed TOML document.
pub uninterp spec fn toml_builds(text: Seq<char>) -> bool;

/// The string stored under the top-level `key` of a TOML document; `None`
/// where the text is not TOML, the key is missing, or its value is no string.
pub uninterp spec fn toml_text_of(text: Seq<char>, key: Seq<char>) -> Option<Seq<char>>;

/// The integer stored under the top-level `key` of a TOML document; `None`
/// where the text is not TOML, the key is missing, or its value is no integer.
pub uninterp spec fn toml_int_of(text: Seq<char>, key: Seq<char>) -> Option<i64>;

/// Relies on toml::Table's `FromStr` (toml::from_str): whether the text parses
/// depends on the text alone.
#[verifier::external_body]
fn toml_is_readable(text: &str) -> (r: bool)
    ensures
        r == toml_builds(text@),
{
    text.parse::<toml::Table>().is_ok()
}

/// Relies on toml::Table's `FromStr` and toml::map::Map::get: the string
/// under an exact top-level key of the parsed table, which depends on the text
/// and the key alone.
#[verifier::external_body]
fn toml_text_value(text: &str, key: &str) -> (r: Option<String>)
    ensures
        r is Some <==> toml_text_of(text@, key@) is Some,
        r matches Some(v) ==> v@ == toml_text_of(text@, key@)->0,
{
    match text.parse::<toml::Table>() {
        Ok(table) => match table.get(key) {
            Some(toml::Value::String(s)) => Some(s.clone()),
            _ => None,
        },
        Err(_) => None,
    }
}

/// Relies on toml::Table's `FromStr` and toml::map::Map::get: the integer
/// under an exact top-level key of the parsed table, which depends on the text
/// and the key alone.
#[verifier::external_body]
fn toml_int_value(text: &str, key: &str) -> (r: Option<i64>)
    ensures
        r == toml_int_of(text@, key@),
{
    match text.parse::<toml::Table>() {
        Ok(table) => match table.get(key) {
            Some(toml::Value::Integer(i)) => Some(*i),
            _ => None,
        },
        Err(_) => None,
    }
}

/// Whether a read column value is a 1-based column number that fits in `usize`.
pub open spec fn is_column(v: Option<i64>) -> bool {
    v is Some && 1 <= v->0 <= usize::MAX
}

/// Whether every text key of the settings is present in `text`.
pub open spec fn text_keys_present(text: Seq<char>) -> bool {
    &&& toml_text_of(text, "log_level"@) is Some
    &&& toml_text_of(text, "screenworks_csv_dir"@) is Some
    &&& toml_text_of(text, "toyopuc_csv_dir"@) is Some
    &&& toml_text_of(text, "sw_output_path"@) is Some
    &&& toml_text_of(text, "toyo_output_path"@) is Some
}

/// Whether every column key of the settings holds an integer.
pub open spec fn column_keys_present(text: Seq<char>) -> bool {
    &&& toml_int_of(text, "sw_addr_col"@) is Some
    &&& toml_int_of(text, "sw_comment_col"@) is Some
    &&& toml_int_of(text, "toyo_addr_col"@) is Some
    &&& toml_int_of(text, "toyo_comment_col"@) is Some
}

/// Whether every column key holds a 1-based column number.
pub open spec fn columns_in_range(text: Seq<char>) -> bool {
    &&& is_column(toml_int_of(text, "sw_addr_col"@))
    &&& is_column(toml_int_of(text, "sw_comment_col"@))
    &&& is_column(toml_int_of(text, "toyo_addr_col"@))
    &&& is_column(toml_int_of(text, "toyo_comment_col"@))
}

/// The settings of one run. Columns are 1-based.
#[derive(Debug)]
pub struct Settings {
    pub log_level: String,
    pub screenworks_csv_dir: String,
    pub toyopuc_csv_dir: String,
    pub sw_output_path: String,
    pub sw_addr_col: usize,
    pub sw_comment_col: usize,
    pub toyo_output_path: String,
    pub toyo_addr_col: usize,
    pub toyo_comment_col: usize,
}

/// Why settings could not be read.
#[derive(Debug, Clone, Copy, PartialEq, Eq, Structural)]
pub enum SettingsError {
    /// The text is not a readable TOML document.
    Unparsable,
    /// A key is missing or holds a value of the wrong kind.
    BadValue,
    /// A column number is not a positive integer.
    BadColumn,
}

impl Settings {
    /// Every field holds the value under its key in `text`.
    pub open spec fn is_read_from(&self, text: Seq<char>) -> bool {
        &&& self.log_level@ == toml_text_of(text, "log_level"@)->0
        &&& self.screenworks_csv_dir@ == toml_text_of(text, "screenworks_csv_dir"@)->0
        &&& self.toyopuc_csv_dir@ == toml_text_of(text, "toyopuc_csv_dir"@)->0
        &&& self.sw_output_path@ == toml_text_of(text, "sw_output_path"@)->0
        &&& self.toyo_output_path@ == toml_text_of(text, "toyo_output_path"@)->0
        &&& self.sw_addr_col as int == toml_int_of(text, "sw_addr_col"@)->0
        &&& self.sw_comment_col as int == toml_int_of(text, "sw_comment_col"@)->0
        &&& self.toyo_addr_col as int == toml_int_of(text, "toyo_addr_col"@)->0
        &&& self.toyo_comment_col as int == toml_int_of(text, "toyo_comment_col"@)->0
    }

    /// Every column number is 1-based, so it is at least one.
    pub open spec fn columns_are_valid(&self) -> bool {
        &&& self.sw_addr_col >= 1
        &&& self.sw_comment_col >= 1
        &&& self.toyo_addr_col >= 1
        &&& self.toyo_comment_col >= 1
    }
}

/// A configured column number: `Some` exactly when it is a positive integer
/// that fits in `usize`.
pub fn column_number(v: i64) -> (r: Option<usize>)
    ensures
        r == (if 1 <= v <= usize::MAX { Some(v as usize) } else { None::<usize> }),
{
    if v >= 1 && (v as u64) <= (usize::MAX as u64) {
        Some(v as usize)
    } else {
        None
    }
}

/// The zero-based index of a 1-based column number.
pub fn zero_based(column: usize) -> (r: Option<usize>)
    ensures
        r == (if column >= 1 { Some((column - 1) as usize) } else { None::<usize> }),
{
    if column >= 1 {
        Some(column - 1)
    } else {
        None
    }
}

/// Reads the settings from TOML text; keys other than the nine settings are
/// ignored. Text that is not TOML is `Unparsable`; a missing or ill-typed
/// key is `BadValue`; with every key present, a column that is not a 1-based
/// number is `BadColumn`.
pub fn load_config(text: &str) -> (r: Result<Settings, SettingsError>)
    ensures
        !toml_builds(text@) ==> (r matches Err(e) && e == SettingsError::Unparsable),
        toml_builds(text@) ==> (r is Ok <==> (text_keys_present(text@) && column_keys_present(
            text@,
        ) && columns_in_range(text@))),
        toml_builds(text@) && !(text_keys_present(text@) && column_keys_present(text@)) ==> (r matches Err(e)
            && e == SettingsError::BadValue),
        toml_builds(text@) && text_keys_present(text@) && column_keys_present(text@)
            && !columns_in_range(text@) ==> (r matches Err(e) && e == SettingsError::BadColumn),
        r matches Ok(s) ==> (s.is_read_from(text@) && s.columns_are_valid()),
{
    if !toml_is_readable(text) {
        return Err(SettingsError::Unparsable);
    }
    let log_level = toml_text_value(text, "log_level");
    let screenworks_csv_dir = toml_text_value(text, "screenworks_csv_dir");
    let toyopuc_csv_dir = toml_text_value(text, "toyopuc_csv_dir");
    let sw_output_path = toml_text_value(text, "sw_output_path");
    let toyo_output_path = toml_text_value(text, "toyo_output_path");
    let sw_addr_col = toml_int_value(text, "sw_addr_col");
    let sw_comment_col = toml_int_value(text, "sw_comment_col");
    let toyo_addr_col = toml_int_value(text, "toyo_addr_col");
    let toyo_comment_col = toml_int_value(text, "toyo_comment_col");
    match (log_level, screenworks_csv_dir, toyopuc_csv_dir, sw_output_path, toyo_output_path) {
        (Some(log_level), Some(screenworks_csv_dir), Some(toyopuc_csv_dir), Some(sw_output_path), Some(
            toyo_output_path,
        )) => match (sw_addr_col, sw_comment_col, toyo_addr_col, toyo_comment_col) {
            (Some(a), Some(b), Some(c), Some(d)) => match (
                column_number(a),
                column_number(b),
                column_number(c),
                column_number(d),
            ) {
                (Some(sw_addr_col), Some(sw_comment_col), Some(toyo_addr_col), Some(
                    toyo_comment_col,
                )) => Ok(Settings {
                    log_level,
                    screenworks_csv_dir,
                    toyopuc_csv_dir,
                    sw_output_path,
                    sw_addr_col,
                    sw_comment_col,
                    toyo_output_path,
                    toyo_addr_col,
                    toyo_comment_col,
                }),
                _ => Err(SettingsError::BadColumn),
            },
            _ => Err(SettingsError::BadValue),
        },
        _ => Err(SettingsError::BadValue),
    }
}

} // verus!
