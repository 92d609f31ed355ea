//! The error taxonomy: one coarse variant per failure category, each
//! carrying its detail text, and the display text a user sees.

use vstd::prelude::*;
use vstd::string::*;

verus! {

/// A categorised failure.  An input/output failure carries the rendered
/// text of the underlying stream error.
#[derive(Debug)]
pub enum CliError {
    IoError(String),
    ConfigError(String),
    AuthError(String),
    NetworkError(String),
    Unknown(String),
}

impl CliError {
    /// The display text: the category's prefix followed by the detail.
    pub open spec fn spec_message(self) -> Seq<char> {
        match self {
            CliError::IoError(m) => "入出力エラー: "@ + m@,
            CliError::ConfigError(m) => "設定エラー: "@ + m@,
            CliError::AuthError(m) => "認証エラー: "@ + m@,
            CliError::NetworkError(m) => "ネットワークエラー: "@ + m@,
            CliError::Unknown(m) => "不明なエラー: "@ + m@,
        }
    }

    /// Renders the display text.
    pub fn message(&self) -> (r: String)
        ensures
            r@ == self.spec_message(),
    {
        match self {
            CliError::IoError(m) => {
                let mut s = String::from_str("入出力エラー: ");
                s.append(m.as_str());
                s
            },
            CliError::ConfigError(m) => {
                let mut s = String::from_str("設定エラー: ");
                s.append(m.as_str());
                s
            },
            CliError::AuthError(m) => {
                let mut s = String::from_str("認証エラー: ");
                s.append(m.as_str());
                s
            },
            CliError::NetworkError(m) => {
                let mut s = String::from_str("ネットワークエラー: ");
                s.append(m.as_str());
                s
            },
            CliError::Unknown(m) => {
                let mut s = String::from_str("不明なエラー: ");
                s.append(m.as_str());
                s
            },
        }
    }
}

/// A configuration failure with the given detail.
pub fn config_error(message: &str) -> (r: CliError)
    ensures
        (r matches CliError::ConfigError(m) && m@ == message@),
{
    CliError::ConfigError(String::from_str(message))
}

/// An authentication failure with the given detail.
pub fn auth_error(message: &str) -> (r: CliError)
    ensures
        (r matches CliError::AuthError(m) && m@ == message@),
{
    CliError::AuthError(String::from_str(message))
}

/// A network failure with the given detail.
pub fn network_error(message: &str) -> (r: CliError)
    ensures
        (r matches CliError::NetworkError(m) && m@ == message@),
{
    CliError::NetworkError(String::from_str(message))
}

/// An uncategorised failure with the given detail.
pub fn unknown_error(message: &str) -> (r: CliError)
    ensures
        (r matches CliError::Unknown(m) && m@ == message@),
{
    CliError::Unknown(String::from_str(message))
}

} // verus!
