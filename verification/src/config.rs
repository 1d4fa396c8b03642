//! The files a profile holds: the ownership marker and the Codex configuration.

use vstd::prelude::*;

use crate::error::{AppError, Result};
use crate::text::{blank, same_text, debug_quoted, decimal, is_blank, push_decimal, push_str, quote_debug};

verus! {

/// The ownership marker's file name inside a profile.
pub const MARKER_FILE: &'static str = ".codex-profile-switcher.toml";

/// Codex's configuration file name inside a profile.
pub const CODEX_CONFIG_FILE: &'static str = "config.toml";

/// The marker format this version writes and reads.
pub const SCHEMA_VERSION: u32 = 1;

/// The Codex configuration every profile is created with.
pub const CODEX_CONFIG: &'static str = "cli_auth_credentials_store = \"file\"\n";

/// The version recorded in new markers: this package's version.
pub const CREATED_BY_VERSION: &'static str = "0.1.0";

/// The configuration key that selects where Codex keeps credentials.
pub const CREDENTIALS_STORE_KEY: &'static str = "cli_auth_credentials_store";

/// The one credentials store a profile may use.
pub const FILE_STORE: &'static str = "file";

/// The ownership marker that tells a profile directory made by this tool.
#[derive(Debug)]
pub struct ProfileMarker {
    pub schema_version: u32,
    pub name: String,
    pub created_by_version: String,
}

/// Why a decoded marker does not belong to the profile `name`, checked in this
/// order; `None` when it does.
pub open spec fn marker_rejection(
    name: Seq<char>,
    schema_version: u32,
    marker_name: Seq<char>,
    created_by_version: Seq<char>,
) -> Option<Seq<char>> {
    if schema_version != SCHEMA_VERSION {
        Some(
            "unsupported schema version "@ + decimal(schema_version as nat) + " (expected "@
                + decimal(SCHEMA_VERSION as nat) + ")"@,
        )
    } else if marker_name != name {
        Some("marker names profile "@ + debug_quoted(marker_name))
    } else if is_blank(created_by_version) {
        Some("created_by_version is empty"@)
    } else {
        None
    }
}

/// `e` is an `InvalidMarker` error for the profile `name` with reason `reason`.
pub open spec fn is_marker_refusal(e: AppError, name: Seq<char>, reason: Seq<char>) -> bool {
    e matches AppError::InvalidMarker { name: n, reason: r } && n@ == name && r@ == reason
}

impl ProfileMarker {
    /// The marker for a new profile called `name`.
    pub fn new(name: &str) -> (m: ProfileMarker)
        ensures
            m.schema_version == SCHEMA_VERSION,
            m.name@ == name@,
            m.created_by_version@ == CREATED_BY_VERSION@,
    {
        ProfileMarker {
            schema_version: SCHEMA_VERSION,
            name: name.to_owned(),
            created_by_version: CREATED_BY_VERSION.to_owned(),
        }
    }

    /// Accepts a decoded marker as the marker of the profile `name`: it must
    /// use the current schema, name that profile, and record a version.
    pub fn validate(name: &str, marker: ProfileMarker) -> (r: Result<ProfileMarker>)
        ensures
            match marker_rejection(
                name@,
                marker.schema_version,
                marker.name@,
                marker.created_by_version@,
            ) {
                None => r == Ok::<ProfileMarker, AppError>(marker),
                Some(reason) => r matches Err(e) && is_marker_refusal(e, name@, reason),
            },
    {
        if marker.schema_version != SCHEMA_VERSION {
            let mut reason = String::new();
            push_str(&mut reason, "unsupported schema version ");
            push_decimal(&mut reason, marker.schema_version);
            push_str(&mut reason, " (expected ");
            push_decimal(&mut reason, SCHEMA_VERSION);
            push_str(&mut reason, ")");
            return Err(AppError::InvalidMarker { name: name.to_owned(), reason });
        }
        if !same_text(marker.name.as_str(), name) {
            let mut reason = String::new();
            push_str(&mut reason, "marker names profile ");
            let quoted = quote_debug(marker.name.as_str());
            push_str(&mut reason, quoted.as_str());
            return Err(AppError::InvalidMarker { name: name.to_owned(), reason });
        }
        if blank(marker.created_by_version.as_str()) {
            return Err(
                AppError::InvalidMarker {
                    name: name.to_owned(),
                    reason: "created_by_version is empty".to_owned(),
                },
            );
        }
        Ok(marker)
    }
}

/// The marker written for a new profile is the one its ownership check
/// accepts for that name.
pub proof fn new_marker_is_accepted(name: Seq<char>)
    ensures
        marker_rejection(name, SCHEMA_VERSION, name, CREATED_BY_VERSION@) is None,
{
    reveal_strlit("0.1.0");
    assert(!crate::text::is_unicode_white_space(CREATED_BY_VERSION@[0]));
}

/// What a TOML document holds under one top-level key.
#[derive(Debug)]
pub enum TomlEntry {
    /// The text is not a TOML document; the parser's message.
    Unparsable(String),
    /// The document has no such key.
    Absent,
    /// The key's value: its text when it is a string, and its TOML rendering.
    Present { text: Option<String>, rendered: String },
}

/// The mathematical value of a `TomlEntry`.
pub enum TomlEntryView {
    Unparsable(Seq<char>),
    Absent,
    Present { text: Option<Seq<char>>, rendered: Seq<char> },
}

impl View for TomlEntry {
    type V = TomlEntryView;

    open spec fn view(&self) -> TomlEntryView {
        match self {
            TomlEntry::Unparsable(m) => TomlEntryView::Unparsable(m@),
            TomlEntry::Absent => TomlEntryView::Absent,
            TomlEntry::Present { text, rendered } => TomlEntryView::Present {
                text: match text {
                    Some(t) => Some(t@),
                    None => None,
                },
                rendered: rendered@,
            },
        }
    }
}

/// What the `toml` crate reads under the top-level key `key` of the document
/// `contents`.
pub uninterp spec fn toml_entry(contents: Seq<char>, key: Seq<char>) -> TomlEntryView;

/// Parses `contents` with `toml::from_str::<toml::Value>` and looks up `key`
/// with `toml::Value::get`: a parse error gives its `Display` text, a string
/// value its text (`toml::Value::as_str`), and any value its `Display`
/// rendering. The result is the named `toml_entry` of the arguments; nothing
/// more is claimed of it.
#[verifier::external_body]
fn read_toml_entry(contents: &str, key: &str) -> (entry: TomlEntry)
    ensures
        entry@ == toml_entry(contents@, key@),
{
    match toml::from_str::<toml::Value>(contents) {
        Err(error) => TomlEntry::Unparsable(error.to_string()),
        Ok(document) => match document.get(key) {
            None => TomlEntry::Absent,
            Some(value) => TomlEntry::Present {
                text: value.as_str().map(|text| text.to_owned()),
                rendered: value.to_string(),
            },
        },
    }
}

/// Why a configuration whose credentials-store entry is `entry` is refused;
/// `None` when it selects the file store.
pub open spec fn config_rejection(entry: TomlEntryView) -> Option<Seq<char>> {
    match entry {
        TomlEntryView::Unparsable(message) => Some("config.toml is invalid TOML: "@ + message),
        TomlEntryView::Absent => Some(
            "config.toml is missing cli_auth_credentials_store = \"file\""@,
        ),
        TomlEntryView::Present { text, rendered } => if text == Some(FILE_STORE@) {
            None
        } else {
            Some("cli_auth_credentials_store is "@ + rendered + ", expected \"file\""@)
        },
    }
}

/// `e` is an `UnsafeCredentialConfig` error for `name` with reason `reason`.
pub open spec fn is_config_refusal(e: AppError, name: Seq<char>, reason: Seq<char>) -> bool {
    e matches AppError::UnsafeCredentialConfig { name: n, reason: r } && n@ == name && r@ == reason
}

/// Judges the credentials-store entry of a profile's Codex configuration:
/// only the string `"file"` is accepted.
pub fn check_credentials_entry(name: &str, entry: TomlEntry) -> (r: Result<()>)
    ensures
        match config_rejection(entry@) {
            None => r is Ok,
            Some(reason) => r matches Err(e) && is_config_refusal(e, name@, reason),
        },
{
    match entry {
        TomlEntry::Unparsable(message) => {
            let mut reason = String::new();
            push_str(&mut reason, "config.toml is invalid TOML: ");
            push_str(&mut reason, message.as_str());
            Err(AppError::UnsafeCredentialConfig { name: name.to_owned(), reason })
        },
        TomlEntry::Absent => Err(
            AppError::UnsafeCredentialConfig {
                name: name.to_owned(),
                reason: "config.toml is missing cli_auth_credentials_store = \"file\"".to_owned(),
            },
        ),
        TomlEntry::Present { text, rendered } => {
            let is_file = match &text {
                Some(t) => same_text(t.as_str(), FILE_STORE),
                None => false,
            };
            if is_file {
                Ok(())
            } else {
                let mut reason = String::new();
                push_str(&mut reason, "cli_auth_credentials_store is ");
                push_str(&mut reason, rendered.as_str());
                push_str(&mut reason, ", expected \"file\"");
                Err(AppError::UnsafeCredentialConfig { name: name.to_owned(), reason })
            }
        },
    }
}

/// Checks that a profile's Codex configuration `contents` makes Codex keep
/// credentials in files.
pub fn verify_codex_config(name: &str, contents: &str) -> (r: Result<()>)
    ensures
        match config_rejection(toml_entry(contents@, CREDENTIALS_STORE_KEY@)) {
            None => r is Ok,
            Some(reason) => r matches Err(e) && is_config_refusal(e, name@, reason),
        },
{
    let entry = read_toml_entry(contents, CREDENTIALS_STORE_KEY);
    check_credentials_entry(name, entry)
}


/// The credentials-store check accepts exactly one configuration: a present
/// entry whose value is the string `file`. An unparsable document, a missing
/// entry, a value that is not a string, and any other string are refused.
pub proof fn only_the_file_store_is_accepted(entry: TomlEntryView)
    ensures
        config_rejection(entry) is None <==> (entry matches TomlEntryView::Present { text, .. }
            && text == Some(seq!['f', 'i', 'l', 'e'])),
{
    reveal_strlit("file");
    assert(FILE_STORE@ =~= seq!['f', 'i', 'l', 'e']);
}

/// A decoded marker is accepted for the profile `name` exactly when it uses
/// schema version 1, names that very profile, and records a version with at
/// least one character that is not white space, whatever that version is.
pub proof fn marker_acceptance(
    name: Seq<char>,
    schema_version: u32,
    marker_name: Seq<char>,
    created_by_version: Seq<char>,
)
    ensures
        marker_rejection(name, schema_version, marker_name, created_by_version) is None <==> (
        schema_version == 1 && marker_name == name && exists|i: int|
            0 <= i < created_by_version.len() && !crate::text::is_unicode_white_space(
                #[trigger] created_by_version[i],
            )),
{
    if exists|i: int|
        0 <= i < created_by_version.len() && !crate::text::is_unicode_white_space(
            #[trigger] created_by_version[i],
        ) {
        let i = choose|i: int|
            0 <= i < created_by_version.len() && !crate::text::is_unicode_white_space(
                #[trigger] created_by_version[i],
            );
        assert(!is_blank(created_by_version));
    }
}

} // verus!
