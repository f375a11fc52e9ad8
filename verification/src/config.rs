//! Runtime configuration: the note-file literal (possibly `~/…`), its
//! tilde-expanded path, and the timestamp pattern. The pure parts —
//! tilde expansion, path rendering, applying defaults, choosing which
//! fields differ from the defaults — are verified here; the TOML
//! reading and writing itself goes through the `toml` crate behind
//! trusted wrappers, and touching the filesystem or the process
//! environment stays outside the library.

use vstd::prelude::*;

verus! {

/// The note-file setting used when the config names none.
pub const DEFAULT_NOTE_FILE_LITERAL: &'static str = "~/daybook.txt";

/// The timestamp pattern used when the config names none.
pub const DEFAULT_DATETIME_FORMAT_PATTERN: &'static str = "%H:%M - %-m/%-d/%y";

/// The config file's name within the config directory.
pub const CONFIG_FILE_NAME: &'static str = "nt.toml";

#[verifier::external_type_specification]
#[verifier::external_body]
pub struct ExTomlDeError(toml::de::Error);

#[verifier::external_type_specification]
#[verifier::external_body]
pub struct ExTomlSerError(toml::ser::Error);

#[verifier::external_type_specification]
#[verifier::external_body]
pub struct ExIoError(std::io::Error);

/// Why loading or saving the configuration failed. The missing-home case
/// is the library's own; the others carry what the collaborator
/// reported.
#[derive(Debug)]
pub enum ConfigLoadSaveError {
    Io(std::io::Error),
    TomlDeserialize(toml::de::Error),
    TomlSerialize(toml::ser::Error),
    MissingHomeDirectory,
}

/// The resolved runtime configuration.
#[derive(Debug, Clone, PartialEq, Eq)]
pub struct RuntimeConfig {
    /// The note-file setting as written, possibly starting with `~/`.
    pub configured_note_file_literal: String,
    /// The note-file path with a leading tilde already resolved.
    pub expanded_note_file_path: String,
    /// A strftime-style pattern for entry timestamps.
    pub datetime_format_pattern: String,
}

/// Relies on `dirs::config_dir`: the platform's configuration base
/// directory, read from the process environment. `None` also stands for
/// a base that is not valid Unicode. Nothing further is promised: the
/// answer depends on the environment.
#[verifier::external_body]
fn config_base_directory() -> (r: Option<String>) {
    dirs::config_dir().and_then(|p| p.into_os_string().into_string().ok())
}

/// Relies on `dirs::home_dir`: the user's home directory, read from the
/// process environment; `None` also stands for a home that is not valid
/// Unicode. Environment-dependent, so nothing is promised.
#[verifier::external_body]
fn home_directory() -> (r: Option<String>) {
    dirs::home_dir().and_then(|p| p.into_os_string().into_string().ok())
}

/// How joining a relative child onto a base path renders as text: one
/// separator between them, unless the base is empty or already ends in
/// one.
pub open spec fn spec_path_join(base: Seq<char>, child: Seq<char>) -> Seq<char> {
    if base.len() == 0 {
        child
    } else if base.last() == '/' {
        base + child
    } else {
        base + seq!['/'] + child
    }
}

pub fn path_join(base: &str, child: &str) -> (r: String)
    ensures
        r@ == spec_path_join(base@, child@),
{
    let n = base.unicode_len();
    if n == 0 {
        return child.to_owned();
    }
    let mut out = base.to_owned();
    if base.get_char(n - 1) != '/' {
        out.append("/");
        proof {
            reveal_strlit("/");
            assert("/"@ =~= seq!['/']);
        }
    }
    out.append(child);
    out
}

/// What tilde expansion produces: a leading `~/` is replaced by the home
/// directory (a bare `~/` becomes the home directory itself); any other
/// shape — `~user/...`, relative, absolute — stays as it is.
pub open spec fn spec_expand_tilde(literal: Seq<char>, home: Seq<char>) -> Seq<char> {
    if literal.len() >= 2 && literal[0] == '~' && literal[1] == '/' {
        if literal.skip(2).len() == 0 {
            home
        } else {
            spec_path_join(home, literal.skip(2))
        }
    } else {
        literal
    }
}

pub fn expand_leading_tilde_literal(path_literal: &str, home_directory: &str) -> (r: String)
    ensures
        r@ == spec_expand_tilde(path_literal@, home_directory@),
{
    let n = path_literal.unicode_len();
    if n >= 2 && path_literal.get_char(0) == '~' && path_literal.get_char(1) == '/' {
        let rest = path_literal.substring_char(2, n);
        proof {
            assert(rest@ =~= path_literal@.skip(2));
        }
        if rest.is_empty() {
            home_directory.to_owned()
        } else {
            path_join(home_directory, rest)
        }
    } else {
        path_literal.to_owned()
    }
}

/// Builds a config from its parts: the literal is kept as written, and a
/// leading tilde is expanded against the given home directory. (Creating
/// the note file's parent directories is filesystem work and happens
/// outside the library, before the first append.)
pub fn runtime_config_from_parts(
    note_file_literal: String,
    datetime_format_pattern: String,
    home_directory: &str,
) -> (cfg: RuntimeConfig)
    ensures
        cfg.configured_note_file_literal@ == note_file_literal@,
        cfg.expanded_note_file_path@ == spec_expand_tilde(note_file_literal@, home_directory@),
        cfg.datetime_format_pattern@ == datetime_format_pattern@,
{
    let expanded = expand_leading_tilde_literal(note_file_literal.as_str(), home_directory);
    RuntimeConfig {
        configured_note_file_literal: note_file_literal,
        expanded_note_file_path: expanded,
        datetime_format_pattern,
    }
}

impl Default for RuntimeConfig {
    /// The built-in configuration: the default literal and pattern, the
    /// literal expanded against the environment's home directory (or the
    /// filesystem root when none can be found).
    fn default() -> (cfg: Self)
        ensures
            cfg.configured_note_file_literal@ == DEFAULT_NOTE_FILE_LITERAL@,
            cfg.datetime_format_pattern@ == DEFAULT_DATETIME_FORMAT_PATTERN@,
            exists|home: Seq<char>|
                cfg.expanded_note_file_path@ == #[trigger] spec_expand_tilde(
                    DEFAULT_NOTE_FILE_LITERAL@,
                    home,
                ),
    {
        let home = match home_directory() {
            Some(h) => h,
            None => String::from_str("/"),
        };
        runtime_config_from_parts(
            String::from_str(DEFAULT_NOTE_FILE_LITERAL),
            String::from_str(DEFAULT_DATETIME_FORMAT_PATTERN),
            home.as_str(),
        )
    }
}

/// The application's directory under a config base.
pub open spec fn spec_config_directory(base: Seq<char>) -> Seq<char> {
    spec_path_join(base, "nt"@)
}

/// The default config directory: the platform config base with the
/// application's directory appended; `None` when the environment names
/// no base.
pub fn resolve_default_config_directory() -> (r: Option<String>)
    ensures
        r matches Some(p) ==> exists|base: Seq<char>|
            p@ == #[trigger] spec_config_directory(base),
{
    match config_base_directory() {
        Some(base) => {
            let joined = path_join(base.as_str(), "nt");
            proof {
                assert(joined@ == spec_config_directory(base@));
            }
            Some(joined)
        },
        None => None,
    }
}

/// The default config file within a given config directory.
pub fn default_config_file_in(directory: &str) -> (r: String)
    ensures
        r@ == spec_path_join(directory@, CONFIG_FILE_NAME@),
{
    path_join(directory, CONFIG_FILE_NAME)
}

/// The default config file path, or the missing-home error when the
/// environment offers no config directory.
pub fn resolve_default_config_file_path() -> (r: Result<String, ConfigLoadSaveError>)
    ensures
        r matches Ok(p) ==> exists|base: Seq<char>|
            p@ == spec_path_join(#[trigger] spec_config_directory(base), CONFIG_FILE_NAME@),
        r matches Err(e) ==> e is MissingHomeDirectory,
{
    match resolve_default_config_directory() {
        Some(dir) => {
            let p = default_config_file_in(dir.as_str());
            proof {
                let base = choose|base: Seq<char>| dir@ == #[trigger] spec_config_directory(
                    base,
                );
                assert(p@ == spec_path_join(spec_config_directory(base), CONFIG_FILE_NAME@));
            }
            Ok(p)
        },
        None => Err(ConfigLoadSaveError::MissingHomeDirectory),
    }
}

/// What toml parsing yields for a document read through two top-level
/// string keys: whether the document parses, and for each key its string
/// value when it has one. A function of the text and the keys alone.
pub uninterp spec fn toml_two_string_fields(
    doc: Seq<char>,
    key1: Seq<char>,
    key2: Seq<char>,
) -> Result<(Option<Seq<char>>, Option<Seq<char>>), ()>;

/// What toml serialization renders for a table holding up to two string
/// entries (the serializer orders entries by key itself). A function of
/// the keys and values alone.
pub uninterp spec fn toml_two_string_document(
    key1: Seq<char>,
    val1: Option<Seq<char>>,
    key2: Seq<char>,
    val2: Option<Seq<char>>,
) -> Result<Seq<char>, ()>;

/// Relies on toml's parser — `str::parse::<toml::Table>`, that is
/// `toml::from_str` — and on `toml::Value::as_str`: parses `doc` as a
/// TOML document and reads the two given top-level keys, keeping each
/// only when it is present with a string value (a key of any other type
/// reads as absent). The outcome depends on the text and the keys alone,
/// so it is named by `toml_two_string_fields`.
#[verifier::external_body]
fn toml_parse_two_string_fields(doc: &str, key1: &str, key2: &str) -> (r: Result<
    (Option<String>, Option<String>),
    toml::de::Error,
>)
    ensures
        match r {
            Ok(p) => toml_two_string_fields(doc@, key1@, key2@) == Ok::<_, ()>(
                (p.0.deep_view(), p.1.deep_view()),
            ),
            Err(_) => toml_two_string_fields(doc@, key1@, key2@) is Err,
        },
{
    let table: toml::Table = match doc.parse() {
        Ok(t) => t,
        Err(e) => return Err(e),
    };
    let v1 = table.get(key1).and_then(|v| v.as_str()).map(|s| s.to_string());
    let v2 = table.get(key2).and_then(|v| v.as_str()).map(|s| s.to_string());
    Ok((v1, v2))
}

/// Relies on toml's serializer, `toml::to_string_pretty` over a
/// `toml::Table` (`toml::Table::new`, `toml::map::Map::insert`,
/// `toml::Value::String`): renders a document holding each given key
/// exactly when its value is present. Deterministic in the keys and
/// values alone, so the outcome is named by `toml_two_string_document`.
#[verifier::external_body]
fn toml_serialize_two_string_fields(
    key1: &str,
    val1: &Option<String>,
    key2: &str,
    val2: &Option<String>,
) -> (r: Result<String, toml::ser::Error>)
    ensures
        match r {
            Ok(s) => toml_two_string_document(
                key1@,
                val1.deep_view(),
                key2@,
                val2.deep_view(),
            ) == Ok::<_, ()>(s@),
            Err(_) => toml_two_string_document(
                key1@,
                val1.deep_view(),
                key2@,
                val2.deep_view(),
            ) is Err,
        },
{
    let mut table = toml::Table::new();
    if let Some(v) = val1 {
        table.insert(key1.to_string(), toml::Value::String(v.clone()));
    }
    if let Some(v) = val2 {
        table.insert(key2.to_string(), toml::Value::String(v.clone()));
    }
    toml::to_string_pretty(&table)
}

/// The three resolved fields a parse produces from the two optional
/// string settings: literal, expanded path, pattern — absent settings
/// falling back to the defaults.
pub open spec fn spec_config_from_fields(
    nf: Option<Seq<char>>,
    df: Option<Seq<char>>,
    home: Seq<char>,
) -> (Seq<char>, Seq<char>, Seq<char>) {
    let lit = match nf {
        Some(s) => s,
        None => DEFAULT_NOTE_FILE_LITERAL@,
    };
    let pat = match df {
        Some(s) => s,
        None => DEFAULT_DATETIME_FORMAT_PATTERN@,
    };
    (lit, spec_expand_tilde(lit, home), pat)
}

/// Parses configuration text without touching the filesystem: fields the
/// document does not set fall back to the defaults, and a leading tilde
/// in the note-file literal is expanded against the given home
/// directory. Fails — with the toml error — exactly when the text is not
/// a well-formed document for the two settings.
pub fn parse_toml_without_fs(toml_str: &str, home_directory: &str) -> (r: Result<
    RuntimeConfig,
    ConfigLoadSaveError,
>)
    ensures
        r is Ok <==> toml_two_string_fields(toml_str@, "note_file"@, "datetime_format"@) is Ok,
        r matches Ok(cfg) ==> (toml_two_string_fields(
            toml_str@,
            "note_file"@,
            "datetime_format"@,
        ) matches Ok(fields) && {
            let resolved = spec_config_from_fields(fields.0, fields.1, home_directory@);
            cfg.configured_note_file_literal@ == resolved.0 && cfg.expanded_note_file_path@
                == resolved.1 && cfg.datetime_format_pattern@ == resolved.2
        }),
        r matches Err(e) ==> e is TomlDeserialize,
{
    match toml_parse_two_string_fields(toml_str, "note_file", "datetime_format") {
        Err(e) => Err(ConfigLoadSaveError::TomlDeserialize(e)),
        Ok((nf, df)) => {
            let lit = match nf {
                Some(s) => s,
                None => String::from_str(DEFAULT_NOTE_FILE_LITERAL),
            };
            let pat = match df {
                Some(s) => s,
                None => String::from_str(DEFAULT_DATETIME_FORMAT_PATTERN),
            };
            Ok(runtime_config_from_parts(lit, pat, home_directory))
        },
    }
}

/// The two optional settings a config serializes to: each field only
/// when it differs from its default.
pub open spec fn spec_diff_fields(cfg: &RuntimeConfig) -> (
    Option<Seq<char>>,
    Option<Seq<char>>,
) {
    (
        if cfg.configured_note_file_literal@ == DEFAULT_NOTE_FILE_LITERAL@ {
            None
        } else {
            Some(cfg.configured_note_file_literal@)
        },
        if cfg.datetime_format_pattern@ == DEFAULT_DATETIME_FORMAT_PATTERN@ {
            None
        } else {
            Some(cfg.datetime_format_pattern@)
        },
    )
}

/// Serializes only what differs from the defaults, so a default config
/// renders as an empty document.
pub fn serialize_runtime_config_diff(cfg: &RuntimeConfig) -> (r: Result<
    String,
    ConfigLoadSaveError,
>)
    ensures
        r matches Ok(s) ==> toml_two_string_document(
            "note_file"@,
            spec_diff_fields(cfg).0,
            "datetime_format"@,
            spec_diff_fields(cfg).1,
        ) == Ok::<_, ()>(s@),
        r is Err ==> toml_two_string_document(
            "note_file"@,
            spec_diff_fields(cfg).0,
            "datetime_format"@,
            spec_diff_fields(cfg).1,
        ) is Err,
        r matches Err(e) ==> e is TomlSerialize,
{
    let default_lit = String::from_str(DEFAULT_NOTE_FILE_LITERAL);
    let default_pat = String::from_str(DEFAULT_DATETIME_FORMAT_PATTERN);
    let nf: Option<String> = if cfg.configured_note_file_literal == default_lit {
        None
    } else {
        Some(cfg.configured_note_file_literal.clone())
    };
    let df: Option<String> = if cfg.datetime_format_pattern == default_pat {
        None
    } else {
        Some(cfg.datetime_format_pattern.clone())
    };
    match toml_serialize_two_string_fields("note_file", &nf, "datetime_format", &df) {
        Ok(s) => Ok(s),
        Err(e) => Err(ConfigLoadSaveError::TomlSerialize(e)),
    }
}

} // verus!
