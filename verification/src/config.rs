//! The configuration file, and where the files of `ai` lie.
use vstd::prelude::*;
use crate::error::AiError;
use crate::text::{characters, optional_text};

verus! {

/// What a new configuration file holds.
pub const CONFIG_TEMPLATE: &'static str = r#"# ai-shell configuration
# OpenAI-compatible API endpoint. Override for local or third-party providers.
base_url = "https://api.openai.com/v1"

api_key = "replace-me"
model = "gpt-4.1-mini"
temperature = 0.2
"#;

/// How to reach the model. The temperature is the text of a TOML number.
#[derive(Debug, PartialEq)]
pub struct Config {
    pub api_key: String,
    pub model: String,
    pub base_url: String,
    pub temperature: Option<String>,
}

/// What a configuration says.
pub struct ConfigView {
    pub api_key: Seq<char>,
    pub model: Seq<char>,
    pub base_url: Seq<char>,
    pub temperature: Option<Seq<char>>,
}

impl View for Config {
    type V = ConfigView;

    open spec fn view(&self) -> ConfigView {
        ConfigView {
            api_key: self.api_key@,
            model: self.model@,
            base_url: self.base_url@,
            temperature: optional_text(self.temperature),
        }
    }
}

/// One setting of a TOML document: a string, an integer as its digits to a radix, the text of a
/// float, or something else.
#[derive(Debug, PartialEq)]
pub enum Setting {
    Text(String),
    Integer { digits: String, radix: u32 },
    Float(String),
    Other,
}

/// What a setting says.
pub enum SettingView {
    Text(Seq<char>),
    Integer { digits: Seq<char>, radix: u32 },
    Float(Seq<char>),
    Other,
}

impl View for Setting {
    type V = SettingView;

    open spec fn view(&self) -> SettingView {
        match self {
            Setting::Text(s) => SettingView::Text(s@),
            Setting::Integer { digits, radix } => SettingView::Integer {
                digits: digits@,
                radix: *radix,
            },
            Setting::Float(n) => SettingView::Float(n@),
            Setting::Other => SettingView::Other,
        }
    }
}

/// What an optional setting says.
pub open spec fn optional_setting(setting: Option<Setting>) -> Option<SettingView> {
    match setting {
        Some(s) => Some(s@),
        None => None,
    }
}

// ---------------------------------------------------------------------------------------------
// Plain documents
// ---------------------------------------------------------------------------------------------

/// A line of a plain TOML document.
pub enum LineView {
    Blank,
    /// What follows the `#`.
    Comment(Seq<char>),
    Text { key: Seq<char>, value: Seq<char> },
    /// A float with one digit before the point.
    Decimal { key: Seq<char>, whole: char, fraction: Seq<char> },
}

/// The text of a line.
pub open spec fn line_text(line: LineView) -> Seq<char> {
    match line {
        LineView::Blank => Seq::empty(),
        LineView::Comment(text) => seq!['#'] + text,
        LineView::Text { key, value } => key + " = "@ + seq!['"'] + value + seq!['"'],
        LineView::Decimal { key, whole, fraction } => key + " = "@ + seq![whole, '.'] + fraction,
    }
}

/// The key that a line sets.
pub open spec fn line_key(line: LineView) -> Option<Seq<char>> {
    match line {
        LineView::Text { key, .. } => Some(key),
        LineView::Decimal { key, .. } => Some(key),
        _ => None,
    }
}

/// What a line sets its key to.
pub open spec fn line_setting(line: LineView) -> Option<SettingView> {
    match line {
        LineView::Text { value, .. } => Some(SettingView::Text(value)),
        LineView::Decimal { whole, fraction, .. } => Some(
            SettingView::Float(seq![whole, '.'] + fraction),
        ),
        _ => None,
    }
}

/// A digit of a decimal number.
pub open spec fn decimal_digit(c: char) -> bool {
    '0' <= c <= '9'
}

/// A character that a key can have without quotation marks.
pub open spec fn key_character(c: char) -> bool {
    ('a' <= c <= 'z') || ('A' <= c <= 'Z') || decimal_digit(c) || c == '_' || c == '-'
}

/// A printable character of ASCII.
pub open spec fn printable(c: char) -> bool {
    ' ' <= c <= '~'
}

/// A key that needs no quotation marks.
pub open spec fn bare_key(key: Seq<char>) -> bool {
    key.len() > 0 && forall|i: int| 0 <= i < key.len() ==> key_character(#[trigger] key[i])
}

/// A line that uses nothing but printable ASCII, no escapes, and keys without quotation marks.
pub open spec fn plain_line(line: LineView) -> bool {
    match line {
        LineView::Blank => true,
        LineView::Comment(text) => forall|i: int|
            0 <= i < text.len() ==> printable(#[trigger] text[i]),
        LineView::Text { key, value } => bare_key(key) && forall|i: int|
            0 <= i < value.len() ==> printable(#[trigger] value[i]) && value[i] != '"' && value[i]
                != '\\',
        LineView::Decimal { key, whole, fraction } => bare_key(key) && decimal_digit(whole)
            && fraction.len() > 0 && forall|i: int|
            0 <= i < fraction.len() ==> decimal_digit(#[trigger] fraction[i]),
    }
}

/// Plain lines, no two of which set the same key.
pub open spec fn plain_lines(lines: Seq<LineView>) -> bool {
    &&& forall|i: int| 0 <= i < lines.len() ==> plain_line(#[trigger] lines[i])
    &&& forall|i: int, j: int|
        0 <= i < j < lines.len() && line_key(lines[i]) is Some ==> line_key(#[trigger] lines[i])
            != line_key(#[trigger] lines[j])
}

/// The document that lines make up.
pub open spec fn document_text(lines: Seq<LineView>) -> Seq<char>
    decreases lines.len(),
{
    if lines.len() == 0 {
        Seq::empty()
    } else {
        document_text(lines.drop_last()) + line_text(lines.last()) + seq!['\n']
    }
}

/// What lines set a key to.
pub open spec fn setting_in(lines: Seq<LineView>, key: Seq<char>) -> Option<SettingView>
    decreases lines.len(),
{
    if lines.len() == 0 {
        None
    } else if line_key(lines.last()) == Some(key) {
        line_setting(lines.last())
    } else {
        setting_in(lines.drop_last(), key)
    }
}

// ---------------------------------------------------------------------------------------------
// What toml decides
// ---------------------------------------------------------------------------------------------

/// Whether `toml::from_str` reads a text as a table whose values are ignored.
pub uninterp spec fn toml_document(text: Seq<char>) -> bool;

/// What `toml::de::DeTable::parse` finds in a text under a key of the topmost table.
pub uninterp spec fn toml_setting(text: Seq<char>, key: Seq<char>) -> Option<SettingView>;

/// Calls `toml::from_str` for a table whose values are ignored, and says whether it succeeded:
/// `text` is a TOML document and every number in it is in range. A document of plain lines is one.
#[verifier::external_body]
fn is_toml_document(text: &str) -> (b: bool)
    ensures
        b == toml_document(text@),
        forall|lines: Seq<LineView>|
            plain_lines(lines) && #[trigger] document_text(lines) == text@ ==> b,
{
    toml::from_str::<std::collections::BTreeMap<String, serde::de::IgnoredAny>>(text).is_ok()
}

/// Calls `toml::de::DeTable::parse` and looks `key` up in the table: nothing where the text does
/// not parse or the key is not there, otherwise the string, the digits and the radix of the
/// integer, the text of the float, or that it is none of these. In a document of plain lines it
/// finds what the lines say.
#[verifier::external_body]
fn find_setting(text: &str, key: &str) -> (setting: Option<Setting>)
    ensures
        optional_setting(setting) == toml_setting(text@, key@),
        forall|lines: Seq<LineView>|
            plain_lines(lines) && #[trigger] document_text(lines) == text@ ==> optional_setting(
                setting,
            ) == setting_in(lines, key@),
{
    let table = toml::de::DeTable::parse(text).ok()?;
    match table.get_ref().get(key)?.get_ref() {
        toml::de::DeValue::String(s) => Some(Setting::Text(s.to_string())),
        toml::de::DeValue::Integer(n) => {
            Some(Setting::Integer { digits: n.as_str().to_string(), radix: n.radix() })
        },
        toml::de::DeValue::Float(n) => Some(Setting::Float(n.to_string())),
        toml::de::DeValue::Boolean(_) => Some(Setting::Other),
        toml::de::DeValue::Datetime(_) => Some(Setting::Other),
        toml::de::DeValue::Array(_) => Some(Setting::Other),
        toml::de::DeValue::Table(_) => Some(Setting::Other),
    }
}

// ---------------------------------------------------------------------------------------------
// The configuration
// ---------------------------------------------------------------------------------------------

/// What a character counts as a digit, as `0` to `9` and then `a` to `f` do.
pub open spec fn digit_value(c: char) -> Option<int> {
    if '0' <= c <= '9' {
        Some(c as int - '0' as int)
    } else if 'a' <= c <= 'f' {
        Some(c as int - 'a' as int + 10)
    } else if 'A' <= c <= 'F' {
        Some(c as int - 'A' as int + 10)
    } else {
        None
    }
}

/// The number that digits stand for.
pub open spec fn digits_value(digits: Seq<char>, radix: int) -> Option<int>
    decreases digits.len(),
{
    if digits.len() == 0 {
        Some(0)
    } else {
        match (digits_value(digits.drop_last(), radix), digit_value(digits.last())) {
            (Some(n), Some(d)) if d < radix => Some(n * radix + d),
            _ => None,
        }
    }
}

/// The integer that digits stand for, with a sign in front of them or none.
pub open spec fn integer_value(digits: Seq<char>, radix: int) -> Option<int> {
    if digits.len() > 1 && digits[0] == '-' {
        match digits_value(digits.skip(1), radix) {
            Some(n) => Some(-n),
            None => None,
        }
    } else if digits.len() > 1 && digits[0] == '+' {
        digits_value(digits.skip(1), radix)
    } else if digits.len() > 0 {
        digits_value(digits, radix)
    } else {
        None
    }
}

/// An integer that a signed or an unsigned number of 64 bits can be.
pub open spec fn fits(n: int) -> bool {
    i64::MIN <= n <= u64::MAX
}

/// What an integer begins with that is written to a radix.
pub open spec fn radix_prefix(radix: u32) -> Seq<char> {
    if radix == 2 {
        "0b"@
    } else if radix == 8 {
        "0o"@
    } else if radix == 16 {
        "0x"@
    } else {
        ""@
    }
}

/// The number that a setting says, as it is written in TOML. An integer must fit into 64 bits.
pub open spec fn number_of(setting: SettingView) -> Option<Seq<char>> {
    match setting {
        SettingView::Float(text) => Some(text),
        SettingView::Integer { digits, radix } => match integer_value(digits, radix as int) {
            Some(n) if fits(n) => Some(radix_prefix(radix) + digits),
            _ => None,
        },
        _ => None,
    }
}

/// The configuration that four settings make up. The API key and the model must be there, the
/// endpoint has a default, and the temperature may be left out.
pub open spec fn config_from(
    api_key: Option<SettingView>,
    model: Option<SettingView>,
    base_url: Option<SettingView>,
    temperature: Option<SettingView>,
) -> Option<ConfigView> {
    let url = match base_url {
        None => Some("https://api.openai.com/v1"@),
        Some(SettingView::Text(url)) => Some(url),
        _ => None,
    };
    let number = match temperature {
        None => Some(None),
        Some(setting) => match number_of(setting) {
            Some(n) => Some(Some(n)),
            None => None,
        },
    };
    match (api_key, model, url, number) {
        (
            Some(SettingView::Text(api_key)),
            Some(SettingView::Text(model)),
            Some(base_url),
            Some(temperature),
        ) => Some(ConfigView { api_key, model, base_url, temperature }),
        _ => None,
    }
}

/// The configuration that a TOML text holds.
pub open spec fn config_of(text: Seq<char>) -> Option<ConfigView> {
    if toml_document(text) {
        config_from(
            toml_setting(text, "api_key"@),
            toml_setting(text, "model"@),
            toml_setting(text, "base_url"@),
            toml_setting(text, "temperature"@),
        )
    } else {
        None
    }
}

/// The configuration that plain lines hold.
pub open spec fn config_in(lines: Seq<LineView>) -> Option<ConfigView> {
    config_from(
        setting_in(lines, "api_key"@),
        setting_in(lines, "model"@),
        setting_in(lines, "base_url"@),
        setting_in(lines, "temperature"@),
    )
}

/// The endpoint that is used where the configuration names none.
pub fn default_base_url() -> (url: String)
    ensures
        url@ == "https://api.openai.com/v1"@,
{
    "https://api.openai.com/v1".to_string()
}

/// The value of `digits`, where it is at most `limit`.
fn bounded_value(digits: &str, radix: u32, limit: u64) -> (value: Option<u64>)
    ensures
        match value {
            Some(n) => digits_value(digits@, radix as int) == Some(n as int) && n <= limit,
            None => digits_value(digits@, radix as int) matches Some(n) ==> n > limit,
        },
{
    let chars = characters(digits);
    let mut value: u64 = 0;
    let mut i: usize = 0;
    while i < chars.len()
        invariant
            i <= chars.len(),
            chars@ == digits@,
            value <= limit,
            digits_value(digits@.take(i as int), radix as int) == Some(value as int),
        decreases chars.len() - i,
    {
        let c = chars[i];
        assert(digits@.take(i + 1).drop_last() == digits@.take(i as int));
        let u: u32 = c as u32;
        let d: u32 = if '0' <= c && c <= '9' {
            u - 48
        } else if 'a' <= c && c <= 'f' {
            u - 87
        } else if 'A' <= c && c <= 'F' {
            u - 55
        } else {
            radix
        };
        if d >= radix {
            proof {
                lemma_no_digit(digits@, radix as int, i as int);
            }
            return None;
        }
        proof {
            lemma_product_fits(value, radix);
        }
        let next: u128 = (value as u128) * (radix as u128) + (d as u128);
        if next > limit as u128 {
            proof {
                lemma_more_digits(digits@, radix as int, i + 1);
            }
            return None;
        }
        value = next as u64;
        i = i + 1;
    }
    assert(digits@.take(digits@.len() as int) == digits@);
    Some(value)
}

proof fn lemma_product_fits(value: u64, radix: u32)
    ensures
        0 <= value * radix <= u64::MAX * u32::MAX,
{
    assert(0 <= value * radix <= u64::MAX * u32::MAX) by (nonlinear_arith);
}

/// A character that is no digit leaves no number.
proof fn lemma_no_digit(digits: Seq<char>, radix: int, i: int)
    requires
        0 <= i < digits.len(),
        digits_value(digits.take(i + 1), radix) is None,
    ensures
        digits_value(digits, radix) is None,
    decreases digits.len(),
{
    if i + 1 == digits.len() {
        assert(digits.take(i + 1) == digits);
    } else {
        assert(digits.drop_last().take(i + 1) == digits.take(i + 1));
        lemma_no_digit(digits.drop_last(), radix, i);
    }
}

/// More digits make a number no smaller.
proof fn lemma_more_digits(digits: Seq<char>, radix: int, i: int)
    requires
        0 <= i <= digits.len(),
        radix >= 1,
        digits_value(digits.take(i), radix) is Some,
        digits_value(digits.take(i), radix)->0 >= 0,
    ensures
        digits_value(digits, radix) matches Some(n) ==> n >= digits_value(digits.take(i), radix)->0,
    decreases digits.len(),
{
    if i == digits.len() {
        assert(digits.take(i) == digits);
    } else {
        let d = digits.drop_last();
        assert(d.take(i) == digits.take(i));
        lemma_more_digits(d, radix, i);
        if let Some(n) = digits_value(d, radix) {
            assert(n * radix >= n) by (nonlinear_arith)
                requires
                    n >= 0,
                    radix >= 1,
            ;
        }
    }
}

/// Whether digits stand for an integer that fits into 64 bits.
fn integer_fits(digits: &str, radix: u32) -> (b: bool)
    ensures
        b == (integer_value(digits@, radix as int) matches Some(n) && fits(n)),
{
    let n: usize = digits.unicode_len();
    if n == 0 {
        return false;
    }
    let first = digits.get_char(0);
    if n > 1 && (first == '-' || first == '+') {
        let rest = digits.substring_char(1, n);
        assert(rest@ == digits@.skip(1));
        let limit: u64 = if first == '-' { 0x8000_0000_0000_0000 } else { u64::MAX };
        proof {
            lemma_not_negative(rest@, radix as int);
        }
        bounded_value(rest, radix, limit).is_some()
    } else {
        proof {
            lemma_not_negative(digits@, radix as int);
        }
        bounded_value(digits, radix, u64::MAX).is_some()
    }
}

/// Digits alone stand for no negative number.
proof fn lemma_not_negative(digits: Seq<char>, radix: int)
    requires
        radix >= 0,
    ensures
        digits_value(digits, radix) matches Some(n) ==> n >= 0,
    decreases digits.len(),
{
    if digits.len() > 0 {
        lemma_not_negative(digits.drop_last(), radix);
        if let Some(n) = digits_value(digits.drop_last(), radix) {
            assert(n * radix >= 0) by (nonlinear_arith)
                requires
                    n >= 0,
                    radix >= 0,
            ;
        }
    }
}

impl Setting {
    /// The number that the setting says, as it is written in TOML. An integer must fit into 64
    /// bits.
    pub fn number(&self) -> (text: Option<String>)
        ensures
            optional_text(text) == number_of(self@),
    {
        match self {
            Setting::Float(text) => Some(text.clone()),
            Setting::Integer { digits, radix } => {
                if !integer_fits(digits.as_str(), *radix) {
                    return None;
                }
                let prefix = if *radix == 2 {
                    "0b"
                } else if *radix == 8 {
                    "0o"
                } else if *radix == 16 {
                    "0x"
                } else {
                    ""
                };
                Some(prefix.to_string().concat(digits.as_str()))
            },
            _ => None,
        }
    }
}

impl Config {
    /// The configuration that four settings make up.
    pub fn from_settings(
        api_key: Option<Setting>,
        model: Option<Setting>,
        base_url: Option<Setting>,
        temperature: Option<Setting>,
    ) -> (config: Option<Config>)
        ensures
            config is Some <==> config_from(
                optional_setting(api_key),
                optional_setting(model),
                optional_setting(base_url),
                optional_setting(temperature),
            ) is Some,
            config matches Some(c) ==> config_from(
                optional_setting(api_key),
                optional_setting(model),
                optional_setting(base_url),
                optional_setting(temperature),
            ) == Some(c@),
            config matches Some(c) ==> api_key == Some(Setting::Text(c.api_key)) && model == Some(
                Setting::Text(c.model),
            ),
            config matches Some(c) ==> match base_url {
                Some(setting) => setting == Setting::Text(c.base_url),
                None => c.base_url@ == "https://api.openai.com/v1"@,
            },
            config matches Some(c) ==> match temperature {
                Some(setting) => optional_text(c.temperature) == number_of(setting@)
                    && c.temperature is Some,
                None => c.temperature is None,
            },
    {
        let base_url = match base_url {
            None => default_base_url(),
            Some(Setting::Text(url)) => url,
            _ => return None,
        };
        let temperature = match temperature {
            None => None,
            Some(setting) => match setting.number() {
                Some(n) => Some(n),
                None => return None,
            },
        };
        match (api_key, model) {
            (Some(Setting::Text(api_key)), Some(Setting::Text(model))) => Some(
                Config { api_key, model, base_url, temperature },
            ),
            _ => None,
        }
    }

    /// Reads a configuration from its TOML text. Settings that are not asked for are skipped.
    pub fn parse(text: &str) -> (config: Option<Config>)
        ensures
            config is Some <==> config_of(text@) is Some,
            config matches Some(c) ==> config_of(text@) == Some(c@),
            forall|lines: Seq<LineView>|
                plain_lines(lines) && #[trigger] document_text(lines) == text@ ==> config_of(text@)
                    == config_in(lines),
    {
        if !is_toml_document(text) {
            return None;
        }
        Config::from_settings(
            find_setting(text, "api_key"),
            find_setting(text, "model"),
            find_setting(text, "base_url"),
            find_setting(text, "temperature"),
        )
    }

    /// The configuration that was found at `path`. Where there was no file, a template has been
    /// written there for the user to fill in. The template is itself a configuration.
    pub fn load(path: &str, file: Option<String>) -> (config: Result<Config, AiError>)
        ensures
            match file {
                None => config matches Err(AiError::ConfigCreated(p)) && p@ == path@,
                Some(text) => match config_of(text@) {
                    Some(c) => config matches Ok(found) && found@ == c,
                    None => config matches Err(AiError::ConfigNotParsed(p)) && p@ == path@,
                },
            },
            file matches Some(text) ==> (text@ == CONFIG_TEMPLATE@ ==> (config matches Ok(found)
                && found@ == template_config())),
    {
        proof {
            the_template_is_plain();
            assert(document_text(template_lines()) == CONFIG_TEMPLATE@);
        }
        match file {
            None => Err(AiError::ConfigCreated(path.to_string())),
            Some(text) => match Config::parse(text.as_str()) {
                Some(config) => Ok(config),
                None => Err(AiError::ConfigNotParsed(path.to_string())),
            },
        }
    }
}

/// A file named relative to a base directory.
#[derive(Debug, PartialEq)]
pub struct Location<T> {
    pub base: T,
    pub relative: String,
}

/// Where the configuration lies: below the configuration directory, or below the home directory.
pub fn config_path<T>(config_home: Option<T>, home: Option<T>) -> (place: Result<
    Location<T>,
    AiError,
>)
    ensures
        match (config_home, home) {
            (Some(dir), _) => place matches Ok(l) && l.base == dir && l.relative@
                == "ai-shell/config.toml"@,
            (None, Some(dir)) => place matches Ok(l) && l.base == dir && l.relative@
                == ".config/ai-shell/config.toml"@,
            (None, None) => place == Err::<Location<T>, AiError>(AiError::HomeNotSet),
        },
{
    match (config_home, home) {
        (Some(base), _) => Ok(Location { base, relative: "ai-shell/config.toml".to_string() }),
        (None, Some(base)) => Ok(
            Location { base, relative: ".config/ai-shell/config.toml".to_string() },
        ),
        (None, None) => Err(AiError::HomeNotSet),
    }
}

/// Where the history lies: below the data directory, or below the home directory.
pub fn history_path<T>(data_home: Option<T>, home: Option<T>) -> (place: Result<
    Location<T>,
    AiError,
>)
    ensures
        match (data_home, home) {
            (Some(dir), _) => place matches Ok(l) && l.base == dir && l.relative@
                == "ai-shell/history.sqlite"@,
            (None, Some(dir)) => place matches Ok(l) && l.base == dir && l.relative@
                == ".local/share/ai-shell/history.sqlite"@,
            (None, None) => place == Err::<Location<T>, AiError>(AiError::HomeNotSet),
        },
{
    match (data_home, home) {
        (Some(base), _) => Ok(Location { base, relative: "ai-shell/history.sqlite".to_string() }),
        (None, Some(base)) => Ok(
            Location { base, relative: ".local/share/ai-shell/history.sqlite".to_string() },
        ),
        (None, None) => Err(AiError::HomeNotSet),
    }
}

// ---------------------------------------------------------------------------------------------
// The template
// ---------------------------------------------------------------------------------------------

/// The configuration that the template holds.
pub open spec fn template_config() -> ConfigView {
    ConfigView {
        api_key: "replace-me"@,
        model: "gpt-4.1-mini"@,
        base_url: "https://api.openai.com/v1"@,
        temperature: Some("0.2"@),
    }
}

/// The lines of the template.
pub open spec fn template_lines() -> Seq<LineView> {
    seq![
        LineView::Comment(" ai-shell configuration"@),
        LineView::Comment(
            " OpenAI-compatible API endpoint. Override for local or third-party providers."@,
        ),
        LineView::Text { key: "base_url"@, value: "https://api.openai.com/v1"@ },
        LineView::Blank,
        LineView::Text { key: "api_key"@, value: "replace-me"@ },
        LineView::Text { key: "model"@, value: "gpt-4.1-mini"@ },
        LineView::Decimal { key: "temperature"@, whole: '0', fraction: "2"@ },
    ]
}

/// The template consists of plain lines, and they make up a configuration.
pub proof fn the_template_is_plain()
    ensures
        document_text(template_lines()) == CONFIG_TEMPLATE@,
        plain_lines(template_lines()),
        config_in(template_lines()) == Some(template_config()),
{
    let lines = template_lines();
    reveal_strlit(" = ");
    reveal_strlit(" ai-shell configuration");
    reveal_strlit(
        " OpenAI-compatible API endpoint. Override for local or third-party providers.",
    );
    reveal_strlit("base_url");
    reveal_strlit("https://api.openai.com/v1");
    reveal_strlit("api_key");
    reveal_strlit("replace-me");
    reveal_strlit("model");
    reveal_strlit("gpt-4.1-mini");
    reveal_strlit("temperature");
    reveal_strlit("2");
    reveal_strlit("0.2");
    reveal_strlit(
        r#"# ai-shell configuration
# OpenAI-compatible API endpoint. Override for local or third-party providers.
base_url = "https://api.openai.com/v1"

api_key = "replace-me"
model = "gpt-4.1-mini"
temperature = 0.2
"#,
    );
    reveal_with_fuel(document_text, 8);
    reveal_with_fuel(setting_in, 8);
    assert(lines.drop_last().drop_last().drop_last().drop_last().drop_last().drop_last().drop_last()
        == Seq::<LineView>::empty());
    assert(document_text(lines) == CONFIG_TEMPLATE@);
    assert(seq!['0', '.'] + "2"@ == "0.2"@);
}

} // verus!
