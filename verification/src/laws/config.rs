//! What a configuration takes from each of its settings.
use vstd::arithmetic::power::{lemma_pow0, lemma_pow1, lemma_pow_adds, pow};
use vstd::prelude::*;
use crate::config::{
    config_from, config_of, digit_value, digits_value, fits, integer_value, number_of,
    optional_setting, toml_document, toml_setting, CONFIG_TEMPLATE, Config, ConfigView, Setting,
    SettingView,
};
use crate::text::optional_text;

verus! {

/// A configuration says what its settings say, each for itself. The key and the model are the texts
/// that are set; the endpoint is the text that is set, whatever else is or is not, and only where
/// none is set the default; and there is a temperature exactly where a number is set. Nothing else
/// makes up a configuration, and all that makes one up does.
pub proof fn a_configuration_says_what_is_set(
    api_key: Option<SettingView>,
    model: Option<SettingView>,
    base_url: Option<SettingView>,
    temperature: Option<SettingView>,
    c: ConfigView,
)
    ensures
        config_from(api_key, model, base_url, temperature) == Some(c) <==> {
            &&& api_key == Some(SettingView::Text(c.api_key))
            &&& model == Some(SettingView::Text(c.model))
            &&& base_url == Some(SettingView::Text(c.base_url)) || (base_url is None && c.base_url
                == "https://api.openai.com/v1"@)
            &&& match temperature {
                Some(setting) => number_of(setting) is Some && c.temperature == number_of(setting),
                None => c.temperature is None,
            }
        },
{
}

/// No setting changes what another one sets: two configurations that share a setting share what it
/// sets, however the others differ.
pub proof fn settings_do_not_touch_each_other(
    a: ConfigView,
    b: ConfigView,
    keys: (Option<SettingView>, Option<SettingView>),
    models: (Option<SettingView>, Option<SettingView>),
    urls: (Option<SettingView>, Option<SettingView>),
    temperatures: (Option<SettingView>, Option<SettingView>),
)
    requires
        config_from(keys.0, models.0, urls.0, temperatures.0) == Some(a),
        config_from(keys.1, models.1, urls.1, temperatures.1) == Some(b),
    ensures
        keys.0 == keys.1 <==> a.api_key == b.api_key,
        models.0 == models.1 <==> a.model == b.model,
        urls.0 == urls.1 ==> a.base_url == b.base_url,
        urls.0 is Some && urls.1 is Some ==> (urls.0 == urls.1 <==> a.base_url == b.base_url),
        temperatures.0 == temperatures.1 ==> a.temperature == b.temperature,
{
}

/// A configuration is read from a TOML document exactly as the settings of the document say.
pub proof fn a_document_is_read_by_its_settings(text: Seq<char>, c: ConfigView)
    ensures
        config_of(text) == Some(c) <==> {
            &&& toml_document(text)
            &&& toml_setting(text, "api_key"@) == Some(SettingView::Text(c.api_key))
            &&& toml_setting(text, "model"@) == Some(SettingView::Text(c.model))
            &&& toml_setting(text, "base_url"@) == Some(SettingView::Text(c.base_url)) || (
            toml_setting(text, "base_url"@) is None && c.base_url == "https://api.openai.com/v1"@)
            &&& match toml_setting(text, "temperature"@) {
                Some(setting) => number_of(setting) is Some && c.temperature == number_of(setting),
                None => c.temperature is None,
            }
        },
{
}

/// The integers that fit are those that are a signed or an unsigned number of 64 bits.
pub proof fn integers_of_sixty_four_bits_fit(n: int, signed: i64, unsigned: u64)
    ensures
        fits(signed as int),
        fits(unsigned as int),
        fits(n) <==> (n as i64) as int == n || (n as u64) as int == n,
{
}

/// The digits are those up to fifteen, large or small.
pub proof fn digits_count_up_to_fifteen(c: char, d: int)
    ensures
        digit_value(c) == Some(d) <==> 0 <= d < 16 && (seq![
            '0',
            '1',
            '2',
            '3',
            '4',
            '5',
            '6',
            '7',
            '8',
            '9',
            'a',
            'b',
            'c',
            'd',
            'e',
            'f',
        ][d] == c || seq![
            '0',
            '1',
            '2',
            '3',
            '4',
            '5',
            '6',
            '7',
            '8',
            '9',
            'A',
            'B',
            'C',
            'D',
            'E',
            'F',
        ][d] == c),
{
}

/// Digits count by their place: those in front count as many times more as there are places behind
/// them. A digit alone counts as itself where it is below the radix, and nothing else is a number.
pub proof fn digits_count_by_their_place(a: Seq<char>, b: Seq<char>, c: char, radix: int)
    ensures
        digits_value(seq![c], radix) == (match digit_value(c) {
            Some(d) if d < radix => Some(d),
            _ => None,
        }),
        digits_value(a + b, radix) is Some <==> digits_value(a, radix) is Some && digits_value(
            b,
            radix,
        ) is Some,
        digits_value(a + b, radix) is Some ==> digits_value(a + b, radix)->0 == digits_value(
            a,
            radix,
        )->0 * pow(radix, b.len()) + digits_value(b, radix)->0,
    decreases b.len(),
{
    reveal_with_fuel(digits_value, 2);
    assert(seq![c].drop_last() == Seq::<char>::empty());
    assert(0 * radix == 0) by (nonlinear_arith);
    if b.len() == 0 {
        assert(a + b == a);
        lemma_pow0(radix);
        if let Some(n) = digits_value(a, radix) {
            assert(n * 1 == n);
        }
    } else {
        let d = b.drop_last();
        digits_count_by_their_place(a, d, c, radix);
        assert((a + b).drop_last() == a + d);
        assert((a + b).last() == b.last());
        if digits_value(a + b, radix) is Some {
            let x = digits_value(a, radix)->0;
            let y = digits_value(d, radix)->0;
            let p = pow(radix, d.len());
            lemma_pow1(radix);
            lemma_pow_adds(radix, d.len(), 1);
            assert(pow(radix, b.len()) == p * radix);
            assert((x * p + y) * radix == x * (p * radix) + y * radix) by (nonlinear_arith);
        }
    }
}

/// A sign in front of digits makes the number negative or leaves it as it is, and without digits
/// there is no number.
pub proof fn a_sign_stands_in_front(digits: Seq<char>, radix: int)
    requires
        digits.len() > 0,
    ensures
        integer_value(seq!['-'] + digits, radix) == (match digits_value(digits, radix) {
            Some(n) => Some(-n),
            None => None,
        }),
        integer_value(seq!['+'] + digits, radix) == digits_value(digits, radix),
        digits[0] != '-' && digits[0] != '+' ==> integer_value(digits, radix) == digits_value(
            digits,
            radix,
        ),
        integer_value(Seq::empty(), radix) is None,
        integer_value(seq!['-'], radix) is None,
        integer_value(seq!['+'], radix) is None,
{
    assert((seq!['-'] + digits).skip(1) == digits);
    assert((seq!['+'] + digits).skip(1) == digits);
    reveal_with_fuel(digits_value, 2);
}

/// A float is a number as it is written. An integer is one where it fits, written with the mark of
/// its radix. Nothing else is a number.
pub proof fn numbers_are_kept_as_they_are_written(
    text: Seq<char>,
    digits: Seq<char>,
    radix: u32,
)
    ensures
        number_of(SettingView::Float(text)) == Some(text),
        number_of(SettingView::Text(text)) is None,
        number_of(SettingView::Other) is None,
        number_of((SettingView::Integer { digits, radix })) is Some <==> (integer_value(
            digits,
            radix as int,
        ) matches Some(n) && i64::MIN <= n <= u64::MAX),
        number_of((SettingView::Integer { digits, radix })) matches Some(written) ==> {
            &&& radix == 2 ==> written == "0b"@ + digits
            &&& radix == 8 ==> written == "0o"@ + digits
            &&& radix == 16 ==> written == "0x"@ + digits
            &&& radix == 10 ==> written == digits
        },
{
    reveal_strlit("");
    assert(""@ + digits == digits);
}

/// Settings and configurations are seen with all that they hold.
pub proof fn settings_and_configurations_are_seen_whole(
    config: Config,
    text: String,
    radix: u32,
    setting: Setting,
)
    ensures
        config@.api_key == config.api_key@,
        config@.model == config.model@,
        config@.base_url == config.base_url@,
        config@.temperature == optional_text(config.temperature),
        Setting::Text(text)@ == SettingView::Text(text@),
        (Setting::Integer { digits: text, radix })@ == (SettingView::Integer {
            digits: text@,
            radix,
        }),
        Setting::Float(text)@ == SettingView::Float(text@),
        Setting::Other@ == SettingView::Other,
        optional_setting(Some(setting)) == Some(setting@),
        optional_setting(None) is None,
{
}

/// A new configuration file holds this, for the user to fill in.
pub proof fn new_files_hold_the_template()
    ensures
        CONFIG_TEMPLATE@ == r#"# ai-shell configuration
# OpenAI-compatible API endpoint. Override for local or third-party providers.
base_url = "https://api.openai.com/v1"

api_key = "replace-me"
model = "gpt-4.1-mini"
temperature = 0.2
"#@,
{
}

} // verus!
