//! One configuration: which provider to ask, which model, and how.

use crate::error::{config_failure, ConfigError, ConfigErrorView};
use crate::text::{chars_of, same_str, string_of};
use vstd::prelude::*;
use vstd::string::StringExecFns;
use vstd::utf8::{decode_utf8, encode_utf8, is_char_boundary};

verus! {

/// The sampling temperature of a fresh configuration: 0.1, as the bits of a
/// single-precision float.
pub const DEFAULT_TEMPERATURE: u32 = 0x3DCC_CCCD;

/// The token limit of a fresh configuration.
pub const DEFAULT_MAX_TOKENS: u32 = 2000;

/// The settings of one provider.
#[derive(Debug, PartialEq, Eq)]
pub struct Config {
    pub provider: String,
    pub model: String,
    /// Secret. Empty where none is set.
    pub api_key: String,
    /// Empty where the provider's own address is to be used.
    pub base_url: String,
    /// The sampling temperature, as the bits of a single-precision float.
    pub temperature: u32,
    /// The token limit, a positive number: `positive_limit` says so, and
    /// every change of a setting keeps it so.
    pub max_tokens: u32,
}

/// A configuration as a value of mathematics: texts in place of strings.
pub struct ConfigView {
    pub provider: Seq<char>,
    pub model: Seq<char>,
    pub api_key: Seq<char>,
    pub base_url: Seq<char>,
    pub temperature: u32,
    pub max_tokens: u32,
}

impl View for Config {
    type V = ConfigView;

    open spec fn view(&self) -> ConfigView {
        ConfigView {
            provider: self.provider@,
            model: self.model@,
            api_key: self.api_key@,
            base_url: self.base_url@,
            temperature: self.temperature,
            max_tokens: self.max_tokens,
        }
    }
}

/// The configuration of a fresh profile: OpenAI's `gpt-4`, no key, no
/// address.
pub open spec fn default_config() -> ConfigView {
    ConfigView {
        provider: "openai"@,
        model: "gpt-4"@,
        api_key: Seq::empty(),
        base_url: Seq::empty(),
        temperature: DEFAULT_TEMPERATURE,
        max_tokens: DEFAULT_MAX_TOKENS,
    }
}

impl Default for Config {
    fn default() -> (config: Config)
        ensures
            config@ == default_config(),
    {
        Config {
            provider: String::from_str("openai"),
            model: String::from_str("gpt-4"),
            api_key: String::new(),
            base_url: String::new(),
            temperature: DEFAULT_TEMPERATURE,
            max_tokens: DEFAULT_MAX_TOKENS,
        }
    }
}

impl Clone for Config {
    fn clone(&self) -> (copy: Config)
        ensures
            copy@ == self@,
    {
        Config {
            provider: self.provider.clone(),
            model: self.model.clone(),
            api_key: self.api_key.clone(),
            base_url: self.base_url.clone(),
            temperature: self.temperature,
            max_tokens: self.max_tokens,
        }
    }
}

/// The settings that a configuration has.
#[derive(Clone, Copy, PartialEq, Eq, Debug)]
pub enum ConfigKey {
    Provider,
    Model,
    ApiKey,
    BaseUrl,
    Temperature,
    MaxTokens,
}

/// The setting that `name` names.
pub open spec fn key_named(name: Seq<char>) -> Option<ConfigKey> {
    if name == "provider"@ {
        Some(ConfigKey::Provider)
    } else if name == "model"@ {
        Some(ConfigKey::Model)
    } else if name == "api_key"@ {
        Some(ConfigKey::ApiKey)
    } else if name == "base_url"@ {
        Some(ConfigKey::BaseUrl)
    } else if name == "temperature"@ {
        Some(ConfigKey::Temperature)
    } else if name == "max_tokens"@ {
        Some(ConfigKey::MaxTokens)
    } else {
        None
    }
}

/// The setting that `name` names.
pub fn parse_key(name: &str) -> (key: Option<ConfigKey>)
    ensures
        key == key_named(name@),
{
    if same_str(name, "provider") {
        Some(ConfigKey::Provider)
    } else if same_str(name, "model") {
        Some(ConfigKey::Model)
    } else if same_str(name, "api_key") {
        Some(ConfigKey::ApiKey)
    } else if same_str(name, "base_url") {
        Some(ConfigKey::BaseUrl)
    } else if same_str(name, "temperature") {
        Some(ConfigKey::Temperature)
    } else if same_str(name, "max_tokens") {
        Some(ConfigKey::MaxTokens)
    } else {
        None
    }
}

/// `c` is one of the ten decimal digits of ASCII.
pub open spec fn is_digit(c: char) -> bool {
    '0' <= c && c <= '9'
}

/// The number that the digits `s` write in base ten.
pub open spec fn decimal(s: Seq<char>) -> nat
    decreases s.len(),
{
    if s.len() == 0 {
        0
    } else {
        decimal(s.drop_last()) * 10 + (s.last() as u32 - '0' as u32) as nat
    }
}

/// The digits of a number text: the text without the plus sign that may lead
/// it.
pub open spec fn unsigned_part(s: Seq<char>) -> Seq<char> {
    if s.len() > 0 && s[0] == '+' {
        s.skip(1)
    } else {
        s
    }
}

/// The number that `s` writes, where `s` is one or more decimal digits, with
/// or without a plus sign before them, and the number fits in 32 bits.
pub open spec fn parsed_u32(s: Seq<char>) -> Option<u32> {
    let digits = unsigned_part(s);
    if digits.len() > 0 && (forall|i: int| 0 <= i < digits.len() ==> is_digit(#[trigger] digits[i]))
        && decimal(digits) <= u32::MAX {
        Some(decimal(digits) as u32)
    } else {
        None
    }
}

/// A number is at least the number that any of its leading digits write.
pub proof fn lemma_decimal_grows(s: Seq<char>, k: int)
    requires
        0 <= k <= s.len(),
        forall|i: int| 0 <= i < s.len() ==> is_digit(#[trigger] s[i]),
    ensures
        decimal(s.take(k)) <= decimal(s),
    decreases s.len() - k,
{
    if k == s.len() {
        assert(s.take(k) =~= s);
    } else {
        assert(s.drop_last().take(k) =~= s.take(k));
        lemma_decimal_grows(s.drop_last(), k);
    }
}

/// The number that `s` writes in base ten, if it writes one that fits.
pub fn parse_u32(s: &str) -> (n: Option<u32>)
    ensures
        n == parsed_u32(s@),
{
    let chars = chars_of(s);
    let from: usize = if chars.len() > 0 && chars[0] == '+' {
        1
    } else {
        0
    };
    let ghost digits = unsigned_part(chars@);
    assert(digits =~= chars@.skip(from as int));
    if from == chars.len() {
        return None;
    }
    let mut acc: u32 = 0;
    let mut i: usize = from;
    assert(digits.take(0) =~= Seq::<char>::empty());
    while i < chars.len()
        invariant
            from <= i <= chars.len(),
            chars@ == s@,
            digits == unsigned_part(s@),
            digits == chars@.skip(from as int),
            forall|j: int| 0 <= j < i - from ==> is_digit(#[trigger] digits[j]),
            acc == decimal(digits.take(i - from)),
        decreases chars.len() - i,
    {
        let c = chars[i];
        assert(digits[i - from] == c);
        if !(c >= '0' && c <= '9') {
            assert(!is_digit(digits[i - from]));
            return None;
        }
        let d: u32 = c as u32 - '0' as u32;
        proof {
            assert(digits.take(i - from + 1).drop_last() =~= digits.take(i - from));
            assert(digits.take(i - from + 1).last() == c);
        }
        if acc > (u32::MAX - d) / 10 {
            proof {
                assert(decimal(digits.take(i - from + 1)) == acc * 10 + d);
                if forall|j: int| 0 <= j < digits.len() ==> is_digit(#[trigger] digits[j]) {
                    lemma_decimal_grows(digits, i - from + 1);
                }
            }
            return None;
        }
        acc = acc * 10 + d;
        i += 1;
    }
    assert(digits.take(digits.len() as int) =~= digits);
    Some(acc)
}

/// The decimal digit that writes `d`.
pub open spec fn digit_char(d: int) -> char {
    if d == 0 {
        '0'
    } else if d == 1 {
        '1'
    } else if d == 2 {
        '2'
    } else if d == 3 {
        '3'
    } else if d == 4 {
        '4'
    } else if d == 5 {
        '5'
    } else if d == 6 {
        '6'
    } else if d == 7 {
        '7'
    } else if d == 8 {
        '8'
    } else {
        '9'
    }
}

/// The digits that write `n` in base ten, without leading zeros.
pub open spec fn decimal_text(n: nat) -> Seq<char>
    decreases n,
{
    if n < 10 {
        seq![digit_char(n as int)]
    } else {
        decimal_text(n / 10).push(digit_char((n % 10) as int))
    }
}

/// What is written can be read again: the digits of a number write that
/// number.
pub proof fn lemma_decimal_round_trip(n: nat)
    ensures
        decimal_text(n).len() > 0,
        forall|i: int| 0 <= i < decimal_text(n).len() ==> is_digit(#[trigger] decimal_text(n)[i]),
        decimal(decimal_text(n)) == n,
        unsigned_part(decimal_text(n)) == decimal_text(n),
        n <= u32::MAX ==> parsed_u32(decimal_text(n)) == Some(n as u32),
    decreases n,
{
    let text = decimal_text(n);
    if n < 10 {
        assert(text.drop_last() =~= Seq::<char>::empty());
        assert(decimal(text.drop_last()) == 0);
    } else {
        lemma_decimal_round_trip(n / 10);
        assert(text.drop_last() =~= decimal_text(n / 10));
        assert(text[0] == decimal_text(n / 10)[0]);
    }
}

fn push_decimal(n: u32, out: &mut Vec<char>)
    ensures
        final(out)@ == old(out)@ + decimal_text(n as nat),
    decreases n,
{
    if n >= 10 {
        push_decimal(n / 10, out);
    }
    let d: u32 = n % 10;
    let c = if d == 0 {
        '0'
    } else if d == 1 {
        '1'
    } else if d == 2 {
        '2'
    } else if d == 3 {
        '3'
    } else if d == 4 {
        '4'
    } else if d == 5 {
        '5'
    } else if d == 6 {
        '6'
    } else if d == 7 {
        '7'
    } else if d == 8 {
        '8'
    } else {
        '9'
    };
    out.push(c);
    assert(final(out)@ =~= old(out)@ + decimal_text(n as nat));
}

/// The digits that write `n` in base ten.
pub fn u32_text(n: u32) -> (text: String)
    ensures
        text@ == decimal_text(n as nat),
{
    let mut digits: Vec<char> = Vec::new();
    push_decimal(n, &mut digits);
    assert(digits@ =~= decimal_text(n as nat));
    string_of(digits.as_slice())
}

/// The number of bytes of a key that are shown.
pub const PREVIEW_BYTES: usize = 8;

/// Whether the key can be cut for showing: it is short enough to be shown
/// whole, or no character of it straddles the cut.
pub open spec fn preview_possible(api_key: Seq<char>) -> bool {
    encode_utf8(api_key).len() <= PREVIEW_BYTES || is_char_boundary(
        encode_utf8(api_key),
        PREVIEW_BYTES as int,
    )
}

/// What is shown of a key: its first eight bytes and an ellipsis, and a
/// remark where no key is set.
pub open spec fn key_preview(api_key: Seq<char>) -> Seq<char> {
    let bytes = encode_utf8(api_key);
    if api_key.len() == 0 {
        "(not set)"@
    } else if bytes.len() <= PREVIEW_BYTES {
        api_key + "..."@
    } else {
        decode_utf8(bytes.take(PREVIEW_BYTES as int)) + "..."@
    }
}

/// What is shown of an address: the address, and a remark where none is set.
pub open spec fn address_shown(base_url: Seq<char>) -> Seq<char> {
    if base_url.len() == 0 {
        "(not set)"@
    } else {
        base_url
    }
}

/// What is shown of the configuration `config` of the profile `profile`:
/// a title and one line for each setting. `temperature` is the temperature
/// as text.
pub open spec fn config_listing(
    profile: Seq<char>,
    config: ConfigView,
    temperature: Seq<char>,
) -> Seq<Seq<char>> {
    seq![
        "🔧 Lexi Configuration (Profile: "@ + profile + "):"@,
        "   provider: "@ + config.provider,
        "   model: "@ + config.model,
        "   api_key: "@ + key_preview(config.api_key),
        "   base_url: "@ + address_shown(config.base_url),
        "   temperature: "@ + temperature,
        "   max_tokens: "@ + decimal_text(config.max_tokens as nat),
    ]
}

/// The views of a list of strings.
pub open spec fn string_views(strings: Seq<String>) -> Seq<Seq<char>> {
    Seq::new(strings.len(), |i: int| strings[i]@)
}

/// Whether the key can be cut for showing.
pub fn can_preview(api_key: &str) -> (r: bool)
    ensures
        r == preview_possible(api_key@),
{
    api_key.as_bytes().len() <= PREVIEW_BYTES || api_key.is_char_boundary(PREVIEW_BYTES)
}

/// What is shown of the key `api_key`.
pub fn api_key_preview(api_key: &str) -> (shown: String)
    requires
        preview_possible(api_key@),
    ensures
        shown@ == key_preview(api_key@),
{
    broadcast use vstd::utf8::group_utf8_lib;

    if api_key.is_empty() {
        return String::from_str("(not set)");
    }
    let mut shown = if api_key.as_bytes().len() <= PREVIEW_BYTES {
        String::from_str(api_key)
    } else {
        let parts = api_key.split_at(PREVIEW_BYTES);
        proof {
            let bytes = encode_utf8(api_key@);
            assert(bytes.take(PREVIEW_BYTES as int) =~= bytes.subrange(0, PREVIEW_BYTES as int));
            assert(encode_utf8(parts.0@) == bytes.take(PREVIEW_BYTES as int));
            assert(decode_utf8(encode_utf8(parts.0@)) == parts.0@);
        }
        String::from_str(parts.0)
    };
    shown.append("...");
    shown
}

fn labelled(label: &str, value: &str) -> (line: String)
    ensures
        line@ == label@ + value@,
{
    let mut line = String::from_str(label);
    line.append(value);
    line
}

/// What is shown of the configuration `config` of the profile `profile`.
pub fn list_config(profile: &str, config: &Config, temperature: &str) -> (lines: Vec<String>)
    requires
        preview_possible(config@.api_key),
    ensures
        string_views(lines@) == config_listing(profile@, config@, temperature@),
{
    let mut lines: Vec<String> = Vec::new();
    let mut title = String::from_str("🔧 Lexi Configuration (Profile: ");
    title.append(profile);
    title.append("):");
    lines.push(title);
    lines.push(labelled("   provider: ", config.provider.as_str()));
    lines.push(labelled("   model: ", config.model.as_str()));
    lines.push(labelled("   api_key: ", api_key_preview(config.api_key.as_str()).as_str()));
    let address = if config.base_url.as_str().is_empty() {
        "(not set)"
    } else {
        config.base_url.as_str()
    };
    lines.push(labelled("   base_url: ", address));
    lines.push(labelled("   temperature: ", temperature));
    lines.push(labelled("   max_tokens: ", u32_text(config.max_tokens).as_str()));
    assert(string_views(lines@) =~= config_listing(profile@, config@, temperature@));
    lines
}

/// The token limit that `value` asks for: the number that it writes, where
/// it writes one that is at least 1 and fits in 32 bits, and the default
/// limit otherwise. A limit is a positive number: a text that writes 0 asks
/// for no limit that there could be, as a text that writes no number does.
pub open spec fn token_limit(value: Seq<char>) -> u32 {
    match parsed_u32(value) {
        Some(n) => if n >= 1 {
            n
        } else {
            DEFAULT_MAX_TOKENS
        },
        None => DEFAULT_MAX_TOKENS,
    }
}

/// The configuration allows at least one token.
pub open spec fn positive_limit(config: ConfigView) -> bool {
    config.max_tokens >= 1
}

/// The token limit that `value` asks for.
pub fn read_token_limit(value: &str) -> (limit: u32)
    ensures
        limit == token_limit(value@),
        limit >= 1,
{
    match parse_u32(value) {
        Some(n) => if n >= 1 {
            n
        } else {
            DEFAULT_MAX_TOKENS
        },
        None => DEFAULT_MAX_TOKENS,
    }
}

/// `config` with the setting `key` changed to what `value` says. A token
/// limit that is no positive number becomes the default limit. The temperature is
/// taken from `temperature`, and is the default where that holds none.
pub open spec fn with_setting(
    config: ConfigView,
    key: ConfigKey,
    value: Seq<char>,
    temperature: Option<u32>,
) -> ConfigView {
    match key {
        ConfigKey::Provider => ConfigView { provider: value, ..config },
        ConfigKey::Model => ConfigView { model: value, ..config },
        ConfigKey::ApiKey => ConfigView { api_key: value, ..config },
        ConfigKey::BaseUrl => ConfigView { base_url: value, ..config },
        ConfigKey::Temperature => ConfigView {
            temperature: match temperature {
                Some(t) => t,
                None => DEFAULT_TEMPERATURE,
            },
            ..config
        },
        ConfigKey::MaxTokens => ConfigView { max_tokens: token_limit(value), ..config },
    }
}

/// A token limit is kept positive by every change of a setting, and is
/// positive once it was set.
pub proof fn lemma_limit_stays_positive(
    config: ConfigView,
    key: ConfigKey,
    value: Seq<char>,
    temperature: Option<u32>,
)
    ensures
        positive_limit(default_config()),
        positive_limit(config) ==> positive_limit(with_setting(config, key, value, temperature)),
        key == ConfigKey::MaxTokens ==> positive_limit(
            with_setting(config, key, value, temperature),
        ),
{
}

/// A token limit that is written as a number from 1 up to the greatest that
/// fits is taken as written.
pub proof fn lemma_limit_as_written(config: ConfigView, n: nat, temperature: Option<u32>)
    requires
        1 <= n <= u32::MAX,
    ensures
        token_limit(decimal_text(n)) == n,
        with_setting(config, ConfigKey::MaxTokens, decimal_text(n), temperature).max_tokens == n,
{
    lemma_decimal_round_trip(n);
}

/// The error for a key that names no setting.
pub open spec fn unknown_key(key: Seq<char>) -> Option<ConfigErrorView> {
    if key_named(key) is None {
        Some(ConfigErrorView::UnknownKey { key })
    } else {
        None
    }
}

impl Config {
    /// Changes the setting `key` to what `value` says.
    ///
    /// `temperature` is what `value` reads as a decimal fraction, as the bits
    /// of a single-precision float, and nothing where it reads as none. Only
    /// the key `Temperature` looks at it.
    pub fn assign(&mut self, key: ConfigKey, value: &str, temperature: Option<u32>)
        ensures
            final(self)@ == with_setting(old(self)@, key, value@, temperature),
            positive_limit(old(self)@) || key == ConfigKey::MaxTokens ==> positive_limit(
                final(self)@,
            ),
    {
        match key {
            ConfigKey::Provider => {
                self.provider = String::from_str(value);
            },
            ConfigKey::Model => {
                self.model = String::from_str(value);
            },
            ConfigKey::ApiKey => {
                self.api_key = String::from_str(value);
            },
            ConfigKey::BaseUrl => {
                self.base_url = String::from_str(value);
            },
            ConfigKey::Temperature => {
                self.temperature = match temperature {
                    Some(t) => t,
                    None => DEFAULT_TEMPERATURE,
                };
            },
            ConfigKey::MaxTokens => {
                self.max_tokens = read_token_limit(value);
            },
        }
    }

    /// Changes the setting that `key` names to what `value` says, and
    /// refuses a key that names none.
    pub fn set_config(&mut self, key: &str, value: &str, temperature: Option<u32>) -> (r: Result<
        (),
        ConfigError,
    >)
        ensures
            config_failure(r) == unknown_key(key@),
            final(self)@ == match key_named(key@) {
                Some(k) => with_setting(old(self)@, k, value@, temperature),
                None => old(self)@,
            },
            positive_limit(old(self)@) ==> positive_limit(final(self)@),
    {
        match parse_key(key) {
            Some(k) => {
                self.assign(k, value, temperature);
                Ok(())
            },
            None => Err(ConfigError::UnknownKey { key: String::from_str(key) }),
        }
    }
}

} // verus!
