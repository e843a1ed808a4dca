//! What can go wrong: with the input file, with the configuration, at the
//! provider, on the way to it, or in the file system.

use crate::provider::Provider;
use vstd::prelude::*;
use vstd::string::StringExecFns;

verus! {

/// The input file cannot be compiled.
#[derive(Debug, PartialEq, Eq)]
pub enum InputError {
    /// The file name ends neither in `.lxi` nor in `.lexi`.
    BadExtension,
    /// No file of this name exists.
    NotFound { path: String },
    /// The file holds nothing but white space.
    EmptySource,
    /// The path ends in no file name, so no output file can be named after it.
    NoFileName { path: String },
    /// A new project cannot be laid out: its directory exists already.
    DirectoryExists { path: String },
}

/// The configuration does not allow what was asked.
#[derive(Debug, PartialEq, Eq)]
pub enum ConfigError {
    /// A hosted provider is configured without an API key.
    MissingApiKey,
    /// Azure is configured without the base URL of the resource.
    MissingBaseUrl,
    /// The provider is none of the four that the library knows.
    UnsupportedProvider { provider: String },
    /// The key names no setting.
    UnknownKey { key: String },
    /// No profile of this name exists.
    UnknownProfile { name: String },
    /// The profile `default` cannot be deleted.
    DefaultProfile,
}

/// Why a command failed.
#[derive(Debug, PartialEq, Eq)]
pub enum LexiError {
    Input(InputError),
    Config(ConfigError),
    /// The provider answered with a status that is no success.
    Provider { provider: Provider, status: u16, body: String },
    /// The request could not be sent or the answer could not be read.
    Transport { message: String },
    /// The file system refused an operation.
    Io { message: String },
}

/// The view of an input error.
pub enum InputErrorView {
    BadExtension,
    NotFound { path: Seq<char> },
    EmptySource,
    NoFileName { path: Seq<char> },
    DirectoryExists { path: Seq<char> },
}

/// The view of a configuration error.
pub enum ConfigErrorView {
    MissingApiKey,
    MissingBaseUrl,
    UnsupportedProvider { provider: Seq<char> },
    UnknownKey { key: Seq<char> },
    UnknownProfile { name: Seq<char> },
    DefaultProfile,
}

/// The view of an error.
pub enum LexiErrorView {
    Input(InputErrorView),
    Config(ConfigErrorView),
    Provider { provider: Provider, status: u16, body: Seq<char> },
    Transport { message: Seq<char> },
    Io { message: Seq<char> },
}

impl View for InputError {
    type V = InputErrorView;

    open spec fn view(&self) -> InputErrorView {
        match self {
            InputError::BadExtension => InputErrorView::BadExtension,
            InputError::NotFound { path } => InputErrorView::NotFound { path: path@ },
            InputError::EmptySource => InputErrorView::EmptySource,
            InputError::NoFileName { path } => InputErrorView::NoFileName { path: path@ },
            InputError::DirectoryExists { path } => InputErrorView::DirectoryExists {
                path: path@,
            },
        }
    }
}

impl View for ConfigError {
    type V = ConfigErrorView;

    open spec fn view(&self) -> ConfigErrorView {
        match self {
            ConfigError::MissingApiKey => ConfigErrorView::MissingApiKey,
            ConfigError::MissingBaseUrl => ConfigErrorView::MissingBaseUrl,
            ConfigError::UnsupportedProvider { provider } => ConfigErrorView::UnsupportedProvider {
                provider: provider@,
            },
            ConfigError::UnknownKey { key } => ConfigErrorView::UnknownKey { key: key@ },
            ConfigError::UnknownProfile { name } => ConfigErrorView::UnknownProfile { name: name@ },
            ConfigError::DefaultProfile => ConfigErrorView::DefaultProfile,
        }
    }
}

impl View for LexiError {
    type V = LexiErrorView;

    open spec fn view(&self) -> LexiErrorView {
        match self {
            LexiError::Input(e) => LexiErrorView::Input(e@),
            LexiError::Config(e) => LexiErrorView::Config(e@),
            LexiError::Provider { provider, status, body } => LexiErrorView::Provider {
                provider: *provider,
                status: *status,
                body: body@,
            },
            LexiError::Transport { message } => LexiErrorView::Transport { message: message@ },
            LexiError::Io { message } => LexiErrorView::Io { message: message@ },
        }
    }
}

/// What the user is told of an error with the input.
pub open spec fn input_message(e: InputErrorView) -> Seq<char> {
    match e {
        InputErrorView::BadExtension => "Error: Input file must have .lxi or .lexi extension"@,
        InputErrorView::NotFound { path } => "Error: File '"@ + path + "' not found"@,
        InputErrorView::EmptySource => "Error: Source file is empty"@,
        InputErrorView::NoFileName { path } => "Error: '"@ + path + "' names no file"@,
        InputErrorView::DirectoryExists { path } => "Error: Directory '"@ + path
            + "' already exists"@,
    }
}

/// What the user is told of an error with the configuration.
pub open spec fn config_message(e: ConfigErrorView) -> Seq<char> {
    match e {
        ConfigErrorView::MissingApiKey => "No API key configured. Run: lexi config set api_key <your-key>"@,
        ConfigErrorView::MissingBaseUrl => "Azure baseUrl not configured. Set: lexi config set base_url https://your-resource.openai.azure.com"@,
        ConfigErrorView::UnsupportedProvider { provider } => "Unsupported provider: "@ + provider,
        ConfigErrorView::UnknownKey { key } => "Unknown config key: "@ + key,
        ConfigErrorView::UnknownProfile { name } => "Profile '"@ + name + "' does not exist"@,
        ConfigErrorView::DefaultProfile => "Cannot delete the default profile"@,
    }
}

/// The name under which a kind of provider appears in messages.
pub open spec fn provider_title(provider: Provider) -> Seq<char> {
    match provider {
        Provider::OpenAi => "OpenAI"@,
        Provider::Anthropic => "Anthropic"@,
        Provider::Local => "Ollama"@,
        Provider::Azure => "Azure"@,
    }
}

/// What the user is told of an error: for a refusal by the provider, the
/// provider's own words behind its name.
pub open spec fn message_of(e: LexiErrorView) -> Seq<char> {
    match e {
        LexiErrorView::Input(e) => input_message(e),
        LexiErrorView::Config(e) => config_message(e),
        LexiErrorView::Provider { provider, status, body } => provider_title(provider)
            + " API error: "@ + body,
        LexiErrorView::Transport { message } => message,
        LexiErrorView::Io { message } => message,
    }
}

/// How a profile that does not exist yet comes to be.
pub open spec fn creation_hint(name: Seq<char>) -> Seq<char> {
    "Create it first with: lexi profile create "@ + name
}

impl InputError {
    /// What the user is told of the error.
    pub fn message(&self) -> (text: String)
        ensures
            text@ == input_message(self@),
    {
        match self {
            InputError::BadExtension => String::from_str(
                "Error: Input file must have .lxi or .lexi extension",
            ),
            InputError::NotFound { path } => {
                let mut text = String::from_str("Error: File '");
                text.append(path.as_str());
                text.append("' not found");
                text
            },
            InputError::EmptySource => String::from_str("Error: Source file is empty"),
            InputError::NoFileName { path } => {
                let mut text = String::from_str("Error: '");
                text.append(path.as_str());
                text.append("' names no file");
                text
            },
            InputError::DirectoryExists { path } => {
                let mut text = String::from_str("Error: Directory '");
                text.append(path.as_str());
                text.append("' already exists");
                text
            },
        }
    }
}

impl ConfigError {
    /// What the user is told of the error.
    pub fn message(&self) -> (text: String)
        ensures
            text@ == config_message(self@),
    {
        match self {
            ConfigError::MissingApiKey => String::from_str(
                "No API key configured. Run: lexi config set api_key <your-key>",
            ),
            ConfigError::MissingBaseUrl => String::from_str(
                "Azure baseUrl not configured. Set: lexi config set base_url https://your-resource.openai.azure.com",
            ),
            ConfigError::UnsupportedProvider { provider } => {
                let mut text = String::from_str("Unsupported provider: ");
                text.append(provider.as_str());
                text
            },
            ConfigError::UnknownKey { key } => {
                let mut text = String::from_str("Unknown config key: ");
                text.append(key.as_str());
                text
            },
            ConfigError::UnknownProfile { name } => {
                let mut text = String::from_str("Profile '");
                text.append(name.as_str());
                text.append("' does not exist");
                text
            },
            ConfigError::DefaultProfile => String::from_str("Cannot delete the default profile"),
        }
    }
}

impl LexiError {
    /// What the user is told of the error.
    pub fn message(&self) -> (text: String)
        ensures
            text@ == message_of(self@),
    {
        match self {
            LexiError::Input(e) => e.message(),
            LexiError::Config(e) => e.message(),
            LexiError::Provider { provider, status, body } => {
                let mut text = String::from_str(
                    match provider {
                        Provider::OpenAi => "OpenAI",
                        Provider::Anthropic => "Anthropic",
                        Provider::Local => "Ollama",
                        Provider::Azure => "Azure",
                    },
                );
                text.append(" API error: ");
                text.append(body.as_str());
                text
            },
            LexiError::Transport { message } => message.clone(),
            LexiError::Io { message } => message.clone(),
        }
    }
}

/// How the profile `name`, which does not exist yet, comes to be.
pub fn profile_creation_hint(name: &str) -> (hint: String)
    ensures
        hint@ == creation_hint(name@),
{
    let mut hint = String::from_str("Create it first with: lexi profile create ");
    hint.append(name);
    hint
}

/// The configuration error that a result reports, if it reports one.
pub open spec fn config_failure<T>(r: Result<T, ConfigError>) -> Option<ConfigErrorView> {
    match r {
        Ok(_) => None,
        Err(e) => Some(e@),
    }
}

} // verus!
