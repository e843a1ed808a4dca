//! The four kinds of provider: what is sent to each, and what is read from
//! its answer.
//!
//! Nothing here sends anything. A request is a value that says where to post
//! which body under which headers; the caller posts it and hands back what
//! came of it as a `Reply`.

use crate::config::{Config, ConfigView};
use crate::error::{ConfigError, ConfigErrorView, LexiError, LexiErrorView};
use crate::text::same_str;
use vstd::prelude::*;
use vstd::string::StringExecFns;

verus! {

/// The kinds of provider.
#[derive(Clone, Copy, PartialEq, Eq, Debug)]
pub enum Provider {
    /// OpenAI's chat completions.
    OpenAi,
    /// Anthropic's messages.
    Anthropic,
    /// A local Ollama server.
    Local,
    /// A deployment of Azure OpenAI.
    Azure,
}

/// The kind of provider that a configuration names.
pub open spec fn provider_named(name: Seq<char>) -> Option<Provider> {
    if name == "openai"@ {
        Some(Provider::OpenAi)
    } else if name == "anthropic"@ {
        Some(Provider::Anthropic)
    } else if name == "local"@ {
        Some(Provider::Local)
    } else if name == "azure"@ {
        Some(Provider::Azure)
    } else {
        None
    }
}

/// The kind of provider that `name` names.
pub fn parse_provider(name: &str) -> (provider: Option<Provider>)
    ensures
        provider == provider_named(name@),
{
    if same_str(name, "openai") {
        Some(Provider::OpenAi)
    } else if same_str(name, "anthropic") {
        Some(Provider::Anthropic)
    } else if same_str(name, "local") {
        Some(Provider::Local)
    } else if same_str(name, "azure") {
        Some(Provider::Azure)
    } else {
        None
    }
}

/// One turn of a conversation.
#[derive(Debug, PartialEq, Eq)]
pub struct Message {
    pub role: String,
    pub content: String,
}

/// The body of a chat-completions request, as OpenAI and Azure take it.
#[derive(Debug, PartialEq, Eq)]
pub struct OpenAIRequest {
    pub model: String,
    pub messages: Vec<Message>,
    /// The sampling temperature, as the bits of a single-precision float.
    pub temperature: u32,
    pub max_tokens: u32,
}

/// The body of a messages request, as Anthropic takes it.
#[derive(Debug, PartialEq, Eq)]
pub struct AnthropicRequest {
    pub model: String,
    pub max_tokens: u32,
    pub messages: Vec<Message>,
}

/// The body of a generate request, as Ollama takes it.
#[derive(Debug, PartialEq, Eq)]
pub struct OllamaRequest {
    pub model: String,
    pub prompt: String,
    pub stream: bool,
}

/// The body of a request, in the shape of its provider.
#[derive(Debug, PartialEq, Eq)]
pub enum RequestBody {
    OpenAI(OpenAIRequest),
    Anthropic(AnthropicRequest),
    Ollama(OllamaRequest),
}

/// One header of a request.
#[derive(Debug, PartialEq, Eq)]
pub struct Header {
    pub name: String,
    pub value: String,
}

/// A request to a provider: post `body`, as JSON, to `url` under `headers`.
#[derive(Debug, PartialEq, Eq)]
pub struct HttpRequest {
    pub url: String,
    pub headers: Vec<Header>,
    pub body: RequestBody,
}

/// The view of a message.
pub struct MessageView {
    pub role: Seq<char>,
    pub content: Seq<char>,
}

/// The view of a chat-completions body.
pub struct OpenAIRequestView {
    pub model: Seq<char>,
    pub messages: Seq<MessageView>,
    pub temperature: u32,
    pub max_tokens: u32,
}

/// The view of a messages body.
pub struct AnthropicRequestView {
    pub model: Seq<char>,
    pub max_tokens: u32,
    pub messages: Seq<MessageView>,
}

/// The view of a generate body.
pub struct OllamaRequestView {
    pub model: Seq<char>,
    pub prompt: Seq<char>,
    pub stream: bool,
}

/// The view of a request body.
pub enum RequestBodyView {
    OpenAI(OpenAIRequestView),
    Anthropic(AnthropicRequestView),
    Ollama(OllamaRequestView),
}

/// The view of a header.
pub struct HeaderView {
    pub name: Seq<char>,
    pub value: Seq<char>,
}

/// The view of a request.
pub struct HttpRequestView {
    pub url: Seq<char>,
    pub headers: Seq<HeaderView>,
    pub body: RequestBodyView,
}

impl View for Message {
    type V = MessageView;

    open spec fn view(&self) -> MessageView {
        MessageView { role: self.role@, content: self.content@ }
    }
}

/// The views of a list of messages.
pub open spec fn message_views(messages: Seq<Message>) -> Seq<MessageView> {
    Seq::new(messages.len(), |i: int| messages[i]@)
}

impl View for OpenAIRequest {
    type V = OpenAIRequestView;

    open spec fn view(&self) -> OpenAIRequestView {
        OpenAIRequestView {
            model: self.model@,
            messages: message_views(self.messages@),
            temperature: self.temperature,
            max_tokens: self.max_tokens,
        }
    }
}

impl View for AnthropicRequest {
    type V = AnthropicRequestView;

    open spec fn view(&self) -> AnthropicRequestView {
        AnthropicRequestView {
            model: self.model@,
            max_tokens: self.max_tokens,
            messages: message_views(self.messages@),
        }
    }
}

impl View for OllamaRequest {
    type V = OllamaRequestView;

    open spec fn view(&self) -> OllamaRequestView {
        OllamaRequestView { model: self.model@, prompt: self.prompt@, stream: self.stream }
    }
}

impl View for RequestBody {
    type V = RequestBodyView;

    open spec fn view(&self) -> RequestBodyView {
        match self {
            RequestBody::OpenAI(r) => RequestBodyView::OpenAI(r@),
            RequestBody::Anthropic(r) => RequestBodyView::Anthropic(r@),
            RequestBody::Ollama(r) => RequestBodyView::Ollama(r@),
        }
    }
}

impl View for Header {
    type V = HeaderView;

    open spec fn view(&self) -> HeaderView {
        HeaderView { name: self.name@, value: self.value@ }
    }
}

/// The views of a list of headers.
pub open spec fn header_views(headers: Seq<Header>) -> Seq<HeaderView> {
    Seq::new(headers.len(), |i: int| headers[i]@)
}

impl View for HttpRequest {
    type V = HttpRequestView;

    open spec fn view(&self) -> HttpRequestView {
        HttpRequestView {
            url: self.url@,
            headers: header_views(self.headers@),
            body: self.body@,
        }
    }
}

/// The header that says that the body is JSON.
pub open spec fn json_header() -> HeaderView {
    HeaderView { name: "Content-Type"@, value: "application/json"@ }
}

/// The system instruction and the task as one text, for providers that take
/// a single text.
pub open spec fn merged_prompt(system: Seq<char>, user: Seq<char>) -> Seq<char> {
    system + "\n\n"@ + user
}

/// The body that OpenAI and Azure take: the system instruction and the task
/// as two messages, with the configured model, temperature and token limit.
pub open spec fn chat_body(system: Seq<char>, user: Seq<char>, config: ConfigView) -> RequestBodyView {
    RequestBodyView::OpenAI(
        OpenAIRequestView {
            model: config.model,
            messages: seq![
                MessageView { role: "system"@, content: system },
                MessageView { role: "user"@, content: user },
            ],
            temperature: config.temperature,
            max_tokens: config.max_tokens,
        },
    )
}

/// The request to OpenAI: the chat body, posted to the fixed address with
/// the key as a bearer token.
pub open spec fn openai_request(system: Seq<char>, user: Seq<char>, config: ConfigView) -> HttpRequestView {
    HttpRequestView {
        url: "https://api.openai.com/v1/chat/completions"@,
        headers: seq![
            HeaderView { name: "Authorization"@, value: "Bearer "@ + config.api_key },
            json_header(),
        ],
        body: chat_body(system, user, config),
    }
}

/// The request to Anthropic: one user message that holds both texts, posted
/// to the fixed address with the key and the version of the interface in
/// headers of their own.
pub open spec fn anthropic_request(
    system: Seq<char>,
    user: Seq<char>,
    config: ConfigView,
) -> HttpRequestView {
    HttpRequestView {
        url: "https://api.anthropic.com/v1/messages"@,
        headers: seq![
            HeaderView { name: "x-api-key"@, value: config.api_key },
            json_header(),
            HeaderView { name: "anthropic-version"@, value: "2023-06-01"@ },
        ],
        body: RequestBodyView::Anthropic(
            AnthropicRequestView {
                model: config.model,
                max_tokens: config.max_tokens,
                messages: seq![
                    MessageView { role: "user"@, content: merged_prompt(system, user) },
                ],
            },
        ),
    }
}

/// The address of the Ollama server: the configured one, or the usual local
/// one where none is configured.
pub open spec fn ollama_base(config: ConfigView) -> Seq<char> {
    if config.base_url.len() == 0 {
        "http://localhost:11434"@
    } else {
        config.base_url
    }
}

/// The request to Ollama: both texts as one prompt, not streamed, posted to
/// the server's generate address without a key.
pub open spec fn ollama_request(system: Seq<char>, user: Seq<char>, config: ConfigView) -> HttpRequestView {
    HttpRequestView {
        url: ollama_base(config) + "/api/generate"@,
        headers: seq![json_header()],
        body: RequestBodyView::Ollama(
            OllamaRequestView {
                model: config.model,
                prompt: merged_prompt(system, user),
                stream: false,
            },
        ),
    }
}

/// The address of an Azure deployment: the resource, the deployment named
/// after the model, and the fixed version of the interface.
pub open spec fn azure_url(config: ConfigView) -> Seq<char> {
    config.base_url + "/openai/deployments/"@ + config.model
        + "/chat/completions?api-version=2023-12-01-preview"@
}

/// The request to Azure: the chat body, posted to the deployment with the
/// key in a header of its own.
pub open spec fn azure_request(system: Seq<char>, user: Seq<char>, config: ConfigView) -> HttpRequestView {
    HttpRequestView {
        url: azure_url(config),
        headers: seq![HeaderView { name: "api-key"@, value: config.api_key }, json_header()],
        body: chat_body(system, user, config),
    }
}

/// What is to be sent for a configuration, or why nothing is. A hosted
/// provider needs a key, which is asked for first; the provider must be one
/// of the four; Azure needs the address of the resource.
pub open spec fn planned(system: Seq<char>, user: Seq<char>, config: ConfigView) -> Result<
    (Provider, HttpRequestView),
    ConfigErrorView,
> {
    if config.api_key.len() == 0 && config.provider != "local"@ {
        Err(ConfigErrorView::MissingApiKey)
    } else {
        match provider_named(config.provider) {
            None => Err(ConfigErrorView::UnsupportedProvider { provider: config.provider }),
            Some(Provider::OpenAi) => Ok((Provider::OpenAi, openai_request(system, user, config))),
            Some(Provider::Anthropic) => Ok(
                (Provider::Anthropic, anthropic_request(system, user, config)),
            ),
            Some(Provider::Local) => Ok((Provider::Local, ollama_request(system, user, config))),
            Some(Provider::Azure) => if config.base_url.len() == 0 {
                Err(ConfigErrorView::MissingBaseUrl)
            } else {
                Ok((Provider::Azure, azure_request(system, user, config)))
            },
        }
    }
}

/// For a provider that is none of the four there is nothing to send: the
/// plan is an error, whatever else the configuration holds.
pub proof fn lemma_unknown_provider_sends_nothing(
    system: Seq<char>,
    user: Seq<char>,
    config: ConfigView,
)
    requires
        provider_named(config.provider) is None,
    ensures
        planned(system, user, config) is Err,
        config.api_key.len() > 0 ==> planned(system, user, config) == Err::<
            (Provider, HttpRequestView),
            ConfigErrorView,
        >(ConfigErrorView::UnsupportedProvider { provider: config.provider }),
{
}

fn json_content_type() -> (header: Header)
    ensures
        header@ == json_header(),
{
    Header { name: String::from_str("Content-Type"), value: String::from_str("application/json") }
}

fn merge_prompts(system: &str, user: &str) -> (merged: String)
    ensures
        merged@ == merged_prompt(system@, user@),
{
    let mut merged = String::from_str(system);
    merged.append("\n\n");
    merged.append(user);
    merged
}

fn build_chat_body(system: &str, user: &str, config: &Config) -> (body: RequestBody)
    ensures
        body@ == chat_body(system@, user@, config@),
{
    let mut messages: Vec<Message> = Vec::new();
    messages.push(Message { role: String::from_str("system"), content: String::from_str(system) });
    messages.push(Message { role: String::from_str("user"), content: String::from_str(user) });
    let request = OpenAIRequest {
        model: config.model.clone(),
        messages,
        temperature: config.temperature,
        max_tokens: config.max_tokens,
    };
    assert(request@.messages =~= seq![
        MessageView { role: "system"@, content: system@ },
        MessageView { role: "user"@, content: user@ },
    ]);
    RequestBody::OpenAI(request)
}

/// The request to OpenAI for the two texts of a prompt.
pub fn build_openai_request(system_prompt: &str, user_prompt: &str, config: &Config) -> (request:
    HttpRequest)
    ensures
        request@ == openai_request(system_prompt@, user_prompt@, config@),
{
    let mut bearer = String::from_str("Bearer ");
    bearer.append(config.api_key.as_str());
    let mut headers: Vec<Header> = Vec::new();
    headers.push(Header { name: String::from_str("Authorization"), value: bearer });
    headers.push(json_content_type());
    let request = HttpRequest {
        url: String::from_str("https://api.openai.com/v1/chat/completions"),
        headers,
        body: build_chat_body(system_prompt, user_prompt, config),
    };
    assert(request@.headers =~= openai_request(system_prompt@, user_prompt@, config@).headers);
    request
}

/// The request to Anthropic for the two texts of a prompt.
pub fn build_anthropic_request(system_prompt: &str, user_prompt: &str, config: &Config) -> (request:
    HttpRequest)
    ensures
        request@ == anthropic_request(system_prompt@, user_prompt@, config@),
{
    let mut messages: Vec<Message> = Vec::new();
    messages.push(
        Message {
            role: String::from_str("user"),
            content: merge_prompts(system_prompt, user_prompt),
        },
    );
    let body = AnthropicRequest {
        model: config.model.clone(),
        max_tokens: config.max_tokens,
        messages,
    };
    let mut headers: Vec<Header> = Vec::new();
    headers.push(Header { name: String::from_str("x-api-key"), value: config.api_key.clone() });
    headers.push(json_content_type());
    headers.push(
        Header {
            name: String::from_str("anthropic-version"),
            value: String::from_str("2023-06-01"),
        },
    );
    let request = HttpRequest {
        url: String::from_str("https://api.anthropic.com/v1/messages"),
        headers,
        body: RequestBody::Anthropic(body),
    };
    proof {
        let want = anthropic_request(system_prompt@, user_prompt@, config@);
        assert(request@.headers =~= want.headers);
        assert(body@.messages =~= seq![
            MessageView { role: "user"@, content: merged_prompt(system_prompt@, user_prompt@) },
        ]);
    }
    request
}

/// The request to an Ollama server for the two texts of a prompt.
pub fn build_ollama_request(system_prompt: &str, user_prompt: &str, config: &Config) -> (request:
    HttpRequest)
    ensures
        request@ == ollama_request(system_prompt@, user_prompt@, config@),
{
    let mut url = if config.base_url.as_str().is_empty() {
        String::from_str("http://localhost:11434")
    } else {
        config.base_url.clone()
    };
    url.append("/api/generate");
    let body = OllamaRequest {
        model: config.model.clone(),
        prompt: merge_prompts(system_prompt, user_prompt),
        stream: false,
    };
    let mut headers: Vec<Header> = Vec::new();
    headers.push(json_content_type());
    let request = HttpRequest { url, headers, body: RequestBody::Ollama(body) };
    assert(request@.headers =~= seq![json_header()]);
    request
}

/// The request to an Azure deployment for the two texts of a prompt; an
/// error where the address of the resource is not configured.
pub fn build_azure_request(system_prompt: &str, user_prompt: &str, config: &Config) -> (r: Result<
    HttpRequest,
    ConfigError,
>)
    ensures
        match r {
            Ok(request) => config@.base_url.len() > 0 && request@ == azure_request(
                system_prompt@,
                user_prompt@,
                config@,
            ),
            Err(e) => config@.base_url.len() == 0 && e@ == ConfigErrorView::MissingBaseUrl,
        },
{
    if config.base_url.as_str().is_empty() {
        return Err(ConfigError::MissingBaseUrl);
    }
    let mut url = config.base_url.clone();
    url.append("/openai/deployments/");
    url.append(config.model.as_str());
    url.append("/chat/completions?api-version=2023-12-01-preview");
    let mut headers: Vec<Header> = Vec::new();
    headers.push(Header { name: String::from_str("api-key"), value: config.api_key.clone() });
    headers.push(json_content_type());
    let request = HttpRequest {
        url,
        headers,
        body: build_chat_body(system_prompt, user_prompt, config),
    };
    assert(request@.headers =~= azure_request(system_prompt@, user_prompt@, config@).headers);
    Ok(request)
}

/// What is to be sent for the configuration `config` and the two texts of a
/// prompt, and to which kind of provider; or why nothing is to be sent.
pub fn plan_request(system_prompt: &str, user_prompt: &str, config: &Config) -> (r: Result<
    (Provider, HttpRequest),
    ConfigError,
>)
    ensures
        match planned(system_prompt@, user_prompt@, config@) {
            Ok(plan) => r matches Ok(made) && made.0 == plan.0 && made.1@ == plan.1,
            Err(e) => r matches Err(found) && found@ == e,
        },
        provider_named(config@.provider) is None ==> r is Err,
{
    if config.api_key.as_str().is_empty() && !same_str(config.provider.as_str(), "local") {
        return Err(ConfigError::MissingApiKey);
    }
    match parse_provider(config.provider.as_str()) {
        None => Err(ConfigError::UnsupportedProvider { provider: config.provider.clone() }),
        Some(Provider::OpenAi) => Ok(
            (Provider::OpenAi, build_openai_request(system_prompt, user_prompt, config)),
        ),
        Some(Provider::Anthropic) => Ok(
            (Provider::Anthropic, build_anthropic_request(system_prompt, user_prompt, config)),
        ),
        Some(Provider::Local) => Ok(
            (Provider::Local, build_ollama_request(system_prompt, user_prompt, config)),
        ),
        Some(Provider::Azure) => match build_azure_request(system_prompt, user_prompt, config) {
            Ok(request) => Ok((Provider::Azure, request)),
            Err(e) => Err(e),
        },
    }
}

/// The text of one choice of a chat completion.
#[derive(Debug, PartialEq, Eq)]
pub struct MessageResponse {
    pub content: String,
}

/// One choice of a chat completion.
#[derive(Debug, PartialEq, Eq)]
pub struct Choice {
    pub message: MessageResponse,
}

/// What OpenAI and Azure answer: the choices, whose texts are the view.
#[derive(Debug, PartialEq, Eq)]
pub struct OpenAIResponse {
    pub choices: Vec<Choice>,
}

/// One block of an Anthropic answer.
#[derive(Debug, PartialEq, Eq)]
pub struct ContentBlock {
    pub text: String,
}

/// What Anthropic answers: the blocks, whose texts are the view.
#[derive(Debug, PartialEq, Eq)]
pub struct AnthropicResponse {
    pub content: Vec<ContentBlock>,
}

/// What Ollama answers: one text, which is the view.
#[derive(Debug, PartialEq, Eq)]
pub struct OllamaResponse {
    pub response: String,
}

impl View for OpenAIResponse {
    type V = Seq<Seq<char>>;

    open spec fn view(&self) -> Seq<Seq<char>> {
        Seq::new(self.choices@.len(), |i: int| self.choices@[i].message.content@)
    }
}

impl View for AnthropicResponse {
    type V = Seq<Seq<char>>;

    open spec fn view(&self) -> Seq<Seq<char>> {
        Seq::new(self.content@.len(), |i: int| self.content@[i].text@)
    }
}

impl View for OllamaResponse {
    type V = Seq<char>;

    open spec fn view(&self) -> Seq<char> {
        self.response@
    }
}

/// What came of a request.
#[derive(Debug, PartialEq, Eq)]
pub enum Reply {
    /// A success, whose body read as an answer of OpenAI or Azure.
    OpenAI(OpenAIResponse),
    /// A success, whose body read as an answer of Anthropic.
    Anthropic(AnthropicResponse),
    /// A success, whose body read as an answer of Ollama.
    Ollama(OllamaResponse),
    /// An answer whose status is no success, with its body as text.
    Rejected { status: u16, body: String },
    /// No answer: the request could not be sent, or what came back could not
    /// be read.
    Failed { message: String },
}

/// The view of a reply: of each answer the texts that it holds.
pub enum ReplyView {
    OpenAI(Seq<Seq<char>>),
    Anthropic(Seq<Seq<char>>),
    Ollama(Seq<char>),
    Rejected { status: u16, body: Seq<char> },
    Failed { message: Seq<char> },
}

impl View for Reply {
    type V = ReplyView;

    open spec fn view(&self) -> ReplyView {
        match self {
            Reply::OpenAI(r) => ReplyView::OpenAI(r@),
            Reply::Anthropic(r) => ReplyView::Anthropic(r@),
            Reply::Ollama(r) => ReplyView::Ollama(r@),
            Reply::Rejected { status, body } => ReplyView::Rejected { status: *status, body: body@ },
            Reply::Failed { message } => ReplyView::Failed { message: message@ },
        }
    }
}

/// Whether an answer of this HTTP status is a success: the statuses from 200
/// to 299 are.
pub open spec fn status_is_success(status: u16) -> bool {
    200 <= status < 300
}

/// Whether an answer of this HTTP status is a success. The body of a
/// success is read as the provider's answer; any other answer is a
/// `Reply::Rejected` with its body as text.
pub fn is_success(status: u16) -> (r: bool)
    ensures
        r == status_is_success(status),
{
    200 <= status && status < 300
}

/// Whether `reply` can be the outcome of a request to `provider`: a success
/// has the shape of that provider's answers, and a list of choices or blocks
/// has a first entry.
pub open spec fn reply_fits(provider: Provider, reply: ReplyView) -> bool {
    match reply {
        ReplyView::OpenAI(choices) => (provider == Provider::OpenAi || provider == Provider::Azure)
            && choices.len() > 0,
        ReplyView::Anthropic(blocks) => provider == Provider::Anthropic && blocks.len() > 0,
        ReplyView::Ollama(_) => provider == Provider::Local,
        ReplyView::Rejected { .. } => true,
        ReplyView::Failed { .. } => true,
    }
}

/// The text that a provider's answer holds: the first choice, the first
/// block, or the one response. A refusal and a failure are errors.
pub open spec fn reply_outcome(provider: Provider, reply: ReplyView) -> Result<
    Seq<char>,
    LexiErrorView,
> {
    match reply {
        ReplyView::OpenAI(choices) => Ok(choices[0]),
        ReplyView::Anthropic(blocks) => Ok(blocks[0]),
        ReplyView::Ollama(response) => Ok(response),
        ReplyView::Rejected { status, body } => Err(
            LexiErrorView::Provider { provider, status, body },
        ),
        ReplyView::Failed { message } => Err(LexiErrorView::Transport { message }),
    }
}

/// Whether `reply` can be the outcome of a request to `provider`.
pub fn fits(provider: Provider, reply: &Reply) -> (r: bool)
    ensures
        r == reply_fits(provider, reply@),
{
    match reply {
        Reply::OpenAI(response) => {
            let chat = match provider {
                Provider::OpenAi => true,
                Provider::Azure => true,
                _ => false,
            };
            chat && response.choices.len() > 0
        },
        Reply::Anthropic(response) => {
            let messages = match provider {
                Provider::Anthropic => true,
                _ => false,
            };
            messages && response.content.len() > 0
        },
        Reply::Ollama(_) => match provider {
            Provider::Local => true,
            _ => false,
        },
        Reply::Rejected { .. } => true,
        Reply::Failed { .. } => true,
    }
}

/// The text of the first choice.
pub fn openai_text(response: &OpenAIResponse) -> (text: String)
    requires
        response@.len() > 0,
    ensures
        text@ == response@[0],
{
    response.choices[0].message.content.clone()
}

/// The text of the first block.
pub fn anthropic_text(response: &AnthropicResponse) -> (text: String)
    requires
        response@.len() > 0,
    ensures
        text@ == response@[0],
{
    response.content[0].text.clone()
}

/// The text that the answer `reply` of `provider` holds, or the error that
/// it stands for.
pub fn read_reply(provider: Provider, reply: Reply) -> (r: Result<String, LexiError>)
    requires
        reply_fits(provider, reply@),
    ensures
        match reply_outcome(provider, reply@) {
            Ok(text) => r matches Ok(found) && found@ == text,
            Err(e) => r matches Err(found) && found@ == e,
        },
{
    match reply {
        Reply::OpenAI(response) => Ok(openai_text(&response)),
        Reply::Anthropic(response) => Ok(anthropic_text(&response)),
        Reply::Ollama(response) => Ok(response.response),
        Reply::Rejected { status, body } => Err(LexiError::Provider { provider, status, body }),
        Reply::Failed { message } => Err(LexiError::Transport { message }),
    }
}

} // verus!
