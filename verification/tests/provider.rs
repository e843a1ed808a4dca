use lexi::config::Config;
use lexi::error::{ConfigError, LexiError};
use lexi::provider::{
    anthropic_text, build_anthropic_request, build_azure_request, build_ollama_request,
    build_openai_request, fits, is_success, openai_text, parse_provider, plan_request, read_reply,
    AnthropicRequest, AnthropicResponse, Choice, ContentBlock, Header, HttpRequest, Message,
    MessageResponse, OllamaRequest, OllamaResponse, OpenAIRequest, OpenAIResponse, Provider,
    Reply, RequestBody,
};

fn config(provider: &str, api_key: &str, base_url: &str) -> Config {
    let mut c = Config::default();
    c.provider = String::from(provider);
    c.model = String::from("m-1");
    c.api_key = String::from(api_key);
    c.base_url = String::from(base_url);
    c.temperature = 0.25f32.to_bits();
    c.max_tokens = 321;
    c
}

fn header(name: &str, value: &str) -> Header {
    Header { name: String::from(name), value: String::from(value) }
}

fn message(role: &str, content: &str) -> Message {
    Message { role: String::from(role), content: String::from(content) }
}

fn chat_body() -> RequestBody {
    RequestBody::OpenAI(OpenAIRequest {
        model: String::from("m-1"),
        messages: vec![message("system", "SYS"), message("user", "USR")],
        temperature: 0.25f32.to_bits(),
        max_tokens: 321,
    })
}

fn openai_reply(texts: &[&str]) -> OpenAIResponse {
    OpenAIResponse {
        choices: texts
            .iter()
            .map(|t| Choice { message: MessageResponse { content: String::from(*t) } })
            .collect(),
    }
}

#[test]
fn parse_provider_knows_four_names() {
    assert_eq!(parse_provider("openai"), Some(Provider::OpenAi));
    assert_eq!(parse_provider("anthropic"), Some(Provider::Anthropic));
    assert_eq!(parse_provider("local"), Some(Provider::Local));
    assert_eq!(parse_provider("azure"), Some(Provider::Azure));
    assert_eq!(parse_provider("OpenAI"), None);
    assert_eq!(parse_provider("ollama"), None);
    assert_eq!(parse_provider(""), None);
}

#[test]
fn openai_request_carries_a_bearer_token() {
    let request = build_openai_request("SYS", "USR", &config("openai", "sk-1", ""));
    assert_eq!(
        request,
        HttpRequest {
            url: String::from("https://api.openai.com/v1/chat/completions"),
            headers: vec![
                header("Authorization", "Bearer sk-1"),
                header("Content-Type", "application/json"),
            ],
            body: chat_body(),
        }
    );
}

#[test]
fn anthropic_request_merges_the_prompts() {
    let request = build_anthropic_request("SYS", "USR", &config("anthropic", "key-2", ""));
    assert_eq!(
        request,
        HttpRequest {
            url: String::from("https://api.anthropic.com/v1/messages"),
            headers: vec![
                header("x-api-key", "key-2"),
                header("Content-Type", "application/json"),
                header("anthropic-version", "2023-06-01"),
            ],
            body: RequestBody::Anthropic(AnthropicRequest {
                model: String::from("m-1"),
                max_tokens: 321,
                messages: vec![message("user", "SYS\n\nUSR")],
            }),
        }
    );
}

#[test]
fn ollama_request_goes_to_the_local_server_by_default() {
    let request = build_ollama_request("SYS", "USR", &config("local", "", ""));
    assert_eq!(
        request,
        HttpRequest {
            url: String::from("http://localhost:11434/api/generate"),
            headers: vec![header("Content-Type", "application/json")],
            body: RequestBody::Ollama(OllamaRequest {
                model: String::from("m-1"),
                prompt: String::from("SYS\n\nUSR"),
                stream: false,
            }),
        }
    );
}

#[test]
fn ollama_request_goes_to_the_configured_server() {
    let request = build_ollama_request("SYS", "USR", &config("local", "", "http://box:9000"));
    assert_eq!(request.url, "http://box:9000/api/generate");
}

#[test]
fn azure_request_names_the_deployment() {
    let request =
        build_azure_request("SYS", "USR", &config("azure", "az-3", "https://r.openai.azure.com"));
    assert_eq!(
        request,
        Ok(HttpRequest {
            url: String::from(
                "https://r.openai.azure.com/openai/deployments/m-1/chat/completions?api-version=2023-12-01-preview"
            ),
            headers: vec![header("api-key", "az-3"), header("Content-Type", "application/json")],
            body: chat_body(),
        })
    );
}

#[test]
fn azure_request_needs_a_base_url() {
    let r = build_azure_request("SYS", "USR", &config("azure", "az-3", ""));
    assert_eq!(r, Err(ConfigError::MissingBaseUrl));
    assert_eq!(
        r.unwrap_err().message(),
        "Azure baseUrl not configured. Set: lexi config set base_url https://your-resource.openai.azure.com"
    );
}

#[test]
fn plan_picks_the_request_of_the_provider() {
    let c = config("openai", "k", "");
    assert_eq!(plan_request("SYS", "USR", &c), Ok((Provider::OpenAi, build_openai_request("SYS", "USR", &c))));
    let c = config("anthropic", "k", "");
    assert_eq!(
        plan_request("SYS", "USR", &c),
        Ok((Provider::Anthropic, build_anthropic_request("SYS", "USR", &c)))
    );
    let c = config("local", "", "");
    assert_eq!(plan_request("SYS", "USR", &c), Ok((Provider::Local, build_ollama_request("SYS", "USR", &c))));
    let c = config("azure", "k", "https://r");
    assert_eq!(
        plan_request("SYS", "USR", &c),
        Ok((Provider::Azure, build_azure_request("SYS", "USR", &c).unwrap()))
    );
}

#[test]
fn plan_needs_a_key_for_every_provider_but_local() {
    for provider in ["openai", "anthropic", "azure", "other", ""] {
        let r = plan_request("SYS", "USR", &config(provider, "", "https://r"));
        assert_eq!(r, Err(ConfigError::MissingApiKey), "{:?}", provider);
    }
    assert_eq!(
        ConfigError::MissingApiKey.message(),
        "No API key configured. Run: lexi config set api_key <your-key>"
    );
    assert!(plan_request("SYS", "USR", &config("local", "", "")).is_ok());
}

#[test]
fn plan_refuses_an_unknown_provider() {
    for provider in ["other", "OpenAI", "ollama", ""] {
        let r = plan_request("SYS", "USR", &config(provider, "k", "https://r"));
        assert_eq!(r, Err(ConfigError::UnsupportedProvider { provider: String::from(provider) }));
    }
    assert_eq!(
        ConfigError::UnsupportedProvider { provider: String::from("other") }.message(),
        "Unsupported provider: other"
    );
}

#[test]
fn plan_for_azure_needs_a_base_url() {
    let r = plan_request("SYS", "USR", &config("azure", "k", ""));
    assert_eq!(r, Err(ConfigError::MissingBaseUrl));
}

#[test]
fn first_choice_is_the_text() {
    assert_eq!(openai_text(&openai_reply(&["one", "two"])), "one");
    let answer = AnthropicResponse {
        content: vec![
            ContentBlock { text: String::from("first") },
            ContentBlock { text: String::from("second") },
        ],
    };
    assert_eq!(anthropic_text(&answer), "first");
}

#[test]
fn read_reply_takes_the_text_of_a_success() {
    assert_eq!(read_reply(Provider::OpenAi, Reply::OpenAI(openai_reply(&["a"]))), Ok(String::from("a")));
    assert_eq!(read_reply(Provider::Azure, Reply::OpenAI(openai_reply(&["b", "c"]))), Ok(String::from("b")));
    let answer = AnthropicResponse { content: vec![ContentBlock { text: String::from("d") }] };
    assert_eq!(read_reply(Provider::Anthropic, Reply::Anthropic(answer)), Ok(String::from("d")));
    let answer = OllamaResponse { response: String::from("e") };
    assert_eq!(read_reply(Provider::Local, Reply::Ollama(answer)), Ok(String::from("e")));
}

#[test]
fn read_reply_reports_a_refusal_with_its_body() {
    let titles = [
        (Provider::OpenAi, "OpenAI"),
        (Provider::Anthropic, "Anthropic"),
        (Provider::Local, "Ollama"),
        (Provider::Azure, "Azure"),
    ];
    for (provider, title) in titles {
        let reply = Reply::Rejected { status: 429, body: String::from("{\"error\":\"slow down\"}") };
        let r = read_reply(provider, reply);
        assert_eq!(
            r,
            Err(LexiError::Provider {
                provider,
                status: 429,
                body: String::from("{\"error\":\"slow down\"}"),
            })
        );
        assert_eq!(r.unwrap_err().message(), format!("{} API error: {{\"error\":\"slow down\"}}", title));
    }
}

#[test]
fn read_reply_reports_a_failure_of_the_transport() {
    let r = read_reply(Provider::OpenAi, Reply::Failed { message: String::from("connection refused") });
    assert_eq!(r, Err(LexiError::Transport { message: String::from("connection refused") }));
    assert_eq!(r.unwrap_err().message(), "connection refused");
}

#[test]
fn reply_fits_the_provider_that_was_asked() {
    let all = [Provider::OpenAi, Provider::Anthropic, Provider::Local, Provider::Azure];
    for provider in all {
        let chat = provider == Provider::OpenAi || provider == Provider::Azure;
        assert_eq!(fits(provider, &Reply::OpenAI(openai_reply(&["a"]))), chat);
        assert!(!fits(provider, &Reply::OpenAI(openai_reply(&[]))));
        let blocks = AnthropicResponse { content: vec![ContentBlock { text: String::from("b") }] };
        assert_eq!(fits(provider, &Reply::Anthropic(blocks)), provider == Provider::Anthropic);
        assert!(!fits(provider, &Reply::Anthropic(AnthropicResponse { content: vec![] })));
        let one = OllamaResponse { response: String::new() };
        assert_eq!(fits(provider, &Reply::Ollama(one)), provider == Provider::Local);
        assert!(fits(provider, &Reply::Rejected { status: 500, body: String::new() }));
        assert!(fits(provider, &Reply::Failed { message: String::new() }));
    }
}

#[test]
fn statuses_from_200_to_299_are_successes() {
    for status in [200u16, 201, 204, 250, 299] {
        assert!(is_success(status), "{}", status);
    }
    for status in [0u16, 100, 199, 300, 301, 400, 401, 404, 429, 500, 503, 999, u16::MAX] {
        assert!(!is_success(status), "{}", status);
    }
}
