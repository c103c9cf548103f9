//! Provider kinds and the normalisation of their base URLs.
use vstd::prelude::*;
use crate::text::{trim, has_suffix, unicode_lower, to_lowercase, all_ascii, lower_ascii_str, lemma_lower_word, str_eq, own, push_str, trim_str, chars_of,
    string_of_range, ends_with};

verus! {

/// `s` without trailing `/` characters.
pub open spec fn trim_end_slashes(s: Seq<char>) -> Seq<char>
    decreases s.len(),
{
    if s.len() > 0 && s.last() == '/' {
        trim_end_slashes(s.drop_last())
    } else {
        s
    }
}

/// `s` without trailing `/` characters (`trim_end_matches('/')`).
pub fn trim_trailing_slashes(s: &str) -> (r: String)
    ensures
        r@ == trim_end_slashes(s@),
{
    let v = chars_of(s);
    let mut n = v.len();
    assert(v@.subrange(0, n as int) =~= v@);
    while n > 0 && v[n - 1] == '/'
        invariant
            v@ == s@,
            n <= v.len(),
            trim_end_slashes(s@) == trim_end_slashes(v@.subrange(0, n as int)),
        decreases n,
    {
        proof {
            assert(v@.subrange(0, n as int).drop_last() =~= v@.subrange(0, n - 1));
        }
        n = n - 1;
    }
    string_of_range(&v, 0, n)
}

/// A configured base URL, trimmed and without trailing slashes; absent when empty.
pub open spec fn base_url_of(u: Option<Seq<char>>) -> Option<Seq<char>> {
    match u {
        Some(s) => if trim_end_slashes(trim(s)).len() > 0 {
            Some(trim_end_slashes(trim(s)))
        } else {
            None
        },
        None => None,
    }
}

/// A configured base URL, trimmed and without trailing slashes; `None`
/// when nothing is left.
pub fn optional_base_url(base_url: Option<String>) -> (r: Option<String>)
    ensures
        (match r { Some(s) => Some(s@), None => None }) == base_url_of(match base_url {
            Some(s) => Some(s@),
            None => None,
        }),
{
    match base_url {
        Some(url) => {
            let t = trim_str(url.as_str());
            let u = trim_trailing_slashes(t.as_str());
            if u.as_str().unicode_len() > 0 {
                Some(u)
            } else {
                None
            }
        },
        None => None,
    }
}

/// What `reqwest::Url::parse` says of a text: `None` when it parses, else
/// the parse error's message.
pub uninterp spec fn url_parse_failure(s: Seq<char>) -> Option<Seq<char>>;

/// `reqwest::Url::parse`, keeping only whether it failed and its message.
#[verifier::external_body]
fn url_parse_error(s: &str) -> (r: Option<String>)
    ensures
        (match r { Some(m) => Some(m@), None => None }) == url_parse_failure(s@),
{
    match reqwest::Url::parse(s) {
        Ok(_) => None,
        Err(e) => Some(e.to_string()),
    }
}

/// Errors of provider configuration.
#[derive(Debug, Clone, PartialEq, Eq)]
pub enum LlmConfigError {
    InvalidRequest(String),
}

/// The base URL of an OpenAI-compatible endpoint without a trailing
/// `/chat/completions` path.
pub open spec fn openai_base(u: Seq<char>) -> Seq<char> {
    if has_suffix(u, "/chat/completions"@) {
        trim_end_slashes(u.subrange(0, u.len() - "/chat/completions"@.len()))
    } else {
        u
    }
}

/// Normalises an OpenAI-compatible base URL: trimmed, without trailing
/// slashes or `/chat/completions`, and refused when `URL/` does not parse.
pub fn normalize_openai_compatible_base_url(base_url: Option<String>) -> (r: Result<Option<String>, LlmConfigError>)
    ensures
        match base_url_of(match base_url { Some(s) => Some(s@), None => None }) {
            None => r == Ok::<Option<String>, LlmConfigError>(None),
            Some(u) => match url_parse_failure(trim_end_slashes(openai_base(u)) + "/"@) {
                None => r matches Ok(Some(v)) && v@ == openai_base(u),
                Some(m) => r matches Err(LlmConfigError::InvalidRequest(e)) && e@
                    == "Invalid OpenAI-compatible base URL: "@ + m,
            },
        },
{
    let url = match optional_base_url(base_url) {
        Some(u) => u,
        None => return Ok(None),
    };
    let url = if ends_with(url.as_str(), "/chat/completions") {
        let v = chars_of(url.as_str());
        proof {
            reveal_strlit("/chat/completions");
        }
        let cut = string_of_range(&v, 0, v.len() - 17);
        trim_trailing_slashes(cut.as_str())
    } else {
        url
    };
    let mut candidate = trim_trailing_slashes(url.as_str());
    push_str(&mut candidate, "/");
    match url_parse_error(candidate.as_str()) {
        Some(e) => {
            let mut m = own("Invalid OpenAI-compatible base URL: ");
            push_str(&mut m, e.as_str());
            Err(LlmConfigError::InvalidRequest(m))
        },
        None => Ok(Some(url)),
    }
}

/// Supported language-model providers.
#[derive(Debug, Clone, Copy, PartialEq, Eq, Structural)]
pub enum LLMProviderType {
    /// Local models served by URL (Ollama).
    Ollama,
    /// OpenAI, by API key.
    OpenAI,
    /// Anthropic, by API key.
    Anthropic,
    /// DeepSeek, by API key.
    DeepSeek,
    /// Groq, by API key.
    Groq,
    /// OpenRouter, by API key.
    OpenRouter,
}

/// The name a provider type is written as.
pub open spec fn provider_name(t: LLMProviderType) -> Seq<char> {
    match t {
        LLMProviderType::Ollama => "ollama"@,
        LLMProviderType::OpenAI => "openai"@,
        LLMProviderType::Anthropic => "anthropic"@,
        LLMProviderType::DeepSeek => "deepseek"@,
        LLMProviderType::Groq => "groq"@,
        LLMProviderType::OpenRouter => "openrouter"@,
    }
}

/// The provider type whose name is `l`.
pub open spec fn provider_named(l: Seq<char>) -> Option<LLMProviderType> {
    if l == "ollama"@ {
        Some(LLMProviderType::Ollama)
    } else if l == "openai"@ {
        Some(LLMProviderType::OpenAI)
    } else if l == "anthropic"@ {
        Some(LLMProviderType::Anthropic)
    } else if l == "deepseek"@ {
        Some(LLMProviderType::DeepSeek)
    } else if l == "groq"@ {
        Some(LLMProviderType::Groq)
    } else if l == "openrouter"@ {
        Some(LLMProviderType::OpenRouter)
    } else {
        None
    }
}

impl LLMProviderType {
    /// The provider type named by `s`, in any letter case.
    pub fn from_str(s: &str) -> (r: Result<LLMProviderType, String>)
        ensures
            match provider_named(unicode_lower(s@)) {
                Some(t) => r == Ok::<LLMProviderType, String>(t),
                None => r matches Err(m) && m@ == "Unknown LLM provider type: "@ + s@,
            },
            all_ascii(s@) ==> match provider_named(lower_ascii_str(s@)) {
                Some(t) => r == Ok::<LLMProviderType, String>(t),
                None => r is Err,
            },
    {
        let l = to_lowercase(s);
        let l = l.as_str();
        if str_eq(l, "ollama") {
            Ok(LLMProviderType::Ollama)
        } else if str_eq(l, "openai") {
            Ok(LLMProviderType::OpenAI)
        } else if str_eq(l, "anthropic") {
            Ok(LLMProviderType::Anthropic)
        } else if str_eq(l, "deepseek") {
            Ok(LLMProviderType::DeepSeek)
        } else if str_eq(l, "groq") {
            Ok(LLMProviderType::Groq)
        } else if str_eq(l, "openrouter") {
            Ok(LLMProviderType::OpenRouter)
        } else {
            let mut m = own("Unknown LLM provider type: ");
            push_str(&mut m, s);
            Err(m)
        }
    }

    /// The provider's name.
    pub fn to_string(&self) -> (r: String)
        ensures
            r@ == provider_name(*self),
    {
        match self {
            LLMProviderType::Ollama => own("ollama"),
            LLMProviderType::OpenAI => own("openai"),
            LLMProviderType::Anthropic => own("anthropic"),
            LLMProviderType::DeepSeek => own("deepseek"),
            LLMProviderType::Groq => own("groq"),
            LLMProviderType::OpenRouter => own("openrouter"),
        }
    }
}

/// Each provider's name names that provider, and distinct providers have
/// distinct names; a name is lower-case ASCII, so `from_str` of the name
/// that `to_string` writes gives the provider back.
pub proof fn law_provider_names_round_trip(t: LLMProviderType)
    ensures
        provider_named(provider_name(t)) == Some(t),
        all_ascii(provider_name(t)),
        provider_named(lower_ascii_str(provider_name(t))) == Some(t),
{
    reveal_strlit("ollama");
    reveal_strlit("openai");
    reveal_strlit("anthropic");
    reveal_strlit("deepseek");
    reveal_strlit("groq");
    reveal_strlit("openrouter");
    lemma_lower_word("ollama"@);
    lemma_lower_word("openai"@);
    lemma_lower_word("anthropic"@);
    lemma_lower_word("deepseek"@);
    lemma_lower_word("groq"@);
    lemma_lower_word("openrouter"@);
    assert("ollama"@[1] != "openai"@[1]);
    assert("ollama"@[0] != "anthropic"@[0]);
    assert("ollama"@[0] != "deepseek"@[0]);
    assert("ollama"@[0] != "groq"@[0]);
    assert("openai"@.len() != "openrouter"@.len());
    assert("openai"@[0] != "anthropic"@[0]);
    assert("openai"@[0] != "deepseek"@[0]);
    assert("openai"@[0] != "groq"@[0]);
    assert("anthropic"@[0] != "deepseek"@[0]);
    assert("anthropic"@[0] != "groq"@[0]);
    assert("deepseek"@[0] != "groq"@[0]);
    assert("ollama"@[1] != "openrouter"@[1]);
    assert("anthropic"@[0] != "openrouter"@[0]);
    assert("deepseek"@[0] != "openrouter"@[0]);
    assert("groq"@[0] != "openrouter"@[0]);
}


/// Creates LLM providers from configuration.
#[derive(Debug, Clone, Copy)]
pub struct LLMProviderFactory;

/// What a provider is created with: a local provider's base URL, or a hosted
/// provider's API key.
#[derive(Debug, Clone, PartialEq, Eq)]
pub enum ProviderCredential {
    BaseUrl(String),
    ApiKey(String),
}

/// The credential a provider type needs, or the refusal's message: Ollama
/// needs a base URL (trimmed, without trailing slashes, not empty), every
/// other provider an API key.
pub open spec fn provider_credential(
    t: LLMProviderType,
    base_url: Option<Seq<char>>,
    api_key: Option<Seq<char>>,
) -> Result<Seq<char>, Seq<char>> {
    match t {
        LLMProviderType::Ollama => match base_url_of(base_url) {
            Some(u) => Ok(u),
            None => Err("Base URL is required for Ollama provider"@),
        },
        _ => match api_key {
            Some(k) => Ok(k),
            None => Err("API key is required for "@ + provider_label(t) + " provider"@),
        },
    }
}

/// The display name of a hosted provider in messages.
pub open spec fn provider_label(t: LLMProviderType) -> Seq<char> {
    match t {
        LLMProviderType::Ollama => "Ollama"@,
        LLMProviderType::OpenAI => "OpenAI"@,
        LLMProviderType::Anthropic => "Anthropic"@,
        LLMProviderType::DeepSeek => "DeepSeek"@,
        LLMProviderType::Groq => "Groq"@,
        LLMProviderType::OpenRouter => "OpenRouter"@,
    }
}

impl LLMProviderFactory {
    /// The credential to create a provider of type `provider_type` with.
    pub fn credential(
        provider_type: LLMProviderType,
        base_url: Option<String>,
        api_key: Option<String>,
    ) -> (r: Result<ProviderCredential, String>)
        ensures
            match provider_credential(
                provider_type,
                match base_url { Some(s) => Some(s@), None => None },
                match api_key { Some(s) => Some(s@), None => None },
            ) {
                Ok(c) => match r {
                    Ok(ProviderCredential::BaseUrl(u)) => provider_type == LLMProviderType::Ollama && u@ == c,
                    Ok(ProviderCredential::ApiKey(k)) => provider_type != LLMProviderType::Ollama && k@ == c,
                    Err(_) => false,
                },
                Err(m) => r matches Err(e) && e@ == m,
            },
    {
        match provider_type {
            LLMProviderType::Ollama => match optional_base_url(base_url) {
                Some(u) => Ok(ProviderCredential::BaseUrl(u)),
                None => Err(own("Base URL is required for Ollama provider")),
            },
            _ => match api_key {
                Some(k) => Ok(ProviderCredential::ApiKey(k)),
                None => {
                    let label = match provider_type {
                        LLMProviderType::Ollama => "Ollama",
                        LLMProviderType::OpenAI => "OpenAI",
                        LLMProviderType::Anthropic => "Anthropic",
                        LLMProviderType::DeepSeek => "DeepSeek",
                        LLMProviderType::Groq => "Groq",
                        LLMProviderType::OpenRouter => "OpenRouter",
                    };
                    let mut m = own("API key is required for ");
                    push_str(&mut m, label);
                    push_str(&mut m, " provider");
                    Err(m)
                },
            },
        }
    }
}

} // verus!
