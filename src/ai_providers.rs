//! What a language-model backend is given and gives back, a mock backend, and
//! the manager that keeps one backend active.

use vstd::prelude::*;

verus! {

/// A backend's reply.
#[derive(Debug, Clone, PartialEq, Eq)]
pub struct AIResponse {
    pub content: String,
    pub model: String,
    pub tokens_used: Option<usize>,
}

/// How a backend is reached.
#[derive(Debug, Clone, PartialEq, Eq)]
pub struct ProviderConfig {
    pub name: String,
    pub api_key: Option<String>,
    pub api_endpoint: Option<String>,
    pub model: String,
}

/// Why a backend failed.
#[derive(Debug, Clone, PartialEq, Eq)]
pub enum AIProviderError {
    NotConfigured,
    ApiError(String),
    NetworkError(String),
    InvalidResponse(String),
    ConfigurationError(String),
}

/// The text of a backend error.
pub open spec fn provider_error_text(e: AIProviderError) -> Seq<char> {
    match e {
        AIProviderError::NotConfigured => "Provider not configured"@,
        AIProviderError::ApiError(m) => "API error: "@ + m@,
        AIProviderError::NetworkError(m) => "Network error: "@ + m@,
        AIProviderError::InvalidResponse(m) => "Invalid response: "@ + m@,
        AIProviderError::ConfigurationError(m) => "Configuration error: "@ + m@,
    }
}

impl AIProviderError {
    /// A readable description of the error.
    pub fn message(&self) -> (r: String)
        ensures
            r@ == provider_error_text(*self),
    {
        match self {
            AIProviderError::NotConfigured => "Provider not configured".to_owned(),
            AIProviderError::ApiError(m) => "API error: ".to_owned().concat(m.as_str()),
            AIProviderError::NetworkError(m) => "Network error: ".to_owned().concat(m.as_str()),
            AIProviderError::InvalidResponse(m) => {
                "Invalid response: ".to_owned().concat(m.as_str())
            },
            AIProviderError::ConfigurationError(m) => {
                "Configuration error: ".to_owned().concat(m.as_str())
            },
        }
    }
}

/// The text before the prompt in the mock backend's reply.
pub open spec fn mock_reply_head() -> Seq<char> {
    "# AI Response\n\nYou asked: "@
}

/// The text after the prompt in the mock backend's reply.
pub open spec fn mock_reply_tail() -> Seq<char> {
    "\n\n## Code Example\n\n```rust\nfn hello_world() {\n    println!(\"Hello from Vibe Coder!\");\n}\n```\n\n## Explanation\n\nThis is a mock response demonstrating the parsing capabilities."@
}

/// The mock backend's reply to `prompt`: a markdown text with two headings
/// and a code block that echoes the prompt.
pub open spec fn mock_reply(prompt: Seq<char>) -> Seq<char> {
    mock_reply_head() + prompt + mock_reply_tail()
}

/// The tokens that the mock backend reports for every reply.
pub const MOCK_TOKENS_USED: usize = 150;

/// A backend that answers every prompt with a fixed markdown text, once it is
/// configured.
pub struct MockAIProvider {
    config: Option<ProviderConfig>,
}

impl MockAIProvider {
    /// The configuration, if one was given.
    pub closed spec fn configuration(&self) -> Option<ProviderConfig> {
        self.config
    }

    /// A backend with no configuration.
    pub fn new() -> (r: MockAIProvider)
        ensures
            r.configuration() is None,
    {
        MockAIProvider { config: None }
    }

    /// The backend's name.
    pub fn name(&self) -> (r: String)
        ensures
            r@ == "Mock Provider"@,
    {
        "Mock Provider".to_owned()
    }

    /// Takes `config` as the configuration; always succeeds.
    pub fn configure(&mut self, config: ProviderConfig) -> (r: Result<(), AIProviderError>)
        ensures
            r is Ok,
            final(self).configuration() == Some(config),
    {
        self.config = Some(config);
        Ok(())
    }

    /// Whether a configuration was given.
    pub fn is_ready(&self) -> (r: bool)
        ensures
            r == self.configuration() is Some,
    {
        self.config.is_some()
    }

    /// The reply to `prompt`: the fixed markdown text around the prompt, the
    /// configured model and a fixed token count; `NotConfigured` before a
    /// configuration is given.
    pub fn respond(&self, prompt: &str) -> (r: Result<AIResponse, AIProviderError>)
        ensures
            self.configuration() is None ==> r == Err::<AIResponse, AIProviderError>(
                AIProviderError::NotConfigured,
            ),
            self.configuration() matches Some(c) ==> (r matches Ok(resp) && resp.content@
                == mock_reply(prompt@) && resp.model@ == c.model@ && resp.tokens_used == Some(
                MOCK_TOKENS_USED,
            )),
    {
        match &self.config {
            None => Err(AIProviderError::NotConfigured),
            Some(c) => {
                let content = "# AI Response\n\nYou asked: ".to_owned().concat(prompt).concat(
                    "\n\n## Code Example\n\n```rust\nfn hello_world() {\n    println!(\"Hello from Vibe Coder!\");\n}\n```\n\n## Explanation\n\nThis is a mock response demonstrating the parsing capabilities.",
                );
                Ok(AIResponse {
                    content,
                    model: c.model.clone(),
                    tokens_used: Some(MOCK_TOKENS_USED),
                })
            },
        }
    }
}

impl Default for MockAIProvider {
    fn default() -> (r: MockAIProvider)
        ensures
            r.configuration() is None,
    {
        MockAIProvider::new()
    }
}

/// The providers of a manager and the position of the active one.
pub struct ManagerView<P> {
    pub providers: Seq<P>,
    pub active: Option<int>,
}

/// Keeps the registered backends in order and which one is active: the first
/// one registered until another is chosen.
pub struct AIProviderManager<P> {
    providers: Vec<P>,
    active_provider_index: Option<usize>,
}

impl<P> View for AIProviderManager<P> {
    type V = ManagerView<P>;

    closed spec fn view(&self) -> ManagerView<P> {
        ManagerView {
            providers: self.providers@,
            active: match self.active_provider_index {
                Some(i) => Some(i as int),
                None => None,
            },
        }
    }
}

impl<P> AIProviderManager<P> {
    /// One provider is active exactly when there is one to choose from, and
    /// the active position names a registered provider.
    pub open spec fn wf(&self) -> bool {
        &&& (self@.active is Some <==> self@.providers.len() > 0)
        &&& (self@.active matches Some(i) ==> 0 <= i < self@.providers.len())
    }

    /// A manager with no provider.
    pub fn new() -> (r: AIProviderManager<P>)
        ensures
            r@.providers == Seq::<P>::empty(),
            r@.active is None,
            r.wf(),
    {
        AIProviderManager { providers: Vec::new(), active_provider_index: None }
    }

    /// Registers `provider` at the end; the first one registered becomes active.
    pub fn add_provider(&mut self, provider: P)
        requires
            old(self).wf(),
        ensures
            final(self).wf(),
            final(self)@.providers == old(self)@.providers.push(provider),
            final(self)@.active == (if old(self)@.active is None {
                Some(0int)
            } else {
                old(self)@.active
            }),
    {
        self.providers.push(provider);
        if self.active_provider_index.is_none() {
            self.active_provider_index = Some(0);
        }
    }

    /// Makes the provider at `index` the active one, or fails with a
    /// configuration error when there is none there.
    pub fn set_active_provider(&mut self, index: usize) -> (r: Result<(), AIProviderError>)
        requires
            old(self).wf(),
        ensures
            final(self).wf(),
            final(self)@.providers == old(self)@.providers,
            index < old(self)@.providers.len() ==> r is Ok && final(self)@.active == Some(
                index as int,
            ),
            index >= old(self)@.providers.len() ==> final(self)@ == old(self)@ && (r matches Err(
                AIProviderError::ConfigurationError(m),
            ) && m@ == "Provider index out of bounds"@),
    {
        if index >= self.providers.len() {
            return Err(
                AIProviderError::ConfigurationError("Provider index out of bounds".to_owned()),
            );
        }
        self.active_provider_index = Some(index);
        Ok(())
    }

    /// The active provider, if any.
    pub fn get_active_provider(&self) -> (r: Option<&P>)
        requires
            self.wf(),
        ensures
            self@.active is None ==> r is None,
            self@.active matches Some(i) ==> r == Some(&self@.providers[i]),
    {
        match self.active_provider_index {
            Some(i) => Some(&self.providers[i]),
            None => None,
        }
    }

    /// The registered providers, in order of registration.
    pub fn providers(&self) -> (r: &Vec<P>)
        ensures
            r@ == self@.providers,
    {
        &self.providers
    }
}

impl<P> Default for AIProviderManager<P> {
    fn default() -> (r: AIProviderManager<P>)
        ensures
            r@.providers == Seq::<P>::empty(),
            r@.active is None,
            r.wf(),
    {
        AIProviderManager::new()
    }
}

} // verus!
