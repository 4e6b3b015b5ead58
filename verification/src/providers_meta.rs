//! Provider bookkeeping: the conventional environment variable for each
//! provider's API key, and a sensible default model per provider.

use vstd::prelude::*;

use crate::strings::str_eq;

verus! {

/// The conventional environment variable holding a provider's API key;
/// `API_KEY` for providers without an established convention.
pub open spec fn env_var_spec(n: Seq<char>) -> Seq<char> {
    if n == "openrouter"@ {
        "OPENROUTER_API_KEY"@
    } else if n == "anthropic"@ {
        "ANTHROPIC_API_KEY"@
    } else if n == "openai"@ {
        "OPENAI_API_KEY"@
    } else if n == "venice"@ {
        "VENICE_API_KEY"@
    } else if n == "groq"@ {
        "GROQ_API_KEY"@
    } else if n == "mistral"@ {
        "MISTRAL_API_KEY"@
    } else if n == "deepseek"@ {
        "DEEPSEEK_API_KEY"@
    } else if n == "xai"@ || n == "grok"@ {
        "XAI_API_KEY"@
    } else if n == "together"@ || n == "together-ai"@ {
        "TOGETHER_API_KEY"@
    } else if n == "fireworks"@ || n == "fireworks-ai"@ {
        "FIREWORKS_API_KEY"@
    } else if n == "perplexity"@ {
        "PERPLEXITY_API_KEY"@
    } else if n == "cohere"@ {
        "COHERE_API_KEY"@
    } else if n == "moonshot"@ || n == "kimi"@ {
        "MOONSHOT_API_KEY"@
    } else if n == "glm"@ || n == "zhipu"@ {
        "GLM_API_KEY"@
    } else if n == "minimax"@ {
        "MINIMAX_API_KEY"@
    } else if n == "qianfan"@ || n == "baidu"@ {
        "QIANFAN_API_KEY"@
    } else if n == "zai"@ || n == "z.ai"@ {
        "ZAI_API_KEY"@
    } else if n == "synthetic"@ {
        "SYNTHETIC_API_KEY"@
    } else if n == "opencode"@ || n == "opencode-zen"@ {
        "OPENCODE_API_KEY"@
    } else if n == "vercel"@ || n == "vercel-ai"@ {
        "VERCEL_API_KEY"@
    } else if n == "cloudflare"@ || n == "cloudflare-ai"@ {
        "CLOUDFLARE_API_KEY"@
    } else if n == "bedrock"@ || n == "aws-bedrock"@ {
        "AWS_ACCESS_KEY_ID"@
    } else if n == "gemini"@ || n == "google"@ || n == "google-gemini"@ {
        "GEMINI_API_KEY"@
    } else {
        "API_KEY"@
    }
}

/// Map a provider name to its conventional env var.
pub fn provider_env_var(name: &str) -> (r: &'static str)
    ensures
        r@ == env_var_spec(name@),
{
    if str_eq(name, "openrouter") {
        "OPENROUTER_API_KEY"
    } else if str_eq(name, "anthropic") {
        "ANTHROPIC_API_KEY"
    } else if str_eq(name, "openai") {
        "OPENAI_API_KEY"
    } else if str_eq(name, "venice") {
        "VENICE_API_KEY"
    } else if str_eq(name, "groq") {
        "GROQ_API_KEY"
    } else if str_eq(name, "mistral") {
        "MISTRAL_API_KEY"
    } else if str_eq(name, "deepseek") {
        "DEEPSEEK_API_KEY"
    } else if str_eq(name, "xai") || str_eq(name, "grok") {
        "XAI_API_KEY"
    } else if str_eq(name, "together") || str_eq(name, "together-ai") {
        "TOGETHER_API_KEY"
    } else if str_eq(name, "fireworks") || str_eq(name, "fireworks-ai") {
        "FIREWORKS_API_KEY"
    } else if str_eq(name, "perplexity") {
        "PERPLEXITY_API_KEY"
    } else if str_eq(name, "cohere") {
        "COHERE_API_KEY"
    } else if str_eq(name, "moonshot") || str_eq(name, "kimi") {
        "MOONSHOT_API_KEY"
    } else if str_eq(name, "glm") || str_eq(name, "zhipu") {
        "GLM_API_KEY"
    } else if str_eq(name, "minimax") {
        "MINIMAX_API_KEY"
    } else if str_eq(name, "qianfan") || str_eq(name, "baidu") {
        "QIANFAN_API_KEY"
    } else if str_eq(name, "zai") || str_eq(name, "z.ai") {
        "ZAI_API_KEY"
    } else if str_eq(name, "synthetic") {
        "SYNTHETIC_API_KEY"
    } else if str_eq(name, "opencode") || str_eq(name, "opencode-zen") {
        "OPENCODE_API_KEY"
    } else if str_eq(name, "vercel") || str_eq(name, "vercel-ai") {
        "VERCEL_API_KEY"
    } else if str_eq(name, "cloudflare") || str_eq(name, "cloudflare-ai") {
        "CLOUDFLARE_API_KEY"
    } else if str_eq(name, "bedrock") || str_eq(name, "aws-bedrock") {
        "AWS_ACCESS_KEY_ID"
    } else if str_eq(name, "gemini") || str_eq(name, "google") || str_eq(name, "google-gemini") {
        "GEMINI_API_KEY"
    } else {
        "API_KEY"
    }
}

/// The default model for a provider without an explicit configuration.
pub open spec fn default_model_spec(n: Seq<char>) -> Seq<char> {
    if n == "anthropic"@ {
        "sonnet-4-20250514"@
    } else if n == "openai"@ {
        "gpt-4o"@
    } else if n == "ollama"@ {
        "llama3.2"@
    } else if n == "groq"@ {
        "llama-3.3-70b-versatile"@
    } else if n == "deepseek"@ {
        "deepseek-chat"@
    } else if n == "gemini"@ || n == "google"@ || n == "google-gemini"@ {
        "gemini-2.0-flash"@
    } else {
        "anthropic/sonnet-4-20250514"@
    }
}

/// Pick a sensible default model for the given provider.
pub fn default_model_for_provider(provider: &str) -> (r: String)
    ensures
        r@ == default_model_spec(provider@),
{
    let m: &str = if str_eq(provider, "anthropic") {
        "sonnet-4-20250514"
    } else if str_eq(provider, "openai") {
        "gpt-4o"
    } else if str_eq(provider, "ollama") {
        "llama3.2"
    } else if str_eq(provider, "groq") {
        "llama-3.3-70b-versatile"
    } else if str_eq(provider, "deepseek") {
        "deepseek-chat"
    } else if str_eq(provider, "gemini") || str_eq(provider, "google") || str_eq(
        provider,
        "google-gemini",
    ) {
        "gemini-2.0-flash"
    } else {
        "anthropic/sonnet-4-20250514"
    };
    m.to_owned()
}

} // verus!
