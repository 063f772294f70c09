//! Answers by a language model.

use vstd::prelude::*;
use crate::json::{Json, JsonView};
use crate::{json, text};

verus! {

/// The settings of the bridge.
pub struct AiConfig {
    pub provider: String,
    pub model: String,
    pub system_prompt: String,
    pub api_key: Option<String>,
}

/// What the settings of the bridge say.
pub struct AiView {
    pub provider: Seq<char>,
    pub model: Seq<char>,
    pub system_prompt: Seq<char>,
    pub api_key: Option<Seq<char>>,
}

impl View for AiConfig {
    type V = AiView;

    open spec fn view(&self) -> AiView {
        AiView {
            provider: self.provider@,
            model: self.model@,
            system_prompt: self.system_prompt@,
            api_key: text::opt_view(self.api_key),
        }
    }
}

/// The view of the custom settings; nothing without any.
pub open spec fn custom_view(custom: Option<&Json>) -> JsonView {
    match custom {
        Some(c) => c@,
        None => JsonView::Null,
    }
}

/// Whether the bridge is switched on in the custom settings.
pub fn is_enabled(custom: Option<&Json>) -> (r: bool)
    ensures
        r == (custom_view(custom).at("ai"@).at("enabled"@).boolean() == Some(true)),
{
    if let Some(c) = custom {
        if let Some(ai) = c.get("ai") {
            if let Some(v) = ai.get("enabled") {
                if let Some(b) = v.as_bool() {
                    return b;
                }
            }
        }
    }
    false
}

/// The first of some keys that is there.
pub open spec fn first_key(
    a: Option<Seq<char>>,
    b: Option<Seq<char>>,
    c: Option<Seq<char>>,
) -> Option<Seq<char>> {
    if a is Some {
        a
    } else if b is Some {
        b
    } else {
        c
    }
}

/// The settings of the bridge, with their defaults. The key may come from the environment.
pub open spec fn settings(
    custom: JsonView,
    ai_key: Option<Seq<char>>,
    openai_key: Option<Seq<char>>,
) -> AiView {
    let ai = custom.at("ai"@);
    AiView {
        provider: text::or_else(ai.text_at("provider"@), "openclaw"@),
        model: text::or_else(ai.text_at("model"@), "default"@),
        system_prompt: text::or_else(
            ai.text_at("system_prompt"@),
            "You are a helpful Vector bot. Keep responses concise."@,
        ),
        api_key: first_key(ai.text_at("api_key"@), ai_key, openai_key),
    }
}

fn setting<'a>(custom: Option<&'a Json>, key: &str) -> (r: Option<&'a str>)
    ensures
        text::opt_str_view(r) == custom_view(custom).at("ai"@).text_at(key@),
{
    match custom {
        Some(c) => c.str_at2("ai", key),
        None => None,
    }
}

/// Reads the settings of the bridge, given the values of `AI_API_KEY` and `OPENAI_API_KEY`.
pub fn ai_config(custom: Option<&Json>, ai_key: Option<&str>, openai_key: Option<&str>) -> (r: AiConfig)
    ensures
        r@ == settings(
            custom_view(custom),
            text::opt_str_view(ai_key),
            text::opt_str_view(openai_key),
        ),
{
    let provider = text::own_or(setting(custom, "provider"), "openclaw");
    let model = text::own_or(setting(custom, "model"), "default");
    let system_prompt = text::own_or(
        setting(custom, "system_prompt"),
        "You are a helpful Vector bot. Keep responses concise.",
    );
    let api_key = match setting(custom, "api_key") {
        Some(k) => Some(k.to_owned()),
        None => match ai_key {
            Some(k) => Some(k.to_owned()),
            None => text::own_opt(openai_key),
        },
    };
    AiConfig { provider, model, system_prompt, api_key }
}

// ---------------------------------------------------------------------------
// Commands
// ---------------------------------------------------------------------------

/// What a command hands to the model: its words behind some of its own, or how to use it.
pub open spec fn prompt_of(args: Seq<char>, head: Seq<char>, usage: Seq<char>) -> Result<
    Seq<char>,
    Seq<char>,
> {
    if text::trimmed(args).len() == 0 {
        Err(usage)
    } else {
        Ok(head + text::trimmed(args))
    }
}

fn prompt(args: &str, head: &str, usage: &str) -> (r: Result<String, String>)
    ensures
        match (prompt_of(args@, head@, usage@), r) {
            (Ok(want), Ok(got)) => got@ == want,
            (Err(want), Err(got)) => got@ == want,
            _ => false,
        },
{
    let what = text::trim(args);
    if what.is_empty() {
        Err(usage.to_owned())
    } else {
        Ok(text::cat2(head, what))
    }
}

/// The question of `!ask`.
pub fn ask(args: &str) -> (r: Result<String, String>)
    ensures
        match (prompt_of(args@, ""@, "Usage: !ask <question>"@), r) {
            (Ok(want), Ok(got)) => got@ == want,
            (Err(want), Err(got)) => got@ == want,
            _ => false,
        },
{
    prompt(args, "", "Usage: !ask <question>")
}

/// The prompt of `!summarize`.
pub fn summarize(args: &str) -> (r: Result<String, String>)
    ensures
        match (prompt_of(args@, "Summarize this: "@, "Usage: !summarize <text>"@), r) {
            (Ok(want), Ok(got)) => got@ == want,
            (Err(want), Err(got)) => got@ == want,
            _ => false,
        },
{
    prompt(args, "Summarize this: ", "Usage: !summarize <text>")
}

/// The prompt of `!sentiment`.
pub fn sentiment(args: &str) -> (r: Result<String, String>)
    ensures
        match (
            prompt_of(
                args@,
                "Analyze the sentiment of this: "@,
                "Usage: !sentiment <text>"@,
            ),
            r,
        ) {
            (Ok(want), Ok(got)) => got@ == want,
            (Err(want), Err(got)) => got@ == want,
            _ => false,
        },
{
    prompt(args, "Analyze the sentiment of this: ", "Usage: !sentiment <text>")
}

/// Why no image is made, if none is.
pub open spec fn image_refusal(args: Seq<char>, cfg: AiView) -> Option<Seq<char>> {
    if text::trimmed(args).len() == 0 {
        Some("Usage: !image <prompt>"@)
    } else if cfg.provider != "openai"@ {
        Some(
            "⚠️ Image generation requires `provider = \"openai\"` in [custom.ai]. The openclaw CLI text path cannot generate images."@,
        )
    } else {
        None
    }
}

/// The prompt of `!image`.
pub fn image(args: &str, cfg: &AiConfig) -> (r: Result<String, String>)
    ensures
        match r {
            Ok(p) => image_refusal(args@, cfg@) is None && p@ == text::trimmed(args@),
            Err(why) => image_refusal(args@, cfg@) == Some(why@),
        },
{
    let p = text::trim(args);
    if p.is_empty() {
        return Err("Usage: !image <prompt>".to_owned());
    }
    if !text::same(cfg.provider.as_str(), "openai") {
        return Err(
            "⚠️ Image generation requires `provider = \"openai\"` in [custom.ai]. The openclaw CLI text path cannot generate images.".to_owned(),
        );
    }
    Ok(p.to_owned())
}

/// The reply with the address of an image.
pub fn image_reply(url: &str) -> (r: String)
    ensures
        r@ == "🖼️ "@ + url@,
{
    text::cat2("🖼️ ", url)
}

// ---------------------------------------------------------------------------
// Providers
// ---------------------------------------------------------------------------

/// Whether the OpenAI service answers; else the `openclaw` tool does.
pub fn uses_openai(cfg: &AiConfig) -> (r: bool)
    ensures
        r == (cfg@.provider == "openai"@),
{
    text::same(cfg.provider.as_str(), "openai")
}

fn push_arg(args: &mut Vec<String>, s: &str)
    ensures
        text::views(final(args)@) == text::views(old(args)@).push(s@),
{
    let ghost before = text::views(args@);
    args.push(s.to_owned());
    proof {
        assert(text::views(args@) =~= before.push(s@));
    }
}

/// How the `openclaw` tool is asked.
pub fn openclaw_args(message: &str, system_prompt: &str) -> (r: Vec<String>)
    ensures
        text::views(r@) == Seq::empty().push("chat"@).push("--system"@).push(system_prompt@).push(
            "--message"@,
        ).push(message@),
{
    let mut args: Vec<String> = Vec::new();
    proof {
        assert(text::views(args@) =~= Seq::empty());
    }
    push_arg(&mut args, "chat");
    push_arg(&mut args, "--system");
    push_arg(&mut args, system_prompt);
    push_arg(&mut args, "--message");
    push_arg(&mut args, message);
    args
}

/// The answer of the `openclaw` tool; without one, a word on what was received.
pub fn openclaw_answer(message: &str, output: Option<&str>) -> (r: String)
    ensures
        r@ == match output {
            Some(o) => text::trimmed(o@),
            None => "I received: \""@ + message@ + "\" — but my AI backend is not configured."@,
        },
{
    match output {
        Some(o) => text::trim(o).to_owned(),
        None => text::cat3(
            "I received: \"",
            message,
            "\" — but my AI backend is not configured.",
        ),
    }
}

/// The key for the OpenAI service, or what is missing.
pub fn openai_key(cfg: &AiConfig) -> (r: Result<String, String>)
    ensures
        match r {
            Ok(k) => cfg@.api_key == Some(k@),
            Err(why) => cfg@.api_key is None && why@
                == "OpenAI API key not configured (set ai.api_key or AI_API_KEY)"@,
        },
{
    match &cfg.api_key {
        Some(k) => Ok(k.clone()),
        None => Err("OpenAI API key not configured (set ai.api_key or AI_API_KEY)".to_owned()),
    }
}

/// The `Authorization` header with a key.
pub fn bearer(key: &str) -> (r: String)
    ensures
        r@ == "Bearer "@ + key@,
{
    text::cat2("Bearer ", key)
}

/// A message of a conversation.
pub open spec fn chat_message(role: Seq<char>, content: Seq<char>) -> JsonView {
    JsonView::Object(
        Seq::empty().push(("role"@, JsonView::Text(role))).push(
            ("content"@, JsonView::Text(content)),
        ),
    )
}

/// The request for an answer.
pub open spec fn chat_request(message: Seq<char>, system_prompt: Seq<char>, model: Seq<char>) -> JsonView {
    JsonView::Object(
        Seq::empty().push(("model"@, JsonView::Text(model))).push(
            (
                "messages"@,
                JsonView::Array(
                    Seq::empty().push(chat_message("system"@, system_prompt)).push(
                        chat_message("user"@, message),
                    ),
                ),
            ),
        ).push(("max_tokens"@, JsonView::Number("500"@))),
    )
}

fn build_message(role: &str, content: &str) -> (r: Json)
    ensures
        r@ == chat_message(role@, content@),
{
    let mut m: Vec<(String, Json)> = Vec::new();
    proof {
        assert(json::member_views(m@) =~= Seq::empty());
    }
    json::add_member(&mut m, "role", json::string(role));
    json::add_member(&mut m, "content", json::string(content));
    json::object(m)
}

/// Builds the request for an answer.
pub fn chat_body(message: &str, system_prompt: &str, model: &str) -> (r: Json)
    ensures
        r@ == chat_request(message@, system_prompt@, model@),
{
    let mut items: Vec<Json> = Vec::new();
    items.push(build_message("system", system_prompt));
    items.push(build_message("user", message));
    let ghost seen = json::json_views(items@);
    proof {
        assert(seen =~= Seq::empty().push(chat_message("system"@, system_prompt@)).push(
            chat_message("user"@, message@),
        ));
    }
    let mut m: Vec<(String, Json)> = Vec::new();
    proof {
        assert(json::member_views(m@) =~= Seq::empty());
    }
    json::add_member(&mut m, "model", json::string(model));
    json::add_member(&mut m, "messages", json::array(items));
    json::add_member(&mut m, "max_tokens", Json::Number("500".to_owned()));
    json::object(m)
}

/// The answer in a response.
pub open spec fn chat_answer_in(data: JsonView) -> Seq<char> {
    text::trimmed(
        text::or_else(
            data.at("choices"@).nth(0).at("message"@).text_at("content"@),
            "Error: Could not parse AI response"@,
        ),
    )
}

/// Reads the answer in a response.
pub fn chat_answer(data: &Json) -> (r: String)
    ensures
        r@ == chat_answer_in(data@),
{
    let mut found: Option<&str> = None;
    if let Some(choices) = data.get("choices") {
        if let Some(first) = choices.get_index(0) {
            found = first.str_at2("message", "content");
        }
    }
    let content = text::own_or(found, "Error: Could not parse AI response");
    text::trim(content.as_str()).to_owned()
}

/// The model for images: the configured one where it names an image model.
pub open spec fn image_model_of(model: Seq<char>) -> Seq<char> {
    if text::has_substring(model, "dall-e"@) || text::has_substring(model, "image"@) {
        model
    } else {
        "dall-e-3"@
    }
}

/// The request for an image.
pub open spec fn image_request(prompt: Seq<char>, model: Seq<char>) -> JsonView {
    JsonView::Object(
        Seq::empty().push(("model"@, JsonView::Text(image_model_of(model)))).push(
            ("prompt"@, JsonView::Text(prompt)),
        ).push(("n"@, JsonView::Number("1"@))).push(("size"@, JsonView::Text("1024x1024"@))),
    )
}

/// Builds the request for an image.
pub fn image_body(prompt: &str, model: &str) -> (r: Json)
    ensures
        r@ == image_request(prompt@, model@),
{
    let name = if text::contains(model, "dall-e") || text::contains(model, "image") {
        model
    } else {
        "dall-e-3"
    };
    let mut m: Vec<(String, Json)> = Vec::new();
    proof {
        assert(json::member_views(m@) =~= Seq::empty());
    }
    json::add_member(&mut m, "model", json::string(name));
    json::add_member(&mut m, "prompt", json::string(prompt));
    json::add_member(&mut m, "n", Json::Number("1".to_owned()));
    json::add_member(&mut m, "size", json::string("1024x1024"));
    json::object(m)
}

/// The address of the image in a response, or what the service said instead.
pub open spec fn image_in(status: Seq<char>, data: JsonView) -> Result<Seq<char>, Seq<char>> {
    match data.at("data"@).nth(0).text_at("url"@) {
        Some(u) => Ok(u),
        None => Err(
            "OpenAI Images API error ("@ + status + "): "@ + text::or_else(
                data.at("error"@).text_at("message"@),
                "no URL in response"@,
            ),
        ),
    }
}

/// Reads the address of the image in a response.
pub fn image_url(status: &str, data: &Json) -> (r: Result<String, String>)
    ensures
        match (image_in(status@, data@), r) {
            (Ok(want), Ok(got)) => got@ == want,
            (Err(want), Err(got)) => got@ == want,
            _ => false,
        },
{
    if let Some(list) = data.get("data") {
        if let Some(first) = list.get_index(0) {
            if let Some(u) = first.str_at("url") {
                return Ok(u.to_owned());
            }
        }
    }
    Err(
        text::cat4(
            "OpenAI Images API error (",
            status,
            "): ",
            text::own_or(data.str_at2("error", "message"), "no URL in response").as_str(),
        ),
    )
}

} // verus!
