//! What holds of the AI commands and of what is asked of a service.

use vstd::prelude::*;
use crate::handlers::ai_bridge;
use crate::handlers::ai_bridge::AiView;
use crate::json::JsonView;
use crate::{json, text};

verus! {

/// A setting of the file is taken where it is there; the key of the file comes before that of the
/// bot's own variable, and that before the general one.
pub proof fn law_settings_are_taken(
    custom: JsonView,
    own: Option<Seq<char>>,
    general: Option<Seq<char>>,
)
    ensures
        ({
            let ai = custom.at("ai"@);
            let s = ai_bridge::settings(custom, own, general);
            &&& ai.text_at("provider"@) matches Some(p) ==> s.provider == p
            &&& ai.text_at("model"@) matches Some(m) ==> s.model == m
            &&& ai.text_at("system_prompt"@) matches Some(p) ==> s.system_prompt == p
            &&& ai.text_at("api_key"@) is Some ==> s.api_key == ai.text_at("api_key"@)
            &&& ai.text_at("api_key"@) is None && own is Some ==> s.api_key == own
            &&& ai.text_at("api_key"@) is None && own is None ==> s.api_key == general
        }),
{
}

/// Without settings the text backend is asked for its default model.
pub proof fn law_default_settings(own: Option<Seq<char>>, general: Option<Seq<char>>)
    ensures
        ai_bridge::settings(JsonView::Null, own, general).provider == "openclaw"@,
        ai_bridge::settings(JsonView::Null, own, general).model == "default"@,
{
}

/// What is asked reaches the service, behind what the command puts before it; blank questions are
/// refused.
pub proof fn law_question_reaches_the_service(args: Seq<char>, head: Seq<char>, usage: Seq<char>)
    ensures
        text::trimmed(args).len() > 0 ==> ai_bridge::prompt_of(args, head, usage) == Ok::<
            _,
            Seq<char>,
        >(head + text::trimmed(args)),
        text::trimmed(args).len() == 0 ==> ai_bridge::prompt_of(args, head, usage) == Err::<
            Seq<char>,
            _,
        >(usage),
{
}

proof fn lemma_request_keys()
    ensures
        "role"@ != "content"@,
        "model"@ != "messages"@,
        "model"@ != "max_tokens"@,
        "messages"@ != "max_tokens"@,
        "model"@ != "prompt"@,
        "model"@ != "n"@,
        "model"@ != "size"@,
        "prompt"@ != "n"@,
        "prompt"@ != "size"@,
        "n"@ != "size"@,
{
    reveal_strlit("role");
    reveal_strlit("content");
    reveal_strlit("model");
    reveal_strlit("messages");
    reveal_strlit("max_tokens");
    reveal_strlit("prompt");
    reveal_strlit("n");
    reveal_strlit("size");
    assert("role"@[0] == 'r' && "content"@[0] == 'c' && "prompt"@[0] == 'p' && "n"@[0] == 'n'
        && "size"@[0] == 's' && "model"@[0] == 'm');
    assert("model"@.len() == 5 && "messages"@.len() == 8 && "max_tokens"@.len() == 10);
}

/// A chat is asked of the model with the system's words first and the user's after them.
pub proof fn law_chat_request_holds_both(message: Seq<char>, system: Seq<char>, model: Seq<char>)
    ensures
        ({
            let r = ai_bridge::chat_request(message, system, model);
            let m = r.at("messages"@);
            &&& r.text_at("model"@) == Some(model)
            &&& m.items() is Some && m.items()->0.len() == 2
            &&& m.nth(0).text_at("role"@) == Some("system"@)
            &&& m.nth(0).text_at("content"@) == Some(system)
            &&& m.nth(1).text_at("role"@) == Some("user"@)
            &&& m.nth(1).text_at("content"@) == Some(message)
            &&& r.at("max_tokens"@) == JsonView::Number("500"@)
        }),
{
    lemma_request_keys();
    reveal_with_fuel(json::member_from, 5);
}

/// The answer is what the first choice says, trimmed.
pub proof fn law_first_choice_answers(data: JsonView, answer: Seq<char>)
    requires
        data.at("choices"@).nth(0).at("message"@).text_at("content"@) == Some(answer),
    ensures
        ai_bridge::chat_answer_in(data) == text::trimmed(answer),
{
}

/// A model for images is used where it is one, and a default otherwise.
pub proof fn law_image_model_is_used(before: Seq<char>, after: Seq<char>)
    ensures
        ai_bridge::image_model_of(before + "dall-e"@ + after) == before + "dall-e"@ + after,
        ai_bridge::image_model_of(before + "image"@ + after) == before + "image"@ + after,
        forall|m: Seq<char>|
            !text::has_substring(m, "dall-e"@) && !text::has_substring(m, "image"@)
                ==> #[trigger] ai_bridge::image_model_of(m) == "dall-e-3"@,
{
    text::lemma_substring_between(before, "dall-e"@, after);
    text::lemma_substring_between(before, "image"@, after);
}

/// One image of the prompt is asked for.
pub proof fn law_image_request_holds_the_prompt(prompt: Seq<char>, model: Seq<char>)
    ensures
        ai_bridge::image_request(prompt, model).text_at("prompt"@) == Some(prompt),
        ai_bridge::image_request(prompt, model).text_at("model"@) == Some(
            ai_bridge::image_model_of(model),
        ),
        ai_bridge::image_request(prompt, model).at("n"@).unsigned() == Some(1nat),
{
    lemma_request_keys();
    reveal_with_fuel(json::member_from, 5);
    reveal_strlit("1");
    crate::number::law_decimal_round_trip(1, u64::MAX as nat);
    crate::number::lemma_decimal_digits(1);
    assert("1"@ =~= crate::number::decimal(1));
}

/// Images are made by the one service that can, where something is asked for; the address that it
/// gives is handed on, and its error otherwise.
pub proof fn law_images_need_their_service(
    args: Seq<char>,
    cfg: AiView,
    status: Seq<char>,
    data: JsonView,
)
    ensures
        ai_bridge::image_refusal(args, cfg) is None <==> text::trimmed(args).len() > 0 && cfg.provider
            == "openai"@,
        data.at("data"@).nth(0).text_at("url"@) matches Some(u) ==> ai_bridge::image_in(status, data)
            == Ok::<_, Seq<char>>(u),
        data.at("data"@).nth(0).text_at("url"@) is None ==> ai_bridge::image_in(status, data) is Err,
        data.at("data"@).nth(0).text_at("url"@) is None ==> (data.at("error"@).text_at(
            "message"@,
        ) matches Some(m) ==> ai_bridge::image_in(status, data) == Err::<Seq<char>, _>(
            "OpenAI Images API error ("@ + status + "): "@ + m,
        )),
{
}

} // verus!
