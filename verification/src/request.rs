//! What is asked of the model: the configuration of a chat and the request
//! that it makes of a conversation.

use vstd::prelude::*;

use crate::json;
use crate::json::{copy_all, Json, JsonView};
use crate::text;
use crate::text::trim_end_matches;

verus! {

/// How to reach the model, and which model.
pub struct ChatConfig {
    pub api_key: String,
    pub base_url: String,
    pub model: String,
    pub system_prompt: Option<String>,
    /// The providers to route to, in order. Where there are any, the router is
    /// told to fall back to no other.
    pub provider_order: Vec<String>,
}

/// The mathematical value of a `ChatConfig`.
pub struct ConfigView {
    pub api_key: Seq<char>,
    pub base_url: Seq<char>,
    pub model: Seq<char>,
    pub system_prompt: Option<Seq<char>>,
    pub provider_order: Seq<Seq<char>>,
}

impl View for ChatConfig {
    type V = ConfigView;

    open spec fn view(&self) -> ConfigView {
        ConfigView {
            api_key: self.api_key@,
            base_url: self.base_url@,
            model: self.model@,
            system_prompt: text::opt_string(self.system_prompt),
            provider_order: text::texts(self.provider_order@),
        }
    }
}

/// Where requests go.
pub open spec fn endpoint_view(base_url: Seq<char>) -> Seq<char> {
    text::without_end(base_url, '/') + "/chat/completions"@
}

/// `{order, allow_fallbacks: false}`.
pub open spec fn provider_view(order: Seq<Seq<char>>) -> JsonView {
    JsonView::Object(
        map![
            "order"@ => JsonView::Array(order.map_values(|name: Seq<char>| JsonView::Str(name))),
            "allow_fallbacks"@ => JsonView::Bool(false),
        ],
    )
}

/// The members of a request: the model and the whole conversation, the tools
/// where there are any, and the providers where any are named.
pub open spec fn body_members(
    cfg: ConfigView,
    tools: Seq<JsonView>,
    history: Seq<JsonView>,
) -> Map<Seq<char>, JsonView> {
    let bare = map!["model"@ => JsonView::Str(cfg.model), "messages"@ => JsonView::Array(history)];
    let with_tools = if tools.len() > 0 {
        bare.insert("tools"@, JsonView::Array(tools))
    } else {
        bare
    };
    if cfg.provider_order.len() > 0 {
        with_tools.insert("provider"@, provider_view(cfg.provider_order))
    } else {
        with_tools
    }
}

/// The body of a request.
pub open spec fn body_view(
    cfg: ConfigView,
    tools: Seq<JsonView>,
    history: Seq<JsonView>,
) -> JsonView {
    JsonView::Object(body_members(cfg, tools, history))
}

/// Where requests go.
pub fn endpoint(base_url: &str) -> (url: String)
    ensures
        url@ == endpoint_view(base_url@),
{
    trim_end_matches(base_url, '/').concat("/chat/completions")
}

fn provider(order: &Vec<String>) -> (json: Json)
    ensures
        json@ == provider_view(text::texts(order@)),
{
    let mut names: Vec<Json> = Vec::new();
    let mut i: usize = 0;
    while i < order.len()
        invariant
            i <= order@.len(),
            names@.len() == i,
            forall|k: int| 0 <= k < i ==> (#[trigger] names@[k])@ == JsonView::Str(order@[k]@),
        decreases order@.len() - i,
    {
        names.push(Json::text(order[i].as_str()));
        i += 1;
    }
    assert(json::views(names@) =~= text::texts(order@).map_values(
        |name: Seq<char>| JsonView::Str(name),
    ));
    Json::object().with("order", Json::array(names)).with("allow_fallbacks", Json::Bool(false))
}

/// The body of a request.
pub fn request_body(cfg: &ChatConfig, tools: &Vec<Json>, history: &Vec<Json>) -> (body: Json)
    ensures
        body@ == body_view(cfg@, json::views(tools@), json::views(history@)),
{
    let bare = Json::object().with("model", Json::text(cfg.model.as_str())).with(
        "messages",
        Json::array(copy_all(history)),
    );
    let with_tools = if tools.len() > 0 {
        bare.with("tools", Json::array(copy_all(tools)))
    } else {
        bare
    };
    if cfg.provider_order.len() > 0 {
        with_tools.with("provider", provider(&cfg.provider_order))
    } else {
        with_tools
    }
}

/// Every request carries the whole conversation. Providers are named where
/// some are preferred, and only there; where they are, the router must not
/// fall back to another. Tools are listed where there are any, and only there.
pub proof fn law_request_members(
    cfg: ConfigView,
    tools: Seq<JsonView>,
    history: Seq<JsonView>,
)
    ensures
        json::member(body_view(cfg, tools, history), "model"@) == Some(JsonView::Str(cfg.model)),
        json::member(body_view(cfg, tools, history), "messages"@) == Some(JsonView::Array(history)),
        json::member(body_view(cfg, tools, history), "tools"@) == (if tools.len() > 0 {
            Some(JsonView::Array(tools))
        } else {
            None
        }),
        json::member(body_view(cfg, tools, history), "provider"@) == (if cfg.provider_order.len()
            > 0 {
            Some(provider_view(cfg.provider_order))
        } else {
            None
        }),
        json::member(provider_view(cfg.provider_order), "allow_fallbacks"@) == Some(
            JsonView::Bool(false),
        ),
{
    reveal_strlit("model");
    reveal_strlit("messages");
    reveal_strlit("tools");
    reveal_strlit("provider");
    assert("model"@.len() == 5 && "model"@[0] == 'm');
    assert("tools"@.len() == 5 && "tools"@[0] == 't');
    assert("messages"@[1] == 'e' && "provider"@[1] == 'r');
}

/// The value of a configuration has all that the configuration has.
pub proof fn law_config_seen(cfg: ChatConfig)
    ensures
        cfg@.api_key == cfg.api_key@,
        cfg@.base_url == cfg.base_url@,
        cfg@.model == cfg.model@,
        cfg@.system_prompt == text::opt_string(cfg.system_prompt),
        cfg@.provider_order == text::texts(cfg.provider_order@),
{
}

/// Requests go to the completions below the base URL, with one slash between
/// the two, however many the base URL ends with.
pub proof fn law_endpoint(base_url: Seq<char>, slashes: nat)
    requires
        base_url.len() == 0 || base_url.last() != '/',
    ensures
        endpoint_view(base_url + Seq::new(slashes, |i: int| '/')) == base_url
            + "/chat/completions"@,
        endpoint_view(base_url) == base_url + "/chat/completions"@,
{
    text::law_without_end(base_url, '/', slashes);
    text::law_without_end(base_url, '/', 0);
    assert(base_url + Seq::new(0, |i: int| '/') =~= base_url);
}

} // verus!
