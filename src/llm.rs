//! The provider adapter: builds the request for the configured provider family
//! and reads its answer back into plain text.
use vstd::prelude::*;
use crate::config::AppConfig;
use crate::errors::AppError;
use crate::json::{
    array_len_in, bool_in, element_of, field, field_of, first_of, lemma_member_absent, member,
    member_at, member_names, number_in, object_len_in, set_member, text_in, Json,
};

verus! {

/// The two request/response shapes that providers speak.
#[derive(PartialEq, Eq, Structural, Clone, Copy, Debug)]
pub enum ProviderFamily {
    /// The "structured responses" style (`/v1/responses`).
    OpenAi,
    /// The "chat completion" style of a local Ollama server.
    Ollama,
}

/// Longest response, in characters, that is passed on whole.
pub const MAX_RESPONSE_CHARS: usize = 2000;

/// The placeholder of a prompt template that stands for the input text.
pub const INPUT_PLACEHOLDER: &'static str = "{input}";

/// The configuration key that must never reach a provider.
pub const TEMPLATE_KEY: &'static str = "prompt_template";

/// The instruction that every request carries.
pub const SYSTEM_INSTRUCTION: &'static str = "You are a text improvement tool that corrects grammar and improves clarity without adding conversational elements. Follow the instructions exactly.";

/// Whether `p` occurs in `s`.
pub open spec fn occurs_in(s: Seq<char>, p: Seq<char>) -> bool {
    exists|i: int| 0 <= i && i + p.len() <= s.len() && #[trigger] s.subrange(i, i + p.len()) == p
}

/// `s` with every occurrence of the non-empty `p`, found from left to right
/// without overlap, replaced by `with`.
pub open spec fn replace_all(s: Seq<char>, p: Seq<char>, with: Seq<char>) -> Seq<char>
    decreases s.len(),
{
    if p.len() == 0 || s.len() < p.len() {
        s
    } else if s.subrange(0, p.len() as int) == p {
        with + replace_all(s.subrange(p.len() as int, s.len() as int), p, with)
    } else {
        seq![s[0]] + replace_all(s.drop_first(), p, with)
    }
}

/// Whether `t` is a contiguous part of `s`.
pub open spec fn is_slice_of(t: Seq<char>, s: Seq<char>) -> bool {
    exists|i: int, j: int| 0 <= i <= j <= s.len() && t == #[trigger] s.subrange(i, j)
}

/// What `str::trim` leaves of `s`.
pub uninterp spec fn trimmed(s: Seq<char>) -> Seq<char>;

/// Relies on `str::contains` with a string pattern: whether `p` occurs in `s`.
#[verifier::external_body]
fn str_contains(s: &str, p: &str) -> (r: bool)
    ensures
        r == occurs_in(s@, p@),
{
    s.contains(p)
}

/// Relies on `str::replace` with a string pattern: every match, found from
/// left to right without overlap, is replaced.
#[verifier::external_body]
fn str_replace(s: &str, p: &str, with: &str) -> (r: String)
    requires
        p@.len() > 0,
    ensures
        r@ == replace_all(s@, p@, with@),
{
    s.replace(p, with)
}

/// Relies on `str::trim`: `s` without leading and trailing white space, a
/// slice of `s` that depends on the characters alone.
#[verifier::external_body]
fn str_trim(s: &str) -> (r: &str)
    ensures
        r@ == trimmed(s@),
        is_slice_of(r@, s@),
{
    s.trim()
}

/// The family a provider URL belongs to: a URL that names Ollama or its
/// default local port is Ollama's; any other is the OpenAI style.
pub open spec fn family_of(url: Seq<char>) -> ProviderFamily {
    if occurs_in(url, "ollama"@) || occurs_in(url, "localhost:11434"@) {
        ProviderFamily::Ollama
    } else {
        ProviderFamily::OpenAi
    }
}

/// The prompt sent for `text`: the template with its placeholder replaced, or
/// the text itself when there is no template.
pub open spec fn prompt_of(text: Seq<char>, template: Option<Seq<char>>) -> Seq<char> {
    match template {
        Some(t) => replace_all(t, INPUT_PLACEHOLDER@, text),
        None => text,
    }
}

/// A response cut to its first `MAX_RESPONSE_CHARS` characters, with a
/// marker, when it is longer.
pub open spec fn truncated(t: Seq<char>) -> Seq<char> {
    if t.len() > MAX_RESPONSE_CHARS {
        t.subrange(0, MAX_RESPONSE_CHARS as int) + "..."@
    } else {
        t
    }
}

/// The text of an Ollama chat answer: `message.content`.
pub open spec fn ollama_text(v: Json) -> Option<Seq<char>> {
    text_in(field_of(field(v, "message"@), "content"@))
}

/// The text of an OpenAI responses answer: `output[0].content[0].text`.
pub open spec fn openai_text(v: Json) -> Option<Seq<char>> {
    text_in(field_of(first_of(field_of(first_of(field(v, "output"@)), "content"@)), "text"@))
}

/// The text that the parser for `family` finds in an answer.
pub open spec fn answer_text(family: ProviderFamily, v: Json) -> Option<Seq<char>> {
    match family {
        ProviderFamily::Ollama => ollama_text(v),
        ProviderFamily::OpenAi => openai_text(v),
    }
}

/// The value a request member `k` takes once the caller's overrides are laid
/// over `base`: an override wins, except one that would set the template.
pub open spec fn overlaid(base: Seq<(String, Json)>, overrides: Seq<(String, Json)>, k: Seq<char>) -> Option<Json> {
    if k != TEMPLATE_KEY@ && member(overrides, k) is Some {
        member(overrides, k)
    } else {
        member(base, k)
    }
}

/// Whether `body` is a request of `family` for `model` that carries `prompt`
/// and the system instruction.
pub open spec fn carries_request(body: Json, family: ProviderFamily, model: Seq<char>, prompt: Seq<char>) -> bool {
    &&& body is Object
    &&& text_in(field(body, "model"@)) == Some(model)
    &&& match family {
        ProviderFamily::Ollama => {
            let messages = field(body, "messages"@);
            &&& text_in(field_of(element_of(messages, 0), "content"@)) == Some(SYSTEM_INSTRUCTION@)
            &&& text_in(field_of(element_of(messages, 1), "content"@)) == Some(prompt)
        },
        ProviderFamily::OpenAi => {
            let input = field(body, "input"@);
            &&& text_in(field_of(first_of(field_of(element_of(input, 0), "content"@)), "text"@))
                == Some(SYSTEM_INSTRUCTION@)
            &&& text_in(field_of(first_of(field_of(element_of(input, 1), "content"@)), "text"@))
                == Some(prompt)
        },
    }
}

/// Whether `body` holds exactly the members that `family` sends by default,
/// in this order, with their default values, and no prompt template.
pub open spec fn default_members(body: Json, family: ProviderFamily) -> bool {
    &&& field(body, TEMPLATE_KEY@) is None
    &&& match family {
        ProviderFamily::Ollama => {
            let messages = field(body, "messages"@);
            &&& member_names(body) == seq![
                "temperature"@,
                "top_p"@,
                "stream"@,
                "messages"@,
                "model"@,
            ]
            &&& number_in(member_at(body, 0)) == Some("0.3"@)
            &&& number_in(member_at(body, 1)) == Some("0.8"@)
            &&& bool_in(member_at(body, 2)) == Some(false)
            &&& array_len_in(messages) == Some(2nat)
            &&& text_in(field_of(element_of(messages, 0), "role"@)) == Some("system"@)
            &&& text_in(field_of(element_of(messages, 1), "role"@)) == Some("user"@)
        },
        ProviderFamily::OpenAi => {
            let input = field(body, "input"@);
            let format = field_of(member_at(body, 0), "format"@);
            &&& member_names(body) == seq![
                "text"@,
                "reasoning"@,
                "tools"@,
                "temperature"@,
                "max_output_tokens"@,
                "top_p"@,
                "store"@,
                "input"@,
                "model"@,
            ]
            &&& object_len_in(member_at(body, 0)) == Some(1nat)
            &&& object_len_in(format) == Some(1nat)
            &&& text_in(field_of(format, "type"@)) == Some("text"@)
            &&& object_len_in(member_at(body, 1)) == Some(0nat)
            &&& array_len_in(member_at(body, 2)) == Some(0nat)
            &&& number_in(member_at(body, 3)) == Some("0.7"@)
            &&& number_in(member_at(body, 4)) == Some("2048"@)
            &&& number_in(member_at(body, 5)) == Some("0.8"@)
            &&& bool_in(member_at(body, 6)) == Some(true)
            &&& array_len_in(input) == Some(2nat)
            &&& text_in(field_of(element_of(input, 0), "role"@)) == Some("system"@)
            &&& text_in(field_of(element_of(input, 1), "role"@)) == Some("user"@)
            &&& text_in(field_of(first_of(field_of(element_of(input, 0), "content"@)), "type"@))
                == Some("input_text"@)
            &&& text_in(field_of(first_of(field_of(element_of(input, 1), "content"@)), "type"@))
                == Some("input_text"@)
        },
    }
}

/// Classifies a provider URL.
pub fn classify_provider(url: &str) -> (r: ProviderFamily)
    ensures
        r == family_of(url@),
{
    if str_contains(url, "ollama") || str_contains(url, "localhost:11434") {
        ProviderFamily::Ollama
    } else {
        ProviderFamily::OpenAi
    }
}

/// The prompt for `text` under an optional template.
pub fn apply_template(text: &str, template: Option<&str>) -> (r: String)
    ensures
        r@ == prompt_of(
            text@,
            match template {
                Some(t) => Some(t@),
                None => None,
            },
        ),
{
    match template {
        Some(t) => {
            proof {
                reveal_strlit("{input}");
            }
            str_replace(t, INPUT_PLACEHOLDER, text)
        },
        None => String::from_str(text),
    }
}

/// Cuts a response longer than `MAX_RESPONSE_CHARS` characters and marks the cut.
pub fn truncate_response(t: &str) -> (r: String)
    ensures
        r@ == truncated(t@),
{
    let n = t.unicode_len();
    if n > MAX_RESPONSE_CHARS {
        let head = String::from_str(t.substring_char(0, MAX_RESPONSE_CHARS));
        head.concat("...")
    } else {
        String::from_str(t)
    }
}

/// The answer text as returned to the caller: trimmed, then cut.
pub fn finish_text(raw: &str) -> (r: String)
    ensures
        r@ == truncated(trimmed(raw@)),
        trimmed(raw@).len() <= raw@.len(),
{
    truncate_response(str_trim(raw))
}

/// The text that the parser for `family` finds in an answer; only the shape
/// of that family is tried.
pub fn extract_text(family: ProviderFamily, v: &Json) -> (r: Option<String>)
    ensures
        r matches Some(s) ==> answer_text(family, *v) == Some(s@),
        r is None ==> answer_text(family, *v) is None,
{
    match family {
        ProviderFamily::Ollama => {
            match v.get("message") {
                Some(m) => match m.get("content") {
                    Some(c) => match c.as_str() {
                        Some(s) => Some(String::from_str(s)),
                        None => None,
                    },
                    None => None,
                },
                None => None,
            }
        },
        ProviderFamily::OpenAi => {
            match v.get("output") {
                Some(o) => match o.first() {
                    Some(o0) => match o0.get("content") {
                        Some(c) => match c.first() {
                            Some(c0) => match c0.get("text") {
                                Some(t) => match t.as_str() {
                                    Some(s) => Some(String::from_str(s)),
                                    None => None,
                                },
                                None => None,
                            },
                            None => None,
                        },
                        None => None,
                    },
                    None => None,
                },
                None => None,
            }
        },
    }
}

/// Whether `body` is the request body for `family`, `model` and `prompt`, with
/// its default members, and with the configured overrides laid over it.
pub open spec fn request_body(body: Json, family: ProviderFamily, model: Seq<char>, prompt: Seq<char>, params: Option<Json>) -> bool {
    exists|base: Json|
        #![trigger carries_request(base, family, model, prompt)]
        carries_request(base, family, model, prompt) && default_members(base, family)
            && overlay_of(base, params, body)
}

/// Whether `r` is `body` with the members of the object `params` laid over it
/// (no change when either is not an object).
pub open spec fn overlay_of(body: Json, params: Option<Json>, r: Json) -> bool {
    match (body, params) {
        (Json::Object(b), Some(Json::Object(p))) => r is Object && forall|k: Seq<char>|
            #![trigger field(r, k)]
            field(r, k) == overlaid(b@, p@, k),
        _ => r == body,
    }
}

/// A request ready to be sent.
#[derive(Debug)]
pub struct ProviderRequest {
    pub url: String,
    pub family: ProviderFamily,
    pub body: Json,
    /// The `Authorization` header, when the provider needs one.
    pub authorization: Option<String>,
    /// The `OpenAI-Organization` header, when configured.
    pub organization: Option<String>,
    /// The `OpenAI-Project` header, when configured.
    pub project: Option<String>,
}

fn text_value(s: &str) -> (r: Json)
    ensures
        text_in(Some(r)) == Some(s@),
{
    Json::Str(String::from_str(s))
}

fn number_value(s: &str) -> (r: Json)
    ensures
        number_in(Some(r)) == Some(s@),
{
    Json::Number(String::from_str(s))
}

fn object(fields: Vec<(String, Json)>) -> (r: Json)
    ensures
        r == Json::Object(fields),
{
    Json::Object(fields)
}

/// `{"role": role, "content": content}`.
fn role_message(role: &str, content: Json) -> (r: Json)
    ensures
        field(r, "content"@) == Some(content),
        text_in(field(r, "role"@)) == Some(role@),
{
    let ghost c = content;
    let fields = vec![
        (String::from_str("role"), text_value(role)),
        (String::from_str("content"), content),
    ];
    proof {
        reveal_strlit("content");
        reveal_strlit("role");
        assert(fields@.last().0@ == "content"@);
        assert(fields@.last().0@ != "role"@);
        assert(fields@.drop_last().last().0@ == "role"@);
        assert(member(fields@.drop_last(), "role"@) == Some(fields@[0].1));
        assert(member(fields@, "role"@) == member(fields@.drop_last(), "role"@));
    }
    Json::Object(fields)
}

/// `[{"type": "input_text", "text": text}]`.
fn input_text(text: &str) -> (r: Json)
    ensures
        text_in(field_of(first_of(Some(r)), "text"@)) == Some(text@),
        text_in(field_of(first_of(Some(r)), "type"@)) == Some("input_text"@),
        array_len_in(Some(r)) == Some(1nat),
{
    let fields = vec![
        (String::from_str("type"), text_value("input_text")),
        (String::from_str("text"), text_value(text)),
    ];
    proof {
        reveal_strlit("text");
        reveal_strlit("type");
        assert(fields@.last().0@ == "text"@);
        assert("text"@[1] != "type"@[1]);
        assert(fields@.last().0@ != "type"@);
        assert(fields@.drop_last().last().0@ == "type"@);
        assert(member(fields@.drop_last(), "type"@) == Some(fields@[0].1));
        assert(member(fields@, "type"@) == member(fields@.drop_last(), "type"@));
    }
    Json::Array(vec![Json::Object(fields)])
}

/// The request body that `family` expects, before overrides.
pub fn build_payload(family: ProviderFamily, model: &str, prompt: &str) -> (r: Json)
    ensures
        carries_request(r, family, model@, prompt@),
        default_members(r, family),
{
    proof {
        reveal_strlit("model");
        reveal_strlit("messages");
        reveal_strlit("input");
        reveal_strlit("prompt_template");
        reveal_strlit("temperature");
        reveal_strlit("top_p");
        reveal_strlit("stream");
        reveal_strlit("text");
        reveal_strlit("reasoning");
        reveal_strlit("tools");
        reveal_strlit("max_output_tokens");
        reveal_strlit("store");
    }
    match family {
        ProviderFamily::Ollama => {
            let messages = Json::Array(
                vec![
                    role_message("system", text_value(SYSTEM_INSTRUCTION)),
                    role_message("user", text_value(prompt)),
                ],
            );
            let ghost m = messages;
            let fields = vec![
                (String::from_str("temperature"), number_value("0.3")),
                (String::from_str("top_p"), number_value("0.8")),
                (String::from_str("stream"), Json::Bool(false)),
                (String::from_str("messages"), messages),
                (String::from_str("model"), text_value(model)),
            ];
            proof {
                assert(fields@.drop_last().last().0@ == "messages"@);
                assert(fields@.drop_last().last().0@ != "model"@);
                assert(member(fields@.drop_last(), "messages"@) == Some(m));
                assert(member(fields@, "messages"@) == Some(m));
                lemma_member_absent(fields@, TEMPLATE_KEY@);
                assert(fields@.map_values(|p: (String, Json)| p.0@) =~= seq![
                    "temperature"@,
                    "top_p"@,
                    "stream"@,
                    "messages"@,
                    "model"@,
                ]);
            }
            Json::Object(fields)
        },
        ProviderFamily::OpenAi => {
            let input = Json::Array(
                vec![
                    role_message("system", input_text(SYSTEM_INSTRUCTION)),
                    role_message("user", input_text(prompt)),
                ],
            );
            let format = vec![(String::from_str("type"), text_value("text"))];
            proof {
                reveal_strlit("type");
                reveal_strlit("format");
                assert(format@.last().0@ == "type"@);
            }
            let format_value = object(format);
            let ghost fv = format_value;
            let text = vec![(String::from_str("format"), format_value)];
            proof {
                assert(text@.last().0@ == "format"@);
                assert(member(text@, "format"@) == Some(fv));
            }
            let ghost inp = input;
            let fields = vec![
                (String::from_str("text"), object(text)),
                (String::from_str("reasoning"), object(Vec::new())),
                (String::from_str("tools"), Json::Array(Vec::new())),
                (String::from_str("temperature"), number_value("0.7")),
                (String::from_str("max_output_tokens"), number_value("2048")),
                (String::from_str("top_p"), number_value("0.8")),
                (String::from_str("store"), Json::Bool(true)),
                (String::from_str("input"), input),
                (String::from_str("model"), text_value(model)),
            ];
            proof {
                assert(fields@.drop_last().last().0@ == "input"@);
                assert("input"@[0] != "model"@[0]);
                assert(fields@.drop_last().last().0@ != "model"@);
                assert(member(fields@.drop_last(), "input"@) == Some(inp));
                assert(member(fields@, "input"@) == Some(inp));
                lemma_member_absent(fields@, TEMPLATE_KEY@);
                assert(fields@.map_values(|p: (String, Json)| p.0@) =~= seq![
                    "text"@,
                    "reasoning"@,
                    "tools"@,
                    "temperature"@,
                    "max_output_tokens"@,
                    "top_p"@,
                    "store"@,
                    "input"@,
                    "model"@,
                ]);
            }
            Json::Object(fields)
        },
    }
}

/// Lays the members of `params` over the request body; a member that would
/// set the prompt template is left out. Either value not being an object
/// leaves the body as it is.
pub fn overlay_params(body: Json, params: Option<Json>) -> (r: Json)
    ensures
        overlay_of(body, params, r),
{
    let ghost body0 = body;
    let ghost params0 = params;
    match body {
        Json::Object(mut fields) => {
            match params {
                Some(Json::Object(mut overrides)) => {
                    let ghost base_fields = fields@;
                    let ghost given = overrides@;
                    let ghost mut i: int = 0;
                    proof {
                        assert forall|k: Seq<char>| #[trigger]
                            member(fields@, k) == overlaid(base_fields, given.subrange(0, 0), k) by {
                            assert(given.subrange(0, 0).len() == 0);
                        }
                    }
                    while overrides.len() > 0
                        invariant
                            0 <= i <= given.len(),
                            overrides@ == given.subrange(i, given.len() as int),
                            forall|k: Seq<char>| #[trigger]
                                member(fields@, k) == overlaid(base_fields, given.subrange(0, i), k),
                        decreases overrides.len(),
                    {
                        let (key, value) = overrides.remove(0);
                        let ghost e = given[i];
                        let ghost before = fields@;
                        proof {
                            assert(e == (key, value));
                            let q = given.subrange(0, i + 1);
                            assert(q.drop_last() =~= given.subrange(0, i));
                            assert(q.last() == e);
                        }
                        if !same_text_key(&key) {
                            set_member(&mut fields, key, value);
                        }
                        proof {
                            i = i + 1;
                            assert(overrides@ =~= given.subrange(i, given.len() as int));
                            assert forall|k: Seq<char>| #[trigger]
                                member(fields@, k) == overlaid(base_fields, given.subrange(0, i), k) by {
                                assert(member(before, k) == overlaid(base_fields, given.subrange(0, i - 1), k));
                            }
                        }
                    }
                    proof {
                        assert(given.subrange(0, i) =~= given);
                    }
                    Json::Object(fields)
                },
                _ => Json::Object(fields),
            }
        },
        other => other,
    }
}

fn same_text_key(key: &String) -> (r: bool)
    ensures
        r == (key@ == TEMPLATE_KEY@),
{
    crate::json::same_text(key.as_str(), TEMPLATE_KEY)
}

fn opt_view(s: &Option<String>) -> (r: Option<&str>)
    ensures
        match r {
            Some(t) => s matches Some(x) && t@ == x@,
            None => s is None,
        },
{
    match s {
        Some(x) => Some(x.as_str()),
        None => None,
    }
}

/// The characters of an optional string.
pub open spec fn chars_of(s: Option<String>) -> Option<Seq<char>> {
    match s {
        Some(x) => Some(x@),
        None => None,
    }
}

/// Builds the request for `text`: the prompt from the template, the body of
/// the configured family with the overrides laid over it, and the headers.
/// A provider of the OpenAI family needs an API key; without one the request
/// fails with `MissingCredential`.
pub fn prepare_request(text: &str, config: AppConfig) -> (r: Result<ProviderRequest, AppError>)
    ensures
        (family_of(config.llm_url@) == ProviderFamily::OpenAi && config.openai_api_key is None)
            <==> r is Err,
        r is Err ==> r matches Err(AppError::MissingCredential),
        r matches Ok(req) ==> {
            &&& req.url@ == config.llm_url@
            &&& req.family == family_of(config.llm_url@)
            &&& field(req.body, TEMPLATE_KEY@) is None
            &&& request_body(
                req.body,
                req.family,
                config.model_name@,
                prompt_of(text@, chars_of(config.prompt_template)),
                config.llm_params,
            )
            &&& match req.family {
                ProviderFamily::OpenAi => {
                    &&& config.openai_api_key matches Some(key) && req.authorization matches Some(
                        a,
                    ) && a@ == "Bearer "@ + key@
                    &&& req.organization == config.openai_org_id
                    &&& req.project == config.openai_project_id
                },
                ProviderFamily::Ollama => {
                    &&& req.authorization is None
                    &&& req.organization is None
                    &&& req.project is None
                },
            }
        },
{
    let family = classify_provider(config.llm_url.as_str());
    let prompt = apply_template(text, opt_view(&config.prompt_template));
    let base = build_payload(family, config.model_name.as_str(), prompt.as_str());
    let ghost base0 = base;
    let body = overlay_params(base, config.llm_params);
    proof {
        assert(field(body, TEMPLATE_KEY@) is None);
        assert(carries_request(
            base0,
            family,
            config.model_name@,
            prompt_of(text@, chars_of(config.prompt_template)),
        ));
    }
    match family {
        ProviderFamily::OpenAi => {
            match config.openai_api_key {
                Some(key) => {
                    let authorization = String::from_str("Bearer ").concat(key.as_str());
                    Ok(
                        ProviderRequest {
                            url: config.llm_url,
                            family,
                            body,
                            authorization: Some(authorization),
                            organization: config.openai_org_id,
                            project: config.openai_project_id,
                        },
                    )
                },
                None => Err(AppError::MissingCredential),
            }
        },
        ProviderFamily::Ollama => Ok(
            ProviderRequest {
                url: config.llm_url,
                family,
                body,
                authorization: None,
                organization: None,
                project: None,
            },
        ),
    }
}

/// Whether an HTTP status reports success.
pub open spec fn is_success(status: u16) -> bool {
    200 <= status <= 299
}

/// Reads the provider's answer: a failure status is an `UpstreamStatus`
/// error with the body as received; on success, the shape of the configured
/// family must hold the text, which is trimmed and cut; otherwise the answer
/// is an `UnrecognizedFormat` error carrying the body.
pub fn interpret_response(family: ProviderFamily, status: u16, body_text: String, body: Option<Json>) -> (r: Result<String, AppError>)
    ensures
        !is_success(status) ==> (r matches Err(AppError::UpstreamStatus { status: s, body: b })
            && s == status && b@ == body_text@),
        is_success(status) ==> match body {
            Some(v) => match answer_text(family, v) {
                Some(t) => r matches Ok(s) && s@ == truncated(trimmed(t)),
                None => r matches Err(AppError::UnrecognizedFormat(b)) && b@ == body_text@,
            },
            None => r matches Err(AppError::UnrecognizedFormat(b)) && b@ == body_text@,
        },
{
    if status < 200 || status > 299 {
        return Err(AppError::UpstreamStatus { status, body: body_text });
    }
    match body {
        Some(v) => match extract_text(family, &v) {
            Some(t) => Ok(finish_text(t.as_str())),
            None => Err(AppError::UnrecognizedFormat(body_text)),
        },
        None => Err(AppError::UnrecognizedFormat(body_text)),
    }
}

/// A text longer than the limit comes back as exactly its first
/// `MAX_RESPONSE_CHARS` characters followed by the marker `...`; a text within
/// the limit comes back unchanged.
pub proof fn law_truncation(t: Seq<char>)
    ensures
        t.len() > MAX_RESPONSE_CHARS ==> {
            &&& truncated(t).len() == MAX_RESPONSE_CHARS + 3
            &&& truncated(t).subrange(0, MAX_RESPONSE_CHARS as int) == t.subrange(
                0,
                MAX_RESPONSE_CHARS as int,
            )
            &&& truncated(t).subrange(MAX_RESPONSE_CHARS as int, MAX_RESPONSE_CHARS + 3) == "..."@
        },
        t.len() <= MAX_RESPONSE_CHARS ==> truncated(t) == t,
{
    reveal_strlit("...");
    if t.len() > MAX_RESPONSE_CHARS {
        let r = truncated(t);
        assert(r.subrange(0, MAX_RESPONSE_CHARS as int) =~= t.subrange(0, MAX_RESPONSE_CHARS as int));
        assert(r.subrange(MAX_RESPONSE_CHARS as int, MAX_RESPONSE_CHARS + 3) =~= "..."@);
    }
}

/// An answer that fits the shapes of both families is read with the shape of
/// the family the provider URL names, never with the other.
pub proof fn law_format_follows_family(url: Seq<char>, v: Json)
    requires
        ollama_text(v) is Some,
        openai_text(v) is Some,
    ensures
        family_of(url) == ProviderFamily::Ollama ==> answer_text(family_of(url), v) == ollama_text(v),
        family_of(url) == ProviderFamily::OpenAi ==> answer_text(family_of(url), v) == openai_text(v),
{
}

} // verus!
