//! The provider abstraction: a closed set of backend variants, the
//! configuration built once at startup, and the translation of a
//! conversation into a backend-specific HTTP request.

use vstd::prelude::*;
use crate::conversation::{Conversation, Message, Role, role_name};
use crate::error::LumenError;
use crate::json::{json_escape, json_escape_seq};

verus! {

/// The fixed set of supported completion backends.
#[derive(Clone, Copy, PartialEq, Eq, Structural, Debug)]
pub enum ProviderVariant {
    Openai,
    Phind,
    Groq,
    Claude,
    Ollama,
}

/// Variants that refuse to work without a credential. Phind and Ollama
/// (a local backend) need none.
pub open spec fn requires_api_key(v: ProviderVariant) -> bool {
    match v {
        ProviderVariant::Openai => true,
        ProviderVariant::Groq => true,
        ProviderVariant::Claude => true,
        ProviderVariant::Phind => false,
        ProviderVariant::Ollama => false,
    }
}

/// The one endpoint of each variant.
pub open spec fn spec_endpoint(v: ProviderVariant) -> Seq<char> {
    match v {
        ProviderVariant::Openai => "https://api.openai.com/v1/chat/completions"@,
        ProviderVariant::Phind => "https://https.extension.phind.com/agent/"@,
        ProviderVariant::Groq => "https://api.groq.com/openai/v1/chat/completions"@,
        ProviderVariant::Claude => "https://api.anthropic.com/v1/messages"@,
        ProviderVariant::Ollama => "http://localhost:11434/api/chat"@,
    }
}

/// The model each variant falls back to when no override is given.
pub open spec fn spec_default_model(v: ProviderVariant) -> Seq<char> {
    match v {
        ProviderVariant::Openai => "gpt-4o-mini"@,
        ProviderVariant::Phind => "Phind-70B"@,
        ProviderVariant::Groq => "llama3-70b-8192"@,
        ProviderVariant::Claude => "haiku"@,
        ProviderVariant::Ollama => "llama3.2"@,
    }
}

/// Process-scoped provider configuration; immutable once constructed.
#[derive(Clone, Debug)]
pub struct ProviderConfig {
    pub variant: ProviderVariant,
    pub api_key: Option<String>,
    pub model: Option<String>,
}

impl ProviderConfig {
    /// A variant that requires an API key holds one.
    pub open spec fn wf(self) -> bool {
        requires_api_key(self.variant) ==> self.api_key is Some
    }

    /// Builds the configuration, failing when `variant` mandates a key and
    /// none was given.
    pub fn new(variant: ProviderVariant, api_key: Option<String>, model: Option<String>) -> (r:
        Result<ProviderConfig, LumenError>)
        ensures
            match r {
                Ok(c) => {
                    &&& !(requires_api_key(variant) && api_key is None)
                    &&& c.variant == variant
                    &&& c.api_key == api_key
                    &&& c.model == model
                    &&& c.wf()
                },
                Err(e) => {
                    &&& requires_api_key(variant) && api_key is None
                    &&& e matches LumenError::ProviderConfigError(_)
                },
            },
    {
        let needs_key = match variant {
            ProviderVariant::Openai => true,
            ProviderVariant::Groq => true,
            ProviderVariant::Claude => true,
            ProviderVariant::Phind => false,
            ProviderVariant::Ollama => false,
        };
        if needs_key && api_key.is_none() {
            Err(
                LumenError::ProviderConfigError(
                    String::from_str("this provider requires an API key"),
                ),
            )
        } else {
            Ok(ProviderConfig { variant, api_key, model })
        }
    }

    /// The model the requests will name: the override when present, else
    /// the variant's default.
    pub open spec fn spec_model(self) -> Seq<char> {
        match self.model {
            Some(m) => m@,
            None => spec_default_model(self.variant),
        }
    }
}

/// The authentication header a request carries: name and value, or none
/// for backends without authentication.
pub open spec fn spec_auth(c: ProviderConfig) -> Option<(Seq<char>, Seq<char>)> {
    match c.variant {
        ProviderVariant::Openai => Some(("Authorization"@, "Bearer "@ + c.api_key->0@)),
        ProviderVariant::Groq => Some(("Authorization"@, "Bearer "@ + c.api_key->0@)),
        ProviderVariant::Claude => Some(("x-api-key"@, c.api_key->0@)),
        ProviderVariant::Phind => None,
        ProviderVariant::Ollama => None,
    }
}

/// The JSON object for one role-tagged text of a chat-style payload.
pub open spec fn message_json(m: (Role, Seq<char>)) -> Seq<char> {
    "{\"role\":\""@ + role_name(m.0) + "\",\"content\":\""@ + json_escape_seq(m.1) + "\"}"@
}

/// The comma-separated message array body, in conversation order.
pub open spec fn messages_json(msgs: Seq<(Role, Seq<char>)>) -> Seq<char>
    decreases msgs.len(),
{
    if msgs.len() == 0 {
        Seq::empty()
    } else if msgs.len() == 1 {
        message_json(msgs[0])
    } else {
        messages_json(msgs.drop_last()) + seq![','] + message_json(msgs.last())
    }
}

/// The single concatenated prompt string used by a prompt-style payload:
/// the message texts in order, separated by blank lines.
pub open spec fn flat_prompt(msgs: Seq<(Role, Seq<char>)>) -> Seq<char>
    decreases msgs.len(),
{
    if msgs.len() == 0 {
        Seq::empty()
    } else if msgs.len() == 1 {
        msgs[0].1
    } else {
        flat_prompt(msgs.drop_last()) + "\n\n"@ + msgs.last().1
    }
}

/// A chat-array payload (all variants but Phind).
pub open spec fn chat_body(c: ProviderConfig, msgs: Seq<(Role, Seq<char>)>) -> Seq<char> {
    "{\"model\":\""@ + json_escape_seq(c.spec_model()) + "\",\"messages\":["@ + messages_json(
        msgs,
    ) + "],\"stream\":true}"@
}

/// A single-prompt payload (Phind).
pub open spec fn prompt_body(c: ProviderConfig, msgs: Seq<(Role, Seq<char>)>) -> Seq<char> {
    "{\"model\":\""@ + json_escape_seq(c.spec_model()) + "\",\"prompt\":\""@ + json_escape_seq(
        flat_prompt(msgs),
    ) + "\",\"stream\":true}"@
}

/// The request body each variant gets.
pub open spec fn spec_body(c: ProviderConfig, msgs: Seq<(Role, Seq<char>)>) -> Seq<char> {
    if c.variant == ProviderVariant::Phind {
        prompt_body(c, msgs)
    } else {
        chat_body(c, msgs)
    }
}

/// A fully-determined HTTP request: endpoint, optional authentication
/// header, JSON body. Sending it is the caller's affair.
#[derive(Clone, Debug)]
pub struct RequestSpec {
    pub url: String,
    pub auth: Option<(String, String)>,
    pub body: String,
}

/// Renders `spec_endpoint`.
pub fn endpoint(v: ProviderVariant) -> (r: String)
    ensures
        r@ == spec_endpoint(v),
{
    match v {
        ProviderVariant::Openai => String::from_str("https://api.openai.com/v1/chat/completions"),
        ProviderVariant::Phind => String::from_str("https://https.extension.phind.com/agent/"),
        ProviderVariant::Groq => String::from_str("https://api.groq.com/openai/v1/chat/completions"),
        ProviderVariant::Claude => String::from_str("https://api.anthropic.com/v1/messages"),
        ProviderVariant::Ollama => String::from_str("http://localhost:11434/api/chat"),
    }
}

/// Renders `spec_default_model`.
pub fn default_model(v: ProviderVariant) -> (r: String)
    ensures
        r@ == spec_default_model(v),
{
    match v {
        ProviderVariant::Openai => String::from_str("gpt-4o-mini"),
        ProviderVariant::Phind => String::from_str("Phind-70B"),
        ProviderVariant::Groq => String::from_str("llama3-70b-8192"),
        ProviderVariant::Claude => String::from_str("haiku"),
        ProviderVariant::Ollama => String::from_str("llama3.2"),
    }
}

fn role_str(r: Role) -> (s: String)
    ensures
        s@ == role_name(r),
{
    match r {
        Role::System => String::from_str("system"),
        Role::User => String::from_str("user"),
        Role::Assistant => String::from_str("assistant"),
    }
}

fn message_json_ex(m: &Message) -> (r: String)
    ensures
        r@ == message_json((m.role, m.text@)),
{
    proof {
        reveal_strlit("{\"role\":\"");
        reveal_strlit("\",\"content\":\"");
        reveal_strlit("\"}");
    }
    let mut r = String::from_str("{\"role\":\"");
    let role = role_str(m.role);
    r.append(role.as_str());
    r.append("\",\"content\":\"");
    let esc = json_escape(m.text.as_str());
    r.append(esc.as_str());
    r.append("\"}");
    r
}

fn messages_json_ex(msgs: &Vec<Message>) -> (r: String)
    ensures
        r@ == messages_json(msgs@.map_values(|m: Message| (m.role, m.text@))),
{
    let ghost mv = msgs@.map_values(|m: Message| (m.role, m.text@));
    let n = msgs.len();
    let mut r = String::new();
    let mut i: usize = 0;
    while i < n
        invariant
            n == msgs@.len(),
            mv == msgs@.map_values(|m: Message| (m.role, m.text@)),
            i <= n,
            r@ == messages_json(mv.take(i as int)),
        decreases n - i,
    {
        if i > 0 {
            proof {
                reveal_strlit(",");
            }
            r.append(",");
        }
        let mj = message_json_ex(&msgs[i]);
        r.append(mj.as_str());
        proof {
            let t = mv.take(i + 1);
            assert(t.drop_last() =~= mv.take(i as int));
            assert(t.last() == mv[i as int]);
            assert(mv[i as int] == (msgs@[i as int].role, msgs@[i as int].text@));
            if i == 0 {
                assert(t[0] == mv[0]);
                assert(","@ + Seq::<char>::empty() =~= ","@);
            } else {
                assert(","@.len() == 1);
                assert(","@ =~= seq![',']) by {
                    reveal_strlit(",");
                }
            }
        }
        i += 1;
    }
    proof {
        assert(mv.take(n as int) =~= mv);
    }
    r
}

fn flat_prompt_ex(msgs: &Vec<Message>) -> (r: String)
    ensures
        r@ == flat_prompt(msgs@.map_values(|m: Message| (m.role, m.text@))),
{
    let ghost mv = msgs@.map_values(|m: Message| (m.role, m.text@));
    let n = msgs.len();
    let mut r = String::new();
    let mut i: usize = 0;
    while i < n
        invariant
            n == msgs@.len(),
            mv == msgs@.map_values(|m: Message| (m.role, m.text@)),
            i <= n,
            r@ == flat_prompt(mv.take(i as int)),
        decreases n - i,
    {
        if i > 0 {
            proof {
                reveal_strlit("\n\n");
            }
            r.append("\n\n");
        }
        r.append(msgs[i].text.as_str());
        proof {
            let t = mv.take(i + 1);
            assert(t.drop_last() =~= mv.take(i as int));
            assert(t.last() == mv[i as int]);
            assert(mv[i as int] == (msgs@[i as int].role, msgs@[i as int].text@));
            if i == 0 {
                assert(t[0] == mv[0]);
            }
        }
        i += 1;
    }
    proof {
        assert(mv.take(n as int) =~= mv);
    }
    r
}

/// Error extraction for the HTTP layer: a non-2xx status aborts the
/// stream with a protocol error carrying that status and the backend's
/// raw error text; a 2xx status is no error.
pub fn check_status(status: u16, body: &str) -> (r: Result<(), LumenError>)
    ensures
        r is Ok <==> 200 <= status < 300,
        !(200 <= status < 300) ==> (r matches Err(e) && (e matches
            LumenError::ProviderProtocolError { status: s, message } && s == Some(status)
            && message@ == body@)),
{
    if 200 <= status && status < 300 {
        Ok(())
    } else {
        Err(
            LumenError::ProviderProtocolError {
                status: Some(status),
                message: String::from_str(body),
            },
        )
    }
}

/// Translates a conversation into the variant-specific request: the
/// variant's endpoint, its authentication convention, and its payload
/// schema, naming the configured model (or the default) and carrying the
/// messages in order with their text escaped but otherwise untouched.
pub fn build_request(conv: &Conversation, config: &ProviderConfig) -> (r: RequestSpec)
    requires
        config.wf(),
    ensures
        r.url@ == spec_endpoint(config.variant),
        r.body@ == spec_body(*config, conv@),
        match spec_auth(*config) {
            Some(p) => r.auth matches Some(a) && a.0@ == p.0 && a.1@ == p.1,
            None => r.auth is None,
        },
{
    let url = endpoint(config.variant);
    let model = match &config.model {
        Some(m) => m.clone(),
        None => default_model(config.variant),
    };
    proof {
        assert(model@ == config.spec_model());
    }
    let auth: Option<(String, String)> = match config.variant {
        ProviderVariant::Openai | ProviderVariant::Groq => {
            let key = match &config.api_key {
                Some(k) => k.clone(),
                None => String::new(),
            };
            let mut v = String::from_str("Bearer ");
            v.append(key.as_str());
            proof {
                reveal_strlit("Bearer ");
            }
            Some((String::from_str("Authorization"), v))
        },
        ProviderVariant::Claude => {
            let key = match &config.api_key {
                Some(k) => k.clone(),
                None => String::new(),
            };
            Some((String::from_str("x-api-key"), key))
        },
        ProviderVariant::Phind | ProviderVariant::Ollama => None,
    };
    proof {
        reveal_strlit("{\"model\":\"");
        reveal_strlit("\",\"messages\":[");
        reveal_strlit("],\"stream\":true}");
        reveal_strlit("\",\"prompt\":\"");
        reveal_strlit("\",\"stream\":true}");
    }
    let mut body = String::from_str("{\"model\":\"");
    let esc_model = json_escape(model.as_str());
    body.append(esc_model.as_str());
    match config.variant {
        ProviderVariant::Phind => {
            body.append("\",\"prompt\":\"");
            let flat = flat_prompt_ex(&conv.messages);
            let esc = json_escape(flat.as_str());
            body.append(esc.as_str());
            body.append("\",\"stream\":true}");
        },
        _ => {
            body.append("\",\"messages\":[");
            let mj = messages_json_ex(&conv.messages);
            body.append(mj.as_str());
            body.append("],\"stream\":true}");
        },
    }
    RequestSpec { url, auth, body }
}

} // verus!
