//! The local AI service client: messages, model listings, endpoints and
//! the sizes shown for models.

use vstd::prelude::*;
use crate::numfmt::{f64_of, f64_value, one_decimal, one_decimal_chars};
use crate::text::{append_chars, append_str, chars_of, decimal, decimal_chars, string_of};

verus! {

/// A chat message.
#[derive(Debug, Clone)]
pub struct Message {
    pub role: String,
    pub content: String,
}

/// An installed model, with its size in readable form.
#[derive(Debug, Clone)]
pub struct ModelInfo {
    pub name: String,
    pub size: String,
}

/// Bytes in a kibibyte, mebibyte and gibibyte.
pub const KB: u64 = 1024;
pub const MB: u64 = 1024 * 1024;
pub const GB: u64 = 1024 * 1024 * 1024;

/// A byte count in readable form: in GB, MB or KB with one decimal (of the
/// count as a floating-point number divided by the unit), or in bytes.
pub open spec fn size_text(bytes: u64) -> Seq<char> {
    if bytes >= GB {
        one_decimal(f64_value(bytes as nat), GB as nat) + " GB"@
    } else if bytes >= MB {
        one_decimal(f64_value(bytes as nat), MB as nat) + " MB"@
    } else if bytes >= KB {
        one_decimal(f64_value(bytes as nat), KB as nat) + " KB"@
    } else {
        decimal(bytes as nat) + " B"@
    }
}

/// Formats a byte count in readable form.
pub fn format_size(bytes: u64) -> (r: String)
    ensures
        r@ == size_text(bytes),
{
    let v = f64_of(bytes as u128);
    let mut out: Vec<char>;
    if bytes >= GB {
        out = one_decimal_chars(v, GB as u128);
        append_str(&mut out, " GB");
    } else if bytes >= MB {
        out = one_decimal_chars(v, MB as u128);
        append_str(&mut out, " MB");
    } else if bytes >= KB {
        out = one_decimal_chars(v, KB as u128);
        append_str(&mut out, " KB");
    } else {
        out = decimal_chars(bytes as u128);
        append_str(&mut out, " B");
    }
    string_of(&out)
}

/// The service address used when none is configured.
pub open spec fn default_base_url() -> Seq<char> {
    "http://localhost:11434"@
}

/// The service address: the configured one, or the default.
pub fn base_url(configured: Option<String>) -> (r: String)
    ensures
        r@ == match configured {
            Some(u) => u@,
            None => default_base_url(),
        },
{
    match configured {
        Some(u) => u,
        None => String::from_str("http://localhost:11434"),
    }
}

/// The chat endpoint of a service address.
pub fn chat_url(base: &str) -> (r: String)
    ensures
        r@ == base@ + "/api/chat"@,
{
    let mut out = chars_of(base);
    append_str(&mut out, "/api/chat");
    string_of(&out)
}

/// The model-listing endpoint of a service address.
pub fn tags_url(base: &str) -> (r: String)
    ensures
        r@ == base@ + "/api/tags"@,
{
    let mut out = chars_of(base);
    append_str(&mut out, "/api/tags");
    string_of(&out)
}

/// The message that carries what the user typed.
pub fn user_message(content: &str) -> (r: Message)
    ensures
        r.role@ == "user"@,
        r.content@ == content@,
{
    Message { role: String::from_str("user"), content: String::from_str(content) }
}

/// An installed model as listed: its name and its size in readable form.
pub fn model_info(name: String, size_bytes: u64) -> (r: ModelInfo)
    ensures
        r.name == name,
        r.size@ == size_text(size_bytes),
{
    ModelInfo { name, size: format_size(size_bytes) }
}

} // verus!
