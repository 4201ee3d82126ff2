//! What the system tells of itself: the graphics hardware and the session,
//! and how a line typed in the chat is understood.

use vstd::prelude::*;
use crate::text::{append_chars, append_str, chars_eq, chars_of, contains, contains_seq, has_char, is_prefix, starts_with, string_of, text, trim, trim_of};

verus! {

/// The GPU named by `lspci` output: NVIDIA first, then AMD/ATI.
pub open spec fn lspci_gpu(out: Seq<char>) -> Option<Seq<char>> {
    if contains_seq(out, "NVIDIA"@) {
        Some("NVIDIA (proprietary)"@)
    } else if contains_seq(out, "AMD"@) || contains_seq(out, "ATI"@) {
        Some("AMD/ATI"@)
    } else {
        None
    }
}

/// Reads the GPU from `lspci` output.
pub fn gpu_from_lspci(out: &str) -> (r: Option<String>)
    ensures
        match lspci_gpu(out@) {
            Some(g) => r matches Some(s) && s@ == g,
            None => r is None,
        },
{
    let o = chars_of(out);
    if contains(&o, &text("NVIDIA")) {
        Some(String::from_str("NVIDIA (proprietary)"))
    } else if contains(&o, &text("AMD")) || contains(&o, &text("ATI")) {
        Some(String::from_str("AMD/ATI"))
    } else {
        None
    }
}

/// A DRM device entry names a card (not one of its connectors).
pub open spec fn is_card(name: Seq<char>) -> bool {
    is_prefix("card"@, name) && !name.contains('-')
}

/// The index of the first card among DRM entry names, from `i` on.
pub open spec fn first_card_from(names: Seq<Seq<char>>, i: int) -> Option<int>
    decreases names.len() - i,
{
    if i < 0 || i >= names.len() {
        None
    } else if is_card(names[i]) {
        Some(i)
    } else {
        first_card_from(names, i + 1)
    }
}

/// The GPU named by the DRM entries, in the order they were listed.
pub fn gpu_from_drm(names: &Vec<String>) -> (r: Option<String>)
    ensures
        match first_card_from(names@.map_values(|n: String| n@), 0) {
            Some(i) => r matches Some(s) && s@ == "DRM: "@ + names@[i]@,
            None => r is None,
        },
{
    let ghost views = names@.map_values(|n: String| n@);
    let card = text("card");
    let mut i: usize = 0;
    while i < names.len()
        invariant
            0 <= i <= names@.len(),
            views == names@.map_values(|n: String| n@),
            card@ == "card"@,
            first_card_from(views, 0) == first_card_from(views, i as int),
        decreases names@.len() - i,
    {
        let n = chars_of(names[i].as_str());
        if starts_with(&n, &card) && !has_char(&n, '-') {
            let mut out = text("DRM: ");
            append_chars(&mut out, &n);
            return Some(string_of(&out));
        }
        i = i + 1;
    }
    None
}

/// The GPU of the system: from `lspci` output when it names one, else from
/// the DRM entries when they could be listed.
pub fn pick_gpu(lspci_output: Option<String>, drm_names: Option<Vec<String>>) -> (r: Option<String>)
    ensures
        match lspci_output {
            Some(o) if lspci_gpu(o@) is Some => r matches Some(s) && s@ == lspci_gpu(o@)->0,
            _ => match drm_names {
                Some(ns) => match first_card_from(ns@.map_values(|n: String| n@), 0) {
                    Some(i) => r matches Some(s) && s@ == "DRM: "@ + ns@[i]@,
                    None => r is None,
                },
                None => r is None,
            },
        },
{
    match &lspci_output {
        Some(o) => {
            match gpu_from_lspci(o.as_str()) {
                Some(g) => return Some(g),
                None => {},
            }
        },
        None => {},
    }
    match &drm_names {
        Some(ns) => gpu_from_drm(ns),
        None => None,
    }
}

/// One line of the session description, when the value is known.
pub open spec fn context_line(label: Seq<char>, value: Option<String>) -> Seq<char> {
    match value {
        Some(v) => label + v@ + "\n"@,
        None => Seq::empty(),
    }
}

/// The session description: display server, host, user and uptime, each
/// when known.
pub open spec fn os_context(
    wayland: Option<String>,
    display: Option<String>,
    hostname: Option<String>,
    user: Option<String>,
    uptime: Option<String>,
) -> Seq<char> {
    context_line("Wayland: "@, wayland) + context_line("X11: "@, display) + context_line("Host: "@, hostname)
        + context_line("User: "@, user) + match uptime {
        Some(u) => "Uptime: "@ + trim_of(u@),
        None => Seq::empty(),
    }
}

fn push_context_line(out: &mut Vec<char>, label: &str, value: &Option<String>)
    ensures
        final(out)@ == old(out)@ + context_line(label@, *value),
{
    match value {
        Some(v) => {
            append_str(out, label);
            append_str(out, v.as_str());
            append_str(out, "\n");
        },
        None => {
            assert(old(out)@ + Seq::<char>::empty() =~= old(out)@);
        },
    }
}

/// Describes the session from what the environment and `uptime -p` tell.
pub fn os_context_text(
    wayland: Option<String>,
    display: Option<String>,
    hostname: Option<String>,
    user: Option<String>,
    uptime: Option<String>,
) -> (r: String)
    ensures
        r@ == os_context(wayland, display, hostname, user, uptime),
{
    let mut out: Vec<char> = Vec::new();
    push_context_line(&mut out, "Wayland: ", &wayland);
    push_context_line(&mut out, "X11: ", &display);
    push_context_line(&mut out, "Host: ", &hostname);
    push_context_line(&mut out, "User: ", &user);
    match &uptime {
        Some(u) => {
            append_str(&mut out, "Uptime: ");
            let t = trim(&chars_of(u.as_str()));
            append_chars(&mut out, &t);
        },
        None => {},
    }
    proof {
        assert(out@ =~= os_context(wayland, display, hostname, user, uptime));
    }
    string_of(&out)
}

/// What a line typed in the chat asks for.
#[derive(Debug, Clone, PartialEq, Eq)]
pub enum ChatInput {
    /// "exit" or "quit": leave the chat.
    Quit,
    /// "clear": reset the context.
    Clear,
    /// Nothing but white space.
    Empty,
    /// A message to send, trimmed.
    Message(String),
}

/// Understands a line typed in the chat: trimmed, "exit" or "quit" leave,
/// "clear" resets, an empty line is skipped, anything else is sent.
pub fn chat_input(line: &str) -> (r: ChatInput)
    ensures
        trim_of(line@) == "exit"@ || trim_of(line@) == "quit"@ ==> r == ChatInput::Quit,
        trim_of(line@) == "clear"@ ==> r == ChatInput::Clear,
        trim_of(line@).len() == 0 ==> r == ChatInput::Empty,
        !(trim_of(line@) == "exit"@ || trim_of(line@) == "quit"@ || trim_of(line@) == "clear"@
            || trim_of(line@).len() == 0) ==> (r matches ChatInput::Message(m) && m@ == trim_of(line@)),
{
    proof {
        reveal_strlit("exit");
        reveal_strlit("quit");
        reveal_strlit("clear");
        assert("clear"@.len() == 5);
        assert("exit"@.len() == 4);
        assert("quit"@.len() == 4);
    }
    let t = trim(&chars_of(line));
    if chars_eq(&t, &text("exit")) || chars_eq(&t, &text("quit")) {
        ChatInput::Quit
    } else if chars_eq(&t, &text("clear")) {
        ChatInput::Clear
    } else if t.len() == 0 {
        ChatInput::Empty
    } else {
        ChatInput::Message(string_of(&t))
    }
}

} // verus!
