//! The contemplation bridge: an optional external command that may rewrite
//! an incoming message before the agent sees it.
//!
//! The command gets a JSON request on its standard input and answers on
//! its standard output, either with a JSON object whose `message` field is
//! the new text or with the new text itself.  Whenever anything goes wrong
//! the message goes on unchanged.  This module holds the decisions: whether
//! and how to run the command, what of its output counts, and how long the
//! result may be.  Running the command, and reading its answer as JSON, is
//! the caller's work.
use vstd::prelude::*;
use vstd::utf8::{decode_utf8, valid_utf8};
use crate::text::{
    concatenate,
    decode_utf8_strict,
    json_quote,
    json_string_literal,
    nonblank_spec,
    trim,
    trim_end_spec,
    truncate_spec,
    truncate_with_ellipsis,
};

verus! {

/// Smallest time limit of the command, in milliseconds.
pub const MIN_TIMEOUT_MS: u64 = 100;

/// Smallest limit on the length of the command's answer, in characters.
pub const MIN_OUTPUT_CHARS: usize = 256;

/// How the bridge is configured.
#[derive(Debug)]
pub struct ContemplationConfig {
    pub enabled: bool,
    /// Shell command run with `bash -lc`.
    pub command: Option<String>,
    /// Time limit of the command, in milliseconds.
    pub timeout_ms: u64,
    /// Longest answer kept, in characters.
    pub max_output_chars: usize,
}

/// A run of the bridge command.
#[derive(Debug)]
pub struct BridgePlan {
    /// The shell command, trimmed.
    pub command: String,
    /// The JSON request to write to its standard input.
    pub payload: String,
    /// Time limit of the command, in milliseconds.
    pub timeout_ms: u64,
}

/// The JSON request for a message: an object with the fields
/// `session_id` (a string, or `null`), `channel` and `message`, in that
/// order and without spaces.
pub open spec fn request_json(session_id: Option<Seq<char>>, channel: Seq<char>, message: Seq<char>) -> Seq<char> {
    "{\"session_id\":"@ + match session_id {
        Some(s) => json_string_literal(s),
        None => "null"@,
    } + ",\"channel\":"@ + json_string_literal(channel) + ",\"message\":"@ + json_string_literal(
        message,
    ) + "}"@
}

/// The larger of `a` and `b`.
pub open spec fn max_nat(a: nat, b: nat) -> nat {
    if a >= b {
        a
    } else {
        b
    }
}

/// The command to run: the configured one, trimmed, when the bridge is
/// enabled and the command is not blank.
pub open spec fn bridge_command(config: ContemplationConfig) -> Option<Seq<char>> {
    if !config.enabled {
        None
    } else {
        match config.command {
            Some(c) => nonblank_spec(c@),
            None => None,
        }
    }
}

/// The JSON request for a message.
pub fn request_payload(session_id: Option<&str>, channel: &str, message: &str) -> (r: String)
    ensures
        r@ == request_json(
            match session_id {
                Some(s) => Some(s@),
                None => None,
            },
            channel@,
            message@,
        ),
{
    let sid = match session_id {
        Some(s) => quoted(s),
        None => "null".to_owned(),
    };
    let ch = quoted(channel);
    let msg = quoted(message);
    let a = concatenate("{\"session_id\":", sid.as_str());
    let b = concatenate(a.as_str(), ",\"channel\":");
    let c = concatenate(b.as_str(), ch.as_str());
    let d = concatenate(c.as_str(), ",\"message\":");
    let e = concatenate(d.as_str(), msg.as_str());
    concatenate(e.as_str(), "}")
}

/// `s` as a JSON string literal.
fn quoted(s: &str) -> (r: String)
    ensures
        r@ == json_string_literal(s@),
{
    match json_quote(s) {
        Some(q) => q,
        None => {
            assert(false);
            String::new()
        },
    }
}

/// Whether and how to run the bridge for a message.  `None` means the
/// message goes on unchanged: the bridge is disabled or its command is
/// blank.
pub fn plan_contemplation(
    config: &ContemplationConfig,
    session_id: Option<&str>,
    channel: &str,
    message: &str,
) -> (r: Option<BridgePlan>)
    ensures
        bridge_command(*config) is None <==> r is None,
        r matches Some(plan) ==> {
            &&& bridge_command(*config) == Some(plan.command@)
            &&& plan.payload@ == request_json(
                match session_id {
                    Some(s) => Some(s@),
                    None => None,
                },
                channel@,
                message@,
            )
            &&& plan.timeout_ms == max_nat(config.timeout_ms as nat, MIN_TIMEOUT_MS as nat)
        },
{
    if !config.enabled {
        return None;
    }
    let command = match &config.command {
        Some(c) => {
            let t = trim(c.as_str());
            if t.as_str().is_empty() {
                return None;
            }
            t
        },
        None => {
            return None;
        },
    };
    let payload = request_payload(session_id, channel, message);
    let timeout_ms = if config.timeout_ms >= MIN_TIMEOUT_MS {
        config.timeout_ms
    } else {
        MIN_TIMEOUT_MS
    };
    Some(BridgePlan { command, payload, timeout_ms })
}

/// The part of the command's standard output that counts: its text,
/// trimmed, when it is valid UTF-8 and not blank.
pub open spec fn reply_text_spec(stdout: Seq<u8>) -> Option<Seq<char>> {
    if valid_utf8(stdout) {
        nonblank_spec(decode_utf8(stdout))
    } else {
        None
    }
}

/// The trimmed text of the command's standard output; `None` when it is
/// not UTF-8 or blank, and the message goes on unchanged.
pub fn bridge_reply_text(stdout: Vec<u8>) -> (r: Option<String>)
    ensures
        match reply_text_spec(stdout@) {
            Some(t) => r matches Some(s) && s@ == t,
            None => r is None,
        },
{
    match decode_utf8_strict(stdout) {
        Some(raw) => {
            let t = trim(raw.as_str());
            if t.as_str().is_empty() {
                None
            } else {
                Some(t)
            }
        },
        None => None,
    }
}

/// The enhanced message: the `message` field of the reply when the reply
/// is a JSON object that has one, else the reply text; cut to the output
/// limit.  `parsed` is the reply read as a JSON object: `None` when it is
/// not one, `Some(m)` with its `message` field otherwise.
pub open spec fn enhanced_spec(reply: Seq<char>, parsed: Option<Option<Seq<char>>>, max_output_chars: nat) -> Seq<char> {
    let chosen = match parsed {
        Some(Some(m)) => m,
        _ => reply,
    };
    truncate_spec(chosen, max_nat(max_output_chars, MIN_OUTPUT_CHARS as nat))
}

/// The message that replaces the original, from the trimmed reply text and
/// the reply read as a JSON object.
pub fn finish_contemplation(
    reply: &str,
    parsed: Option<Option<String>>,
    max_output_chars: usize,
) -> (r: String)
    ensures
        r@ == enhanced_spec(
            reply@,
            match parsed {
                Some(Some(m)) => Some(Some(m@)),
                Some(None) => Some(None),
                None => None,
            },
            max_output_chars as nat,
        ),
{
    let chosen = match parsed {
        Some(Some(m)) => m,
        _ => reply.to_owned(),
    };
    let limit = if max_output_chars >= MIN_OUTPUT_CHARS {
        max_output_chars
    } else {
        MIN_OUTPUT_CHARS
    };
    truncate_with_ellipsis(chosen.as_str(), limit)
}

proof fn lemma_trim_end_prefix(s: Seq<char>)
    ensures
        trim_end_spec(s).len() <= s.len(),
        trim_end_spec(s) == s.take(trim_end_spec(s).len() as int),
        forall|j: int|
            trim_end_spec(s).len() <= j < s.len() ==> crate::text::is_ws(#[trigger] s[j]),
        trim_end_spec(s).len() > 0 ==> !crate::text::is_ws(s[trim_end_spec(s).len() - 1]),
    decreases s.len(),
{
    if s.len() > 0 && crate::text::is_ws(s.last()) {
        let t = s.drop_last();
        lemma_trim_end_prefix(t);
        let k = trim_end_spec(t).len() as int;
        assert(t.take(k) =~= s.take(k));
        assert forall|j: int| k <= j < s.len() implies crate::text::is_ws(#[trigger] s[j]) by {
            if j < t.len() {
                assert(t[j] == s[j]);
            }
        }
    } else {
        assert(s.take(s.len() as int) =~= s);
    }
}

/// A cut keeps the start of the chosen text: when the chosen text (the
/// reply's `message` field if it has one, else the reply) is longer than
/// the limit `n` (at least 256), the result is `...` after a prefix of the
/// chosen text that consists of its first `n` characters less trailing
/// whitespace; otherwise the result is the chosen text itself.
pub proof fn law_enhanced_keeps_start(
    reply: Seq<char>,
    parsed: Option<Option<Seq<char>>>,
    max_output_chars: nat,
)
    ensures
        ({
            let chosen = match parsed {
                Some(Some(m)) => m,
                _ => reply,
            };
            let n = max_nat(max_output_chars, MIN_OUTPUT_CHARS as nat);
            let r = enhanced_spec(reply, parsed, max_output_chars);
            &&& chosen.len() <= n ==> r == chosen
            &&& chosen.len() > n ==> {
                let k = r.len() - 3;
                &&& k >= 0
                &&& r.subrange(k, r.len() as int) == "..."@
                &&& k <= n
                &&& r.take(k) == chosen.take(k)
                &&& forall|j: int| k <= j < n ==> crate::text::is_ws(#[trigger] chosen[j])
                &&& k > 0 ==> !crate::text::is_ws(chosen[k - 1])
            }
        }),
{
    reveal_strlit("...");
    let chosen = match parsed {
        Some(Some(m)) => m,
        _ => reply,
    };
    let n = max_nat(max_output_chars, MIN_OUTPUT_CHARS as nat);
    if chosen.len() > n {
        let h = chosen.take(n as int);
        lemma_trim_end_prefix(h);
        let t = trim_end_spec(h);
        let r = enhanced_spec(reply, parsed, max_output_chars);
        assert(r == t + "..."@);
        let k = t.len() as int;
        assert(r.subrange(k, r.len() as int) =~= "..."@);
        assert(r.take(k) =~= t);
        assert(h.take(k) =~= chosen.take(k));
        assert forall|j: int| k <= j < n implies crate::text::is_ws(#[trigger] chosen[j]) by {
            assert(h[j] == chosen[j]);
        }
        if k > 0 {
            assert(h[k - 1] == chosen[k - 1]);
        }
    }
}

proof fn lemma_trim_end_shorter(s: Seq<char>)
    ensures
        trim_end_spec(s).len() <= s.len(),
    decreases s.len(),
{
    if s.len() > 0 && crate::text::is_ws(s.last()) {
        lemma_trim_end_shorter(s.drop_last());
    }
}

/// The enhanced message never exceeds the output limit (at least 256
/// characters) by more than the three characters of the ellipsis, and a
/// reply within the limit is passed on whole.
pub proof fn law_enhanced_length(
    reply: Seq<char>,
    parsed: Option<Option<Seq<char>>>,
    max_output_chars: nat,
)
    ensures
        enhanced_spec(reply, parsed, max_output_chars).len() <= max_nat(
            max_output_chars,
            MIN_OUTPUT_CHARS as nat,
        ) + 3,
        parsed is None && reply.len() <= max_nat(max_output_chars, MIN_OUTPUT_CHARS as nat)
            ==> enhanced_spec(reply, parsed, max_output_chars) == reply,
{
    let chosen = match parsed {
        Some(Some(m)) => m,
        _ => reply,
    };
    let n = max_nat(max_output_chars, MIN_OUTPUT_CHARS as nat);
    if chosen.len() > n {
        lemma_trim_end_shorter(chosen.take(n as int));
        reveal_strlit("...");
    }
}

} // verus!
