//! Failures of an `arkcli` call and what the popover is told about them.

use vstd::prelude::*;
use crate::std_text::{
    all_ascii, ascii_lower, debug_quoted, debug_quoted_chars, lossy_utf8_chars, lowercase_chars, to_lowercase, trim,
    trimmed_chars, utf8_lossy,
};
use crate::text::{char_vec, contains_chars, contains_seq};

verus! {

/// Who the arkcli session belongs to.
#[derive(Clone, Debug, PartialEq, Eq)]
pub struct Viewer {
    pub user_name: String,
    pub account_id: String,
    pub tenant: Option<String>,
    pub region: Option<String>,
}

impl Default for Viewer {
    /// The viewer reported when a fetch failed: empty names, no tenant or region.
    fn default() -> (v: Self)
        ensures
            v.user_name@.len() == 0,
            v.account_id@.len() == 0,
            v.tenant is None,
            v.region is None,
    {
        Viewer { user_name: String::new(), account_id: String::new(), tenant: None, region: None }
    }
}

/// Why an `arkcli` call produced no usable output.
#[derive(Clone, Debug)]
pub enum UsageError {
    /// The process could not be started (other than "not found").
    Spawn(String),
    /// Non-zero exit code; stderr retained for auth-expired sniffing.
    Failed { stderr: String, stdout: String },
    /// The output was not the JSON expected.
    Decode(String),
    /// `arkcli` is not on the search path.
    NotFound,
}

/// The text searched for signs of an expired session, where the error has one.
pub open spec fn auth_text(e: UsageError) -> Option<Seq<char>> {
    match e {
        UsageError::Failed { stderr, stdout } => Some(lowercase_chars(stderr@ + " "@ + stdout@)),
        UsageError::Spawn(msg) => Some(lowercase_chars(msg@)),
        _ => None,
    }
}

/// `text` holds one of the phrases arkcli prints when the SSO session lapsed.
pub open spec fn mentions_expired_session(text: Seq<char>) -> bool {
    ||| contains_seq(text, "expired"@)
    ||| contains_seq(text, "unauthorized"@)
    ||| contains_seq(text, "401"@)
    ||| contains_seq(text, "please login"@)
    ||| contains_seq(text, "please run"@)
    ||| contains_seq(text, "auth login"@)
    ||| contains_seq(text, "not authenticated"@)
}

/// Whether the error reads as an expired SSO session.
pub open spec fn spec_is_auth_expired(e: UsageError) -> bool {
    match auth_text(e) {
        Some(t) => mentions_expired_session(t),
        None => false,
    }
}

/// The text shown for an error in the popover.
pub open spec fn spec_message(e: UsageError) -> Seq<char> {
    match e {
        UsageError::Spawn(msg) => "无法启动 arkcli: "@ + msg@,
        UsageError::NotFound => "未找到 arkcli，请先安装并登录。"@,
        UsageError::Failed { stderr, .. } => {
            let trimmed = trimmed_chars(stderr@);
            if trimmed.len() == 0 {
                "arkcli 调用失败。"@
            } else {
                trimmed
            }
        },
        UsageError::Decode(msg) => "解析 arkcli 输出失败: "@ + msg@,
    }
}

fn mentions_expired_session_exec(text: &str) -> (r: bool)
    ensures
        r == mentions_expired_session(text@),
{
    let t = char_vec(text);
    contains_chars(&t, &char_vec("expired"))
        || contains_chars(&t, &char_vec("unauthorized"))
        || contains_chars(&t, &char_vec("401"))
        || contains_chars(&t, &char_vec("please login"))
        || contains_chars(&t, &char_vec("please run"))
        || contains_chars(&t, &char_vec("auth login"))
        || contains_chars(&t, &char_vec("not authenticated"))
}

impl UsageError {
    /// Heuristic: arkcli prints something like "expired" / "login" / "401"
    /// when the SSO session (48h validity) has lapsed. Only a failed run or a
    /// failed start is inspected, case-insensitively.
    pub fn is_auth_expired(&self) -> (r: bool)
        ensures
            r == spec_is_auth_expired(*self),
            (match *self {
                UsageError::Failed { stderr, stdout } => all_ascii(stderr@ + " "@ + stdout@)
                    ==> r == mentions_expired_session((stderr@ + " "@ + stdout@).map_values(|c: char| ascii_lower(c))),
                UsageError::Spawn(msg) => all_ascii(msg@)
                    ==> r == mentions_expired_session(msg@.map_values(|c: char| ascii_lower(c))),
                _ => !r,
            }),
    {
        match self {
            UsageError::Failed { stderr, stdout } => {
                let mut joined = String::from_str(stderr.as_str());
                joined.append(" ");
                joined.append(stdout.as_str());
                let lower = to_lowercase(joined.as_str());
                mentions_expired_session_exec(lower.as_str())
            },
            UsageError::Spawn(msg) => {
                let lower = to_lowercase(msg.as_str());
                mentions_expired_session_exec(lower.as_str())
            },
            _ => false,
        }
    }

    /// The text shown for this error: what `Display` printed for it.
    pub fn message(&self) -> (r: String)
        ensures
            r@ == spec_message(*self),
    {
        match self {
            UsageError::Spawn(msg) => String::from_str("无法启动 arkcli: ").concat(msg.as_str()),
            UsageError::NotFound => String::from_str("未找到 arkcli，请先安装并登录。"),
            UsageError::Failed { stderr, .. } => {
                let trimmed = trim(stderr.as_str());
                if trimmed.is_empty() {
                    String::from_str("arkcli 调用失败。")
                } else {
                    String::from_str(trimmed)
                }
            },
            UsageError::Decode(msg) => String::from_str("解析 arkcli 输出失败: ").concat(msg.as_str()),
        }
    }
}

/// Detection ignores letter case: two failed runs whose joined streams
/// (stderr, a space, stdout) lowercase to the same text are judged alike,
/// and so are two start failures whose messages lowercase alike.
pub proof fn lemma_auth_detection_ignores_case(
    a_stderr: String,
    a_stdout: String,
    b_stderr: String,
    b_stdout: String,
    a_msg: String,
    b_msg: String,
)
    ensures
        lowercase_chars(a_stderr@ + " "@ + a_stdout@) == lowercase_chars(b_stderr@ + " "@ + b_stdout@)
            ==> spec_is_auth_expired(UsageError::Failed { stderr: a_stderr, stdout: a_stdout })
                == spec_is_auth_expired(UsageError::Failed { stderr: b_stderr, stdout: b_stdout }),
        lowercase_chars(a_msg@) == lowercase_chars(b_msg@)
            ==> spec_is_auth_expired(UsageError::Spawn(a_msg)) == spec_is_auth_expired(UsageError::Spawn(b_msg)),
{
}

/// The failure flags a fetch reports alongside its data.
#[derive(Clone, Debug, PartialEq, Eq)]
pub struct FetchStatus {
    pub auth_expired: bool,
    pub not_installed: bool,
    pub error: Option<String>,
}

/// The flags owed for the outcome of a fetch.
pub open spec fn status_matches<T>(r: Result<T, UsageError>, s: FetchStatus) -> bool {
    match r {
        Ok(_) => !s.auth_expired && !s.not_installed && s.error is None,
        Err(e) => {
            &&& s.auth_expired == spec_is_auth_expired(e)
            &&& s.not_installed == (e is NotFound)
            &&& (e is NotFound ==> s.error is None)
            &&& (!(e is NotFound) ==> (s.error matches Some(m) && m@ == spec_message(e)))
        },
    }
}

/// Failures land in `auth_expired` / `not_installed` / `error` so the popover
/// can render its banners; the install banner replaces the generic error
/// when `arkcli` is missing.
pub fn fetch_status<T>(r: &Result<T, UsageError>) -> (s: FetchStatus)
    ensures
        status_matches(*r, s),
{
    match r {
        Ok(_) => FetchStatus { auth_expired: false, not_installed: false, error: None },
        Err(err) => {
            let auth_expired = err.is_auth_expired();
            let not_installed = match err {
                UsageError::NotFound => true,
                _ => false,
            };
            let error = if not_installed { None } else { Some(err.message()) };
            FetchStatus { auth_expired, not_installed, error }
        },
    }
}

/// The error for a process that could not be started.
pub fn spawn_failure(not_found: bool, msg: String) -> (e: UsageError)
    ensures
        not_found ==> e is NotFound,
        !not_found ==> e == UsageError::Spawn(msg),
{
    if not_found { UsageError::NotFound } else { UsageError::Spawn(msg) }
}

/// A finished run: its decoded stdout on a zero exit code, otherwise a
/// `Failed` error with both streams decoded.
pub fn run_outcome(success: bool, stdout: &[u8], stderr: &[u8]) -> (r: Result<String, UsageError>)
    ensures
        success ==> (r matches Ok(out) && out@ == lossy_utf8_chars(stdout@)),
        !success ==> (r matches Err(UsageError::Failed { stderr: e, stdout: o })
            && e@ == lossy_utf8_chars(stderr@) && o@ == lossy_utf8_chars(stdout@)),
{
    if !success {
        let stderr = utf8_lossy(stderr);
        let stdout = utf8_lossy(stdout);
        return Err(UsageError::Failed { stderr, stdout });
    }
    Ok(utf8_lossy(stdout))
}

/// The arguments of the `arkcli usage plan` call; fixed, no caller input.
pub open spec fn spec_usage_plan_args() -> Seq<Seq<char>> {
    seq!["usage"@, "plan"@]
}

/// Build the arguments of the `arkcli usage plan` call.
pub fn usage_plan_args() -> (r: Vec<String>)
    ensures
        r@.map_values(|s: String| s@) == spec_usage_plan_args(),
{
    let mut r: Vec<String> = Vec::new();
    r.push(String::from_str("usage"));
    r.push(String::from_str("plan"));
    assert(r@.map_values(|s: String| s@) =~= spec_usage_plan_args());
    r
}

/// The plans kept from arkcli's items, in order: those with at least one period.
pub open spec fn kept_plans<I, P>(items: Seq<(I, Vec<P>)>) -> Seq<(I, Vec<P>)>
    decreases items.len(),
{
    if items.len() == 0 {
        Seq::empty()
    } else {
        let rest = kept_plans(items.drop_first());
        if items[0].1@.len() > 0 {
            seq![items[0]] + rest
        } else {
            rest
        }
    }
}

/// Drop the items that report no period; each item is its plan's header
/// together with its periods.
pub fn plans_with_periods<I, P>(items: Vec<(I, Vec<P>)>) -> (r: Vec<(I, Vec<P>)>)
    ensures
        r@ == kept_plans(items@),
{
    let ghost all = items@;
    let mut items = items;
    let mut r: Vec<(I, Vec<P>)> = Vec::new();
    while items.len() > 0
        invariant
            kept_plans(all) == r@ + kept_plans(items@),
        decreases items@.len(),
    {
        let ghost before = items@;
        let item = items.remove(0);
        proof {
            assert(items@ =~= before.drop_first());
        }
        if item.1.len() > 0 {
            let ghost r0 = r@;
            r.push(item);
            proof {
                assert(r@ =~= r0 + seq![item]);
                assert(r0 + kept_plans(before) =~= r@ + kept_plans(items@));
            }
        }
    }
    proof {
        assert(r@ + kept_plans(items@) =~= r@);
    }
    r
}

/// How many characters of the output a decode error quotes.
pub const DECODE_QUOTE_CHARS: usize = 120;

/// The first `n` characters of `s`, or all of it when shorter.
pub open spec fn leading_chars(s: Seq<char>, n: nat) -> Seq<char> {
    if s.len() <= n { s } else { s.take(n as int) }
}

/// The decode error for output that the JSON parser refused with `parse_msg`:
/// the parser's message followed by the quoted start of the output.
pub fn decode_error(parse_msg: &str, stdout: &str) -> (e: UsageError)
    ensures
        e matches UsageError::Decode(m) && m@ == parse_msg@ + " (开头: "@
            + debug_quoted_chars(leading_chars(stdout@, DECODE_QUOTE_CHARS as nat)) + ")"@,
{
    let len = stdout.unicode_len();
    let n = if len <= DECODE_QUOTE_CHARS { len } else { DECODE_QUOTE_CHARS };
    let head = stdout.substring_char(0, n);
    assert(head@ =~= leading_chars(stdout@, DECODE_QUOTE_CHARS as nat));
    let quoted = debug_quoted(head);
    let msg = String::from_str(parse_msg).concat(" (开头: ").concat(quoted.as_str()).concat(")");
    UsageError::Decode(msg)
}

/// Whether a first attempt failed only because `arkcli` was not on the
/// process search path, so the attempt is repeated with the login shell's.
pub fn needs_shell_path_retry<T>(first: &Result<T, UsageError>) -> (r: bool)
    ensures
        r == (*first matches Err(UsageError::NotFound)),
{
    match first {
        Err(UsageError::NotFound) => true,
        _ => false,
    }
}

} // verus!
