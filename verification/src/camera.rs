//! The desktop camera portal handshake: the request object path the portal
//! will answer on, and what each response code means.
use vstd::prelude::*;
use crate::text::{append_chars, append_str, chars_of, decimal, decimal_chars, string_of, trim_start_matches, trim_start_str};

verus! {

/// An ASCII letter or digit.
pub open spec fn is_ascii_alnum(c: char) -> bool {
    ('a' <= c && c <= 'z') || ('A' <= c && c <= 'Z') || ('0' <= c && c <= '9')
}

/// `s` with every character other than an ASCII letter or digit replaced by '_'.
pub open spec fn sanitize(s: Seq<char>) -> Seq<char> {
    s.map_values(|c: char| if is_ascii_alnum(c) { c } else { '_' })
}

/// The sender part of request paths: the connection's unique name without
/// its leading colons ("pinpoint" where there is none), sanitized.
pub open spec fn portal_sender_spec(unique_name: Option<Seq<char>>) -> Seq<char> {
    match unique_name {
        Some(n) => sanitize(trim_start_matches(n, ":"@)),
        None => sanitize("pinpoint"@),
    }
}

pub open spec fn opt_chars(s: Option<&str>) -> Option<Seq<char>> {
    match s {
        Some(s) => Some(s@),
        None => None,
    }
}

fn sanitize_chars(s: &Vec<char>) -> (r: Vec<char>)
    ensures
        r@ == sanitize(s@),
{
    let mut r: Vec<char> = Vec::new();
    let mut i: usize = 0;
    while i < s.len()
        invariant
            i <= s@.len(),
            r@ == sanitize(s@.take(i as int)),
        decreases s@.len() - i,
    {
        let c = s[i];
        let ok = ('a' <= c && c <= 'z') || ('A' <= c && c <= 'Z') || ('0' <= c && c <= '9');
        r.push(if ok { c } else { '_' });
        i += 1;
        assert(r@ =~= sanitize(s@.take(i as int)));
    }
    assert(s@.take(i as int) =~= s@);
    r
}

/// The sender part of the portal's request paths for a connection whose
/// unique name is `unique_name`.
pub fn portal_sender(unique_name: Option<&str>) -> (s: String)
    ensures
        s@ == portal_sender_spec(opt_chars(unique_name)),
{
    let base = match unique_name {
        Some(n) => {
            let c = chars_of(n);
            trim_start_str(&c, ":")
        },
        None => chars_of("pinpoint"),
    };
    let r = sanitize_chars(&base);
    string_of(&r)
}

/// The handle token of request number `counter` of process `pid`.
pub open spec fn request_token_spec(pid: u32, counter: u64) -> Seq<char> {
    "pinpoint_"@ + decimal(pid as nat) + "_"@ + decimal(counter as nat)
}

/// The handle token "pinpoint_<pid>_<counter>".
pub fn request_token(pid: u32, counter: u64) -> (t: String)
    ensures
        t@ == request_token_spec(pid, counter),
{
    let mut v = chars_of("pinpoint_");
    let p = decimal_chars(pid as u64);
    append_chars(&mut v, &p);
    append_str(&mut v, "_");
    let c = decimal_chars(counter);
    append_chars(&mut v, &c);
    string_of(&v)
}

/// The object path on which the portal answers the request.
pub fn request_path(sender: &str, token: &str) -> (p: String)
    ensures
        p@ == "/org/freedesktop/portal/desktop/request/"@ + sender@ + "/"@ + token@,
{
    let mut v = chars_of("/org/freedesktop/portal/desktop/request/");
    append_str(&mut v, sender);
    append_str(&mut v, "/");
    append_str(&mut v, token);
    string_of(&v)
}

/// Hands out request counters: each differs from the one before.
#[derive(Clone, Copy, Debug)]
pub struct TokenCounter {
    pub next: u64,
}

impl TokenCounter {
    /// A counter whose first token is 1.
    pub fn new() -> (c: TokenCounter)
        ensures
            c.next == 1,
    {
        TokenCounter { next: 1 }
    }

    /// The next token; the counter moves on, wrapping around.
    pub fn take(&mut self) -> (t: u64)
        ensures
            t == old(self).next,
            final(self).next == old(self).next.wrapping_add(1),
    {
        let t = self.next;
        self.next = self.next.wrapping_add(1);
        t
    }
}

/// Two tokens taken one after the other differ.
pub proof fn law_consecutive_tokens_differ(next: u64)
    ensures
        next.wrapping_add(1) != next,
{
}

/// What the portal's answer to the access request means.
#[derive(Clone, Debug)]
pub enum PortalResponse {
    /// Access granted: the PipeWire remote is opened next.
    Granted,
    Denied,
    Failed(String),
}

/// The meaning of the portal's response code: 0 grants, 1 is the user's
/// refusal, anything else a failure naming the code.
pub fn portal_response(code: u32) -> (r: PortalResponse)
    ensures
        code == 0 ==> r is Granted,
        code == 1 ==> r is Denied,
        code > 1 ==> (r matches PortalResponse::Failed(m)
            && m@ == "Camera portal request failed with response "@ + decimal(code as nat)),
{
    if code == 0 {
        PortalResponse::Granted
    } else if code == 1 {
        PortalResponse::Denied
    } else {
        let mut v = chars_of("Camera portal request failed with response ");
        let d = decimal_chars(code as u64);
        append_chars(&mut v, &d);
        PortalResponse::Failed(string_of(&v))
    }
}

} // verus!
