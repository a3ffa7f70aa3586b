//! Alerting: the outbound address guard, alert channels, webhooks, and the
//! hygiene of upstream text written to logs.
pub mod url_guard;
pub mod channels;
pub mod webhooks;

use vstd::prelude::*;
use vstd::string::StringSliceAdditionalSpecFns;
use crate::text::{chars_of, string_of, concat};

verus! {

/// Control characters (`char::is_control`: general category Cc).
pub open spec fn control(c: char) -> bool {
    (c as u32) <= 0x1f || (0x7f <= (c as u32) && (c as u32) <= 0x9f)
}

/// One character as written to a log line.
pub open spec fn log_char(c: char) -> char {
    if c == '\r' || c == '\n' || c == '\t' {
        ' '
    } else if control(c) {
        '?'
    } else {
        c
    }
}

/// Upstream text made safe for a log line: at most `max` characters, line
/// breaks and tabs as spaces, other control characters as `?`, and a
/// truncation mark when the text is longer than `max` bytes.
pub open spec fn sanitized(input: &str, max: usize) -> Seq<char> {
    let n = if input@.len() < max { input@.len() } else { max as nat };
    let body = input@.subrange(0, n as int).map_values(|c: char| log_char(c));
    if input.spec_bytes().len() > max {
        body + "…[truncated]"@
    } else {
        body
    }
}

/// Sanitizes upstream text for logs.
pub fn sanitize_for_log(input: &str, max: usize) -> (r: String)
    requires
        input.spec_bytes().len() <= usize::MAX,
    ensures
        r@ == sanitized(input, max),
{
    let cs = chars_of(input);
    let n = if cs.len() < max { cs.len() } else { max };
    let mut out: Vec<char> = Vec::new();
    let mut i: usize = 0;
    while i < n
        invariant
            i <= n <= cs@.len(),
            cs@ == input@,
            out@ == input@.subrange(0, i as int).map_values(|c: char| log_char(c)),
        decreases n - i,
    {
        let c = cs[i];
        let u = c as u32;
        let m = if c == '\r' || c == '\n' || c == '\t' {
            ' '
        } else if u <= 0x1f || (0x7f <= u && u <= 0x9f) {
            '?'
        } else {
            c
        };
        out.push(m);
        assert(out@ =~= input@.subrange(0, i + 1).map_values(|c: char| log_char(c)));
        i = i + 1;
    }
    if input.len() > max {
        let all = concat(out.as_slice(), chars_of("…[truncated]").as_slice());
        string_of(all.as_slice())
    } else {
        string_of(out.as_slice())
    }
}


/// Which service alerts are sent, and where.
pub struct AlertManager {
    webhook_url: Option<String>,
    enabled: bool,
    on_service_down: bool,
    on_service_up: bool,
}

/// The kinds of alert.
#[derive(Debug, Clone, Copy, PartialEq, Eq, Structural)]
pub enum AlertKind {
    ServiceDown,
    ServiceUp,
    /// Any other event.
    Generic,
}

/// The webhook an alert goes to under these settings: none when alerting
/// is off, when this kind is switched off, or when no non-empty webhook
/// URL is configured.
pub open spec fn alert_target_of(
    url: Option<Seq<char>>,
    enabled: bool,
    on_down: bool,
    on_up: bool,
    kind: AlertKind,
) -> Option<Seq<char>> {
    let wanted = enabled && match kind {
        AlertKind::ServiceDown => on_down,
        AlertKind::ServiceUp => on_up,
        AlertKind::Generic => true,
    };
    match url {
        Some(u) => if wanted && u.len() > 0 {
            Some(u)
        } else {
            None
        },
        None => None,
    }
}

/// The settings' webhook URL as text.
pub open spec fn url_text(u: Option<String>) -> Option<Seq<char>> {
    match u {
        Some(s) => Some(s@),
        None => None,
    }
}

fn copy_url(u: &Option<String>) -> (r: Option<String>)
    ensures
        url_text(r) == url_text(*u),
{
    match u {
        Some(s) => Some(string_of(chars_of(s.as_str()).as_slice())),
        None => None,
    }
}

impl AlertManager {
    /// The configured webhook URL.
    pub closed spec fn url(&self) -> Option<Seq<char>> {
        url_text(self.webhook_url)
    }

    /// The switches: alerting on, service-down alerts, service-up alerts.
    pub closed spec fn switches(&self) -> (bool, bool, bool) {
        (self.enabled, self.on_service_down, self.on_service_up)
    }

    pub fn new(webhook_url: Option<String>, enabled: bool, on_service_down: bool, on_service_up: bool) -> (m: Self)
        ensures
            m.url() == url_text(webhook_url),
            m.switches() == (enabled, on_service_down, on_service_up),
    {
        AlertManager { webhook_url, enabled, on_service_down, on_service_up }
    }

    /// Replaces all the settings.
    pub fn update_config(&mut self, webhook_url: Option<String>, enabled: bool, on_service_down: bool, on_service_up: bool)
        ensures
            final(self).url() == url_text(webhook_url),
            final(self).switches() == (enabled, on_service_down, on_service_up),
    {
        self.webhook_url = webhook_url;
        self.enabled = enabled;
        self.on_service_down = on_service_down;
        self.on_service_up = on_service_up;
    }

    /// A copy of the settings: URL, on, service-down, service-up.
    pub fn snapshot(&self) -> (r: (Option<String>, bool, bool, bool))
        ensures
            url_text(r.0) == self.url(),
            (r.1, r.2, r.3) == self.switches(),
    {
        (copy_url(&self.webhook_url), self.enabled, self.on_service_down, self.on_service_up)
    }

    /// Where an alert of this kind is to be posted, if anywhere.
    pub fn alert_target(&self, kind: AlertKind) -> (r: Option<String>)
        ensures
            url_text(r) == alert_target_of(self.url(), self.switches().0, self.switches().1, self.switches().2, kind),
    {
        let wanted = self.enabled && match kind {
            AlertKind::ServiceDown => self.on_service_down,
            AlertKind::ServiceUp => self.on_service_up,
            AlertKind::Generic => true,
        };
        match &self.webhook_url {
            Some(u) => {
                let c = chars_of(u.as_str());
                if wanted && c.len() > 0 {
                    Some(string_of(c.as_slice()))
                } else {
                    None
                }
            },
            None => None,
        }
    }
}

/// Switching a kind of alert off, or alerting as a whole, silences it
/// whatever the URL.
pub proof fn law_switched_off_is_silent(url: Option<Seq<char>>, on_down: bool, on_up: bool, kind: AlertKind)
    ensures
        alert_target_of(url, false, on_down, on_up, kind) is None,
        alert_target_of(url, true, false, on_up, AlertKind::ServiceDown) is None,
        alert_target_of(url, true, on_down, false, AlertKind::ServiceUp) is None,
{
}

} // verus!
