//! Alert channels (Slack, Discord, Telegram, PagerDuty, generic webhooks)
//! and what is sent to them. The deliveries are made by the caller.
use vstd::prelude::*;
use crate::text::{chars_of, string_of, concat, find, slice, occurs_at, contains_seq, eq_str};
use crate::config::text;

verus! {

/// The kind of a channel, with what the kind needs.
pub enum ChannelType {
    Slack,
    Discord,
    Telegram { chat_id: String },
    PagerDuty { routing_key: String },
    GenericWebhook,
}

/// A configured channel.
pub struct AlertChannel {
    pub name: String,
    pub channel_type: ChannelType,
    pub url: String,
    pub enabled: bool,
}

/// The channels, in the order they were added.
pub struct AlertDispatcher {
    channels: Vec<AlertChannel>,
}

impl ChannelType {
    /// The kind's display name.
    pub fn label(&self) -> (s: &'static str)
        ensures
            self is Slack ==> s@ == "Slack"@,
            self is Discord ==> s@ == "Discord"@,
            self is Telegram ==> s@ == "Telegram"@,
            self is PagerDuty ==> s@ == "PagerDuty"@,
            self is GenericWebhook ==> s@ == "Webhook"@,
    {
        match self {
            ChannelType::Slack => "Slack",
            ChannelType::Discord => "Discord",
            ChannelType::Telegram { .. } => "Telegram",
            ChannelType::PagerDuty { .. } => "PagerDuty",
            ChannelType::GenericWebhook => "Webhook",
        }
    }
}

impl AlertDispatcher {
    /// The channels.
    pub closed spec fn channels(&self) -> Seq<AlertChannel> {
        self.channels@
    }

    pub fn new() -> (d: Self)
        ensures
            d.channels().len() == 0,
    {
        AlertDispatcher { channels: Vec::new() }
    }

    pub fn add_channel(&mut self, channel: AlertChannel)
        ensures
            final(self).channels() == old(self).channels().push(channel),
    {
        self.channels.push(channel);
    }

    pub fn channel_count(&self) -> (n: usize)
        ensures
            n == self.channels().len(),
    {
        self.channels.len()
    }

    /// Positions of the enabled channels, which an alert goes to, in order.
    pub fn enabled_channels(&self) -> (idx: Vec<usize>)
        ensures
            forall|k: int| 0 <= k < idx@.len() ==> idx@[k] < self.channels().len() && self.channels()[idx@[k] as int].enabled,
            forall|k: int, l: int| 0 <= k < l < idx@.len() ==> idx@[k] < idx@[l],
            forall|i: int| 0 <= i < self.channels().len() && (#[trigger] self.channels()[i]).enabled ==> idx@.contains(i as usize),
    {
        let mut idx: Vec<usize> = Vec::new();
        let mut i: usize = 0;
        while i < self.channels.len()
            invariant
                i <= self.channels@.len(),
                forall|k: int| 0 <= k < idx@.len() ==> idx@[k] < i && self.channels@[idx@[k] as int].enabled,
                forall|k: int, l: int| 0 <= k < l < idx@.len() ==> idx@[k] < idx@[l],
                forall|j: int| 0 <= j < i && (#[trigger] self.channels@[j]).enabled ==> idx@.contains(j as usize),
            decreases self.channels@.len() - i,
        {
            if self.channels[i].enabled {
                let ghost before = idx@;
                idx.push(i);
                proof {
                    assert(idx@[idx@.len() - 1] == i);
                    assert forall|j: int| 0 <= j < i + 1 && (#[trigger] self.channels@[j]).enabled implies idx@.contains(j as usize) by {
                        if j < i {
                            let k = choose|k: int| 0 <= k < before.len() && before[k] == j as usize;
                            assert(idx@[k] == j as usize);
                        }
                    }
                }
            }
            i = i + 1;
        }
        idx
    }

    /// The channel at position `i`.
    pub fn channel_at(&self, i: usize) -> (c: &AlertChannel)
        requires
            i < self.channels().len(),
        ensures
            *c == self.channels()[i as int],
    {
        &self.channels[i]
    }
}

/// The Slack attachment colour for a severity.
pub fn slack_color(severity: &str) -> (c: &'static str)
    ensures
        severity@ == "critical"@ ==> c@ == "#dc2626"@,
        severity@ == "warning"@ ==> c@ == "#f59e0b"@,
        severity@ != "critical"@ && severity@ != "warning"@ ==> c@ == "#10b981"@,
{
    proof {
        reveal_strlit("critical");
        reveal_strlit("warning");
        assert("critical"@.len() == 8 && "warning"@.len() == 7);
    }
    let s = chars_of(severity);
    if eq_str(s.as_slice(), "critical") {
        "#dc2626"
    } else if eq_str(s.as_slice(), "warning") {
        "#f59e0b"
    } else {
        "#10b981"
    }
}

/// The Discord embed colour for a severity.
pub fn discord_color(severity: &str) -> (c: u32)
    ensures
        severity@ == "critical"@ ==> c == 0xdc2626,
        severity@ == "warning"@ ==> c == 0xf59e0b,
        severity@ != "critical"@ && severity@ != "warning"@ ==> c == 0x10b981,
{
    proof {
        reveal_strlit("critical");
        reveal_strlit("warning");
        assert("critical"@.len() == 8 && "warning"@.len() == 7);
    }
    let s = chars_of(severity);
    if eq_str(s.as_slice(), "critical") {
        0xdc2626
    } else if eq_str(s.as_slice(), "warning") {
        0xf59e0b
    } else {
        0x10b981
    }
}

/// The Telegram send URL for a bot token.
pub fn telegram_url(bot_token: &str) -> (u: String)
    ensures
        u@ == "https://api.telegram.org/bot"@ + bot_token@ + "/sendMessage"@,
{
    let a = concat(chars_of("https://api.telegram.org/bot").as_slice(), chars_of(bot_token).as_slice());
    let b = concat(a.as_slice(), chars_of("/sendMessage").as_slice());
    string_of(b.as_slice())
}

/// The first position of `t` in `s`, when it occurs.
pub open spec fn first_at(s: Seq<char>, t: Seq<char>, i: int) -> bool {
    occurs_at(s, t, i) && forall|j: int| 0 <= j < i ==> !occurs_at(s, t, j)
}

/// A Telegram URL for logs: the bot token between `/bot` and the next `/`
/// replaced by `<REDACTED>`; the whole URL when that shape is not found.
pub open spec fn redacted(url: Seq<char>) -> Seq<char> {
    if exists|i: int| first_at(url, "/bot"@, i) {
        let i = choose|i: int| first_at(url, "/bot"@, i);
        let rest = url.subrange(i + 4, url.len() as int);
        if exists|j: int| first_at(rest, "/"@, j) {
            let j = choose|j: int| first_at(rest, "/"@, j);
            url.subrange(0, i + 4) + "<REDACTED>"@ + rest.subrange(j, rest.len() as int)
        } else {
            "<REDACTED>"@
        }
    } else {
        "<REDACTED>"@
    }
}

proof fn lemma_first_unique(s: Seq<char>, t: Seq<char>, i: int, k: int)
    requires
        first_at(s, t, i),
        first_at(s, t, k),
    ensures
        i == k,
{
    if i < k {
        assert(!occurs_at(s, t, i));
    } else if k < i {
        assert(!occurs_at(s, t, k));
    }
}

/// Redacts the bot token of a Telegram URL.
pub fn redact_telegram_url(url: &str) -> (r: String)
    ensures
        r@ == redacted(url@),
{
    let u = chars_of(url);
    let bot = chars_of("/bot");
    match find(u.as_slice(), bot.as_slice()) {
        Some(i) => {
            proof {
                reveal_strlit("/bot");
                assert(bot@.len() == 4);
                assert(occurs_at(u@, bot@, i as int));
                assert(i + 4 <= u@.len());
                assert(first_at(url@, "/bot"@, i as int));
                let c = choose|c: int| first_at(url@, "/bot"@, c);
                lemma_first_unique(url@, "/bot"@, i as int, c);
            }
            let n = u.len();
            assert(i + 4 <= n);
            let rest = slice(u.as_slice(), i + 4, n);
            let slash = chars_of("/");
            match find(rest.as_slice(), slash.as_slice()) {
                Some(j) => {
                    proof {
                        assert(first_at(rest@, "/"@, j as int));
                        let c = choose|c: int| first_at(rest@, "/"@, c);
                        lemma_first_unique(rest@, "/"@, j as int, c);
                    }
                    let a = slice(u.as_slice(), 0, i + 4);
                    let b = concat(a.as_slice(), chars_of("<REDACTED>").as_slice());
                    let tail = slice(rest.as_slice(), j, rest.len());
                    let c = concat(b.as_slice(), tail.as_slice());
                    string_of(c.as_slice())
                },
                None => {
                    proof {
                        assert forall|j: int| !first_at(rest@, "/"@, j) by {}
                    }
                    text("<REDACTED>")
                },
            }
        },
        None => {
            proof {
                assert forall|i: int| !first_at(url@, "/bot"@, i) by {}
            }
            text("<REDACTED>")
        },
    }
}

} // verus!
