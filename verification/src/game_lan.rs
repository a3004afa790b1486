//! Games opened to the local network: the announcements they send.
use vstd::prelude::*;

use crate::game_log::{regex_captures, CompiledPattern};
use crate::text::{copy_str, push_str};

verus! {

/// The port games announce themselves on.
pub const PORT: u16 = 4445;

/// The IPv4 group of the announcements.
pub const IPV4: &'static str = "224.0.2.60";

/// The IPv6 group of the announcements.
pub const IPV6: &'static str = "FF75:230::60";

/// An announcement: `[MOTD]message[/MOTD][AD]port[/AD]`.
pub const LAN_PATTERN: &'static str = r"\[MOTD\](.*?)\[/MOTD\]\[AD\](.*?)\[/AD\]";

/// A game announced on the network: its message and the port it listens on.
#[derive(Debug)]
pub struct GameMotd {
    pub motd: String,
    pub ip: String,
}

/// Capture group `i`, where the match has it.
pub open spec fn group(caps: Seq<Option<Seq<char>>>, i: int) -> Option<Seq<char>> {
    if 0 <= i < caps.len() {
        caps[i]
    } else {
        None
    }
}

/// A group's text, or `missing` where it took no part.
pub open spec fn group_or_missing(caps: Seq<Option<Seq<char>>>, i: int) -> Seq<char> {
    match group(caps, i) {
        Some(s) => s,
        None => "missing"@,
    }
}

/// What an announcement text gives: where the announcement pattern matches, the
/// message and port it captures (`missing` for a group that took no part).
pub open spec fn spec_motd(text: Seq<char>) -> Option<(Seq<char>, Seq<char>)> {
    match regex_captures(LAN_PATTERN@, text) {
        Some(caps) => Some((group_or_missing(caps, 1), group_or_missing(caps, 2))),
        None => None,
    }
}

/// Reads an announcement (see `spec_motd`) with the compiled announcement pattern.
pub fn get_motd(pattern: &CompiledPattern, text: &str) -> (r: Option<GameMotd>)
    requires
        pattern.pattern() == LAN_PATTERN@,
    ensures
        match spec_motd(text@) {
            Some((m, p)) => r matches Some(g) && g.motd@ == m && g.ip@ == p,
            None => r is None,
        },
{
    let caps = match pattern.captures(text) {
        Some(c) => c,
        None => {
            return None;
        },
    };
    proof {
        reveal_strlit("missing");
    }
    let motd = if 1 < caps.len() {
        match &caps[1] {
            Some(s) => copy_str(s.as_str()),
            None => copy_str("missing"),
        }
    } else {
        copy_str("missing")
    };
    let ip = if 2 < caps.len() {
        match &caps[2] {
            Some(s) => copy_str(s.as_str()),
            None => copy_str("missing"),
        }
    } else {
        copy_str("missing")
    };
    Some(GameMotd { motd, ip })
}

/// The announcement of a game: `[MOTD]message[/MOTD][AD]port[/AD]`.
pub fn build_motd(motd: &GameMotd) -> (r: String)
    ensures
        r@ == "[MOTD]"@ + motd.motd@ + "[/MOTD][AD]"@ + motd.ip@ + "[/AD]"@,
{
    let mut r = copy_str("[MOTD]");
    push_str(&mut r, motd.motd.as_str());
    push_str(&mut r, "[/MOTD][AD]");
    push_str(&mut r, motd.ip.as_str());
    push_str(&mut r, "[/AD]");
    r
}

/// A network interface as the LAN listener sees it: whether it is the loopback, whether
/// its address is IPv6, and its index where the system gives one.
#[derive(Debug, Clone, Copy)]
pub struct LanInterface {
    pub loopback: bool,
    pub ipv6: bool,
    pub index: Option<u32>,
}

/// A group join the listener makes: the IPv4 group on the interface at position `i`
/// of the list, or the IPv6 group on the interface of a system index.
#[derive(Debug, Clone, Copy, PartialEq, Eq, Structural)]
pub enum JoinStep {
    V4(usize),
    V6(u32),
}

/// Some interface other than the loopback has an IPv6 address.
pub open spec fn spec_uses_v6(ifs: Seq<LanInterface>) -> bool {
    exists|i: int| 0 <= i < ifs.len() && !(#[trigger] ifs[i]).loopback && ifs[i].ipv6
}

/// Whether the listener opens an IPv6 socket: where some interface other than the
/// loopback has an IPv6 address.
pub fn lan_uses_v6(ifs: &Vec<LanInterface>) -> (r: bool)
    ensures
        r == spec_uses_v6(ifs@),
{
    let mut i: usize = 0;
    while i < ifs.len()
        invariant
            i <= ifs@.len(),
            forall|j: int| 0 <= j < i ==> !(!(#[trigger] ifs@[j]).loopback && ifs@[j].ipv6),
        decreases ifs@.len() - i,
    {
        if !ifs[i].loopback && ifs[i].ipv6 {
            assert(!ifs@[i as int].loopback && ifs@[i as int].ipv6);
            return true;
        }
        i = i + 1;
    }
    false
}

/// The joins for the first `n` interfaces: none for the loopback; the IPv4 group on an
/// IPv4 interface; the IPv6 group on an IPv6 one, by its index.
pub open spec fn join_plan_upto(ifs: Seq<LanInterface>, n: int) -> Seq<JoinStep>
    decreases n,
{
    if n <= 0 {
        seq![]
    } else {
        let p = join_plan_upto(ifs, n - 1);
        let it = ifs[n - 1];
        if it.loopback {
            p
        } else if !it.ipv6 {
            p.push(JoinStep::V4((n - 1) as usize))
        } else {
            match it.index {
                Some(x) => p.push(JoinStep::V6(x)),
                None => p,
            }
        }
    }
}

/// Every IPv6 interface other than the loopback has an index (the listener cannot
/// join the IPv6 group on one without).
pub open spec fn v6_indexed(ifs: Seq<LanInterface>) -> bool {
    forall|i: int| 0 <= i < ifs.len() && !(#[trigger] ifs[i]).loopback && ifs[i].ipv6 ==> ifs[i].index is Some
}

/// The group joins the listener makes, interface by interface (see `join_plan_upto`).
pub fn lan_join_plan(ifs: &Vec<LanInterface>) -> (r: Vec<JoinStep>)
    requires
        v6_indexed(ifs@),
    ensures
        r@ == join_plan_upto(ifs@, ifs@.len() as int),
{
    let mut r: Vec<JoinStep> = Vec::new();
    let mut i: usize = 0;
    while i < ifs.len()
        invariant
            i <= ifs@.len(),
            v6_indexed(ifs@),
            r@ == join_plan_upto(ifs@, i as int),
        decreases ifs@.len() - i,
    {
        let it = ifs[i];
        if it.loopback {
        } else if !it.ipv6 {
            r.push(JoinStep::V4(i));
        } else {
            assert(!ifs@[i as int].loopback && ifs@[i as int].ipv6);
            match it.index {
                Some(x) => r.push(JoinStep::V6(x)),
                None => {},
            }
        }
        i = i + 1;
    }
    r
}

} // verus!
