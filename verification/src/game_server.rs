//! The servers an instance lists.
use vstd::prelude::*;

use crate::launcher::game_setting_obj::InstanceSettingObj;
use crate::text::{copy_str, str_eq};

verus! {

/// A server of an instance's list: its address, name, icon (as text) and whether it
/// sends resource packs without asking, with the instance it belongs to.
#[derive(Debug)]
pub struct ServerInfoObj {
    pub ip: String,
    pub name: String,
    pub icon: Option<String>,
    pub accept_textures: bool,
    pub instance: std::sync::Arc<InstanceSettingObj>,
}

/// The fields of an entry of the server list, as read: each where it is present.
#[derive(Debug)]
pub struct ServerFields {
    pub name: Option<String>,
    pub ip: Option<String>,
    pub icon: Option<String>,
    pub accept_textures: Option<i8>,
}

/// A server with an address and a name and nothing else known.
pub fn new_server(name: &str, ip: &str) -> (r: ServerInfoObj)
    ensures
        r.name@ == name@,
        r.ip@ == ip@,
        r.icon is None,
        !r.accept_textures,
{
    ServerInfoObj {
        ip: copy_str(ip),
        name: copy_str(name),
        icon: None,
        accept_textures: false,
        instance: std::sync::Arc::new(InstanceSettingObj::default()),
    }
}

/// The server an entry of the list describes: its name, address and icon where given
/// (empty, empty and none otherwise), sending packs without asking where its switch is
/// exactly 1.
pub fn server_from(f: &ServerFields) -> (r: ServerInfoObj)
    ensures
        r.name@ == match f.name {
            Some(n) => n@,
            None => Seq::<char>::empty(),
        },
        r.ip@ == match f.ip {
            Some(n) => n@,
            None => Seq::<char>::empty(),
        },
        match f.icon {
            Some(i) => r.icon matches Some(x) && x@ == i@,
            None => r.icon is None,
        },
        r.accept_textures == (f.accept_textures == Some(1i8)),
{
    let mut r = new_server("", "");
    proof {
        reveal_strlit("");
    }
    if let Some(n) = &f.name {
        r.name = copy_str(n.as_str());
    }
    if let Some(ip) = &f.ip {
        r.ip = copy_str(ip.as_str());
    }
    if let Some(icon) = &f.icon {
        r.icon = Some(copy_str(icon.as_str()));
    }
    if let Some(a) = f.accept_textures {
        r.accept_textures = a == 1;
    }
    r
}

/// The fields an entry of the list is written with: name, address, icon where there is
/// one, and the switch as 1 or 0.
pub fn server_fields(s: &ServerInfoObj) -> (r: ServerFields)
    ensures
        r.name matches Some(n) && n@ == s.name@,
        r.ip matches Some(n) && n@ == s.ip@,
        match s.icon {
            Some(i) => r.icon matches Some(x) && x@ == i@,
            None => r.icon is None,
        },
        r.accept_textures == Some(if s.accept_textures {
            1i8
        } else {
            0i8
        }),
{
    ServerFields {
        name: Some(copy_str(s.name.as_str())),
        ip: Some(copy_str(s.ip.as_str())),
        icon: match &s.icon {
            Some(i) => Some(copy_str(i.as_str())),
            None => None,
        },
        accept_textures: Some(
            if s.accept_textures {
                1
            } else {
                0
            },
        ),
    }
}

/// The name and address of each server of a list.
pub open spec fn server_keys(list: Seq<ServerInfoObj>) -> Seq<(Seq<char>, Seq<char>)> {
    list.map_values(|s: ServerInfoObj| (s.name@, s.ip@))
}

/// The list once a server is added: the same list with the new server at its end.
pub fn add_server(list: &mut Vec<ServerInfoObj>, name: &str, ip: &str)
    ensures
        server_keys(final(list)@) == server_keys(old(list)@).push((name@, ip@)),
        final(list)@.last().icon is None,
        !final(list)@.last().accept_textures,
{
    let ghost l0 = list@;
    list.push(new_server(name, ip));
    assert(server_keys(list@) =~= server_keys(l0).push((name@, ip@)));
}

/// The servers of the first `n` except those whose name and address are exactly these,
/// in order.
pub open spec fn kept_upto(
    list: Seq<(Seq<char>, Seq<char>)>,
    name: Seq<char>,
    ip: Seq<char>,
    n: int,
) -> Seq<(Seq<char>, Seq<char>)>
    decreases n,
{
    if n <= 0 {
        seq![]
    } else if list[n - 1] == (name, ip) {
        kept_upto(list, name, ip, n - 1)
    } else {
        kept_upto(list, name, ip, n - 1).push(list[n - 1])
    }
}

/// The list a removal of a server leaves: every server whose name and address are
/// exactly these is deleted; the others stay, in order.
pub fn remove_server(list: Vec<ServerInfoObj>, name: &str, ip: &str) -> (r: Vec<ServerInfoObj>)
    ensures
        server_keys(r@) == kept_upto(
            server_keys(list@),
            name@,
            ip@,
            list@.len() as int,
        ),
{
    let ghost keys = server_keys(list@);
    let len = list.len();
    let ghost n = list@.len();
    assert(n == len);
    let mut rest = list;
    let mut out: Vec<ServerInfoObj> = Vec::new();
    let mut i: usize = 0;
    while rest.len() > 0
        invariant
            rest@.len() + i == n,
            n <= usize::MAX,
            server_keys(rest@) == keys.skip(i as int),
            keys.len() == n,
            server_keys(out@) == kept_upto(keys, name@, ip@, i as int),
        decreases rest@.len(),
    {
        let ghost r0 = rest@;
        let s = rest.remove(0);
        assert(rest@ =~= r0.drop_first());
        assert(server_keys(rest@) =~= server_keys(r0).drop_first());
        assert(keys.skip(i as int).drop_first() =~= keys.skip(i + 1));
        assert(keys[i as int] == (s.name@, s.ip@)) by {
            assert(server_keys(r0)[0] == (s.name@, s.ip@));
        }
        if !(str_eq(s.name.as_str(), name) && str_eq(s.ip.as_str(), ip)) {
            let ghost o0 = out@;
            out.push(s);
            assert(server_keys(out@) =~= server_keys(o0).push(keys[i as int]));
        }
        i = i + 1;
    }
    out
}

} // verus!
