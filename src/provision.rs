use vstd::prelude::*;
use vstd::string::*;

use crate::text::{decimal, decimal_text};

verus! {

/// The prefix of the names of the namespaces and links that this library creates.
pub open spec fn cab_prefix() -> Seq<char> {
    seq!['c', 'a', 'b', '-']
}

/// The name of the namespace of the UE created at address text `ip`.
pub open spec fn netns_name(ip: Seq<char>) -> Seq<char> {
    cab_prefix() + ip
}

fn cab_string() -> (r: String)
    ensures
        r@ == cab_prefix(),
{
    proof {
        reveal_strlit("cab-");
    }
    String::from_str("cab-")
}

/// The name under which the namespace of the UE at `ip` is registered: `cab-<ip>`.
pub fn netns_for_ip(ip: &str) -> (r: String)
    ensures
        r@ == netns_name(ip@),
{
    let mut s = cab_string();
    s.append(ip);
    s
}

/// The texts that a list of arguments holds.
pub open spec fn texts(v: Seq<String>) -> Seq<Seq<char>> {
    v.map_values(|s: String| s@)
}

/// The name of the TUN link that the UE whose anchor process is `pid` creates: `cab-<pid>`.
pub open spec fn link_name(pid: nat) -> Seq<char> {
    cab_prefix() + decimal_text(pid)
}

/// `ip netns attach <netns> <pid>`: registers the namespace of process `pid` under a name.
pub open spec fn attach_netns_cmd(netns: Seq<char>, pid: nat) -> Seq<Seq<char>> {
    seq!["netns"@, "attach"@, netns, decimal_text(pid)]
}

/// `ip netns delete <netns>`: removes the name of a namespace.
pub open spec fn detach_netns_cmd(netns: Seq<char>) -> Seq<Seq<char>> {
    seq!["netns"@, "delete"@, netns]
}

/// `ip -n <netns> addr add <ip>/24 dev <link>`: gives the link an address.
pub open spec fn assign_ip_cmd(netns: Seq<char>, ip: Seq<char>, link: Seq<char>) -> Seq<Seq<char>> {
    seq!["-n"@, netns, "addr"@, "add"@, ip + "/24"@, "dev"@, link]
}

/// `ip -n <netns> link set dev <link> up`: brings the link up.
pub open spec fn link_up_cmd(netns: Seq<char>, link: Seq<char>) -> Seq<Seq<char>> {
    seq!["-n"@, netns, "link"@, "set"@, "dev"@, link, "up"@]
}

/// `ip -n <netns> route add default via <ip> dev <link>`: the default route of the namespace.
pub open spec fn default_route_cmd(netns: Seq<char>, ip: Seq<char>, link: Seq<char>) -> Seq<
    Seq<char>,
> {
    seq!["-n"@, netns, "route"@, "add"@, "default"@, "via"@, ip, "dev"@, link]
}

/// `bash -s -- <netns> <subnet>`: runs the gateway script, read from standard input, with the
/// namespace and the subnet as its positional arguments.
pub open spec fn internet_setup_cmd(netns: Seq<char>, subnet: Seq<char>) -> Seq<Seq<char>> {
    seq!["-s"@, "--"@, netns, subnet]
}

/// The name of the TUN link of the UE whose anchor process is `pid`.
pub fn tun_name(pid: u32) -> (r: String)
    ensures
        r@ == link_name(pid as nat),
{
    let mut s = cab_string();
    let d = decimal(pid);
    s.append(d.as_str());
    s
}

/// Arguments of `ip` that register the namespace of process `pid` as `netns`.
pub fn attach_netns_args(netns: &str, pid: u32) -> (r: Vec<String>)
    ensures
        texts(r@) == attach_netns_cmd(netns@, pid as nat),
{
    let r = vec![String::from_str("netns"), String::from_str("attach"), String::from_str(netns), decimal(pid)];
    proof {
        assert(texts(r@) =~= attach_netns_cmd(netns@, pid as nat));
    }
    r
}

/// Arguments of `ip` that remove the name `netns`.
pub fn detach_netns_args(netns: &str) -> (r: Vec<String>)
    ensures
        texts(r@) == detach_netns_cmd(netns@),
{
    let r = vec![String::from_str("netns"), String::from_str("delete"), String::from_str(netns)];
    proof {
        assert(texts(r@) =~= detach_netns_cmd(netns@));
    }
    r
}

/// Arguments of `ip` that give `link` in `netns` the address `ip` in a /24 network.
pub fn assign_ip_args(netns: &str, ip: &str, link: &str) -> (r: Vec<String>)
    ensures
        texts(r@) == assign_ip_cmd(netns@, ip@, link@),
{
    let mut cidr = String::from_str(ip);
    cidr.append("/24");
    let r = vec![
        String::from_str("-n"),
        String::from_str(netns),
        String::from_str("addr"),
        String::from_str("add"),
        cidr,
        String::from_str("dev"),
        String::from_str(link),
    ];
    proof {
        assert(texts(r@) =~= assign_ip_cmd(netns@, ip@, link@));
    }
    r
}

/// Arguments of `ip` that bring `link` in `netns` up.
pub fn link_up_args(netns: &str, link: &str) -> (r: Vec<String>)
    ensures
        texts(r@) == link_up_cmd(netns@, link@),
{
    let r = vec![
        String::from_str("-n"),
        String::from_str(netns),
        String::from_str("link"),
        String::from_str("set"),
        String::from_str("dev"),
        String::from_str(link),
        String::from_str("up"),
    ];
    proof {
        assert(texts(r@) =~= link_up_cmd(netns@, link@));
    }
    r
}

/// Arguments of `ip` that install in `netns` the default route via `ip` over `link`.
pub fn default_route_args(netns: &str, ip: &str, link: &str) -> (r: Vec<String>)
    ensures
        texts(r@) == default_route_cmd(netns@, ip@, link@),
{
    let r = vec![
        String::from_str("-n"),
        String::from_str(netns),
        String::from_str("route"),
        String::from_str("add"),
        String::from_str("default"),
        String::from_str("via"),
        String::from_str(ip),
        String::from_str("dev"),
        String::from_str(link),
    ];
    proof {
        assert(texts(r@) =~= default_route_cmd(netns@, ip@, link@));
    }
    r
}

/// Arguments of `bash` that run the gateway script for `netns` and `subnet`.
pub fn internet_setup_args(netns: &str, subnet: &str) -> (r: Vec<String>)
    ensures
        texts(r@) == internet_setup_cmd(netns@, subnet@),
{
    let r = vec![
        String::from_str("-s"),
        String::from_str("--"),
        String::from_str(netns),
        String::from_str(subnet),
    ];
    proof {
        assert(texts(r@) =~= internet_setup_cmd(netns@, subnet@));
    }
    r
}

} // verus!
