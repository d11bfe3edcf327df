//! mDNS announcement: `<name>.local` for this machine's LAN addresses, so
//! phones and tablets on the same network resolve the name with nothing
//! installed (RFC 6762).

use vstd::prelude::*;

use crate::net::Ip;
use crate::protocol;
use crate::text;

verus! {

/// Record TTL in seconds. Short, because shares are ephemeral.
pub const TTL: u32 = 60;

/// Why a name is not announced.
#[derive(Debug)]
pub enum MdnsError {
    /// The network interfaces could not be listed.
    Interfaces,
    /// No interface has an address that the LAN can use.
    NoLanAddress,
    /// The name is not a valid tunnel name.
    InvalidName(String),
    /// There is no address to announce.
    NothingToAnnounce,
    /// This is not a DNS name.
    InvalidMdnsName(String),
}

impl MdnsError {
    /// What the user is told.
    pub fn message(&self) -> (r: String)
        ensures
            r@ == match self {
                MdnsError::Interfaces => "listing network interfaces"@,
                MdnsError::NoLanAddress => "no LAN address found — is Wi-Fi/Ethernet up?"@,
                MdnsError::InvalidName(name) => protocol::invalid_name_text(name@),
                MdnsError::NothingToAnnounce => "no LAN address to announce"@,
                MdnsError::InvalidMdnsName(fqdn) => "invalid mDNS name "@ + text::debug_text(fqdn@),
            },
    {
        match self {
            MdnsError::Interfaces => "listing network interfaces".to_owned(),
            MdnsError::NoLanAddress => "no LAN address found — is Wi-Fi/Ethernet up?".to_owned(),
            MdnsError::InvalidName(name) => protocol::invalid_name_message(name.as_str()),
            MdnsError::NothingToAnnounce => "no LAN address to announce".to_owned(),
            MdnsError::InvalidMdnsName(fqdn) => {
                let mut out: String = "invalid mDNS name ".to_owned();
                out.append(text::quoted(fqdn.as_str()).as_str());
                out
            },
        }
    }
}

/// Whether an IPv4 address is one that the LAN can use: neither in the
/// loopback block 127.0.0.0/8 nor in the link-local block 169.254.0.0/16.
pub open spec fn lan_address(bits: u32) -> bool {
    bits / 0x100_0000 != 127 && bits / 0x1_0000 != 0xa9fe
}

/// The addresses to announce. IPv6 is skipped: link-local addresses need zone
/// ids, unique local ones are rare.
pub open spec fn announceable(ip: Ip) -> bool {
    match ip {
        Ip::V4(bits) => lan_address(bits),
        Ip::V6(_) => false,
    }
}

/// Whether there is no address to announce.
pub open spec fn none_announceable(ips: Seq<Ip>) -> bool {
    forall|ip: Ip| #[trigger] ips.contains(ip) ==> !announceable(ip)
}

/// Whether a list of IPv4 addresses ascends, so that none occurs twice.
pub open spec fn ascending(ips: Seq<Ip>) -> bool {
    forall|i: int, j: int|
        0 <= i < j < ips.len() ==> match (#[trigger] ips[i], #[trigger] ips[j]) {
            (Ip::V4(a), Ip::V4(b)) => a < b,
            _ => false,
        }
}

/// A list of addresses in ascending order is fixed by what it holds: there is
/// one answer to what the LAN addresses of a machine are.
pub proof fn lan_addresses_are_determined(a: Seq<Ip>, b: Seq<Ip>)
    requires
        ascending(a),
        ascending(b),
        forall|ip: Ip| a.contains(ip) <==> b.contains(ip),
    ensures
        a == b,
    decreases a.len(),
{
    if a.len() == 0 {
        if b.len() > 0 {
            assert(b.contains(b[0]));
        }
    } else if b.len() == 0 {
        assert(a.contains(a[0]));
    } else {
        let x = a.last();
        let y = b.last();
        assert(a.contains(x));
        assert(b.contains(y));
        let i = choose|i: int| 0 <= i < b.len() && b[i] == x;
        let j = choose|j: int| 0 <= j < a.len() && a[j] == y;
        assert(x == y) by {
            if i < b.len() - 1 && j < a.len() - 1 {
                assert(a[j] == y && a[a.len() - 1] == x);
                assert(b[i] == x && b[b.len() - 1] == y);
            }
        }
        let c = a.drop_last();
        let d = b.drop_last();
        assert forall|ip: Ip| c.contains(ip) <==> d.contains(ip) by {
            if c.contains(ip) {
                let k = choose|k: int| 0 <= k < c.len() && c[k] == ip;
                assert(a[k] == ip);
                assert(a.contains(ip));
                let l = choose|l: int| 0 <= l < b.len() && b[l] == ip;
                if l == b.len() - 1 {
                    assert(a[k] == a[a.len() - 1]);
                }
                assert(d[l] == ip);
            }
            if d.contains(ip) {
                let k = choose|k: int| 0 <= k < d.len() && d[k] == ip;
                assert(b[k] == ip);
                assert(b.contains(ip));
                let l = choose|l: int| 0 <= l < a.len() && a[l] == ip;
                if l == a.len() - 1 {
                    assert(b[k] == b[b.len() - 1]);
                }
                assert(c[l] == ip);
            }
        }
        lan_addresses_are_determined(c, d);
        assert(a =~= c.push(x));
        assert(b =~= d.push(y));
    }
}

/// What `lan_ips` makes of the addresses of the network interfaces: those to
/// announce, ascending, each once; an error if there is none.
pub open spec fn lan_outcome(found: Option<Seq<Ip>>, r: Result<Seq<Ip>, MdnsError>) -> bool {
    match found {
        None => r == Err::<Seq<Ip>, MdnsError>(MdnsError::Interfaces),
        Some(all) => match r {
            Ok(ips) => {
                &&& ips.len() > 0
                &&& ascending(ips)
                &&& forall|ip: Ip| #[trigger]
                    ips.contains(ip) <==> all.contains(ip) && announceable(ip)
            },
            Err(e) => e == MdnsError::NoLanAddress && none_announceable(all),
        },
    }
}

/// The addresses as a sequence, on success.
pub open spec fn addresses(r: Result<Vec<Ip>, MdnsError>) -> Result<Seq<Ip>, MdnsError> {
    match r {
        Ok(ips) => Ok(ips@),
        Err(e) => Err(e),
    }
}

/// The addresses that were listed, if they could be.
pub open spec fn listed(found: Option<Vec<Ip>>) -> Option<Seq<Ip>> {
    match found {
        Some(all) => Some(all@),
        None => None,
    }
}

/// Put an IPv4 address into an ascending list, unless it is there.
fn insert_address(ips: &mut Vec<Ip>, bits: u32)
    requires
        ascending(old(ips)@),
        forall|i: int| 0 <= i < old(ips)@.len() ==> (#[trigger] old(ips)@[i]) is V4,
    ensures
        ascending(final(ips)@),
        forall|i: int| 0 <= i < final(ips)@.len() ==> (#[trigger] final(ips)@[i]) is V4,
        forall|ip: Ip| #[trigger]
            final(ips)@.contains(ip) <==> old(ips)@.contains(ip) || ip == Ip::V4(bits),
{
    let ghost before = ips@;
    let mut p: usize = 0;
    while p < ips.len() && below(ips[p], bits)
        invariant
            p <= ips@.len(),
            ips@ == before,
            forall|i: int| 0 <= i < p ==> (#[trigger] ips@[i] matches Ip::V4(a) && a < bits),
        decreases ips@.len() - p,
    {
        p = p + 1;
    }
    if p < ips.len() {
        if let Ip::V4(a) = ips[p] {
            if a == bits {
                assert(ips@.contains(ips@[p as int]));
                return;
            }
        }
    }
    let new = Ip::V4(bits);
    ips.insert(p, new);
    assert(ips@ == before.insert(p as int, new));
    assert forall|i: int, j: int| 0 <= i < j < ips@.len() implies match (
        #[trigger] ips@[i],
        #[trigger] ips@[j],
    ) {
        (Ip::V4(a), Ip::V4(b)) => a < b,
        _ => false,
    } by {
        let bi = if i < p {
            i
        } else {
            i - 1
        };
        let bj = if j < p {
            j
        } else {
            j - 1
        };
        if i != p {
            assert(ips@[i] == before[bi]);
        }
        if j != p {
            assert(ips@[j] == before[bj]);
        }
        if i == p && j > p + 1 {
            assert(ips@[p + 1] == before[p as int]);
        }
        if p < before.len() {
            assert(before[p as int] is V4);
        }
    }
    assert forall|i: int| 0 <= i < ips@.len() implies (#[trigger] ips@[i]) is V4 by {
        if i < p {
            assert(ips@[i] == before[i]);
        } else if i > p {
            assert(ips@[i] == before[i - 1]);
        }
    }
    assert forall|ip: Ip| #[trigger]
        ips@.contains(ip) <==> before.contains(ip) || ip == Ip::V4(bits) by {
        if before.contains(ip) {
            let k = choose|k: int| 0 <= k < before.len() && before[k] == ip;
            if k < p {
                assert(ips@[k] == ip);
            } else {
                assert(ips@[k + 1] == ip);
            }
        }
        if ip == Ip::V4(bits) {
            assert(ips@[p as int] == ip);
        }
        if ips@.contains(ip) {
            let k = choose|k: int| 0 <= k < ips@.len() && ips@[k] == ip;
            if k < p {
                assert(before[k] == ip);
            } else if k > p {
                assert(before[k - 1] == ip);
            }
        }
    }
}

/// Whether an address is an IPv4 address below another.
fn below(ip: Ip, bits: u32) -> (r: bool)
    ensures
        r == (ip matches Ip::V4(a) && a < bits),
{
    match ip {
        Ip::V4(a) => a < bits,
        Ip::V6(_) => false,
    }
}

/// This machine's LAN addresses, from those of its network interfaces; `None`
/// if the interfaces could not be listed.
pub fn lan_ips(found: Option<Vec<Ip>>) -> (r: Result<Vec<Ip>, MdnsError>)
    ensures
        lan_outcome(listed(found), addresses(r)),
{
    let all = match found {
        Some(all) => all,
        None => {
            return Err(MdnsError::Interfaces);
        },
    };
    let mut ips: Vec<Ip> = Vec::new();
    let mut i: usize = 0;
    while i < all.len()
        invariant
            i <= all@.len(),
            ascending(ips@),
            forall|j: int| 0 <= j < ips@.len() ==> (#[trigger] ips@[j]) is V4,
            forall|ip: Ip| #[trigger]
                ips@.contains(ip) <==> all@.take(i as int).contains(ip) && announceable(ip),
        decreases all@.len() - i,
    {
        let ghost before = ips@;
        if let Ip::V4(bits) = all[i] {
            if bits / 0x100_0000 != 127 && bits / 0x1_0000 != 0xa9fe {
                insert_address(&mut ips, bits);
            }
        }
        assert forall|ip: Ip| #[trigger]
            ips@.contains(ip) <==> all@.take(i + 1).contains(ip) && announceable(ip) by {
            let now = all@.take(i + 1);
            let then = all@.take(i as int);
            assert(now =~= then.push(all@[i as int]));
            if then.contains(ip) {
                let k = choose|k: int| 0 <= k < then.len() && then[k] == ip;
                assert(now[k] == ip);
            }
            if ip == all@[i as int] {
                assert(now[i as int] == ip);
            }
            if now.contains(ip) {
                let k = choose|k: int| 0 <= k < now.len() && now[k] == ip;
                if k < i {
                    assert(then[k] == ip);
                }
            }
            assert(before.contains(ip) <==> then.contains(ip) && announceable(ip));
        }
        i = i + 1;
    }
    assert(all@.take(i as int) =~= all@);
    if ips.len() == 0 {
        assert forall|ip: Ip| #[trigger] all@.contains(ip) implies !announceable(ip) by {
            assert(!ips@.contains(ip));
        }
        return Err(MdnsError::NoLanAddress);
    }
    Ok(ips)
}

/// Whether a text is accepted as a DNS name.
pub uninterp spec fn is_dns_name(s: Seq<char>) -> bool;

/// `simple_dns::Name::new`: whether the text is a DNS name, which depends on
/// the text alone. A label of at most 63 lowercase letters, digits and hyphens
/// under `local` is one.
#[verifier::external_body]
fn accepts_name(s: &str) -> (r: bool)
    ensures
        r == is_dns_name(s@),
        (exists|label: Seq<char>|
            protocol::valid_label(label) && s@ == #[trigger] (label + ".local"@)) ==> r,
{
    simple_dns::Name::new(s).is_ok()
}

/// What is announced: an A (or AAAA) record of class IN for the name, per
/// address.
#[derive(Debug)]
pub struct Announcement {
    pub fqdn: String,
    pub ttl: u32,
    pub addresses: Vec<Ip>,
}

/// The announcement of `<name>.local` under the given addresses.
pub fn announce_ips(name: &str, ips: &[Ip]) -> (r: Result<Announcement, MdnsError>)
    ensures
        match r {
            Ok(a) => {
                &&& protocol::valid_label(name@)
                &&& ips@.len() > 0
                &&& a.fqdn@ == name@ + ".local"@
                &&& a.ttl == TTL && a.ttl == 60
                &&& a.addresses@ == ips@
            },
            Err(MdnsError::InvalidName(n)) => !protocol::valid_label(name@) && n@ == name@,
            Err(MdnsError::NothingToAnnounce) => protocol::valid_label(name@) && ips@.len() == 0,
            Err(_) => false,
        },
{
    if !protocol::valid_name(name) {
        return Err(MdnsError::InvalidName(name.to_owned()));
    }
    if ips.len() == 0 {
        return Err(MdnsError::NothingToAnnounce);
    }
    let mut fqdn: String = name.to_owned();
    fqdn.append(".local");
    if !accepts_name(fqdn.as_str()) {
        assert(fqdn@ == name@ + ".local"@);
        return Err(MdnsError::InvalidMdnsName(fqdn));
    }
    Ok(Announcement { fqdn, ttl: TTL, addresses: vstd::slice::slice_to_vec(ips) })
}

/// The announcement of `<name>.local` under this machine's LAN addresses, from
/// those of its network interfaces (`None` if they could not be listed).
pub fn announce(name: &str, found: Option<Vec<Ip>>) -> (r: Result<Announcement, MdnsError>)
    ensures
        match r {
            Ok(a) => {
                &&& protocol::valid_label(name@)
                &&& found matches Some(all) && lan_outcome(Some(all@), Ok(a.addresses@))
                &&& a.fqdn@ == name@ + ".local"@
                &&& a.ttl == TTL && a.ttl == 60
            },
            Err(MdnsError::Interfaces) => found is None,
            Err(MdnsError::NoLanAddress) => found matches Some(all) && none_announceable(all@),
            Err(MdnsError::InvalidName(n)) => {
                &&& !protocol::valid_label(name@)
                &&& n@ == name@
                &&& found matches Some(all) && !none_announceable(all@)
            },
            Err(_) => false,
        },
{
    match lan_ips(found) {
        Ok(ips) => {
            assert(ips@.contains(ips@[0]));
            announce_ips(name, ips.as_slice())
        },
        Err(e) => Err(e),
    }
}

/// An IPv4 address `a.b.c.d` is announced unless it is in the loopback block
/// `127.x.x.x` or the link-local block `169.254.x.x`; an IPv6 address never is.
pub proof fn lan_addresses_by_their_octets(a: u8, b: u8, c: u8, d: u8, six: u128)
    ensures
        ({
            let bits = (a * 0x100_0000 + b * 0x1_0000 + c * 0x100 + d) as u32;
            announceable(Ip::V4(bits)) <==> a != 127 && !(a == 169 && b == 254)
        }),
        !announceable(Ip::V6(six)),
{
    let bits = (a * 0x100_0000 + b * 0x1_0000 + c * 0x100 + d) as u32;
    assert(bits / 0x100_0000 == a);
    assert(bits / 0x1_0000 == a * 256 + b);
}

/// The LAN addresses of a machine are all the addresses of its interfaces that are
/// announced and no others, smallest first, each once; there are none exactly
/// where no interface has one.
pub proof fn lan_addresses_are_those_of_the_interfaces(
    all: Seq<Ip>,
    r: Result<Seq<Ip>, MdnsError>,
    none: Result<Seq<Ip>, MdnsError>,
)
    requires
        lan_outcome(Some(all), r),
        lan_outcome(None, none),
    ensures
        none == Err::<Seq<Ip>, MdnsError>(MdnsError::Interfaces),
        r is Err <==> forall|i: int| 0 <= i < all.len() ==> !announceable(#[trigger] all[i]),
        r matches Err(e) ==> e is NoLanAddress,
        r matches Ok(ips) ==> {
            &&& ips.len() > 0
            &&& forall|i: int|
                0 <= i < ips.len() ==> announceable(#[trigger] ips[i]) && all.contains(ips[i])
            &&& forall|i: int|
                0 <= i < all.len() && announceable(#[trigger] all[i]) ==> ips.contains(all[i])
            &&& forall|i: int, j: int|
                0 <= i < j < ips.len() ==> (#[trigger] ips[i])->V4_0 < (#[trigger] ips[j])->V4_0
        },
{
    match r {
        Ok(ips) => {
            assert forall|i: int| 0 <= i < ips.len() implies announceable(#[trigger] ips[i])
                && all.contains(ips[i]) by {
                assert(ips.contains(ips[i]));
            }
            assert forall|i: int| 0 <= i < all.len() && announceable(#[trigger] all[i]) implies
                ips.contains(all[i]) by {
                assert(all.contains(all[i]));
            }
            assert(ips.contains(ips[0]));
            let k = choose|k: int| 0 <= k < all.len() && all[k] == ips[0];
            assert(announceable(all[k]));
        },
        Err(_) => {
            assert forall|i: int| 0 <= i < all.len() implies !announceable(#[trigger] all[i]) by {
                assert(all.contains(all[i]));
            }
        },
    }
}

/// The addresses of the interfaces, and those that are announced, are taken as they
/// are.
pub proof fn addresses_are_taken_as_they_are(
    found: Option<Vec<Ip>>,
    r: Result<Vec<Ip>, MdnsError>,
    all: Seq<Ip>,
)
    ensures
        found is None <==> listed(found) is None,
        found matches Some(ips) ==> listed(found) == Some(ips@),
        r matches Ok(ips) ==> addresses(r) == Ok::<Seq<Ip>, MdnsError>(ips@),
        r matches Err(e) ==> addresses(r) == Err::<Seq<Ip>, MdnsError>(e),
        none_announceable(all) <==> forall|i: int|
            0 <= i < all.len() ==> !announceable(#[trigger] all[i]),
{
    if none_announceable(all) {
        assert forall|i: int| 0 <= i < all.len() implies !announceable(#[trigger] all[i]) by {
            assert(all.contains(all[i]));
        }
    }
}

} // verus!
