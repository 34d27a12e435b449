//! Decoding of kernel interface-address notifications.
//!
//! A notification is modelled as the plain values the decoder reads: the
//! address family of the message, and its attribute list (interface label,
//! address values). The decoder turns a raw notification into at most one
//! [`IpAddrChange`] for the configured interface: it keeps only address-added
//! and address-removed messages whose label matches the interface name and
//! which carry exactly one IPv4 address attribute; everything else is
//! dropped. The same attribute model backs the one-shot interface address
//! query, which classifies the full address listing of an interface.

use vstd::prelude::*;

use crate::addr::Ipv4Address;

verus! {

/// An IP address attribute value: either an IPv4 address, whose octets the
/// decoder reads, or an IPv6 address, which the decoder only rejects.
#[derive(Clone, Copy, Debug, PartialEq, Eq, Structural)]
pub enum IpAddr {
    V4(Ipv4Address),
    V6,
}

/// The address family announced in a notification's header.
#[derive(Clone, Copy, Debug, PartialEq, Eq, Structural)]
pub enum AddressFamily {
    Inet,
    Inet6,
    Other,
}

/// One attribute of an interface-address notification.
#[derive(Clone, Debug)]
pub enum AddressAttribute {
    /// An address value carried by the notification.
    Address(IpAddr),
    /// The local address, which the decoder ignores.
    Local(IpAddr),
    /// The name of the interface the notification is about.
    Label(String),
    /// Any attribute kind the decoder does not read.
    Other,
}

/// An interface-address notification: the address family from its header and
/// its attribute list.
#[derive(Clone, Debug)]
pub struct AddressMessage {
    pub family: AddressFamily,
    pub attributes: Vec<AddressAttribute>,
}

/// A kernel notification about interface addresses: an address was added, an
/// address was removed, or something the monitor does not consume.
#[derive(Clone, Debug)]
pub enum RouteNetlinkMessage {
    NewAddress(AddressMessage),
    DelAddress(AddressMessage),
    Other,
}

/// Represents the type of IP address change.
#[derive(Clone, Copy, Debug, PartialEq, Eq, Structural)]
pub enum ChangeType {
    /// An IP address was added to the interface
    Add,
    /// An IP address was removed from the interface
    Del,
}

/// Represents a change in IP address on a network interface.
#[derive(Clone, Debug)]
pub struct IpAddrChange {
    /// The type of change (addition or deletion)
    pub ctype: ChangeType,
    /// The name of the network interface where the change occurred
    pub iface: String,
    /// The IPv4 address that was added or removed
    pub addr: Ipv4Address,
}

/// How a one-shot interface address query fails.
#[derive(Clone, Copy, Debug, PartialEq, Eq, Structural)]
pub enum AddressQueryError {
    /// The named interface does not exist.
    InterfaceNotFound,
    /// More than one address is bound to the interface; the single-address
    /// invariant is broken and startup must halt.
    AmbiguousAddress,
    /// The single address found was not an IPv4 address.
    NonIpv4Address,
}

/// The interface label a notification carries: the first `Label` attribute,
/// if any.
pub open spec fn first_label(attrs: Seq<AddressAttribute>) -> Option<Seq<char>>
    decreases attrs.len(),
{
    if attrs.len() == 0 {
        None
    } else {
        match attrs[0] {
            AddressAttribute::Label(l) => Some(l@),
            _ => first_label(attrs.drop_first()),
        }
    }
}

/// All IPv4 values of `Address` attributes, in attribute order.
pub open spec fn ipv4_addrs(attrs: Seq<AddressAttribute>) -> Seq<Ipv4Address>
    decreases attrs.len(),
{
    if attrs.len() == 0 {
        Seq::empty()
    } else {
        let rest = ipv4_addrs(attrs.drop_last());
        match attrs.last() {
            AddressAttribute::Address(IpAddr::V4(ip)) => rest.push(ip),
            _ => rest,
        }
    }
}

/// The event a notification decodes to, if any: the kind of change and the
/// single IPv4 address, provided the label matches `name` and the
/// notification carries exactly one IPv4 address attribute.
pub open spec fn decoded_event(name: Seq<char>, msg: RouteNetlinkMessage) -> Option<
    (ChangeType, Ipv4Address),
> {
    match msg {
        RouteNetlinkMessage::NewAddress(m) => {
            if first_label(m.attributes@) == Some(name) && ipv4_addrs(m.attributes@).len() == 1 {
                Some((ChangeType::Add, ipv4_addrs(m.attributes@)[0]))
            } else {
                None
            }
        },
        RouteNetlinkMessage::DelAddress(m) => {
            if first_label(m.attributes@) == Some(name) && ipv4_addrs(m.attributes@).len() == 1 {
                Some((ChangeType::Del, ipv4_addrs(m.attributes@)[0]))
            } else {
                None
            }
        },
        RouteNetlinkMessage::Other => None,
    }
}

proof fn lemma_first_label_skip(attrs: Seq<AddressAttribute>, i: int)
    requires
        0 <= i <= attrs.len(),
        forall|j: int| 0 <= j < i ==> !(attrs[j] is Label),
    ensures
        first_label(attrs) == first_label(attrs.skip(i)),
    decreases i,
{
    if i == 0 {
        assert(attrs.skip(0) =~= attrs);
    } else {
        lemma_first_label_skip(attrs, i - 1);
        let s = attrs.skip(i - 1);
        assert(s[0] == attrs[i - 1]);
        assert(s.drop_first() =~= attrs.skip(i));
    }
}

/// Whether the notification's interface label names the monitored interface:
/// true exactly when the first `Label` attribute equals `ifname`.
pub fn is_our_if(ifname: &str, addr: &AddressMessage) -> (r: bool)
    ensures
        r == (first_label(addr.attributes@) == Some(ifname@)),
{
    let target: String = ifname.to_owned();
    let n = addr.attributes.len();
    let mut i: usize = 0;
    while i < n
        invariant
            n == addr.attributes@.len(),
            0 <= i <= n,
            target@ == ifname@,
            forall|j: int| 0 <= j < i ==> !(addr.attributes@[j] is Label),
        decreases n - i,
    {
        match &addr.attributes[i] {
            AddressAttribute::Label(l) => {
                proof {
                    lemma_first_label_skip(addr.attributes@, i as int);
                    let s = addr.attributes@.skip(i as int);
                    assert(s[0] == addr.attributes@[i as int]);
                }
                return *l == target;
            },
            _ => {},
        }
        i += 1;
    }
    proof {
        lemma_first_label_skip(addr.attributes@, n as int);
        assert(addr.attributes@.skip(n as int) =~= Seq::<AddressAttribute>::empty());
    }
    false
}

/// The single IPv4 address a notification carries, or `None` when it carries
/// none or more than one (an ambiguous notification is dropped, never
/// guessed at).
pub fn get_ip(amsg: &AddressMessage) -> (r: Option<Ipv4Address>)
    ensures
        match r {
            Some(ip) => ipv4_addrs(amsg.attributes@) =~= seq![ip],
            None => ipv4_addrs(amsg.attributes@).len() != 1,
        },
{
    let n = amsg.attributes.len();
    let mut v4s: Vec<Ipv4Address> = Vec::new();
    let mut i: usize = 0;
    while i < n
        invariant
            n == amsg.attributes@.len(),
            0 <= i <= n,
            v4s@ =~= ipv4_addrs(amsg.attributes@.take(i as int)),
        decreases n - i,
    {
        proof {
            let t = amsg.attributes@.take(i as int + 1);
            assert(t.drop_last() =~= amsg.attributes@.take(i as int));
            assert(t.last() == amsg.attributes@[i as int]);
        }
        match &amsg.attributes[i] {
            AddressAttribute::Address(IpAddr::V4(ip)) => {
                v4s.push(*ip);
            },
            _ => {},
        }
        i += 1;
    }
    proof {
        assert(amsg.attributes@.take(n as int) =~= amsg.attributes@);
    }
    if v4s.len() == 1 {
        Some(v4s[0])
    } else {
        None
    }
}

/// All address values of `Address` attributes, of either family, in
/// attribute order.
pub open spec fn address_values(attrs: Seq<AddressAttribute>) -> Seq<IpAddr>
    decreases attrs.len(),
{
    if attrs.len() == 0 {
        Seq::empty()
    } else {
        let rest = address_values(attrs.drop_last());
        match attrs.last() {
            AddressAttribute::Address(ip) => rest.push(ip),
            _ => rest,
        }
    }
}

/// The address values of all IPv4-family messages in a full address
/// listing, in listing order.
pub open spec fn inet_address_values(msgs: Seq<AddressMessage>) -> Seq<IpAddr>
    decreases msgs.len(),
{
    if msgs.len() == 0 {
        Seq::empty()
    } else {
        inet_address_values(msgs.drop_last()) + (if msgs.last().family is Inet {
            address_values(msgs.last().attributes@)
        } else {
            Seq::empty()
        })
    }
}

/// Append the address values of one attribute list, in order, to `out`.
fn push_address_values(attrs: &Vec<AddressAttribute>, out: &mut Vec<IpAddr>)
    ensures
        final(out)@ =~= old(out)@ + address_values(attrs@),
{
    let ghost out0 = out@;
    let m = attrs.len();
    let mut j: usize = 0;
    while j < m
        invariant
            m == attrs@.len(),
            0 <= j <= m,
            out@ =~= out0 + address_values(attrs@.take(j as int)),
        decreases m - j,
    {
        proof {
            let t = attrs@.take(j as int + 1);
            assert(t.drop_last() =~= attrs@.take(j as int));
            assert(t.last() == attrs@[j as int]);
        }
        match &attrs[j] {
            AddressAttribute::Address(ip) => {
                out.push(*ip);
            },
            _ => {},
        }
        j += 1;
    }
    proof {
        assert(attrs@.take(m as int) =~= attrs@);
    }
}

/// Classify the address listing a one-shot interface query returned: the
/// address values of its IPv4-family messages decide the result. No value
/// means no address assigned yet, which is not an error; exactly one IPv4
/// value is the interface's address; more than one value is ambiguous and
/// fatal; a single non-IPv4 value is rejected.
pub fn get_if_addr_from_messages(msgs: &Vec<AddressMessage>) -> (r: Result<
    Option<Ipv4Address>,
    AddressQueryError,
>)
    ensures
        ({
            let vals = inet_address_values(msgs@);
            match r {
                Ok(Some(ip)) => vals =~= seq![IpAddr::V4(ip)],
                Ok(None) => vals.len() == 0,
                Err(AddressQueryError::AmbiguousAddress) => vals.len() > 1,
                Err(AddressQueryError::NonIpv4Address) => vals.len() == 1 && !(vals[0] is V4),
                Err(AddressQueryError::InterfaceNotFound) => false,
            }
        }),
{
    let mut addrs: Vec<IpAddr> = Vec::new();
    let n = msgs.len();
    let mut i: usize = 0;
    while i < n
        invariant
            n == msgs@.len(),
            0 <= i <= n,
            addrs@ =~= inet_address_values(msgs@.take(i as int)),
        decreases n - i,
    {
        proof {
            let t = msgs@.take(i as int + 1);
            assert(t.drop_last() =~= msgs@.take(i as int));
            assert(t.last() == msgs@[i as int]);
        }
        match msgs[i].family {
            AddressFamily::Inet => {
                push_address_values(&msgs[i].attributes, &mut addrs);
            },
            _ => {},
        }
        i += 1;
    }
    proof {
        assert(msgs@.take(n as int) =~= msgs@);
    }
    if addrs.len() == 0 {
        Ok(None)
    } else if addrs.len() > 1 {
        Err(AddressQueryError::AmbiguousAddress)
    } else {
        match addrs[0] {
            IpAddr::V4(ip) => Ok(Some(ip)),
            IpAddr::V6 => Err(AddressQueryError::NonIpv4Address),
        }
    }
}

/// Decode one notification for the named interface.
///
/// Exactly the notifications that are an address addition or removal, carry
/// a matching interface label, and hold exactly one IPv4 address attribute
/// produce an event; every other notification produces none.
pub fn filter_msg(ifname: &str, msg: RouteNetlinkMessage) -> (r: Option<IpAddrChange>)
    ensures
        match r {
            Some(ch) => decoded_event(ifname@, msg) == Some((ch.ctype, ch.addr)) && ch.iface@
                == ifname@,
            None => decoded_event(ifname@, msg) is None,
        },
{
    match &msg {
        RouteNetlinkMessage::NewAddress(amsg) => {
            if is_our_if(ifname, amsg) {
                match get_ip(amsg) {
                    Some(addr) => Some(
                        IpAddrChange { ctype: ChangeType::Add, iface: ifname.to_owned(), addr },
                    ),
                    None => None,
                }
            } else {
                None
            }
        },
        RouteNetlinkMessage::DelAddress(amsg) => {
            if is_our_if(ifname, amsg) {
                match get_ip(amsg) {
                    Some(addr) => Some(
                        IpAddrChange { ctype: ChangeType::Del, iface: ifname.to_owned(), addr },
                    ),
                    None => None,
                }
            } else {
                None
            }
        },
        RouteNetlinkMessage::Other => None,
    }
}

} // verus!
