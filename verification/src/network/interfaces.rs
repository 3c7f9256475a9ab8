//! Network interfaces as the kernel's link messages describe them, and
//! looking one up by name or by index.
use vstd::prelude::*;
use crate::net::IpAddress;
use crate::text::{byte_hex, decimal, join, join_strings, owned, push_byte_hex, push_decimal, push_string, views};

verus! {

/// A network interface.
#[derive(Clone, Debug)]
pub struct Interface {
    pub name: String,
    /// Colon-separated lowercase hexadecimal bytes.
    pub mac_address: Option<String>,
    pub ip_addresses: Vec<IpAddress>,
    pub mtu: u32,
    pub enabled: bool,
    pub index: u32,
}

/// One attribute of a link message, as far as it is read here.  The
/// entries of a link-info attribute stand in the list in their own order.
#[derive(Clone, Debug)]
pub enum LinkAttr {
    IfName(String),
    Address(Vec<u8>),
    Mtu(u32),
    /// The index of the parent link.
    Link(u32),
    /// A link-info entry that says the link is a VLAN.
    VlanKind,
    /// A link-info entry that gives the VLAN id.
    VlanId(u16),
    Other,
}

/// A link message: the link's index, whether its up flag is set, and its
/// attributes in order.
#[derive(Clone, Debug)]
pub struct LinkMessage {
    pub index: u32,
    pub up: bool,
    pub attributes: Vec<LinkAttr>,
}

/// The first name among the attributes.
pub open spec fn first_name(attrs: Seq<LinkAttr>) -> Option<Seq<char>>
    decreases attrs.len(),
{
    if attrs.len() == 0 {
        None
    } else {
        match attrs[0] {
            LinkAttr::IfName(n) => Some(n@),
            _ => first_name(attrs.drop_first()),
        }
    }
}

/// The first hardware address among the attributes.
pub open spec fn first_address(attrs: Seq<LinkAttr>) -> Option<Seq<u8>>
    decreases attrs.len(),
{
    if attrs.len() == 0 {
        None
    } else {
        match attrs[0] {
            LinkAttr::Address(a) => Some(a@),
            _ => first_address(attrs.drop_first()),
        }
    }
}

/// The first MTU among the attributes.
pub open spec fn first_mtu(attrs: Seq<LinkAttr>) -> Option<u32>
    decreases attrs.len(),
{
    if attrs.len() == 0 {
        None
    } else {
        match attrs[0] {
            LinkAttr::Mtu(m) => Some(m),
            _ => first_mtu(attrs.drop_first()),
        }
    }
}

/// A hardware address as colon-separated lowercase hexadecimal bytes.
pub open spec fn mac_text(bytes: Seq<u8>) -> Seq<char> {
    join(bytes.map_values(|b: u8| byte_hex(b)), ":"@)
}

/// `prefix` followed by the decimal numeral of `n`.
pub open spec fn numbered(prefix: Seq<char>, n: u32) -> Seq<char> {
    prefix + decimal(n as nat)
}

/// The name of a link: its name attribute, else `interface<index>`.
pub open spec fn link_name(m: LinkMessage) -> Seq<char> {
    match first_name(m.attributes@) {
        Some(n) => n,
        None => numbered("interface"@, m.index),
    }
}

/// `prefix` followed by the decimal numeral of `n`.
pub fn numbered_name(prefix: &str, n: u32) -> (r: String)
    ensures
        r@ == numbered(prefix@, n),
{
    let mut r = owned(prefix);
    push_decimal(&mut r, n as u64);
    r
}

/// The first name among the attributes, by reference.
pub fn find_name(attrs: &Vec<LinkAttr>) -> (r: Option<&String>)
    ensures
        match r {
            Some(n) => first_name(attrs@) == Some(n@),
            None => first_name(attrs@) is None,
        },
{
    let mut i: usize = 0;
    proof {
        assert(attrs@.skip(0) =~= attrs@);
    }
    while i < attrs.len()
        invariant
            0 <= i <= attrs@.len(),
            first_name(attrs@) == first_name(attrs@.skip(i as int)),
        decreases attrs.len() - i,
    {
        proof {
            assert(attrs@.skip(i as int)[0] == attrs@[i as int]);
            assert(attrs@.skip(i as int).drop_first() =~= attrs@.skip(i + 1));
        }
        match &attrs[i] {
            LinkAttr::IfName(n) => {
                return Some(n);
            },
            _ => {},
        }
        i = i + 1;
    }
    proof {
        assert(attrs@.skip(i as int).len() == 0);
    }
    None
}

fn find_address(attrs: &Vec<LinkAttr>) -> (r: Option<&Vec<u8>>)
    ensures
        match r {
            Some(a) => first_address(attrs@) == Some(a@),
            None => first_address(attrs@) is None,
        },
{
    let mut i: usize = 0;
    proof {
        assert(attrs@.skip(0) =~= attrs@);
    }
    while i < attrs.len()
        invariant
            0 <= i <= attrs@.len(),
            first_address(attrs@) == first_address(attrs@.skip(i as int)),
        decreases attrs.len() - i,
    {
        proof {
            assert(attrs@.skip(i as int)[0] == attrs@[i as int]);
            assert(attrs@.skip(i as int).drop_first() =~= attrs@.skip(i + 1));
        }
        match &attrs[i] {
            LinkAttr::Address(a) => {
                return Some(a);
            },
            _ => {},
        }
        i = i + 1;
    }
    proof {
        assert(attrs@.skip(i as int).len() == 0);
    }
    None
}

fn find_mtu(attrs: &Vec<LinkAttr>) -> (r: Option<u32>)
    ensures
        r == first_mtu(attrs@),
{
    let mut i: usize = 0;
    proof {
        assert(attrs@.skip(0) =~= attrs@);
    }
    while i < attrs.len()
        invariant
            0 <= i <= attrs@.len(),
            first_mtu(attrs@) == first_mtu(attrs@.skip(i as int)),
        decreases attrs.len() - i,
    {
        proof {
            assert(attrs@.skip(i as int)[0] == attrs@[i as int]);
            assert(attrs@.skip(i as int).drop_first() =~= attrs@.skip(i + 1));
        }
        match &attrs[i] {
            LinkAttr::Mtu(m) => {
                return Some(*m);
            },
            _ => {},
        }
        i = i + 1;
    }
    proof {
        assert(attrs@.skip(i as int).len() == 0);
    }
    None
}

/// A hardware address as colon-separated lowercase hexadecimal bytes.
pub fn mac_string(bytes: &Vec<u8>) -> (r: String)
    ensures
        r@ == mac_text(bytes@),
{
    let mut parts: Vec<String> = Vec::new();
    let mut i: usize = 0;
    while i < bytes.len()
        invariant
            0 <= i <= bytes@.len(),
            views(parts@) == bytes@.take(i as int).map_values(|b: u8| byte_hex(b)),
        decreases bytes.len() - i,
    {
        let mut h = String::new();
        push_byte_hex(&mut h, bytes[i]);
        push_string(&mut parts, h);
        proof {
            assert(bytes@.take(i + 1).map_values(|b: u8| byte_hex(b)) =~= bytes@.take(i as int).map_values(
                |b: u8| byte_hex(b),
            ).push(byte_hex(bytes@[i as int])));
        }
        i = i + 1;
    }
    proof {
        assert(bytes@.take(bytes@.len() as int) =~= bytes@);
    }
    join_strings(&parts, ":")
}

/// The interface a link message describes: its name, or `interface<index>`
/// without one; its first hardware address; its first MTU, or 1500; up if
/// the up flag is set.  The addresses of the interface are not read from
/// the message: the list is empty.
pub fn interface_from_link(m: &LinkMessage) -> (i: Interface)
    ensures
        i.name@ == link_name(*m),
        match first_address(m.attributes@) {
            Some(a) => i.mac_address matches Some(t) && t@ == mac_text(a),
            None => i.mac_address is None,
        },
        i.ip_addresses@.len() == 0,
        i.mtu == (match first_mtu(m.attributes@) {
            Some(u) => u,
            None => 1500,
        }),
        i.enabled == m.up,
        i.index == m.index,
{
    let name = match find_name(&m.attributes) {
        Some(n) => n.clone(),
        None => numbered_name("interface", m.index),
    };
    let mac_address = match find_address(&m.attributes) {
        Some(a) => Some(mac_string(a)),
        None => None,
    };
    let mtu = match find_mtu(&m.attributes) {
        Some(u) => u,
        None => 1500,
    };
    Interface { name, mac_address, ip_addresses: Vec::new(), mtu, enabled: m.up, index: m.index }
}

/// The index of the first interface named `name`.
pub open spec fn index_of_name(list: Seq<Interface>, name: Seq<char>) -> Option<int>
    decreases list.len(),
{
    if list.len() == 0 {
        None
    } else if list[0].name@ == name {
        Some(0)
    } else {
        match index_of_name(list.drop_first(), name) {
            Some(k) => Some(k + 1),
            None => None,
        }
    }
}

/// The position of the first interface with kernel index `index`.
pub open spec fn position_of_index(list: Seq<Interface>, index: u32) -> Option<int>
    decreases list.len(),
{
    if list.len() == 0 {
        None
    } else if list[0].index == index {
        Some(0)
    } else {
        match position_of_index(list.drop_first(), index) {
            Some(k) => Some(k + 1),
            None => None,
        }
    }
}

proof fn lemma_index_of_name_bound(list: Seq<Interface>, name: Seq<char>)
    ensures
        index_of_name(list, name) matches Some(k) ==> 0 <= k < list.len() && list[k].name@ == name,
    decreases list.len(),
{
    if list.len() > 0 {
        lemma_index_of_name_bound(list.drop_first(), name);
    }
}

proof fn lemma_position_of_index_bound(list: Seq<Interface>, index: u32)
    ensures
        position_of_index(list, index) matches Some(k) ==> 0 <= k < list.len() && list[k].index == index,
    decreases list.len(),
{
    if list.len() > 0 {
        lemma_position_of_index_bound(list.drop_first(), index);
    }
}

/// The first interface named `name`.
pub fn get_by_name<'a>(list: &'a Vec<Interface>, name: &str) -> (r: Option<&'a Interface>)
    ensures
        match index_of_name(list@, name@) {
            Some(k) => r == Some(&list@[k]),
            None => r is None,
        },
{
    let mut i: usize = 0;
    proof {
        assert(list@.skip(0) =~= list@);
    }
    while i < list.len()
        invariant
            0 <= i <= list@.len(),
            index_of_name(list@, name@) == (match index_of_name(list@.skip(i as int), name@) {
                Some(k) => Some(k + i),
                None => None,
            }),
        decreases list.len() - i,
    {
        proof {
            assert(list@.skip(i as int)[0] == list@[i as int]);
            assert(list@.skip(i as int).drop_first() =~= list@.skip(i + 1));
        }
        if crate::text::str_eq(list[i].name.as_str(), name) {
            return Some(&list[i]);
        }
        i = i + 1;
    }
    proof {
        assert(list@.skip(i as int).len() == 0);
    }
    None
}

/// The first interface with kernel index `index`.
pub fn get_by_index(list: &Vec<Interface>, index: u32) -> (r: Option<&Interface>)
    ensures
        match position_of_index(list@, index) {
            Some(k) => r == Some(&list@[k]),
            None => r is None,
        },
{
    let mut i: usize = 0;
    proof {
        assert(list@.skip(0) =~= list@);
    }
    while i < list.len()
        invariant
            0 <= i <= list@.len(),
            position_of_index(list@, index) == (match position_of_index(list@.skip(i as int), index) {
                Some(k) => Some(k + i),
                None => None,
            }),
        decreases list.len() - i,
    {
        proof {
            assert(list@.skip(i as int)[0] == list@[i as int]);
            assert(list@.skip(i as int).drop_first() =~= list@.skip(i + 1));
        }
        if list[i].index == index {
            return Some(&list[i]);
        }
        i = i + 1;
    }
    proof {
        assert(list@.skip(i as int).len() == 0);
    }
    None
}

/// The name of the interface with kernel index `index`: the first such
/// interface's name, else `if<index>`.
pub open spec fn name_of_index(list: Seq<Interface>, index: u32) -> Seq<char> {
    match position_of_index(list, index) {
        Some(k) => list[k].name@,
        None => numbered("if"@, index),
    }
}

/// The name of the interface with kernel index `index`, or `if<index>`.
pub fn interface_name(list: &Vec<Interface>, index: u32) -> (r: String)
    ensures
        r@ == name_of_index(list@, index),
{
    proof {
        lemma_position_of_index_bound(list@, index);
    }
    match get_by_index(list, index) {
        Some(i) => i.name.clone(),
        None => numbered_name("if", index),
    }
}

} // verus!
