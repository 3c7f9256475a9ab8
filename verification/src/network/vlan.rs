//! 802.1Q VLAN interfaces: their names, and which links are VLANs on which
//! parent.
use vstd::prelude::*;
use crate::network::interfaces::{
    first_name, find_name, interface_name, name_of_index, numbered, numbered_name, Interface, LinkAttr,
    LinkMessage,
};
use crate::text::{decimal, owned, push_decimal, str_eq};

verus! {

/// A VLAN interface.
#[derive(Clone, Debug)]
pub struct VlanInterface {
    pub name: String,
    /// The name of the parent interface.
    pub parent: String,
    pub vlan_id: u16,
    pub index: u32,
}

/// The name of a new VLAN: the one given, else `<parent>.<vlan id>`.
pub open spec fn vlan_name_spec(parent: Seq<char>, vlan_id: u16, name: Option<Seq<char>>) -> Seq<char> {
    match name {
        Some(n) => n,
        None => parent + "."@ + decimal(vlan_id as nat),
    }
}

/// The name of a new VLAN: the one given, else `<parent>.<vlan id>`.
pub fn vlan_name(parent: &str, vlan_id: u16, name: Option<&str>) -> (r: String)
    ensures
        r@ == vlan_name_spec(
            parent@,
            vlan_id,
            match name {
                Some(n) => Some(n@),
                None => None,
            },
        ),
{
    match name {
        Some(n) => owned(n),
        None => {
            let mut r = owned(parent);
            r.append(".");
            push_decimal(&mut r, vlan_id as u64);
            r
        },
    }
}

/// Whether a link-info entry says the link is a VLAN.
pub open spec fn has_vlan_kind(attrs: Seq<LinkAttr>) -> bool
    decreases attrs.len(),
{
    if attrs.len() == 0 {
        false
    } else {
        attrs.last() is VlanKind || has_vlan_kind(attrs.drop_last())
    }
}

/// The last VLAN id among the attributes.
pub open spec fn last_vlan_id(attrs: Seq<LinkAttr>) -> Option<u16>
    decreases attrs.len(),
{
    if attrs.len() == 0 {
        None
    } else {
        match attrs.last() {
            LinkAttr::VlanId(x) => Some(x),
            _ => last_vlan_id(attrs.drop_last()),
        }
    }
}

/// The last parent link among the attributes.
pub open spec fn last_link(attrs: Seq<LinkAttr>) -> Option<u32>
    decreases attrs.len(),
{
    if attrs.len() == 0 {
        None
    } else {
        match attrs.last() {
            LinkAttr::Link(x) => Some(x),
            _ => last_link(attrs.drop_last()),
        }
    }
}

/// Whether `v` is the VLAN that the link message `m` describes, given the
/// interfaces by which its parent is named: its name, or `vlan<index>`; its
/// parent's name, `if<index>` for an unknown parent index, or `unknown`
/// without one; its id, or 0 without one.
pub open spec fn describes(v: VlanInterface, m: LinkMessage, list: Seq<Interface>) -> bool {
    let attrs = m.attributes@;
    &&& v.name@ == (match first_name(attrs) {
        Some(n) => n,
        None => numbered("vlan"@, m.index),
    })
    &&& v.parent@ == (match last_link(attrs) {
        Some(p) => name_of_index(list, p),
        None => "unknown"@,
    })
    &&& v.vlan_id == (match last_vlan_id(attrs) {
        Some(x) => x,
        None => 0,
    })
    &&& v.index == m.index
}

/// The VLAN that a link message describes, if it is a VLAN.
pub fn vlan_from_link(m: &LinkMessage, interfaces: &Vec<Interface>) -> (r: Option<VlanInterface>)
    ensures
        r is Some <==> has_vlan_kind(m.attributes@),
        r matches Some(v) ==> describes(v, *m, interfaces@),
{
    let attrs = &m.attributes;
    let mut is_vlan = false;
    let mut vlan_id: Option<u16> = None;
    let mut parent_index: Option<u32> = None;
    let mut i: usize = 0;
    while i < attrs.len()
        invariant
            0 <= i <= attrs@.len(),
            is_vlan == has_vlan_kind(attrs@.take(i as int)),
            vlan_id == last_vlan_id(attrs@.take(i as int)),
            parent_index == last_link(attrs@.take(i as int)),
        decreases attrs.len() - i,
    {
        proof {
            assert(attrs@.take(i + 1).drop_last() =~= attrs@.take(i as int));
            assert(attrs@.take(i + 1).last() == attrs@[i as int]);
        }
        match &attrs[i] {
            LinkAttr::VlanKind => {
                is_vlan = true;
            },
            LinkAttr::VlanId(x) => {
                vlan_id = Some(*x);
            },
            LinkAttr::Link(x) => {
                parent_index = Some(*x);
            },
            _ => {},
        }
        i = i + 1;
    }
    proof {
        assert(attrs@.take(attrs@.len() as int) =~= attrs@);
    }
    if !is_vlan {
        return None;
    }
    let name = match find_name(attrs) {
        Some(n) => n.clone(),
        None => numbered_name("vlan", m.index),
    };
    let parent = match parent_index {
        Some(p) => interface_name(interfaces, p),
        None => owned("unknown"),
    };
    let id = match vlan_id {
        Some(x) => x,
        None => 0,
    };
    Some(VlanInterface { name, parent, vlan_id: id, index: m.index })
}

/// The link messages that describe VLANs, in order.
pub open spec fn vlan_links(links: Seq<LinkMessage>) -> Seq<LinkMessage>
    decreases links.len(),
{
    if links.len() == 0 {
        Seq::empty()
    } else if has_vlan_kind(links.last().attributes@) {
        vlan_links(links.drop_last()).push(links.last())
    } else {
        vlan_links(links.drop_last())
    }
}

/// The VLANs among the link messages, in order.
pub fn vlans_from_links(links: &Vec<LinkMessage>, interfaces: &Vec<Interface>) -> (r: Vec<VlanInterface>)
    ensures
        r@.len() == vlan_links(links@).len(),
        forall|k: int| 0 <= k < r@.len() ==> describes(#[trigger] r@[k], vlan_links(links@)[k], interfaces@),
{
    let mut out: Vec<VlanInterface> = Vec::new();
    let mut i: usize = 0;
    while i < links.len()
        invariant
            0 <= i <= links@.len(),
            out@.len() == vlan_links(links@.take(i as int)).len(),
            forall|k: int|
                0 <= k < out@.len() ==> describes(#[trigger] out@[k], vlan_links(links@.take(i as int))[k], interfaces@),
        decreases links.len() - i,
    {
        proof {
            assert(links@.take(i + 1).drop_last() =~= links@.take(i as int));
            assert(links@.take(i + 1).last() == links@[i as int]);
        }
        match vlan_from_link(&links[i], interfaces) {
            Some(v) => {
                out.push(v);
            },
            None => {},
        }
        i = i + 1;
    }
    proof {
        assert(links@.take(links@.len() as int) =~= links@);
    }
    out
}

/// The first VLAN named `name`.
pub fn get_vlan<'a>(vlans: &'a Vec<VlanInterface>, name: &str) -> (r: Option<&'a VlanInterface>)
    ensures
        match r {
            Some(v) => v.name@ == name@ && exists|k: int|
                0 <= k < vlans@.len() && vlans@[k] == *v && forall|j: int|
                    0 <= j < k ==> (#[trigger] vlans@[j]).name@ != name@,
            None => forall|j: int| 0 <= j < vlans@.len() ==> (#[trigger] vlans@[j]).name@ != name@,
        },
{
    let mut i: usize = 0;
    while i < vlans.len()
        invariant
            0 <= i <= vlans@.len(),
            forall|j: int| 0 <= j < i ==> (#[trigger] vlans@[j]).name@ != name@,
        decreases vlans.len() - i,
    {
        if str_eq(vlans[i].name.as_str(), name) {
            return Some(&vlans[i]);
        }
        i = i + 1;
    }
    None
}

} // verus!
