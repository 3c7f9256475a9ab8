pub mod gateway_groups;
pub mod frr;
pub mod dns;
pub mod dhcp;
pub mod ids;
pub mod ha;
pub mod ipsec;
pub mod qos;
pub mod openvpn;
pub mod wireguard;
pub mod wireless;
pub mod multiwan;
pub mod ddns;
pub mod interfaces;
pub mod vlan;
pub mod routing;
