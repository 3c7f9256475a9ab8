//! Cloud providers and the connections to them, one per provider and
//! region.
use vstd::prelude::*;
use crate::text::{owned, str_eq};

verus! {

#[derive(PartialEq, Eq, Structural, Clone, Copy, Debug, Hash)]
pub enum CloudProvider {
    AWS,
    Azure,
    GCP,
}

/// The name of a provider, as `{:?}` writes it.
pub open spec fn provider_name(p: CloudProvider) -> Seq<char> {
    match p {
        CloudProvider::AWS => "AWS"@,
        CloudProvider::Azure => "Azure"@,
        CloudProvider::GCP => "GCP"@,
    }
}

/// The key of a connection: the provider's name, `_`, the region.
pub fn connection_key(provider: CloudProvider, region: &str) -> (k: String)
    ensures
        k@ == provider_name(provider) + "_"@ + region@,
{
    let mut k = match provider {
        CloudProvider::AWS => owned("AWS"),
        CloudProvider::Azure => owned("Azure"),
        CloudProvider::GCP => owned("GCP"),
    };
    k.append("_");
    k.append(region);
    k
}

/// A tunnel to a provider's network.  The latency is of the caller's type
/// `L`; the connections are kept and looked up without reading it.
#[derive(Debug)]
pub struct CloudConnection<L> {
    pub provider: CloudProvider,
    pub region: String,
    pub vpc_id: String,
    pub local_ip: String,
    pub remote_ip: String,
    pub tunnel_id: u32,
    pub connected: bool,
    pub latency_ms: L,
}

impl<L: Copy> CloudConnection<L> {
    /// A copy of the connection.
    pub fn copy(&self) -> (r: CloudConnection<L>)
        ensures
            r == *self,
    {
        CloudConnection {
            provider: self.provider,
            region: self.region.clone(),
            vpc_id: self.vpc_id.clone(),
            local_ip: self.local_ip.clone(),
            remote_ip: self.remote_ip.clone(),
            tunnel_id: self.tunnel_id,
            connected: self.connected,
            latency_ms: self.latency_ms,
        }
    }
}

/// The key of a connection, as text.
pub open spec fn key_of<L>(c: CloudConnection<L>) -> Seq<char> {
    provider_name(c.provider) + "_"@ + c.region@
}

/// Different providers or regions give different keys: a key names one
/// provider and one region.
pub proof fn lemma_connection_key_injective(p1: CloudProvider, r1: Seq<char>, p2: CloudProvider, r2: Seq<char>)
    requires
        provider_name(p1) + "_"@ + r1 == provider_name(p2) + "_"@ + r2,
    ensures
        p1 == p2,
        r1 == r2,
{
    reveal_strlit("AWS");
    reveal_strlit("Azure");
    reveal_strlit("GCP");
    reveal_strlit("_");
    let a = provider_name(p1) + "_"@ + r1;
    let b = provider_name(p2) + "_"@ + r2;
    assert(a[0] == b[0]);
    assert(a[1] == b[1]);
    assert(p1 == p2);
    let n: int = provider_name(p1).len() as int + 1;
    assert(r1 =~= a.subrange(n, a.len() as int));
    assert(r2 =~= b.subrange(n, b.len() as int));
}

/// The connection of a provider and region: the last one kept for them.
pub open spec fn connection_for<L>(s: Seq<CloudConnection<L>>, provider: CloudProvider, region: Seq<char>) -> Option<
    CloudConnection<L>,
>
    decreases s.len(),
{
    if s.len() == 0 {
        None
    } else if s.last().provider == provider && s.last().region@ == region {
        Some(s.last())
    } else {
        connection_for(s.drop_last(), provider, region)
    }
}

/// No two connections share a provider and region.
pub open spec fn one_per_place<L>(s: Seq<CloudConnection<L>>) -> bool {
    forall|i: int, j: int|
        0 <= i < j < s.len() ==> !((#[trigger] s[i]).provider == (#[trigger] s[j]).provider && s[i].region@
            == s[j].region@)
}

/// The connections to a provider, in order.
pub open spec fn of_provider<L>(s: Seq<CloudConnection<L>>, provider: CloudProvider) -> Seq<CloudConnection<L>>
    decreases s.len(),
{
    if s.len() == 0 {
        Seq::empty()
    } else if s.last().provider == provider {
        of_provider(s.drop_last(), provider).push(s.last())
    } else {
        of_provider(s.drop_last(), provider)
    }
}

/// The connections other than the one of a provider and region, in order.
pub open spec fn without_place<L>(s: Seq<CloudConnection<L>>, provider: CloudProvider, region: Seq<char>) -> Seq<
    CloudConnection<L>,
>
    decreases s.len(),
{
    if s.len() == 0 {
        Seq::empty()
    } else if s.last().provider == provider && s.last().region@ == region {
        without_place(s.drop_last(), provider, region)
    } else {
        without_place(s.drop_last(), provider, region).push(s.last())
    }
}

proof fn lemma_connection_for<L>(s: Seq<CloudConnection<L>>, p: CloudProvider, r: Seq<char>)
    ensures
        match connection_for(s, p, r) {
            Some(c) => exists|k: int| 0 <= k < s.len() && s[k] == c && c.provider == p && c.region@ == r,
            None => forall|j: int| 0 <= j < s.len() ==> !((#[trigger] s[j]).provider == p && s[j].region@ == r),
        },
    decreases s.len(),
{
    if s.len() > 0 {
        lemma_connection_for(s.drop_last(), p, r);
        if !(s.last().provider == p && s.last().region@ == r) {
            match connection_for(s.drop_last(), p, r) {
                Some(c) => {
                    let k = choose|k: int|
                        0 <= k < s.drop_last().len() && s.drop_last()[k] == c && c.provider == p && c.region@ == r;
                    assert(s[k] == s.drop_last()[k]);
                },
                None => {
                    assert forall|j: int| 0 <= j < s.len() implies !((#[trigger] s[j]).provider == p && s[j].region@
                        == r) by {
                        if j < s.len() - 1 {
                            assert(s[j] == s.drop_last()[j]);
                        }
                    }
                },
            }
        } else {
            assert(s[s.len() - 1] == s.last());
        }
    }
}

proof fn lemma_connection_for_at<L>(s: Seq<CloudConnection<L>>, k: int)
    requires
        one_per_place(s),
        0 <= k < s.len(),
    ensures
        connection_for(s, s[k].provider, s[k].region@) == Some(s[k]),
    decreases s.len(),
{
    if k < s.len() - 1 {
        assert(s.last() == s[s.len() - 1]);
        assert(s.drop_last()[k] == s[k]);
        assert(one_per_place(s.drop_last())) by {
            assert forall|i: int, j: int| 0 <= i < j < s.drop_last().len() implies !((
            #[trigger] s.drop_last()[i]).provider == (#[trigger] s.drop_last()[j]).provider
                && s.drop_last()[i].region@ == s.drop_last()[j].region@) by {
                assert(s.drop_last()[i] == s[i]);
                assert(s.drop_last()[j] == s[j]);
            }
        }
        lemma_connection_for_at(s.drop_last(), k);
    }
}

/// The connections, one per provider and region.
pub struct MultiCloudManager<L> {
    connections: Vec<CloudConnection<L>>,
}

impl<L> MultiCloudManager<L> {
    pub closed spec fn connections_view(&self) -> Seq<CloudConnection<L>> {
        self.connections@
    }

    /// No two connections share a provider and region.
    pub open spec fn wf(&self) -> bool {
        one_per_place(self.connections_view())
    }

    /// The connection of a provider and region.
    pub open spec fn connection(&self, provider: CloudProvider, region: Seq<char>) -> Option<CloudConnection<L>> {
        connection_for(self.connections_view(), provider, region)
    }

    /// No connections.
    pub fn new() -> (m: MultiCloudManager<L>)
        ensures
            m.wf(),
            m.connections_view().len() == 0,
    {
        MultiCloudManager { connections: Vec::new() }
    }

    fn find(&self, provider: CloudProvider, region: &str) -> (r: Option<usize>)
        requires
            self.wf(),
        ensures
            match r {
                Some(k) => k < self.connections@.len() && self.connections@[k as int].provider == provider
                    && self.connections@[k as int].region@ == region@ && self.connection(provider, region@) == Some(
                    self.connections@[k as int],
                ),
                None => self.connection(provider, region@) is None,
            },
    {
        proof {
            lemma_connection_for(self.connections@, provider, region@);
        }
        let mut i: usize = 0;
        while i < self.connections.len()
            invariant
                0 <= i <= self.connections@.len(),
                self.wf(),
                forall|j: int| 0 <= j < i ==> !((#[trigger] self.connections@[j]).provider == provider
                    && self.connections@[j].region@ == region@),
            decreases self.connections.len() - i,
        {
            if self.connections[i].provider == provider && str_eq(self.connections[i].region.as_str(), region) {
                proof {
                    lemma_connection_for_at(self.connections@, i as int);
                }
                return Some(i);
            }
            i = i + 1;
        }
        None
    }
}

proof fn lemma_replace_place<L>(s: Seq<CloudConnection<L>>, k: int, c: CloudConnection<L>)
    requires
        one_per_place(s),
        0 <= k < s.len(),
        c.provider == s[k].provider,
        c.region@ == s[k].region@,
    ensures
        one_per_place(s.update(k, c)),
        connection_for(s.update(k, c), c.provider, c.region@) == Some(c),
        forall|p: CloudProvider, r: Seq<char>|
            !(p == c.provider && r == c.region@) ==> #[trigger] connection_for(s.update(k, c), p, r)
                == connection_for(s, p, r),
{
    let u = s.update(k, c);
    assert forall|i: int, j: int| 0 <= i < j < u.len() implies !((#[trigger] u[i]).provider == (#[trigger] u[j]).provider
        && u[i].region@ == u[j].region@) by {
        assert(u[i].provider == s[i].provider && u[i].region@ == s[i].region@);
        assert(u[j].provider == s[j].provider && u[j].region@ == s[j].region@);
    }
    lemma_connection_for_at(u, k);
    assert forall|p: CloudProvider, r: Seq<char>| !(p == c.provider && r == c.region@) implies #[trigger] connection_for(
        u,
        p,
        r,
    ) == connection_for(s, p, r) by {
        lemma_connection_for_update(s, k, c, p, r);
    }
}

proof fn lemma_connection_for_update<L>(s: Seq<CloudConnection<L>>, k: int, c: CloudConnection<L>, p: CloudProvider, r: Seq<char>)
    requires
        0 <= k < s.len(),
        c.provider == s[k].provider,
        c.region@ == s[k].region@,
        !(p == c.provider && r == c.region@),
    ensures
        connection_for(s.update(k, c), p, r) == connection_for(s, p, r),
    decreases s.len(),
{
    let u = s.update(k, c);
    if k == s.len() - 1 {
        assert(u.drop_last() =~= s.drop_last());
    } else {
        assert(u.drop_last() =~= s.drop_last().update(k, c));
        assert(u.last() == s.last());
        lemma_connection_for_update(s.drop_last(), k, c, p, r);
    }
}

proof fn lemma_remove_place<L>(s: Seq<CloudConnection<L>>, k: int)
    requires
        one_per_place(s),
        0 <= k < s.len(),
    ensures
        one_per_place(s.remove(k)),
        s.remove(k) == without_place(s, s[k].provider, s[k].region@),
    decreases s.len(),
{
    let u = s.remove(k);
    assert forall|i: int, j: int| 0 <= i < j < u.len() implies !((#[trigger] u[i]).provider == (#[trigger] u[j]).provider
        && u[i].region@ == u[j].region@) by {
        let i2 = if i < k { i } else { i + 1 };
        let j2 = if j < k { j } else { j + 1 };
        assert(u[i] == s[i2]);
        assert(u[j] == s[j2]);
    }
    lemma_without_absent(s.remove(k), s[k].provider, s[k].region@);
    lemma_without_split(s, k);
}

/// Removing a place that no connection has changes nothing.
proof fn lemma_without_absent<L>(s: Seq<CloudConnection<L>>, p: CloudProvider, r: Seq<char>)
    requires
        forall|j: int| 0 <= j < s.len() ==> !((#[trigger] s[j]).provider == p && s[j].region@ == r),
    ensures
        without_place(s, p, r) == s,
    decreases s.len(),
{
    if s.len() > 0 {
        assert(s.last() == s[s.len() - 1]);
        assert forall|j: int| 0 <= j < s.drop_last().len() implies !((#[trigger] s.drop_last()[j]).provider == p
            && s.drop_last()[j].region@ == r) by {
            assert(s.drop_last()[j] == s[j]);
        }
        lemma_without_absent(s.drop_last(), p, r);
        assert(s.drop_last().push(s.last()) =~= s);
    }
}

/// With one connection per place, removing the place of the connection at
/// `k` removes that connection alone.
proof fn lemma_without_split<L>(s: Seq<CloudConnection<L>>, k: int)
    requires
        one_per_place(s),
        0 <= k < s.len(),
    ensures
        without_place(s, s[k].provider, s[k].region@) == s.remove(k),
    decreases s.len(),
{
    let p = s[k].provider;
    let r = s[k].region@;
    if k == s.len() - 1 {
        assert(s.last() == s[k]);
        assert forall|j: int| 0 <= j < s.drop_last().len() implies !((#[trigger] s.drop_last()[j]).provider == p
            && s.drop_last()[j].region@ == r) by {
            assert(s.drop_last()[j] == s[j]);
        }
        lemma_without_absent(s.drop_last(), p, r);
        assert(s.remove(k) =~= s.drop_last());
    } else {
        assert(s.last() == s[s.len() - 1]);
        assert(!(s.last().provider == p && s.last().region@ == r));
        assert(s.drop_last()[k] == s[k]);
        assert(one_per_place(s.drop_last())) by {
            assert forall|i: int, j: int| 0 <= i < j < s.drop_last().len() implies !((
            #[trigger] s.drop_last()[i]).provider == (#[trigger] s.drop_last()[j]).provider
                && s.drop_last()[i].region@ == s.drop_last()[j].region@) by {
                assert(s.drop_last()[i] == s[i]);
                assert(s.drop_last()[j] == s[j]);
            }
        }
        lemma_without_split(s.drop_last(), k);
        assert(s.remove(k) =~= s.drop_last().remove(k).push(s.last()));
    }
}

impl<L> MultiCloudManager<L> {
    /// Keeps a connection, replacing the one of its provider and region.
    pub fn add_connection(&mut self, conn: CloudConnection<L>)
        requires
            old(self).wf(),
        ensures
            final(self).wf(),
            final(self).connection(conn.provider, conn.region@) == Some(conn),
            forall|p: CloudProvider, r: Seq<char>|
                !(p == conn.provider && r == conn.region@) ==> #[trigger] final(self).connection(p, r) == old(
                    self,
                ).connection(p, r),
    {
        let ghost c = conn;
        let ghost before = self.connections@;
        match self.find(conn.provider, conn.region.as_str()) {
            Some(k) => {
                self.connections.remove(k);
                self.connections.insert(k, conn);
                proof {
                    assert(self.connections@ =~= before.update(k as int, c));
                    lemma_replace_place(before, k as int, c);
                }
            },
            None => {
                self.connections.push(conn);
                proof {
                    lemma_connection_for(before, c.provider, c.region@);
                    let u = self.connections@;
                    assert(u.drop_last() =~= before);
                    assert forall|i: int, j: int| 0 <= i < j < u.len() implies !((#[trigger] u[i]).provider == (
                    #[trigger] u[j]).provider && u[i].region@ == u[j].region@) by {
                        assert(u[i] == before[i]);
                        if j < before.len() {
                            assert(u[j] == before[j]);
                        }
                    }
                }
            },
        }
    }

    /// Drops the connection of a provider and region, if there is one.
    pub fn remove_connection(&mut self, provider: CloudProvider, region: &str)
        requires
            old(self).wf(),
        ensures
            final(self).wf(),
            final(self).connections_view() == without_place(old(self).connections_view(), provider, region@),
            final(self).connection(provider, region@) is None,
    {
        let ghost before = self.connections@;
        match self.find(provider, region) {
            Some(k) => {
                self.connections.remove(k);
                proof {
                    lemma_remove_place(before, k as int);
                    lemma_connection_for(self.connections@, provider, region@);
                    if connection_for(self.connections@, provider, region@) is Some {
                        let c = connection_for(self.connections@, provider, region@).unwrap();
                        let j = choose|j: int|
                            0 <= j < self.connections@.len() && self.connections@[j] == c && c.provider == provider
                                && c.region@ == region@;
                        let j2 = if j < k { j } else { j + 1 };
                        assert(self.connections@[j] == before[j2]);
                        assert(before[k as int].provider == provider && before[k as int].region@ == region@);
                    }
                }
            },
            None => {
                proof {
                    lemma_connection_for(before, provider, region@);
                    lemma_without_absent(before, provider, region@);
                }
            },
        }
    }

    /// Records whether the connection of a provider and region is up and
    /// its latency; nothing changes when there is none.
    pub fn update_status(&mut self, provider: CloudProvider, region: &str, connected: bool, latency: L)
        requires
            old(self).wf(),
        ensures
            final(self).wf(),
            match old(self).connection(provider, region@) {
                None => final(self).connections_view() == old(self).connections_view(),
                Some(c) => final(self).connection(provider, region@) == Some(
                    CloudConnection { connected, latency_ms: latency, ..c },
                ) && forall|p: CloudProvider, r: Seq<char>|
                    !(p == provider && r == region@) ==> #[trigger] final(self).connection(p, r) == old(self).connection(p, r),
            },
    {
        match self.find(provider, region) {
            Some(k) => {
                let ghost before = self.connections@;
                let mut c = self.connections.remove(k);
                c.connected = connected;
                c.latency_ms = latency;
                let ghost cc = c;
                self.connections.insert(k, c);
                proof {
                    assert(self.connections@ =~= before.update(k as int, cc));
                    lemma_replace_place(before, k as int, cc);
                }
            },
            None => {},
        }
    }
}

impl<L: Copy> MultiCloudManager<L> {
    /// Copies of every connection, in the order they were first kept.
    pub fn get_connections(&self) -> (r: Vec<CloudConnection<L>>)
        ensures
            r@ == self.connections_view(),
    {
        let mut out: Vec<CloudConnection<L>> = Vec::new();
        let mut i: usize = 0;
        while i < self.connections.len()
            invariant
                0 <= i <= self.connections@.len(),
                out@ == self.connections@.take(i as int),
            decreases self.connections.len() - i,
        {
            out.push(self.connections[i].copy());
            proof {
                assert(self.connections@.take(i + 1) =~= self.connections@.take(i as int).push(self.connections@[i as int]));
            }
            i = i + 1;
        }
        proof {
            assert(self.connections@.take(self.connections@.len() as int) =~= self.connections@);
        }
        out
    }

    /// Copies of the connections to a provider, in the order they were
    /// first kept.
    pub fn get_provider_connections(&self, provider: CloudProvider) -> (r: Vec<CloudConnection<L>>)
        ensures
            r@ == of_provider(self.connections_view(), provider),
    {
        let mut out: Vec<CloudConnection<L>> = Vec::new();
        let mut i: usize = 0;
        while i < self.connections.len()
            invariant
                0 <= i <= self.connections@.len(),
                out@ == of_provider(self.connections@.take(i as int), provider),
            decreases self.connections.len() - i,
        {
            proof {
                assert(self.connections@.take(i + 1).drop_last() =~= self.connections@.take(i as int));
            }
            if self.connections[i].provider == provider {
                out.push(self.connections[i].copy());
            }
            i = i + 1;
        }
        proof {
            assert(self.connections@.take(self.connections@.len() as int) =~= self.connections@);
        }
        out
    }
}

impl<L> Default for MultiCloudManager<L> {
    fn default() -> (m: MultiCloudManager<L>)
        ensures
            m.wf(),
            m.connections_view().len() == 0,
    {
        MultiCloudManager::new()
    }
}

} // verus!
