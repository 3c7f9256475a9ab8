//! Kinds of metrics, and the counters and gauges of the data plane.
use vstd::prelude::*;
use crate::observability::dashboards::{ml_panels, network_overview_panels};
use crate::monitoring::metrics::{family, family_views, l0, register_all, MetricFamily, MetricHandle, MetricKind, MetricsError, names_distinct_upto, names_upto, registered_names};

verus! {

#[derive(PartialEq, Eq, Structural, Clone, Copy, Debug)]
pub enum MetricType {
    Counter,
    Gauge,
    Histogram,
}

/// The data plane's counters and gauges, in order: packets, bytes, loss,
/// tunnels, BGP, machine learning and anomalies.  Its two histograms, of
/// latency and inference time, have floating point bucket bounds and are
/// added by the caller.
pub open spec fn data_plane_families() -> Seq<(MetricKind, Seq<char>, Seq<char>, Seq<Seq<char>>)> {
    seq![
        (MetricKind::Counter, "patronus_packets_total"@, "Total packets processed"@, Seq::<Seq<char>>::empty()),
        (MetricKind::Counter, "patronus_bytes_total"@, "Total bytes processed"@, Seq::<Seq<char>>::empty()),
        (MetricKind::Gauge, "patronus_packet_loss"@, "Current packet loss percentage"@, Seq::<Seq<char>>::empty()),
        (MetricKind::Gauge, "patronus_tunnels_active"@, "Number of active tunnels"@, Seq::<Seq<char>>::empty()),
        (MetricKind::Counter, "patronus_tunnel_failures_total"@, "Total tunnel failures"@, Seq::<Seq<char>>::empty()),
        (MetricKind::Gauge, "patronus_bgp_peers_up"@, "Number of BGP peers in up state"@, Seq::<Seq<char>>::empty()),
        (MetricKind::Gauge, "patronus_bgp_routes"@, "Number of BGP routes"@, Seq::<Seq<char>>::empty()),
        (MetricKind::Counter, "patronus_bgp_updates_total"@, "Total BGP updates received"@, Seq::<Seq<char>>::empty()),
        (MetricKind::Counter, "patronus_ml_predictions_total"@, "Total ML predictions"@, Seq::<Seq<char>>::empty()),
        (MetricKind::Counter, "patronus_anomalies_detected_total"@, "Total anomalies detected"@, Seq::<Seq<char>>::empty()),
    ]
}

/// The data plane's counters and gauges, in order.
pub fn data_plane_family_list() -> (v: Vec<MetricFamily>)
    ensures
        family_views(v@) == data_plane_families(),
{
    let mut v: Vec<MetricFamily> = Vec::new();
    v.push(family(MetricKind::Counter, "patronus_packets_total", "Total packets processed", l0()));
    v.push(family(MetricKind::Counter, "patronus_bytes_total", "Total bytes processed", l0()));
    v.push(family(MetricKind::Gauge, "patronus_packet_loss", "Current packet loss percentage", l0()));
    v.push(family(MetricKind::Gauge, "patronus_tunnels_active", "Number of active tunnels", l0()));
    v.push(family(MetricKind::Counter, "patronus_tunnel_failures_total", "Total tunnel failures", l0()));
    v.push(family(MetricKind::Gauge, "patronus_bgp_peers_up", "Number of BGP peers in up state", l0()));
    v.push(family(MetricKind::Gauge, "patronus_bgp_routes", "Number of BGP routes", l0()));
    v.push(family(MetricKind::Counter, "patronus_bgp_updates_total", "Total BGP updates received", l0()));
    v.push(family(MetricKind::Counter, "patronus_ml_predictions_total", "Total ML predictions", l0()));
    v.push(family(MetricKind::Counter, "patronus_anomalies_detected_total", "Total anomalies detected", l0()));
    proof {
        assert(family_views(v@) =~= data_plane_families());
    }
    v
}

/// A registry with the data plane's counters and gauges registered in it,
/// in order, and their handles in the same order; refused with the name of
/// the first family the registry refuses.  When it succeeds the registered
/// names are exactly those families' names.
pub fn new_data_plane_registry() -> (r: Result<(prometheus::Registry, Vec<MetricHandle>), MetricsError>)
    ensures
        r matches Ok((reg, hs)) ==> {
            &&& registered_names(reg) == names_upto(data_plane_families(), data_plane_families().len() as int)
            &&& names_distinct_upto(data_plane_families(), data_plane_families().len() as int)
            &&& hs@.len() == data_plane_families().len()
        },
        r matches Err(e) ==> exists|k: int| 0 <= k < data_plane_families().len() && e.name@ == (#[trigger] data_plane_families()[k]).1,
{
    let families = data_plane_family_list();
    let r = register_all(&families);
    proof {
        if r is Err {
            let e = r->Err_0;
            let k = choose|k: int| 0 <= k < families@.len() && e.name@ == (#[trigger] families@[k]).name@;
            assert(family_views(families@)[k] == (families@[k].kind, families@[k].name@, families@[k].help@, crate::monitoring::metrics::label_views(families@[k].labels@)));
        }
    }
    r
}

/// Whether `n` occurs in `t`.
pub open spec fn mentions(t: Seq<char>, n: Seq<char>) -> bool {
    exists|off: int| 0 <= off && off + n.len() <= t.len() && #[trigger] t.subrange(off, off + n.len()) == n
}

/// The names of the data plane's metrics: its counters and gauges, and its
/// two histograms of latency and inference time.
pub open spec fn data_plane_metric_names() -> Set<Seq<char>> {
    Set::new(
        |n: Seq<char>|
            (exists|k: int| 0 <= k < data_plane_families().len() && (#[trigger] data_plane_families()[k]).1 == n)
                || n == "patronus_latency_ms"@ || n == "patronus_ml_inference_ms"@,
    )
}

/// Whether a query names a metric of the data plane.
pub open spec fn names_data_plane_metric(query: Seq<char>) -> bool {
    exists|n: Seq<char>| data_plane_metric_names().contains(n) && #[trigger] mentions(query, n)
}

/// The dashboards chart only the data plane's metrics: every query of the
/// network overview and of the machine-learning dashboard names one.
pub proof fn lemma_dashboards_chart_data_plane_metrics()
    ensures
        forall|k: int| 0 <= k < network_overview_panels().len() ==> #[trigger] names_data_plane_metric(network_overview_panels()[k].targets[0]),
        forall|k: int| 0 <= k < ml_panels().len() ==> #[trigger] names_data_plane_metric(ml_panels()[k].targets[0]),
{
    assert forall|k: int| 0 <= k < network_overview_panels().len() implies #[trigger] names_data_plane_metric(network_overview_panels()[k].targets[0]) by {
        if k == 0 {
            assert(network_overview_panels()[k].targets[0] == "rate(patronus_bytes_total[5m])"@);
            reveal_strlit("rate(patronus_bytes_total[5m])");
            reveal_strlit("patronus_bytes_total");
            assert("rate(patronus_bytes_total[5m])"@.subrange(5, 5int + "patronus_bytes_total"@.len()) =~= "patronus_bytes_total"@);
            assert(data_plane_families()[1].1 == "patronus_bytes_total"@);
            assert(data_plane_metric_names().contains("patronus_bytes_total"@));
            assert(mentions("rate(patronus_bytes_total[5m])"@, "patronus_bytes_total"@));
        } else if k == 1 {
            assert(network_overview_panels()[k].targets[0] == "patronus_packet_loss"@);
            reveal_strlit("patronus_packet_loss");
            reveal_strlit("patronus_packet_loss");
            assert("patronus_packet_loss"@.subrange(0, 0int + "patronus_packet_loss"@.len()) =~= "patronus_packet_loss"@);
            assert(data_plane_families()[2].1 == "patronus_packet_loss"@);
            assert(data_plane_metric_names().contains("patronus_packet_loss"@));
            assert(mentions("patronus_packet_loss"@, "patronus_packet_loss"@));
        } else if k == 2 {
            assert(network_overview_panels()[k].targets[0] == "histogram_quantile(0.95, patronus_latency_ms)"@);
            reveal_strlit("histogram_quantile(0.95, patronus_latency_ms)");
            reveal_strlit("patronus_latency_ms");
            assert("histogram_quantile(0.95, patronus_latency_ms)"@.subrange(25, 25int + "patronus_latency_ms"@.len()) =~= "patronus_latency_ms"@);
            assert(data_plane_metric_names().contains("patronus_latency_ms"@));
            assert(mentions("histogram_quantile(0.95, patronus_latency_ms)"@, "patronus_latency_ms"@));
        } else if k == 3 {
            assert(network_overview_panels()[k].targets[0] == "patronus_tunnels_active"@);
            reveal_strlit("patronus_tunnels_active");
            reveal_strlit("patronus_tunnels_active");
            assert("patronus_tunnels_active"@.subrange(0, 0int + "patronus_tunnels_active"@.len()) =~= "patronus_tunnels_active"@);
            assert(data_plane_families()[3].1 == "patronus_tunnels_active"@);
            assert(data_plane_metric_names().contains("patronus_tunnels_active"@));
            assert(mentions("patronus_tunnels_active"@, "patronus_tunnels_active"@));
        }
    }
    assert forall|k: int| 0 <= k < ml_panels().len() implies #[trigger] names_data_plane_metric(ml_panels()[k].targets[0]) by {
        if k == 0 {
            assert(ml_panels()[k].targets[0] == "rate(patronus_ml_predictions_total[5m])"@);
            reveal_strlit("rate(patronus_ml_predictions_total[5m])");
            reveal_strlit("patronus_ml_predictions_total");
            assert("rate(patronus_ml_predictions_total[5m])"@.subrange(5, 5int + "patronus_ml_predictions_total"@.len()) =~= "patronus_ml_predictions_total"@);
            assert(data_plane_families()[8].1 == "patronus_ml_predictions_total"@);
            assert(data_plane_metric_names().contains("patronus_ml_predictions_total"@));
            assert(mentions("rate(patronus_ml_predictions_total[5m])"@, "patronus_ml_predictions_total"@));
        } else if k == 1 {
            assert(ml_panels()[k].targets[0] == "patronus_ml_inference_ms"@);
            reveal_strlit("patronus_ml_inference_ms");
            reveal_strlit("patronus_ml_inference_ms");
            assert("patronus_ml_inference_ms"@.subrange(0, 0int + "patronus_ml_inference_ms"@.len()) =~= "patronus_ml_inference_ms"@);
            assert(data_plane_metric_names().contains("patronus_ml_inference_ms"@));
            assert(mentions("patronus_ml_inference_ms"@, "patronus_ml_inference_ms"@));
        } else if k == 2 {
            assert(ml_panels()[k].targets[0] == "patronus_anomalies_detected_total"@);
            reveal_strlit("patronus_anomalies_detected_total");
            reveal_strlit("patronus_anomalies_detected_total");
            assert("patronus_anomalies_detected_total"@.subrange(0, 0int + "patronus_anomalies_detected_total"@.len()) =~= "patronus_anomalies_detected_total"@);
            assert(data_plane_families()[9].1 == "patronus_anomalies_detected_total"@);
            assert(data_plane_metric_names().contains("patronus_anomalies_detected_total"@));
            assert(mentions("patronus_anomalies_detected_total"@, "patronus_anomalies_detected_total"@));
        }
    }
}

} // verus!
