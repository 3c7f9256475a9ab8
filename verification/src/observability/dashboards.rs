//! Grafana dashboard definitions: panels and the Prometheus queries they
//! chart.
use vstd::prelude::*;
use crate::text::{owned, push_string, views};

verus! {

#[derive(PartialEq, Eq, Structural, Clone, Copy, Debug)]
pub enum PanelType {
    Graph,
    Stat,
    Table,
    Heatmap,
}

/// A panel: its title, how it draws, and its queries.
#[derive(Clone, Debug)]
pub struct Panel {
    pub title: String,
    pub panel_type: PanelType,
    pub targets: Vec<String>,
}

/// A dashboard: a title and panels.
#[derive(Clone, Debug)]
pub struct GrafanaDashboard {
    pub title: String,
    pub panels: Vec<Panel>,
}

/// A panel as plain values.
pub struct PanelModel {
    pub title: Seq<char>,
    pub panel_type: PanelType,
    pub targets: Seq<Seq<char>>,
}

impl View for Panel {
    type V = PanelModel;

    open spec fn view(&self) -> PanelModel {
        PanelModel { title: self.title@, panel_type: self.panel_type, targets: views(self.targets@) }
    }
}

/// A panel with one query.
pub open spec fn panel1(title: Seq<char>, t: PanelType, target: Seq<char>) -> PanelModel {
    PanelModel { title, panel_type: t, targets: seq![target] }
}

/// The panels of the network overview: throughput, packet loss, 95th
/// percentile latency and active tunnels.
pub open spec fn network_overview_panels() -> Seq<PanelModel> {
    seq![
        panel1("Throughput"@, PanelType::Graph, "rate(patronus_bytes_total[5m])"@),
        panel1("Packet Loss"@, PanelType::Graph, "patronus_packet_loss"@),
        panel1("Latency P95"@, PanelType::Graph, "histogram_quantile(0.95, patronus_latency_ms)"@),
        panel1("Active Tunnels"@, PanelType::Stat, "patronus_tunnels_active"@),
    ]
}

/// The panels of the machine-learning dashboard: predictions, inference
/// time and anomalies.
pub open spec fn ml_panels() -> Seq<PanelModel> {
    seq![
        panel1("ML Predictions"@, PanelType::Graph, "rate(patronus_ml_predictions_total[5m])"@),
        panel1("Inference Time"@, PanelType::Heatmap, "patronus_ml_inference_ms"@),
        panel1("Anomalies Detected"@, PanelType::Stat, "patronus_anomalies_detected_total"@),
    ]
}

fn single_panel(title: &str, t: PanelType, target: &str) -> (p: Panel)
    ensures
        p@ == panel1(title@, t, target@),
{
    let mut targets: Vec<String> = Vec::new();
    push_string(&mut targets, owned(target));
    let p = Panel { title: owned(title), panel_type: t, targets };
    proof {
        assert(p@.targets =~= seq![target@]);
    }
    p
}

impl GrafanaDashboard {
    /// The panels as plain values.
    pub open spec fn panels_view(&self) -> Seq<PanelModel> {
        self.panels@.map_values(|p: Panel| p@)
    }

    /// The network overview dashboard.
    pub fn network_overview() -> (d: GrafanaDashboard)
        ensures
            d.title@ == "Patronus Network Overview"@,
            d.panels_view() == network_overview_panels(),
    {
        let mut panels: Vec<Panel> = Vec::new();
        panels.push(single_panel("Throughput", PanelType::Graph, "rate(patronus_bytes_total[5m])"));
        panels.push(single_panel("Packet Loss", PanelType::Graph, "patronus_packet_loss"));
        panels.push(
            single_panel("Latency P95", PanelType::Graph, "histogram_quantile(0.95, patronus_latency_ms)"),
        );
        panels.push(single_panel("Active Tunnels", PanelType::Stat, "patronus_tunnels_active"));
        let d = GrafanaDashboard { title: owned("Patronus Network Overview"), panels };
        proof {
            assert(d.panels_view() =~= network_overview_panels());
        }
        d
    }

    /// The machine-learning performance dashboard.
    pub fn ml_dashboard() -> (d: GrafanaDashboard)
        ensures
            d.title@ == "Patronus ML Performance"@,
            d.panels_view() == ml_panels(),
    {
        let mut panels: Vec<Panel> = Vec::new();
        panels.push(
            single_panel("ML Predictions", PanelType::Graph, "rate(patronus_ml_predictions_total[5m])"),
        );
        panels.push(single_panel("Inference Time", PanelType::Heatmap, "patronus_ml_inference_ms"));
        panels.push(single_panel("Anomalies Detected", PanelType::Stat, "patronus_anomalies_detected_total"));
        let d = GrafanaDashboard { title: owned("Patronus ML Performance"), panels };
        proof {
            assert(d.panels_view() =~= ml_panels());
        }
        d
    }
}

} // verus!
