use patronus::monitoring::metrics::{collector_family_list, new_collector_registry, register_all, MetricFamily, MetricKind};
use patronus::observability::dashboards::GrafanaDashboard;
use patronus::observability::metrics::{data_plane_family_list, new_data_plane_registry};
use patronus::saas::Tenant;

fn family(kind: MetricKind, name: &str, help: &str, labels: &[&str]) -> MetricFamily {
    MetricFamily {
        kind,
        name: name.to_string(),
        help: help.to_string(),
        labels: labels.iter().map(|l| l.to_string()).collect(),
    }
}

#[test]
fn collector_lists_every_family_in_order() {
    let families = collector_family_list();
    assert_eq!(families.len(), 57);
    assert_eq!(families[0].name, "patronus_cpu_usage_percent");
    assert_eq!(families[0].kind, MetricKind::Gauge);
    assert!(families[0].labels.is_empty());
    assert_eq!(families[3].name, "patronus_disk_used_bytes");
    assert_eq!(families[3].labels, vec!["device".to_string(), "mount_point".to_string()]);
    assert_eq!(families[33].name, "patronus_dns_query_duration_seconds");
    assert_eq!(families[33].kind, MetricKind::Histogram);
    assert_eq!(families[56].name, "patronus_service_restarts_total");
    assert_eq!(families[56].kind, MetricKind::Counter);
    let mut names: Vec<&String> = families.iter().map(|f| &f.name).collect();
    names.sort();
    names.dedup();
    assert_eq!(names.len(), 57);
}

#[test]
fn collector_registry_registers_every_family() {
    let (registry, handles) = new_collector_registry().unwrap();
    assert_eq!(handles.len(), 57);
    assert!(handles[0].gauge.is_some());
    assert!(handles[3].gauge_vec.is_some());
    assert!(handles[20].counter.is_some());
    assert!(handles[17].counter_vec.is_some());
    assert!(handles[33].histogram_vec.is_some());
    handles[0].gauge.as_ref().unwrap().set(12.5);
    let gathered = registry.gather();
    assert!(gathered.iter().any(|mf| mf.get_name() == "patronus_cpu_usage_percent"));
}

#[test]
fn registration_refuses_invalid_and_repeated_families() {
    let repeated = vec![
        family(MetricKind::Counter, "patronus_a_total", "A", &[]),
        family(MetricKind::Gauge, "patronus_a_total", "A again", &[]),
    ];
    assert_eq!(register_all(&repeated).err().unwrap().name, "patronus_a_total");

    let no_help = vec![family(MetricKind::Gauge, "patronus_b", "", &[])];
    assert_eq!(register_all(&no_help).err().unwrap().name, "patronus_b");

    let bad_name = vec![family(MetricKind::Counter, "9lives", "Lives", &[])];
    assert!(register_all(&bad_name).is_err());

    let bad_label = vec![family(MetricKind::Gauge, "patronus_c", "C", &["a-b"])];
    assert!(register_all(&bad_label).is_err());

    let twice_labelled = vec![family(MetricKind::Histogram, "patronus_d", "D", &["x", "x"])];
    assert!(register_all(&twice_labelled).is_err());

    let fine = vec![
        family(MetricKind::Gauge, "patronus_e", "E", &["x", "y"]),
        family(MetricKind::Counter, "patronus_f:rate", "F", &[]),
    ];
    let (_, handles) = register_all(&fine).unwrap();
    assert!(handles[0].gauge_vec.is_some());
    assert!(handles[1].counter.is_some());
}

#[test]
fn data_plane_registry_and_dashboards_agree() {
    let families = data_plane_family_list();
    assert_eq!(families.len(), 10);
    let (registry, handles) = new_data_plane_registry().unwrap();
    assert_eq!(handles.len(), 10);
    handles[0].counter.as_ref().unwrap().inc();
    assert!(registry.gather().iter().any(|mf| mf.get_name() == "patronus_packets_total"));
    let histograms = ["patronus_latency_ms", "patronus_ml_inference_ms"];
    for dashboard in [GrafanaDashboard::network_overview(), GrafanaDashboard::ml_dashboard()] {
        for panel in &dashboard.panels {
            for target in &panel.targets {
                let named = families.iter().any(|f| target.contains(f.name.as_str()))
                    || histograms.iter().any(|h| target.contains(h));
                assert!(named, "{}", target);
            }
        }
    }
}

#[test]
fn identifiers_are_version_four_uuids() {
    for _ in 0..8 {
        let id = Tenant::new("t".to_string(), "t@example.com".to_string()).id;
        assert_eq!((id >> 76) & 0xF, 4);
        assert_eq!((id >> 62) & 0x3, 2);
    }
}
