# patronus

The decision logic of a Linux firewall and network appliance, verified with
Verus: the configuration files it renders (DHCP, DNS, FRR, IPsec, OpenVPN,
WireGuard, HAProxy, IDS, keepalived, hostapd, tc), the parsers of what the
system's tools print, multi-WAN health and policy routing, NAT, load
balancing and the web application firewall, tenants, roles and quotas,
alerting, the catalog of Prometheus metrics, the model registry, training runs and retraining triggers.

Layout:

- `src/` is the library. Its functions carry contracts that Verus proves
  (the clock, of which nothing can be promised, has none); the `pub proof fn lemma_*` items state properties that span
  several operations. The few calls that Verus cannot see into (random
  identifiers, the clock, regular expressions, SHA-256 and hex, a hasher,
  debug quoting, pushing a character on a string, and the Prometheus
  registry) sit behind small trusted functions in `ids.rs`, `clock.rs`,
  `text.rs`, `network/ddns.rs`, `network_functions/waf.rs`,
  `network_functions/loadbalancer.rs`, `mlops/registry.rs` and
  `monitoring/metrics.rs`, each with a doc comment saying what it claims.
- `tests/` runs the library on concrete values.
- `app/` is ordinary Rust around the library: it writes the rendered files,
  runs the system's tools, talks to netlink and HTTP endpoints, sets and
  serves the Prometheus metrics, and holds what computes on floating point
  numbers.

Verus checks the library from `src/lib.rs`; the tests and `app/` build with
Cargo against it.
