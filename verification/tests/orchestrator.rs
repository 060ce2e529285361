use zone_transfer::orchestrator::{
    first_fault, plan_scans, select_input, ConfigError, InputSource, ScanConfig,
    DEFAULT_CONCURRENCY_LIMIT,
};
use zone_transfer::scan::Request;
use zone_transfer::text::split_lines;

fn some(s: &str) -> Option<String> {
    Some(s.to_string())
}

#[test]
fn default_config() {
    let config = ScanConfig::default();
    assert_eq!(config.nameserver_override, None);
    assert_eq!(config.concurrency_limit, 10);
    assert_eq!(DEFAULT_CONCURRENCY_LIMIT, 10);
    assert!(!config.diagnostics_enabled);
}

#[test]
fn select_input_takes_the_one_source() {
    assert_eq!(select_input(some("example.com"), None, false), Ok(InputSource::Domain("example.com".to_string())));
    assert_eq!(select_input(None, some("domains.txt"), false), Ok(InputSource::File("domains.txt".to_string())));
    assert_eq!(select_input(None, None, true), Ok(InputSource::Stdin));
}

#[test]
fn select_input_without_a_source() {
    assert_eq!(select_input(None, None, false), Err(ConfigError::MissingInput));
}

#[test]
fn select_input_with_several_sources() {
    assert_eq!(select_input(some("a"), some("f"), false), Err(ConfigError::AmbiguousInput));
    assert_eq!(select_input(some("a"), None, true), Err(ConfigError::AmbiguousInput));
    assert_eq!(select_input(None, some("f"), true), Err(ConfigError::AmbiguousInput));
    assert_eq!(select_input(some("a"), some("f"), true), Err(ConfigError::AmbiguousInput));
}

#[test]
fn domains_are_listed_one_on_each_line() {
    assert_eq!(
        split_lines("example.com\nsafe.org\r\n\n broken.net \n"),
        vec!["example.com".to_string(), "safe.org".to_string(), "".to_string(), " broken.net ".to_string()]
    );
    assert_eq!(split_lines(""), Vec::<String>::new());
}

#[test]
fn plan_scans_one_per_domain_in_order() {
    let config = ScanConfig::default();
    let domains = vec!["b.org".to_string(), "a.org".to_string(), "b.org".to_string()];
    let scans = plan_scans(domains.clone(), &config);
    assert_eq!(scans.len(), 3);
    for (scan, domain) in scans.iter().zip(domains.iter()) {
        assert_eq!(scan.next_request(), Request::Resolve { domain: domain.clone() });
    }
}

#[test]
fn plan_scans_of_no_domain() {
    assert!(plan_scans(Vec::new(), &ScanConfig::default()).is_empty());
}

#[test]
fn plan_scans_hands_the_override_to_every_scan() {
    let config = ScanConfig {
        nameserver_override: some("10.0.0.53"),
        concurrency_limit: 1,
        diagnostics_enabled: true,
    };
    let domains = vec!["a.org".to_string(), "b.org".to_string()];
    let scans = plan_scans(domains.clone(), &config);
    assert_eq!(scans.len(), 2);
    for (scan, domain) in scans.iter().zip(domains.iter()) {
        assert_eq!(
            scan.next_request(),
            Request::Probe { domain: domain.clone(), nameserver: "10.0.0.53".to_string() }
        );
    }
}

#[test]
fn limit_bounds_nothing() {
    let config = ScanConfig { nameserver_override: None, concurrency_limit: 2, diagnostics_enabled: false };
    let domains: Vec<String> = (0..25).map(|i| format!("d{}.org", i)).collect();
    assert_eq!(plan_scans(domains, &config).len(), 25);
}

#[test]
fn first_fault_of_a_clean_run() {
    assert_eq!(first_fault(Vec::new()), Ok(()));
    assert_eq!(first_fault(vec![None, None, None]), Ok(()));
}

#[test]
fn first_fault_is_the_earliest() {
    assert_eq!(first_fault(vec![None, some("second"), None, some("fourth")]), Err("second".to_string()));
    assert_eq!(first_fault(vec![some("first")]), Err("first".to_string()));
    assert_eq!(first_fault(vec![None, None, some("last")]), Err("last".to_string()));
}
