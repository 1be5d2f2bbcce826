use port_scanner::banner_grabber::{BannerGrabber, ProbeKind};
use port_scanner::nmap_services::{get_service, load_nmap_services, parse_service_line, ServiceTable};
use port_scanner::parse_port_range;
use port_scanner::scan::{ScanAction, ScanScheduler};
use port_scanner::text::u16_to_string;
use port_scanner::vapt::{
    escalate, general_recommendations, parse_output_mode, parse_risk_name, risk_counts, risk_label,
    risk_name, risk_rank, OutputMode, RiskLevel, VaptScanner, Vulnerability, WebObservation,
    WebResponse,
};

fn empty_table() -> ServiceTable {
    ServiceTable::new()
}

fn table_with(entries: &[(u16, &str)]) -> ServiceTable {
    let mut t = ServiceTable::new();
    for (port, name) in entries {
        t.add(*port, name.to_string());
    }
    t
}

#[test]
fn parse_port_range_rejects_out_of_bounds_reversed() {
    // "70000" does not fit in 16 bits, so the parse fails before any
    // network work could start.
    let result = parse_port_range("70000-1");
    assert!(result.is_err());
    assert_eq!(result.unwrap_err(), "Invalid start port");
}

#[test]
fn parse_port_range_error_messages() {
    assert_eq!(
        parse_port_range("1024").unwrap_err(),
        "Invalid port range format. Use START-END (e.g., 1-1024)"
    );
    assert_eq!(parse_port_range("1-2-3").unwrap_err(), "Invalid port range format. Use START-END (e.g., 1-1024)");
    assert_eq!(parse_port_range("x-2").unwrap_err(), "Invalid start port");
    assert_eq!(parse_port_range("2-x").unwrap_err(), "Invalid end port");
    assert_eq!(
        parse_port_range("20-10").unwrap_err(),
        "Start port must be less than or equal to end port"
    );
}

#[test]
fn parse_port_range_accepts_full_range() {
    assert_eq!(parse_port_range("1-65535").unwrap(), (1, 65535));
    assert_eq!(parse_port_range("80-80").unwrap(), (80, 80));
}

#[test]
fn risk_order_is_total() {
    assert!(risk_rank(RiskLevel::Low) < risk_rank(RiskLevel::Medium));
    assert!(risk_rank(RiskLevel::Medium) < risk_rank(RiskLevel::High));
    assert!(risk_rank(RiskLevel::High) < risk_rank(RiskLevel::Critical));
    assert_eq!(escalate(RiskLevel::Low, RiskLevel::High), RiskLevel::High);
    assert_eq!(escalate(RiskLevel::Critical, RiskLevel::Medium), RiskLevel::Critical);
    assert_eq!(escalate(RiskLevel::Medium, RiskLevel::Medium), RiskLevel::Medium);
}

fn finding(severity: RiskLevel) -> Vulnerability {
    Vulnerability {
        name: "n".to_string(),
        description: "d".to_string(),
        severity,
        cve: None,
        remediation: "r".to_string(),
    }
}

#[test]
fn aggregation_is_monotonic_and_critical_dominates() {
    let scanner = VaptScanner::new(empty_table());
    let mut vulns = Vec::new();
    assert_eq!(scanner.calculate_risk_level(&vulns), RiskLevel::Low);
    vulns.push(finding(RiskLevel::Medium));
    assert_eq!(scanner.calculate_risk_level(&vulns), RiskLevel::Medium);
    vulns.push(finding(RiskLevel::Low));
    assert_eq!(scanner.calculate_risk_level(&vulns), RiskLevel::Medium);
    vulns.push(finding(RiskLevel::High));
    assert_eq!(scanner.calculate_risk_level(&vulns), RiskLevel::High);
    vulns.push(finding(RiskLevel::Critical));
    assert_eq!(scanner.calculate_risk_level(&vulns), RiskLevel::Critical);
    vulns.push(finding(RiskLevel::Low));
    assert_eq!(scanner.calculate_risk_level(&vulns), RiskLevel::Critical);
}

#[test]
fn ftp_banner_on_port_21_yields_one_high_finding() {
    // Port 21 open with a ProFTPD greeting: the service resolves to FTP
    // and exactly one High finding fires, so the aggregate is High.
    let scanner = VaptScanner::new(empty_table());
    let result = scanner.scan_port(21, Some("220 ProFTPD Server ready".to_string()), None);
    assert_eq!(result.service, "FTP");
    assert_eq!(result.vulnerabilities.len(), 1);
    assert_eq!(result.vulnerabilities[0].name, "FTP Service Detected");
    assert!(matches!(result.vulnerabilities[0].severity, RiskLevel::High));
    assert!(matches!(result.risk_level, RiskLevel::High));
    assert_eq!(result.recommendations, vec!["Replace FTP with SFTP for secure file transfer".to_string()]);
}

#[test]
fn telnet_port_without_banner_is_critical() {
    // Port 23 open, no banner captured: the table resolves the service —
    // the file stores lower-case names — and the Critical finding fires
    // even though no probe ran.
    let scanner = VaptScanner::new(table_with(&[(23, "telnet")]));
    let result = scanner.scan_port(23, None, None);
    assert_eq!(result.service, "telnet");
    assert_eq!(result.vulnerabilities.len(), 1);
    assert_eq!(result.vulnerabilities[0].name, "Telnet Service Detected");
    assert!(matches!(result.vulnerabilities[0].severity, RiskLevel::Critical));
    assert!(matches!(result.risk_level, RiskLevel::Critical));
}

#[test]
fn service_branch_matching_ignores_case() {
    // The dedicated branches fire whatever case the resolved name carries.
    let upper = VaptScanner::new(table_with(&[(23, "TELNET")]));
    assert!(matches!(upper.scan_port(23, None, None).risk_level, RiskLevel::Critical));
    let mixed = VaptScanner::new(table_with(&[(21, "Ftp")]));
    let result = mixed.scan_port(21, None, None);
    assert_eq!(result.service, "Ftp");
    assert!(matches!(result.risk_level, RiskLevel::High));
}

#[test]
fn web_service_without_security_headers() {
    // Port 80 open, the GET came back 200 with no security headers: one
    // Medium default-page finding plus five Medium missing-header
    // findings, aggregate Medium.
    let scanner = VaptScanner::new(table_with(&[(80, "http")]));
    let obs = WebObservation {
        response: Some(WebResponse { status: 200, headers: Vec::new() }),
        tls_connect_ok: false,
    };
    let result = scanner.scan_port(80, None, Some(&obs));
    assert_eq!(result.service, "http");
    assert_eq!(result.vulnerabilities.len(), 6);
    assert_eq!(result.vulnerabilities[0].name, "Default Page Accessible");
    for v in &result.vulnerabilities {
        assert!(matches!(v.severity, RiskLevel::Medium));
    }
    let names: Vec<&str> = result.vulnerabilities.iter().skip(1).map(|v| v.name.as_str()).collect();
    assert_eq!(
        names,
        vec![
            "Missing Security Header: x-frame-options",
            "Missing Security Header: x-content-type-options",
            "Missing Security Header: x-xss-protection",
            "Missing Security Header: strict-transport-security",
            "Missing Security Header: content-security-policy",
        ]
    );
    assert!(matches!(result.risk_level, RiskLevel::Medium));
    assert_eq!(result.recommendations.len(), 5);
    assert!(result.ssl_info.is_none());
    assert!(result.security_headers.is_some());
}

#[test]
fn web_service_with_headers_present_and_tls_placeholder() {
    let scanner = VaptScanner::new(empty_table());
    let headers = vec![
        ("X-Frame-Options".to_string(), "DENY".to_string()),
        ("X-Content-Type-Options".to_string(), "nosniff".to_string()),
        ("X-XSS-Protection".to_string(), "1".to_string()),
        ("Strict-Transport-Security".to_string(), "max-age=1".to_string()),
        ("Content-Security-Policy".to_string(), "default-src".to_string()),
    ];
    let obs = WebObservation {
        response: Some(WebResponse { status: 404, headers }),
        tls_connect_ok: true,
    };
    let result = scanner.scan_port(443, Some("HTTP/1.1".to_string()), Some(&obs));
    assert_eq!(result.service, "HTTP");
    // 404 raises no default-page finding and all five headers are there.
    assert!(result.vulnerabilities.is_empty());
    assert!(matches!(result.risk_level, RiskLevel::Low));
    let ssl = result.ssl_info.expect("port 443 always carries the TLS placeholder");
    assert!(!ssl.certificate_valid);
    assert_eq!(ssl.issues, vec!["SSL certificate validation not implemented in this version".to_string()]);
    let stored = result.security_headers.unwrap();
    assert!(stored.iter().any(|(k, _)| k == "x-frame-options"));
}

#[test]
fn repeated_header_keys_collapse_to_one_entry() {
    // The stored headers are a mapping: a key handed back twice keeps
    // one entry, with the value seen last.
    let scanner = VaptScanner::new(empty_table());
    let headers = vec![
        ("X-Frame-Options".to_string(), "SAMEORIGIN".to_string()),
        ("Set-Cookie".to_string(), "a=1".to_string()),
        ("x-frame-options".to_string(), "DENY".to_string()),
        ("Set-Cookie".to_string(), "b=2".to_string()),
    ];
    let obs = WebObservation {
        response: Some(WebResponse { status: 500, headers }),
        tls_connect_ok: false,
    };
    let result = scanner.scan_port(8080, Some("HTTP/1.1 500".to_string()), Some(&obs));
    let stored = result.security_headers.unwrap();
    assert_eq!(
        stored,
        vec![
            ("x-frame-options".to_string(), "DENY".to_string()),
            ("set-cookie".to_string(), "b=2".to_string()),
        ]
    );
    // The present header raises no finding; the four other checks do.
    assert!(result
        .vulnerabilities
        .iter()
        .all(|v| v.name != "Missing Security Header: x-frame-options"));
    assert_eq!(result.vulnerabilities.len(), 4);
}

#[test]
fn unreachable_web_service_is_low() {
    let scanner = VaptScanner::new(table_with(&[(8080, "http")]));
    let obs = WebObservation { response: None, tls_connect_ok: false };
    let result = scanner.scan_port(8080, None, Some(&obs));
    assert_eq!(result.vulnerabilities.len(), 1);
    assert_eq!(result.vulnerabilities[0].name, "Web Service Unreachable");
    assert!(matches!(result.risk_level, RiskLevel::Low));
    assert!(result.security_headers.is_none());
}

#[test]
fn ssh_smtp_rdp_and_generic_branches() {
    let scanner = VaptScanner::new(table_with(&[(22, "ssh"), (25, "smtp"), (3389, "rdp"), (5432, "postgresql")]));
    let ssh = scanner.scan_port(22, None, None);
    assert!(matches!(ssh.risk_level, RiskLevel::Low));
    assert_eq!(ssh.recommendations.len(), 2);
    let smtp = scanner.scan_port(25, None, None);
    assert!(matches!(smtp.risk_level, RiskLevel::Medium));
    let rdp = scanner.scan_port(3389, None, None);
    assert!(matches!(rdp.risk_level, RiskLevel::High));
    let generic = scanner.scan_port(5432, None, None);
    assert_eq!(generic.service, "postgresql");
    assert_eq!(generic.vulnerabilities.len(), 1);
    assert_eq!(generic.vulnerabilities[0].name, "postgresql Service Detected");
    assert_eq!(
        generic.vulnerabilities[0].description,
        "postgresql service running on port 5432"
    );
    assert!(matches!(generic.risk_level, RiskLevel::Medium));
}

#[test]
fn banner_keyword_beats_table_entry() {
    let scanner = VaptScanner::new(table_with(&[(2222, "something-else")]));
    let result = scanner.scan_port(2222, Some("SSH-2.0-OpenSSH_8.9".to_string()), None);
    assert_eq!(result.service, "SSH");
}

#[test]
fn keyword_match_on_unknown_port() {
    let scanner = VaptScanner::new(empty_table());
    let result = scanner.scan_port(2121, Some("some ftp daemon".to_string()), None);
    assert_eq!(result.service, "FTP");
    let unknown = scanner.scan_port(4444, Some("nothing to see".to_string()), None);
    assert_eq!(unknown.service, "Unknown");
}

#[test]
fn probe_order_is_deterministic() {
    // HTTP is always attempted before FTP, before SMTP, before the
    // generic fallback.
    let grabber = BannerGrabber::new(200);
    let order = grabber.probe_order();
    assert_eq!(
        order,
        vec![ProbeKind::Http, ProbeKind::Ftp, ProbeKind::Smtp, ProbeKind::Generic]
    );
    assert_eq!(grabber.probe_order(), order);
}

#[test]
fn http_response_interpretation() {
    let grabber = BannerGrabber::new(200);
    let text = "HTTP/1.1 200 OK\r\nServer: nginx/1.24\r\nX-Powered-By: PHP/8.1\r\nDate: today\r\n";
    let info = grabber.interpret_http_response(text).expect("nonempty response yields a banner");
    assert_eq!(info.protocol, "HTTP");
    assert_eq!(info.server_info.as_deref(), Some("nginx/1.24"));
    assert_eq!(info.additional_info, vec!["X-Powered-By: PHP/8.1".to_string()]);
    assert_eq!(info.banner, "Server: nginx/1.24\nX-Powered-By: PHP/8.1\nDate: today");
    assert!(grabber.interpret_http_response("").is_none());
    let single = grabber.interpret_http_response("HTTP/1.0 301 Moved").unwrap();
    assert_eq!(single.banner, "HTTP/1.0 301 Moved");
    assert_eq!(single.server_info, None);
}

#[test]
fn ftp_banner_interpretation() {
    let grabber = BannerGrabber::new(200);
    let info = grabber.interpret_ftp_banner("220 ProFTPD Server ready\r\n", Some("214-The following commands are recognized\r\n"));
    assert_eq!(info.protocol, "FTP");
    assert_eq!(info.banner, "220 ProFTPD Server ready");
    assert_eq!(info.server_info.as_deref(), Some("220 ProFTPD Server ready"));
    assert_eq!(
        info.additional_info,
        vec!["HELP: 214-The following commands are recognized".to_string()]
    );
    let anon = grabber.interpret_ftp_banner("220 hello\r\n", None);
    assert_eq!(anon.server_info, None);
    assert!(anon.additional_info.is_empty());
}

#[test]
fn smtp_banner_interpretation() {
    let grabber = BannerGrabber::new(200);
    let ehlo = "250-mail.example SIZE 10240000\r\n250-AUTH PLAIN LOGIN\r\n250 DSN\r\nnoise\r\n";
    let info = grabber.interpret_smtp_banner("220 mail.example ESMTP Postfix\r\n", Some(ehlo));
    assert_eq!(info.protocol, "SMTP");
    assert_eq!(info.server_info.as_deref(), Some("220 mail.example ESMTP Postfix"));
    assert_eq!(
        info.additional_info,
        vec![
            "250-mail.example SIZE 10240000".to_string(),
            "250-AUTH PLAIN LOGIN".to_string(),
        ]
    );
}

#[test]
fn generic_banner_interpretation() {
    let grabber = BannerGrabber::new(200);
    let info = grabber.interpret_generic_banner("  SSH-2.0-OpenSSH_8.9p1 Ubuntu  \r\n");
    assert_eq!(info.protocol, "SSH");
    assert_eq!(info.banner, "SSH-2.0-OpenSSH_8.9p1 Ubuntu");
    let unknown = grabber.interpret_generic_banner("\u{1}\u{2}binary junk");
    assert_eq!(unknown.protocol, "Unknown");
}

#[test]
fn http_head_request_shape() {
    let grabber = BannerGrabber::new(200);
    assert_eq!(
        grabber.http_head_request("203.0.113.9", 8080),
        "HEAD / HTTP/1.1\r\nHost: 203.0.113.9:8080\r\nUser-Agent: PortScanner/1.0\r\nConnection: close\r\n\r\n"
    );
}

#[test]
fn service_table_parsing_and_lookup() {
    let lines = vec![
        "# Comment".to_string(),
        "".to_string(),
        "   ".to_string(),
        "http 80/tcp # World Wide Web".to_string(),
        "ssh 22/tcp".to_string(),
        "domain 53/udp".to_string(),
        "malformed".to_string(),
        "bad 99999/tcp".to_string(),
        "weird 8/tcp/extra".to_string(),
        "http-alt 80/tcp".to_string(),
    ];
    let table = load_nmap_services(&lines);
    // The later line for port 80 overrides the earlier one.
    assert_eq!(get_service(80, "tcp", &table), "http-alt");
    assert_eq!(get_service(22, "TCP", &table), "ssh");
    assert_eq!(get_service(53, "tcp", &table), "Unknown");
    assert_eq!(get_service(22, "udp", &table), "Unknown");
    assert_eq!(get_service(1234, "tcp", &table), "Unknown");
}

#[test]
fn service_line_parsing() {
    assert_eq!(parse_service_line("http 80/tcp"), Some((80, "http".to_string())));
    assert_eq!(parse_service_line("domain 53/udp"), None);
    assert_eq!(parse_service_line("# http 80/tcp"), None);
    assert_eq!(parse_service_line("   "), None);
    assert_eq!(parse_service_line("toobig 70000/tcp"), None);
    assert_eq!(parse_service_line("ssh 22/TCP extra fields here"), Some((22, "ssh".to_string())));
}

#[test]
fn scheduler_attempts_every_port_once() {
    // Drive the discovery state machine by hand: every port of the range
    // is launched exactly once, the in-flight bound is respected, and
    // only range ports enter the open set.
    let mut sched = ScanScheduler::new(10, 19, 3);
    let mut launched: Vec<u16> = Vec::new();
    let mut pending: Vec<u16> = Vec::new();
    loop {
        match sched.next_action() {
            ScanAction::Launch(port) => {
                let p = sched.launch();
                assert_eq!(p, port);
                launched.push(p);
                pending.push(p);
                assert!(pending.len() <= 3);
            }
            ScanAction::Wait => {
                let p = pending.remove(0);
                sched.on_complete(p, p % 2 == 0);
            }
            ScanAction::Done => break,
        }
    }
    assert_eq!(launched, (10u16..=19).collect::<Vec<u16>>());
    let open = sched.into_open_ports();
    assert_eq!(open, vec![10, 12, 14, 16, 18]);
}

#[test]
fn scheduler_single_slot() {
    let mut sched = ScanScheduler::new(5, 5, 1);
    assert!(matches!(sched.next_action(), ScanAction::Launch(5)));
    let p = sched.launch();
    assert_eq!(p, 5);
    assert!(matches!(sched.next_action(), ScanAction::Wait));
    sched.on_complete(5, true);
    assert!(matches!(sched.next_action(), ScanAction::Done));
    assert_eq!(sched.open_ports().as_slice(), &[5]);
}

#[test]
fn report_counts_and_recommendations() {
    let scanner = VaptScanner::new(table_with(&[(21, "ftp"), (23, "telnet"), (22, "ssh")]));
    let results = vec![
        scanner.scan_port(21, None, None),
        scanner.scan_port(23, None, None),
        scanner.scan_port(22, None, None),
        scanner.scan_port(2022, Some("SSH-2.0".to_string()), None),
    ];
    let (critical, high, medium, low) = risk_counts(&results);
    assert_eq!((critical, high, medium, low), (1, 1, 0, 2));
    let recs = general_recommendations(&results);
    // The two SSH results contribute the same two recommendations once.
    assert_eq!(recs.len(), 4);
    assert!(recs.contains(&"Replace FTP with SFTP for secure file transfer".to_string()));
    assert!(recs.contains(&"Replace Telnet with SSH for secure remote access".to_string()));
    assert!(recs.contains(&"Disable root login and use key-based authentication".to_string()));
    assert!(recs.contains(&"Change default SSH port to reduce automated attacks".to_string()));
}

#[test]
fn output_mode_selection() {
    assert_eq!(parse_output_mode("text"), (OutputMode::Text, true));
    assert_eq!(parse_output_mode("JSON"), (OutputMode::Json, true));
    assert_eq!(parse_output_mode("Markdown"), (OutputMode::Markdown, true));
    assert_eq!(parse_output_mode("xml"), (OutputMode::Text, false));
}

#[test]
fn risk_names_round_trip() {
    for level in [RiskLevel::Low, RiskLevel::Medium, RiskLevel::High, RiskLevel::Critical] {
        assert_eq!(parse_risk_name(risk_name(level).as_str()), Some(level));
    }
    assert_eq!(parse_risk_name("Severe"), None);
    assert_eq!(risk_label(RiskLevel::Critical), "CRITICAL");
    assert_eq!(risk_label(RiskLevel::Low), "LOW");
}

#[test]
fn decimal_rendering() {
    assert_eq!(u16_to_string(0), "0");
    assert_eq!(u16_to_string(7), "7");
    assert_eq!(u16_to_string(443), "443");
    assert_eq!(u16_to_string(65535), "65535");
}
