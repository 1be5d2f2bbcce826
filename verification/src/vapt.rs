//! The vulnerability classifier: the totally ordered severity scale, the
//! aggregation of per-finding severities into one risk level, and the
//! per-service finding rules that turn an identified service and the
//! observed probe outcomes into a `VaptResult`.
//!
//! The classifier itself performs no network I/O: the outcome of the HTTP
//! request against a web service and of the TLS connect attempt are handed
//! in as a `WebObservation`.

use vstd::pervasive::VecAdditionalExecFns;
use vstd::prelude::*;

use crate::nmap_services::{spec_get_service, ServiceTable};
use crate::text::{contains_ci, dec_rep, lower_seq, str_contains_ci, u16_to_string};

verus! {

/// Severity of a single finding and, by aggregation, of a whole port's
/// result. The order is `Low < Medium < High < Critical`.
#[derive(Clone, Copy, Debug, PartialEq, Eq, Structural)]
pub enum RiskLevel {
    Low,
    Medium,
    High,
    Critical,
}

/// Rank giving the total order on risk levels.
pub open spec fn spec_risk_rank(r: RiskLevel) -> int {
    match r {
        RiskLevel::Low => 0,
        RiskLevel::Medium => 1,
        RiskLevel::High => 2,
        RiskLevel::Critical => 3,
    }
}

/// `a` is at most as severe as `b`.
pub open spec fn risk_le(a: RiskLevel, b: RiskLevel) -> bool {
    spec_risk_rank(a) <= spec_risk_rank(b)
}

/// The more severe of two risk levels.
pub open spec fn spec_escalate(a: RiskLevel, b: RiskLevel) -> RiskLevel {
    if spec_risk_rank(a) >= spec_risk_rank(b) {
        a
    } else {
        b
    }
}

/// Aggregate severity of a sequence of finding severities: their maximum,
/// `Low` when the sequence is empty.
pub open spec fn spec_aggregate(s: Seq<RiskLevel>) -> RiskLevel
    decreases s.len(),
{
    if s.len() == 0 {
        RiskLevel::Low
    } else {
        spec_escalate(spec_aggregate(s.drop_last()), s.last())
    }
}

/// Numeric rank realising the total order on risk levels.
pub fn risk_rank(r: RiskLevel) -> (n: u8)
    ensures
        n as int == spec_risk_rank(r),
{
    match r {
        RiskLevel::Low => 0,
        RiskLevel::Medium => 1,
        RiskLevel::High => 2,
        RiskLevel::Critical => 3,
    }
}

/// The more severe of two risk levels.
pub fn escalate(a: RiskLevel, b: RiskLevel) -> (r: RiskLevel)
    ensures
        r == spec_escalate(a, b),
{
    if risk_rank(a) >= risk_rank(b) {
        a
    } else {
        b
    }
}

/// Appending one more severity never lowers the aggregate, and appending
/// `Critical` forces the aggregate to `Critical`.
pub proof fn lemma_aggregate_push(s: Seq<RiskLevel>, x: RiskLevel)
    ensures
        spec_aggregate(s.push(x)) == spec_escalate(spec_aggregate(s), x),
        risk_le(spec_aggregate(s), spec_aggregate(s.push(x))),
        x == RiskLevel::Critical ==> spec_aggregate(s.push(x)) == RiskLevel::Critical,
{
    assert(s.push(x).drop_last() =~= s);
    assert(s.push(x).last() == x);
}

/// A `Critical` finding anywhere forces the aggregate to `Critical`,
/// whatever else is present.
pub proof fn lemma_critical_dominates(s: Seq<RiskLevel>, i: int)
    requires
        0 <= i < s.len(),
        s[i] == RiskLevel::Critical,
    ensures
        spec_aggregate(s) == RiskLevel::Critical,
    decreases s.len(),
{
    if i == s.len() - 1 {
    } else {
        lemma_critical_dominates(s.drop_last(), i);
    }
}

/// The aggregate is at least as severe as every severity present.
pub proof fn lemma_aggregate_ge_each(s: Seq<RiskLevel>, i: int)
    requires
        0 <= i < s.len(),
    ensures
        risk_le(s[i], spec_aggregate(s)),
    decreases s.len(),
{
    if i == s.len() - 1 {
    } else {
        lemma_aggregate_ge_each(s.drop_last(), i);
    }
}

// ---------------------------------------------------------------------------
// Data model
// ---------------------------------------------------------------------------

/// Specification-level image of a `Vulnerability`.
#[verifier::ext_equal]
pub ghost struct VulnView {
    pub name: Seq<char>,
    pub description: Seq<char>,
    pub severity: RiskLevel,
    pub cve: Option<Seq<char>>,
    pub remediation: Seq<char>,
}

/// A single named, described, severity-tagged observation about a
/// port/service; never mutated after creation.
#[derive(Debug, Clone)]
pub struct Vulnerability {
    pub name: String,
    pub description: String,
    pub severity: RiskLevel,
    pub cve: Option<String>,
    pub remediation: String,
}

impl View for Vulnerability {
    type V = VulnView;

    open spec fn view(&self) -> VulnView {
        VulnView {
            name: self.name@,
            description: self.description@,
            severity: self.severity,
            cve: match self.cve {
                Some(c) => Some(c@),
                None => None,
            },
            remediation: self.remediation@,
        }
    }
}

/// Specification-level image of an `SslInfo`.
#[verifier::ext_equal]
pub ghost struct SslInfoView {
    pub certificate_valid: bool,
    pub certificate_expiry: Option<Seq<char>>,
    pub weak_ciphers: Seq<Seq<char>>,
    pub tls_version: Option<Seq<char>>,
    pub issues: Seq<Seq<char>>,
}

/// TLS posture of a web service. In this design it is always a
/// placeholder — `certificate_valid` is `false` and `issues` names the
/// limitation — never a real certificate inspection.
#[derive(Debug, Clone)]
pub struct SslInfo {
    pub certificate_valid: bool,
    pub certificate_expiry: Option<String>,
    pub weak_ciphers: Vec<String>,
    pub tls_version: Option<String>,
    pub issues: Vec<String>,
}

impl View for SslInfo {
    type V = SslInfoView;

    open spec fn view(&self) -> SslInfoView {
        SslInfoView {
            certificate_valid: self.certificate_valid,
            certificate_expiry: match self.certificate_expiry {
                Some(c) => Some(c@),
                None => None,
            },
            weak_ciphers: self.weak_ciphers@.map_values(|s: String| s@),
            tls_version: match self.tls_version {
                Some(c) => Some(c@),
                None => None,
            },
            issues: self.issues@.map_values(|s: String| s@),
        }
    }
}

/// The views of a sequence of vulnerabilities.
pub open spec fn vuln_views(vs: Seq<Vulnerability>) -> Seq<VulnView> {
    vs.map_values(|v: Vulnerability| v@)
}

/// The views of a sequence of strings.
pub open spec fn string_views(vs: Seq<String>) -> Seq<Seq<char>> {
    vs.map_values(|s: String| s@)
}

/// The views of a sequence of header pairs.
pub open spec fn header_views(hs: Seq<(String, String)>) -> Seq<(Seq<char>, Seq<char>)> {
    hs.map_values(|p: (String, String)| (p.0@, p.1@))
}

/// The severities of a sequence of findings.
pub open spec fn severities(vs: Seq<VulnView>) -> Seq<RiskLevel> {
    vs.map_values(|v: VulnView| v.severity)
}

/// Specification-level image of a `VaptResult`.
#[verifier::ext_equal]
pub ghost struct VaptResultView {
    pub port: u16,
    pub service: Seq<char>,
    pub vulnerabilities: Seq<VulnView>,
    pub security_headers: Option<Seq<(Seq<char>, Seq<char>)>>,
    pub ssl_info: Option<SslInfoView>,
    pub risk_level: RiskLevel,
    pub recommendations: Seq<Seq<char>>,
}

/// The classifier's verdict on one open port: the identified service, the
/// findings, the captured response headers for a web service, the TLS
/// placeholder for port 443, the aggregate risk, and the recommendations.
#[derive(Debug, Clone)]
pub struct VaptResult {
    pub port: u16,
    pub service: String,
    pub vulnerabilities: Vec<Vulnerability>,
    pub security_headers: Option<Vec<(String, String)>>,
    pub ssl_info: Option<SslInfo>,
    pub risk_level: RiskLevel,
    pub recommendations: Vec<String>,
}

impl View for VaptResult {
    type V = VaptResultView;

    open spec fn view(&self) -> VaptResultView {
        VaptResultView {
            port: self.port,
            service: self.service@,
            vulnerabilities: vuln_views(self.vulnerabilities@),
            security_headers: match self.security_headers {
                Some(hs) => Some(header_views(hs@)),
                None => None,
            },
            ssl_info: match self.ssl_info {
                Some(s) => Some(s@),
                None => None,
            },
            risk_level: self.risk_level,
            recommendations: string_views(self.recommendations@),
        }
    }
}

/// Specification-level image of a `WebResponse`.
#[verifier::ext_equal]
pub ghost struct WebResponseView {
    pub status: u16,
    pub headers: Seq<(Seq<char>, Seq<char>)>,
}

/// What an HTTP request against a web service returned: the status code
/// and the response headers, as the transport handed them over.
pub struct WebResponse {
    pub status: u16,
    pub headers: Vec<(String, String)>,
}

impl View for WebResponse {
    type V = WebResponseView;

    open spec fn view(&self) -> WebResponseView {
        WebResponseView { status: self.status, headers: header_views(self.headers@) }
    }
}

/// Specification-level image of a `WebObservation`.
#[verifier::ext_equal]
pub ghost struct WebObservationView {
    pub response: Option<WebResponseView>,
    pub tls_connect_ok: bool,
}

/// The network outcomes the classifier needs for a web service: the HTTP
/// response if the request succeeded, and whether a raw TLS-port connect
/// succeeded (consulted only for port 443).
pub struct WebObservation {
    pub response: Option<WebResponse>,
    pub tls_connect_ok: bool,
}

impl View for WebObservation {
    type V = WebObservationView;

    open spec fn view(&self) -> WebObservationView {
        WebObservationView {
            response: match self.response {
                Some(r) => Some(r@),
                None => None,
            },
            tls_connect_ok: self.tls_connect_ok,
        }
    }
}

/// The view of an optional banner string.
pub open spec fn opt_string_view(o: Option<String>) -> Option<Seq<char>> {
    match o {
        Some(s) => Some(s@),
        None => None,
    }
}

// ---------------------------------------------------------------------------
// Finding templates
// ---------------------------------------------------------------------------

/// The standing SSH advisory finding.
pub open spec fn ssh_vuln() -> VulnView {
    VulnView {
        name: "SSH Service Detected"@,
        description: "SSH service is running - check for weak configurations"@,
        severity: RiskLevel::Low,
        cve: None,
        remediation: "Ensure SSH is properly configured with strong authentication"@,
    }
}

/// The standing SSH recommendations.
pub open spec fn ssh_recs() -> Seq<Seq<char>> {
    seq![
        "Disable root login and use key-based authentication"@,
        "Change default SSH port to reduce automated attacks"@,
    ]
}

/// The standing FTP plaintext finding.
pub open spec fn ftp_vuln() -> VulnView {
    VulnView {
        name: "FTP Service Detected"@,
        description: "FTP transmits data in plain text, making it vulnerable to sniffing"@,
        severity: RiskLevel::High,
        cve: None,
        remediation: "Use SFTP or FTPS instead of plain FTP"@,
    }
}

/// The standing FTP recommendation.
pub open spec fn ftp_recs() -> Seq<Seq<char>> {
    seq!["Replace FTP with SFTP for secure file transfer"@]
}

/// The standing SMTP relay-abuse finding.
pub open spec fn smtp_vuln() -> VulnView {
    VulnView {
        name: "SMTP Service Detected"@,
        description: "SMTP service may be vulnerable to relay attacks"@,
        severity: RiskLevel::Medium,
        cve: None,
        remediation: "Configure SMTP to prevent open relay"@,
    }
}

/// The standing SMTP recommendation.
pub open spec fn smtp_recs() -> Seq<Seq<char>> {
    seq!["Configure SMTP authentication and relay restrictions"@]
}

/// The standing Telnet plaintext finding; it fires purely from service
/// identification, no probe is involved.
pub open spec fn telnet_vuln() -> VulnView {
    VulnView {
        name: "Telnet Service Detected"@,
        description: "Telnet transmits data in plain text, making it vulnerable to sniffing attacks"@,
        severity: RiskLevel::Critical,
        cve: None,
        remediation: "Disable Telnet and use SSH instead"@,
    }
}

/// The standing Telnet recommendation.
pub open spec fn telnet_recs() -> Seq<Seq<char>> {
    seq!["Replace Telnet with SSH for secure remote access"@]
}

/// The standing RDP brute-force finding.
pub open spec fn rdp_vuln() -> VulnView {
    VulnView {
        name: "RDP Service Detected"@,
        description: "RDP service may be vulnerable to brute force attacks"@,
        severity: RiskLevel::High,
        cve: None,
        remediation: "Enable Network Level Authentication and strong passwords"@,
    }
}

/// The standing RDP recommendations.
pub open spec fn rdp_recs() -> Seq<Seq<char>> {
    seq![
        "Enable NLA and use strong authentication for RDP"@,
        "Consider using a VPN for RDP access"@,
    ]
}

/// The advisory finding for a service with no dedicated rule, naming the
/// service and the port.
pub open spec fn generic_vuln(service: Seq<char>, port: u16) -> VulnView {
    VulnView {
        name: service + " Service Detected"@,
        description: service + " service running on port "@ + dec_rep(port as int),
        severity: RiskLevel::Medium,
        cve: None,
        remediation: "Identify and assess the "@ + service + " service running on this port"@,
    }
}

/// The standing recommendation for a service with no dedicated rule.
pub open spec fn generic_recs() -> Seq<Seq<char>> {
    seq!["Document and assess all running services"@]
}

/// The finding raised when a web service serves its default page.
pub open spec fn default_page_vuln() -> VulnView {
    VulnView {
        name: "Default Page Accessible"@,
        description: "Default web page is accessible, may reveal system information"@,
        severity: RiskLevel::Medium,
        cve: None,
        remediation: "Remove or secure default pages"@,
    }
}

/// The finding raised when the HTTP request against a web service fails.
pub open spec fn unreachable_vuln() -> VulnView {
    VulnView {
        name: "Web Service Unreachable"@,
        description: "Web service is not responding properly"@,
        severity: RiskLevel::Low,
        cve: None,
        remediation: "Check service configuration"@,
    }
}

/// The TLS placeholder for port 443: never a real inspection, only a
/// marker naming the limitation, or the failed connect.
pub open spec fn spec_ssl_info(connect_ok: bool) -> SslInfoView {
    SslInfoView {
        certificate_valid: false,
        certificate_expiry: None,
        weak_ciphers: Seq::empty(),
        tls_version: None,
        issues: seq![
            if connect_ok {
                "SSL certificate validation not implemented in this version"@
            } else {
                "SSL connection failed"@
            },
        ],
    }
}

/// The finding for one absent security header.
pub open spec fn missing_header_vuln(
    name: Seq<char>,
    description: Seq<char>,
    remediation: Seq<char>,
) -> VulnView {
    VulnView {
        name: "Missing Security Header: "@ + name,
        description: description,
        severity: RiskLevel::Medium,
        cve: None,
        remediation: remediation,
    }
}

/// The five security headers a web service is checked for, each with the
/// description and recommendation its absence raises.
pub open spec fn sec_header_list() -> Seq<(Seq<char>, Seq<char>, Seq<char>)> {
    seq![
        ("x-frame-options"@, "Missing X-Frame-Options header"@, "Add X-Frame-Options: DENY"@),
        (
            "x-content-type-options"@,
            "Missing X-Content-Type-Options header"@,
            "Add X-Content-Type-Options: nosniff"@,
        ),
        (
            "x-xss-protection"@,
            "Missing X-XSS-Protection header"@,
            "Add X-XSS-Protection: 1; mode=block"@,
        ),
        ("strict-transport-security"@, "Missing HSTS header"@, "Add Strict-Transport-Security header"@),
        ("content-security-policy"@, "Missing CSP header"@, "Add Content-Security-Policy header"@),
    ]
}

/// Some header pair carries exactly this key.
pub open spec fn header_key_present(hs: Seq<(Seq<char>, Seq<char>)>, name: Seq<char>) -> bool {
    exists|i: int| 0 <= i < hs.len() && (#[trigger] hs[i]).0 == name
}

/// The findings the first `upto` security-header checks raise: one per
/// absent header, in the order of `sec_header_list`.
pub open spec fn missing_header_vulns(hs: Seq<(Seq<char>, Seq<char>)>, upto: int) -> Seq<VulnView>
    decreases upto,
{
    if upto <= 0 {
        Seq::empty()
    } else {
        let e = sec_header_list()[upto - 1];
        missing_header_vulns(hs, upto - 1) + (if header_key_present(hs, e.0) {
            Seq::empty()
        } else {
            seq![missing_header_vuln(e.0, e.1, e.2)]
        })
    }
}

/// The recommendations the first `upto` security-header checks raise.
pub open spec fn missing_header_recs(hs: Seq<(Seq<char>, Seq<char>)>, upto: int) -> Seq<Seq<char>>
    decreases upto,
{
    if upto <= 0 {
        Seq::empty()
    } else {
        let e = sec_header_list()[upto - 1];
        missing_header_recs(hs, upto - 1) + (if header_key_present(hs, e.0) {
            Seq::empty()
        } else {
            seq![e.2]
        })
    }
}

/// Header keys folded to ASCII lower case, values kept.
pub open spec fn normalize_headers(hs: Seq<(Seq<char>, Seq<char>)>) -> Seq<(Seq<char>, Seq<char>)> {
    hs.map_values(|p: (Seq<char>, Seq<char>)| (lower_seq(p.0), p.1))
}

/// Index of the first pair carrying this key; the length when none does.
pub open spec fn find_header_key(hs: Seq<(Seq<char>, Seq<char>)>, k: Seq<char>) -> int
    decreases hs.len(),
{
    if hs.len() == 0 {
        0
    } else if hs[0].0 == k {
        0
    } else {
        1 + find_header_key(hs.drop_first(), k)
    }
}

/// `find_header_key` lands on the first occurrence of the key, or past
/// the end when the key is absent.
pub proof fn lemma_find_header_key(hs: Seq<(Seq<char>, Seq<char>)>, k: Seq<char>)
    ensures
        0 <= find_header_key(hs, k) <= hs.len(),
        find_header_key(hs, k) < hs.len() ==> hs[find_header_key(hs, k)].0 == k,
        forall|j: int| 0 <= j < find_header_key(hs, k) ==> (#[trigger] hs[j]).0 != k,
    decreases hs.len(),
{
    if hs.len() > 0 && hs[0].0 != k {
        lemma_find_header_key(hs.drop_first(), k);
        assert forall|j: int| 0 <= j < find_header_key(hs, k) implies (#[trigger] hs[j]).0 != k by {
            if j > 0 {
                assert(hs.drop_first()[j - 1] == hs[j]);
            }
        }
    }
}

/// A scan that saw no earlier occurrence and stops at `i` computes
/// `find_header_key`.
pub proof fn lemma_find_header_key_is(hs: Seq<(Seq<char>, Seq<char>)>, k: Seq<char>, i: int)
    requires
        0 <= i <= hs.len(),
        forall|j: int| 0 <= j < i ==> (#[trigger] hs[j]).0 != k,
        i < hs.len() ==> hs[i].0 == k,
    ensures
        find_header_key(hs, k) == i,
    decreases hs.len(),
{
    if hs.len() > 0 && hs[0].0 != k {
        assert(forall|j: int| 0 <= j < i - 1 ==> (#[trigger] hs.drop_first()[j]).0 != k);
        if i < hs.len() {
            assert(hs.drop_first()[i - 1] == hs[i]);
        }
        lemma_find_header_key_is(hs.drop_first(), k, i - 1);
    }
}

/// One pair folded into a unique-key header list: a new key is appended,
/// a repeated key overwrites the stored value.
pub open spec fn upsert_header(
    acc: Seq<(Seq<char>, Seq<char>)>,
    k: Seq<char>,
    v: Seq<char>,
) -> Seq<(Seq<char>, Seq<char>)> {
    let i = find_header_key(acc, k);
    if i == acc.len() {
        acc.push((k, v))
    } else {
        acc.update(i, (k, v))
    }
}

/// The headers with duplicate keys dropped: each key keeps one pair, and
/// the value seen last wins, as collecting into a map leaves it.
pub open spec fn spec_dedup_headers(hs: Seq<(Seq<char>, Seq<char>)>) -> Seq<(Seq<char>, Seq<char>)>
    decreases hs.len(),
{
    if hs.len() == 0 {
        Seq::empty()
    } else {
        upsert_header(spec_dedup_headers(hs.drop_last()), hs.last().0, hs.last().1)
    }
}

/// The de-duplicated list is a mapping: it holds each key at most once,
/// and exactly the keys the input holds.
pub proof fn lemma_dedup_headers(hs: Seq<(Seq<char>, Seq<char>)>)
    ensures
        forall|i: int, j: int|
            0 <= i < j < spec_dedup_headers(hs).len() ==> (#[trigger] spec_dedup_headers(hs)[i]).0
                != (#[trigger] spec_dedup_headers(hs)[j]).0,
        forall|k: Seq<char>|
            #[trigger] header_key_present(spec_dedup_headers(hs), k) <==> header_key_present(hs, k),
    decreases hs.len(),
{
    if hs.len() > 0 {
        lemma_dedup_headers(hs.drop_last());
        let prev = spec_dedup_headers(hs.drop_last());
        let d = spec_dedup_headers(hs);
        let k = hs.last().0;
        let v = hs.last().1;
        lemma_find_header_key(prev, k);
        let fi = find_header_key(prev, k);
        assert forall|i: int, j: int| 0 <= i < j < d.len() implies (#[trigger] d[i]).0 != (
        #[trigger] d[j]).0 by {
            if fi == prev.len() {
                if j < prev.len() {
                    assert(d[i] == prev[i] && d[j] == prev[j]);
                } else {
                    assert(d[i] == prev[i] && d[j] == (k, v));
                    assert(prev[i].0 != k);
                }
            } else {
                assert(d[i].0 == prev[i].0 && d[j].0 == prev[j].0);
            }
        }
        assert forall|x: Seq<char>| #[trigger] header_key_present(d, x) implies header_key_present(
            hs,
            x,
        ) by {
            let i = choose|i: int| 0 <= i < d.len() && (#[trigger] d[i]).0 == x;
            if fi == prev.len() && i == prev.len() {
                assert(hs[hs.len() - 1].0 == x);
            } else {
                assert(d[i].0 == prev[i].0);
                assert(header_key_present(prev, x));
                assert(header_key_present(hs.drop_last(), x));
                let j = choose|j: int|
                    0 <= j < hs.len() - 1 && (#[trigger] hs.drop_last()[j]).0 == x;
                assert(hs[j].0 == x);
            }
        }
        assert forall|x: Seq<char>| header_key_present(hs, x) implies #[trigger] header_key_present(
            d,
            x,
        ) by {
            let j = choose|j: int| 0 <= j < hs.len() && (#[trigger] hs[j]).0 == x;
            if j == hs.len() - 1 {
                if fi == prev.len() {
                    assert(d[prev.len() as int].0 == k);
                } else {
                    assert(d[fi].0 == k);
                }
            } else {
                assert(hs.drop_last()[j] == hs[j]);
                assert(header_key_present(hs.drop_last(), x));
                assert(header_key_present(prev, x));
                let i = choose|i: int| 0 <= i < prev.len() && (#[trigger] prev[i]).0 == x;
                if fi < prev.len() && i == fi {
                    assert(d[fi].0 == k);
                } else {
                    assert(d[i].0 == prev[i].0);
                }
            }
        }
    }
}

// ---------------------------------------------------------------------------
// Service identification
// ---------------------------------------------------------------------------

/// The protocol a banner's text gives away, by case-insensitive keyword
/// search, in fixed precedence order.
pub open spec fn spec_keyword_protocol(b: Seq<char>) -> Option<Seq<char>> {
    if contains_ci(b, "http"@) {
        Some("HTTP"@)
    } else if contains_ci(b, "ssh"@) {
        Some("SSH"@)
    } else if contains_ci(b, "ftp"@) {
        Some("FTP"@)
    } else if contains_ci(b, "smtp"@) {
        Some("SMTP"@)
    } else if contains_ci(b, "telnet"@) {
        Some("TELNET"@)
    } else {
        None
    }
}

/// The second-chance keyword match used when the service table knows
/// nothing about the port: a shorter list than the first pass.
pub open spec fn spec_second_chance(b: Seq<char>) -> Seq<char> {
    if contains_ci(b, "http"@) {
        "HTTP"@
    } else if contains_ci(b, "ssh"@) {
        "SSH"@
    } else if contains_ci(b, "ftp"@) {
        "FTP"@
    } else {
        "Unknown"@
    }
}

/// Service resolution precedence: a protocol keyword in the banner wins;
/// else the service table entry for the port; if that is `Unknown` and a
/// banner is present, the second-chance keyword match; else `Unknown`.
pub open spec fn spec_identify_service(
    m: Map<u16, Seq<char>>,
    port: u16,
    banner: Option<Seq<char>>,
) -> Seq<char> {
    if banner is Some && spec_keyword_protocol(banner.unwrap()) is Some {
        spec_keyword_protocol(banner.unwrap()).unwrap()
    } else {
        let svc = spec_get_service(m, port, "tcp"@);
        if svc == "Unknown"@ {
            if banner is Some {
                spec_second_chance(banner.unwrap())
            } else {
                "Unknown"@
            }
        } else {
            svc
        }
    }
}

/// The service names handled by the web branch of the classifier. The
/// comparison folds ASCII case, so a table entry such as `http` selects
/// the same branch as a banner-derived `HTTP`.
pub open spec fn is_web_service(s: Seq<char>) -> bool {
    lower_seq(s) == "http"@ || lower_seq(s) == "https"@
}

// ---------------------------------------------------------------------------
// The classifier's verdict, at the specification level
// ---------------------------------------------------------------------------

/// The findings the HTTP request outcome alone raises.
pub open spec fn spec_web_vulns(obs: WebObservationView) -> Seq<VulnView> {
    match obs.response {
        Some(r) => if r.status == 200 {
            seq![default_page_vuln()]
        } else {
            Seq::empty()
        },
        None => seq![unreachable_vuln()],
    }
}

/// The headers stored in the result: the response headers with keys
/// lower-cased and duplicate keys dropped (last value wins), absent when
/// the request failed.
pub open spec fn spec_web_headers(obs: WebObservationView) -> Option<Seq<(Seq<char>, Seq<char>)>> {
    match obs.response {
        Some(r) => Some(spec_dedup_headers(normalize_headers(r.headers))),
        None => None,
    }
}

/// A result with no captured headers and no TLS data: what every
/// non-web service branch produces.
pub open spec fn spec_simple_result(
    port: u16,
    service: Seq<char>,
    vulns: Seq<VulnView>,
    recs: Seq<Seq<char>>,
) -> VaptResultView {
    VaptResultView {
        port: port,
        service: service,
        vulnerabilities: vulns,
        security_headers: None,
        ssl_info: None,
        risk_level: spec_aggregate(severities(vulns)),
        recommendations: recs,
    }
}

/// The classifier's full verdict on one open port, given the service
/// table, the captured banner, and — for web services — the observed
/// HTTP request outcome. The per-service branch is selected by the
/// resolved service name folded to ASCII lower case, so the dedicated
/// rules fire both for banner-derived names (`SSH`) and for the
/// lower-case names the service-table file carries (`ssh`).
pub open spec fn spec_scan_port(
    m: Map<u16, Seq<char>>,
    port: u16,
    banner: Option<Seq<char>>,
    web: Option<WebObservationView>,
) -> VaptResultView {
    let service = spec_identify_service(m, port, banner);
    let folded = lower_seq(service);
    if is_web_service(service) {
        let obs = web.unwrap();
        let headers = spec_web_headers(obs);
        let vulns = spec_web_vulns(obs) + (match headers {
            Some(hs) => missing_header_vulns(hs, 5),
            None => Seq::empty(),
        });
        let recs = match headers {
            Some(hs) => missing_header_recs(hs, 5),
            None => Seq::empty(),
        };
        VaptResultView {
            port: port,
            service: service,
            vulnerabilities: vulns,
            security_headers: headers,
            ssl_info: if port == 443 {
                Some(spec_ssl_info(obs.tls_connect_ok))
            } else {
                None
            },
            risk_level: spec_aggregate(severities(vulns)),
            recommendations: recs,
        }
    } else if folded == "ssh"@ {
        spec_simple_result(port, service, seq![ssh_vuln()], ssh_recs())
    } else if folded == "ftp"@ {
        spec_simple_result(port, service, seq![ftp_vuln()], ftp_recs())
    } else if folded == "smtp"@ {
        spec_simple_result(port, service, seq![smtp_vuln()], smtp_recs())
    } else if folded == "telnet"@ {
        spec_simple_result(port, service, seq![telnet_vuln()], telnet_recs())
    } else if folded == "rdp"@ {
        spec_simple_result(port, service, seq![rdp_vuln()], rdp_recs())
    } else {
        spec_simple_result(port, service, seq![generic_vuln(service, port)], generic_recs())
    }
}

// ---------------------------------------------------------------------------
// The scanner
// ---------------------------------------------------------------------------

/// Builds a finding with no CVE reference from string literals.
fn mk_vuln(name: &str, description: &str, severity: RiskLevel, remediation: &str) -> (v:
    Vulnerability)
    ensures
        v@ == (VulnView {
            name: name@,
            description: description@,
            severity: severity,
            cve: None,
            remediation: remediation@,
        }),
{
    Vulnerability {
        name: String::from_str(name),
        description: String::from_str(description),
        severity,
        cve: None,
        remediation: String::from_str(remediation),
    }
}

/// The vulnerability classifier. It owns the service table and judges one
/// port at a time from plain observed values; it holds no cross-port
/// mutable state.
pub struct VaptScanner {
    services: ServiceTable,
}

impl View for VaptScanner {
    type V = Map<u16, Seq<char>>;

    closed spec fn view(&self) -> Map<u16, Seq<char>> {
        self.services@
    }
}

impl VaptScanner {
    /// A classifier over the given service table.
    pub fn new(services: ServiceTable) -> (s: VaptScanner)
        ensures
            s@ == services@,
    {
        VaptScanner { services }
    }

    /// Resolves the service a port speaks, from its banner and the table.
    pub fn identify_service(&self, port: u16, banner: &Option<String>) -> (r: String)
        ensures
            r@ == spec_identify_service(self@, port, opt_string_view(*banner)),
    {
        match banner {
            Some(b) => {
                if str_contains_ci(b.as_str(), "http") {
                    return String::from_str("HTTP");
                }
                if str_contains_ci(b.as_str(), "ssh") {
                    return String::from_str("SSH");
                }
                if str_contains_ci(b.as_str(), "ftp") {
                    return String::from_str("FTP");
                }
                if str_contains_ci(b.as_str(), "smtp") {
                    return String::from_str("SMTP");
                }
                if str_contains_ci(b.as_str(), "telnet") {
                    return String::from_str("TELNET");
                }
            },
            None => {},
        }
        let service = crate::nmap_services::get_service(port, "tcp", &self.services);
        let unknown = String::from_str("Unknown");
        if service == unknown {
            match banner {
                Some(b) => {
                    if str_contains_ci(b.as_str(), "http") {
                        return String::from_str("HTTP");
                    }
                    if str_contains_ci(b.as_str(), "ssh") {
                        return String::from_str("SSH");
                    }
                    if str_contains_ci(b.as_str(), "ftp") {
                        return String::from_str("FTP");
                    }
                    String::from_str("Unknown")
                },
                None => unknown,
            }
        } else {
            service
        }
    }

    /// Folds all finding severities into the aggregate risk: the maximum,
    /// `Low` for an empty list.
    pub fn calculate_risk_level(&self, vulnerabilities: &Vec<Vulnerability>) -> (r: RiskLevel)
        ensures
            r == spec_aggregate(severities(vuln_views(vulnerabilities@))),
    {
        let ghost sevs = severities(vuln_views(vulnerabilities@));
        let mut acc = RiskLevel::Low;
        let mut i: usize = 0;
        assert(sevs.take(0) =~= Seq::<RiskLevel>::empty());
        while i < vulnerabilities.len()
            invariant
                i <= vulnerabilities@.len(),
                sevs == severities(vuln_views(vulnerabilities@)),
                acc == spec_aggregate(sevs.take(i as int)),
            decreases vulnerabilities@.len() - i,
        {
            assert(sevs.take(i + 1).drop_last() =~= sevs.take(i as int));
            assert(sevs.take(i + 1).last() == vulnerabilities@[i as int].severity);
            acc = escalate(acc, vulnerabilities[i].severity);
            i += 1;
        }
        assert(sevs.take(sevs.len() as int) =~= sevs);
        acc
    }

    /// Adds the standing SSH advisory finding and recommendations.
    pub fn check_ssh_vulnerabilities(
        &self,
        vulnerabilities: &mut Vec<Vulnerability>,
        recommendations: &mut Vec<String>,
    )
        ensures
            vuln_views(final(vulnerabilities)@) == vuln_views(old(vulnerabilities)@) + seq![
                ssh_vuln(),
            ],
            string_views(final(recommendations)@) == string_views(old(recommendations)@)
                + ssh_recs(),
    {
        let ghost v0 = vulnerabilities@;
        let ghost r0 = recommendations@;
        vulnerabilities.push(
            mk_vuln(
                "SSH Service Detected",
                "SSH service is running - check for weak configurations",
                RiskLevel::Low,
                "Ensure SSH is properly configured with strong authentication",
            ),
        );
        recommendations.push(String::from_str("Disable root login and use key-based authentication"));
        recommendations.push(
            String::from_str("Change default SSH port to reduce automated attacks"),
        );
        assert(vuln_views(vulnerabilities@) =~= vuln_views(v0) + seq![ssh_vuln()]);
        assert(string_views(recommendations@) =~= string_views(r0) + ssh_recs());
    }

    /// Adds the standing FTP plaintext finding and recommendation.
    pub fn check_ftp_vulnerabilities(
        &self,
        vulnerabilities: &mut Vec<Vulnerability>,
        recommendations: &mut Vec<String>,
    )
        ensures
            vuln_views(final(vulnerabilities)@) == vuln_views(old(vulnerabilities)@) + seq![
                ftp_vuln(),
            ],
            string_views(final(recommendations)@) == string_views(old(recommendations)@)
                + ftp_recs(),
    {
        let ghost v0 = vulnerabilities@;
        let ghost r0 = recommendations@;
        vulnerabilities.push(
            mk_vuln(
                "FTP Service Detected",
                "FTP transmits data in plain text, making it vulnerable to sniffing",
                RiskLevel::High,
                "Use SFTP or FTPS instead of plain FTP",
            ),
        );
        recommendations.push(String::from_str("Replace FTP with SFTP for secure file transfer"));
        assert(vuln_views(vulnerabilities@) =~= vuln_views(v0) + seq![ftp_vuln()]);
        assert(string_views(recommendations@) =~= string_views(r0) + ftp_recs());
    }

    /// Adds the standing SMTP relay-abuse finding and recommendation.
    pub fn check_smtp_vulnerabilities(
        &self,
        vulnerabilities: &mut Vec<Vulnerability>,
        recommendations: &mut Vec<String>,
    )
        ensures
            vuln_views(final(vulnerabilities)@) == vuln_views(old(vulnerabilities)@) + seq![
                smtp_vuln(),
            ],
            string_views(final(recommendations)@) == string_views(old(recommendations)@)
                + smtp_recs(),
    {
        let ghost v0 = vulnerabilities@;
        let ghost r0 = recommendations@;
        vulnerabilities.push(
            mk_vuln(
                "SMTP Service Detected",
                "SMTP service may be vulnerable to relay attacks",
                RiskLevel::Medium,
                "Configure SMTP to prevent open relay",
            ),
        );
        recommendations.push(
            String::from_str("Configure SMTP authentication and relay restrictions"),
        );
        assert(vuln_views(vulnerabilities@) =~= vuln_views(v0) + seq![smtp_vuln()]);
        assert(string_views(recommendations@) =~= string_views(r0) + smtp_recs());
    }

    /// Adds the standing RDP brute-force finding and recommendations.
    pub fn check_rdp_vulnerabilities(
        &self,
        vulnerabilities: &mut Vec<Vulnerability>,
        recommendations: &mut Vec<String>,
    )
        ensures
            vuln_views(final(vulnerabilities)@) == vuln_views(old(vulnerabilities)@) + seq![
                rdp_vuln(),
            ],
            string_views(final(recommendations)@) == string_views(old(recommendations)@)
                + rdp_recs(),
    {
        let ghost v0 = vulnerabilities@;
        let ghost r0 = recommendations@;
        vulnerabilities.push(
            mk_vuln(
                "RDP Service Detected",
                "RDP service may be vulnerable to brute force attacks",
                RiskLevel::High,
                "Enable Network Level Authentication and strong passwords",
            ),
        );
        recommendations.push(String::from_str("Enable NLA and use strong authentication for RDP"));
        recommendations.push(String::from_str("Consider using a VPN for RDP access"));
        assert(vuln_views(vulnerabilities@) =~= vuln_views(v0) + seq![rdp_vuln()]);
        assert(string_views(recommendations@) =~= string_views(r0) + rdp_recs());
    }

    /// Adds the advisory finding and recommendation for a service with no
    /// dedicated rule.
    pub fn check_generic_vulnerabilities(
        &self,
        port: u16,
        service: &String,
        vulnerabilities: &mut Vec<Vulnerability>,
        recommendations: &mut Vec<String>,
    )
        ensures
            vuln_views(final(vulnerabilities)@) == vuln_views(old(vulnerabilities)@) + seq![
                generic_vuln(service@, port),
            ],
            string_views(final(recommendations)@) == string_views(old(recommendations)@)
                + generic_recs(),
    {
        let ghost v0 = vulnerabilities@;
        let ghost r0 = recommendations@;
        let port_str = u16_to_string(port);
        let name = service.clone().concat(" Service Detected");
        let description = service.clone().concat(" service running on port ").concat(
            port_str.as_str(),
        );
        let remediation = String::from_str("Identify and assess the ").concat(service.as_str())
            .concat(" service running on this port");
        vulnerabilities.push(
            Vulnerability {
                name,
                description,
                severity: RiskLevel::Medium,
                cve: None,
                remediation,
            },
        );
        recommendations.push(String::from_str("Document and assess all running services"));
        assert(vuln_views(vulnerabilities@) =~= vuln_views(v0) + seq![
            generic_vuln(service@, port),
        ]);
        assert(string_views(recommendations@) =~= string_views(r0) + generic_recs());
    }

    /// The TLS placeholder for port 443: records whether the raw connect
    /// succeeded, never inspects a certificate.
    pub fn check_ssl_security(&self, connect_ok: bool) -> (s: SslInfo)
        ensures
            s@ == spec_ssl_info(connect_ok),
    {
        let mut issues: Vec<String> = Vec::new();
        if connect_ok {
            issues.push(
                String::from_str("SSL certificate validation not implemented in this version"),
            );
        } else {
            issues.push(String::from_str("SSL connection failed"));
        }
        let s = SslInfo {
            certificate_valid: false,
            certificate_expiry: None,
            weak_ciphers: Vec::new(),
            tls_version: None,
            issues,
        };
        assert(s@.weak_ciphers =~= Seq::<Seq<char>>::empty());
        assert(s@.issues =~= spec_ssl_info(connect_ok).issues);
        assert(s@ =~= spec_ssl_info(connect_ok));
        s
    }

    /// Checks one security header, adding the matching finding and
    /// recommendation when it is absent.
    fn check_one_header(
        &self,
        headers: &Vec<(String, String)>,
        name: &str,
        description: &str,
        remediation: &str,
        vulnerabilities: &mut Vec<Vulnerability>,
        recommendations: &mut Vec<String>,
    )
        ensures
            vuln_views(final(vulnerabilities)@) == vuln_views(old(vulnerabilities)@) + (
            if header_key_present(header_views(headers@), name@) {
                Seq::<VulnView>::empty()
            } else {
                seq![missing_header_vuln(name@, description@, remediation@)]
            }),
            string_views(final(recommendations)@) == string_views(old(recommendations)@) + (
            if header_key_present(header_views(headers@), name@) {
                Seq::<Seq<char>>::empty()
            } else {
                seq![remediation@]
            }),
    {
        let ghost v0 = vulnerabilities@;
        let ghost r0 = recommendations@;
        if !has_header_key(headers, name) {
            let full_name = String::from_str("Missing Security Header: ").concat(name);
            vulnerabilities.push(
                Vulnerability {
                    name: full_name,
                    description: String::from_str(description),
                    severity: RiskLevel::Medium,
                    cve: None,
                    remediation: String::from_str(remediation),
                },
            );
            recommendations.push(String::from_str(remediation));
            assert(vuln_views(vulnerabilities@) =~= vuln_views(v0) + seq![
                missing_header_vuln(name@, description@, remediation@),
            ]);
            assert(string_views(recommendations@) =~= string_views(r0) + seq![remediation@]);
        } else {
            assert(vuln_views(vulnerabilities@) =~= vuln_views(v0) + Seq::<VulnView>::empty());
            assert(string_views(recommendations@) =~= string_views(r0) + Seq::<Seq<char>>::empty());
        }
    }

    /// Checks the five standing security headers against the captured
    /// response headers; each absent one yields one `Medium` finding and
    /// one recommendation, in a fixed order.
    pub fn check_web_security_headers(
        &self,
        headers: &Vec<(String, String)>,
        vulnerabilities: &mut Vec<Vulnerability>,
        recommendations: &mut Vec<String>,
    )
        ensures
            vuln_views(final(vulnerabilities)@) == vuln_views(old(vulnerabilities)@)
                + missing_header_vulns(header_views(headers@), 5),
            string_views(final(recommendations)@) == string_views(old(recommendations)@)
                + missing_header_recs(header_views(headers@), 5),
    {
        let ghost hs = header_views(headers@);
        let ghost v0 = vuln_views(vulnerabilities@);
        let ghost r0 = string_views(recommendations@);
        self.check_one_header(
            headers,
            "x-frame-options",
            "Missing X-Frame-Options header",
            "Add X-Frame-Options: DENY",
            vulnerabilities,
            recommendations,
        );
        self.check_one_header(
            headers,
            "x-content-type-options",
            "Missing X-Content-Type-Options header",
            "Add X-Content-Type-Options: nosniff",
            vulnerabilities,
            recommendations,
        );
        self.check_one_header(
            headers,
            "x-xss-protection",
            "Missing X-XSS-Protection header",
            "Add X-XSS-Protection: 1; mode=block",
            vulnerabilities,
            recommendations,
        );
        self.check_one_header(
            headers,
            "strict-transport-security",
            "Missing HSTS header",
            "Add Strict-Transport-Security header",
            vulnerabilities,
            recommendations,
        );
        self.check_one_header(
            headers,
            "content-security-policy",
            "Missing CSP header",
            "Add Content-Security-Policy header",
            vulnerabilities,
            recommendations,
        );
        proof {
            reveal_with_fuel(missing_header_vulns, 6);
            reveal_with_fuel(missing_header_recs, 6);
            assert(sec_header_list()[0] == ("x-frame-options"@, "Missing X-Frame-Options header"@, "Add X-Frame-Options: DENY"@));
            assert(sec_header_list()[1] == ("x-content-type-options"@, "Missing X-Content-Type-Options header"@, "Add X-Content-Type-Options: nosniff"@));
            assert(sec_header_list()[2] == ("x-xss-protection"@, "Missing X-XSS-Protection header"@, "Add X-XSS-Protection: 1; mode=block"@));
            assert(sec_header_list()[3] == ("strict-transport-security"@, "Missing HSTS header"@, "Add Strict-Transport-Security header"@));
            assert(sec_header_list()[4] == ("content-security-policy"@, "Missing CSP header"@, "Add Content-Security-Policy header"@));
            assert(vuln_views(vulnerabilities@) =~= v0 + missing_header_vulns(hs, 5));
            assert(string_views(recommendations@) =~= r0 + missing_header_recs(hs, 5));
        }
    }

    /// Judges a web service from the observed HTTP request outcome: the
    /// status-code finding or the unreachable finding, the captured
    /// headers with keys lower-cased, and — for port 443 — the TLS
    /// placeholder.
    pub fn scan_web_service(&self, port: u16, obs: &WebObservation) -> (t: (
        Vec<Vulnerability>,
        Option<Vec<(String, String)>>,
        Option<SslInfo>,
    ))
        ensures
            vuln_views(t.0@) == spec_web_vulns(obs@),
            match (t.1, spec_web_headers(obs@)) {
                (Some(hs), Some(sh)) => header_views(hs@) == sh,
                (None, None) => true,
                _ => false,
            },
            match t.2 {
                Some(s) => port == 443 && s@ == spec_ssl_info(obs@.tls_connect_ok),
                None => port != 443,
            },
    {
        let mut vulnerabilities: Vec<Vulnerability> = Vec::new();
        let headers: Option<Vec<(String, String)>> = match &obs.response {
            Some(resp) => {
                if resp.status == 200 {
                    vulnerabilities.push(
                        mk_vuln(
                            "Default Page Accessible",
                            "Default web page is accessible, may reveal system information",
                            RiskLevel::Medium,
                            "Remove or secure default pages",
                        ),
                    );
                    assert(vuln_views(vulnerabilities@) =~= spec_web_vulns(obs@));
                } else {
                    assert(vuln_views(vulnerabilities@) =~= spec_web_vulns(obs@));
                }
                Some(normalize_header_keys(&resp.headers))
            },
            None => {
                vulnerabilities.push(
                    mk_vuln(
                        "Web Service Unreachable",
                        "Web service is not responding properly",
                        RiskLevel::Low,
                        "Check service configuration",
                    ),
                );
                assert(vuln_views(vulnerabilities@) =~= spec_web_vulns(obs@));
                None
            },
        };
        let ssl_info: Option<SslInfo> = if port == 443 {
            Some(self.check_ssl_security(obs.tls_connect_ok))
        } else {
            None
        };
        (vulnerabilities, headers, ssl_info)
    }

    /// The classifier's verdict on one open port. For a service the
    /// identification resolves to a web service, the caller must supply
    /// the observed HTTP request outcome.
    pub fn scan_port(&self, port: u16, banner: Option<String>, web: Option<&WebObservation>) -> (r:
        VaptResult)
        requires
            is_web_service(spec_identify_service(self@, port, opt_string_view(banner)))
                ==> web is Some,
        ensures
            r@ == spec_scan_port(
                self@,
                port,
                opt_string_view(banner),
                match web {
                    Some(w) => Some(w@),
                    None => None,
                },
            ),
    {
        let service = self.identify_service(port, &banner);
        let ghost expected = spec_scan_port(
            self@,
            port,
            opt_string_view(banner),
            match web {
                Some(w) => Some(w@),
                None => None,
            },
        );
        let folded = crate::text::lower_string(service.as_str());
        let s_http = String::from_str("http");
        let s_https = String::from_str("https");
        if folded == s_http || folded == s_https {
            let obs = web.unwrap();
            let (mut vulnerabilities, headers, ssl_info) = self.scan_web_service(port, obs);
            let mut recommendations: Vec<String> = Vec::new();
            assert(string_views(recommendations@) =~= Seq::<Seq<char>>::empty());
            let ghost base = vuln_views(vulnerabilities@);
            match &headers {
                Some(hs) => {
                    self.check_web_security_headers(hs, &mut vulnerabilities, &mut recommendations);
                },
                None => {},
            }
            let risk_level = self.calculate_risk_level(&vulnerabilities);
            let r = VaptResult {
                port,
                service,
                vulnerabilities,
                security_headers: headers,
                ssl_info,
                risk_level,
                recommendations,
            };
            assert(r@ =~= expected);
            return r;
        }
        let mut vulnerabilities: Vec<Vulnerability> = Vec::new();
        let mut recommendations: Vec<String> = Vec::new();
        assert(vuln_views(vulnerabilities@) =~= Seq::<VulnView>::empty());
        assert(string_views(recommendations@) =~= Seq::<Seq<char>>::empty());
        let s_ssh = String::from_str("ssh");
        let s_ftp = String::from_str("ftp");
        let s_smtp = String::from_str("smtp");
        let s_telnet = String::from_str("telnet");
        let s_rdp = String::from_str("rdp");
        if folded == s_ssh {
            self.check_ssh_vulnerabilities(&mut vulnerabilities, &mut recommendations);
        } else if folded == s_ftp {
            self.check_ftp_vulnerabilities(&mut vulnerabilities, &mut recommendations);
        } else if folded == s_smtp {
            self.check_smtp_vulnerabilities(&mut vulnerabilities, &mut recommendations);
        } else if folded == s_telnet {
            let ghost v0 = vulnerabilities@;
            let ghost r0 = recommendations@;
            vulnerabilities.push(
                mk_vuln(
                    "Telnet Service Detected",
                    "Telnet transmits data in plain text, making it vulnerable to sniffing attacks",
                    RiskLevel::Critical,
                    "Disable Telnet and use SSH instead",
                ),
            );
            recommendations.push(
                String::from_str("Replace Telnet with SSH for secure remote access"),
            );
            assert(vuln_views(vulnerabilities@) =~= vuln_views(v0) + seq![telnet_vuln()]);
            assert(string_views(recommendations@) =~= string_views(r0) + telnet_recs());
        } else if folded == s_rdp {
            self.check_rdp_vulnerabilities(&mut vulnerabilities, &mut recommendations);
        } else {
            self.check_generic_vulnerabilities(
                port,
                &service,
                &mut vulnerabilities,
                &mut recommendations,
            );
        }
        let risk_level = self.calculate_risk_level(&vulnerabilities);
        let r = VaptResult {
            port,
            service,
            vulnerabilities,
            security_headers: None,
            ssl_info: None,
            risk_level,
            recommendations,
        };
        assert(r@ =~= expected);
        r
    }
}

/// Some stored header pair carries exactly this key.
fn has_header_key(headers: &Vec<(String, String)>, name: &str) -> (r: bool)
    ensures
        r == header_key_present(header_views(headers@), name@),
{
    let name_s = String::from_str(name);
    let mut i: usize = 0;
    while i < headers.len()
        invariant
            i <= headers@.len(),
            name_s@ == name@,
            forall|j: int|
                0 <= j < i ==> (#[trigger] header_views(headers@)[j]).0 != name@,
        decreases headers@.len() - i,
    {
        let hit = headers[i].0 == name_s;
        if hit {
            assert(header_views(headers@)[i as int].0 == name@);
            return true;
        }
        i += 1;
    }
    false
}

/// Index of the first stored pair carrying exactly this key; the length
/// when none does.
fn find_key_index(r: &Vec<(String, String)>, key: &String) -> (i: usize)
    ensures
        i as int == find_header_key(header_views(r@), key@),
{
    let n = r.len();
    let mut i: usize = 0;
    while i < n
        invariant
            n == r@.len(),
            i <= n,
            forall|j: int| 0 <= j < i ==> (#[trigger] header_views(r@)[j]).0 != key@,
        decreases n - i,
    {
        let hit = r[i].0 == *key;
        if hit {
            proof {
                assert(header_views(r@)[i as int].0 == key@);
                lemma_find_header_key_is(header_views(r@), key@, i as int);
            }
            return i;
        }
        i += 1;
    }
    proof {
        lemma_find_header_key_is(header_views(r@), key@, n as int);
    }
    n
}

/// Copies headers with each key folded to ASCII lower case and duplicate
/// keys dropped: a repeated key keeps its first position, and the value
/// seen last wins, so the stored list is a mapping.
fn normalize_header_keys(headers: &Vec<(String, String)>) -> (r: Vec<(String, String)>)
    ensures
        header_views(r@) == spec_dedup_headers(normalize_headers(header_views(headers@))),
{
    let mut r: Vec<(String, String)> = Vec::new();
    let mut i: usize = 0;
    let ghost hv = header_views(headers@);
    let ghost nh = normalize_headers(hv);
    assert(nh.take(0) =~= Seq::<(Seq<char>, Seq<char>)>::empty());
    while i < headers.len()
        invariant
            i <= headers@.len(),
            hv == header_views(headers@),
            nh == normalize_headers(hv),
            header_views(r@) == spec_dedup_headers(nh.take(i as int)),
        decreases headers@.len() - i,
    {
        let ghost r0 = r@;
        let key = crate::text::lower_string(headers[i].0.as_str());
        let value = headers[i].1.clone();
        proof {
            assert(hv[i as int] == (headers@[i as int].0@, headers@[i as int].1@));
            assert(nh[i as int] == (lower_seq(hv[i as int].0), hv[i as int].1));
            assert(nh.take(i + 1).drop_last() =~= nh.take(i as int));
            assert(nh.take(i + 1).last() == nh[i as int]);
        }
        let idx = find_key_index(&r, &key);
        proof {
            lemma_find_header_key(header_views(r0), key@);
        }
        if idx < r.len() {
            r.set(idx, (key, value));
            assert(header_views(r@) =~= header_views(r0).update(idx as int, (key@, value@)));
        } else {
            r.push((key, value));
            assert(header_views(r@) =~= header_views(r0).push((key@, value@)));
        }
        proof {
            let prev = spec_dedup_headers(nh.take(i as int));
            assert(header_views(r@) == upsert_header(prev, key@, value@));
            assert(spec_dedup_headers(nh.take(i + 1)) == upsert_header(prev, key@, value@));
        }
        i += 1;
    }
    assert(nh.take(headers@.len() as int) =~= nh);
    r
}

// ---------------------------------------------------------------------------
// Report helpers
// ---------------------------------------------------------------------------

/// The label the reports print for a risk level.
pub open spec fn spec_risk_label(r: RiskLevel) -> Seq<char> {
    match r {
        RiskLevel::Low => "LOW"@,
        RiskLevel::Medium => "MEDIUM"@,
        RiskLevel::High => "HIGH"@,
        RiskLevel::Critical => "CRITICAL"@,
    }
}

/// The label the reports print for a risk level.
pub fn risk_label(r: RiskLevel) -> (s: String)
    ensures
        s@ == spec_risk_label(r),
{
    match r {
        RiskLevel::Low => String::from_str("LOW"),
        RiskLevel::Medium => String::from_str("MEDIUM"),
        RiskLevel::High => String::from_str("HIGH"),
        RiskLevel::Critical => String::from_str("CRITICAL"),
    }
}

/// The name a risk level carries in the serialized data model.
pub open spec fn spec_risk_name(r: RiskLevel) -> Seq<char> {
    match r {
        RiskLevel::Low => "Low"@,
        RiskLevel::Medium => "Medium"@,
        RiskLevel::High => "High"@,
        RiskLevel::Critical => "Critical"@,
    }
}

/// The name a risk level carries in the serialized data model.
pub fn risk_name(r: RiskLevel) -> (s: String)
    ensures
        s@ == spec_risk_name(r),
{
    match r {
        RiskLevel::Low => String::from_str("Low"),
        RiskLevel::Medium => String::from_str("Medium"),
        RiskLevel::High => String::from_str("High"),
        RiskLevel::Critical => String::from_str("Critical"),
    }
}

/// What reading a serialized risk-level name back yields.
pub open spec fn spec_parse_risk_name(s: Seq<char>) -> Option<RiskLevel> {
    if s == spec_risk_name(RiskLevel::Low) {
        Some(RiskLevel::Low)
    } else if s == spec_risk_name(RiskLevel::Medium) {
        Some(RiskLevel::Medium)
    } else if s == spec_risk_name(RiskLevel::High) {
        Some(RiskLevel::High)
    } else if s == spec_risk_name(RiskLevel::Critical) {
        Some(RiskLevel::Critical)
    } else {
        None
    }
}

/// Reads a risk level back from its serialized name.
pub fn parse_risk_name(s: &str) -> (r: Option<RiskLevel>)
    ensures
        r == spec_parse_risk_name(s@),
{
    let t = String::from_str(s);
    if t == String::from_str("Low") {
        Some(RiskLevel::Low)
    } else if t == String::from_str("Medium") {
        Some(RiskLevel::Medium)
    } else if t == String::from_str("High") {
        Some(RiskLevel::High)
    } else if t == String::from_str("Critical") {
        Some(RiskLevel::Critical)
    } else {
        None
    }
}

/// Serializing a severity and reading it back loses nothing, and two
/// severities never share a name: the severity part of the data model
/// round-trips.
pub proof fn lemma_risk_name_round_trip(a: RiskLevel, b: RiskLevel)
    ensures
        spec_parse_risk_name(spec_risk_name(a)) == Some(a),
        a != b ==> spec_risk_name(a) != spec_risk_name(b),
{
    broadcast use vstd::string::group_string_axioms;

    reveal_strlit("Low");
    reveal_strlit("Medium");
    reveal_strlit("High");
    reveal_strlit("Critical");
    assert("Low"@.len() == 3);
    assert("Medium"@.len() == 6);
    assert("High"@.len() == 4);
    assert("Critical"@.len() == 8);
    assert("Low"@[0] == 'L');
    assert("High"@[0] == 'H');
    assert("Critical"@[0] == 'C');
}

/// How many results carry each risk level, in the order `(critical,
/// high, medium, low)`.
pub open spec fn spec_risk_counts(rs: Seq<VaptResultView>) -> (int, int, int, int)
    decreases rs.len(),
{
    if rs.len() == 0 {
        (0, 0, 0, 0)
    } else {
        let rest = spec_risk_counts(rs.drop_last());
        match rs.last().risk_level {
            RiskLevel::Critical => (rest.0 + 1, rest.1, rest.2, rest.3),
            RiskLevel::High => (rest.0, rest.1 + 1, rest.2, rest.3),
            RiskLevel::Medium => (rest.0, rest.1, rest.2 + 1, rest.3),
            RiskLevel::Low => (rest.0, rest.1, rest.2, rest.3 + 1),
        }
    }
}

/// The views of a sequence of results.
pub open spec fn result_views(rs: Seq<VaptResult>) -> Seq<VaptResultView> {
    rs.map_values(|r: VaptResult| r@)
}

/// Counts the results per risk level: `(critical, high, medium, low)`.
pub fn risk_counts(results: &Vec<VaptResult>) -> (c: (usize, usize, usize, usize))
    ensures
        (c.0 as int, c.1 as int, c.2 as int, c.3 as int) == spec_risk_counts(
            result_views(results@),
        ),
{
    let ghost rv = result_views(results@);
    let mut critical: usize = 0;
    let mut high: usize = 0;
    let mut medium: usize = 0;
    let mut low: usize = 0;
    let mut i: usize = 0;
    assert(rv.take(0) =~= Seq::<VaptResultView>::empty());
    while i < results.len()
        invariant
            i <= results@.len(),
            rv == result_views(results@),
            critical + high + medium + low <= i,
            (critical as int, high as int, medium as int, low as int) == spec_risk_counts(
                rv.take(i as int),
            ),
        decreases results@.len() - i,
    {
        assert(rv.take(i + 1).drop_last() =~= rv.take(i as int));
        assert(rv.take(i + 1).last() == rv[i as int]);
        match results[i].risk_level {
            RiskLevel::Critical => {
                critical += 1;
            },
            RiskLevel::High => {
                high += 1;
            },
            RiskLevel::Medium => {
                medium += 1;
            },
            RiskLevel::Low => {
                low += 1;
            },
        }
        i += 1;
    }
    assert(rv.take(rv.len() as int) =~= rv);
    (critical, high, medium, low)
}

/// Some string of `v` reads exactly as `s`.
fn contains_string(v: &Vec<String>, s: &String) -> (r: bool)
    ensures
        r == string_views(v@).contains(s@),
{
    let mut i: usize = 0;
    while i < v.len()
        invariant
            i <= v@.len(),
            forall|k: int| 0 <= k < i ==> string_views(v@)[k] != s@,
        decreases v@.len() - i,
    {
        let hit = v[i] == *s;
        if hit {
            assert(string_views(v@)[i as int] == s@);
            return true;
        }
        i += 1;
    }
    assert(forall|k: int| 0 <= k < string_views(v@).len() ==> string_views(v@)[k] != s@);
    false
}

/// A recommendation string occurs somewhere in the first `n` results.
pub open spec fn rec_in_results(rs: Seq<VaptResultView>, n: int, s: Seq<char>) -> bool {
    exists|i: int, j: int|
        0 <= i < n && i < rs.len() && 0 <= j < rs[i].recommendations.len()
            && #[trigger] rs[i].recommendations[j] == s
}

/// The de-duplicated union of all recommendation strings across all
/// results — a set presented once; each string keeps its first
/// occurrence's position, though the order is not part of the contract.
pub fn general_recommendations(results: &Vec<VaptResult>) -> (r: Vec<String>)
    ensures
        forall|s: Seq<char>|
            #[trigger] string_views(r@).contains(s) <==> rec_in_results(
                result_views(results@),
                results@.len() as int,
                s,
            ),
        forall|k1: int, k2: int|
            0 <= k1 < r@.len() && 0 <= k2 < r@.len() && k1 != k2 ==> string_views(r@)[k1]
                != string_views(r@)[k2],
{
    let ghost rv = result_views(results@);
    let mut r: Vec<String> = Vec::new();
    let mut i: usize = 0;
    while i < results.len()
        invariant
            i <= results@.len(),
            rv == result_views(results@),
            forall|s: Seq<char>|
                #[trigger] string_views(r@).contains(s) <==> rec_in_results(rv, i as int, s),
            forall|k1: int, k2: int|
                0 <= k1 < r@.len() && 0 <= k2 < r@.len() && k1 != k2 ==> string_views(r@)[k1]
                    != string_views(r@)[k2],
        decreases results@.len() - i,
    {
        let recs = &results[i].recommendations;
        let mut j: usize = 0;
        while j < recs.len()
            invariant
                i < results@.len(),
                j <= recs@.len(),
                rv == result_views(results@),
                recs@ == results@[i as int].recommendations@,
                forall|s: Seq<char>|
                    #[trigger] string_views(r@).contains(s) <==> (rec_in_results(rv, i as int, s)
                        || exists|jj: int|
                        0 <= jj < j && rv[i as int].recommendations[jj] == s),
                forall|k1: int, k2: int|
                    0 <= k1 < r@.len() && 0 <= k2 < r@.len() && k1 != k2 ==> string_views(r@)[k1]
                        != string_views(r@)[k2],
            decreases recs@.len() - j,
        {
            let ghost r0 = r@;
            let s = &recs[j];
            assert(rv[i as int].recommendations[j as int] == s@);
            if !contains_string(&r, s) {
                r.push(s.clone());
                assert(string_views(r@) =~= string_views(r0).push(s@));
                assert forall|t: Seq<char>| #[trigger] string_views(r@).contains(t) implies (
                rec_in_results(rv, i as int, t) || exists|jj: int|
                    0 <= jj < j + 1 && rv[i as int].recommendations[jj] == t) by {
                    let k = choose|k: int| 0 <= k < string_views(r@).len() && string_views(r@)[k] == t;
                    if k < r0.len() {
                        assert(string_views(r0)[k] == t);
                        assert(string_views(r0).contains(t));
                    } else {
                        assert(t == s@);
                        assert(rv[i as int].recommendations[j as int] == t);
                    }
                }
                assert forall|t: Seq<char>| (rec_in_results(rv, i as int, t) || exists|jj: int|
                    0 <= jj < j + 1 && rv[i as int].recommendations[jj] == t) implies #[trigger] string_views(
                    r@,
                ).contains(t) by {
                    if rec_in_results(rv, i as int, t) || exists|jj: int|
                        0 <= jj < j && rv[i as int].recommendations[jj] == t {
                        assert(string_views(r0).contains(t));
                        let k = choose|k: int|
                            0 <= k < string_views(r0).len() && string_views(r0)[k] == t;
                        assert(string_views(r@)[k] == t);
                    } else {
                        assert(t == s@);
                        assert(string_views(r@)[r0.len() as int] == t);
                    }
                }
            } else {
                assert forall|t: Seq<char>| (rec_in_results(rv, i as int, t) || exists|jj: int|
                    0 <= jj < j + 1 && rv[i as int].recommendations[jj] == t) implies #[trigger] string_views(
                    r@,
                ).contains(t) by {
                    if rec_in_results(rv, i as int, t) || exists|jj: int|
                        0 <= jj < j && rv[i as int].recommendations[jj] == t {
                    } else {
                        assert(t == s@);
                    }
                }
            }
            j += 1;
        }
        proof {
            assert forall|s: Seq<char>| #[trigger] string_views(r@).contains(s) implies rec_in_results(
                rv,
                i + 1,
                s,
            ) by {
                if rec_in_results(rv, i as int, s) {
                    let (ii, jj) = choose|ii: int, jj: int|
                        0 <= ii < i && ii < rv.len() && 0 <= jj < rv[ii].recommendations.len()
                            && #[trigger] rv[ii].recommendations[jj] == s;
                    assert(0 <= ii < i + 1 && 0 <= jj < rv[ii].recommendations.len()
                        && rv[ii].recommendations[jj] == s);
                } else {
                    let jj = choose|jj: int|
                        0 <= jj < recs@.len() && rv[i as int].recommendations[jj] == s;
                    assert(0 <= jj < rv[i as int].recommendations.len() && rv[i as int].recommendations[jj]
                        == s);
                }
            }
            assert forall|s: Seq<char>| rec_in_results(rv, i + 1, s) implies #[trigger] string_views(
                r@,
            ).contains(s) by {
                let (ii, jj) = choose|ii: int, jj: int|
                    0 <= ii < i + 1 && ii < rv.len() && 0 <= jj < rv[ii].recommendations.len()
                        && #[trigger] rv[ii].recommendations[jj] == s;
                if ii < i {
                    assert(rec_in_results(rv, i as int, s));
                } else {
                    assert(exists|k: int|
                        0 <= k < recs@.len() && rv[i as int].recommendations[k] == s);
                }
            }
        }
        i += 1;
    }
    r
}

/// The report output modes.
#[derive(Clone, Copy, Debug, PartialEq, Eq, Structural)]
pub enum OutputMode {
    Text,
    Json,
    Markdown,
}

/// Selects the report output mode: `text`, `json` or `markdown`, compared
/// after lower-casing. An unrecognized mode falls back to `text`; the
/// second component says whether the argument was recognized, so the
/// caller can warn without aborting.
pub fn parse_output_mode(s: &str) -> (r: (OutputMode, bool))
    ensures
        lower_seq(s@) == "text"@ ==> r == (OutputMode::Text, true),
        lower_seq(s@) == "json"@ ==> r == (OutputMode::Json, true),
        lower_seq(s@) == "markdown"@ ==> r == (OutputMode::Markdown, true),
        lower_seq(s@) != "text"@ && lower_seq(s@) != "json"@ && lower_seq(s@) != "markdown"@
            ==> r == (OutputMode::Text, false),
{
    proof {
        broadcast use vstd::string::group_string_axioms;

        reveal_strlit("text");
        reveal_strlit("json");
        reveal_strlit("markdown");
        assert("text"@.len() == 4);
        assert("json"@.len() == 4);
        assert("markdown"@.len() == 8);
        assert("text"@[0] == 't');
        assert("json"@[0] == 'j');
    }
    let lowered = crate::text::lower_string(s);
    if lowered == String::from_str("text") {
        (OutputMode::Text, true)
    } else if lowered == String::from_str("json") {
        (OutputMode::Json, true)
    } else if lowered == String::from_str("markdown") {
        (OutputMode::Markdown, true)
    } else {
        (OutputMode::Text, false)
    }
}

} // verus!
