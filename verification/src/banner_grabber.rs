//! Banner identification: the ordered probe chain and the interpretation
//! of what each protocol probe read.
//!
//! Opening connections and reading bytes happens outside this crate; the
//! functions here turn the text a probe captured into a `BannerInfo`, and
//! `probe_order` fixes the deterministic fallback chain: HTTP, then FTP,
//! then SMTP, then the generic probe.

use vstd::prelude::*;

use crate::text::{
    chars_of, contains_seq, dec_rep, has_prefix, join_lines_from, join_nl, split_lines,
    split_lines_spec, starts_with_chars, str_contains, str_contains_ci, string_from_chars,
    trim_chars, trim_spec, u16_to_string, views_of,
};
use crate::vapt::spec_keyword_protocol;

verus! {

/// Specification-level image of a `BannerInfo`.
#[verifier::ext_equal]
pub ghost struct BannerInfoView {
    pub protocol: Seq<char>,
    pub banner: Seq<char>,
    pub server_info: Option<Seq<char>>,
    pub version: Option<Seq<char>>,
    pub additional_info: Seq<Seq<char>>,
}

/// What a successful probe captured: the protocol it spoke, the banner
/// text, and any structured metadata; immutable after creation.
#[derive(Debug, Clone)]
pub struct BannerInfo {
    pub protocol: String,
    pub banner: String,
    pub server_info: Option<String>,
    pub version: Option<String>,
    pub additional_info: Vec<String>,
}

impl View for BannerInfo {
    type V = BannerInfoView;

    open spec fn view(&self) -> BannerInfoView {
        BannerInfoView {
            protocol: self.protocol@,
            banner: self.banner@,
            server_info: match self.server_info {
                Some(s) => Some(s@),
                None => None,
            },
            version: match self.version {
                Some(s) => Some(s@),
                None => None,
            },
            additional_info: self.additional_info@.map_values(|s: String| s@),
        }
    }
}

/// The protocol-specific probes, in the order the chain tries them.
#[derive(Clone, Copy, Debug, PartialEq, Eq, Structural)]
pub enum ProbeKind {
    Http,
    Ftp,
    Smtp,
    Generic,
}

// ---------------------------------------------------------------------------
// HTTP response interpretation
// ---------------------------------------------------------------------------

/// The banner an HTTP response yields: everything after the first line
/// when more than one line came back, the first line otherwise.
pub open spec fn http_banner_of(lines: Seq<Seq<char>>) -> Seq<char> {
    if lines.len() > 1 {
        join_nl(lines.subrange(1, lines.len() as int))
    } else {
        lines[0]
    }
}

/// The `Server:` header among the first `k` lines, if any; a later
/// occurrence overrides an earlier one.
pub open spec fn http_server_info_rec(lines: Seq<Seq<char>>, k: int) -> Option<Seq<char>>
    decreases k,
{
    if k <= 0 {
        None
    } else {
        let line = lines[k - 1];
        if has_prefix(line, "Server:"@) {
            Some(trim_spec(line.subrange(7, line.len() as int)))
        } else {
            http_server_info_rec(lines, k - 1)
        }
    }
}

/// A header line collected into `additional_info`: one beginning with
/// `X-` or `Via:`.
pub open spec fn is_http_extra_line(line: Seq<char>) -> bool {
    !has_prefix(line, "Server:"@) && (has_prefix(line, "X-"@) || has_prefix(line, "Via:"@))
}

/// The collected extra headers among the first `k` lines, in order.
pub open spec fn http_additional_rec(lines: Seq<Seq<char>>, k: int) -> Seq<Seq<char>>
    decreases k,
{
    if k <= 0 {
        Seq::empty()
    } else {
        http_additional_rec(lines, k - 1) + (if is_http_extra_line(lines[k - 1]) {
            seq![trim_spec(lines[k - 1])]
        } else {
            Seq::empty()
        })
    }
}

/// How many lines the header scan inspects: at most the first 10.
pub open spec fn http_scan_upto(lines: Seq<Seq<char>>) -> int {
    if lines.len() < 10 {
        lines.len() as int
    } else {
        10
    }
}

/// What interpreting an HTTP response yields: nothing for an empty
/// response, else the banner plus `Server:` and `X-`/`Via:` metadata from
/// the first 10 lines.
pub open spec fn spec_interpret_http(text: Seq<char>) -> Option<BannerInfoView> {
    let lines = split_lines_spec(text);
    if lines.len() == 0 {
        None
    } else {
        Some(
            BannerInfoView {
                protocol: "HTTP"@,
                banner: trim_spec(http_banner_of(lines)),
                server_info: http_server_info_rec(lines, http_scan_upto(lines)),
                version: None,
                additional_info: http_additional_rec(lines, http_scan_upto(lines)),
            },
        )
    }
}

// ---------------------------------------------------------------------------
// FTP, SMTP and generic interpretation
// ---------------------------------------------------------------------------

/// What interpreting an FTP greeting (and the optional `HELP` response)
/// yields.
pub open spec fn spec_interpret_ftp(g: Seq<char>, help: Option<Seq<char>>) -> BannerInfoView {
    let banner = trim_spec(g);
    BannerInfoView {
        protocol: "FTP"@,
        banner: banner,
        server_info: if contains_seq(banner, "FTP server"@) || contains_seq(banner, "vsFTPd"@)
            || contains_seq(banner, "ProFTPD"@) {
            Some(banner)
        } else {
            None
        },
        version: None,
        additional_info: match help {
            Some(h) => seq!["HELP: "@ + trim_spec(h)],
            None => Seq::empty(),
        },
    }
}

/// An `EHLO` response line worth keeping: a `250` reply line naming a
/// capability of interest.
pub open spec fn is_smtp_cap_line(line: Seq<char>) -> bool {
    contains_seq(line, "250"@) && (contains_seq(line, "SIZE"@) || contains_seq(line, "AUTH"@)
        || contains_seq(line, "STARTTLS"@))
}

/// The capability lines kept from the first `k` lines of an `EHLO`
/// response.
pub open spec fn smtp_caps_rec(lines: Seq<Seq<char>>, k: int) -> Seq<Seq<char>>
    decreases k,
{
    if k <= 0 {
        Seq::empty()
    } else {
        smtp_caps_rec(lines, k - 1) + (if is_smtp_cap_line(lines[k - 1]) {
            seq![trim_spec(lines[k - 1])]
        } else {
            Seq::empty()
        })
    }
}

/// How many `EHLO` response lines are scanned: at most the first 5.
pub open spec fn smtp_scan_upto(lines: Seq<Seq<char>>) -> int {
    if lines.len() < 5 {
        lines.len() as int
    } else {
        5
    }
}

/// What interpreting an SMTP greeting (and the optional `EHLO` response)
/// yields.
pub open spec fn spec_interpret_smtp(g: Seq<char>, ehlo: Option<Seq<char>>) -> BannerInfoView {
    let banner = trim_spec(g);
    BannerInfoView {
        protocol: "SMTP"@,
        banner: banner,
        server_info: if contains_seq(banner, "SMTP"@) || contains_seq(banner, "ESMTP"@) {
            Some(banner)
        } else {
            None
        },
        version: None,
        additional_info: match ehlo {
            Some(h) => {
                let lines = split_lines_spec(h);
                smtp_caps_rec(lines, smtp_scan_upto(lines))
            },
            None => Seq::empty(),
        },
    }
}

/// What interpreting a generic-probe response yields: the trimmed text as
/// banner, classified by case-insensitive keyword search.
pub open spec fn spec_interpret_generic(text: Seq<char>) -> BannerInfoView {
    let banner = trim_spec(text);
    BannerInfoView {
        protocol: match spec_keyword_protocol(banner) {
            Some(p) => p,
            None => "Unknown"@,
        },
        banner: banner,
        server_info: None,
        version: None,
        additional_info: Seq::empty(),
    }
}

/// The fixed `HEAD` request the HTTP probe sends.
pub open spec fn spec_http_head_request(host: Seq<char>, port: u16) -> Seq<char> {
    "HEAD / HTTP/1.1\r\nHost: "@ + host + ":"@ + dec_rep(port as int)
        + "\r\nUser-Agent: PortScanner/1.0\r\nConnection: close\r\n\r\n"@
}

// ---------------------------------------------------------------------------
// The banner grabber
// ---------------------------------------------------------------------------

/// Runs the probe chain against one open port; each probe's connect and
/// read are bounded by the same configured timeout.
pub struct BannerGrabber {
    timeout_ms: u64,
}

impl BannerGrabber {
    /// The per-operation timeout every probe stage is bounded by.
    pub closed spec fn spec_timeout_ms(&self) -> u64 {
        self.timeout_ms
    }

    /// A grabber with the given per-operation timeout in milliseconds.
    pub fn new(timeout_ms: u64) -> (g: BannerGrabber)
        ensures
            g.spec_timeout_ms() == timeout_ms,
    {
        BannerGrabber { timeout_ms }
    }

    /// The configured timeout, for the code driving the probes.
    pub fn timeout_ms(&self) -> (t: u64)
        ensures
            t == self.spec_timeout_ms(),
    {
        self.timeout_ms
    }

    /// The probes in the order the chain tries them: HTTP always before
    /// FTP, before SMTP, before the generic fallback. A stage is tried
    /// only when every earlier stage yielded nothing.
    pub fn probe_order(&self) -> (r: Vec<ProbeKind>)
        ensures
            r@ == seq![ProbeKind::Http, ProbeKind::Ftp, ProbeKind::Smtp, ProbeKind::Generic],
    {
        let mut r: Vec<ProbeKind> = Vec::new();
        r.push(ProbeKind::Http);
        r.push(ProbeKind::Ftp);
        r.push(ProbeKind::Smtp);
        r.push(ProbeKind::Generic);
        assert(r@ =~= seq![ProbeKind::Http, ProbeKind::Ftp, ProbeKind::Smtp, ProbeKind::Generic]);
        r
    }

    /// The request the HTTP probe sends to `host:port`.
    pub fn http_head_request(&self, host: &str, port: u16) -> (r: String)
        ensures
            r@ == spec_http_head_request(host@, port),
    {
        let port_str = u16_to_string(port);
        String::from_str("HEAD / HTTP/1.1\r\nHost: ").concat(host).concat(":").concat(
            port_str.as_str(),
        ).concat("\r\nUser-Agent: PortScanner/1.0\r\nConnection: close\r\n\r\n")
    }

    /// Interprets what the HTTP probe read. An empty response is a miss;
    /// otherwise the response lines give the banner, the `Server:` header
    /// and the `X-`/`Via:` headers among the first 10 lines.
    pub fn interpret_http_response(&self, text: &str) -> (r: Option<BannerInfo>)
        ensures
            match (r, spec_interpret_http(text@)) {
                (Some(b), Some(v)) => b@ == v,
                (None, None) => true,
                _ => false,
            },
    {
        let cs = chars_of(text);
        let lines = split_lines(cs.as_slice());
        let ghost lviews = split_lines_spec(text@);
        if lines.len() == 0 {
            return None;
        }
        let upto: usize = if lines.len() < 10 {
            lines.len()
        } else {
            10
        };
        let server_prefix = chars_of("Server:");
        let x_prefix = chars_of("X-");
        let via_prefix = chars_of("Via:");
        let mut server_info: Option<String> = None;
        let mut additional_info: Vec<String> = Vec::new();
        let mut i: usize = 0;
        assert(additional_info@.map_values(|s: String| s@) =~= http_additional_rec(lviews, 0));
        while i < upto
            invariant
                upto as int == http_scan_upto(lviews),
                upto <= lines@.len(),
                lviews == views_of(lines@),
                server_prefix@ == "Server:"@,
                x_prefix@ == "X-"@,
                via_prefix@ == "Via:"@,
                i <= upto,
                match server_info {
                    Some(s) => http_server_info_rec(lviews, i as int) == Some(s@),
                    None => http_server_info_rec(lviews, i as int) is None,
                },
                additional_info@.map_values(|s: String| s@) == http_additional_rec(
                    lviews,
                    i as int,
                ),
            decreases upto - i,
        {
            let ghost add0 = additional_info@;
            assert(lines@[i as int]@ == lviews[i as int]);
            let line = &lines[i];
            if starts_with_chars(line.as_slice(), server_prefix.as_slice()) {
                proof {
                    reveal_strlit("Server:");
                }
                let rest = slice_from(line.as_slice(), 7);
                let trimmed = trim_chars(rest.as_slice());
                server_info = Some(string_from_chars(trimmed.as_slice()));
            } else if starts_with_chars(line.as_slice(), x_prefix.as_slice())
                || starts_with_chars(line.as_slice(), via_prefix.as_slice()) {
                let trimmed = trim_chars(line.as_slice());
                additional_info.push(string_from_chars(trimmed.as_slice()));
                assert(additional_info@.map_values(|s: String| s@) =~= add0.map_values(
                    |s: String| s@,
                ) + seq![trim_spec(lviews[i as int])]);
            } else {
                assert(additional_info@.map_values(|s: String| s@) =~= http_additional_rec(
                    lviews,
                    i + 1,
                ));
            }
            i += 1;
        }
        let banner_chars: Vec<char> = if lines.len() > 1 {
            join_lines_from(&lines, 1)
        } else {
            slice_from(lines[0].as_slice(), 0)
        };
        proof {
            if lines@.len() > 1 {
                assert(banner_chars@ == http_banner_of(lviews));
            } else {
                assert(banner_chars@ =~= lviews[0]);
            }
        }
        let trimmed = trim_chars(banner_chars.as_slice());
        let banner = string_from_chars(trimmed.as_slice());
        let b = BannerInfo {
            protocol: String::from_str("HTTP"),
            banner,
            server_info,
            version: None,
            additional_info,
        };
        let ghost expected = spec_interpret_http(text@).unwrap();
        assert(b@.banner == expected.banner);
        assert(b@.server_info == expected.server_info);
        assert(b@.additional_info == expected.additional_info);
        assert(b@ =~= expected);
        Some(b)
    }

    /// Interprets the FTP greeting the probe read, and the response to
    /// the opportunistic `HELP` command if one came back.
    pub fn interpret_ftp_banner(&self, greeting: &str, help: Option<&str>) -> (r: BannerInfo)
        ensures
            r@ == spec_interpret_ftp(
                greeting@,
                match help {
                    Some(h) => Some(h@),
                    None => None,
                },
            ),
    {
        let gcs = chars_of(greeting);
        let trimmed = trim_chars(gcs.as_slice());
        let banner = string_from_chars(trimmed.as_slice());
        let server_info: Option<String> = if str_contains(banner.as_str(), "FTP server")
            || str_contains(banner.as_str(), "vsFTPd") || str_contains(banner.as_str(), "ProFTPD") {
            Some(banner.clone())
        } else {
            None
        };
        let mut additional_info: Vec<String> = Vec::new();
        match help {
            Some(h) => {
                let hcs = chars_of(h);
                let htrim = trim_chars(hcs.as_slice());
                let hstr = string_from_chars(htrim.as_slice());
                additional_info.push(String::from_str("HELP: ").concat(hstr.as_str()));
            },
            None => {},
        }
        let b = BannerInfo {
            protocol: String::from_str("FTP"),
            banner,
            server_info,
            version: None,
            additional_info,
        };
        assert(b@.additional_info =~= spec_interpret_ftp(
            greeting@,
            match help {
                Some(h) => Some(h@),
                None => None,
            },
        ).additional_info);
        assert(b@ =~= spec_interpret_ftp(
            greeting@,
            match help {
                Some(h) => Some(h@),
                None => None,
            },
        ));
        b
    }

    /// Interprets the SMTP greeting the probe read, and the response to
    /// the opportunistic `EHLO` if one came back: up to 5 lines are
    /// scanned for `250` capability replies.
    pub fn interpret_smtp_banner(&self, greeting: &str, ehlo: Option<&str>) -> (r: BannerInfo)
        ensures
            r@ == spec_interpret_smtp(
                greeting@,
                match ehlo {
                    Some(h) => Some(h@),
                    None => None,
                },
            ),
    {
        let gcs = chars_of(greeting);
        let trimmed = trim_chars(gcs.as_slice());
        let banner = string_from_chars(trimmed.as_slice());
        let server_info: Option<String> = if str_contains(banner.as_str(), "SMTP")
            || str_contains(banner.as_str(), "ESMTP") {
            Some(banner.clone())
        } else {
            None
        };
        let mut additional_info: Vec<String> = Vec::new();
        match ehlo {
            Some(h) => {
                let hcs = chars_of(h);
                let lines = split_lines(hcs.as_slice());
                let ghost lviews = split_lines_spec(h@);
                let upto: usize = if lines.len() < 5 {
                    lines.len()
                } else {
                    5
                };
                let mut i: usize = 0;
                assert(additional_info@.map_values(|s: String| s@) =~= smtp_caps_rec(lviews, 0));
                while i < upto
                    invariant
                        upto as int == smtp_scan_upto(lviews),
                        upto <= lines@.len(),
                        lviews == views_of(lines@),
                        i <= upto,
                        additional_info@.map_values(|s: String| s@) == smtp_caps_rec(
                            lviews,
                            i as int,
                        ),
                    decreases upto - i,
                {
                    let ghost add0 = additional_info@;
                    assert(lines@[i as int]@ == lviews[i as int]);
                    let line = &lines[i];
                    if str_contains(string_from_chars(line.as_slice()).as_str(), "250") && (
                    str_contains(string_from_chars(line.as_slice()).as_str(), "SIZE")
                        || str_contains(string_from_chars(line.as_slice()).as_str(), "AUTH")
                        || str_contains(string_from_chars(line.as_slice()).as_str(), "STARTTLS")) {
                        let trimmed_line = trim_chars(line.as_slice());
                        additional_info.push(string_from_chars(trimmed_line.as_slice()));
                        assert(additional_info@.map_values(|s: String| s@) =~= add0.map_values(
                            |s: String| s@,
                        ) + seq![trim_spec(lviews[i as int])]);
                    } else {
                        assert(additional_info@.map_values(|s: String| s@) =~= smtp_caps_rec(
                            lviews,
                            i + 1,
                        ));
                    }
                    i += 1;
                }
            },
            None => {},
        }
        let b = BannerInfo {
            protocol: String::from_str("SMTP"),
            banner,
            server_info,
            version: None,
            additional_info,
        };
        assert(b@.additional_info =~= spec_interpret_smtp(
            greeting@,
            match ehlo {
                Some(h) => Some(h@),
                None => None,
            },
        ).additional_info);
        assert(b@ =~= spec_interpret_smtp(
            greeting@,
            match ehlo {
                Some(h) => Some(h@),
                None => None,
            },
        ));
        b
    }

    /// Interprets what the generic fallback probe read: the trimmed text,
    /// classified by case-insensitive keyword search, `Unknown` when no
    /// keyword matches.
    pub fn interpret_generic_banner(&self, text: &str) -> (r: BannerInfo)
        ensures
            r@ == spec_interpret_generic(text@),
    {
        let cs = chars_of(text);
        let trimmed = trim_chars(cs.as_slice());
        let banner = string_from_chars(trimmed.as_slice());
        let protocol: String = if str_contains_ci(banner.as_str(), "http") {
            String::from_str("HTTP")
        } else if str_contains_ci(banner.as_str(), "ssh") {
            String::from_str("SSH")
        } else if str_contains_ci(banner.as_str(), "ftp") {
            String::from_str("FTP")
        } else if str_contains_ci(banner.as_str(), "smtp") {
            String::from_str("SMTP")
        } else if str_contains_ci(banner.as_str(), "telnet") {
            String::from_str("TELNET")
        } else {
            String::from_str("Unknown")
        };
        let b = BannerInfo {
            protocol,
            banner,
            server_info: None,
            version: None,
            additional_info: Vec::new(),
        };
        assert(b@.additional_info =~= Seq::<Seq<char>>::empty());
        assert(b@ =~= spec_interpret_generic(text@));
        b
    }
}

/// The characters of `v` from index `from` on.
fn slice_from(v: &[char], from: usize) -> (r: Vec<char>)
    requires
        from <= v@.len(),
    ensures
        r@ == v@.subrange(from as int, v@.len() as int),
{
    let mut r: Vec<char> = Vec::new();
    let mut i: usize = from;
    assert(v@.subrange(from as int, from as int) =~= Seq::<char>::empty());
    while i < v.len()
        invariant
            from <= i <= v@.len(),
            r@ == v@.subrange(from as int, i as int),
        decreases v@.len() - i,
    {
        r.push(v[i]);
        assert(v@.subrange(from as int, i + 1 as int) =~= v@.subrange(from as int, i as int).push(
            v@[i as int],
        ));
        i += 1;
    }
    r
}

} // verus!
