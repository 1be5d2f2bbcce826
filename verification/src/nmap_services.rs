//! The port→service-name reference table: parsing of its line-oriented
//! format and the lookup the classifier consults.
//!
//! Reading the table file from disk happens outside this crate; the parsing
//! of its lines and the lookup are verified here.

use vstd::prelude::*;

use crate::text::{
    chars_of, eq_chars, lower_seq, parse_u16_chars, spec_parse_u16, split_char_spec, split_on,
    split_whitespace, split_ws_spec, to_lower_chars, trim_chars, trim_spec, views_of,
};

verus! {

/// What one line of the service-table file contributes: a `(port, name)`
/// pair for a well-formed `tcp` data line, nothing for comments, blank
/// lines, non-`tcp` lines and malformed lines.
pub open spec fn spec_parse_service_line(line: Seq<char>) -> Option<(u16, Seq<char>)> {
    if line.len() > 0 && line[0] == '#' {
        None
    } else if trim_spec(line).len() == 0 {
        None
    } else {
        let fields = split_ws_spec(line);
        if fields.len() < 2 {
            None
        } else {
            let pp = split_char_spec(fields[1], '/');
            if pp.len() != 2 {
                None
            } else if lower_seq(pp[1]) != "tcp"@ {
                None
            } else if spec_parse_u16(pp[0]) is None {
                None
            } else {
                Some((spec_parse_u16(pp[0]).unwrap(), fields[0]))
            }
        }
    }
}

/// Parses one line of the service-table file: the first whitespace field is
/// the service name, the second must be `<port>/<proto>`, and only `tcp`
/// entries with a well-formed 16-bit port are kept.
pub fn parse_service_line(line: &str) -> (r: Option<(u16, String)>)
    ensures
        match (r, spec_parse_service_line(line@)) {
            (Some(p), Some(q)) => p.0 == q.0 && p.1@ == q.1,
            (None, None) => true,
            _ => false,
        },
{
    let cs = chars_of(line);
    if cs.len() > 0 && cs[0] == '#' {
        return None;
    }
    let trimmed = trim_chars(cs.as_slice());
    if trimmed.len() == 0 {
        return None;
    }
    let fields = split_whitespace(cs.as_slice());
    if fields.len() < 2 {
        return None;
    }
    assert(fields@[0]@ == views_of(fields@)[0] && fields@[1]@ == views_of(fields@)[1]);
    let pp = split_on(fields[1].as_slice(), '/');
    if pp.len() != 2 {
        return None;
    }
    assert(pp@[0]@ == views_of(pp@)[0] && pp@[1]@ == views_of(pp@)[1]);
    let proto_lower = to_lower_chars(pp[1].as_slice());
    let tcp = chars_of("tcp");
    if !eq_chars(proto_lower.as_slice(), tcp.as_slice()) {
        return None;
    }
    let port = match parse_u16_chars(pp[0].as_slice()) {
        Some(v) => v,
        None => {
            return None;
        },
    };
    let name = crate::text::string_from_chars(fields[0].as_slice());
    Some((port, name))
}

/// The static port→service-name table, immutable once loaded. Later lines
/// of the file override earlier ones for the same port.
pub struct ServiceTable {
    entries: Vec<(u16, String)>,
}

/// The mapping a list of entries denotes; a later entry overrides an
/// earlier one with the same port.
pub open spec fn entries_map(es: Seq<(u16, String)>) -> Map<u16, Seq<char>>
    decreases es.len(),
{
    if es.len() == 0 {
        Map::empty()
    } else {
        entries_map(es.drop_last()).insert(es.last().0, es.last().1@)
    }
}

/// Membership and value of `entries_map`: the port is present exactly when
/// some entry carries it, and the value comes from the latest such entry.
pub proof fn lemma_entries_map_at(es: Seq<(u16, String)>, p: u16)
    ensures
        entries_map(es).contains_key(p) <==> exists|i: int|
            0 <= i < es.len() && (#[trigger] es[i]).0 == p,
        forall|i: int|
            0 <= i < es.len() && (#[trigger] es[i]).0 == p && (forall|j: int|
                i < j < es.len() ==> (#[trigger] es[j]).0 != p) ==> entries_map(es).contains_key(p)
                && entries_map(es)[p] == es[i].1@,
    decreases es.len(),
{
    if es.len() > 0 {
        lemma_entries_map_at(es.drop_last(), p);
        assert forall|i: int|
            0 <= i < es.len() && (#[trigger] es[i]).0 == p && (forall|j: int|
                i < j < es.len() ==> (#[trigger] es[j]).0 != p) implies entries_map(
            es,
        ).contains_key(p) && entries_map(es)[p] == es[i].1@ by {
            if i < es.len() - 1 {
                assert(es.last().0 != p);
                assert(es.drop_last()[i] == es[i]);
                assert(forall|j: int|
                    i < j < es.len() - 1 ==> (#[trigger] es.drop_last()[j]).0 != p);
            }
        }
        if entries_map(es).contains_key(p) {
            if es.last().0 == p {
                assert(es[es.len() - 1].0 == p);
            } else {
                assert(entries_map(es.drop_last()).contains_key(p));
                let i = choose|i: int|
                    0 <= i < es.len() - 1 && (#[trigger] es.drop_last()[i]).0 == p;
                assert(es[i].0 == p);
            }
        }
        if exists|i: int| 0 <= i < es.len() && (#[trigger] es[i]).0 == p {
            let i = choose|i: int| 0 <= i < es.len() && (#[trigger] es[i]).0 == p;
            if i == es.len() - 1 {
                assert(entries_map(es).contains_key(p));
            } else {
                assert(es.drop_last()[i] == es[i]);
                assert(entries_map(es.drop_last()).contains_key(p));
            }
        }
    }
}

impl View for ServiceTable {
    type V = Map<u16, Seq<char>>;

    closed spec fn view(&self) -> Map<u16, Seq<char>> {
        entries_map(self.entries@)
    }
}

impl ServiceTable {
    /// An empty table.
    pub fn new() -> (t: ServiceTable)
        ensures
            t@ == Map::<u16, Seq<char>>::empty(),
    {
        ServiceTable { entries: Vec::new() }
    }

    /// Adds an entry; it overrides any earlier entry for the same port.
    pub fn add(&mut self, port: u16, name: String)
        ensures
            final(self)@ == old(self)@.insert(port, name@),
    {
        let ghost es0 = self.entries@;
        self.entries.push((port, name));
        proof {
            assert(self.entries@.drop_last() =~= es0);
        }
    }

    /// The service name stored for `port`, if any.
    pub fn lookup(&self, port: u16) -> (r: Option<&String>)
        ensures
            match r {
                Some(name) => self@.contains_key(port) && name@ == self@[port],
                None => !self@.contains_key(port),
            },
    {
        let n = self.entries.len();
        let mut i: usize = n;
        while i > 0
            invariant
                n == self.entries@.len(),
                i <= n,
                forall|j: int| i <= j < n ==> (#[trigger] self.entries@[j]).0 != port,
            decreases i,
        {
            i -= 1;
            let hit = self.entries[i].0 == port;
            if hit {
                proof {
                    lemma_entries_map_at(self.entries@, port);
                }
                return Some(&self.entries[i].1);
            }
        }
        proof {
            lemma_entries_map_at(self.entries@, port);
        }
        None
    }
}

/// The table a sequence of file lines denotes.
pub open spec fn table_of_lines(lines: Seq<Seq<char>>) -> Map<u16, Seq<char>>
    decreases lines.len(),
{
    if lines.len() == 0 {
        Map::empty()
    } else {
        let m = table_of_lines(lines.drop_last());
        match spec_parse_service_line(lines.last()) {
            Some(e) => m.insert(e.0, e.1),
            None => m,
        }
    }
}

/// Builds the service table from the lines of the table file; malformed
/// lines are skipped, never fatal.
pub fn load_nmap_services(lines: &Vec<String>) -> (t: ServiceTable)
    ensures
        t@ == table_of_lines(lines@.map_values(|l: String| l@)),
{
    let mut t = ServiceTable::new();
    let mut i: usize = 0;
    let ghost lviews = lines@.map_values(|l: String| l@);
    assert(lviews.subrange(0, 0) =~= Seq::<Seq<char>>::empty());
    while i < lines.len()
        invariant
            i <= lines@.len(),
            lviews == lines@.map_values(|l: String| l@),
            t@ == table_of_lines(lviews.subrange(0, i as int)),
        decreases lines@.len() - i,
    {
        let ghost pref1 = lviews.subrange(0, i + 1 as int);
        assert(pref1.drop_last() =~= lviews.subrange(0, i as int));
        assert(pref1.last() == lines@[i as int]@);
        match parse_service_line(lines[i].as_str()) {
            Some(e) => {
                t.add(e.0, e.1);
            },
            None => {},
        }
        i += 1;
    }
    assert(lviews.subrange(0, lviews.len() as int) =~= lviews);
    t
}

/// The name the table gives a `(port, protocol)` pair: its entry for the
/// port when the protocol, lower-cased, is `tcp` and the port is present,
/// `Unknown` otherwise.
pub open spec fn spec_get_service(m: Map<u16, Seq<char>>, port: u16, protocol: Seq<char>) -> Seq<
    char,
> {
    if lower_seq(protocol) == "tcp"@ && m.contains_key(port) {
        m[port]
    } else {
        "Unknown"@
    }
}

/// Looks a port up in the service table; anything but a known `tcp` entry
/// resolves to `Unknown`.
pub fn get_service(port: u16, protocol: &str, services: &ServiceTable) -> (r: String)
    ensures
        r@ == spec_get_service(services@, port, protocol@),
{
    let pcs = chars_of(protocol);
    let plower = to_lower_chars(pcs.as_slice());
    let tcp = chars_of("tcp");
    if eq_chars(plower.as_slice(), tcp.as_slice()) {
        match services.lookup(port) {
            Some(name) => {
                return name.clone();
            },
            None => {
                return String::from_str("Unknown");
            },
        }
    }
    String::from_str("Unknown")
}

} // verus!
