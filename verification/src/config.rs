//! Broker configuration: ports, directories, skills and agent permissions,
//! with the defaults used inside the broker container. The values come from
//! the environment; reading it is left to the caller, which hands each
//! variable's value (or its absence) to [`BrokerConfig::from_env_values`].

use vstd::prelude::*;
use crate::strmap::{StrMap, pairs_insert};
use crate::text::{chars_of, dec, find_char, find_char_in, parse_uint, parse_uint_chars, push_str, push_u64, split,
    split_chars, string_of, trim, trim_chars};
use vstd::string::StringExecFns;

verus! {

/// Bind address: always `0.0.0.0` inside the container.
pub const BIND_ADDRESS: &'static str = "0.0.0.0";

pub const DEFAULT_PUB_PORT: u16 = 5555;

pub const DEFAULT_SUB_PORT: u16 = 5556;

pub const DEFAULT_CONTROL_PORT: u16 = 5557;

/// Default compaction interval: 24 hours, in seconds.
pub const DEFAULT_COMPACTION_INTERVAL_SECS: u64 = 86400;

/// Default data directory inside the broker container.
pub const DEFAULT_DATA_DIR: &'static str = "/data";

/// Default topology directory inside the broker container.
pub const DEFAULT_TOPOLOGY_DIR: &'static str = "/topology";

/// Broker configuration.
#[derive(Debug, Clone)]
pub struct BrokerConfig {
    pub_port: u16,
    sub_port: u16,
    control_port: u16,
    /// Data directory for WAL files and the stream registry.
    data_dir: String,
    /// Compaction interval in seconds.
    compaction_interval_secs: u64,
    /// Path of the skill definitions; skill routing is off without it.
    skills_path: Option<String>,
    /// Allowed skill names; none are allowed when empty.
    skills_allowlist: Vec<String>,
    /// Working directory of `wh` CLI commands.
    topology_dir: String,
    /// Agent name to whether it may edit the topology.
    agent_permissions: StrMap<bool>,
}

/// Whether two strings are equal ignoring ASCII case.
pub open spec fn ascii_lower(c: char) -> char {
    if 'A' <= c && c <= 'Z' {
        ((c as u32) + 32) as char
    } else {
        c
    }
}

pub open spec fn eq_ignore_ascii_case(a: Seq<char>, b: Seq<char>) -> bool {
    a.len() == b.len() && forall|i: int| 0 <= i < a.len() ==> ascii_lower(#[trigger] a[i]) == ascii_lower(b[i])
}

fn lower(c: char) -> (r: char)
    ensures
        r == ascii_lower(c),
{
    if 'A' <= c && c <= 'Z' {
        ((c as u32 + 32) as u8) as char
    } else {
        c
    }
}

fn eq_ignore_case(a: &[char], b: &str) -> (r: bool)
    ensures
        r == eq_ignore_ascii_case(a@, b@),
{
    let bv = chars_of(b);
    if a.len() != bv.len() {
        return false;
    }
    for i in 0..a.len()
        invariant
            bv@ == b@,
            a@.len() == b@.len(),
            forall|j: int| 0 <= j < i ==> ascii_lower(#[trigger] a@[j]) == ascii_lower(b@[j]),
    {
        if lower(a[i]) != lower(bv[i]) {
            return false;
        }
    }
    true
}

/// The entry of one comma-separated piece of the permissions value: a
/// trimmed, non-empty name before the first `:`, and whether the trimmed
/// rest is `true` in any ASCII case.
pub open spec fn permission_entry(piece: Seq<char>) -> Option<(Seq<char>, bool)> {
    let p = trim(piece);
    if p.len() == 0 {
        None
    } else {
        match find_char(p, ':') {
            None => None,
            Some(i) => {
                let name = trim(p.take(i));
                if name.len() == 0 {
                    None
                } else {
                    Some((name, eq_ignore_ascii_case(trim(p.skip(i + 1)), "true"@)))
                }
            },
        }
    }
}

/// The permissions map built from the pieces in order; a later entry for a
/// name replaces an earlier one.
pub open spec fn permissions_of(pieces: Seq<Seq<char>>) -> Seq<(Seq<char>, bool)>
    decreases pieces.len(),
{
    if pieces.len() == 0 {
        Seq::empty()
    } else {
        let m = permissions_of(pieces.drop_last());
        match permission_entry(pieces.last()) {
            Some((name, edit)) => pairs_insert(m, name, edit),
            None => m,
        }
    }
}

/// The pieces of a comma-separated list that survive trimming.
pub open spec fn allowlist_of(pieces: Seq<Seq<char>>) -> Seq<Seq<char>>
    decreases pieces.len(),
{
    if pieces.len() == 0 {
        Seq::empty()
    } else {
        let l = allowlist_of(pieces.drop_last());
        let t = trim(pieces.last());
        if t.len() == 0 {
            l
        } else {
            l.push(t)
        }
    }
}

fn permission_of_piece(piece: &Vec<char>) -> (r: Option<(String, bool)>)
    ensures
        match r {
            Some((n, e)) => permission_entry(piece@) == Some((n@, e)),
            None => permission_entry(piece@) is None,
        },
{
    let p = trim_chars(piece.as_slice());
    if p.len() == 0 {
        return None;
    }
    let i = match find_char_in(p.as_slice(), ':') {
        Some(i) => i,
        None => return None,
    };
    let mut head: Vec<char> = Vec::new();
    for k in 0..i
        invariant
            i < p@.len(),
            head@ == p@.take(k as int),
    {
        head.push(p[k]);
        assert(head@ =~= p@.take(k + 1));
    }
    let mut tail: Vec<char> = Vec::new();
    for k in i + 1..p.len()
        invariant
            i < p@.len(),
            tail@ == p@.subrange(i + 1, k as int),
    {
        tail.push(p[k]);
        assert(tail@ =~= p@.subrange(i + 1, k + 1));
    }
    assert(tail@ =~= p@.skip(i + 1));
    let name = trim_chars(head.as_slice());
    if name.len() == 0 {
        return None;
    }
    let perm = trim_chars(tail.as_slice());
    let edit = eq_ignore_case(perm.as_slice(), "true");
    Some((string_of(name.as_slice()), edit))
}

/// The parts of a value split at commas.
pub open spec fn comma_pieces(value: Seq<char>) -> Seq<Seq<char>> {
    split(value, ',')
}

/// The view of an optional string.
pub open spec fn opt_view(o: Option<String>) -> Option<Seq<char>> {
    match o {
        Some(s) => Some(s@),
        None => None,
    }
}

/// A port setting: the value when it parses as a `u16`, else the default.
pub open spec fn port_setting(value: Option<Seq<char>>, default: u16) -> u16 {
    match value {
        Some(v) => match parse_uint(v, 65535) {
            Some(n) => n as u16,
            None => default,
        },
        None => default,
    }
}

fn parse_port(value: Option<&str>, default: u16) -> (r: u16)
    ensures
        r == port_setting(match value {
            Some(v) => Some(v@),
            None => None,
        }, default),
{
    match value {
        Some(v) => {
            let cs = chars_of(v);
            match parse_uint_chars(cs.as_slice(), 65535) {
                Some(n) => n as u16,
                None => default,
            }
        },
        None => default,
    }
}

impl BrokerConfig {
    /// The agent permissions as pairs of name and flag, in name order.
    pub closed spec fn permissions_view(&self) -> Seq<(Seq<char>, bool)> {
        self.agent_permissions.flags()
    }

    pub closed spec fn data_dir_view(&self) -> Seq<char> {
        self.data_dir@
    }

    pub closed spec fn topology_dir_view(&self) -> Seq<char> {
        self.topology_dir@
    }

    pub closed spec fn allowlist_view(&self) -> Seq<Seq<char>> {
        self.skills_allowlist@.map_values(|s: String| s@)
    }

    pub closed spec fn skills_path_view(&self) -> Option<Seq<char>> {
        opt_view(self.skills_path)
    }

    pub closed spec fn ports(&self) -> (u16, u16, u16) {
        (self.pub_port, self.sub_port, self.control_port)
    }

    pub closed spec fn compaction_secs(&self) -> u64 {
        self.compaction_interval_secs
    }

    /// Parse the value of `WH_AGENT_PERMISSIONS`: comma-separated
    /// `agent_name:topology_edit` pairs such as `"donna:true,researcher:false"`.
    /// Names and flags are trimmed; a flag other than `true` (in any ASCII
    /// case) is false; pieces without a `:` or with an empty name are
    /// skipped.
    pub fn parse_agent_permissions(value: &str) -> (m: StrMap<bool>)
        ensures
            m.flags() == permissions_of(comma_pieces(value@)),
    {
        let cs = chars_of(value);
        let pieces = split_chars(cs.as_slice(), ',');
        let ghost ps = pieces@.map_values(|v: Vec<char>| v@);
        assert(ps == comma_pieces(value@));
        let mut m: StrMap<bool> = StrMap::new();
        assert(m.flags() =~= Seq::<(Seq<char>, bool)>::empty());
        for i in 0..pieces.len()
            invariant
                ps == pieces@.map_values(|v: Vec<char>| v@),
                m.flags() == permissions_of(ps.take(i as int)),
        {
            assert(ps.take(i + 1).drop_last() =~= ps.take(i as int));
            assert(ps.take(i + 1).last() == pieces@[i as int]@);
            match permission_of_piece(&pieces[i]) {
                Some((name, edit)) => m.insert_flag(name, edit),
                None => {},
            }
        }
        assert(ps.take(pieces@.len() as int) =~= ps);
        m
    }

    /// Parse the value of `WH_SKILLS_ALLOWLIST`: comma-separated names,
    /// trimmed, empty ones left out.
    pub fn parse_skills_allowlist(value: &str) -> (l: Vec<String>)
        ensures
            l@.map_values(|s: String| s@) == allowlist_of(comma_pieces(value@)),
    {
        let cs = chars_of(value);
        let pieces = split_chars(cs.as_slice(), ',');
        let ghost ps = pieces@.map_values(|v: Vec<char>| v@);
        assert(ps == comma_pieces(value@));
        let mut l: Vec<String> = Vec::new();
        for i in 0..pieces.len()
            invariant
                ps == pieces@.map_values(|v: Vec<char>| v@),
                l@.map_values(|s: String| s@) == allowlist_of(ps.take(i as int)),
        {
            assert(ps.take(i + 1).drop_last() =~= ps.take(i as int));
            assert(ps.take(i + 1).last() == pieces@[i as int]@);
            let t = trim_chars(pieces[i].as_slice());
            if t.len() > 0 {
                let ghost before = l@;
                let s = string_of(t.as_slice());
                l.push(s);
                assert(l@.map_values(|s: String| s@) =~= before.map_values(|s: String| s@).push(s@));
            }
        }
        assert(ps.take(pieces@.len() as int) =~= ps);
        l
    }

    /// The configuration from the values of the environment variables
    /// `WH_PUB_PORT`, `WH_SUB_PORT`, `WH_CONTROL_PORT`, `WH_DATA_DIR`,
    /// `WH_COMPACTION_INTERVAL_SECS`, `WH_SKILLS_PATH`,
    /// `WH_SKILLS_ALLOWLIST`, `WH_TOPOLOGY_DIR` and `WH_AGENT_PERMISSIONS`
    /// (`None` for an unset variable). Unparsable numbers fall back to the
    /// defaults.
    pub fn from_env_values(
        pub_port: Option<&str>,
        sub_port: Option<&str>,
        control_port: Option<&str>,
        data_dir: Option<String>,
        compaction_interval_secs: Option<&str>,
        skills_path: Option<String>,
        skills_allowlist: Option<&str>,
        topology_dir: Option<String>,
        agent_permissions: Option<&str>,
    ) -> (c: Self)
        ensures
            c.ports() == (
                port_setting(match pub_port { Some(v) => Some(v@), None => None }, DEFAULT_PUB_PORT),
                port_setting(match sub_port { Some(v) => Some(v@), None => None }, DEFAULT_SUB_PORT),
                port_setting(match control_port { Some(v) => Some(v@), None => None }, DEFAULT_CONTROL_PORT),
            ),
            c.data_dir_view() == match data_dir { Some(d) => d@, None => DEFAULT_DATA_DIR@ },
            c.compaction_secs() == match compaction_interval_secs {
                Some(v) => match parse_uint(v@, u64::MAX as nat) {
                    Some(n) => n as u64,
                    None => DEFAULT_COMPACTION_INTERVAL_SECS,
                },
                None => DEFAULT_COMPACTION_INTERVAL_SECS,
            },
            c.skills_path_view() == opt_view(skills_path),
            c.allowlist_view() == match skills_allowlist {
                Some(v) => allowlist_of(comma_pieces(v@)),
                None => Seq::empty(),
            },
            c.topology_dir_view() == match topology_dir { Some(d) => d@, None => DEFAULT_TOPOLOGY_DIR@ },
            c.permissions_view() == permissions_of(comma_pieces(match agent_permissions {
                Some(v) => v@,
                None => Seq::empty(),
            })),
    {
        let compaction = match compaction_interval_secs {
            Some(v) => {
                let cs = chars_of(v);
                match parse_uint_chars(cs.as_slice(), 0xffff_ffff_ffff_ffffu64) {
                    Some(n) => n,
                    None => DEFAULT_COMPACTION_INTERVAL_SECS,
                }
            },
            None => DEFAULT_COMPACTION_INTERVAL_SECS,
        };
        let allowlist = match skills_allowlist {
            Some(v) => Self::parse_skills_allowlist(v),
            None => {
                let l: Vec<String> = Vec::new();
                assert(l@.map_values(|s: String| s@) =~= Seq::<Seq<char>>::empty());
                l
            },
        };
        let perms = match agent_permissions {
            Some(v) => Self::parse_agent_permissions(v),
            None => Self::parse_agent_permissions(""),
        };
        proof {
            reveal_strlit("");
        }
        BrokerConfig {
            pub_port: parse_port(pub_port, DEFAULT_PUB_PORT),
            sub_port: parse_port(sub_port, DEFAULT_SUB_PORT),
            control_port: parse_port(control_port, DEFAULT_CONTROL_PORT),
            data_dir: match data_dir {
                Some(d) => d,
                None => String::from_str(DEFAULT_DATA_DIR),
            },
            compaction_interval_secs: compaction,
            skills_path,
            skills_allowlist: allowlist,
            topology_dir: match topology_dir {
                Some(d) => d,
                None => String::from_str(DEFAULT_TOPOLOGY_DIR),
            },
            agent_permissions: perms,
        }
    }

    /// A configuration with the given ports and data directory, the other
    /// settings at their defaults.
    pub fn with_ports_and_data_dir(pub_port: u16, sub_port: u16, control_port: u16, data_dir: String) -> (c: Self)
        ensures
            c.ports() == (pub_port, sub_port, control_port),
            c.data_dir_view() == data_dir@,
            c.compaction_secs() == DEFAULT_COMPACTION_INTERVAL_SECS,
            c.skills_path_view() is None,
            c.allowlist_view().len() == 0,
            c.topology_dir_view() == DEFAULT_TOPOLOGY_DIR@,
            c.permissions_view().len() == 0,
    {
        let l: Vec<String> = Vec::new();
        let m: StrMap<bool> = StrMap::new();
        assert(m.flags() =~= Seq::<(Seq<char>, bool)>::empty());
        BrokerConfig {
            pub_port,
            sub_port,
            control_port,
            data_dir,
            compaction_interval_secs: DEFAULT_COMPACTION_INTERVAL_SECS,
            skills_path: None,
            skills_allowlist: l,
            topology_dir: String::from_str(DEFAULT_TOPOLOGY_DIR),
            agent_permissions: m,
        }
    }

    /// A configuration with the given ports; the data directory is
    /// `wh_data_dir`, the value of the `WH_DATA_DIR` environment variable as
    /// the caller read it, or the default when it is unset.
    pub fn with_ports(pub_port: u16, sub_port: u16, control_port: u16, wh_data_dir: Option<String>) -> (c: Self)
        ensures
            c.ports() == (pub_port, sub_port, control_port),
            c.data_dir_view() == match wh_data_dir {
                Some(d) => d@,
                None => DEFAULT_DATA_DIR@,
            },
            c.compaction_secs() == DEFAULT_COMPACTION_INTERVAL_SECS,
            c.skills_path_view() is None,
            c.allowlist_view().len() == 0,
            c.topology_dir_view() == DEFAULT_TOPOLOGY_DIR@,
            c.permissions_view().len() == 0,
    {
        let data_dir = match wh_data_dir {
            Some(d) => d,
            None => String::from_str(DEFAULT_DATA_DIR),
        };
        Self::with_ports_and_data_dir(pub_port, sub_port, control_port, data_dir)
    }

    /// The bind address: always `0.0.0.0`.
    pub fn bind_address(&self) -> (s: &'static str)
        ensures
            s@ == BIND_ADDRESS@,
    {
        BIND_ADDRESS
    }

    fn endpoint(port: u16) -> (s: String)
        ensures
            s@ == "tcp://"@ + BIND_ADDRESS@ + ":"@ + dec(port as nat),
    {
        let mut s = String::new();
        push_str(&mut s, "tcp://");
        push_str(&mut s, BIND_ADDRESS);
        push_str(&mut s, ":");
        push_u64(&mut s, port as u64);
        assert(s@ =~= "tcp://"@ + BIND_ADDRESS@ + ":"@ + dec(port as nat));
        s
    }

    /// The PUB socket endpoint: `tcp://0.0.0.0:{port}`.
    pub fn pub_endpoint(&self) -> (s: String)
        ensures
            s@ == "tcp://"@ + BIND_ADDRESS@ + ":"@ + dec(self.ports().0 as nat),
    {
        Self::endpoint(self.pub_port)
    }

    /// The SUB socket endpoint: `tcp://0.0.0.0:{port}`.
    pub fn sub_endpoint(&self) -> (s: String)
        ensures
            s@ == "tcp://"@ + BIND_ADDRESS@ + ":"@ + dec(self.ports().1 as nat),
    {
        Self::endpoint(self.sub_port)
    }

    /// The control socket endpoint: `tcp://0.0.0.0:{port}`.
    pub fn control_endpoint(&self) -> (s: String)
        ensures
            s@ == "tcp://"@ + BIND_ADDRESS@ + ":"@ + dec(self.ports().2 as nat),
    {
        Self::endpoint(self.control_port)
    }

    pub fn pub_port(&self) -> (p: u16)
        ensures
            p == self.ports().0,
    {
        self.pub_port
    }

    pub fn sub_port(&self) -> (p: u16)
        ensures
            p == self.ports().1,
    {
        self.sub_port
    }

    pub fn control_port(&self) -> (p: u16)
        ensures
            p == self.ports().2,
    {
        self.control_port
    }

    /// Data directory for WAL files and the stream registry.
    pub fn data_dir(&self) -> (d: &str)
        ensures
            d@ == self.data_dir_view(),
    {
        self.data_dir.as_str()
    }

    /// Compaction interval in seconds.
    pub fn compaction_interval_secs(&self) -> (s: u64)
        ensures
            s == self.compaction_secs(),
    {
        self.compaction_interval_secs
    }

    /// Path of the skill definitions, if configured.
    pub fn skills_path(&self) -> (p: Option<&str>)
        ensures
            match p {
                Some(s) => self.skills_path_view() == Some(s@),
                None => self.skills_path_view() is None,
            },
    {
        match &self.skills_path {
            Some(s) => Some(s.as_str()),
            None => None,
        }
    }

    /// Allowed skill names.
    pub fn skills_allowlist(&self) -> (l: &[String])
        ensures
            l@.map_values(|s: String| s@) == self.allowlist_view(),
    {
        self.skills_allowlist.as_slice()
    }

    /// Working directory of `wh` CLI commands.
    pub fn topology_dir(&self) -> (d: &str)
        ensures
            d@ == self.topology_dir_view(),
    {
        self.topology_dir.as_str()
    }

    /// Agent permissions: agent name to whether it may edit the topology.
    pub fn agent_permissions(&self) -> (m: &StrMap<bool>)
        ensures
            m.flags() == self.permissions_view(),
    {
        &self.agent_permissions
    }
}

impl Default for BrokerConfig {
    fn default() -> (c: Self)
        ensures
            c.ports() == (DEFAULT_PUB_PORT, DEFAULT_SUB_PORT, DEFAULT_CONTROL_PORT),
            c.data_dir_view() == DEFAULT_DATA_DIR@,
            c.compaction_secs() == DEFAULT_COMPACTION_INTERVAL_SECS,
            c.skills_path_view() is None,
            c.allowlist_view().len() == 0,
            c.topology_dir_view() == DEFAULT_TOPOLOGY_DIR@,
            c.permissions_view().len() == 0,
    {
        Self::with_ports(DEFAULT_PUB_PORT, DEFAULT_SUB_PORT, DEFAULT_CONTROL_PORT, None)
    }
}

} // verus!
