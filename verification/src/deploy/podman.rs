//! Podman container naming and command lines for a topology, and the plan of
//! container operations that applying a list of changes calls for.
//!
//! Running `podman` is left to the caller: this module decides what to run.

use vstd::prelude::*;
use crate::deploy::{Agent, BrokerSpec, Change, Stream, Surface, SurfaceChatConfig, SurfaceThreadConfig, VolumeMount};
use crate::strmap::pair_views;
use crate::text::{chars_of, join, join_strings, json_quote, push_char, push_json_str, push_str, push_u64, dec, str_eq, string_of, string_views};
use vstd::string::StringExecFns;

verus! {

/// Broker endpoint for containers on the topology network.
pub const BROKER_DNS_URL: &'static str = "tcp://wh-broker:5555";

/// Fixed container name of the broker.
pub const BROKER_CONTAINER_NAME: &'static str = "wh-broker";

/// Default broker container image.
pub const BROKER_IMAGE: &'static str = "ghcr.io/wheelhouse-paris/wh-broker:latest";

/// Broker endpoint for host-side processes.
pub const HOST_BROKER_URL: &'static str = "tcp://127.0.0.1:5555";

/// Path of the chat routing file inside a surface container.
pub const ROUTING_FILE_CONTAINER_PATH: &'static str = "/etc/wh/telegram-routing.json";

/// Whether `c` is an ASCII letter or digit.
pub open spec fn is_ascii_alnum(c: char) -> bool {
    ('a' <= c && c <= 'z') || ('A' <= c && c <= 'Z') || ('0' <= c && c <= '9')
}

/// `c`, or `-` for a character not allowed in a container name.
pub open spec fn name_char(c: char) -> char {
    if is_ascii_alnum(c) || c == '-' {
        c
    } else {
        '-'
    }
}

/// Runs of dashes collapsed into one.
pub open spec fn collapse_dashes(s: Seq<char>) -> Seq<char>
    decreases s.len(),
{
    if s.len() == 0 {
        s
    } else {
        let c = collapse_dashes(s.drop_last());
        if s.last() == '-' && c.len() > 0 && c.last() == '-' {
            c
        } else {
            c.push(s.last())
        }
    }
}

/// `s` without its leading dashes.
pub open spec fn trim_dashes_front(s: Seq<char>) -> Seq<char>
    decreases s.len(),
{
    if s.len() > 0 && s[0] == '-' {
        trim_dashes_front(s.drop_first())
    } else {
        s
    }
}

/// `s` without its trailing dashes.
pub open spec fn trim_dashes_back(s: Seq<char>) -> Seq<char>
    decreases s.len(),
{
    if s.len() > 0 && s.last() == '-' {
        trim_dashes_back(s.drop_last())
    } else {
        s
    }
}

/// A name fit for a container: characters other than ASCII letters, digits
/// and `-` become `-`, runs of `-` become one, and `-` is trimmed from both
/// ends.
pub open spec fn sanitized(s: Seq<char>) -> Seq<char> {
    trim_dashes_back(trim_dashes_front(collapse_dashes(s.map_values(|c: char| name_char(c)))))
}

/// Whether no two dashes stand next to each other.
pub open spec fn no_double_dash(s: Seq<char>) -> bool {
    forall|i: int, j: int| 0 <= i && j == i + 1 && j < s.len() ==> !(#[trigger] s[i] == '-' && #[trigger] s[j] == '-')
}

/// Whether every character may stand in a container name.
pub open spec fn name_chars(s: Seq<char>) -> bool {
    forall|i: int| 0 <= i < s.len() ==> is_ascii_alnum(#[trigger] s[i]) || s[i] == '-'
}

proof fn lemma_collapse(s: Seq<char>)
    ensures
        no_double_dash(collapse_dashes(s)),
        name_chars(s) ==> name_chars(collapse_dashes(s)),
        no_double_dash(s) ==> collapse_dashes(s) == s,
        s.len() > 0 ==> collapse_dashes(s).len() > 0 && collapse_dashes(s).last() == s.last(),
    decreases s.len(),
{
    if s.len() > 0 {
        let d = s.drop_last();
        lemma_collapse(d);
        let c = collapse_dashes(d);
        if name_chars(s) {
            assert forall|i: int| 0 <= i < d.len() implies is_ascii_alnum(#[trigger] d[i]) || d[i] == '-' by {
                assert(d[i] == s[i]);
            }
        }
        if no_double_dash(s) {
            assert forall|i: int, j: int| 0 <= i && j == i + 1 && j < d.len() implies !(#[trigger] d[i] == '-' && #[trigger] d[j] == '-') by {
                assert(d[i] == s[i] && d[j] == s[j]);
            }
            if d.len() > 0 {
                assert(c.last() == s[s.len() - 2]);
                assert(!(s[s.len() - 2] == '-' && s[s.len() - 1] == '-'));
            }
            assert(s =~= d.push(s.last()));
        }
        if !(s.last() == '-' && c.len() > 0 && c.last() == '-') {
            let r = c.push(s.last());
            assert forall|i: int, j: int| 0 <= i && j == i + 1 && j < r.len() implies !(#[trigger] r[i] == '-' && #[trigger] r[j] == '-') by {
                if j < c.len() {
                    assert(r[i] == c[i] && r[j] == c[j]);
                } else {
                    assert(r[i] == c.last());
                }
            }
            if name_chars(s) {
                assert forall|i: int| 0 <= i < r.len() implies is_ascii_alnum(#[trigger] r[i]) || r[i] == '-' by {
                    if i < c.len() {
                        assert(r[i] == c[i]);
                    } else {
                        assert(r[i] == s[s.len() - 1]);
                    }
                }
            }
        }
    }
}

proof fn lemma_trim_front(s: Seq<char>)
    ensures
        trim_dashes_front(s).len() <= s.len(),
        forall|i: int| 0 <= i < trim_dashes_front(s).len() ==> #[trigger] trim_dashes_front(s)[i] == s[i + s.len() - trim_dashes_front(s).len()],
        trim_dashes_front(s).len() == 0 || trim_dashes_front(s)[0] != '-',
    decreases s.len(),
{
    if s.len() > 0 && s[0] == '-' {
        lemma_trim_front(s.drop_first());
    }
}

proof fn lemma_trim_back(s: Seq<char>)
    ensures
        trim_dashes_back(s).len() <= s.len(),
        forall|i: int| 0 <= i < trim_dashes_back(s).len() ==> #[trigger] trim_dashes_back(s)[i] == s[i],
        trim_dashes_back(s).len() == 0 || trim_dashes_back(s).last() != '-',
    decreases s.len(),
{
    if s.len() > 0 && s.last() == '-' {
        lemma_trim_back(s.drop_last());
    }
}

/// A sanitized name is its own sanitized form, and holds no two dashes in
/// a row, no dash at either end, and only ASCII letters, digits and dashes.
pub proof fn law_sanitized_idempotent(s: Seq<char>)
    ensures
        sanitized(sanitized(s)) == sanitized(s),
        no_double_dash(sanitized(s)),
        name_chars(sanitized(s)),
        sanitized(s).len() == 0 || (sanitized(s)[0] != '-' && sanitized(s).last() != '-'),
{
    let m = s.map_values(|c: char| name_char(c));
    assert(name_chars(m)) by {
        assert forall|i: int| 0 <= i < m.len() implies is_ascii_alnum(#[trigger] m[i]) || m[i] == '-' by {
            assert(m[i] == name_char(s[i]));
        }
    }
    lemma_collapse(m);
    let c = collapse_dashes(m);
    lemma_trim_front(c);
    let f = trim_dashes_front(c);
    let k = c.len() - f.len();
    assert forall|i: int, j: int| 0 <= i && j == i + 1 && j < f.len() implies !(#[trigger] f[i] == '-' && #[trigger] f[j] == '-') by {
        assert(f[i] == c[i + k] && f[j] == c[j + k]);
    }
    assert forall|i: int| 0 <= i < f.len() implies is_ascii_alnum(#[trigger] f[i]) || f[i] == '-' by {
        assert(f[i] == c[i + k]);
    }
    lemma_trim_back(f);
    let t = trim_dashes_back(f);
    assert(t == sanitized(s));
    assert forall|i: int, j: int| 0 <= i && j == i + 1 && j < t.len() implies !(#[trigger] t[i] == '-' && #[trigger] t[j] == '-') by {
        assert(t[i] == f[i] && t[j] == f[j]);
    }
    assert forall|i: int| 0 <= i < t.len() implies is_ascii_alnum(#[trigger] t[i]) || t[i] == '-' by {
        assert(t[i] == f[i]);
    }
    if t.len() > 0 {
        assert(t[0] == f[0]);
    }
    let m2 = t.map_values(|c: char| name_char(c));
    assert(m2 =~= t) by {
        assert forall|i: int| 0 <= i < t.len() implies m2[i] == t[i] by {
            assert(is_ascii_alnum(t[i]) || t[i] == '-');
        }
    }
    lemma_collapse(t);
    assert(trim_dashes_front(t) == t);
    assert(trim_dashes_back(t) == t);
}

/// Sanitize a string for use in a container name.
pub fn sanitize_name(name: &str) -> (r: String)
    ensures
        r@ == sanitized(name@),
{
    let v = chars_of(name);
    let ghost mapped = name@.map_values(|c: char| name_char(c));
    let mut w: Vec<char> = Vec::new();
    for i in 0..v.len()
        invariant
            v@ == name@,
            mapped == name@.map_values(|c: char| name_char(c)),
            w@ == collapse_dashes(mapped.take(i as int)),
    {
        let c = v[i];
        let d = if ('a' <= c && c <= 'z') || ('A' <= c && c <= 'Z') || ('0' <= c && c <= '9') || c == '-' {
            c
        } else {
            '-'
        };
        assert(mapped.take(i + 1).drop_last() =~= mapped.take(i as int));
        assert(mapped.take(i + 1).last() == d);
        if !(d == '-' && w.len() > 0 && w[w.len() - 1] == '-') {
            w.push(d);
        }
    }
    assert(mapped.take(v@.len() as int) =~= mapped);
    let n = w.len();
    let mut lo: usize = 0;
    assert(w@.subrange(0, n as int) =~= w@);
    while lo < n && w[lo] == '-'
        invariant
            lo <= n,
            n == w@.len(),
            trim_dashes_front(w@.subrange(lo as int, n as int)) == trim_dashes_front(w@),
        decreases n - lo,
    {
        assert(w@.subrange(lo as int, n as int).drop_first() =~= w@.subrange(lo + 1, n as int));
        lo = lo + 1;
    }
    let ghost front = w@.subrange(lo as int, n as int);
    assert(trim_dashes_front(front) == front);
    let mut hi: usize = n;
    while hi > lo && w[hi - 1] == '-'
        invariant
            lo <= hi <= n,
            n == w@.len(),
            front == w@.subrange(lo as int, n as int),
            trim_dashes_back(w@.subrange(lo as int, hi as int)) == trim_dashes_back(front),
        decreases hi,
    {
        assert(w@.subrange(lo as int, hi as int).drop_last() =~= w@.subrange(lo as int, hi - 1));
        hi = hi - 1;
    }
    let mut out: Vec<char> = Vec::new();
    for k in lo..hi
        invariant
            lo <= hi <= n,
            n == w@.len(),
            out@ == w@.subrange(lo as int, k as int),
    {
        out.push(w[k]);
        assert(out@ =~= w@.subrange(lo as int, k + 1));
    }
    string_of(out.as_slice())
}

/// Appends `s` to a list of arguments.
fn push_arg(args: &mut Vec<String>, s: String)
    ensures
        string_views(final(args)@) == string_views(old(args)@).push(s@),
{
    let ghost o = args@;
    args.push(s);
    assert(string_views(args@) =~= string_views(o).push(s@));
}

/// Appends a literal argument.
fn push_lit(args: &mut Vec<String>, s: &str)
    ensures
        string_views(final(args)@) == string_views(old(args)@).push(s@),
{
    push_arg(args, String::from_str(s));
}

/// `a + b` as a string.
fn cat2(a: &str, b: &str) -> (r: String)
    ensures
        r@ == a@ + b@,
{
    let mut r = String::new();
    push_str(&mut r, a);
    push_str(&mut r, b);
    assert(r@ =~= a@ + b@);
    r
}

/// `a + b + c` as a string.
fn cat3(a: &str, b: &str, c: &str) -> (r: String)
    ensures
        r@ == a@ + b@ + c@,
{
    let mut r = String::new();
    push_str(&mut r, a);
    push_str(&mut r, b);
    push_str(&mut r, c);
    assert(r@ =~= a@ + b@ + c@);
    r
}

/// The network of a topology: `wh-<sanitized topology>`.
pub open spec fn network_name_spec(topology: Seq<char>) -> Seq<char> {
    "wh-"@ + sanitized(topology)
}

/// Build the Podman network name for a topology.
pub fn network_name(topology_name: &str) -> (r: String)
    ensures
        r@ == network_name_spec(topology_name@),
{
    let t = sanitize_name(topology_name);
    cat2("wh-", t.as_str())
}

/// The name of one of a topology's data volumes.
pub open spec fn volume_name(topology: Seq<char>, suffix: Seq<char>) -> Seq<char> {
    "wh-"@ + sanitized(topology) + "-"@ + suffix
}

fn volume_name_of(topology_name: &str, suffix: &str) -> (r: String)
    ensures
        r@ == volume_name(topology_name@, suffix@),
{
    let t = sanitize_name(topology_name);
    let mut r = cat3("wh-", t.as_str(), "-");
    push_str(&mut r, suffix);
    r
}

/// The suffixes of a topology's named data volumes, in order.
pub const VOLUME_SUFFIXES: [&'static str; 5] = ["wal", "users", "skills", "personas", "context"];

/// The named data volumes of a topology, in order: wal, users, skills,
/// personas, context.
pub open spec fn volume_names_spec(topology: Seq<char>) -> Seq<Seq<char>> {
    seq![
        volume_name(topology, "wal"@),
        volume_name(topology, "users"@),
        volume_name(topology, "skills"@),
        volume_name(topology, "personas"@),
        volume_name(topology, "context"@),
    ]
}

/// Build the named volume names for a topology.
pub fn volume_names(topology_name: &str) -> (r: Vec<String>)
    ensures
        string_views(r@) == volume_names_spec(topology_name@),
{
    let mut r: Vec<String> = Vec::new();
    push_arg(&mut r, volume_name_of(topology_name, "wal"));
    push_arg(&mut r, volume_name_of(topology_name, "users"));
    push_arg(&mut r, volume_name_of(topology_name, "skills"));
    push_arg(&mut r, volume_name_of(topology_name, "personas"));
    push_arg(&mut r, volume_name_of(topology_name, "context"));
    assert(string_views(r@) =~= volume_names_spec(topology_name@));
    r
}

/// The name of the platform volume of a topology.
pub fn platform_volume_name(topology_name: &str) -> (r: String)
    ensures
        r@ == volume_name(topology_name@, "platform"@),
{
    volume_name_of(topology_name, "platform")
}

/// The name of the personas volume of a topology.
pub fn personas_volume_name(topology_name: &str) -> (r: String)
    ensures
        r@ == volume_name(topology_name@, "personas"@),
{
    volume_name_of(topology_name, "personas")
}

/// The name of the context volume of a topology.
pub fn context_volume_name(topology_name: &str) -> (r: String)
    ensures
        r@ == volume_name(topology_name@, "context"@),
{
    volume_name_of(topology_name, "context")
}

/// The throwaway container that fills a volume: `wh-<purpose>-init-<topology>`.
pub fn helper_container_name(purpose: &str, topology_name: &str) -> (r: String)
    ensures
        r@ == "wh-"@ + purpose@ + "-init-"@ + sanitized(topology_name@),
{
    let t = sanitize_name(topology_name);
    let mut r = cat3("wh-", purpose, "-init-");
    push_str(&mut r, t.as_str());
    r
}

/// The container of an agent or surface: `wh-<topology>-<name>`, both sanitized.
pub open spec fn container_name_spec(topology: Seq<char>, name: Seq<char>) -> Seq<char> {
    "wh-"@ + sanitized(topology) + "-"@ + sanitized(name)
}

/// Build the deterministic container name for an agent.
pub fn container_name(topology_name: &str, agent_name: &str) -> (r: String)
    ensures
        r@ == container_name_spec(topology_name@, agent_name@),
{
    let t = sanitize_name(topology_name);
    let a = sanitize_name(agent_name);
    let mut r = cat3("wh-", t.as_str(), "-");
    push_str(&mut r, a.as_str());
    r
}

/// The image of a surface kind.
pub open spec fn surface_image_spec(kind: Seq<char>) -> Seq<char> {
    "ghcr.io/wheelhouse-paris/wh-"@ + kind + ":latest"@
}

/// Build the container image name for a surface kind.
pub fn surface_image(kind: &str) -> (r: String)
    ensures
        r@ == surface_image_spec(kind@),
{
    cat3("ghcr.io/wheelhouse-paris/wh-", kind, ":latest")
}

/// `-e KEY=VALUE` for each pair, in order.
pub open spec fn env_flags(pairs: Seq<(Seq<char>, Seq<char>)>) -> Seq<Seq<char>>
    decreases pairs.len(),
{
    if pairs.len() == 0 {
        Seq::empty()
    } else {
        env_flags(pairs.drop_last()) + seq!["-e"@, pairs.last().0 + "="@ + pairs.last().1]
    }
}

/// Appends `-e KEY=VALUE` for each pair.
fn push_env_flags(args: &mut Vec<String>, pairs: &[(String, String)])
    ensures
        string_views(final(args)@) == string_views(old(args)@) + env_flags(pair_views(pairs@)),
{
    let ghost o = string_views(args@);
    let ghost pv = pair_views(pairs@);
    for i in 0..pairs.len()
        invariant
            pv == pair_views(pairs@),
            string_views(args@) == o + env_flags(pv.take(i as int)),
    {
        assert(pv.take(i + 1).drop_last() =~= pv.take(i as int));
        push_lit(args, "-e");
        push_arg(args, cat3(pairs[i].0.as_str(), "=", pairs[i].1.as_str()));
        assert(string_views(args@) =~= o + env_flags(pv.take(i + 1)));
    }
    assert(pv.take(pairs@.len() as int) =~= pv);
}

/// The personas volume and path of an agent, when it has a persona.
pub open spec fn persona_flags(topology: Seq<char>, agent: Seq<char>, has_persona: bool) -> Seq<Seq<char>> {
    if has_persona {
        seq!["-v"@, volume_name(topology, "personas"@) + ":/personas"@, "-e"@, "WH_PERSONA_PATH=/personas/"@ + agent]
    } else {
        Seq::empty()
    }
}

/// The read-only context volume and its path, when wanted.
pub open spec fn context_flags(topology: Seq<char>, has_context: bool) -> Seq<Seq<char>> {
    if has_context {
        seq!["-v"@, volume_name(topology, "context"@) + ":/context:ro"@, "-e"@, "WH_CONTEXT_PATH=/context"@]
    } else {
        Seq::empty()
    }
}

/// `--network NAME` when a network is given.
pub open spec fn network_flags(network: Option<Seq<char>>) -> Seq<Seq<char>> {
    match network {
        Some(n) => seq!["--network"@, n],
        None => Seq::empty(),
    }
}

/// The leading arguments of an agent container: name, broker URL, agent
/// name and streams.
pub open spec fn run_base_args(topology: Seq<char>, agent: Seq<char>, streams: Seq<Seq<char>>, broker_url: Option<Seq<char>>) -> Seq<Seq<char>> {
    let url = match broker_url {
        Some(u) => u,
        None => BROKER_DNS_URL@,
    };
    seq![
        "run"@,
        "-d"@,
        "--name"@,
        container_name_spec(topology, agent),
        "-e"@,
        "WH_URL="@ + url,
        "-e"@,
        "WH_AGENT_NAME="@ + agent,
        "-e"@,
        "WH_STREAMS="@ + join(streams, ","@),
    ]
}

/// The `podman run` arguments of an agent container.
pub open spec fn run_args_spec(
    topology: Seq<char>,
    agent: Seq<char>,
    image: Seq<char>,
    streams: Seq<Seq<char>>,
    broker_url: Option<Seq<char>>,
    has_persona: bool,
    has_context: bool,
    extra_env: Seq<(Seq<char>, Seq<char>)>,
    network: Option<Seq<char>>,
) -> Seq<Seq<char>> {
    (run_base_args(topology, agent, streams, broker_url) + env_flags(extra_env) + persona_flags(topology, agent, has_persona)
        + context_flags(topology, has_context) + seq!["-v"@, volume_name(topology, "platform"@) + ":/etc/wh:ro"@]
        + network_flags(network)).push(image)
}

/// The view of an optional string slice.
pub open spec fn opt_str(o: Option<&str>) -> Option<Seq<char>> {
    match o {
        Some(s) => Some(s@),
        None => None,
    }
}

fn push_run_base(args: &mut Vec<String>, topology_name: &str, agent_name: &str, streams: &[String], broker_url: Option<&str>)
    ensures
        string_views(final(args)@) == string_views(old(args)@) + run_base_args(
            topology_name@,
            agent_name@,
            string_views(streams@),
            opt_str(broker_url),
        ),
{
    let ghost o = string_views(args@);
    push_lit(args, "run");
    push_lit(args, "-d");
    push_lit(args, "--name");
    push_arg(args, container_name(topology_name, agent_name));
    push_lit(args, "-e");
    let url = match broker_url {
        Some(u) => u,
        None => BROKER_DNS_URL,
    };
    push_arg(args, cat2("WH_URL=", url));
    push_lit(args, "-e");
    push_arg(args, cat2("WH_AGENT_NAME=", agent_name));
    push_lit(args, "-e");
    let csv = join_strings(streams, ",");
    push_arg(args, cat2("WH_STREAMS=", csv.as_str()));
    assert(string_views(args@) =~= o + run_base_args(topology_name@, agent_name@, string_views(streams@), opt_str(broker_url)));
}

fn push_persona_flags(args: &mut Vec<String>, topology_name: &str, agent_name: &str, has_persona: bool)
    ensures
        string_views(final(args)@) == string_views(old(args)@) + persona_flags(topology_name@, agent_name@, has_persona),
{
    let ghost o = string_views(args@);
    if has_persona {
        push_lit(args, "-v");
        let vol = volume_name_of(topology_name, "personas");
        push_arg(args, cat2(vol.as_str(), ":/personas"));
        push_lit(args, "-e");
        push_arg(args, cat2("WH_PERSONA_PATH=/personas/", agent_name));
    }
    assert(string_views(args@) =~= o + persona_flags(topology_name@, agent_name@, has_persona));
}

fn push_context_flags(args: &mut Vec<String>, topology_name: &str, has_context: bool)
    ensures
        string_views(final(args)@) == string_views(old(args)@) + context_flags(topology_name@, has_context),
{
    let ghost o = string_views(args@);
    if has_context {
        push_lit(args, "-v");
        let vol = volume_name_of(topology_name, "context");
        push_arg(args, cat2(vol.as_str(), ":/context:ro"));
        push_lit(args, "-e");
        push_lit(args, "WH_CONTEXT_PATH=/context");
    }
    assert(string_views(args@) =~= o + context_flags(topology_name@, has_context));
}

fn push_network_flags(args: &mut Vec<String>, network: Option<&str>)
    ensures
        string_views(final(args)@) == string_views(old(args)@) + network_flags(opt_str(network)),
{
    let ghost o = string_views(args@);
    if let Some(net) = network {
        push_lit(args, "--network");
        push_arg(args, String::from_str(net));
    }
    assert(string_views(args@) =~= o + network_flags(opt_str(network)));
}

/// Build the arguments of `podman run` for an agent container (without the
/// `podman` binary itself): name, broker URL, agent name and streams, the
/// extra environment, the personas volume and path when `has_persona`, the
/// read-only context volume when `has_context`, the read-only platform
/// volume, the network when given, and the image last.
pub fn build_run_args(
    topology_name: &str,
    agent_name: &str,
    image: &str,
    streams: &[String],
    broker_url: Option<&str>,
    has_persona: bool,
    has_context: bool,
    extra_env: &[(String, String)],
    network: Option<&str>,
) -> (r: Vec<String>)
    ensures
        string_views(r@) == run_args_spec(
            topology_name@,
            agent_name@,
            image@,
            string_views(streams@),
            opt_str(broker_url),
            has_persona,
            has_context,
            pair_views(extra_env@),
            opt_str(network),
        ),
{
    let mut args: Vec<String> = Vec::new();
    assert(string_views(args@) =~= Seq::<Seq<char>>::empty());
    push_run_base(&mut args, topology_name, agent_name, streams, broker_url);
    push_env_flags(&mut args, extra_env);
    push_persona_flags(&mut args, topology_name, agent_name, has_persona);
    push_context_flags(&mut args, topology_name, has_context);
    let ghost before_platform = string_views(args@);
    push_lit(&mut args, "-v");
    let pv = platform_volume_name(topology_name);
    push_arg(&mut args, cat2(pv.as_str(), ":/etc/wh:ro"));
    assert(string_views(args@) =~= before_platform + seq!["-v"@, volume_name(topology_name@, "platform"@) + ":/etc/wh:ro"@]);
    push_network_flags(&mut args, network);
    push_arg(&mut args, String::from_str(image));
    args
}

/// The persona path an agent container is told about.
pub open spec fn persona_path_arg(agent: Seq<char>) -> Seq<char> {
    "WH_PERSONA_PATH=/personas/"@ + agent
}

proof fn lemma_env_flags_shape(pairs: Seq<(Seq<char>, Seq<char>)>)
    ensures
        env_flags(pairs).len() == 2 * pairs.len(),
        forall|i: int| 0 <= i < env_flags(pairs).len() ==> #[trigger] env_flags(pairs)[i] != "--network"@,
    decreases pairs.len(),
{
    reveal_strlit("--network");
    reveal_strlit("-e");
    reveal_strlit("=");
    if pairs.len() > 0 {
        let d = env_flags(pairs.drop_last());
        lemma_env_flags_shape(pairs.drop_last());
        let kv = pairs.last().0 + "="@ + pairs.last().1;
        let e = env_flags(pairs);
        assert(e == d + seq!["-e"@, kv]);
        assert forall|i: int| 0 <= i < e.len() implies #[trigger] e[i] != "--network"@ by {
            if i < d.len() {
                assert(e[i] == d[i]);
            } else if i == d.len() {
                assert(e[i].len() == 2);
            } else {
                assert(e[i] == kv);
                let k = pairs.last().0.len() as int;
                if kv.len() == 9 {
                    assert(kv[k] == '=');
                    assert("--network"@[k] != '=');
                }
            }
        }
    }
}

/// The shape of an agent's `podman run` arguments: the ten leading
/// arguments (name, broker URL, agent name, streams), then the extra
/// environment, then the persona volume and path exactly when the agent has
/// a persona; `--network` followed by the network's name exactly when one
/// is given; and the image last.
pub proof fn law_run_args_layout(
    topology: Seq<char>,
    agent: Seq<char>,
    image: Seq<char>,
    streams: Seq<Seq<char>>,
    broker_url: Option<Seq<char>>,
    has_persona: bool,
    has_context: bool,
    extra_env: Seq<(Seq<char>, Seq<char>)>,
    network: Option<Seq<char>>,
)
    ensures
        ({
            let r = run_args_spec(topology, agent, image, streams, broker_url, has_persona, has_context, extra_env, network);
            let m: int = 2 * extra_env.len() as int;
            let url = match broker_url {
                Some(u) => u,
                None => BROKER_DNS_URL@,
            };
            &&& r.len() >= 13 + m
            &&& r[0] == "run"@ && r[1] == "-d"@ && r[2] == "--name"@
            &&& r[3] == container_name_spec(topology, agent)
            &&& r[4] == "-e"@ && r[5] == "WH_URL="@ + url
            &&& r[6] == "-e"@ && r[7] == "WH_AGENT_NAME="@ + agent
            &&& r[8] == "-e"@ && r[9] == "WH_STREAMS="@ + join(streams, ","@)
            &&& r.subrange(10, 10 + m) == env_flags(extra_env)
            &&& r.last() == image
            &&& has_persona ==> r[10 + m] == "-v"@ && r[11 + m] == volume_name(topology, "personas"@) + ":/personas"@
                && r[12 + m] == "-e"@ && r[13 + m] == persona_path_arg(agent)
            &&& !has_persona ==> forall|i: int|
                0 <= i < r.len() - 1 && !(10 <= i < 10 + m) && !(network is Some && i == r.len() - 2)
                    ==> #[trigger] r[i] != persona_path_arg(agent)
            &&& network matches Some(n) ==> r[r.len() - 3] == "--network"@ && r[r.len() - 2] == n
            &&& network is None ==> forall|i: int| 0 <= i < r.len() - 1 ==> #[trigger] r[i] != "--network"@
        }),
{
    reveal_strlit("run");
    reveal_strlit("-d");
    reveal_strlit("--name");
    reveal_strlit("-e");
    reveal_strlit("-v");
    reveal_strlit("--network");
    reveal_strlit("wh-");
    reveal_strlit("WH_URL=");
    reveal_strlit("WH_AGENT_NAME=");
    reveal_strlit("WH_STREAMS=");
    reveal_strlit("WH_PERSONA_PATH=/personas/");
    reveal_strlit("WH_CONTEXT_PATH=/context");
    lemma_env_flags_shape(extra_env);
    let base = run_base_args(topology, agent, streams, broker_url);
    let env = env_flags(extra_env);
    let pf = persona_flags(topology, agent, has_persona);
    let cf = context_flags(topology, has_context);
    let pl = seq!["-v"@, volume_name(topology, "platform"@) + ":/etc/wh:ro"@];
    let nf = network_flags(network);
    let body = base + env + pf + cf + pl + nf;
    let r = body.push(image);
    let m: int = 2 * extra_env.len() as int;
    assert(r == run_args_spec(topology, agent, image, streams, broker_url, has_persona, has_context, extra_env, network));
    assert(base.len() == 10);
    assert(r.subrange(10, 10 + m) =~= env);
    let pp = persona_path_arg(agent);
    // Every argument that starts with `wh-` differs from the flags and paths.
    assert forall|x: Seq<char>, y: Seq<char>| #![trigger "wh-"@ + x + y] ("wh-"@ + x + y)[0] == 'w' && ("wh-"@ + x + y).len() >= 3 by {}
    let c0 = 10 + m + pf.len();
    let p0 = c0 + cf.len();
    let n0 = p0 + 2;
    assert(r.len() == n0 + nf.len() + 1);
    if !has_persona {
        assert forall|i: int| 0 <= i < r.len() - 1 && !(10 <= i < 10 + m) && !(network is Some && i == r.len() - 2)
            implies #[trigger] r[i] != pp by {
            assert(pp.len() >= 26);
            if i < 10 {
                assert(r[i] == base[i]);
                if i == 3 {
                    assert(r[i][0] == 'w' && pp[0] == 'W');
                } else if i == 5 || i == 7 || i == 9 {
                    assert(r[i][3] != pp[3]);
                }
            } else if i < p0 {
                assert(r[i] == cf[i - c0]);
                if i == c0 + 1 {
                    assert(r[i][0] == 'w');
                } else if i == c0 + 3 {
                    assert(r[i][3] != pp[3]);
                }
            } else if i < n0 {
                assert(r[i] == pl[i - p0]);
                if i == p0 + 1 {
                    assert(r[i][0] == 'w');
                }
            } else {
                assert(r[i] == nf[i - n0]);
            }
        }
    }
    if network is None {
        assert("--network"@.len() == 9 && "--network"@[0] == '-');
        assert forall|i: int| 0 <= i < r.len() - 1 implies #[trigger] r[i] != "--network"@ by {
            if i < 10 {
                assert(r[i] == base[i]);
                if i == 3 || i == 5 || i == 7 || i == 9 {
                    assert(r[i][0] != '-');
                }
            } else if i < 10 + m {
                assert(r[i] == env[i - 10]);
            } else if i < c0 {
                assert(r[i] == pf[i - 10 - m]);
                if i == 11 + m {
                    assert(r[i][0] == 'w');
                } else if i == 13 + m {
                    assert(r[i][0] == 'W');
                }
            } else if i < p0 {
                assert(r[i] == cf[i - c0]);
                if i == c0 + 1 {
                    assert(r[i][0] == 'w');
                } else if i == c0 + 3 {
                    assert(r[i][0] == 'W');
                }
            } else {
                assert(r[i] == pl[i - p0]);
                if i == p0 + 1 {
                    assert(r[i][0] == 'w');
                }
            }
        }
    }
}

/// `-v name:mount`, with `:ro` added for a read-only mount, for each volume.
pub open spec fn mount_flags(vs: Seq<VolumeMount>) -> Seq<Seq<char>>
    decreases vs.len(),
{
    if vs.len() == 0 {
        Seq::empty()
    } else {
        let v = vs.last();
        let spec_str = v.name@ + ":"@ + v.mount@ + (if v.mount_mode is Some && v.mount_mode->0@ == "ro"@ {
            ":ro"@
        } else {
            Seq::empty()
        });
        mount_flags(vs.drop_last()) + seq!["-v"@, spec_str]
    }
}

/// Build the `-v` arguments for an agent's declared volumes: `name:mount`
/// for a read-write mount (the default), `name:mount:ro` for a read-only one.
pub fn build_volume_mount_args(volumes: &[VolumeMount]) -> (r: Vec<String>)
    ensures
        string_views(r@) == mount_flags(volumes@),
{
    let mut args: Vec<String> = Vec::new();
    for i in 0..volumes.len()
        invariant
            string_views(args@) == mount_flags(volumes@.take(i as int)),
    {
        assert(volumes@.take(i + 1).drop_last() =~= volumes@.take(i as int));
        let v = &volumes[i];
        let mut s = cat3(v.name.as_str(), ":", v.mount.as_str());
        let ro = match &v.mount_mode {
            Some(m) => str_eq(m.as_str(), "ro"),
            None => false,
        };
        if ro {
            push_str(&mut s, ":ro");
        } else {
            assert(s@ =~= s@ + Seq::<char>::empty());
        }
        push_lit(&mut args, "-v");
        push_arg(&mut args, s);
        assert(string_views(args@) =~= mount_flags(volumes@.take(i + 1)));
    }
    assert(volumes@.take(volumes@.len() as int) =~= volumes@);
    args
}

/// The JSON of a chat thread, as `serde_json` writes it.
pub open spec fn thread_json(t: SurfaceThreadConfig) -> Seq<char> {
    "{\"id\":"@ + json_quote(t.id@) + ",\"stream\":"@ + json_quote(t.stream@) + "}"@
}

/// The JSON of a chat entry; absent fields are left out.
pub open spec fn chat_json(c: SurfaceChatConfig) -> Seq<char> {
    "{\"id\":"@ + json_quote(c.id@) + (match c.stream {
        Some(s) => ",\"stream\":"@ + json_quote(s@),
        None => Seq::empty(),
    }) + (match c.threads {
        Some(ts) => ",\"threads\":["@ + join(ts@.map_values(|t: SurfaceThreadConfig| thread_json(t)), ","@) + "]"@,
        None => Seq::empty(),
    }) + "}"@
}

/// The JSON array of the chat entries.
pub open spec fn chats_json(cs: Seq<SurfaceChatConfig>) -> Seq<char> {
    "["@ + join(cs.map_values(|c: SurfaceChatConfig| chat_json(c)), ","@) + "]"@
}

fn push_thread_json(out: &mut String, t: &SurfaceThreadConfig)
    ensures
        final(out)@ == old(out)@ + thread_json(*t),
{
    let ghost o = out@;
    push_str(out, "{\"id\":");
    push_json_str(out, t.id.as_str());
    push_str(out, ",\"stream\":");
    push_json_str(out, t.stream.as_str());
    push_str(out, "}");
    assert(out@ =~= o + thread_json(*t));
}

fn push_chat_json(out: &mut String, c: &SurfaceChatConfig)
    ensures
        final(out)@ == old(out)@ + chat_json(*c),
{
    let ghost o = out@;
    push_str(out, "{\"id\":");
    push_json_str(out, c.id.as_str());
    let ghost after_id = out@;
    if let Some(s) = &c.stream {
        push_str(out, ",\"stream\":");
        push_json_str(out, s.as_str());
    }
    let ghost after_stream = out@;
    assert(after_stream =~= after_id + (match c.stream {
        Some(s) => ",\"stream\":"@ + json_quote(s@),
        None => Seq::<char>::empty(),
    }));
    if let Some(ts) = &c.threads {
        push_str(out, ",\"threads\":[");
        let ghost base = out@;
        let ghost js = ts@.map_values(|t: SurfaceThreadConfig| thread_json(t));
        for i in 0..ts.len()
            invariant
                js == ts@.map_values(|t: SurfaceThreadConfig| thread_json(t)),
                out@ == base + join(js.take(i as int), ","@),
        {
            assert(js.take(i + 1).drop_last() =~= js.take(i as int));
            if i > 0 {
                push_str(out, ",");
            }
            push_thread_json(out, &ts[i]);
            proof {
                if i == 0 {
                    assert(join(js.take(1), ","@) == js.take(1)[0]);
                }
            }
            assert(out@ =~= base + join(js.take(i + 1), ","@));
        }
        assert(js.take(ts@.len() as int) =~= js);
        push_str(out, "]");
    }
    let ghost after_threads = out@;
    assert(after_threads =~= after_stream + (match c.threads {
        Some(ts) => ",\"threads\":["@ + join(ts@.map_values(|t: SurfaceThreadConfig| thread_json(t)), ","@) + "]"@,
        None => Seq::<char>::empty(),
    }));
    push_str(out, "}");
    assert(out@ =~= o + chat_json(*c));
}

/// Appends the JSON array of the chat entries.
fn push_chats_json(out: &mut String, cs: &Vec<SurfaceChatConfig>)
    ensures
        final(out)@ == old(out)@ + chats_json(cs@),
{
    let ghost o = out@;
    push_str(out, "[");
    let ghost base = out@;
    let ghost js = cs@.map_values(|c: SurfaceChatConfig| chat_json(c));
    for i in 0..cs.len()
        invariant
            js == cs@.map_values(|c: SurfaceChatConfig| chat_json(c)),
            out@ == base + join(js.take(i as int), ","@),
    {
        assert(js.take(i + 1).drop_last() =~= js.take(i as int));
        if i > 0 {
            push_str(out, ",");
        }
        push_chat_json(out, &cs[i]);
        proof {
            if i == 0 {
                assert(join(js.take(1), ","@) == js.take(1)[0]);
            }
        }
        assert(out@ =~= base + join(js.take(i + 1), ","@));
    }
    assert(js.take(cs@.len() as int) =~= js);
    push_str(out, "]");
    assert(out@ =~= o + chats_json(cs@));
}

/// The flags for the caller's extra environment of a surface: the routing
/// file is bind-mounted read-only and its variable points at the mount.
pub open spec fn surface_extra_flags(pairs: Seq<(Seq<char>, Seq<char>)>) -> Seq<Seq<char>>
    decreases pairs.len(),
{
    if pairs.len() == 0 {
        Seq::empty()
    } else {
        let (k, v) = pairs.last();
        surface_extra_flags(pairs.drop_last()) + if k == "WH_TELEGRAM_ROUTING_FILE"@ {
            seq!["-v"@, v + ":"@ + ROUTING_FILE_CONTAINER_PATH@ + ":ro"@, "-e"@, k + "="@ + ROUTING_FILE_CONTAINER_PATH@]
        } else {
            seq!["-e"@, k + "="@ + v]
        }
    }
}

/// The `podman run` arguments of a surface container.
pub open spec fn surface_run_args_spec(topology: Seq<char>, s: Surface, extra_env: Seq<(Seq<char>, Seq<char>)>) -> Seq<Seq<char>> {
    let base = seq![
        "run"@,
        "-d"@,
        "--name"@,
        container_name_spec(topology, s.name@),
        "--network"@,
        network_name_spec(topology),
        "-v"@,
        volume_name(topology, "users"@) + ":/data/users"@,
        "-e"@,
        "WH_URL="@ + BROKER_DNS_URL@,
        "-e"@,
        "WH_SURFACE_NAME="@ + s.name@,
    ];
    let stream = if s.stream@.len() > 0 {
        seq!["-e"@, "WH_STREAM="@ + s.stream@]
    } else {
        Seq::empty()
    };
    let env = match s.env {
        Some(m) => env_flags(m.pairs()),
        None => Seq::empty(),
    };
    let chats = match s.chats {
        Some(cs) => seq!["-e"@, "WH_CHATS="@ + chats_json(cs@)],
        None => Seq::empty(),
    };
    (base + stream + surface_extra_flags(extra_env) + env + chats).push(surface_image_spec(s.kind@))
}

/// Build the arguments of `podman run` for a surface container: name,
/// network, the users volume, broker URL, surface name, its stream when not
/// empty, the extra environment (the routing file bind-mounted), the
/// surface's own environment in key order, the chat configuration as JSON,
/// and the image last.
#[verifier::rlimit(40)]
pub fn build_surface_run_args(topology_name: &str, surface: &Surface, extra_env: &[(String, String)]) -> (r: Vec<String>)
    ensures
        string_views(r@) == surface_run_args_spec(topology_name@, *surface, pair_views(extra_env@)),
{
    let mut args: Vec<String> = Vec::new();
    push_lit(&mut args, "run");
    push_lit(&mut args, "-d");
    push_lit(&mut args, "--name");
    push_arg(&mut args, container_name(topology_name, surface.name.as_str()));
    push_lit(&mut args, "--network");
    push_arg(&mut args, network_name(topology_name));
    push_lit(&mut args, "-v");
    let users = volume_name_of(topology_name, "users");
    push_arg(&mut args, cat2(users.as_str(), ":/data/users"));
    push_lit(&mut args, "-e");
    push_arg(&mut args, cat2("WH_URL=", BROKER_DNS_URL));
    push_lit(&mut args, "-e");
    push_arg(&mut args, cat2("WH_SURFACE_NAME=", surface.name.as_str()));
    let ghost base = string_views(args@);
    if !surface.stream.as_str().is_empty() {
        push_lit(&mut args, "-e");
        push_arg(&mut args, cat2("WH_STREAM=", surface.stream.as_str()));
    }
    let ghost with_stream = string_views(args@);
    assert(with_stream =~= base + (if surface.stream@.len() > 0 {
        seq!["-e"@, "WH_STREAM="@ + surface.stream@]
    } else {
        Seq::<Seq<char>>::empty()
    }));
    let ghost pv = pair_views(extra_env@);
    for i in 0..extra_env.len()
        invariant
            pv == pair_views(extra_env@),
            string_views(args@) == with_stream + surface_extra_flags(pv.take(i as int)),
    {
        assert(pv.take(i + 1).drop_last() =~= pv.take(i as int));
        let (key, value) = (&extra_env[i].0, &extra_env[i].1);
        if str_eq(key.as_str(), "WH_TELEGRAM_ROUTING_FILE") {
            push_lit(&mut args, "-v");
            let mut m = cat3(value.as_str(), ":", ROUTING_FILE_CONTAINER_PATH);
            push_str(&mut m, ":ro");
            push_arg(&mut args, m);
            push_lit(&mut args, "-e");
            push_arg(&mut args, cat3(key.as_str(), "=", ROUTING_FILE_CONTAINER_PATH));
        } else {
            push_lit(&mut args, "-e");
            push_arg(&mut args, cat3(key.as_str(), "=", value.as_str()));
        }
        assert(string_views(args@) =~= with_stream + surface_extra_flags(pv.take(i + 1)));
    }
    assert(pv.take(extra_env@.len() as int) =~= pv);
    let ghost with_extra = string_views(args@);
    if let Some(env) = &surface.env {
        push_env_flags(&mut args, env.as_slice());
    }
    let ghost with_env = string_views(args@);
    assert(with_env =~= with_extra + (match surface.env {
        Some(m) => env_flags(m.pairs()),
        None => Seq::<Seq<char>>::empty(),
    }));
    if let Some(chats) = &surface.chats {
        push_lit(&mut args, "-e");
        let mut j = String::from_str("WH_CHATS=");
        push_chats_json(&mut j, chats);
        push_arg(&mut args, j);
    }
    let ghost with_chats = string_views(args@);
    assert(with_chats =~= with_env + (match surface.chats {
        Some(cs) => seq!["-e"@, "WH_CHATS="@ + chats_json(cs@)],
        None => Seq::<Seq<char>>::empty(),
    }));
    push_arg(&mut args, surface_image(surface.kind.as_str()));
    assert(string_views(args@) =~= surface_run_args_spec(topology_name@, *surface, pv));
    args
}

/// Build command arguments for `podman stop`.
pub fn build_stop_args(container_name: &str) -> (r: Vec<String>)
    ensures
        string_views(r@) == seq!["stop"@, container_name@],
{
    let mut r: Vec<String> = Vec::new();
    push_lit(&mut r, "stop");
    push_arg(&mut r, String::from_str(container_name));
    r
}

/// Build command arguments for `podman rm -f`.
pub fn build_rm_args(container_name: &str) -> (r: Vec<String>)
    ensures
        string_views(r@) == seq!["rm"@, "-f"@, container_name@],
{
    let mut r: Vec<String> = Vec::new();
    push_lit(&mut r, "rm");
    push_lit(&mut r, "-f");
    push_arg(&mut r, String::from_str(container_name));
    r
}

/// Build command arguments for `podman ps --filter`.
pub fn build_ps_args(container_name: &str) -> (r: Vec<String>)
    ensures
        string_views(r@) == seq!["ps"@, "--filter"@, "name="@ + container_name@, "--format"@, "{{.Status}}"@],
{
    let mut r: Vec<String> = Vec::new();
    push_lit(&mut r, "ps");
    push_lit(&mut r, "--filter");
    push_arg(&mut r, cat2("name=", container_name));
    push_lit(&mut r, "--format");
    push_lit(&mut r, "{{.Status}}");
    r
}

/// The default port mappings of the broker container.
pub open spec fn default_broker_ports() -> Seq<Seq<char>> {
    seq!["127.0.0.1:5555:5555"@, "127.0.0.1:5556:5556"@, "127.0.0.1:5557:5557"@]
}

/// `-p PORT` for each port.
pub open spec fn port_flags(ports: Seq<Seq<char>>) -> Seq<Seq<char>>
    decreases ports.len(),
{
    if ports.len() == 0 {
        Seq::empty()
    } else {
        port_flags(ports.drop_last()) + seq!["-p"@, ports.last()]
    }
}

/// The `podman run` arguments of the broker container.
pub open spec fn broker_run_args_spec(topology: Seq<char>, broker: Option<BrokerSpec>) -> Seq<Seq<char>> {
    let ports = match broker {
        Some(b) => if b.ports@.len() > 0 {
            string_views(b.ports@)
        } else {
            default_broker_ports()
        },
        None => default_broker_ports(),
    };
    let image = match broker {
        Some(b) => b.image@,
        None => BROKER_IMAGE@,
    };
    seq!["run"@, "-d"@, "--name"@, BROKER_CONTAINER_NAME@, "--network"@, network_name_spec(topology)] + port_flags(ports)
        + seq!["-v"@, volume_name(topology, "wal"@) + ":/data"@, "-e"@, "WH_DATA_DIR=/data"@, image]
}

fn push_port_flags(args: &mut Vec<String>, ports: &Vec<String>)
    ensures
        string_views(final(args)@) == string_views(old(args)@) + port_flags(string_views(ports@)),
{
    let ghost o = string_views(args@);
    let ghost ps = string_views(ports@);
    for i in 0..ports.len()
        invariant
            ps == string_views(ports@),
            string_views(args@) == o + port_flags(ps.take(i as int)),
    {
        assert(ps.take(i + 1).drop_last() =~= ps.take(i as int));
        push_lit(args, "-p");
        push_arg(args, ports[i].clone());
        assert(string_views(args@) =~= o + port_flags(ps.take(i + 1)));
    }
    assert(ps.take(ports@.len() as int) =~= ps);
}

/// Build the arguments of `podman run` for the broker container: its fixed
/// name, the topology network, the topology's ports or the default ones,
/// the WAL volume at `/data`, and the topology's image or the default one.
pub fn build_broker_run_args(topology_name: &str, broker: Option<&BrokerSpec>) -> (r: Vec<String>)
    ensures
        string_views(r@) == broker_run_args_spec(topology_name@, match broker {
            Some(b) => Some(*b),
            None => None,
        }),
{
    let mut args: Vec<String> = Vec::new();
    push_lit(&mut args, "run");
    push_lit(&mut args, "-d");
    push_lit(&mut args, "--name");
    push_lit(&mut args, BROKER_CONTAINER_NAME);
    push_lit(&mut args, "--network");
    push_arg(&mut args, network_name(topology_name));
    let mut ports: Vec<String> = Vec::new();
    let custom = match broker {
        Some(b) => b.ports.len() > 0,
        None => false,
    };
    if custom {
        if let Some(b) = broker {
            push_port_flags(&mut args, &b.ports);
        }
    } else {
        push_lit(&mut ports, "127.0.0.1:5555:5555");
        push_lit(&mut ports, "127.0.0.1:5556:5556");
        push_lit(&mut ports, "127.0.0.1:5557:5557");
        assert(string_views(ports@) =~= default_broker_ports());
        push_port_flags(&mut args, &ports);
    }
    push_lit(&mut args, "-v");
    let wal = volume_name_of(topology_name, "wal");
    push_arg(&mut args, cat2(wal.as_str(), ":/data"));
    push_lit(&mut args, "-e");
    push_lit(&mut args, "WH_DATA_DIR=/data");
    match broker {
        Some(b) => push_arg(&mut args, b.image.clone()),
        None => push_lit(&mut args, BROKER_IMAGE),
    }
    let ghost b = match broker {
        Some(b) => Some(*b),
        None => None::<BrokerSpec>,
    };
    assert(string_views(args@) =~= broker_run_args_spec(topology_name@, b));
    args
}

/// What follows `prefix` in `s`, if `s` starts with it.
pub open spec fn strip_prefix_spec(s: Seq<char>, prefix: Seq<char>) -> Option<Seq<char>> {
    if prefix.len() <= s.len() && s.subrange(0, prefix.len() as int) == prefix {
        Some(s.subrange(prefix.len() as int, s.len() as int))
    } else {
        None
    }
}

/// What follows `prefix` in `s`, if `s` starts with it.
pub fn strip_prefix(s: &str, prefix: &str) -> (r: Option<String>)
    ensures
        match r {
            Some(t) => strip_prefix_spec(s@, prefix@) == Some(t@),
            None => strip_prefix_spec(s@, prefix@) is None,
        },
{
    let v = chars_of(s);
    let p = chars_of(prefix);
    if p.len() > v.len() {
        return None;
    }
    for i in 0..p.len()
        invariant
            v@ == s@,
            p@ == prefix@,
            p@.len() <= v@.len(),
            forall|j: int| 0 <= j < i ==> v@[j] == p@[j],
    {
        if v[i] != p[i] {
            assert(s@.subrange(0, prefix@.len() as int)[i as int] != prefix@[i as int]);
            return None;
        }
    }
    assert(s@.subrange(0, prefix@.len() as int) =~= prefix@);
    let mut rest: Vec<char> = Vec::new();
    for k in p.len()..v.len()
        invariant
            v@ == s@,
            p@ == prefix@,
            p@.len() <= v@.len(),
            rest@ == s@.subrange(prefix@.len() as int, k as int),
    {
        rest.push(v[k]);
        assert(rest@ =~= s@.subrange(prefix@.len() as int, k + 1));
    }
    Some(string_of(rest.as_slice()))
}

/// The agent name in a component such as `agent researcher`.
pub fn parse_agent_name(component: &str) -> (r: Option<String>)
    ensures
        match r {
            Some(t) => strip_prefix_spec(component@, "agent "@) == Some(t@),
            None => strip_prefix_spec(component@, "agent "@) is None,
        },
{
    strip_prefix(component, "agent ")
}

/// The surface name in a component such as `surface telegram`.
pub fn parse_surface_name(component: &str) -> (r: Option<String>)
    ensures
        match r {
            Some(t) => strip_prefix_spec(component@, "surface "@) == Some(t@),
            None => strip_prefix_spec(component@, "surface "@) is None,
        },
{
    strip_prefix(component, "surface ")
}

/// Counts of the container operations that applying changes carried out.
#[derive(Debug, Clone, PartialEq, Eq)]
pub struct ApplyResult {
    /// Number of agent containers created.
    pub created: usize,
    /// Number of agent containers changed (stopped and restarted).
    pub changed: usize,
    /// Number of agent containers destroyed.
    pub destroyed: usize,
    /// Number of streams registered (no container operation).
    pub streams_created: usize,
    /// Number of surface containers created.
    pub surfaces_created: usize,
    /// Number of surface containers changed.
    pub surfaces_changed: usize,
    /// Number of surface containers destroyed.
    pub surfaces_destroyed: usize,
}

/// The one-line summary of an apply result.
pub open spec fn apply_result_text(r: ApplyResult) -> Seq<char> {
    dec(r.created as nat) + " created \u{00B7} "@ + dec(r.changed as nat) + " changed \u{00B7} "@ + dec(r.destroyed as nat)
        + " destroyed \u{00B7} "@ + dec(r.streams_created as nat) + " streams \u{00B7} "@ + dec(r.surfaces_created as nat)
        + " surfaces created \u{00B7} "@ + dec(r.surfaces_changed as nat) + " surfaces changed \u{00B7} "@ + dec(
        r.surfaces_destroyed as nat,
    ) + " surfaces destroyed"@
}

impl ApplyResult {
    /// The one-line summary: `N created · N changed · N destroyed · N streams
    /// · N surfaces created · N surfaces changed · N surfaces destroyed`.
    pub fn render(&self) -> (s: String)
        ensures
            s@ == apply_result_text(*self),
    {
        let mut s = String::new();
        push_u64(&mut s, self.created as u64);
        push_str(&mut s, " created \u{00B7} ");
        push_u64(&mut s, self.changed as u64);
        push_str(&mut s, " changed \u{00B7} ");
        push_u64(&mut s, self.destroyed as u64);
        push_str(&mut s, " destroyed \u{00B7} ");
        push_u64(&mut s, self.streams_created as u64);
        push_str(&mut s, " streams \u{00B7} ");
        push_u64(&mut s, self.surfaces_created as u64);
        push_str(&mut s, " surfaces created \u{00B7} ");
        push_u64(&mut s, self.surfaces_changed as u64);
        push_str(&mut s, " surfaces changed \u{00B7} ");
        push_u64(&mut s, self.surfaces_destroyed as u64);
        push_str(&mut s, " surfaces destroyed");
        assert(s@ =~= apply_result_text(*self));
        s
    }
}

/// `s` without every repetition of `prefix` at its start.
pub open spec fn strip_all_prefixes(s: Seq<char>, prefix: Seq<char>) -> Seq<char>
    decreases s.len(),
{
    if prefix.len() > 0 && strip_prefix_spec(s, prefix) is Some {
        strip_all_prefixes(strip_prefix_spec(s, prefix)->0, prefix)
    } else {
        s
    }
}

/// `s` without every repetition of `prefix` at its start.
pub fn strip_all_prefixes_of(s: &str, prefix: &str) -> (r: String)
    ensures
        r@ == strip_all_prefixes(s@, prefix@),
{
    let mut cur = String::from_str(s);
    if prefix.is_empty() {
        return cur;
    }
    loop
        invariant
            prefix@.len() > 0,
            strip_all_prefixes(cur@, prefix@) == strip_all_prefixes(s@, prefix@),
        decreases cur@.len(),
    {
        match strip_prefix(cur.as_str(), prefix) {
            Some(rest) => {
                cur = rest;
            },
            None => {
                return cur;
            },
        }
    }
}

/// The first agent named `n`.
pub open spec fn first_agent(s: Seq<Agent>, n: Seq<char>) -> Option<Agent>
    decreases s.len(),
{
    if s.len() == 0 {
        None
    } else {
        match first_agent(s.drop_last(), n) {
            Some(a) => Some(a),
            None => if s.last().name@ == n {
                Some(s.last())
            } else {
                None
            },
        }
    }
}

/// The first surface named `n`.
pub open spec fn first_surface(s: Seq<Surface>, n: Seq<char>) -> Option<Surface>
    decreases s.len(),
{
    if s.len() == 0 {
        None
    } else {
        match first_surface(s.drop_last(), n) {
            Some(a) => Some(a),
            None => if s.last().name@ == n {
                Some(s.last())
            } else {
                None
            },
        }
    }
}

/// The first stream named `n`.
pub open spec fn first_stream(s: Seq<Stream>, n: Seq<char>) -> Option<Stream>
    decreases s.len(),
{
    if s.len() == 0 {
        None
    } else {
        match first_stream(s.drop_last(), n) {
            Some(a) => Some(a),
            None => if s.last().name@ == n {
                Some(s.last())
            } else {
                None
            },
        }
    }
}

pub(crate) fn find_agent<'a>(s: &'a [Agent], n: &str) -> (r: Option<&'a Agent>)
    ensures
        match r {
            Some(a) => first_agent(s@, n@) == Some(*a),
            None => first_agent(s@, n@) is None,
        },
{
    for i in 0..s.len()
        invariant
            first_agent(s@.take(i as int), n@) is None,
    {
        assert(s@.take(i + 1).drop_last() =~= s@.take(i as int));
        if str_eq(s[i].name.as_str(), n) {
            proof { lemma_first_agent_prefix(s@, n@, i + 1); }
            return Some(&s[i]);
        }
    }
    assert(s@.take(s@.len() as int) =~= s@);
    None
}

proof fn lemma_first_agent_prefix(s: Seq<Agent>, n: Seq<char>, k: int)
    requires
        0 <= k <= s.len(),
        first_agent(s.take(k), n) is Some,
    ensures
        first_agent(s, n) == first_agent(s.take(k), n),
    decreases s.len() - k,
{
    if k < s.len() {
        assert(s.take(k + 1).drop_last() =~= s.take(k));
        lemma_first_agent_prefix(s, n, k + 1);
    } else {
        assert(s.take(k) =~= s);
    }
}

fn find_surface<'a>(s: &'a [Surface], n: &str) -> (r: Option<&'a Surface>)
    ensures
        match r {
            Some(a) => first_surface(s@, n@) == Some(*a),
            None => first_surface(s@, n@) is None,
        },
{
    for i in 0..s.len()
        invariant
            first_surface(s@.take(i as int), n@) is None,
    {
        assert(s@.take(i + 1).drop_last() =~= s@.take(i as int));
        if str_eq(s[i].name.as_str(), n) {
            proof { lemma_first_surface_prefix(s@, n@, i + 1); }
            return Some(&s[i]);
        }
    }
    assert(s@.take(s@.len() as int) =~= s@);
    None
}

proof fn lemma_first_surface_prefix(s: Seq<Surface>, n: Seq<char>, k: int)
    requires
        0 <= k <= s.len(),
        first_surface(s.take(k), n) is Some,
    ensures
        first_surface(s, n) == first_surface(s.take(k), n),
    decreases s.len() - k,
{
    if k < s.len() {
        assert(s.take(k + 1).drop_last() =~= s.take(k));
        lemma_first_surface_prefix(s, n, k + 1);
    } else {
        assert(s.take(k) =~= s);
    }
}

fn find_stream<'a>(s: &'a [Stream], n: &str) -> (r: Option<&'a Stream>)
    ensures
        match r {
            Some(a) => first_stream(s@, n@) == Some(*a),
            None => first_stream(s@, n@) is None,
        },
{
    for i in 0..s.len()
        invariant
            first_stream(s@.take(i as int), n@) is None,
    {
        assert(s@.take(i + 1).drop_last() =~= s@.take(i as int));
        if str_eq(s[i].name.as_str(), n) {
            proof { lemma_first_stream_prefix(s@, n@, i + 1); }
            return Some(&s[i]);
        }
    }
    assert(s@.take(s@.len() as int) =~= s@);
    None
}

proof fn lemma_first_stream_prefix(s: Seq<Stream>, n: Seq<char>, k: int)
    requires
        0 <= k <= s.len(),
        first_stream(s.take(k), n) is Some,
    ensures
        first_stream(s, n) == first_stream(s.take(k), n),
    decreases s.len() - k,
{
    if k < s.len() {
        assert(s.take(k + 1).drop_last() =~= s.take(k));
        lemma_first_stream_prefix(s, n, k + 1);
    } else {
        assert(s.take(k) =~= s);
    }
}

/// One container or broker operation that applying a change calls for.
#[derive(Debug, Clone, PartialEq, Eq)]
pub enum ProvisionAction {
    /// `podman stop` then `podman rm -f` of a surface container.
    StopSurface { container: String },
    /// `podman run` of a surface container.
    StartSurface { args: Vec<String> },
    /// Stop the surface container (errors ignored), then `podman run` it again.
    RestartSurface { container: String, args: Vec<String> },
    /// Register a new stream with the broker (best effort).
    RegisterStream { name: String, retention: Option<String> },
    /// `podman run` of an agent container.
    StartAgent { args: Vec<String> },
    /// `podman stop` then `podman rm -f` of an agent container.
    StopAgent { container: String },
    /// Stop the agent container (errors ignored), then `podman run` it again.
    RestartAgent { container: String, args: Vec<String> },
}

/// The view of a provisioning action.
pub enum ActionView {
    StopSurface { container: Seq<char> },
    StartSurface { args: Seq<Seq<char>> },
    RestartSurface { container: Seq<char>, args: Seq<Seq<char>> },
    RegisterStream { name: Seq<char>, retention: Option<Seq<char>> },
    StartAgent { args: Seq<Seq<char>> },
    StopAgent { container: Seq<char> },
    RestartAgent { container: Seq<char>, args: Seq<Seq<char>> },
}

pub open spec fn action_view(a: ProvisionAction) -> ActionView {
    match a {
        ProvisionAction::StopSurface { container } => ActionView::StopSurface { container: container@ },
        ProvisionAction::StartSurface { args } => ActionView::StartSurface { args: string_views(args@) },
        ProvisionAction::RestartSurface { container, args } => ActionView::RestartSurface {
            container: container@,
            args: string_views(args@),
        },
        ProvisionAction::RegisterStream { name, retention } => ActionView::RegisterStream {
            name: name@,
            retention: match retention {
                Some(r) => Some(r@),
                None => None,
            },
        },
        ProvisionAction::StartAgent { args } => ActionView::StartAgent { args: string_views(args@) },
        ProvisionAction::StopAgent { container } => ActionView::StopAgent { container: container@ },
        ProvisionAction::RestartAgent { container, args } => ActionView::RestartAgent {
            container: container@,
            args: string_views(args@),
        },
    }
}

pub open spec fn action_views(s: Seq<ProvisionAction>) -> Seq<ActionView> {
    s.map_values(|a: ProvisionAction| action_view(a))
}

/// The container arguments of an agent of the topology: the broker on the
/// topology network, the context volume, and the personas volume when the
/// agent has a persona.
pub open spec fn agent_run_args(topology: Seq<char>, a: Agent, extra_env: Seq<(Seq<char>, Seq<char>)>) -> Seq<Seq<char>> {
    run_args_spec(
        topology,
        a.name@,
        a.image@,
        string_views(a.streams@),
        Some(BROKER_DNS_URL@),
        a.persona is Some,
        true,
        extra_env,
        Some(network_name_spec(topology)),
    )
}

/// Whether a change adds a stream: it names neither an agent nor a surface
/// and its op is `+`.
pub open spec fn is_stream_addition(c: Change) -> bool {
    strip_prefix_spec(c.component@, "agent "@) is None && strip_prefix_spec(c.component@, "surface "@) is None
        && c.op@ == "+"@
}

/// The operations one change calls for.
pub open spec fn change_actions(
    topology: Seq<char>,
    c: Change,
    agents: Seq<Agent>,
    streams: Seq<Stream>,
    surfaces: Seq<Surface>,
    extra_env: Seq<(Seq<char>, Seq<char>)>,
) -> Seq<ActionView> {
    match strip_prefix_spec(c.component@, "surface "@) {
        Some(sn) => if c.op@ == "-"@ {
            seq![ActionView::StopSurface { container: container_name_spec(topology, sn) }]
        } else {
            match first_surface(surfaces, sn) {
                None => Seq::empty(),
                Some(s) => if s.kind@ == "cli"@ {
                    Seq::empty()
                } else if c.op@ == "+"@ {
                    seq![ActionView::StartSurface { args: surface_run_args_spec(topology, s, extra_env) }]
                } else if c.op@ == "~"@ {
                    seq![ActionView::RestartSurface {
                        container: container_name_spec(topology, s.name@),
                        args: surface_run_args_spec(topology, s, extra_env),
                    }]
                } else {
                    Seq::empty()
                },
            }
        },
        None => match strip_prefix_spec(c.component@, "agent "@) {
            None => if c.op@ == "+"@ {
                let n = strip_all_prefixes(c.component@, "stream "@);
                seq![ActionView::RegisterStream {
                    name: n,
                    retention: match first_stream(streams, n) {
                        Some(st) => match st.retention {
                            Some(r) => Some(r@),
                            None => None,
                        },
                        None => None,
                    },
                }]
            } else {
                Seq::empty()
            },
            Some(an) => if c.op@ == "+"@ {
                match first_agent(agents, an) {
                    Some(a) => seq![ActionView::StartAgent { args: agent_run_args(topology, a, extra_env) }],
                    None => Seq::empty(),
                }
            } else if c.op@ == "-"@ {
                seq![ActionView::StopAgent { container: container_name_spec(topology, an) }]
            } else if c.op@ == "~"@ {
                match first_agent(agents, an) {
                    Some(a) => seq![ActionView::RestartAgent {
                        container: container_name_spec(topology, an),
                        args: agent_run_args(topology, a, extra_env),
                    }],
                    None => Seq::empty(),
                }
            } else {
                Seq::empty()
            },
        },
    }
}

/// The operations a list of changes calls for, in order.
pub open spec fn provision_actions(
    topology: Seq<char>,
    changes: Seq<Change>,
    agents: Seq<Agent>,
    streams: Seq<Stream>,
    surfaces: Seq<Surface>,
    extra_env: Seq<(Seq<char>, Seq<char>)>,
) -> Seq<ActionView>
    decreases changes.len(),
{
    if changes.len() == 0 {
        Seq::empty()
    } else {
        provision_actions(topology, changes.drop_last(), agents, streams, surfaces, extra_env) + change_actions(
            topology,
            changes.last(),
            agents,
            streams,
            surfaces,
            extra_env,
        )
    }
}

/// The number of stream additions among the changes.
pub open spec fn stream_additions_count(changes: Seq<Change>) -> nat
    decreases changes.len(),
{
    if changes.len() == 0 {
        0
    } else {
        stream_additions_count(changes.drop_last()) + if is_stream_addition(changes.last()) {
            1nat
        } else {
            0nat
        }
    }
}

/// The container operations for a list of changes, and how many streams
/// they add.
pub struct ProvisionPlan {
    pub streams_created: usize,
    pub actions: Vec<ProvisionAction>,
}

fn one(a: ProvisionAction) -> (r: Vec<ProvisionAction>)
    ensures
        action_views(r@) == seq![action_view(a)],
{
    let mut r: Vec<ProvisionAction> = Vec::new();
    r.push(a);
    assert(action_views(r@) =~= seq![action_view(a)]);
    r
}

fn none() -> (r: Vec<ProvisionAction>)
    ensures
        action_views(r@) == Seq::<ActionView>::empty(),
{
    let r: Vec<ProvisionAction> = Vec::new();
    assert(action_views(r@) =~= Seq::<ActionView>::empty());
    r
}

fn agent_args_of(topology_name: &str, a: &Agent, extra_env: &[(String, String)]) -> (r: Vec<String>)
    ensures
        string_views(r@) == agent_run_args(topology_name@, *a, pair_views(extra_env@)),
{
    let net = network_name(topology_name);
    build_run_args(
        topology_name,
        a.name.as_str(),
        a.image.as_str(),
        a.streams.as_slice(),
        Some(BROKER_DNS_URL),
        a.persona.is_some(),
        true,
        extra_env,
        Some(net.as_str()),
    )
}

/// The operations for one change.
fn actions_for_change(
    topology_name: &str,
    c: &Change,
    agents: &[Agent],
    streams: &[Stream],
    surfaces: &[Surface],
    extra_env: &[(String, String)],
) -> (r: Vec<ProvisionAction>)
    ensures
        action_views(r@) == change_actions(topology_name@, *c, agents@, streams@, surfaces@, pair_views(extra_env@)),
{
    let op = c.op.as_str();
    match parse_surface_name(c.component.as_str()) {
        Some(sn) => {
            if str_eq(op, "-") {
                return one(ProvisionAction::StopSurface { container: container_name(topology_name, sn.as_str()) });
            }
            match find_surface(surfaces, sn.as_str()) {
                None => none(),
                Some(s) => {
                    if str_eq(s.kind.as_str(), "cli") {
                        none()
                    } else if str_eq(op, "+") {
                        one(ProvisionAction::StartSurface { args: build_surface_run_args(topology_name, s, extra_env) })
                    } else if str_eq(op, "~") {
                        one(ProvisionAction::RestartSurface {
                            container: container_name(topology_name, s.name.as_str()),
                            args: build_surface_run_args(topology_name, s, extra_env),
                        })
                    } else {
                        none()
                    }
                },
            }
        },
        None => match parse_agent_name(c.component.as_str()) {
            None => {
                if str_eq(op, "+") {
                    let n = strip_all_prefixes_of(c.component.as_str(), "stream ");
                    let retention = match find_stream(streams, n.as_str()) {
                        Some(st) => match &st.retention {
                            Some(r) => Some(r.clone()),
                            None => None,
                        },
                        None => None,
                    };
                    one(ProvisionAction::RegisterStream { name: n, retention })
                } else {
                    none()
                }
            },
            Some(an) => {
                if str_eq(op, "+") {
                    match find_agent(agents, an.as_str()) {
                        Some(a) => one(ProvisionAction::StartAgent { args: agent_args_of(topology_name, a, extra_env) }),
                        None => none(),
                    }
                } else if str_eq(op, "-") {
                    one(ProvisionAction::StopAgent { container: container_name(topology_name, an.as_str()) })
                } else if str_eq(op, "~") {
                    match find_agent(agents, an.as_str()) {
                        Some(a) => one(ProvisionAction::RestartAgent {
                            container: container_name(topology_name, an.as_str()),
                            args: agent_args_of(topology_name, a, extra_env),
                        }),
                        None => none(),
                    }
                } else {
                    none()
                }
            },
        },
    }
}

/// Plan the container operations for applied changes, in change order:
/// surfaces are stopped, started or restarted (CLI surfaces stay native);
/// added streams are registered with the broker; agents are started,
/// stopped or restarted. Changes naming a component missing from the
/// topology are skipped. Also counts the stream additions.
pub fn plan_provisioning(
    topology_name: &str,
    changes: &[Change],
    agents: &[Agent],
    streams: &[Stream],
    surfaces: &[Surface],
    extra_env: &[(String, String)],
) -> (r: ProvisionPlan)
    ensures
        action_views(r.actions@) == provision_actions(topology_name@, changes@, agents@, streams@, surfaces@, pair_views(extra_env@)),
        r.streams_created == stream_additions_count(changes@),
{
    let mut actions: Vec<ProvisionAction> = Vec::new();
    let mut count: usize = 0;
    assert(action_views(actions@) =~= Seq::<ActionView>::empty());
    for i in 0..changes.len()
        invariant
            action_views(actions@) == provision_actions(
                topology_name@,
                changes@.take(i as int),
                agents@,
                streams@,
                surfaces@,
                pair_views(extra_env@),
            ),
            count == stream_additions_count(changes@.take(i as int)),
            count <= i,
    {
        assert(changes@.take(i + 1).drop_last() =~= changes@.take(i as int));
        let c = &changes[i];
        let mut more = actions_for_change(topology_name, c, agents, streams, surfaces, extra_env);
        let ghost a0 = actions@;
        let ghost m0 = more@;
        actions.append(&mut more);
        assert(action_views(actions@) =~= action_views(a0) + action_views(m0));
        let is_add = parse_agent_name(c.component.as_str()).is_none() && parse_surface_name(c.component.as_str()).is_none()
            && str_eq(c.op.as_str(), "+");
        if is_add {
            count = count + 1;
        }
    }
    assert(changes@.take(changes@.len() as int) =~= changes@);
    ProvisionPlan { streams_created: count, actions }
}

proof fn lemma_first_surface_named(s: Seq<Surface>, n: Seq<char>)
    ensures
        first_surface(s, n) matches Some(x) ==> x.name@ == n,
    decreases s.len(),
{
    if s.len() > 0 {
        lemma_first_surface_named(s.drop_last(), n);
    }
}

proof fn lemma_first_agent_named(s: Seq<Agent>, n: Seq<char>)
    ensures
        first_agent(s, n) matches Some(x) ==> x.name@ == n,
    decreases s.len(),
{
    if s.len() > 0 {
        lemma_first_agent_named(s.drop_last(), n);
    }
}

proof fn lemma_provision_holds(
    topology: Seq<char>,
    changes: Seq<Change>,
    agents: Seq<Agent>,
    streams: Seq<Stream>,
    surfaces: Seq<Surface>,
    extra_env: Seq<(Seq<char>, Seq<char>)>,
    k: int,
    j: int,
)
    requires
        0 <= k < changes.len(),
        0 <= j < change_actions(topology, changes[k], agents, streams, surfaces, extra_env).len(),
    ensures
        provision_actions(topology, changes, agents, streams, surfaces, extra_env).contains(
            change_actions(topology, changes[k], agents, streams, surfaces, extra_env)[j],
        ),
    decreases changes.len(),
{
    let d = changes.drop_last();
    let p = provision_actions(topology, d, agents, streams, surfaces, extra_env);
    let q = change_actions(topology, changes.last(), agents, streams, surfaces, extra_env);
    let x = change_actions(topology, changes[k], agents, streams, surfaces, extra_env)[j];
    if k < changes.len() - 1 {
        assert(d[k] == changes[k]);
        lemma_provision_holds(topology, d, agents, streams, surfaces, extra_env, k, j);
        let i = choose|i: int| 0 <= i < p.len() && p[i] == x;
        assert((p + q)[i] == x);
    } else {
        assert((p + q)[p.len() + j] == x);
    }
}

/// What provisioning does for each change, in terms of the change:
/// - removing `surface N` stops the container of surface N, whether or not N
///   is still among the surfaces;
/// - removing `agent N` stops the container of agent N;
/// - adding `agent N`, when N is an agent of the topology, starts a container
///   named for N, running as agent N, with N's image;
/// - modifying `agent N`, when N is an agent of the topology, restarts N's
///   container with N's image;
/// - adding or modifying `surface N`, when N is a surface of the topology that
///   is not a CLI surface, starts or restarts a container with the image of
///   the surface's kind (the restart of N's container);
/// - adding `stream N` (N not itself starting with `stream `) registers
///   stream N.
pub proof fn law_provisioning_actions(
    topology: Seq<char>,
    changes: Seq<Change>,
    agents: Seq<Agent>,
    streams: Seq<Stream>,
    surfaces: Seq<Surface>,
    extra_env: Seq<(Seq<char>, Seq<char>)>,
    k: int,
    n: Seq<char>,
)
    requires
        0 <= k < changes.len(),
    ensures
        ({
            let acts = provision_actions(topology, changes, agents, streams, surfaces, extra_env);
            let c = changes[k];
            &&& c.op@ == "-"@ && c.component@ == "surface "@ + n ==> acts.contains(
                ActionView::StopSurface { container: container_name_spec(topology, n) },
            )
            &&& c.op@ == "-"@ && c.component@ == "agent "@ + n ==> acts.contains(
                ActionView::StopAgent { container: container_name_spec(topology, n) },
            )
            &&& c.op@ == "+"@ && c.component@ == "agent "@ + n && first_agent(agents, n) is Some ==> exists|args: Seq<Seq<char>>|
                #[trigger] acts.contains(ActionView::StartAgent { args }) && args.len() >= 13 && args[3] == container_name_spec(
                    topology,
                    n,
                ) && args[7] == "WH_AGENT_NAME="@ + n && args.last() == first_agent(agents, n)->0.image@
            &&& c.op@ == "~"@ && c.component@ == "agent "@ + n && first_agent(agents, n) is Some ==> exists|args: Seq<Seq<char>>|
                #[trigger] acts.contains(ActionView::RestartAgent { container: container_name_spec(topology, n), args })
                    && args.len() > 0 && args.last() == first_agent(agents, n)->0.image@
            &&& c.op@ == "+"@ && c.component@ == "surface "@ + n && first_surface(surfaces, n) is Some && first_surface(
                surfaces,
                n,
            )->0.kind@ != "cli"@ ==> exists|args: Seq<Seq<char>>| #[trigger] acts.contains(ActionView::StartSurface { args })
                && args.len() > 0 && args.last() == surface_image_spec(first_surface(surfaces, n)->0.kind@)
            &&& c.op@ == "~"@ && c.component@ == "surface "@ + n && first_surface(surfaces, n) is Some && first_surface(
                surfaces,
                n,
            )->0.kind@ != "cli"@ ==> exists|args: Seq<Seq<char>>|
                #[trigger] acts.contains(ActionView::RestartSurface { container: container_name_spec(topology, n), args })
                && args.len() > 0 && args.last() == surface_image_spec(first_surface(surfaces, n)->0.kind@)
            &&& c.op@ == "+"@ && c.component@ == "stream "@ + n && strip_prefix_spec(n, "stream "@) is None ==> exists|
                retention: Option<Seq<char>>,
            | #[trigger] acts.contains(ActionView::RegisterStream { name: n, retention })
        }),
{
    reveal_strlit("surface ");
    reveal_strlit("agent ");
    reveal_strlit("stream ");
    reveal_strlit("+");
    reveal_strlit("-");
    reveal_strlit("~");
    let c = changes[k];
    let ca = change_actions(topology, c, agents, streams, surfaces, extra_env);
    let acts = provision_actions(topology, changes, agents, streams, surfaces, extra_env);
    lemma_first_surface_named(surfaces, n);
    lemma_first_agent_named(agents, n);
    let sp = "surface "@ + n;
    let ap = "agent "@ + n;
    let tp = "stream "@ + n;
    assert(sp.subrange(0, 8) =~= "surface "@);
    assert(sp.subrange(8, sp.len() as int) =~= n);
    assert(ap.subrange(0, 6) =~= "agent "@);
    assert(ap.subrange(6, ap.len() as int) =~= n);
    assert(tp.subrange(0, 7) =~= "stream "@);
    assert(tp.subrange(7, tp.len() as int) =~= n);
    assert(ap.len() < 8 || ap.subrange(0, 8) != "surface "@) by {
        if ap.len() >= 8 {
            assert(ap.subrange(0, 8)[0] != "surface "@[0]);
        }
    }
    assert(tp.len() < 8 || tp.subrange(0, 8) != "surface "@) by {
        if tp.len() >= 8 {
            assert(tp.subrange(0, 8)[1] != "surface "@[1]);
        }
    }
    assert(tp.subrange(0, 6) != "agent "@) by {
        assert(tp.subrange(0, 6)[0] != "agent "@[0]);
    }
    assert("+"@ != "-"@ && "+"@ != "~"@ && "-"@ != "~"@) by {
        assert("+"@[0] != "-"@[0] && "+"@[0] != "~"@[0] && "-"@[0] != "~"@[0]);
    }
    if ca.len() > 0 {
        lemma_provision_holds(topology, changes, agents, streams, surfaces, extra_env, k, 0);
    }
    if c.op@ == "+"@ && c.component@ == ap && first_agent(agents, n) is Some {
        let a = first_agent(agents, n)->0;
        crate::deploy::podman::law_run_args_layout(
            topology,
            a.name@,
            a.image@,
            string_views(a.streams@),
            Some(BROKER_DNS_URL@),
            a.persona is Some,
            true,
            extra_env,
            Some(network_name_spec(topology)),
        );
        assert(acts.contains(ca[0]));
    }
    if c.op@ == "~"@ && c.component@ == ap && first_agent(agents, n) is Some {
        assert(acts.contains(ca[0]));
    }
    if c.component@ == tp && c.op@ == "+"@ && strip_prefix_spec(n, "stream "@) is None {
        assert(strip_all_prefixes(n, "stream "@) == n);
        assert(strip_all_prefixes(tp, "stream "@) == n);
        assert(acts.contains(ca[0]));
    }
    if c.component@ == sp && first_surface(surfaces, n) is Some && first_surface(surfaces, n)->0.kind@ != "cli"@ && (c.op@
        == "+"@ || c.op@ == "~"@) {
        assert(acts.contains(ca[0]));
    }
}

/// The number of stream registrations among actions.
pub open spec fn registrations(acts: Seq<ActionView>) -> nat
    decreases acts.len(),
{
    if acts.len() == 0 {
        0
    } else {
        registrations(acts.drop_last()) + if acts.last() is RegisterStream {
            1nat
        } else {
            0nat
        }
    }
}

proof fn lemma_registrations_concat(a: Seq<ActionView>, b: Seq<ActionView>)
    ensures
        registrations(a + b) == registrations(a) + registrations(b),
    decreases b.len(),
{
    if b.len() == 0 {
        assert(a + b =~= a);
    } else {
        lemma_registrations_concat(a, b.drop_last());
        assert((a + b).drop_last() =~= a + b.drop_last());
    }
}

/// Provisioning counts as created exactly the streams it registers: the
/// plan's stream count equals the number of its `RegisterStream` actions.
pub proof fn law_streams_created_registered(
    topology: Seq<char>,
    changes: Seq<Change>,
    agents: Seq<Agent>,
    streams: Seq<Stream>,
    surfaces: Seq<Surface>,
    extra_env: Seq<(Seq<char>, Seq<char>)>,
)
    ensures
        registrations(provision_actions(topology, changes, agents, streams, surfaces, extra_env)) == stream_additions_count(
            changes,
        ),
    decreases changes.len(),
{
    if changes.len() > 0 {
        let d = changes.drop_last();
        law_streams_created_registered(topology, d, agents, streams, surfaces, extra_env);
        let ca = change_actions(topology, changes.last(), agents, streams, surfaces, extra_env);
        lemma_registrations_concat(provision_actions(topology, d, agents, streams, surfaces, extra_env), ca);
        reveal_with_fuel(registrations, 2);
        assert(ca.len() <= 1);
        if ca.len() == 1 {
            assert(ca.drop_last() =~= Seq::<ActionView>::empty());
        }
    }
}

impl ApplyResult {
    /// A result with no container operation yet and the given stream count.
    pub fn with_streams(streams_created: usize) -> (r: Self)
        ensures
            r == (ApplyResult {
                created: 0,
                changed: 0,
                destroyed: 0,
                streams_created,
                surfaces_created: 0,
                surfaces_changed: 0,
                surfaces_destroyed: 0,
            }),
    {
        ApplyResult {
            created: 0,
            changed: 0,
            destroyed: 0,
            streams_created,
            surfaces_created: 0,
            surfaces_changed: 0,
            surfaces_destroyed: 0,
        }
    }

    /// Counts an operation that succeeded: a started, restarted or stopped
    /// agent or surface adds one to its count; a stream registration counts
    /// nothing more (streams are counted up front).
    pub fn record_success(&mut self, action: &ProvisionAction)
        requires
            old(self).created < usize::MAX,
            old(self).changed < usize::MAX,
            old(self).destroyed < usize::MAX,
            old(self).surfaces_created < usize::MAX,
            old(self).surfaces_changed < usize::MAX,
            old(self).surfaces_destroyed < usize::MAX,
        ensures
            *final(self) == (match action {
                ProvisionAction::StopSurface { .. } => ApplyResult { surfaces_destroyed: (old(self).surfaces_destroyed + 1) as usize, ..*old(self) },
                ProvisionAction::StartSurface { .. } => ApplyResult { surfaces_created: (old(self).surfaces_created + 1) as usize, ..*old(self) },
                ProvisionAction::RestartSurface { .. } => ApplyResult { surfaces_changed: (old(self).surfaces_changed + 1) as usize, ..*old(self) },
                ProvisionAction::RegisterStream { .. } => *old(self),
                ProvisionAction::StartAgent { .. } => ApplyResult { created: (old(self).created + 1) as usize, ..*old(self) },
                ProvisionAction::StopAgent { .. } => ApplyResult { destroyed: (old(self).destroyed + 1) as usize, ..*old(self) },
                ProvisionAction::RestartAgent { .. } => ApplyResult { changed: (old(self).changed + 1) as usize, ..*old(self) },
            }),
    {
        match action {
            ProvisionAction::StopSurface { .. } => self.surfaces_destroyed = self.surfaces_destroyed + 1,
            ProvisionAction::StartSurface { .. } => self.surfaces_created = self.surfaces_created + 1,
            ProvisionAction::RestartSurface { .. } => self.surfaces_changed = self.surfaces_changed + 1,
            ProvisionAction::RegisterStream { .. } => {},
            ProvisionAction::StartAgent { .. } => self.created = self.created + 1,
            ProvisionAction::StopAgent { .. } => self.destroyed = self.destroyed + 1,
            ProvisionAction::RestartAgent { .. } => self.changed = self.changed + 1,
        }
    }
}

/// The request that registers a stream with the broker's control socket:
/// compact JSON with its keys in order, the retention only when given.
pub open spec fn stream_create_text(name: Seq<char>, retention: Option<Seq<char>>) -> Seq<char> {
    "{\"command\":\"stream_create\",\"name\":"@ + json_quote(name) + match retention {
        Some(r) => ",\"retention\":"@ + json_quote(r),
        None => Seq::empty(),
    } + "}"@
}

/// The `stream_create` request for a new stream.
pub fn stream_create_request(name: &str, retention: Option<&str>) -> (s: String)
    ensures
        s@ == stream_create_text(name@, match retention {
            Some(r) => Some(r@),
            None => None,
        }),
{
    let mut s = String::new();
    push_str(&mut s, "{\"command\":\"stream_create\",\"name\":");
    push_json_str(&mut s, name);
    let ghost mid = s@;
    if let Some(r) = retention {
        push_str(&mut s, ",\"retention\":");
        push_json_str(&mut s, r);
    }
    push_str(&mut s, "}");
    assert(s@ =~= stream_create_text(name@, match retention {
        Some(r) => Some(r@),
        None => None,
    }));
    s
}

} // verus!
