//! Subsystem expansion: a subsystem declaration becomes concrete topology
//! primitives. The one known subsystem, `llm-wiki`, adds a librarian agent
//! with a read-write library volume, one end-of-turn stream per member, and
//! gives each member a read-only mount of the library and the stream it
//! writes to.

use vstd::prelude::*;
use crate::deploy::{Agent, DeployError, SkillRefConfig, Stream, SubsystemDecl, Topology, VolumeMount, BrokerSpec, Guardrails, Surface};
use crate::strmap::{StrMap, pairs_insert};
use crate::text::{chars_of, chars_eq_str, join, join_strings, push_str, str_eq, string_views};
use vstd::string::StringExecFns;

verus! {

/// Default librarian container image.
pub const LIBRARIAN_IMAGE: &'static str = "ghcr.io/wheelhouse-paris/wh-librarian:latest";

/// Mount path of the library volume inside containers.
pub const LIBRARY_MOUNT_PATH: &'static str = "/workspace/.library";

/// The view of a volume mount.
pub struct MountView {
    pub name: Seq<char>,
    pub mount: Seq<char>,
    pub mode: Option<Seq<char>>,
}

/// The view of an optional string.
pub open spec fn opt_chars(o: Option<String>) -> Option<Seq<char>> {
    match o {
        Some(s) => Some(s@),
        None => None,
    }
}

pub open spec fn mount_view(m: VolumeMount) -> MountView {
    MountView { name: m.name@, mount: m.mount@, mode: opt_chars(m.mount_mode) }
}

pub open spec fn mount_views(s: Seq<VolumeMount>) -> Seq<MountView> {
    s.map_values(|m: VolumeMount| mount_view(m))
}

/// The view of an optional environment map: its pairs in key order.
pub open spec fn env_view(e: Option<StrMap<String>>) -> Option<Seq<(Seq<char>, Seq<char>)>> {
    match e {
        Some(m) => Some(m.pairs()),
        None => None,
    }
}

/// The view of an agent.
pub struct AgentView {
    pub name: Seq<char>,
    pub image: Seq<char>,
    pub replicas: u32,
    pub streams: Seq<Seq<char>>,
    pub persona: Option<Seq<char>>,
    pub skills: Option<Vec<SkillRefConfig>>,
    pub topology_edit: Option<bool>,
    pub volumes: Seq<MountView>,
    pub env: Option<Seq<(Seq<char>, Seq<char>)>>,
}

pub open spec fn agent_view(a: Agent) -> AgentView {
    AgentView {
        name: a.name@,
        image: a.image@,
        replicas: a.replicas,
        streams: string_views(a.streams@),
        persona: opt_chars(a.persona),
        skills: a.skills,
        topology_edit: a.topology_edit,
        volumes: mount_views(a.volumes@),
        env: env_view(a.env),
    }
}

pub open spec fn agent_views(s: Seq<Agent>) -> Seq<AgentView> {
    s.map_values(|a: Agent| agent_view(a))
}

/// The view of a stream.
pub struct StreamView {
    pub name: Seq<char>,
    pub retention: Option<Seq<char>>,
    pub description: Option<Seq<char>>,
}

pub open spec fn stream_view(s: Stream) -> StreamView {
    StreamView { name: s.name@, retention: opt_chars(s.retention), description: opt_chars(s.description) }
}

pub open spec fn stream_views(s: Seq<Stream>) -> Seq<StreamView> {
    s.map_values(|x: Stream| stream_view(x))
}

/// The view of a topology.
pub struct TopologyView {
    pub api_version: Seq<char>,
    pub name: Seq<char>,
    pub broker: Option<BrokerSpec>,
    pub skills_repo: Option<Seq<char>>,
    pub agents: Seq<AgentView>,
    pub streams: Seq<StreamView>,
    pub surfaces: Seq<Surface>,
    pub guardrails: Option<Guardrails>,
    pub subsystems: Seq<SubsystemDecl>,
}

pub open spec fn topology_view(t: Topology) -> TopologyView {
    TopologyView {
        api_version: t.api_version@,
        name: t.name@,
        broker: t.broker,
        skills_repo: opt_chars(t.skills_repo),
        agents: agent_views(t.agents@),
        streams: stream_views(t.streams@),
        surfaces: t.surfaces@,
        guardrails: t.guardrails,
        subsystems: t.subsystems@,
    }
}

/// `s` without its trailing `/` characters.
pub open spec fn trim_end_slashes(s: Seq<char>) -> Seq<char>
    decreases s.len(),
{
    if s.len() > 0 && s.last() == '/' {
        trim_end_slashes(s.drop_last())
    } else {
        s
    }
}

/// Index of the first agent named `n`.
pub open spec fn first_agent_index(s: Seq<AgentView>, n: Seq<char>) -> Option<int>
    decreases s.len(),
{
    if s.len() == 0 {
        None
    } else {
        match first_agent_index(s.drop_last(), n) {
            Some(i) => Some(i),
            None => if s.last().name == n {
                Some(s.len() - 1)
            } else {
                None
            },
        }
    }
}

/// Whether a stream is named `n`.
pub open spec fn has_stream(s: Seq<StreamView>, n: Seq<char>) -> bool {
    exists|i: int| 0 <= i < s.len() && #[trigger] s[i].name == n
}

/// The first member that names no agent.
pub open spec fn first_missing_member(ms: Seq<Seq<char>>, agents: Seq<AgentView>) -> Option<Seq<char>>
    decreases ms.len(),
{
    if ms.len() == 0 {
        None
    } else {
        match first_missing_member(ms.drop_last(), agents) {
            Some(m) => Some(m),
            None => if first_agent_index(agents, ms.last()) is None {
                Some(ms.last())
            } else {
                None
            },
        }
    }
}

/// The first name that a stream already has.
pub open spec fn first_taken_stream(names: Seq<Seq<char>>, streams: Seq<StreamView>) -> Option<Seq<char>>
    decreases names.len(),
{
    if names.len() == 0 {
        None
    } else {
        match first_taken_stream(names.drop_last(), streams) {
            Some(m) => Some(m),
            None => if has_stream(streams, names.last()) {
                Some(names.last())
            } else {
                None
            },
        }
    }
}

/// The end-of-turn stream name of a member.
pub open spec fn eot_name(member: Seq<char>, library: Seq<char>) -> Seq<char> {
    "eot-"@ + member + "-"@ + library
}

pub open spec fn eot_names(members: Seq<Seq<char>>, library: Seq<char>) -> Seq<Seq<char>> {
    members.map_values(|m: Seq<char>| eot_name(m, library))
}

/// The description of an end-of-turn stream.
pub open spec fn eot_description(library: Seq<char>) -> Seq<char> {
    "End-of-turn events for llm-wiki subsystem '"@ + library + "'"@
}

pub open spec fn eot_streams(names: Seq<Seq<char>>, library: Seq<char>) -> Seq<StreamView> {
    names.map_values(|n: Seq<char>| StreamView { name: n, retention: None, description: Some(eot_description(library)) })
}

/// The librarian's environment, in key order.
pub open spec fn librarian_env(eots: Seq<Seq<char>>, library: Seq<char>, librarian: Seq<char>, d: SubsystemDecl) -> Seq<(Seq<char>, Seq<char>)> {
    let e1 = pairs_insert(seq![("WH_STREAMS"@, join(eots, ","@))], "WH_LIBRARY_PATH"@, LIBRARY_MOUNT_PATH@);
    let e2 = pairs_insert(e1, "WH_LIBRARY_ID"@, library);
    let e3 = pairs_insert(e2, "WH_AGENT_NAME"@, librarian);
    let e4 = match d.locales {
        Some(l) => pairs_insert(e3, "WH_LIBRARIAN_LOCALES"@, join(string_views(l@), ","@)),
        None => e3,
    };
    match d.decision_prompt {
        Some(p) => pairs_insert(e4, "WH_DECISION_PROMPT"@, p@),
        None => e4,
    }
}

/// A member after it gains the read-only library mount and its write stream.
pub open spec fn with_library(a: AgentView, volume: Seq<char>, eot: Seq<char>) -> AgentView {
    AgentView {
        volumes: a.volumes.push(MountView { name: volume, mount: LIBRARY_MOUNT_PATH@, mode: Some("ro"@) }),
        env: Some(
            pairs_insert(
                match a.env {
                    Some(e) => e,
                    None => Seq::empty(),
                },
                "WH_LIBRARY_WRITE_STREAM"@,
                eot,
            ),
        ),
        ..a
    }
}

/// The agents after the first `n` members are augmented.
pub open spec fn augment_members(agents: Seq<AgentView>, ms: Seq<Seq<char>>, eots: Seq<Seq<char>>, volume: Seq<char>, n: nat) -> Seq<AgentView>
    decreases n,
{
    if n == 0 {
        agents
    } else {
        let a = augment_members(agents, ms, eots, volume, (n - 1) as nat);
        match first_agent_index(a, ms[n - 1]) {
            Some(i) => a.update(i, with_library(a[i], volume, eots[n - 1])),
            None => a,
        }
    }
}

/// What expanding one `llm-wiki` declaration makes of a topology, or the
/// message of the error it meets.
pub open spec fn llm_wiki(t: TopologyView, d: SubsystemDecl) -> Result<TopologyView, Seq<char>> {
    let ms = string_views(d.members@);
    let library = match d.library_name {
        Some(l) => l@,
        None => t.name,
    };
    let volume = "wh-"@ + t.name + "-llm-wiki-"@ + library;
    let librarian = "librarian-"@ + library;
    let eots = eot_names(ms, library);
    if trim_end_slashes(d.path@) != "subsystems/llm-wiki"@ {
        Err("unknown subsystem path '"@ + d.path@ + "', expected 'subsystems/llm-wiki/'"@)
    } else if ms.len() == 0 {
        Err("subsystem 'llm-wiki' requires at least one member agent"@)
    } else if first_missing_member(ms, t.agents) is Some {
        Err("member '"@ + first_missing_member(ms, t.agents)->0 + "' not found in topology agents"@)
    } else if first_agent_index(t.agents, librarian) is Some {
        Err("duplicate agent name '"@ + librarian + "' \u{2014} already exists in topology"@)
    } else if first_taken_stream(eots, t.streams) is Some {
        Err("duplicate stream name '"@ + first_taken_stream(eots, t.streams)->0 + "' \u{2014} already exists in topology"@)
    } else {
        let lib_agent = AgentView {
            name: librarian,
            image: LIBRARIAN_IMAGE@,
            replicas: 1,
            streams: eots,
            persona: None,
            skills: None,
            topology_edit: None,
            volumes: seq![MountView { name: volume, mount: LIBRARY_MOUNT_PATH@, mode: Some("rw"@) }],
            env: Some(librarian_env(eots, library, librarian, d)),
        };
        Ok(TopologyView {
            agents: augment_members(t.agents.push(lib_agent), ms, eots, volume, ms.len()),
            streams: t.streams + eot_streams(eots, library),
            ..t
        })
    }
}

/// Expansion of the declarations in order; the first error stops it.
pub open spec fn expand_all(t: TopologyView, ds: Seq<SubsystemDecl>) -> Result<TopologyView, Seq<char>>
    decreases ds.len(),
{
    if ds.len() == 0 {
        Ok(t)
    } else {
        match expand_all(t, ds.drop_last()) {
            Ok(t1) => llm_wiki(t1, ds.last()),
            Err(m) => Err(m),
        }
    }
}

fn expansion_error(m: String) -> (e: DeployError)
    ensures
        e == DeployError::SubsystemExpansionFailed(m),
{
    DeployError::SubsystemExpansionFailed(m)
}

/// Whether `path`, without trailing slashes, is the `llm-wiki` template path.
fn is_llm_wiki_path(path: &str) -> (b: bool)
    ensures
        b == (trim_end_slashes(path@) == "subsystems/llm-wiki"@),
{
    let mut v = chars_of(path);
    while v.len() > 0 && v[v.len() - 1] == '/'
        invariant
            trim_end_slashes(v@) == trim_end_slashes(path@),
        decreases v.len(),
    {
        v.pop();
    }
    chars_eq_str(v.as_slice(), "subsystems/llm-wiki")
}

/// Index of the first agent named `n`.
fn agent_index(agents: &Vec<Agent>, n: &str) -> (r: Option<usize>)
    ensures
        match r {
            Some(i) => first_agent_index(agent_views(agents@), n@) == Some(i as int) && i < agents@.len(),
            None => first_agent_index(agent_views(agents@), n@) is None,
        },
{
    let ghost av = agent_views(agents@);
    for i in 0..agents.len()
        invariant
            av == agent_views(agents@),
            first_agent_index(av.take(i as int), n@) is None,
    {
        assert(av.take(i + 1).drop_last() =~= av.take(i as int));
        if str_eq(agents[i].name.as_str(), n) {
            proof {
                lemma_first_index_prefix(av, n@, i + 1);
                lemma_first_index_bounds(av, n@);
            }
            return Some(i);
        }
    }
    assert(av.take(agents@.len() as int) =~= av);
    None
}

/// The first index is in bounds.
proof fn lemma_first_index_bounds(s: Seq<AgentView>, n: Seq<char>)
    ensures
        first_agent_index(s, n) matches Some(i) ==> 0 <= i < s.len() && s[i].name == n,
    decreases s.len(),
{
    if s.len() > 0 {
        lemma_first_index_bounds(s.drop_last(), n);
    }
}

/// The first index found in a prefix stays the first in the whole list.
proof fn lemma_first_index_prefix(s: Seq<AgentView>, n: Seq<char>, k: int)
    requires
        0 <= k <= s.len(),
        first_agent_index(s.take(k), n) is Some,
    ensures
        first_agent_index(s, n) == first_agent_index(s.take(k), n),
    decreases s.len() - k,
{
    if k < s.len() {
        assert(s.take(k + 1).drop_last() =~= s.take(k));
        lemma_first_index_prefix(s, n, k + 1);
    } else {
        assert(s.take(k) =~= s);
    }
}

/// Whether a stream is named `n`.
fn stream_named(streams: &Vec<Stream>, n: &str) -> (b: bool)
    ensures
        b == has_stream(stream_views(streams@), n@),
{
    let ghost sv = stream_views(streams@);
    for i in 0..streams.len()
        invariant
            sv == stream_views(streams@),
            forall|j: int| 0 <= j < i ==> sv[j].name != n@,
    {
        if str_eq(streams[i].name.as_str(), n) {
            assert(sv[i as int].name == n@);
            return true;
        }
    }
    false
}

/// `a + b` as a string.
fn concat2(a: &str, b: &str) -> (r: String)
    ensures
        r@ == a@ + b@,
{
    let mut r = String::new();
    push_str(&mut r, a);
    push_str(&mut r, b);
    assert(r@ =~= a@ + b@);
    r
}

/// `a + b + c` as a string.
fn concat3(a: &str, b: &str, c: &str) -> (r: String)
    ensures
        r@ == a@ + b@ + c@,
{
    let mut r = String::new();
    push_str(&mut r, a);
    push_str(&mut r, b);
    push_str(&mut r, c);
    assert(r@ =~= a@ + b@ + c@);
    r
}

/// `a + b + c + d` as a string.
fn concat4(a: &str, b: &str, c: &str, d: &str) -> (r: String)
    ensures
        r@ == a@ + b@ + c@ + d@,
{
    let mut r = String::new();
    push_str(&mut r, a);
    push_str(&mut r, b);
    push_str(&mut r, c);
    push_str(&mut r, d);
    assert(r@ =~= a@ + b@ + c@ + d@);
    r
}

/// A volume mount of the library.
fn library_mount(volume: &String, mode: &str) -> (m: VolumeMount)
    ensures
        mount_view(m) == (MountView { name: volume@, mount: LIBRARY_MOUNT_PATH@, mode: Some(mode@) }),
{
    VolumeMount { name: volume.clone(), mount: String::from_str(LIBRARY_MOUNT_PATH), mount_mode: Some(String::from_str(mode)) }
}

/// Gives member `a` the read-only library mount and its write stream.
fn add_library(a: Agent, volume: &String, eot: &String) -> (r: Agent)
    ensures
        agent_view(r) == with_library(agent_view(a), volume@, eot@),
{
    let Agent { name, image, replicas, streams, persona, skills, topology_edit, mut volumes, env } = a;
    let ghost vs0 = volumes@;
    let m = library_mount(volume, "ro");
    volumes.push(m);
    assert(mount_views(volumes@) =~= mount_views(vs0).push(mount_view(m)));
    let mut e = match env {
        Some(e) => e,
        None => {
            let e = StrMap::new();
            assert(e.pairs() =~= Seq::<(Seq<char>, Seq<char>)>::empty());
            e
        },
    };
    e.insert_str(String::from_str("WH_LIBRARY_WRITE_STREAM"), eot.clone());
    Agent { name, image, replicas, streams, persona, skills, topology_edit, volumes, env: Some(e) }
}

/// The end-of-turn stream names of the members.
fn make_eot_names(members: &Vec<String>, library: &String) -> (r: Vec<String>)
    ensures
        string_views(r@) == eot_names(string_views(members@), library@),
{
    let mut r: Vec<String> = Vec::new();
    for i in 0..members.len()
        invariant
            string_views(r@) == eot_names(string_views(members@), library@).take(i as int),
    {
        let s = concat4("eot-", members[i].as_str(), "-", library.as_str());
        let ghost before = r@;
        r.push(s);
        assert(string_views(r@) =~= string_views(before).push(s@));
        assert(eot_names(string_views(members@), library@).take(i + 1) =~= eot_names(string_views(members@), library@).take(
            i as int,
        ).push(eot_name(members@[i as int]@, library@)));
    }
    assert(eot_names(string_views(members@), library@).take(members@.len() as int) =~= eot_names(
        string_views(members@),
        library@,
    ));
    r
}

/// The librarian's environment map.
fn make_librarian_env(eots: &Vec<String>, library: &String, librarian: &String, decl: &SubsystemDecl) -> (m: StrMap<String>)
    ensures
        m.pairs() == librarian_env(string_views(eots@), library@, librarian@, *decl),
{
    let mut m: StrMap<String> = StrMap::new();
    assert(m.pairs() =~= Seq::<(Seq<char>, Seq<char>)>::empty());
    m.insert_str(String::from_str("WH_STREAMS"), join_strings(eots.as_slice(), ","));
    assert(m.pairs() =~= seq![("WH_STREAMS"@, join(string_views(eots@), ","@))]);
    m.insert_str(String::from_str("WH_LIBRARY_PATH"), String::from_str(LIBRARY_MOUNT_PATH));
    m.insert_str(String::from_str("WH_LIBRARY_ID"), library.clone());
    m.insert_str(String::from_str("WH_AGENT_NAME"), librarian.clone());
    if let Some(l) = &decl.locales {
        m.insert_str(String::from_str("WH_LIBRARIAN_LOCALES"), join_strings(l.as_slice(), ","));
    }
    if let Some(p) = &decl.decision_prompt {
        m.insert_str(String::from_str("WH_DECISION_PROMPT"), p.clone());
    }
    m
}

/// Expand one `llm-wiki` declaration.
#[verifier::loop_isolation(false)]
fn expand_llm_wiki(topology: Topology, decl: &SubsystemDecl) -> (r: Result<Topology, DeployError>)
    ensures
        match llm_wiki(topology_view(topology), *decl) {
            Ok(v) => r is Ok && topology_view(r->Ok_0) == v,
            Err(m) => r is Err && r->Err_0 == DeployError::SubsystemExpansionFailed(r->Err_0->SubsystemExpansionFailed_0)
                && r->Err_0->SubsystemExpansionFailed_0@ == m,
        },
{
    let ghost tv = topology_view(topology);
    let ghost ms = string_views(decl.members@);
    if !is_llm_wiki_path(decl.path.as_str()) {
        let m = concat3("unknown subsystem path '", decl.path.as_str(), "', expected 'subsystems/llm-wiki/'");
        assert(m@ =~= "unknown subsystem path '"@ + decl.path@ + "', expected 'subsystems/llm-wiki/'"@);
        return Err(expansion_error(m));
    }
    if decl.members.len() == 0 {
        return Err(expansion_error(String::from_str("subsystem 'llm-wiki' requires at least one member agent")));
    }
    let library = match &decl.library_name {
        Some(l) => l.clone(),
        None => topology.name.clone(),
    };
    let n = decl.members.len();
    for i in 0..n
        invariant
            n == decl.members@.len(),
            ms == string_views(decl.members@),
            tv == topology_view(topology),
            first_missing_member(ms.take(i as int), tv.agents) is None,
    {
        assert(ms.take(i + 1).drop_last() =~= ms.take(i as int));
        if agent_index(&topology.agents, decl.members[i].as_str()).is_none() {
            proof { lemma_first_missing_prefix(ms, tv.agents, i + 1); }
            let m = concat3("member '", decl.members[i].as_str(), "' not found in topology agents");
            assert(m@ =~= "member '"@ + ms[i as int] + "' not found in topology agents"@);
            return Err(expansion_error(m));
        }
    }
    assert(ms.take(n as int) =~= ms);
    let volume = concat4("wh-", topology.name.as_str(), "-llm-wiki-", library.as_str());
    let librarian = concat2("librarian-", library.as_str());
    assert(librarian@ =~= "librarian-"@ + library@);
    if agent_index(&topology.agents, librarian.as_str()).is_some() {
        let m = concat3("duplicate agent name '", librarian.as_str(), "' \u{2014} already exists in topology");
        assert(m@ =~= "duplicate agent name '"@ + librarian@ + "' \u{2014} already exists in topology"@);
        return Err(expansion_error(m));
    }
    let eots = make_eot_names(&decl.members, &library);
    let ghost ev = string_views(eots@);
    for i in 0..n
        invariant
            n == eots@.len(),
            ev == string_views(eots@),
            tv == topology_view(topology),
            first_taken_stream(ev.take(i as int), tv.streams) is None,
    {
        assert(ev.take(i + 1).drop_last() =~= ev.take(i as int));
        if stream_named(&topology.streams, eots[i].as_str()) {
            proof { lemma_first_taken_prefix(ev, tv.streams, i + 1); }
            let m = concat3("duplicate stream name '", eots[i].as_str(), "' \u{2014} already exists in topology");
            assert(m@ =~= "duplicate stream name '"@ + ev[i as int] + "' \u{2014} already exists in topology"@);
            return Err(expansion_error(m));
        }
    }
    assert(ev.take(n as int) =~= ev);
    let Topology { api_version, name, broker, skills_repo, mut agents, mut streams, surfaces, guardrails, subsystems } = topology;
    // End-of-turn streams.
    let ghost s0 = stream_views(streams@);
    for i in 0..n
        invariant
            n == eots@.len(),
            ev == string_views(eots@),
            stream_views(streams@) == s0 + eot_streams(ev, library@).take(i as int),
    {
        let description = concat3("End-of-turn events for llm-wiki subsystem '", library.as_str(), "'");
        assert(description@ =~= eot_description(library@));
        let s = Stream { name: eots[i].clone(), retention: None, description: Some(description) };
        let ghost before = streams@;
        streams.push(s);
        assert(stream_views(streams@) =~= stream_views(before).push(stream_view(s)));
        assert(eot_streams(ev, library@).take(i + 1) =~= eot_streams(ev, library@).take(i as int).push(stream_view(s)));
        assert(stream_views(streams@) =~= s0 + eot_streams(ev, library@).take(i + 1));
    }
    assert(eot_streams(ev, library@).take(n as int) =~= eot_streams(ev, library@));
    // The librarian.
    let env = make_librarian_env(&eots, &library, &librarian, decl);
    let mut lib_volumes: Vec<VolumeMount> = Vec::new();
    let lm = library_mount(&volume, "rw");
    lib_volumes.push(lm);
    assert(mount_views(lib_volumes@) =~= seq![mount_view(lm)]);
    let lib_agent = Agent {
        name: librarian,
        image: String::from_str(LIBRARIAN_IMAGE),
        replicas: 1,
        streams: eots.clone(),
        persona: None,
        skills: None,
        topology_edit: None,
        volumes: lib_volumes,
        env: Some(env),
    };
    let ghost a0 = agent_views(agents@);
    agents.push(lib_agent);
    assert(agent_views(agents@) =~= a0.push(agent_view(lib_agent)));
    // Members.
    let ghost start = agent_views(agents@);
    for i in 0..n
        invariant
            n == decl.members@.len(),
            n == eots@.len(),
            ms == string_views(decl.members@),
            ev == string_views(eots@),
            agent_views(agents@) == augment_members(start, ms, ev, volume@, i as nat),
    {
        match agent_index(&agents, decl.members[i].as_str()) {
            Some(k) => {
                let ghost before = agents@;
                let a = agents.remove(k);
                let a2 = add_library(a, &volume, &eots[i]);
                agents.insert(k, a2);
                assert(agents@ =~= before.update(k as int, a2));
                assert(agent_views(agents@) =~= agent_views(before).update(k as int, agent_view(a2)));
            },
            None => {},
        }
    }
    let t = Topology { api_version, name, broker, skills_repo, agents, streams, surfaces, guardrails, subsystems };
    assert(topology_view(t).agents == augment_members(tv.agents.push(agent_view(lib_agent)), ms, ev, volume@, ms.len()));
    Ok(t)
}

/// A missing member found in a prefix is the first missing of the whole list.
proof fn lemma_first_missing_prefix(ms: Seq<Seq<char>>, agents: Seq<AgentView>, k: int)
    requires
        0 <= k <= ms.len(),
        first_missing_member(ms.take(k), agents) is Some,
    ensures
        first_missing_member(ms, agents) == first_missing_member(ms.take(k), agents),
    decreases ms.len() - k,
{
    if k < ms.len() {
        assert(ms.take(k + 1).drop_last() =~= ms.take(k));
        lemma_first_missing_prefix(ms, agents, k + 1);
    } else {
        assert(ms.take(k) =~= ms);
    }
}

/// A taken name found in a prefix is the first taken of the whole list.
proof fn lemma_first_taken_prefix(names: Seq<Seq<char>>, streams: Seq<StreamView>, k: int)
    requires
        0 <= k <= names.len(),
        first_taken_stream(names.take(k), streams) is Some,
    ensures
        first_taken_stream(names, streams) == first_taken_stream(names.take(k), streams),
    decreases names.len() - k,
{
    if k < names.len() {
        assert(names.take(k + 1).drop_last() =~= names.take(k));
        lemma_first_taken_prefix(names, streams, k + 1);
    } else {
        assert(names.take(k) =~= names);
    }
}

/// Whether an agent is named `n`.
pub open spec fn has_agent(s: Seq<AgentView>, n: Seq<char>) -> bool {
    exists|j: int| 0 <= j < s.len() && #[trigger] s[j].name == n
}

proof fn lemma_first_index_some(s: Seq<AgentView>, n: Seq<char>)
    ensures
        first_agent_index(s, n) is Some <==> has_agent(s, n),
    decreases s.len(),
{
    lemma_first_index_bounds(s, n);
    if s.len() > 0 {
        let d = s.drop_last();
        lemma_first_index_some(d, n);
        if has_agent(d, n) {
            let j = choose|j: int| 0 <= j < d.len() && #[trigger] d[j].name == n;
            assert(s[j] == d[j]);
        }
        if has_agent(s, n) && !has_agent(d, n) {
            let j = choose|j: int| 0 <= j < s.len() && #[trigger] s[j].name == n;
            if j < d.len() {
                assert(d[j] == s[j]);
            }
        }
    }
}

proof fn lemma_first_missing_some(ms: Seq<Seq<char>>, agents: Seq<AgentView>)
    ensures
        first_missing_member(ms, agents) is Some <==> exists|i: int| 0 <= i < ms.len() && !has_agent(agents, #[trigger] ms[i]),
    decreases ms.len(),
{
    if ms.len() > 0 {
        let d = ms.drop_last();
        lemma_first_missing_some(d, agents);
        lemma_first_index_some(agents, ms.last());
        if exists|i: int| 0 <= i < d.len() && !has_agent(agents, #[trigger] d[i]) {
            let i = choose|i: int| 0 <= i < d.len() && !has_agent(agents, #[trigger] d[i]);
            assert(ms[i] == d[i]);
        }
        if exists|i: int| 0 <= i < ms.len() && !has_agent(agents, #[trigger] ms[i]) {
            let i = choose|i: int| 0 <= i < ms.len() && !has_agent(agents, #[trigger] ms[i]);
            if i < d.len() {
                assert(d[i] == ms[i]);
            }
        }
        assert(ms[ms.len() - 1] == ms.last());
    }
}

proof fn lemma_first_taken_some(names: Seq<Seq<char>>, streams: Seq<StreamView>)
    ensures
        first_taken_stream(names, streams) is Some <==> exists|i: int| 0 <= i < names.len() && has_stream(streams, #[trigger] names[i]),
    decreases names.len(),
{
    if names.len() > 0 {
        let d = names.drop_last();
        lemma_first_taken_some(d, streams);
        if exists|i: int| 0 <= i < d.len() && has_stream(streams, #[trigger] d[i]) {
            let i = choose|i: int| 0 <= i < d.len() && has_stream(streams, #[trigger] d[i]);
            assert(names[i] == d[i]);
        }
        if exists|i: int| 0 <= i < names.len() && has_stream(streams, #[trigger] names[i]) {
            let i = choose|i: int| 0 <= i < names.len() && has_stream(streams, #[trigger] names[i]);
            if i < d.len() {
                assert(d[i] == names[i]);
            }
        }
        assert(names[names.len() - 1] == names.last());
    }
}

proof fn lemma_augment_keeps_names(agents: Seq<AgentView>, ms: Seq<Seq<char>>, eots: Seq<Seq<char>>, volume: Seq<char>, n: nat)
    requires
        n <= ms.len(),
        n <= eots.len(),
    ensures
        augment_members(agents, ms, eots, volume, n).len() == agents.len(),
        forall|i: int| 0 <= i < agents.len() ==> #[trigger] augment_members(agents, ms, eots, volume, n)[i].name == agents[i].name,
    decreases n,
{
    if n > 0 {
        let a = augment_members(agents, ms, eots, volume, (n - 1) as nat);
        lemma_augment_keeps_names(agents, ms, eots, volume, (n - 1) as nat);
        lemma_first_index_bounds(a, ms[n - 1]);
    }
}

/// The library an `llm-wiki` declaration names: its own, or the topology's.
pub open spec fn wiki_library(t: TopologyView, d: SubsystemDecl) -> Seq<char> {
    match d.library_name {
        Some(l) => l@,
        None => t.name,
    }
}

/// When an `llm-wiki` declaration is refused: its path (without trailing
/// slashes) is not `subsystems/llm-wiki`, it has no member, a member names
/// no agent, the librarian's name is taken by an agent, or an end-of-turn
/// stream's name is taken by a stream.
pub open spec fn llm_wiki_refused(t: TopologyView, d: SubsystemDecl) -> bool {
    let ms = string_views(d.members@);
    let library = wiki_library(t, d);
    ||| trim_end_slashes(d.path@) != "subsystems/llm-wiki"@
    ||| ms.len() == 0
    ||| exists|i: int| 0 <= i < ms.len() && !has_agent(t.agents, #[trigger] ms[i])
    ||| has_agent(t.agents, "librarian-"@ + library)
    ||| exists|i: int| 0 <= i < ms.len() && has_stream(t.streams, #[trigger] eot_name(ms[i], library))
}

/// An `llm-wiki` declaration is refused exactly in the cases above. When it
/// is accepted, the agents keep their names and order and gain the
/// librarian at the end, and the streams are kept in order and gain one
/// end-of-turn stream per member at the end; every other field stays.
pub proof fn law_llm_wiki_refusals(t: TopologyView, d: SubsystemDecl)
    ensures
        llm_wiki(t, d) is Err <==> llm_wiki_refused(t, d),
        llm_wiki(t, d) matches Ok(e) ==> {
            let ms = string_views(d.members@);
            let library = wiki_library(t, d);
            &&& e.agents.len() == t.agents.len() + 1
            &&& forall|i: int| 0 <= i < t.agents.len() ==> #[trigger] e.agents[i].name == t.agents[i].name
            &&& e.agents.last().name == "librarian-"@ + library
            &&& e.streams == t.streams + eot_streams(eot_names(ms, library), library)
            &&& e.streams.len() == t.streams.len() + d.members@.len()
            &&& e == (TopologyView { agents: e.agents, streams: e.streams, ..t })
        },
{
    let ms = string_views(d.members@);
    let library = wiki_library(t, d);
    let eots = eot_names(ms, library);
    lemma_first_missing_some(ms, t.agents);
    lemma_first_index_some(t.agents, "librarian-"@ + library);
    lemma_first_taken_some(eots, t.streams);
    if exists|i: int| 0 <= i < eots.len() && has_stream(t.streams, #[trigger] eots[i]) {
        let i = choose|i: int| 0 <= i < eots.len() && has_stream(t.streams, #[trigger] eots[i]);
        assert(eots[i] == eot_name(ms[i], library));
    }
    if exists|i: int| 0 <= i < ms.len() && has_stream(t.streams, #[trigger] eot_name(ms[i], library)) {
        let i = choose|i: int| 0 <= i < ms.len() && has_stream(t.streams, #[trigger] eot_name(ms[i], library));
        assert(eots[i] == eot_name(ms[i], library));
    }
    if llm_wiki(t, d) is Ok {
        let e = llm_wiki(t, d)->Ok_0;
        let lib_agents = llm_wiki_librarian_pushed(t, d);
        lemma_augment_keeps_names(lib_agents, ms, eots, "wh-"@ + t.name + "-llm-wiki-"@ + library, ms.len());
        assert forall|i: int| 0 <= i < t.agents.len() implies #[trigger] e.agents[i].name == t.agents[i].name by {
            assert(lib_agents[i] == t.agents[i]);
        }
        assert(e.agents.last() == e.agents[e.agents.len() - 1]);
        assert(d.members@.len() == ms.len());
    }
}

/// The agents of an accepted `llm-wiki` declaration before the members
/// are augmented: the topology's agents, then the librarian.
spec fn llm_wiki_librarian_pushed(t: TopologyView, d: SubsystemDecl) -> Seq<AgentView> {
    let ms = string_views(d.members@);
    let library = wiki_library(t, d);
    let volume = "wh-"@ + t.name + "-llm-wiki-"@ + library;
    let librarian = "librarian-"@ + library;
    let eots = eot_names(ms, library);
    t.agents.push(AgentView {
        name: librarian,
        image: LIBRARIAN_IMAGE@,
        replicas: 1,
        streams: eots,
        persona: None,
        skills: None,
        topology_edit: None,
        volumes: seq![MountView { name: volume, mount: LIBRARY_MOUNT_PATH@, mode: Some("rw"@) }],
        env: Some(librarian_env(eots, library, librarian, d)),
    })
}

/// Expanding declarations keeps the declarations field of the topology it
/// started from (empty when expanding a parsed topology).
pub proof fn law_expand_all_keeps_subsystems(t: TopologyView, ds: Seq<SubsystemDecl>)
    ensures
        expand_all(t, ds) matches Ok(e) ==> e.subsystems == t.subsystems,
    decreases ds.len(),
{
    if ds.len() > 0 {
        law_expand_all_keeps_subsystems(t, ds.drop_last());
    }
}

/// Expand all subsystem declarations of a topology into concrete agents,
/// streams, volume mounts and environment variables; the result has no
/// subsystem declarations left. A topology without declarations comes back
/// as it is.
#[verifier::loop_isolation(false)]
pub fn expand_subsystems(topology: Topology) -> (r: Result<Topology, DeployError>)
    ensures
        topology.subsystems@.len() == 0 ==> r == Ok::<Topology, DeployError>(topology),
        topology.subsystems@.len() > 0 ==> match expand_all(
            TopologyView { subsystems: Seq::empty(), ..topology_view(topology) },
            topology.subsystems@,
        ) {
            Ok(v) => r is Ok && topology_view(r->Ok_0) == v,
            Err(m) => r is Err && r->Err_0 == DeployError::SubsystemExpansionFailed(r->Err_0->SubsystemExpansionFailed_0)
                && r->Err_0->SubsystemExpansionFailed_0@ == m,
        },
{
    if topology.subsystems.len() == 0 {
        return Ok(topology);
    }
    let ghost ds = topology.subsystems@;
    let Topology { api_version, name, broker, skills_repo, agents, streams, surfaces, guardrails, subsystems } = topology;
    let mut t = Topology { api_version, name, broker, skills_repo, agents, streams, surfaces, guardrails, subsystems: Vec::new() };
    let ghost t0 = topology_view(t);
    assert(t0 == TopologyView { subsystems: Seq::empty(), ..topology_view(topology) });
    let n = subsystems.len();
    for i in 0..n
        invariant
            n == subsystems@.len(),
            ds == subsystems@,
            expand_all(t0, ds.take(i as int)) == Ok::<TopologyView, Seq<char>>(topology_view(t)),
    {
        assert(ds.take(i + 1).drop_last() =~= ds.take(i as int));
        match expand_llm_wiki(t, &subsystems[i]) {
            Ok(t1) => {
                t = t1;
            },
            Err(e) => {
                proof { lemma_expand_err_prefix(t0, ds, i + 1); }
                return Err(e);
            },
        }
    }
    assert(ds.take(n as int) =~= ds);
    Ok(t)
}

/// An error on a prefix of the declarations is the answer for all of them.
proof fn lemma_expand_err_prefix(t: TopologyView, ds: Seq<SubsystemDecl>, k: int)
    requires
        0 <= k <= ds.len(),
        expand_all(t, ds.take(k)) is Err,
    ensures
        expand_all(t, ds) == expand_all(t, ds.take(k)),
    decreases ds.len() - k,
{
    if k < ds.len() {
        assert(ds.take(k + 1).drop_last() =~= ds.take(k));
        lemma_expand_err_prefix(t, ds, k + 1);
    } else {
        assert(ds.take(k) =~= ds);
    }
}

} // verus!
