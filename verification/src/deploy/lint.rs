//! Lint step of the deploy pipeline: after parsing, a topology has its
//! subsystems expanded and its volume mounts checked, and becomes a
//! `LintedFile` that the plan step consumes.
//!
//! Reading `.wh` files and parsing their YAML is left to the caller.

use vstd::prelude::*;
use crate::deploy::composition::{AgentView, MountView, agent_view, agent_views, expand_all, mount_view, mount_views, topology_view, TopologyView};
use crate::deploy::composition::expand_subsystems;
use crate::deploy::merge::ComponentSourceMap;
use crate::deploy::plan::{insert_sorted, insert_sorted_vec, lemma_sorted_names_complete, sorted_names};
use crate::deploy::podman::{volume_name, volume_names_spec};
use crate::deploy::{Agent, DeployError, Topology, VolumeMount};
use crate::text::{join, join_strings, push_str, str_eq, string_views};
use vstd::string::StringExecFns;

verus! {

/// A linted topology: parsed, expanded and validated. The plan step takes it.
#[derive(Debug)]
pub struct LintedFile {
    pub topology: Topology,
    /// Path of the `.wh` file or folder it came from.
    pub source_path: String,
    /// Component key to source file.
    pub source_map: ComponentSourceMap,
}

impl LintedFile {
    /// The parsed topology.
    pub fn topology(&self) -> (t: &Topology)
        ensures
            *t == self.topology,
    {
        &self.topology
    }

    /// The source path.
    pub fn source_path(&self) -> (p: &str)
        ensures
            p@ == self.source_path@,
    {
        self.source_path.as_str()
    }

    /// The component source map.
    pub fn source_map(&self) -> (m: &ComponentSourceMap)
        ensures
            m.entries.pairs() == self.source_map.entries.pairs(),
    {
        &self.source_map
    }
}

/// One volume mount of an agent: volume name, agent name, and whether it
/// writes (the mode is `rw`, the default).
pub struct MountUse {
    pub volume: Seq<char>,
    pub agent: Seq<char>,
    pub writes: bool,
}

pub open spec fn writes_mode(m: Option<Seq<char>>) -> bool {
    match m {
        Some(s) => s == "rw"@,
        None => true,
    }
}

pub open spec fn agent_mounts(a: AgentView) -> Seq<MountUse> {
    a.volumes.map_values(|v: MountView| MountUse { volume: v.name, agent: a.name, writes: writes_mode(v.mode) })
}

/// Every volume mount of the agents, agent by agent, in declaration order.
pub open spec fn all_mounts(agents: Seq<AgentView>) -> Seq<MountUse>
    decreases agents.len(),
{
    if agents.len() == 0 {
        Seq::empty()
    } else {
        all_mounts(agents.drop_last()) + agent_mounts(agents.last())
    }
}

/// The standard volumes of a topology: its data volumes and its platform volume.
pub open spec fn standard_volumes(topology: Seq<char>) -> Seq<Seq<char>> {
    volume_names_spec(topology).push(volume_name(topology, "platform"@))
}

/// The first mount of a standard volume.
pub open spec fn first_collision(ms: Seq<MountUse>, standard: Seq<Seq<char>>) -> Option<Seq<char>>
    decreases ms.len(),
{
    if ms.len() == 0 {
        None
    } else {
        match first_collision(ms.drop_last(), standard) {
            Some(v) => Some(v),
            None => if standard.contains(ms.last().volume) {
                Some(ms.last().volume)
            } else {
                None
            },
        }
    }
}

/// The agents that mount volume `v` for writing, in order.
pub open spec fn writers(ms: Seq<MountUse>, v: Seq<char>) -> Seq<Seq<char>>
    decreases ms.len(),
{
    if ms.len() == 0 {
        Seq::empty()
    } else {
        let w = writers(ms.drop_last(), v);
        if ms.last().volume == v && ms.last().writes {
            w.push(ms.last().agent)
        } else {
            w
        }
    }
}

/// The first volume, in name order, with more than one writer.
pub open spec fn first_shared_writer(names: Seq<Seq<char>>, ms: Seq<MountUse>) -> Option<Seq<char>>
    decreases names.len(),
{
    if names.len() == 0 {
        None
    } else {
        match first_shared_writer(names.drop_last(), ms) {
            Some(v) => Some(v),
            None => if writers(ms, names.last()).len() > 1 {
                Some(names.last())
            } else {
                None
            },
        }
    }
}

/// What the volume check answers: a standard volume mounted by an agent, or
/// a volume with more than one writer, is an error with this message.
pub open spec fn volume_check(t: TopologyView) -> Option<Seq<char>> {
    let ms = all_mounts(t.agents);
    match first_collision(ms, standard_volumes(t.name)) {
        Some(v) => Some("Duplicate volume name: '"@ + v + "' collides with a standard topology volume"@),
        None => match first_shared_writer(sorted_names(ms.map_values(|m: MountUse| m.volume)), ms) {
            Some(v) => Some("Volume '"@ + v + "' has multiple rw mounts ("@ + join(writers(ms, v), ", "@)
                + ") \u{2014} single-writer invariant violated"@),
            None => None,
        },
    }
}

pub open spec fn use_views(u: Seq<(String, String, bool)>) -> Seq<MountUse> {
    u.map_values(|u: (String, String, bool)| MountUse { volume: u.0@, agent: u.1@, writes: u.2 })
}

fn mount_uses(agents: &Vec<Agent>) -> (r: Vec<(String, String, bool)>)
    ensures
        use_views(r@) == all_mounts(agent_views(agents@)),
{
    let ghost av = agent_views(agents@);
    let mut r: Vec<(String, String, bool)> = Vec::new();
    for i in 0..agents.len()
        invariant
            av == agent_views(agents@),
            use_views(r@) == all_mounts(av.take(i as int)),
    {
        assert(av.take(i + 1).drop_last() =~= av.take(i as int));
        let a = &agents[i];
        let ghost am = agent_mounts(av[i as int]);
        assert(av.take(i + 1).last() == agent_view(*a));
        let ghost base = use_views(r@);
        for j in 0..a.volumes.len()
            invariant
                base == all_mounts(av.take(i as int)),
                am == agent_mounts(agent_view(*a)),
                use_views(r@) == base + am.take(j as int),
        {
            let v = &a.volumes[j];
            let writes = match &v.mount_mode {
                Some(m) => str_eq(m.as_str(), "rw"),
                None => true,
            };
            let ghost before = r@;
            r.push((v.name.clone(), a.name.clone(), writes));
            assert(mount_views(a.volumes@)[j as int] == mount_view(*v));
            assert(use_views(r@) =~= use_views(before).push(am[j as int]));
            assert(am.take(j + 1) =~= am.take(j as int).push(am[j as int]));
        }
        assert(am.take(a.volumes@.len() as int) =~= am);
    }
    assert(av.take(agents@.len() as int) =~= av);
    r
}

fn contains_name(names: &Vec<String>, n: &str) -> (b: bool)
    ensures
        b == string_views(names@).contains(n@),
{
    for i in 0..names.len()
        invariant
            forall|j: int| 0 <= j < i ==> names@[j]@ != n@,
    {
        if str_eq(names[i].as_str(), n) {
            assert(string_views(names@)[i as int] == n@);
            return true;
        }
    }
    assert(!string_views(names@).contains(n@)) by {
        if string_views(names@).contains(n@) {
            let j = choose|j: int| 0 <= j < string_views(names@).len() && string_views(names@)[j] == n@;
            assert(names@[j]@ == n@);
        }
    }
    false
}

/// Validate the volume mounts of an expanded topology: no agent may mount
/// one of the topology's standard volumes (wal, users, skills, personas,
/// context, platform), and at most one agent may mount a volume read-write.
#[verifier::loop_isolation(false)]
pub fn validate_volume_mounts(topology: &Topology) -> (r: Result<(), DeployError>)
    ensures
        match volume_check(topology_view(*topology)) {
            None => r is Ok,
            Some(m) => r is Err && r->Err_0 is InvalidTopology && r->Err_0->InvalidTopology_0@ == m,
        },
{
    let mut standard = crate::deploy::podman::volume_names(topology.name.as_str());
    let platform = crate::deploy::podman::platform_volume_name(topology.name.as_str());
    let ghost s0 = standard@;
    standard.push(platform);
    assert(string_views(standard@) =~= string_views(s0).push(platform@));
    let uses = mount_uses(&topology.agents);
    let ghost ms = use_views(uses@);
    let ghost st = standard_volumes(topology.name@);
    for i in 0..uses.len()
        invariant
            ms == use_views(uses@),
            string_views(standard@) == st,
            first_collision(ms.take(i as int), st) is None,
    {
        assert(ms.take(i + 1).drop_last() =~= ms.take(i as int));
        if contains_name(&standard, uses[i].0.as_str()) {
            proof { lemma_collision_prefix(ms, st, i + 1); }
            let mut m = String::new();
            push_str(&mut m, "Duplicate volume name: '");
            push_str(&mut m, uses[i].0.as_str());
            push_str(&mut m, "' collides with a standard topology volume");
            return Err(DeployError::InvalidTopology(m));
        }
    }
    assert(ms.take(uses@.len() as int) =~= ms);
    let mut names: Vec<String> = Vec::new();
    let ghost vols = ms.map_values(|m: MountUse| m.volume);
    for i in 0..uses.len()
        invariant
            ms == use_views(uses@),
            vols == ms.map_values(|m: MountUse| m.volume),
            string_views(names@) == sorted_names(vols.take(i as int)),
    {
        assert(vols.take(i + 1).drop_last() =~= vols.take(i as int));
        insert_sorted_vec(&mut names, uses[i].0.clone());
    }
    assert(vols.take(uses@.len() as int) =~= vols);
    let ghost sn = string_views(names@);
    for k in 0..names.len()
        invariant
            ms == use_views(uses@),
            sn == string_views(names@),
            first_shared_writer(sn.take(k as int), ms) is None,
    {
        assert(sn.take(k + 1).drop_last() =~= sn.take(k as int));
        let v = names[k].as_str();
        let mut w: Vec<String> = Vec::new();
        for i in 0..uses.len()
            invariant
                ms == use_views(uses@),
                string_views(w@) == writers(ms.take(i as int), v@),
        {
            assert(ms.take(i + 1).drop_last() =~= ms.take(i as int));
            if uses[i].2 && str_eq(uses[i].0.as_str(), v) {
                let ghost before = w@;
                w.push(uses[i].1.clone());
                assert(string_views(w@) =~= string_views(before).push(uses@[i as int].1@));
            }
        }
        assert(ms.take(uses@.len() as int) =~= ms);
        if w.len() > 1 {
            proof { lemma_shared_prefix(sn, ms, k + 1); }
            let mut m = String::new();
            push_str(&mut m, "Volume '");
            push_str(&mut m, v);
            push_str(&mut m, "' has multiple rw mounts (");
            let joined = join_strings(w.as_slice(), ", ");
            push_str(&mut m, joined.as_str());
            push_str(&mut m, ") \u{2014} single-writer invariant violated");
            return Err(DeployError::InvalidTopology(m));
        }
    }
    assert(sn.take(names@.len() as int) =~= sn);
    Ok(())
}

proof fn lemma_collision_prefix(ms: Seq<MountUse>, st: Seq<Seq<char>>, k: int)
    requires
        0 <= k <= ms.len(),
        first_collision(ms.take(k), st) is Some,
    ensures
        first_collision(ms, st) == first_collision(ms.take(k), st),
    decreases ms.len() - k,
{
    if k < ms.len() {
        assert(ms.take(k + 1).drop_last() =~= ms.take(k));
        lemma_collision_prefix(ms, st, k + 1);
    } else {
        assert(ms.take(k) =~= ms);
    }
}

proof fn lemma_shared_prefix(names: Seq<Seq<char>>, ms: Seq<MountUse>, k: int)
    requires
        0 <= k <= names.len(),
        first_shared_writer(names.take(k), ms) is Some,
    ensures
        first_shared_writer(names, ms) == first_shared_writer(names.take(k), ms),
    decreases names.len() - k,
{
    if k < names.len() {
        assert(names.take(k + 1).drop_last() =~= names.take(k));
        lemma_shared_prefix(names, ms, k + 1);
    } else {
        assert(names.take(k) =~= names);
    }
}

proof fn lemma_first_collision_none(ms: Seq<MountUse>, st: Seq<Seq<char>>)
    ensures
        first_collision(ms, st) is None <==> forall|i: int| 0 <= i < ms.len() ==> !st.contains(#[trigger] ms[i].volume),
        first_collision(ms, st) matches Some(v) ==> st.contains(v) && exists|i: int| 0 <= i < ms.len() && #[trigger] ms[i].volume == v,
    decreases ms.len(),
{
    if ms.len() > 0 {
        let d = ms.drop_last();
        lemma_first_collision_none(d, st);
        if first_collision(d, st) is None {
            assert forall|i: int| 0 <= i < d.len() implies !st.contains(#[trigger] ms[i].volume) by {
                assert(ms[i] == d[i]);
            }
        } else {
            let v = first_collision(d, st)->0;
            let i = choose|i: int| 0 <= i < d.len() && #[trigger] d[i].volume == v;
            assert(ms[i] == d[i]);
        }
        if forall|i: int| 0 <= i < ms.len() ==> !st.contains(#[trigger] ms[i].volume) {
            assert forall|i: int| 0 <= i < d.len() implies !st.contains(#[trigger] d[i].volume) by {
                assert(ms[i] == d[i]);
            }
        }
        assert(ms[ms.len() - 1] == ms.last());
    }
}

proof fn lemma_first_shared_none(names: Seq<Seq<char>>, ms: Seq<MountUse>)
    ensures
        first_shared_writer(names, ms) is None <==> forall|j: int| 0 <= j < names.len() ==> #[trigger] writers(ms, names[j]).len() <= 1,
        first_shared_writer(names, ms) matches Some(v) ==> names.contains(v) && writers(ms, v).len() > 1,
    decreases names.len(),
{
    if names.len() > 0 {
        let d = names.drop_last();
        lemma_first_shared_none(d, ms);
        if first_shared_writer(d, ms) is None {
            assert forall|j: int| 0 <= j < d.len() implies #[trigger] writers(ms, names[j]).len() <= 1 by {
                assert(names[j] == d[j]);
            }
        } else {
            let v = first_shared_writer(d, ms)->0;
            let j = choose|j: int| 0 <= j < d.len() && d[j] == v;
            assert(names[j] == d[j]);
        }
        if forall|j: int| 0 <= j < names.len() ==> #[trigger] writers(ms, names[j]).len() <= 1 {
            assert forall|j: int| 0 <= j < d.len() implies #[trigger] writers(ms, d[j]).len() <= 1 by {
                assert(names[j] == d[j]);
            }
        }
        assert(names[names.len() - 1] == names.last());
    }
}

proof fn lemma_writers_mounted(ms: Seq<MountUse>, v: Seq<char>)
    ensures
        writers(ms, v).len() > 0 ==> ms.map_values(|m: MountUse| m.volume).contains(v),
    decreases ms.len(),
{
    if ms.len() > 0 {
        let d = ms.drop_last();
        lemma_writers_mounted(d, v);
        let vs = ms.map_values(|m: MountUse| m.volume);
        let dv = d.map_values(|m: MountUse| m.volume);
        if dv.contains(v) {
            let i = choose|i: int| 0 <= i < dv.len() && dv[i] == v;
            assert(vs[i] == v);
        }
        assert(vs[ms.len() - 1] == ms.last().volume);
    }
}

/// Whether a topology's volume mounts are valid: no agent mounts one of the
/// topology's standard volumes (its data volumes and its platform volume),
/// and no volume has more than one mount in `rw` mode (the default).
pub open spec fn volumes_valid(t: TopologyView) -> bool {
    let ms = all_mounts(t.agents);
    &&& forall|i: int| 0 <= i < ms.len() ==> !standard_volumes(t.name).contains(#[trigger] ms[i].volume)
    &&& forall|v: Seq<char>| #[trigger] writers(ms, v).len() <= 1
}

/// The volume check passes exactly when the mounts are valid. When it
/// fails, it names either a standard volume that an agent mounts
/// ("Duplicate volume name"), or, when there is none, a volume with several
/// `rw` mounts together with its writers ("multiple rw mounts").
pub proof fn law_volume_check_iff(t: TopologyView)
    ensures
        volume_check(t) is None <==> volumes_valid(t),
        volume_check(t) matches Some(m) ==> {
            let ms = all_mounts(t.agents);
            ||| exists|i: int| 0 <= i < ms.len() && standard_volumes(t.name).contains(#[trigger] ms[i].volume)
                && m == "Duplicate volume name: '"@ + ms[i].volume + "' collides with a standard topology volume"@
            ||| exists|v: Seq<char>| #[trigger] writers(ms, v).len() > 1 && m == "Volume '"@ + v
                + "' has multiple rw mounts ("@ + join(writers(ms, v), ", "@) + ") \u{2014} single-writer invariant violated"@
        },
{
    let ms = all_mounts(t.agents);
    let st = standard_volumes(t.name);
    let vols = ms.map_values(|m: MountUse| m.volume);
    let names = sorted_names(vols);
    lemma_first_collision_none(ms, st);
    lemma_first_shared_none(names, ms);
    if first_collision(ms, st) is None && first_shared_writer(names, ms) is None {
        assert forall|v: Seq<char>| #[trigger] writers(ms, v).len() <= 1 by {
            lemma_writers_mounted(ms, v);
            lemma_sorted_names_complete(vols, v);
            if writers(ms, v).len() > 1 {
                let j = choose|j: int| 0 <= j < names.len() && names[j] == v;
                assert(writers(ms, names[j]).len() <= 1);
            }
        }
    }
    if volumes_valid(t) {
        assert(first_shared_writer(names, ms) is None);
    }
}

/// Lint a parsed topology read from `source_path`: expand its subsystems,
/// validate its volume mounts, and keep the source map it came with.
pub fn lint_topology(topology: Topology, source_path: String, source_map: ComponentSourceMap) -> (r: Result<LintedFile, DeployError>)
    ensures
        ({
            let expanded = if topology.subsystems@.len() == 0 {
                Ok::<TopologyView, Seq<char>>(topology_view(topology))
            } else {
                expand_all(TopologyView { subsystems: Seq::empty(), ..topology_view(topology) }, topology.subsystems@)
            };
            match expanded {
                Err(m) => r is Err && r->Err_0 is SubsystemExpansionFailed && r->Err_0->SubsystemExpansionFailed_0@ == m,
                Ok(v) => match volume_check(v) {
                    None => r is Ok && topology_view(r->Ok_0.topology) == v && r->Ok_0.source_path@ == source_path@
                        && r->Ok_0.source_map == source_map,
                    Some(m) => r is Err && r->Err_0 is InvalidTopology && r->Err_0->InvalidTopology_0@ == m,
                },
            }
        }),
{
    let expanded = match expand_subsystems(topology) {
        Ok(t) => t,
        Err(e) => return Err(e),
    };
    match validate_volume_mounts(&expanded) {
        Ok(()) => Ok(LintedFile { topology: expanded, source_path, source_map }),
        Err(e) => Err(e),
    }
}

} // verus!
