//! Folder-based composition: the `.wh` files of a folder, parsed one by one,
//! merged into one topology, with the file each component came from.

use vstd::prelude::*;
use crate::deploy::{Agent, BrokerSpec, DeployError, Guardrails, Stream, SubsystemDecl, Surface, Topology};
use crate::strmap::{StrMap, lemma_pairs_insert_lookup, pairs_insert, pairs_lookup};
use crate::text::{ends_with_seq, ends_with_str, push_str, str_eq, string_views};
use crate::deploy::plan::{insert_sorted_vec, sorted_names};
use vstd::string::StringExecFns;

verus! {

/// Tracks which source file each component came from; keys are
/// `agent:<name>`, `stream:<name>` and `surface:<name>`.
#[derive(Debug, Clone)]
pub struct ComponentSourceMap {
    /// Component key -> source filename.
    pub entries: StrMap<String>,
}

/// The progress of a merge over the files processed so far.
pub struct MergeState {
    pub agents: Seq<Agent>,
    pub streams: Seq<Stream>,
    pub surfaces: Seq<Surface>,
    pub subsystems: Seq<SubsystemDecl>,
    pub broker: Option<BrokerSpec>,
    pub broker_file: Option<Seq<char>>,
    pub skills_repo: Option<String>,
    pub skills_file: Option<Seq<char>>,
    pub guardrails: Option<Guardrails>,
    pub guardrails_file: Option<Seq<char>>,
    /// (agent name, file) for every agent merged so far.
    pub seen_agents: Seq<(Seq<char>, Seq<char>)>,
    pub seen_streams: Seq<(Seq<char>, Seq<char>)>,
    pub seen_surfaces: Seq<(Seq<char>, Seq<char>)>,
    /// The source map's pairs.
    pub sources: Seq<(Seq<char>, Seq<char>)>,
}

/// The state before any file is merged.
pub open spec fn merge_start() -> MergeState {
    MergeState {
        agents: Seq::empty(),
        streams: Seq::empty(),
        surfaces: Seq::empty(),
        subsystems: Seq::empty(),
        broker: None,
        broker_file: None,
        skills_repo: None,
        skills_file: None,
        guardrails: None,
        guardrails_file: None,
        seen_agents: Seq::empty(),
        seen_streams: Seq::empty(),
        seen_surfaces: Seq::empty(),
        sources: Seq::empty(),
    }
}

/// Message for a section declared by two files.
pub open spec fn conflict_msg(section: Seq<char>, prev: Seq<char>, cur: Seq<char>) -> Seq<char> {
    "conflicting "@ + section + ": declared in both '"@ + prev + "' and '"@ + cur + "'"@
}

/// Message for a component name declared twice.
pub open spec fn duplicate_msg(kind: Seq<char>, name: Seq<char>, prev: Seq<char>, cur: Seq<char>) -> Seq<char> {
    "duplicate "@ + kind + " name '"@ + name + "' across files: '"@ + prev + "' and '"@ + cur + "'"@
}

/// Adds the names of one file to the seen list, or finds the first name seen
/// before (within the earlier files or earlier in this file) with its file.
pub open spec fn add_names(seen: Seq<(Seq<char>, Seq<char>)>, names: Seq<Seq<char>>, file: Seq<char>) -> Result<
    Seq<(Seq<char>, Seq<char>)>,
    (Seq<char>, Seq<char>),
>
    decreases names.len(),
{
    if names.len() == 0 {
        Ok(seen)
    } else {
        match add_names(seen, names.drop_last(), file) {
            Err(e) => Err(e),
            Ok(s) => match pairs_lookup(s, names.last()) {
                Some(prev) => Err((names.last(), prev)),
                None => Ok(pairs_insert(s, names.last(), file)),
            },
        }
    }
}

/// The source map after recording `prefix + name -> file` for each name.
pub open spec fn add_sources(src: Seq<(Seq<char>, Seq<char>)>, names: Seq<Seq<char>>, prefix: Seq<char>, file: Seq<char>) -> Seq<(Seq<char>, Seq<char>)>
    decreases names.len(),
{
    if names.len() == 0 {
        src
    } else {
        pairs_insert(add_sources(src, names.drop_last(), prefix, file), prefix + names.last(), file)
    }
}

pub open spec fn agent_names(s: Seq<Agent>) -> Seq<Seq<char>> {
    s.map_values(|a: Agent| a.name@)
}

pub open spec fn stream_names(s: Seq<Stream>) -> Seq<Seq<char>> {
    s.map_values(|a: Stream| a.name@)
}

pub open spec fn surface_names(s: Seq<Surface>) -> Seq<Seq<char>> {
    s.map_values(|a: Surface| a.name@)
}

/// Merge one file into the state: section conflicts first (broker,
/// skills_repo, guardrails), then agents, streams and surfaces.
pub open spec fn merge_step(st: MergeState, file: Seq<char>, t: Topology) -> Result<MergeState, Seq<char>> {
    if t.broker is Some && st.broker_file is Some {
        Err(conflict_msg("broker sections"@, st.broker_file->0, file))
    } else if t.skills_repo is Some && st.skills_file is Some {
        Err(conflict_msg("skills_repo"@, st.skills_file->0, file))
    } else if t.guardrails is Some && st.guardrails_file is Some {
        Err(conflict_msg("guardrails sections"@, st.guardrails_file->0, file))
    } else {
        match add_names(st.seen_agents, agent_names(t.agents@), file) {
            Err((n, prev)) => Err(duplicate_msg("agent"@, n, prev, file)),
            Ok(sa) => match add_names(st.seen_streams, stream_names(t.streams@), file) {
                Err((n, prev)) => Err(duplicate_msg("stream"@, n, prev, file)),
                Ok(ss) => match add_names(st.seen_surfaces, surface_names(t.surfaces@), file) {
                    Err((n, prev)) => Err(duplicate_msg("surface"@, n, prev, file)),
                    Ok(su) => Ok(MergeState {
                        agents: st.agents + t.agents@,
                        streams: st.streams + t.streams@,
                        surfaces: st.surfaces + t.surfaces@,
                        subsystems: st.subsystems + t.subsystems@,
                        broker: if t.broker is Some { t.broker } else { st.broker },
                        broker_file: if t.broker is Some { Some(file) } else { st.broker_file },
                        skills_repo: if t.skills_repo is Some { t.skills_repo } else { st.skills_repo },
                        skills_file: if t.skills_repo is Some { Some(file) } else { st.skills_file },
                        guardrails: if t.guardrails is Some { t.guardrails } else { st.guardrails },
                        guardrails_file: if t.guardrails is Some { Some(file) } else { st.guardrails_file },
                        seen_agents: sa,
                        seen_streams: ss,
                        seen_surfaces: su,
                        sources: add_sources(
                            add_sources(
                                add_sources(st.sources, agent_names(t.agents@), "agent:"@, file),
                                stream_names(t.streams@),
                                "stream:"@,
                                file,
                            ),
                            surface_names(t.surfaces@),
                            "surface:"@,
                            file,
                        ),
                    }),
                },
            },
        }
    }
}

/// The state after merging the first `n` files, or the first error.
pub open spec fn merge_files(files: Seq<(String, Topology)>, n: nat) -> Result<MergeState, Seq<char>>
    decreases n,
{
    if n == 0 {
        Ok(merge_start())
    } else {
        match merge_files(files, (n - 1) as nat) {
            Err(e) => Err(e),
            Ok(st) => if n <= files.len() {
                merge_step(st, files[n - 1].0@, files[n - 1].1)
            } else {
                Ok(st)
            },
        }
    }
}

/// The agents of the first `n` files, one file after the other.
pub open spec fn files_agents(files: Seq<(String, Topology)>, n: nat) -> Seq<Agent>
    decreases n,
{
    if n == 0 || n > files.len() {
        Seq::empty()
    } else {
        files_agents(files, (n - 1) as nat) + files[n - 1].1.agents@
    }
}

/// The streams of the first `n` files, one file after the other.
pub open spec fn files_streams(files: Seq<(String, Topology)>, n: nat) -> Seq<Stream>
    decreases n,
{
    if n == 0 || n > files.len() {
        Seq::empty()
    } else {
        files_streams(files, (n - 1) as nat) + files[n - 1].1.streams@
    }
}

/// The surfaces of the first `n` files, one file after the other.
pub open spec fn files_surfaces(files: Seq<(String, Topology)>, n: nat) -> Seq<Surface>
    decreases n,
{
    if n == 0 || n > files.len() {
        Seq::empty()
    } else {
        files_surfaces(files, (n - 1) as nat) + files[n - 1].1.surfaces@
    }
}

/// The broker section of the last of the first `n` files that declares one.
pub open spec fn files_broker(files: Seq<(String, Topology)>, n: nat) -> Option<BrokerSpec>
    decreases n,
{
    if n == 0 || n > files.len() {
        None
    } else if files[n - 1].1.broker is Some {
        files[n - 1].1.broker
    } else {
        files_broker(files, (n - 1) as nat)
    }
}

/// The skills repository of the last of the first `n` files that declares one.
pub open spec fn files_skills_repo(files: Seq<(String, Topology)>, n: nat) -> Option<String>
    decreases n,
{
    if n == 0 || n > files.len() {
        None
    } else if files[n - 1].1.skills_repo is Some {
        files[n - 1].1.skills_repo
    } else {
        files_skills_repo(files, (n - 1) as nat)
    }
}

/// The guardrails of the last of the first `n` files that declares them.
pub open spec fn files_guardrails(files: Seq<(String, Topology)>, n: nat) -> Option<Guardrails>
    decreases n,
{
    if n == 0 || n > files.len() {
        None
    } else if files[n - 1].1.guardrails is Some {
        files[n - 1].1.guardrails
    } else {
        files_guardrails(files, (n - 1) as nat)
    }
}

proof fn lemma_merge_files_concat(files: Seq<(String, Topology)>, n: nat)
    requires
        n <= files.len(),
        merge_files(files, n) is Ok,
    ensures
        ({
            let st = merge_files(files, n)->Ok_0;
            &&& st.agents == files_agents(files, n)
            &&& st.streams == files_streams(files, n)
            &&& st.surfaces == files_surfaces(files, n)
            &&& st.broker == files_broker(files, n)
            &&& st.skills_repo == files_skills_repo(files, n)
            &&& st.guardrails == files_guardrails(files, n)
        }),
    decreases n,
{
    if n > 0 {
        lemma_merge_files_concat(files, (n - 1) as nat);
    }
}

/// A folder merges into the agents, streams and surfaces of its files
/// concatenated in file order, and takes the broker, skills repository and
/// guardrails sections from the file that declares each (none when no file
/// does).
pub proof fn law_folder_merge_concatenates(dir: Seq<char>, files: Seq<(String, Topology)>)
    requires
        folder_merge(dir, files) is Ok,
    ensures
        ({
            let st = folder_merge(dir, files)->Ok_0;
            &&& st.agents == files_agents(files, files.len())
            &&& st.streams == files_streams(files, files.len())
            &&& st.surfaces == files_surfaces(files, files.len())
            &&& st.broker == files_broker(files, files.len())
            &&& st.skills_repo == files_skills_repo(files, files.len())
            &&& st.guardrails == files_guardrails(files, files.len())
        }),
{
    lemma_merge_files_concat(files, files.len());
}

/// Whether no name occurs twice.
pub open spec fn distinct_names(s: Seq<Seq<char>>) -> bool {
    forall|i: int, j: int| 0 <= i < j < s.len() ==> #[trigger] s[i] != #[trigger] s[j]
}

proof fn lemma_distinct_push(s: Seq<Seq<char>>, x: Seq<char>)
    ensures
        distinct_names(s.push(x)) <==> distinct_names(s) && !s.contains(x),
{
    let r = s.push(x);
    if distinct_names(r) {
        assert forall|i: int, j: int| 0 <= i < j < s.len() implies #[trigger] s[i] != #[trigger] s[j] by {
            assert(r[i] == s[i] && r[j] == s[j]);
        }
        if s.contains(x) {
            let i = choose|i: int| 0 <= i < s.len() && s[i] == x;
            assert(r[i] == r[s.len() as int]);
        }
    }
    if distinct_names(s) && !s.contains(x) {
        assert forall|i: int, j: int| 0 <= i < j < r.len() implies #[trigger] r[i] != #[trigger] r[j] by {
            if j == s.len() {
                assert(r[i] == s[i]);
            } else {
                assert(r[i] == s[i] && r[j] == s[j]);
            }
        }
    }
}

proof fn lemma_distinct_concat(a: Seq<Seq<char>>, b: Seq<Seq<char>>)
    ensures
        distinct_names(a + b) <==> distinct_names(a) && distinct_names(b) && forall|i: int|
            0 <= i < b.len() ==> !a.contains(#[trigger] b[i]),
    decreases b.len(),
{
    if b.len() == 0 {
        assert(a + b =~= a);
    } else {
        let d = b.drop_last();
        let x = b.last();
        lemma_distinct_concat(a, d);
        assert(a + b =~= (a + d).push(x));
        lemma_distinct_push(a + d, x);
        lemma_distinct_push(d, x);
        assert(b =~= d.push(x));
        assert((a + d).contains(x) <==> a.contains(x) || d.contains(x)) by {
            if (a + d).contains(x) {
                let i = choose|i: int| 0 <= i < (a + d).len() && (a + d)[i] == x;
                if i >= a.len() {
                    assert(d[i - a.len()] == x);
                }
            }
            if d.contains(x) {
                let i = choose|i: int| 0 <= i < d.len() && d[i] == x;
                assert((a + d)[a.len() + i] == x);
            }
            if a.contains(x) {
                let i = choose|i: int| 0 <= i < a.len() && a[i] == x;
                assert((a + d)[i] == x);
            }
        }
        if forall|i: int| 0 <= i < b.len() ==> !a.contains(#[trigger] b[i]) {
            assert forall|i: int| 0 <= i < d.len() implies !a.contains(#[trigger] d[i]) by {
                assert(d[i] == b[i]);
            }
            assert(!a.contains(b[b.len() - 1]));
        }
        if (forall|i: int| 0 <= i < d.len() ==> !a.contains(#[trigger] d[i])) && !a.contains(x) {
            assert forall|i: int| 0 <= i < b.len() implies !a.contains(#[trigger] b[i]) by {
                if i < d.len() {
                    assert(d[i] == b[i]);
                }
            }
        }
    }
}

/// Adding the names of one file succeeds exactly when they are distinct and
/// none was seen before; the seen list then also gives `file` for each of them.
proof fn lemma_add_names(seen: Seq<(Seq<char>, Seq<char>)>, names: Seq<Seq<char>>, file: Seq<char>)
    ensures
        add_names(seen, names, file) is Ok <==> distinct_names(names) && forall|i: int|
            0 <= i < names.len() ==> pairs_lookup(seen, #[trigger] names[i]) is None,
        add_names(seen, names, file) matches Ok(s) ==> forall|q: Seq<char>| #[trigger]
            pairs_lookup(s, q) == if names.contains(q) { Some(file) } else { pairs_lookup(seen, q) },
    decreases names.len(),
{
    if names.len() > 0 {
        let d = names.drop_last();
        let x = names.last();
        lemma_add_names(seen, d, file);
        lemma_distinct_push(d, x);
        assert(names =~= d.push(x));
        if forall|i: int| 0 <= i < names.len() ==> pairs_lookup(seen, #[trigger] names[i]) is None {
            assert forall|i: int| 0 <= i < d.len() implies pairs_lookup(seen, #[trigger] d[i]) is None by {
                assert(d[i] == names[i]);
            }
            assert(pairs_lookup(seen, names[names.len() - 1]) is None);
        }
        if (forall|i: int| 0 <= i < d.len() ==> pairs_lookup(seen, #[trigger] d[i]) is None) && pairs_lookup(seen, x) is None {
            assert forall|i: int| 0 <= i < names.len() implies pairs_lookup(seen, #[trigger] names[i]) is None by {
                if i < d.len() {
                    assert(d[i] == names[i]);
                }
            }
        }
        match add_names(seen, d, file) {
            Err(_) => {},
            Ok(s) => {
                if pairs_lookup(s, x) is None {
                    assert forall|q: Seq<char>| #[trigger]
                        pairs_lookup(pairs_insert(s, x, file), q) == if names.contains(q) { Some(file) } else { pairs_lookup(seen, q) } by {
                        lemma_pairs_insert_lookup(s, x, file, q);
                        if d.contains(q) {
                            let i = choose|i: int| 0 <= i < d.len() && d[i] == q;
                            assert(names[i] == q);
                        }
                        if names.contains(q) && q != x {
                            let i = choose|i: int| 0 <= i < names.len() && names[i] == q;
                            assert(d[i] == q);
                        }
                        if q == x {
                            assert(names[names.len() - 1] == q);
                        }
                    }
                }
            },
        }
    }
}

/// Whether at most one flag is set.
pub open spec fn at_most_one(flags: Seq<bool>) -> bool {
    forall|i: int, j: int| 0 <= i < j < flags.len() && #[trigger] flags[i] ==> !#[trigger] flags[j]
}

/// For each of the first `n` files, whether it declares a broker section.
pub open spec fn broker_flags(files: Seq<(String, Topology)>, n: nat) -> Seq<bool> {
    files.take(n as int).map_values(|f: (String, Topology)| f.1.broker is Some)
}

/// For each of the first `n` files, whether it declares a skills repository.
pub open spec fn skills_flags(files: Seq<(String, Topology)>, n: nat) -> Seq<bool> {
    files.take(n as int).map_values(|f: (String, Topology)| f.1.skills_repo is Some)
}

/// For each of the first `n` files, whether it declares guardrails.
pub open spec fn guardrails_flags(files: Seq<(String, Topology)>, n: nat) -> Seq<bool> {
    files.take(n as int).map_values(|f: (String, Topology)| f.1.guardrails is Some)
}

/// What the first `n` files need to merge: at most one of them declares each
/// of the broker, skills repository and guardrails sections, and no agent,
/// stream or surface name occurs twice among them.
pub open spec fn merge_conditions(files: Seq<(String, Topology)>, n: nat) -> bool {
    &&& at_most_one(broker_flags(files, n))
    &&& at_most_one(skills_flags(files, n))
    &&& at_most_one(guardrails_flags(files, n))
    &&& distinct_names(agent_names(files_agents(files, n)))
    &&& distinct_names(stream_names(files_streams(files, n)))
    &&& distinct_names(surface_names(files_surfaces(files, n)))
}

/// The file, among the first `n`, that declares component key `q` (the last
/// one, should several do).
pub open spec fn declaring_file(files: Seq<(String, Topology)>, n: nat, q: Seq<char>) -> Option<Seq<char>>
    decreases n,
{
    if n == 0 || n > files.len() {
        None
    } else if component_keys(files[n - 1].1).contains(q) {
        Some(files[n - 1].0@)
    } else {
        declaring_file(files, (n - 1) as nat, q)
    }
}

proof fn lemma_at_most_one_push(f: Seq<bool>, b: bool)
    ensures
        at_most_one(f.push(b)) <==> at_most_one(f) && !(b && f.contains(true)),
{
    let r = f.push(b);
    if at_most_one(r) {
        assert forall|i: int, j: int| 0 <= i < j < f.len() && #[trigger] f[i] implies !#[trigger] f[j] by {
            assert(r[i] == f[i] && r[j] == f[j]);
        }
        if b && f.contains(true) {
            let i = choose|i: int| 0 <= i < f.len() && f[i] == true;
            assert(r[i] && r[f.len() as int]);
        }
    }
    if at_most_one(f) && !(b && f.contains(true)) {
        assert forall|i: int, j: int| 0 <= i < j < r.len() && #[trigger] r[i] implies !#[trigger] r[j] by {
            if j == f.len() {
                assert(r[i] == f[i]);
                assert(f.contains(true));
            } else {
                assert(r[i] == f[i] && r[j] == f[j]);
            }
        }
    }
}

proof fn lemma_component_keys_contains(t: Topology, q: Seq<char>)
    ensures
        component_keys(t).contains(q) <==> prefixed_keys(agent_names(t.agents@), "agent:"@).contains(q)
            || prefixed_keys(stream_names(t.streams@), "stream:"@).contains(q)
            || prefixed_keys(surface_names(t.surfaces@), "surface:"@).contains(q),
{
    let ka = prefixed_keys(agent_names(t.agents@), "agent:"@);
    let ks = prefixed_keys(stream_names(t.streams@), "stream:"@);
    let ku = prefixed_keys(surface_names(t.surfaces@), "surface:"@);
    let all = component_keys(t);
    assert(all =~= ka + ks + ku);
    if all.contains(q) {
        let i = choose|i: int| 0 <= i < all.len() && all[i] == q;
        if i < ka.len() {
            assert(ka[i] == q);
        } else if i < ka.len() + ks.len() {
            assert(ks[i - ka.len()] == q);
        } else {
            assert(ku[i - ka.len() - ks.len()] == q);
        }
    }
    if ka.contains(q) {
        let i = choose|i: int| 0 <= i < ka.len() && ka[i] == q;
        assert(all[i] == q);
    }
    if ks.contains(q) {
        let i = choose|i: int| 0 <= i < ks.len() && ks[i] == q;
        assert(all[ka.len() + i] == q);
    }
    if ku.contains(q) {
        let i = choose|i: int| 0 <= i < ku.len() && ku[i] == q;
        assert(all[ka.len() + ks.len() + i] == q);
    }
}

proof fn lemma_seen_step(
    seen: Seq<(Seq<char>, Seq<char>)>,
    a: Seq<Seq<char>>,
    b: Seq<Seq<char>>,
    file: Seq<char>,
)
    requires
        forall|q: Seq<char>| (#[trigger] pairs_lookup(seen, q) is Some) <==> a.contains(q),
    ensures
        add_names(seen, b, file) is Ok <==> distinct_names(b) && forall|i: int| 0 <= i < b.len() ==> !a.contains(#[trigger] b[i]),
        add_names(seen, b, file) matches Ok(s) ==> forall|q: Seq<char>| (#[trigger] pairs_lookup(s, q) is Some) <==> (a + b).contains(q),
{
    lemma_add_names(seen, b, file);
    assert((forall|i: int| 0 <= i < b.len() ==> pairs_lookup(seen, #[trigger] b[i]) is None) <==> (forall|i: int|
        0 <= i < b.len() ==> !a.contains(#[trigger] b[i]))) by {
        assert forall|i: int| 0 <= i < b.len() implies (pairs_lookup(seen, #[trigger] b[i]) is None <==> !a.contains(b[i])) by {
            assert(pairs_lookup(seen, b[i]) is Some <==> a.contains(b[i]));
        }
    }
    if add_names(seen, b, file) is Ok {
        let s = add_names(seen, b, file)->Ok_0;
        assert forall|q: Seq<char>| (#[trigger] pairs_lookup(s, q) is Some) <==> (a + b).contains(q) by {
            assert(pairs_lookup(seen, q) is Some <==> a.contains(q));
            if (a + b).contains(q) {
                let i = choose|i: int| 0 <= i < (a + b).len() && (a + b)[i] == q;
                if i >= a.len() {
                    assert(b[i - a.len()] == q);
                } else {
                    assert(a[i] == q);
                }
            }
            if b.contains(q) {
                let i = choose|i: int| 0 <= i < b.len() && b[i] == q;
                assert((a + b)[a.len() + i] == q);
            }
            if a.contains(q) {
                let i = choose|i: int| 0 <= i < a.len() && a[i] == q;
                assert((a + b)[i] == q);
            }
        }
    }
}

proof fn lemma_push_contains<A>(s: Seq<A>, x: A, y: A)
    ensures
        s.push(x).contains(y) <==> s.contains(y) || x == y,
{
    if s.contains(y) {
        let i = choose|i: int| 0 <= i < s.len() && s[i] == y;
        assert(s.push(x)[i] == y);
    }
    if s.push(x).contains(y) && x != y {
        let i = choose|i: int| 0 <= i < s.push(x).len() && s.push(x)[i] == y;
        assert(s[i] == y);
    }
    assert(s.push(x)[s.len() as int] == x);
}

proof fn lemma_merge_files_inv(files: Seq<(String, Topology)>, n: nat)
    requires
        n <= files.len(),
    ensures
        merge_files(files, n) is Ok <==> merge_conditions(files, n),
        merge_files(files, n) matches Ok(st) ==> {
            &&& (st.broker_file is Some <==> broker_flags(files, n).contains(true))
            &&& (st.skills_file is Some <==> skills_flags(files, n).contains(true))
            &&& (st.guardrails_file is Some <==> guardrails_flags(files, n).contains(true))
            &&& forall|q: Seq<char>| (#[trigger] pairs_lookup(st.seen_agents, q) is Some) <==> agent_names(files_agents(files, n)).contains(q)
            &&& forall|q: Seq<char>| (#[trigger] pairs_lookup(st.seen_streams, q) is Some) <==> stream_names(files_streams(files, n)).contains(q)
            &&& forall|q: Seq<char>| (#[trigger] pairs_lookup(st.seen_surfaces, q) is Some) <==> surface_names(files_surfaces(files, n)).contains(q)
            &&& forall|q: Seq<char>| #[trigger] pairs_lookup(st.sources, q) == declaring_file(files, n, q)
        },
    decreases n,
{
    if n == 0 {
        assert(broker_flags(files, 0) =~= Seq::<bool>::empty());
        assert(skills_flags(files, 0) =~= Seq::<bool>::empty());
        assert(guardrails_flags(files, 0) =~= Seq::<bool>::empty());
        assert(agent_names(files_agents(files, 0)) =~= Seq::<Seq<char>>::empty());
        assert(stream_names(files_streams(files, 0)) =~= Seq::<Seq<char>>::empty());
        assert(surface_names(files_surfaces(files, 0)) =~= Seq::<Seq<char>>::empty());
        assert forall|q: Seq<char>| #[trigger] pairs_lookup(Seq::<(Seq<char>, Seq<char>)>::empty(), q) is None by {}
    } else {
        let m = (n - 1) as nat;
        lemma_merge_files_inv(files, m);
        let f = files[m as int];
        let t = f.1;
        let file = f.0@;
        assert(broker_flags(files, n) =~= broker_flags(files, m).push(t.broker is Some));
        assert(skills_flags(files, n) =~= skills_flags(files, m).push(t.skills_repo is Some));
        assert(guardrails_flags(files, n) =~= guardrails_flags(files, m).push(t.guardrails is Some));
        lemma_push_contains(broker_flags(files, m), t.broker is Some, true);
        lemma_push_contains(skills_flags(files, m), t.skills_repo is Some, true);
        lemma_push_contains(guardrails_flags(files, m), t.guardrails is Some, true);
        lemma_at_most_one_push(broker_flags(files, m), t.broker is Some);
        lemma_at_most_one_push(skills_flags(files, m), t.skills_repo is Some);
        lemma_at_most_one_push(guardrails_flags(files, m), t.guardrails is Some);
        let aa = agent_names(files_agents(files, m));
        let ab = agent_names(t.agents@);
        let sa = stream_names(files_streams(files, m));
        let sb = stream_names(t.streams@);
        let ua = surface_names(files_surfaces(files, m));
        let ub = surface_names(t.surfaces@);
        assert(agent_names(files_agents(files, n)) =~= aa + ab);
        assert(stream_names(files_streams(files, n)) =~= sa + sb);
        assert(surface_names(files_surfaces(files, n)) =~= ua + ub);
        lemma_distinct_concat(aa, ab);
        lemma_distinct_concat(sa, sb);
        lemma_distinct_concat(ua, ub);
        match merge_files(files, m) {
            Err(_) => {},
            Ok(st) => {
                lemma_seen_step(st.seen_agents, aa, ab, file);
                lemma_seen_step(st.seen_streams, sa, sb, file);
                lemma_seen_step(st.seen_surfaces, ua, ub, file);
                if merge_step(st, file, t) is Ok {
                    let nx = merge_step(st, file, t)->Ok_0;
                    let s1 = add_sources(st.sources, ab, "agent:"@, file);
                    let s2 = add_sources(s1, sb, "stream:"@, file);
                    assert forall|q: Seq<char>| #[trigger] pairs_lookup(nx.sources, q) == declaring_file(files, n, q) by {
                        lemma_add_sources_lookup(st.sources, ab, "agent:"@, file, q);
                        lemma_add_sources_lookup(s1, sb, "stream:"@, file, q);
                        lemma_add_sources_lookup(s2, ub, "surface:"@, file, q);
                        lemma_component_keys_contains(t, q);
                    }
                }
            },
        }
    }
}

/// The names `f` gives of each of the first `n` files, one file after the other.
pub open spec fn concat_names(files: Seq<(String, Topology)>, n: nat, f: spec_fn(Topology) -> Seq<Seq<char>>) -> Seq<Seq<char>>
    decreases n,
{
    if n == 0 || n > files.len() {
        Seq::empty()
    } else {
        concat_names(files, (n - 1) as nat, f) + f(files[n - 1].1)
    }
}

proof fn lemma_concat_contains(files: Seq<(String, Topology)>, m: nat, f: spec_fn(Topology) -> Seq<Seq<char>>, k: int, x: Seq<char>)
    requires
        0 <= k < m <= files.len(),
        f(files[k].1).contains(x),
    ensures
        concat_names(files, m, f).contains(x),
    decreases m,
{
    let a = concat_names(files, (m - 1) as nat, f);
    let b = f(files[m - 1].1);
    if k < m - 1 {
        lemma_concat_contains(files, (m - 1) as nat, f, k, x);
        let i = choose|i: int| 0 <= i < a.len() && a[i] == x;
        assert((a + b)[i] == x);
    } else {
        let i = choose|i: int| 0 <= i < b.len() && b[i] == x;
        assert((a + b)[a.len() + i] == x);
    }
}

proof fn lemma_concat_distinct(files: Seq<(String, Topology)>, n: nat, f: spec_fn(Topology) -> Seq<Seq<char>>, k1: int, k2: int, x: Seq<char>)
    requires
        0 <= k1 < k2 < n <= files.len(),
        distinct_names(concat_names(files, n, f)),
        f(files[k1].1).contains(x),
    ensures
        !f(files[k2].1).contains(x),
    decreases n,
{
    let a = concat_names(files, (n - 1) as nat, f);
    let b = f(files[n - 1].1);
    lemma_distinct_concat(a, b);
    if k2 < n - 1 {
        lemma_concat_distinct(files, (n - 1) as nat, f, k1, k2, x);
    } else {
        lemma_concat_contains(files, (n - 1) as nat, f, k1, x);
        if b.contains(x) {
            let i = choose|i: int| 0 <= i < b.len() && b[i] == x;
            assert(!a.contains(b[i]));
        }
    }
}

proof fn lemma_concat_kinds(files: Seq<(String, Topology)>, n: nat)
    requires
        n <= files.len(),
    ensures
        agent_names(files_agents(files, n)) == concat_names(files, n, |t: Topology| agent_names(t.agents@)),
        stream_names(files_streams(files, n)) == concat_names(files, n, |t: Topology| stream_names(t.streams@)),
        surface_names(files_surfaces(files, n)) == concat_names(files, n, |t: Topology| surface_names(t.surfaces@)),
    decreases n,
{
    if n > 0 {
        lemma_concat_kinds(files, (n - 1) as nat);
        assert(agent_names(files_agents(files, n)) =~= agent_names(files_agents(files, (n - 1) as nat)) + agent_names(
            files[n - 1].1.agents@,
        ));
        assert(stream_names(files_streams(files, n)) =~= stream_names(files_streams(files, (n - 1) as nat)) + stream_names(
            files[n - 1].1.streams@,
        ));
        assert(surface_names(files_surfaces(files, n)) =~= surface_names(files_surfaces(files, (n - 1) as nat))
            + surface_names(files[n - 1].1.surfaces@));
    } else {
        assert(agent_names(files_agents(files, n)) =~= Seq::<Seq<char>>::empty());
        assert(stream_names(files_streams(files, n)) =~= Seq::<Seq<char>>::empty());
        assert(surface_names(files_surfaces(files, n)) =~= Seq::<Seq<char>>::empty());
    }
}

proof fn lemma_prefixed_member(names: Seq<Seq<char>>, p: Seq<char>, q: Seq<char>)
    requires
        prefixed_keys(names, p).contains(q),
    ensures
        q.len() >= p.len(),
        q.take(p.len() as int) == p,
        names.contains(q.skip(p.len() as int)),
{
    let i = choose|i: int| 0 <= i < prefixed_keys(names, p).len() && prefixed_keys(names, p)[i] == q;
    assert(q == p + names[i]);
    assert(q.take(p.len() as int) =~= p);
    assert(q.skip(p.len() as int) =~= names[i]);
}

/// Two files never both declare a component key when their names are
/// distinct across the files.
proof fn lemma_key_in_one_file(files: Seq<(String, Topology)>, k1: int, k2: int, q: Seq<char>)
    requires
        0 <= k1 < k2 < files.len(),
        merge_conditions(files, files.len()),
        component_keys(files[k1].1).contains(q),
    ensures
        !component_keys(files[k2].1).contains(q),
{
    reveal_strlit("agent:");
    reveal_strlit("stream:");
    reveal_strlit("surface:");
    let n = files.len();
    lemma_concat_kinds(files, n);
    let t1 = files[k1].1;
    let t2 = files[k2].1;
    lemma_component_keys_contains(t1, q);
    lemma_component_keys_contains(t2, q);
    let fa = |t: Topology| agent_names(t.agents@);
    let fs = |t: Topology| stream_names(t.streams@);
    let fu = |t: Topology| surface_names(t.surfaces@);
    if prefixed_keys(agent_names(t1.agents@), "agent:"@).contains(q) {
        lemma_prefixed_member(agent_names(t1.agents@), "agent:"@, q);
        assert(q[0] == 'a');
        lemma_concat_distinct(files, n, fa, k1, k2, q.skip(6));
        if prefixed_keys(agent_names(t2.agents@), "agent:"@).contains(q) {
            lemma_prefixed_member(agent_names(t2.agents@), "agent:"@, q);
        }
        if prefixed_keys(stream_names(t2.streams@), "stream:"@).contains(q) {
            lemma_prefixed_member(stream_names(t2.streams@), "stream:"@, q);
            assert(q.take(7)[0] == 's');
        }
        if prefixed_keys(surface_names(t2.surfaces@), "surface:"@).contains(q) {
            lemma_prefixed_member(surface_names(t2.surfaces@), "surface:"@, q);
            assert(q.take(8)[0] == 's');
        }
    } else if prefixed_keys(stream_names(t1.streams@), "stream:"@).contains(q) {
        lemma_prefixed_member(stream_names(t1.streams@), "stream:"@, q);
        assert(q.take(7)[1] == 't');
        lemma_concat_distinct(files, n, fs, k1, k2, q.skip(7));
        if prefixed_keys(agent_names(t2.agents@), "agent:"@).contains(q) {
            lemma_prefixed_member(agent_names(t2.agents@), "agent:"@, q);
            assert(q.take(6)[0] == 'a');
        }
        if prefixed_keys(stream_names(t2.streams@), "stream:"@).contains(q) {
            lemma_prefixed_member(stream_names(t2.streams@), "stream:"@, q);
        }
        if prefixed_keys(surface_names(t2.surfaces@), "surface:"@).contains(q) {
            lemma_prefixed_member(surface_names(t2.surfaces@), "surface:"@, q);
            assert(q.take(8)[1] == 'u');
        }
    } else {
        lemma_prefixed_member(surface_names(t1.surfaces@), "surface:"@, q);
        assert(q.take(8)[1] == 'u');
        lemma_concat_distinct(files, n, fu, k1, k2, q.skip(8));
        if prefixed_keys(agent_names(t2.agents@), "agent:"@).contains(q) {
            lemma_prefixed_member(agent_names(t2.agents@), "agent:"@, q);
            assert(q.take(6)[0] == 'a');
        }
        if prefixed_keys(stream_names(t2.streams@), "stream:"@).contains(q) {
            lemma_prefixed_member(stream_names(t2.streams@), "stream:"@, q);
            assert(q.take(7)[1] == 't');
        }
        if prefixed_keys(surface_names(t2.surfaces@), "surface:"@).contains(q) {
            lemma_prefixed_member(surface_names(t2.surfaces@), "surface:"@, q);
        }
    }
}

proof fn lemma_declaring_unique(files: Seq<(String, Topology)>, n: nat, k: int, q: Seq<char>)
    requires
        0 <= k < n <= files.len(),
        merge_conditions(files, files.len()),
        component_keys(files[k].1).contains(q),
    ensures
        declaring_file(files, n, q) == Some(files[k].0@),
    decreases n,
{
    if k < n - 1 {
        lemma_key_in_one_file(files, k, n - 1, q);
        lemma_declaring_unique(files, (n - 1) as nat, k, q);
    }
}

/// The api version and topology name of every file agree with the first file's.
pub open spec fn headers_agree(files: Seq<(String, Topology)>) -> bool {
    &&& forall|k: int| 0 <= k < files.len() ==> #[trigger] files[k].1.api_version@ == files[0].1.api_version@
    &&& forall|k: int| 0 <= k < files.len() ==> #[trigger] files[k].1.name@ == files[0].1.name@
}

proof fn lemma_mismatch_none(files: Seq<(String, Topology)>, i: int)
    requires
        i >= 1,
    ensures
        api_mismatch_from(files, i) is None <==> forall|k: int| i <= k < files.len() ==> #[trigger] files[k].1.api_version@ == files[0].1.api_version@,
        name_mismatch_from(files, i) is None <==> forall|k: int| i <= k < files.len() ==> #[trigger] files[k].1.name@ == files[0].1.name@,
    decreases files.len() - i,
{
    if i < files.len() {
        lemma_mismatch_none(files, i + 1);
    }
}

/// A folder merges exactly when it holds at least one file, every file
/// declares the first file's api version and topology name, at most one
/// file declares each of the broker, skills repository and guardrails
/// sections, and no agent, stream or surface name occurs twice across the
/// files. The merged source map then gives, for each component key
/// (`agent:<name>`, `stream:<name>`, `surface:<name>`), the file that
/// declares it, and nothing for any other key.
pub proof fn law_folder_merge_succeeds(dir: Seq<char>, files: Seq<(String, Topology)>)
    ensures
        folder_merge(dir, files) is Ok <==> files.len() > 0 && headers_agree(files) && merge_conditions(files, files.len()),
        folder_merge(dir, files) matches Ok(st) ==> forall|q: Seq<char>| #[trigger]
            pairs_lookup(st.sources, q) == declaring_file(files, files.len(), q),
        folder_merge(dir, files) matches Ok(st) ==> forall|q: Seq<char>, k: int|
            0 <= k < files.len() && #[trigger] component_keys(files[k].1).contains(q) ==> #[trigger] pairs_lookup(st.sources, q)
                == Some(files[k].0@),
{
    lemma_merge_files_inv(files, files.len());
    if files.len() > 0 {
        lemma_mismatch_none(files, 1);
    }
    if folder_merge(dir, files) is Ok {
        assert forall|q: Seq<char>, k: int|
            0 <= k < files.len() && #[trigger] component_keys(files[k].1).contains(q) implies declaring_file(files, files.len(), q)
                == Some(files[k].0@) by {
            lemma_declaring_unique(files, files.len(), k, q);
        }
    }
}

/// The first file from index `i` on whose api version differs from the first file's.
pub open spec fn api_mismatch_from(files: Seq<(String, Topology)>, i: int) -> Option<int>
    decreases files.len() - i,
{
    if i >= files.len() || i < 1 {
        None
    } else if files[i].1.api_version@ != files[0].1.api_version@ {
        Some(i)
    } else {
        api_mismatch_from(files, i + 1)
    }
}

/// The first file from index `i` on whose topology name differs from the first file's.
pub open spec fn name_mismatch_from(files: Seq<(String, Topology)>, i: int) -> Option<int>
    decreases files.len() - i,
{
    if i >= files.len() || i < 1 {
        None
    } else if files[i].1.name@ != files[0].1.name@ {
        Some(i)
    } else {
        name_mismatch_from(files, i + 1)
    }
}

/// What merging a folder answers: an error message, or the merged state.
pub open spec fn folder_merge(dir: Seq<char>, files: Seq<(String, Topology)>) -> Result<MergeState, Seq<char>> {
    if files.len() == 0 {
        Err("no .wh files found in folder '"@ + dir + "'"@)
    } else if api_mismatch_from(files, 1) is Some {
        let k = api_mismatch_from(files, 1)->0;
        Err("apiVersion mismatch: '"@ + files[0].0@ + "' declares '"@ + files[0].1.api_version@
            + "' but '"@ + files[k].0@ + "' declares '"@ + files[k].1.api_version@ + "'"@)
    } else if name_mismatch_from(files, 1) is Some {
        let k = name_mismatch_from(files, 1)->0;
        Err("topology name mismatch: '"@ + files[0].0@ + "' declares '"@ + files[0].1.name@
            + "' but '"@ + files[k].0@ + "' declares '"@ + files[k].1.name@ + "'"@)
    } else {
        merge_files(files, files.len())
    }
}


/// Records `names` of one file: each must be new to `seen`; each gets a
/// `prefix + name -> file` entry in `sources`.
fn record_names(
    seen: &mut StrMap<String>,
    sources: &mut StrMap<String>,
    names: &Vec<String>,
    prefix: &str,
    file: &String,
) -> (r: Result<(), (String, String)>)
    ensures
        match add_names(old(seen).pairs(), string_views(names@), file@) {
            Ok(s) => r is Ok && final(seen).pairs() == s && final(sources).pairs() == add_sources(
                old(sources).pairs(),
                string_views(names@),
                prefix@,
                file@,
            ),
            Err(e) => r is Err && r->Err_0.0@ == e.0 && r->Err_0.1@ == e.1,
        },
{
    let ghost seen0 = seen.pairs();
    let ghost src0 = sources.pairs();
    let n = names.len();
    for i in 0..n
        invariant
            n == names@.len(),
            seen0 == old(seen).pairs(),
            src0 == old(sources).pairs(),
            add_names(seen0, string_views(names@).take(i as int), file@) == Ok::<
                Seq<(Seq<char>, Seq<char>)>,
                (Seq<char>, Seq<char>),
            >(seen.pairs()),
            sources.pairs() == add_sources(src0, string_views(names@).take(i as int), prefix@, file@),
    {
        let ghost pre = string_views(names@).take(i as int);
        let ghost cur = string_views(names@).take(i + 1);
        assert(cur.drop_last() == pre);
        assert(cur.last() == names@[i as int]@);
        let name = &names[i];
        match seen.get_str(name.as_str()) {
            Some(prev) => {
                let e = (name.clone(), prev.clone());
                assert(add_names(seen0, cur, file@) is Err);
                proof {
                    lemma_add_names_prefix_err(seen0, string_views(names@), file@, i + 1);
                }
                return Err(e);
            },
            None => {},
        }
        seen.insert_str(name.clone(), file.clone());
        let mut key = String::new();
        push_str(&mut key, prefix);
        push_str(&mut key, name.as_str());
        sources.insert_str(key, file.clone());
    }
    assert(string_views(names@).take(n as int) == string_views(names@));
    Ok(())
}

/// Once some prefix of the names hits an error, the whole list does.
proof fn lemma_add_names_prefix_err(seen: Seq<(Seq<char>, Seq<char>)>, names: Seq<Seq<char>>, file: Seq<char>, k: int)
    requires
        0 <= k <= names.len(),
        add_names(seen, names.take(k), file) is Err,
    ensures
        add_names(seen, names, file) == add_names(seen, names.take(k), file),
    decreases names.len() - k,
{
    if k < names.len() {
        assert(names.take(k + 1).drop_last() == names.take(k));
        lemma_add_names_prefix_err(seen, names, file, k + 1);
    } else {
        assert(names.take(k) == names);
    }
}

/// Names of agents, in order.
fn names_of_agents(v: &Vec<Agent>) -> (r: Vec<String>)
    ensures
        string_views(r@) == agent_names(v@),
{
    let mut r: Vec<String> = Vec::new();
    for i in 0..v.len()
        invariant
            string_views(r@) == agent_names(v@).take(i as int),
    {
        let ghost r0 = r@;
        r.push(v[i].name.clone());
        assert(string_views(r@) =~= string_views(r0).push(v@[i as int].name@));
        assert(agent_names(v@).take(i + 1) =~= agent_names(v@).take(i as int).push(v@[i as int].name@));
    }
    assert(agent_names(v@).take(v@.len() as int) == agent_names(v@));
    r
}

/// Names of streams, in order.
fn names_of_streams(v: &Vec<Stream>) -> (r: Vec<String>)
    ensures
        string_views(r@) == stream_names(v@),
{
    let mut r: Vec<String> = Vec::new();
    for i in 0..v.len()
        invariant
            string_views(r@) == stream_names(v@).take(i as int),
    {
        let ghost r0 = r@;
        r.push(v[i].name.clone());
        assert(string_views(r@) =~= string_views(r0).push(v@[i as int].name@));
        assert(stream_names(v@).take(i + 1) =~= stream_names(v@).take(i as int).push(v@[i as int].name@));
    }
    assert(stream_names(v@).take(v@.len() as int) == stream_names(v@));
    r
}

/// Names of surfaces, in order.
fn names_of_surfaces(v: &Vec<Surface>) -> (r: Vec<String>)
    ensures
        string_views(r@) == surface_names(v@),
{
    let mut r: Vec<String> = Vec::new();
    for i in 0..v.len()
        invariant
            string_views(r@) == surface_names(v@).take(i as int),
    {
        let ghost r0 = r@;
        r.push(v[i].name.clone());
        assert(string_views(r@) =~= string_views(r0).push(v@[i as int].name@));
        assert(surface_names(v@).take(i + 1) =~= surface_names(v@).take(i as int).push(v@[i as int].name@));
    }
    assert(surface_names(v@).take(v@.len() as int) == surface_names(v@));
    r
}

fn conflict_error(section: &str, prev: &String, cur: &String) -> (e: DeployError)
    ensures
        e == DeployError::InvalidTopology(e->InvalidTopology_0),
        e->InvalidTopology_0@ == conflict_msg(section@, prev@, cur@),
{
    let mut m = String::new();
    push_str(&mut m, "conflicting ");
    push_str(&mut m, section);
    push_str(&mut m, ": declared in both '");
    push_str(&mut m, prev.as_str());
    push_str(&mut m, "' and '");
    push_str(&mut m, cur.as_str());
    push_str(&mut m, "'");
    DeployError::InvalidTopology(m)
}

fn duplicate_error(kind: &str, name: &String, prev: &String, cur: &String) -> (e: DeployError)
    ensures
        e == DeployError::InvalidTopology(e->InvalidTopology_0),
        e->InvalidTopology_0@ == duplicate_msg(kind@, name@, prev@, cur@),
{
    let mut m = String::new();
    push_str(&mut m, "duplicate ");
    push_str(&mut m, kind);
    push_str(&mut m, " name '");
    push_str(&mut m, name.as_str());
    push_str(&mut m, "' across files: '");
    push_str(&mut m, prev.as_str());
    push_str(&mut m, "' and '");
    push_str(&mut m, cur.as_str());
    push_str(&mut m, "'");
    DeployError::InvalidTopology(m)
}

/// The accumulators of a folder merge.
struct MergeAcc {
    agents: Vec<Agent>,
    streams: Vec<Stream>,
    surfaces: Vec<Surface>,
    subsystems: Vec<SubsystemDecl>,
    broker: Option<BrokerSpec>,
    broker_file: Option<String>,
    skills_repo: Option<String>,
    skills_file: Option<String>,
    guardrails: Option<Guardrails>,
    guardrails_file: Option<String>,
    seen_agents: StrMap<String>,
    seen_streams: StrMap<String>,
    seen_surfaces: StrMap<String>,
    sources: StrMap<String>,
}

/// The view of an optional file name.
pub open spec fn opt_view(o: Option<String>) -> Option<Seq<char>> {
    match o {
        Some(f) => Some(f@),
        None => None,
    }
}

impl MergeAcc {
    spec fn view(&self) -> MergeState {
        MergeState {
            agents: self.agents@,
            streams: self.streams@,
            surfaces: self.surfaces@,
            subsystems: self.subsystems@,
            broker: self.broker,
            broker_file: opt_view(self.broker_file),
            skills_repo: self.skills_repo,
            skills_file: opt_view(self.skills_file),
            guardrails: self.guardrails,
            guardrails_file: opt_view(self.guardrails_file),
            seen_agents: self.seen_agents.pairs(),
            seen_streams: self.seen_streams.pairs(),
            seen_surfaces: self.seen_surfaces.pairs(),
            sources: self.sources.pairs(),
        }
    }

    fn new() -> (a: Self)
        ensures
            a.view() == merge_start(),
    {
        let a = MergeAcc {
            agents: Vec::new(),
            streams: Vec::new(),
            surfaces: Vec::new(),
            subsystems: Vec::new(),
            broker: None,
            broker_file: None,
            skills_repo: None,
            skills_file: None,
            guardrails: None,
            guardrails_file: None,
            seen_agents: StrMap::new(),
            seen_streams: StrMap::new(),
            seen_surfaces: StrMap::new(),
            sources: StrMap::new(),
        };
        assert(a.view().seen_agents =~= Seq::<(Seq<char>, Seq<char>)>::empty());
        assert(a.view().seen_streams =~= Seq::<(Seq<char>, Seq<char>)>::empty());
        assert(a.view().seen_surfaces =~= Seq::<(Seq<char>, Seq<char>)>::empty());
        assert(a.view().sources =~= Seq::<(Seq<char>, Seq<char>)>::empty());
        assert(a.view() =~= merge_start());
        a
    }

    /// Merge one file.
    #[verifier::rlimit(40)]
    fn step(&mut self, file: String, topo: Topology) -> (r: Result<(), DeployError>)
        ensures
            match merge_step(old(self).view(), file@, topo) {
                Ok(st) => r is Ok && final(self).view() == st,
                Err(m) => r is Err && r->Err_0 == DeployError::InvalidTopology(r->Err_0->InvalidTopology_0)
                    && r->Err_0->InvalidTopology_0@ == m,
            },
    {
        let ghost t = topo;
        let Topology { broker: t_broker, skills_repo: t_skills, agents: mut t_agents, streams: mut t_streams, surfaces: mut t_surfaces, guardrails: t_guard, subsystems: mut t_subs, .. } = topo;
        if t_broker.is_some() {
            if let Some(prev) = &self.broker_file {
                return Err(conflict_error("broker sections", prev, &file));
            }
        }
        if t_skills.is_some() {
            if let Some(prev) = &self.skills_file {
                return Err(conflict_error("skills_repo", prev, &file));
            }
        }
        if t_guard.is_some() {
            if let Some(prev) = &self.guardrails_file {
                return Err(conflict_error("guardrails sections", prev, &file));
            }
        }
        let an = names_of_agents(&t_agents);
        match record_names(&mut self.seen_agents, &mut self.sources, &an, "agent:", &file) {
            Err((n, prev)) => {
                return Err(duplicate_error("agent", &n, &prev, &file));
            },
            Ok(()) => {},
        }
        let sn = names_of_streams(&t_streams);
        match record_names(&mut self.seen_streams, &mut self.sources, &sn, "stream:", &file) {
            Err((n, prev)) => {
                return Err(duplicate_error("stream", &n, &prev, &file));
            },
            Ok(()) => {},
        }
        let un = names_of_surfaces(&t_surfaces);
        match record_names(&mut self.seen_surfaces, &mut self.sources, &un, "surface:", &file) {
            Err((n, prev)) => {
                return Err(duplicate_error("surface", &n, &prev, &file));
            },
            Ok(()) => {},
        }
        self.agents.append(&mut t_agents);
        self.streams.append(&mut t_streams);
        self.surfaces.append(&mut t_surfaces);
        self.subsystems.append(&mut t_subs);
        if t_broker.is_some() {
            self.broker = t_broker;
            self.broker_file = Some(file.clone());
        }
        if t_skills.is_some() {
            self.skills_repo = t_skills;
            self.skills_file = Some(file.clone());
        }
        if t_guard.is_some() {
            self.guardrails = t_guard;
            self.guardrails_file = Some(file.clone());
        }
        Ok(())
    }
}

/// Merge the `.wh` files of a folder, given as `(filename, topology)` pairs
/// in lexicographic filename order; `dir` names the folder in messages.
///
/// Errors on: no files; an api version or topology name differing from the
/// first file's; a broker, skills_repo or guardrails section declared by two
/// files; an agent, stream or surface name declared twice.
pub fn merge_topology_files(dir: &str, files: Vec<(String, Topology)>) -> (r: Result<(Topology, ComponentSourceMap), DeployError>)
    ensures
        match folder_merge(dir@, files@) {
            Err(msg) => r is Err && r->Err_0 == DeployError::InvalidTopology(r->Err_0->InvalidTopology_0)
                && r->Err_0->InvalidTopology_0@ == msg,
            Ok(st) => r is Ok && ({
                let (t, m) = r->Ok_0;
                &&& t.api_version@ == files@[0].1.api_version@
                &&& t.name@ == files@[0].1.name@
                &&& t.agents@ == st.agents
                &&& t.streams@ == st.streams
                &&& t.surfaces@ == st.surfaces
                &&& t.subsystems@ == st.subsystems
                &&& t.broker == st.broker
                &&& t.skills_repo == st.skills_repo
                &&& t.guardrails == st.guardrails
                &&& m.entries.pairs() == st.sources
            }),
        },
{
    let ghost all = files@;
    let nf = files.len();
    if nf == 0 {
        let mut m = String::new();
        push_str(&mut m, "no .wh files found in folder '");
        push_str(&mut m, dir);
        push_str(&mut m, "'");
        return Err(DeployError::InvalidTopology(m));
    }
    // Api version consistency.
    let mut i: usize = 1;
    while i < nf
        invariant
            1 <= i <= nf,
            nf == files@.len(),
            files@ == all,
            api_mismatch_from(all, 1) == api_mismatch_from(all, i as int),
        decreases nf - i,
    {
        if !str_eq(files[i].1.api_version.as_str(), files[0].1.api_version.as_str()) {
            let mut m = String::new();
            push_str(&mut m, "apiVersion mismatch: '");
            push_str(&mut m, files[0].0.as_str());
            push_str(&mut m, "' declares '");
            push_str(&mut m, files[0].1.api_version.as_str());
            push_str(&mut m, "' but '");
            push_str(&mut m, files[i].0.as_str());
            push_str(&mut m, "' declares '");
            push_str(&mut m, files[i].1.api_version.as_str());
            push_str(&mut m, "'");
            return Err(DeployError::InvalidTopology(m));
        }
        i = i + 1;
    }
    // Topology name consistency.
    let mut i: usize = 1;
    while i < nf
        invariant
            1 <= i <= nf,
            nf == files@.len(),
            files@ == all,
            api_mismatch_from(all, 1) is None,
            name_mismatch_from(all, 1) == name_mismatch_from(all, i as int),
        decreases nf - i,
    {
        if !str_eq(files[i].1.name.as_str(), files[0].1.name.as_str()) {
            let mut m = String::new();
            push_str(&mut m, "topology name mismatch: '");
            push_str(&mut m, files[0].0.as_str());
            push_str(&mut m, "' declares '");
            push_str(&mut m, files[0].1.name.as_str());
            push_str(&mut m, "' but '");
            push_str(&mut m, files[i].0.as_str());
            push_str(&mut m, "' declares '");
            push_str(&mut m, files[i].1.name.as_str());
            push_str(&mut m, "'");
            return Err(DeployError::InvalidTopology(m));
        }
        i = i + 1;
    }
    let api_version = files[0].1.api_version.clone();
    let name = files[0].1.name.clone();
    let mut acc = MergeAcc::new();
    let mut rest = files;
    let mut k: usize = 0;
    while rest.len() > 0
        invariant
            k <= nf,
            nf == all.len(),
            nf > 0,
            api_mismatch_from(all, 1) is None,
            name_mismatch_from(all, 1) is None,
            folder_merge(dir@, all) == merge_files(all, all.len()),
            all == files@,
            rest@ == all.skip(k as int),
            merge_files(all, k as nat) == Ok::<MergeState, Seq<char>>(acc.view()),
        decreases rest.len(),
    {
        let (file, topo) = rest.remove(0);
        assert(all[k as int] == (file, topo));
        let ghost before = acc.view();
        match acc.step(file, topo) {
            Err(e) => {
                assert(merge_files(all, (k + 1) as nat) == merge_step(before, all[k as int].0@, all[k as int].1));
                proof { lemma_merge_err_sticks(all, (k + 1) as nat); }
                return Err(e);
            },
            Ok(()) => {},
        }
        k = k + 1;
        assert(rest@ == all.skip(k as int));
    }
    let topology = Topology {
        api_version,
        name,
        broker: acc.broker,
        skills_repo: acc.skills_repo,
        agents: acc.agents,
        streams: acc.streams,
        surfaces: acc.surfaces,
        guardrails: acc.guardrails,
        subsystems: acc.subsystems,
    };
    Ok((topology, ComponentSourceMap { entries: acc.sources }))
}

/// An error after `n` files stays the answer for every longer prefix.
proof fn lemma_merge_err_sticks(files: Seq<(String, Topology)>, n: nat)
    requires
        merge_files(files, n) is Err,
        n <= files.len(),
    ensures
        merge_files(files, files.len()) == merge_files(files, n),
    decreases files.len() - n,
{
    if n < files.len() {
        lemma_merge_err_sticks(files, n + 1);
    }
}

/// Records `prefix + name -> file` for each name.
fn add_source_entries(sources: &mut StrMap<String>, names: &Vec<String>, prefix: &str, file: &str)
    ensures
        final(sources).pairs() == add_sources(old(sources).pairs(), string_views(names@), prefix@, file@),
{
    let ghost s0 = sources.pairs();
    let ghost ns = string_views(names@);
    for i in 0..names.len()
        invariant
            ns == string_views(names@),
            sources.pairs() == add_sources(s0, ns.take(i as int), prefix@, file@),
    {
        assert(ns.take(i + 1).drop_last() =~= ns.take(i as int));
        let mut key = String::new();
        push_str(&mut key, prefix);
        push_str(&mut key, names[i].as_str());
        sources.insert_str(key, String::from_str(file));
    }
    assert(ns.take(names@.len() as int) =~= ns);
}

/// The source map of a single file: every agent, stream and surface of the
/// topology comes from `filename`.
pub open spec fn single_file_sources(t: Topology, filename: Seq<char>) -> Seq<(Seq<char>, Seq<char>)> {
    add_sources(
        add_sources(add_sources(Seq::empty(), agent_names(t.agents@), "agent:"@, filename), stream_names(t.streams@), "stream:"@, filename),
        surface_names(t.surfaces@),
        "surface:"@,
        filename,
    )
}

/// The keys `prefix + name`, one for each name.
pub open spec fn prefixed_keys(names: Seq<Seq<char>>, prefix: Seq<char>) -> Seq<Seq<char>> {
    names.map_values(|n: Seq<char>| prefix + n)
}

/// The component keys of a topology: `agent:<name>` for each agent,
/// `stream:<name>` for each stream and `surface:<name>` for each surface.
pub open spec fn component_keys(t: Topology) -> Seq<Seq<char>> {
    prefixed_keys(agent_names(t.agents@), "agent:"@) + prefixed_keys(stream_names(t.streams@), "stream:"@)
        + prefixed_keys(surface_names(t.surfaces@), "surface:"@)
}

proof fn lemma_add_sources_lookup(
    src: Seq<(Seq<char>, Seq<char>)>,
    names: Seq<Seq<char>>,
    prefix: Seq<char>,
    file: Seq<char>,
    q: Seq<char>,
)
    ensures
        pairs_lookup(add_sources(src, names, prefix, file), q) == if prefixed_keys(names, prefix).contains(q) {
            Some(file)
        } else {
            pairs_lookup(src, q)
        },
    decreases names.len(),
{
    let ks = prefixed_keys(names, prefix);
    if names.len() == 0 {
        assert(!ks.contains(q));
    } else {
        let d = prefixed_keys(names.drop_last(), prefix);
        assert(ks =~= d.push(prefix + names.last()));
        lemma_add_sources_lookup(src, names.drop_last(), prefix, file, q);
        lemma_pairs_insert_lookup(add_sources(src, names.drop_last(), prefix, file), prefix + names.last(), file, q);
        if ks.contains(q) && q != prefix + names.last() {
            let i = choose|i: int| 0 <= i < ks.len() && ks[i] == q;
            assert(d[i] == q);
        }
        if d.contains(q) {
            let i = choose|i: int| 0 <= i < d.len() && d[i] == q;
            assert(ks[i] == q);
        }
        if q == prefix + names.last() {
            assert(ks[ks.len() - 1] == q);
        }
    }
}

/// A source map built from one topology and file holds exactly the
/// component keys of the topology, each mapped to that file: looking up a
/// component key gives the file, and any other key gives nothing.
pub proof fn law_single_file_source_keys(t: Topology, filename: Seq<char>, q: Seq<char>)
    ensures
        pairs_lookup(single_file_sources(t, filename), q) == if component_keys(t).contains(q) {
            Some(filename)
        } else {
            None
        },
{
    let e = Seq::<(Seq<char>, Seq<char>)>::empty();
    let s1 = add_sources(e, agent_names(t.agents@), "agent:"@, filename);
    let s2 = add_sources(s1, stream_names(t.streams@), "stream:"@, filename);
    lemma_add_sources_lookup(e, agent_names(t.agents@), "agent:"@, filename, q);
    lemma_add_sources_lookup(s1, stream_names(t.streams@), "stream:"@, filename, q);
    lemma_add_sources_lookup(s2, surface_names(t.surfaces@), "surface:"@, filename, q);
    lemma_component_keys_contains(t, q);
    assert(pairs_lookup(e, q) is None);
}

impl ComponentSourceMap {
    /// Build a source map from a single topology and filename.
    pub fn from_topology(topo: &Topology, filename: &str) -> (m: Self)
        ensures
            m.entries.pairs() == single_file_sources(*topo, filename@),
    {
        let mut entries: StrMap<String> = StrMap::new();
        assert(entries.pairs() =~= Seq::<(Seq<char>, Seq<char>)>::empty());
        let an = names_of_agents(&topo.agents);
        add_source_entries(&mut entries, &an, "agent:", filename);
        let sn = names_of_streams(&topo.streams);
        add_source_entries(&mut entries, &sn, "stream:", filename);
        let un = names_of_surfaces(&topo.surfaces);
        add_source_entries(&mut entries, &un, "surface:", filename);
        ComponentSourceMap { entries }
    }

    /// Look up the source file of a component key such as `agent:researcher`.
    pub fn source_file(&self, component_key: &str) -> (r: Option<&str>)
        ensures
            match r {
                Some(f) => pairs_lookup(self.entries.pairs(), component_key@) == Some(f@),
                None => pairs_lookup(self.entries.pairs(), component_key@) is None,
            },
    {
        match self.entries.get_str(component_key) {
            Some(f) => Some(f.as_str()),
            None => None,
        }
    }
}

/// Whether a file name has the `wh` extension: it ends in `.wh` after a
/// non-empty stem.
pub open spec fn is_wh_name(n: Seq<char>) -> bool {
    n.len() > 3 && ends_with_seq(n, ".wh"@)
}

/// The names with the `wh` extension, in the order given.
pub open spec fn wh_names(ns: Seq<Seq<char>>) -> Seq<Seq<char>>
    decreases ns.len(),
{
    if ns.len() == 0 {
        Seq::empty()
    } else if is_wh_name(ns.last()) {
        wh_names(ns.drop_last()).push(ns.last())
    } else {
        wh_names(ns.drop_last())
    }
}

/// The `.wh` files of a folder listing, in the order they are merged:
/// lexicographic by file name, each name once.
pub fn wh_file_order(names: &[String]) -> (r: Vec<String>)
    ensures
        string_views(r@) == sorted_names(wh_names(string_views(names@))),
{
    let ghost ns = string_views(names@);
    let mut r: Vec<String> = Vec::new();
    let n = names.len();
    for i in 0..n
        invariant
            n == names@.len(),
            ns == string_views(names@),
            string_views(r@) == sorted_names(wh_names(ns.take(i as int))),
    {
        assert(ns.take(i + 1).drop_last() =~= ns.take(i as int));
        assert(ns.take(i + 1).last() == names@[i as int]@);
        let name = &names[i];
        let is_wh = crate::text::chars_of(name.as_str()).len() > 3 && ends_with_str(name.as_str(), ".wh");
        assert(is_wh == is_wh_name(name@));
        if is_wh {
            let ghost w = wh_names(ns.take(i as int));
            assert(wh_names(ns.take(i + 1)) == w.push(name@));
            assert(w.push(name@).drop_last() =~= w);
            insert_sorted_vec(&mut r, name.clone());
        }
    }
    assert(ns.take(n as int) =~= ns);
    r
}

} // verus!
