//! Plan step of the deploy pipeline: the diff between the applied topology
//! and the desired one, and the policy checks a plan must pass.

use vstd::prelude::*;
use crate::deploy::{Agent, Change, ChangeValue, DeployError, Guardrails, Stream, Topology, canonicalize_topology,
    canonical_sort, API_VERSION, names_distinct, law_canonical_order_ignores_declaration_order};
use crate::deploy::lint::LintedFile;
use crate::deploy::plan_hash::{canonical_json, clone_change, compute_plan_hash, hash_text, json_value, sha256_utf8};
use crate::text::{push_str, push_u64, seq_lt, str_eq, str_lt, dec, string_views};
use vstd::string::StringExecFns;

verus! {

/// The view of a change value.
pub enum ValueView {
    AgentSpec { image: Seq<char>, replicas: u32 },
    Provider(Seq<char>),
    Count(u32),
    Text(Seq<char>),
    OptText(Option<Seq<char>>),
}

/// The view of a change.
pub struct ChangeView {
    pub op: Seq<char>,
    pub component: Seq<char>,
    pub field: Option<Seq<char>>,
    pub from: Option<ValueView>,
    pub to: Option<ValueView>,
    pub source_file: Option<Seq<char>>,
}

pub open spec fn opt_str_view(o: Option<String>) -> Option<Seq<char>> {
    match o {
        Some(s) => Some(s@),
        None => None,
    }
}

pub open spec fn value_view(v: ChangeValue) -> ValueView {
    match v {
        ChangeValue::AgentSpec { image, replicas } => ValueView::AgentSpec { image: image@, replicas },
        ChangeValue::Provider(p) => ValueView::Provider(p@),
        ChangeValue::Count(n) => ValueView::Count(n),
        ChangeValue::Text(t) => ValueView::Text(t@),
        ChangeValue::OptText(o) => ValueView::OptText(opt_str_view(o)),
    }
}

pub open spec fn opt_value_view(o: Option<ChangeValue>) -> Option<ValueView> {
    match o {
        Some(v) => Some(value_view(v)),
        None => None,
    }
}

pub open spec fn change_view(c: Change) -> ChangeView {
    ChangeView {
        op: c.op@,
        component: c.component@,
        field: opt_str_view(c.field),
        from: opt_value_view(c.from),
        to: opt_value_view(c.to),
        source_file: opt_str_view(c.source_file),
    }
}

pub open spec fn changes_view(s: Seq<Change>) -> Seq<ChangeView> {
    s.map_values(|c: Change| change_view(c))
}

/// `s` with `x` inserted in order, unless already present (for sorted `s`).
pub open spec fn insert_sorted(s: Seq<Seq<char>>, x: Seq<char>) -> Seq<Seq<char>>
    decreases s.len(),
{
    if s.len() == 0 {
        seq![x]
    } else if s.last() == x {
        s
    } else if seq_lt(s.last(), x) {
        s.push(x)
    } else {
        insert_sorted(s.drop_last(), x).push(s.last())
    }
}

/// The distinct names of `names` in ascending order: the keys of a
/// `BTreeMap` collected from them.
pub open spec fn sorted_names(names: Seq<Seq<char>>) -> Seq<Seq<char>>
    decreases names.len(),
{
    if names.len() == 0 {
        Seq::empty()
    } else {
        insert_sorted(sorted_names(names.drop_last()), names.last())
    }
}

/// The last agent named `n`: the value a `BTreeMap` collected from the agents keeps.
pub open spec fn last_agent(s: Seq<Agent>, n: Seq<char>) -> Option<Agent>
    decreases s.len(),
{
    if s.len() == 0 {
        None
    } else if s.last().name@ == n {
        Some(s.last())
    } else {
        last_agent(s.drop_last(), n)
    }
}

/// The last stream named `n`.
pub open spec fn last_stream(s: Seq<Stream>, n: Seq<char>) -> Option<Stream>
    decreases s.len(),
{
    if s.len() == 0 {
        None
    } else if s.last().name@ == n {
        Some(s.last())
    } else {
        last_stream(s.drop_last(), n)
    }
}

pub open spec fn agent_names_of(s: Seq<Agent>) -> Seq<Seq<char>> {
    s.map_values(|a: Agent| a.name@)
}

pub open spec fn stream_names_of(s: Seq<Stream>) -> Seq<Seq<char>> {
    s.map_values(|a: Stream| a.name@)
}

pub open spec fn plain_change(op: Seq<char>, component: Seq<char>) -> ChangeView {
    ChangeView { op, component, field: None, from: None, to: None, source_file: None }
}

pub open spec fn field_change(component: Seq<char>, field: Seq<char>, from: ValueView, to: ValueView) -> ChangeView {
    ChangeView { op: "~"@, component, field: Some(field), from: Some(from), to: Some(to), source_file: None }
}

/// Additions of agents: desired names (ascending) absent from the current topology.
pub open spec fn agent_additions(names: Seq<Seq<char>>, cur: Seq<Agent>, des: Seq<Agent>) -> Seq<ChangeView>
    decreases names.len(),
{
    if names.len() == 0 {
        Seq::empty()
    } else {
        let r = agent_additions(names.drop_last(), cur, des);
        let n = names.last();
        match (last_agent(cur, n), last_agent(des, n)) {
            (None, Some(a)) => r.push(ChangeView {
                op: "+"@,
                component: "agent "@ + n,
                field: None,
                from: None,
                to: Some(ValueView::AgentSpec { image: a.image@, replicas: a.replicas }),
                source_file: None,
            }),
            _ => r,
        }
    }
}

/// Removals of agents: current names (ascending) absent from the desired topology.
pub open spec fn agent_removals(names: Seq<Seq<char>>, des: Seq<Agent>) -> Seq<ChangeView>
    decreases names.len(),
{
    if names.len() == 0 {
        Seq::empty()
    } else {
        let r = agent_removals(names.drop_last(), des);
        if last_agent(des, names.last()) is Some {
            r
        } else {
            r.push(plain_change("-"@, "agent "@ + names.last()))
        }
    }
}

/// Modifications of agents present in both: replicas first, then image.
pub open spec fn agent_modifications(names: Seq<Seq<char>>, cur: Seq<Agent>, des: Seq<Agent>) -> Seq<ChangeView>
    decreases names.len(),
{
    if names.len() == 0 {
        Seq::empty()
    } else {
        let r = agent_modifications(names.drop_last(), cur, des);
        let n = names.last();
        match (last_agent(cur, n), last_agent(des, n)) {
            (Some(c), Some(d)) => {
                let r1 = if c.replicas != d.replicas {
                    r.push(field_change("agent "@ + n, "replicas"@, ValueView::Count(c.replicas), ValueView::Count(d.replicas)))
                } else {
                    r
                };
                if c.image@ != d.image@ {
                    r1.push(field_change("agent "@ + n, "image"@, ValueView::Text(c.image@), ValueView::Text(d.image@)))
                } else {
                    r1
                }
            },
            _ => r,
        }
    }
}

/// Additions of streams; every stream uses the local provider.
pub open spec fn stream_additions(names: Seq<Seq<char>>, cur: Seq<Stream>) -> Seq<ChangeView>
    decreases names.len(),
{
    if names.len() == 0 {
        Seq::empty()
    } else {
        let r = stream_additions(names.drop_last(), cur);
        if last_stream(cur, names.last()) is Some {
            r
        } else {
            r.push(ChangeView {
                op: "+"@,
                component: "stream "@ + names.last(),
                field: None,
                from: None,
                to: Some(ValueView::Provider("local"@)),
                source_file: None,
            })
        }
    }
}

/// Removals of streams.
pub open spec fn stream_removals(names: Seq<Seq<char>>, des: Seq<Stream>) -> Seq<ChangeView>
    decreases names.len(),
{
    if names.len() == 0 {
        Seq::empty()
    } else {
        let r = stream_removals(names.drop_last(), des);
        if last_stream(des, names.last()) is Some {
            r
        } else {
            r.push(plain_change("-"@, "stream "@ + names.last()))
        }
    }
}

/// Retention modifications of streams present in both.
pub open spec fn stream_modifications(names: Seq<Seq<char>>, cur: Seq<Stream>, des: Seq<Stream>) -> Seq<ChangeView>
    decreases names.len(),
{
    if names.len() == 0 {
        Seq::empty()
    } else {
        let r = stream_modifications(names.drop_last(), cur, des);
        let n = names.last();
        match (last_stream(cur, n), last_stream(des, n)) {
            (Some(c), Some(d)) => if opt_str_view(c.retention) != opt_str_view(d.retention) {
                r.push(field_change(
                    "stream "@ + n,
                    "retention"@,
                    ValueView::OptText(opt_str_view(c.retention)),
                    ValueView::OptText(opt_str_view(d.retention)),
                ))
            } else {
                r
            },
            _ => r,
        }
    }
}

/// The diff between current agents and streams `ca`, `cs` and desired ones
/// `da`, `ds`: agent additions, removals and modifications, then the same
/// for streams, each in ascending name order.
pub open spec fn diff_parts(ca: Seq<Agent>, cs: Seq<Stream>, da: Seq<Agent>, ds: Seq<Stream>) -> Seq<ChangeView> {
    let can = sorted_names(agent_names_of(ca));
    let dan = sorted_names(agent_names_of(da));
    let csn = sorted_names(stream_names_of(cs));
    let dsn = sorted_names(stream_names_of(ds));
    agent_additions(dan, ca, da) + agent_removals(can, da) + agent_modifications(dan, ca, da) + stream_additions(
        dsn,
        cs,
    ) + stream_removals(csn, ds) + stream_modifications(dsn, cs, ds)
}

/// The diff between the current and the desired topology.
pub open spec fn topology_diff(cur: Topology, des: Topology) -> Seq<ChangeView> {
    diff_parts(cur.agents@, cur.streams@, des.agents@, des.streams@)
}

/// Inserts `x` in order into the sorted names `v`, unless present.
pub(crate) fn insert_sorted_vec(v: &mut Vec<String>, x: String)
    ensures
        string_views(final(v)@) == insert_sorted(string_views(old(v)@), x@),
    decreases old(v)@.len(),
{
    let ghost o = string_views(v@);
    if v.len() == 0 {
        v.push(x);
        assert(string_views(v@) =~= seq![x@]);
        return;
    }
    let n = v.len();
    assert(o.last() == v@[n - 1]@);
    if str_eq(v[n - 1].as_str(), x.as_str()) {
        return;
    }
    if str_lt(v[n - 1].as_str(), x.as_str()) {
        v.push(x);
        assert(string_views(v@) =~= o.push(x@));
        return;
    }
    let last = v.pop().unwrap();
    assert(string_views(v@) =~= o.drop_last());
    insert_sorted_vec(v, x);
    let ghost mid = string_views(v@);
    v.push(last);
    assert(string_views(v@) =~= mid.push(o.last()));
}

/// The distinct names of the agents, ascending.
fn sorted_agent_names(s: &Vec<Agent>) -> (r: Vec<String>)
    ensures
        string_views(r@) == sorted_names(agent_names_of(s@)),
{
    let mut r: Vec<String> = Vec::new();
    for i in 0..s.len()
        invariant
            string_views(r@) == sorted_names(agent_names_of(s@).take(i as int)),
    {
        assert(agent_names_of(s@).take(i + 1).drop_last() == agent_names_of(s@).take(i as int));
        assert(agent_names_of(s@).take(i + 1).last() == s@[i as int].name@);
        insert_sorted_vec(&mut r, s[i].name.clone());
    }
    assert(agent_names_of(s@).take(s@.len() as int) == agent_names_of(s@));
    r
}

/// The distinct names of the streams, ascending.
fn sorted_stream_names(s: &Vec<Stream>) -> (r: Vec<String>)
    ensures
        string_views(r@) == sorted_names(stream_names_of(s@)),
{
    let mut r: Vec<String> = Vec::new();
    for i in 0..s.len()
        invariant
            string_views(r@) == sorted_names(stream_names_of(s@).take(i as int)),
    {
        assert(stream_names_of(s@).take(i + 1).drop_last() == stream_names_of(s@).take(i as int));
        assert(stream_names_of(s@).take(i + 1).last() == s@[i as int].name@);
        insert_sorted_vec(&mut r, s[i].name.clone());
    }
    assert(stream_names_of(s@).take(s@.len() as int) == stream_names_of(s@));
    r
}

/// The last agent named `n`.
fn find_last_agent<'a>(s: &'a Vec<Agent>, n: &str) -> (r: Option<&'a Agent>)
    ensures
        match r {
            Some(a) => last_agent(s@, n@) == Some(*a),
            None => last_agent(s@, n@) is None,
        },
{
    let mut i = s.len();
    assert(s@.take(s@.len() as int) == s@);
    while i > 0
        invariant
            i <= s@.len(),
            last_agent(s@, n@) == last_agent(s@.take(i as int), n@),
        decreases i,
    {
        let ghost t = s@.take(i as int);
        assert(t.drop_last() == s@.take(i - 1));
        assert(t.last() == s@[i - 1]);
        if str_eq(s[i - 1].name.as_str(), n) {
            return Some(&s[i - 1]);
        }
        i = i - 1;
    }
    None
}

/// The last stream named `n`.
fn find_last_stream<'a>(s: &'a Vec<Stream>, n: &str) -> (r: Option<&'a Stream>)
    ensures
        match r {
            Some(a) => last_stream(s@, n@) == Some(*a),
            None => last_stream(s@, n@) is None,
        },
{
    let mut i = s.len();
    assert(s@.take(s@.len() as int) == s@);
    while i > 0
        invariant
            i <= s@.len(),
            last_stream(s@, n@) == last_stream(s@.take(i as int), n@),
        decreases i,
    {
        let ghost t = s@.take(i as int);
        assert(t.drop_last() == s@.take(i - 1));
        assert(t.last() == s@[i - 1]);
        if str_eq(s[i - 1].name.as_str(), n) {
            return Some(&s[i - 1]);
        }
        i = i - 1;
    }
    None
}


/// A copy of an optional string.
pub fn clone_opt_str(o: &Option<String>) -> (r: Option<String>)
    ensures
        opt_str_view(r) == opt_str_view(*o),
{
    match o {
        Some(s) => Some(s.clone()),
        None => None,
    }
}

/// Whether two optional strings are equal.
fn opt_str_eq(a: &Option<String>, b: &Option<String>) -> (r: bool)
    ensures
        r == (opt_str_view(*a) == opt_str_view(*b)),
{
    match (a, b) {
        (Some(x), Some(y)) => str_eq(x.as_str(), y.as_str()),
        (None, None) => true,
        _ => false,
    }
}

/// `prefix` followed by `name`.
fn prefixed(prefix: &str, name: &str) -> (r: String)
    ensures
        r@ == prefix@ + name@,
{
    let mut r = String::new();
    push_str(&mut r, prefix);
    push_str(&mut r, name);
    assert(r@ =~= prefix@ + name@);
    r
}

/// A change without field or values.
fn plain(op: &str, component: String) -> (c: Change)
    ensures
        change_view(c) == plain_change(op@, component@),
{
    Change { op: String::from_str(op), component, field: None, from: None, to: None, source_file: None }
}

/// A field modification.
fn modified(component: String, field: &str, from: ChangeValue, to: ChangeValue) -> (c: Change)
    ensures
        change_view(c) == field_change(component@, field@, value_view(from), value_view(to)),
{
    Change {
        op: String::from_str("~"),
        component,
        field: Some(String::from_str(field)),
        from: Some(from),
        to: Some(to),
        source_file: None,
    }
}

proof fn lemma_names_step(ns: Seq<Seq<char>>, names: Seq<String>, i: int)
    requires
        ns == string_views(names),
        0 <= i < names.len(),
    ensures
        ns.take(i + 1).drop_last() == ns.take(i),
        ns.take(i + 1).last() == names[i]@,
{
    assert(ns.take(i + 1).drop_last() =~= ns.take(i));
}

proof fn lemma_changes_push(a: Seq<Change>, c: Change)
    ensures
        changes_view(a.push(c)) == changes_view(a).push(change_view(c)),
{
    assert(changes_view(a.push(c)) =~= changes_view(a).push(change_view(c)));
}

/// Appends the agent additions over `names`.
fn push_agent_additions(out: &mut Vec<Change>, names: &Vec<String>, cur: &Vec<Agent>, des: &Vec<Agent>)
    ensures
        changes_view(final(out)@) == changes_view(old(out)@) + agent_additions(string_views(names@), cur@, des@),
{
    let ghost o = changes_view(out@);
    let ghost ns = string_views(names@);
    for i in 0..names.len()
        invariant
            ns == string_views(names@),
            changes_view(out@) == o + agent_additions(ns.take(i as int), cur@, des@),
    {
        proof { lemma_names_step(ns, names@, i as int); }
        let n = names[i].as_str();
        let c = find_last_agent(cur, n);
        let d = find_last_agent(des, n);
        if c.is_none() {
            if let Some(a) = d {
                let ch = Change {
                    op: String::from_str("+"),
                    component: prefixed("agent ", n),
                    field: None,
                    from: None,
                    to: Some(ChangeValue::AgentSpec { image: a.image.clone(), replicas: a.replicas }),
                    source_file: None,
                };
                proof { lemma_changes_push(out@, ch); }
                out.push(ch);
            }
        }
    }
    assert(ns.take(ns.len() as int) == ns);
}

/// Appends the agent removals over `names`.
fn push_agent_removals(out: &mut Vec<Change>, names: &Vec<String>, des: &Vec<Agent>)
    ensures
        changes_view(final(out)@) == changes_view(old(out)@) + agent_removals(string_views(names@), des@),
{
    let ghost o = changes_view(out@);
    let ghost ns = string_views(names@);
    for i in 0..names.len()
        invariant
            ns == string_views(names@),
            changes_view(out@) == o + agent_removals(ns.take(i as int), des@),
    {
        proof { lemma_names_step(ns, names@, i as int); }
        let n = names[i].as_str();
        if find_last_agent(des, n).is_none() {
            let ch = plain("-", prefixed("agent ", n));
            proof { lemma_changes_push(out@, ch); }
            out.push(ch);
        }
    }
    assert(ns.take(ns.len() as int) == ns);
}

/// Appends the agent modifications over `names`.
fn push_agent_modifications(out: &mut Vec<Change>, names: &Vec<String>, cur: &Vec<Agent>, des: &Vec<Agent>)
    ensures
        changes_view(final(out)@) == changes_view(old(out)@) + agent_modifications(string_views(names@), cur@, des@),
{
    let ghost o = changes_view(out@);
    let ghost ns = string_views(names@);
    for i in 0..names.len()
        invariant
            ns == string_views(names@),
            changes_view(out@) == o + agent_modifications(ns.take(i as int), cur@, des@),
    {
        proof { lemma_names_step(ns, names@, i as int); }
        let n = names[i].as_str();
        if let (Some(c), Some(d)) = (find_last_agent(cur, n), find_last_agent(des, n)) {
            if c.replicas != d.replicas {
                let ch = modified(prefixed("agent ", n), "replicas", ChangeValue::Count(c.replicas), ChangeValue::Count(d.replicas));
                proof { lemma_changes_push(out@, ch); }
                out.push(ch);
            }
            if !str_eq(c.image.as_str(), d.image.as_str()) {
                let ch = modified(prefixed("agent ", n), "image", ChangeValue::Text(c.image.clone()), ChangeValue::Text(d.image.clone()));
                proof { lemma_changes_push(out@, ch); }
                out.push(ch);
            }
        }
    }
    assert(ns.take(ns.len() as int) == ns);
}

/// Appends the stream additions over `names`.
fn push_stream_additions(out: &mut Vec<Change>, names: &Vec<String>, cur: &Vec<Stream>)
    ensures
        changes_view(final(out)@) == changes_view(old(out)@) + stream_additions(string_views(names@), cur@),
{
    let ghost o = changes_view(out@);
    let ghost ns = string_views(names@);
    for i in 0..names.len()
        invariant
            ns == string_views(names@),
            changes_view(out@) == o + stream_additions(ns.take(i as int), cur@),
    {
        proof { lemma_names_step(ns, names@, i as int); }
        let n = names[i].as_str();
        if find_last_stream(cur, n).is_none() {
            let ch = Change {
                op: String::from_str("+"),
                component: prefixed("stream ", n),
                field: None,
                from: None,
                to: Some(ChangeValue::Provider(String::from_str("local"))),
                source_file: None,
            };
            proof { lemma_changes_push(out@, ch); }
            out.push(ch);
        }
    }
    assert(ns.take(ns.len() as int) == ns);
}

/// Appends the stream removals over `names`.
fn push_stream_removals(out: &mut Vec<Change>, names: &Vec<String>, des: &Vec<Stream>)
    ensures
        changes_view(final(out)@) == changes_view(old(out)@) + stream_removals(string_views(names@), des@),
{
    let ghost o = changes_view(out@);
    let ghost ns = string_views(names@);
    for i in 0..names.len()
        invariant
            ns == string_views(names@),
            changes_view(out@) == o + stream_removals(ns.take(i as int), des@),
    {
        proof { lemma_names_step(ns, names@, i as int); }
        let n = names[i].as_str();
        if find_last_stream(des, n).is_none() {
            let ch = plain("-", prefixed("stream ", n));
            proof { lemma_changes_push(out@, ch); }
            out.push(ch);
        }
    }
    assert(ns.take(ns.len() as int) == ns);
}

/// Appends the stream retention modifications over `names`.
fn push_stream_modifications(out: &mut Vec<Change>, names: &Vec<String>, cur: &Vec<Stream>, des: &Vec<Stream>)
    ensures
        changes_view(final(out)@) == changes_view(old(out)@) + stream_modifications(string_views(names@), cur@, des@),
{
    let ghost o = changes_view(out@);
    let ghost ns = string_views(names@);
    for i in 0..names.len()
        invariant
            ns == string_views(names@),
            changes_view(out@) == o + stream_modifications(ns.take(i as int), cur@, des@),
    {
        proof { lemma_names_step(ns, names@, i as int); }
        let n = names[i].as_str();
        if let (Some(c), Some(d)) = (find_last_stream(cur, n), find_last_stream(des, n)) {
            if !opt_str_eq(&c.retention, &d.retention) {
                let ch = modified(
                    prefixed("stream ", n),
                    "retention",
                    ChangeValue::OptText(clone_opt_str(&c.retention)),
                    ChangeValue::OptText(clone_opt_str(&d.retention)),
                );
                proof { lemma_changes_push(out@, ch); }
                out.push(ch);
            }
        }
    }
    assert(ns.take(ns.len() as int) == ns);
}

/// Compute the diff between the current and the desired topology: agents
/// added, removed and modified, then streams added, removed and modified,
/// each group in ascending name order.
pub fn diff_topologies(current: &Topology, desired: &Topology) -> (r: Vec<Change>)
    ensures
        changes_view(r@) == topology_diff(*current, *desired),
{
    let ca = sorted_agent_names(&current.agents);
    let da = sorted_agent_names(&desired.agents);
    let cs = sorted_stream_names(&current.streams);
    let ds = sorted_stream_names(&desired.streams);
    let mut out: Vec<Change> = Vec::new();
    assert(changes_view(out@) =~= Seq::<ChangeView>::empty());
    push_agent_additions(&mut out, &da, &current.agents, &desired.agents);
    push_agent_removals(&mut out, &ca, &desired.agents);
    push_agent_modifications(&mut out, &da, &current.agents, &desired.agents);
    push_stream_additions(&mut out, &ds, &current.streams);
    push_stream_removals(&mut out, &cs, &desired.streams);
    push_stream_modifications(&mut out, &ds, &current.streams, &desired.streams);
    assert(changes_view(out@) =~= topology_diff(*current, *desired));
    out
}

proof fn lemma_insert_sorted_members(s: Seq<Seq<char>>, x: Seq<char>)
    ensures
        forall|y: Seq<char>| #[trigger] insert_sorted(s, x).contains(y) ==> y == x || s.contains(y),
    decreases s.len(),
{
    if s.len() > 0 && s.last() != x && !seq_lt(s.last(), x) {
        lemma_insert_sorted_members(s.drop_last(), x);
        let r = insert_sorted(s.drop_last(), x);
        assert forall|y: Seq<char>| #[trigger] insert_sorted(s, x).contains(y) implies y == x || s.contains(y) by {
            let i = choose|i: int| 0 <= i < insert_sorted(s, x).len() && insert_sorted(s, x)[i] == y;
            if i < r.len() {
                assert(r[i] == y);
                assert(r.contains(y));
                if y != x {
                    let j = choose|j: int| 0 <= j < s.drop_last().len() && s.drop_last()[j] == y;
                    assert(s[j] == y);
                }
            } else {
                assert(s[s.len() - 1] == y);
            }
        }
    } else if s.len() > 0 {
        assert forall|y: Seq<char>| #[trigger] insert_sorted(s, x).contains(y) implies y == x || s.contains(y) by {
            let i = choose|i: int| 0 <= i < insert_sorted(s, x).len() && insert_sorted(s, x)[i] == y;
            if i < s.len() {
                assert(s[i] == y);
            }
        }
    }
}

proof fn lemma_sorted_names_members(ns: Seq<Seq<char>>)
    ensures
        forall|y: Seq<char>| #[trigger] sorted_names(ns).contains(y) ==> ns.contains(y),
    decreases ns.len(),
{
    if ns.len() > 0 {
        lemma_sorted_names_members(ns.drop_last());
        lemma_insert_sorted_members(sorted_names(ns.drop_last()), ns.last());
        assert forall|y: Seq<char>| #[trigger] sorted_names(ns).contains(y) implies ns.contains(y) by {
            if y == ns.last() {
                assert(ns[ns.len() - 1] == y);
            } else {
                assert(sorted_names(ns.drop_last()).contains(y));
                let j = choose|j: int| 0 <= j < ns.drop_last().len() && ns.drop_last()[j] == y;
                assert(ns[j] == y);
            }
        }
    }
}

proof fn lemma_last_agent_some(a: Seq<Agent>, n: Seq<char>)
    requires
        agent_names_of(a).contains(n),
    ensures
        last_agent(a, n) is Some,
    decreases a.len(),
{
    if a.last().name@ != n {
        let j = choose|j: int| 0 <= j < agent_names_of(a).len() && agent_names_of(a)[j] == n;
        assert(j < a.len() - 1);
        assert(agent_names_of(a.drop_last())[j] == n);
        lemma_last_agent_some(a.drop_last(), n);
    }
}

proof fn lemma_last_stream_some(s: Seq<Stream>, n: Seq<char>)
    requires
        stream_names_of(s).contains(n),
    ensures
        last_stream(s, n) is Some,
    decreases s.len(),
{
    if s.last().name@ != n {
        let j = choose|j: int| 0 <= j < stream_names_of(s).len() && stream_names_of(s)[j] == n;
        assert(j < s.len() - 1);
        assert(stream_names_of(s.drop_last())[j] == n);
        lemma_last_stream_some(s.drop_last(), n);
    }
}

proof fn lemma_same_agents_no_change(names: Seq<Seq<char>>, a: Seq<Agent>)
    requires
        forall|k: int| 0 <= k < names.len() ==> last_agent(a, #[trigger] names[k]) is Some,
    ensures
        agent_additions(names, a, a).len() == 0,
        agent_removals(names, a).len() == 0,
        agent_modifications(names, a, a).len() == 0,
    decreases names.len(),
{
    if names.len() > 0 {
        let d = names.drop_last();
        assert forall|k: int| 0 <= k < d.len() implies last_agent(a, #[trigger] d[k]) is Some by {
            assert(d[k] == names[k]);
        }
        lemma_same_agents_no_change(d, a);
        assert(last_agent(a, names[names.len() - 1]) is Some);
    }
}

proof fn lemma_same_streams_no_change(names: Seq<Seq<char>>, s: Seq<Stream>)
    requires
        forall|k: int| 0 <= k < names.len() ==> last_stream(s, #[trigger] names[k]) is Some,
    ensures
        stream_additions(names, s).len() == 0,
        stream_removals(names, s).len() == 0,
        stream_modifications(names, s, s).len() == 0,
    decreases names.len(),
{
    if names.len() > 0 {
        let d = names.drop_last();
        assert forall|k: int| 0 <= k < d.len() implies last_stream(s, #[trigger] d[k]) is Some by {
            assert(d[k] == names[k]);
        }
        lemma_same_streams_no_change(d, s);
        assert(last_stream(s, names[names.len() - 1]) is Some);
    }
}

/// Diffing agents and streams against themselves finds no change.
pub proof fn law_diff_of_same_is_empty(a: Seq<Agent>, s: Seq<Stream>)
    ensures
        diff_parts(a, s, a, s).len() == 0,
{
    let an = sorted_names(agent_names_of(a));
    let sn = sorted_names(stream_names_of(s));
    lemma_sorted_names_members(agent_names_of(a));
    lemma_sorted_names_members(stream_names_of(s));
    assert forall|k: int| 0 <= k < an.len() implies last_agent(a, #[trigger] an[k]) is Some by {
        assert(an.contains(an[k]));
        lemma_last_agent_some(a, an[k]);
    }
    assert forall|k: int| 0 <= k < sn.len() implies last_stream(s, #[trigger] sn[k]) is Some by {
        assert(sn.contains(sn[k]));
        lemma_last_stream_some(s, sn[k]);
    }
    lemma_same_agents_no_change(an, a);
    lemma_same_streams_no_change(sn, s);
}

/// Whether `d` holds a change with operation `op` on `component`.
pub open spec fn has_change(d: Seq<ChangeView>, op: Seq<char>, component: Seq<char>) -> bool {
    exists|i: int| #![trigger d[i]] 0 <= i < d.len() && d[i].op == op && d[i].component == component
}

/// Whether `d` holds a modification of `field` on `component`.
pub open spec fn has_field_change(d: Seq<ChangeView>, component: Seq<char>, field: Seq<char>) -> bool {
    exists|i: int|
        #![trigger d[i]]
        0 <= i < d.len() && d[i].op == "~"@ && d[i].component == component && d[i].field == Some(field)
}

/// Whether every change in `d` has operation `op` on a component starting with `prefix`.
pub open spec fn all_ops(d: Seq<ChangeView>, op: Seq<char>, prefix: Seq<char>) -> bool {
    forall|i: int|
        #![trigger d[i]]
        0 <= i < d.len() ==> d[i].op == op && d[i].component.len() >= prefix.len() && d[i].component.take(
            prefix.len() as int,
        ) == prefix
}

proof fn lemma_prefix(p: Seq<char>, n: Seq<char>, m: Seq<char>)
    ensures
        (p + n).take(p.len() as int) == p,
        (p + n) == (p + m) ==> n == m,
{
    assert((p + n).take(p.len() as int) =~= p);
    assert((p + n).skip(p.len() as int) =~= n);
    assert((p + m).skip(p.len() as int) =~= m);
}

proof fn lemma_has_push(r: Seq<ChangeView>, x: ChangeView, op: Seq<char>, c: Seq<char>, f: Seq<char>)
    ensures
        has_change(r.push(x), op, c) <==> (has_change(r, op, c) || (x.op == op && x.component == c)),
        has_field_change(r.push(x), c, f) <==> (has_field_change(r, c, f) || (x.op == "~"@ && x.component == c
            && x.field == Some(f))),
{
    let t = r.push(x);
    if has_change(r, op, c) {
        let i = choose|i: int| #![trigger r[i]] 0 <= i < r.len() && r[i].op == op && r[i].component == c;
        assert(t[i] == r[i]);
    }
    if has_field_change(r, c, f) {
        let i = choose|i: int|
            #![trigger r[i]]
            0 <= i < r.len() && r[i].op == "~"@ && r[i].component == c && r[i].field == Some(f);
        assert(t[i] == r[i]);
    }
    if has_change(t, op, c) {
        let i = choose|i: int| #![trigger t[i]] 0 <= i < t.len() && t[i].op == op && t[i].component == c;
        if i < r.len() {
            assert(t[i] == r[i]);
        }
    }
    if has_field_change(t, c, f) {
        let i = choose|i: int|
            #![trigger t[i]]
            0 <= i < t.len() && t[i].op == "~"@ && t[i].component == c && t[i].field == Some(f);
        if i < r.len() {
            assert(t[i] == r[i]);
        }
    }
    assert(t[r.len() as int] == x);
}

proof fn lemma_has_concat(a: Seq<ChangeView>, b: Seq<ChangeView>, op: Seq<char>, c: Seq<char>, f: Seq<char>)
    ensures
        has_change(a + b, op, c) <==> (has_change(a, op, c) || has_change(b, op, c)),
        has_field_change(a + b, c, f) <==> (has_field_change(a, c, f) || has_field_change(b, c, f)),
{
    let t = a + b;
    if has_change(a, op, c) {
        let i = choose|i: int| #![trigger a[i]] 0 <= i < a.len() && a[i].op == op && a[i].component == c;
        assert(t[i] == a[i]);
    }
    if has_change(b, op, c) {
        let i = choose|i: int| #![trigger b[i]] 0 <= i < b.len() && b[i].op == op && b[i].component == c;
        assert(t[i + a.len()] == b[i]);
    }
    if has_field_change(a, c, f) {
        let i = choose|i: int|
            #![trigger a[i]]
            0 <= i < a.len() && a[i].op == "~"@ && a[i].component == c && a[i].field == Some(f);
        assert(t[i] == a[i]);
    }
    if has_field_change(b, c, f) {
        let i = choose|i: int|
            #![trigger b[i]]
            0 <= i < b.len() && b[i].op == "~"@ && b[i].component == c && b[i].field == Some(f);
        assert(t[i + a.len()] == b[i]);
    }
    if has_change(t, op, c) {
        let i = choose|i: int| #![trigger t[i]] 0 <= i < t.len() && t[i].op == op && t[i].component == c;
        if i < a.len() {
            assert(t[i] == a[i]);
        } else {
            assert(t[i] == b[i - a.len()]);
        }
    }
    if has_field_change(t, c, f) {
        let i = choose|i: int|
            #![trigger t[i]]
            0 <= i < t.len() && t[i].op == "~"@ && t[i].component == c && t[i].field == Some(f);
        if i < a.len() {
            assert(t[i] == a[i]);
        } else {
            assert(t[i] == b[i - a.len()]);
        }
    }
}

proof fn lemma_all_ops_push(r: Seq<ChangeView>, x: ChangeView, op: Seq<char>, prefix: Seq<char>)
    requires
        all_ops(r, op, prefix),
        x.op == op,
        x.component.len() >= prefix.len(),
        x.component.take(prefix.len() as int) == prefix,
    ensures
        all_ops(r.push(x), op, prefix),
{
    let t = r.push(x);
    assert forall|i: int| #![trigger t[i]] 0 <= i < t.len() implies t[i].op == op && t[i].component.len() >= prefix.len()
        && t[i].component.take(prefix.len() as int) == prefix by {
        if i < r.len() {
            assert(t[i] == r[i]);
        }
    }
}

/// Without a matching operation or prefix, a part holds no such change.
proof fn lemma_no_change(d: Seq<ChangeView>, op: Seq<char>, prefix: Seq<char>, op2: Seq<char>, c: Seq<char>, f: Seq<char>)
    requires
        all_ops(d, op, prefix),
        op != op2 || (c.len() >= prefix.len() && c.take(prefix.len() as int) != prefix) || c.len() < prefix.len(),
    ensures
        !has_change(d, op2, c),
        op != "~"@ || (c.len() >= prefix.len() && c.take(prefix.len() as int) != prefix) || c.len() < prefix.len()
            ==> !has_field_change(d, c, f),
{
    if has_change(d, op2, c) {
        let i = choose|i: int| #![trigger d[i]] 0 <= i < d.len() && d[i].op == op2 && d[i].component == c;
    }
    if has_field_change(d, c, f) {
        let i = choose|i: int|
            #![trigger d[i]]
            0 <= i < d.len() && d[i].op == "~"@ && d[i].component == c && d[i].field == Some(f);
    }
}

proof fn lemma_agent_additions(names: Seq<Seq<char>>, cur: Seq<Agent>, des: Seq<Agent>, n: Seq<char>, f: Seq<char>)
    ensures
        all_ops(agent_additions(names, cur, des), "+"@, "agent "@),
        has_change(agent_additions(names, cur, des), "+"@, "agent "@ + n) <==> (names.contains(n) && last_agent(cur, n)
            is None && last_agent(des, n) is Some),
    decreases names.len(),
{
    if names.len() > 0 {
        let d = names.drop_last();
        lemma_agent_additions(d, cur, des, n, f);
        let r = agent_additions(d, cur, des);
        let m = names.last();
        lemma_prefix("agent "@, m, n);
        lemma_prefix("agent "@, n, m);
        assert(names =~= d.push(m));
        assert(names.contains(n) <==> (d.contains(n) || m == n)) by {
            if names.contains(n) && m != n {
                let k = choose|k: int| 0 <= k < names.len() && names[k] == n;
                assert(d[k] == n);
            }
            if d.contains(n) {
                let k = choose|k: int| 0 <= k < d.len() && d[k] == n;
                assert(names[k] == n);
            }
            if m == n {
                assert(names[names.len() - 1] == n);
            }
        }
        match (last_agent(cur, m), last_agent(des, m)) {
            (None, Some(a)) => {
                let x = ChangeView {
                    op: "+"@,
                    component: "agent "@ + m,
                    field: None,
                    from: None,
                    to: Some(ValueView::AgentSpec { image: a.image@, replicas: a.replicas }),
                    source_file: None,
                };
                lemma_all_ops_push(r, x, "+"@, "agent "@);
                lemma_has_push(r, x, "+"@, "agent "@ + n, f);
            },
            _ => {},
        }
    }
}

proof fn lemma_agent_removals(names: Seq<Seq<char>>, des: Seq<Agent>, n: Seq<char>, f: Seq<char>)
    ensures
        all_ops(agent_removals(names, des), "-"@, "agent "@),
        has_change(agent_removals(names, des), "-"@, "agent "@ + n) <==> (names.contains(n) && last_agent(des, n) is None),
    decreases names.len(),
{
    if names.len() > 0 {
        let d = names.drop_last();
        lemma_agent_removals(d, des, n, f);
        let r = agent_removals(d, des);
        let m = names.last();
        lemma_prefix("agent "@, m, n);
        lemma_prefix("agent "@, n, m);
        assert(names.contains(n) <==> (d.contains(n) || m == n)) by {
            if names.contains(n) && m != n {
                let k = choose|k: int| 0 <= k < names.len() && names[k] == n;
                assert(d[k] == n);
            }
            if d.contains(n) {
                let k = choose|k: int| 0 <= k < d.len() && d[k] == n;
                assert(names[k] == n);
            }
            if m == n {
                assert(names[names.len() - 1] == n);
            }
        }
        if last_agent(des, m) is None {
            let x = plain_change("-"@, "agent "@ + m);
            lemma_all_ops_push(r, x, "-"@, "agent "@);
            lemma_has_push(r, x, "-"@, "agent "@ + n, f);
        }
    }
}

/// Whether the agents named `n` differ in replicas (`image` false) or image.
pub open spec fn agent_field_differs(cur: Seq<Agent>, des: Seq<Agent>, n: Seq<char>, image: bool) -> bool {
    match (last_agent(cur, n), last_agent(des, n)) {
        (Some(c), Some(d)) => if image {
            c.image@ != d.image@
        } else {
            c.replicas != d.replicas
        },
        _ => false,
    }
}

proof fn lemma_agent_modifications(names: Seq<Seq<char>>, cur: Seq<Agent>, des: Seq<Agent>, n: Seq<char>)
    ensures
        all_ops(agent_modifications(names, cur, des), "~"@, "agent "@),
        has_field_change(agent_modifications(names, cur, des), "agent "@ + n, "replicas"@) <==> (names.contains(n)
            && agent_field_differs(cur, des, n, false)),
        has_field_change(agent_modifications(names, cur, des), "agent "@ + n, "image"@) <==> (names.contains(n)
            && agent_field_differs(cur, des, n, true)),
    decreases names.len(),
{
    reveal_strlit("replicas");
    reveal_strlit("image");
    if names.len() > 0 {
        let d = names.drop_last();
        lemma_agent_modifications(d, cur, des, n);
        let r = agent_modifications(d, cur, des);
        let m = names.last();
        lemma_prefix("agent "@, m, n);
        lemma_prefix("agent "@, n, m);
        assert(names.contains(n) <==> (d.contains(n) || m == n)) by {
            if names.contains(n) && m != n {
                let k = choose|k: int| 0 <= k < names.len() && names[k] == n;
                assert(d[k] == n);
            }
            if d.contains(n) {
                let k = choose|k: int| 0 <= k < d.len() && d[k] == n;
                assert(names[k] == n);
            }
            if m == n {
                assert(names[names.len() - 1] == n);
            }
        }
        match (last_agent(cur, m), last_agent(des, m)) {
            (Some(c), Some(dd)) => {
                let x1 = field_change("agent "@ + m, "replicas"@, ValueView::Count(c.replicas), ValueView::Count(dd.replicas));
                let r1 = if c.replicas != dd.replicas {
                    r.push(x1)
                } else {
                    r
                };
                if c.replicas != dd.replicas {
                    lemma_all_ops_push(r, x1, "~"@, "agent "@);
                    lemma_has_push(r, x1, "~"@, "agent "@ + n, "replicas"@);
                    lemma_has_push(r, x1, "~"@, "agent "@ + n, "image"@);
                }
                let x2 = field_change("agent "@ + m, "image"@, ValueView::Text(c.image@), ValueView::Text(dd.image@));
                if c.image@ != dd.image@ {
                    lemma_all_ops_push(r1, x2, "~"@, "agent "@);
                    lemma_has_push(r1, x2, "~"@, "agent "@ + n, "replicas"@);
                    lemma_has_push(r1, x2, "~"@, "agent "@ + n, "image"@);
                }
                assert(agent_modifications(names, cur, des) == (if c.image@ != dd.image@ {
                    r1.push(x2)
                } else {
                    r1
                }));
                assert("replicas"@ != "image"@) by {
                    assert("replicas"@.len() != "image"@.len());
                }
                if m == n {
                    assert(agent_field_differs(cur, des, n, false) == (c.replicas != dd.replicas));
                    assert(agent_field_differs(cur, des, n, true) == (c.image@ != dd.image@));
                }
            },
            _ => {},
        }
    }
}

proof fn lemma_stream_additions(names: Seq<Seq<char>>, cur: Seq<Stream>, n: Seq<char>, f: Seq<char>)
    ensures
        all_ops(stream_additions(names, cur), "+"@, "stream "@),
        has_change(stream_additions(names, cur), "+"@, "stream "@ + n) <==> (names.contains(n) && last_stream(cur, n) is None),
    decreases names.len(),
{
    if names.len() > 0 {
        let d = names.drop_last();
        lemma_stream_additions(d, cur, n, f);
        let r = stream_additions(d, cur);
        let m = names.last();
        lemma_prefix("stream "@, m, n);
        lemma_prefix("stream "@, n, m);
        assert(names.contains(n) <==> (d.contains(n) || m == n)) by {
            if names.contains(n) && m != n {
                let k = choose|k: int| 0 <= k < names.len() && names[k] == n;
                assert(d[k] == n);
            }
            if d.contains(n) {
                let k = choose|k: int| 0 <= k < d.len() && d[k] == n;
                assert(names[k] == n);
            }
            if m == n {
                assert(names[names.len() - 1] == n);
            }
        }
        if last_stream(cur, m) is None {
            let x = ChangeView {
                op: "+"@,
                component: "stream "@ + m,
                field: None,
                from: None,
                to: Some(ValueView::Provider("local"@)),
                source_file: None,
            };
            lemma_all_ops_push(r, x, "+"@, "stream "@);
            lemma_has_push(r, x, "+"@, "stream "@ + n, f);
        }
    }
}

proof fn lemma_stream_removals(names: Seq<Seq<char>>, des: Seq<Stream>, n: Seq<char>, f: Seq<char>)
    ensures
        all_ops(stream_removals(names, des), "-"@, "stream "@),
        has_change(stream_removals(names, des), "-"@, "stream "@ + n) <==> (names.contains(n) && last_stream(des, n) is None),
    decreases names.len(),
{
    if names.len() > 0 {
        let d = names.drop_last();
        lemma_stream_removals(d, des, n, f);
        let r = stream_removals(d, des);
        let m = names.last();
        lemma_prefix("stream "@, m, n);
        lemma_prefix("stream "@, n, m);
        assert(names.contains(n) <==> (d.contains(n) || m == n)) by {
            if names.contains(n) && m != n {
                let k = choose|k: int| 0 <= k < names.len() && names[k] == n;
                assert(d[k] == n);
            }
            if d.contains(n) {
                let k = choose|k: int| 0 <= k < d.len() && d[k] == n;
                assert(names[k] == n);
            }
            if m == n {
                assert(names[names.len() - 1] == n);
            }
        }
        if last_stream(des, m) is None {
            let x = plain_change("-"@, "stream "@ + m);
            lemma_all_ops_push(r, x, "-"@, "stream "@);
            lemma_has_push(r, x, "-"@, "stream "@ + n, f);
        }
    }
}

/// Whether the streams named `n` differ in retention.
pub open spec fn retention_differs(cur: Seq<Stream>, des: Seq<Stream>, n: Seq<char>) -> bool {
    match (last_stream(cur, n), last_stream(des, n)) {
        (Some(c), Some(d)) => opt_str_view(c.retention) != opt_str_view(d.retention),
        _ => false,
    }
}

proof fn lemma_stream_modifications(names: Seq<Seq<char>>, cur: Seq<Stream>, des: Seq<Stream>, n: Seq<char>)
    ensures
        all_ops(stream_modifications(names, cur, des), "~"@, "stream "@),
        has_field_change(stream_modifications(names, cur, des), "stream "@ + n, "retention"@) <==> (names.contains(n)
            && retention_differs(cur, des, n)),
    decreases names.len(),
{
    if names.len() > 0 {
        let d = names.drop_last();
        lemma_stream_modifications(d, cur, des, n);
        let r = stream_modifications(d, cur, des);
        let m = names.last();
        lemma_prefix("stream "@, m, n);
        lemma_prefix("stream "@, n, m);
        assert(names.contains(n) <==> (d.contains(n) || m == n)) by {
            if names.contains(n) && m != n {
                let k = choose|k: int| 0 <= k < names.len() && names[k] == n;
                assert(d[k] == n);
            }
            if d.contains(n) {
                let k = choose|k: int| 0 <= k < d.len() && d[k] == n;
                assert(names[k] == n);
            }
            if m == n {
                assert(names[names.len() - 1] == n);
            }
        }
        match (last_stream(cur, m), last_stream(des, m)) {
            (Some(c), Some(dd)) => if opt_str_view(c.retention) != opt_str_view(dd.retention) {
                let x = field_change(
                    "stream "@ + m,
                    "retention"@,
                    ValueView::OptText(opt_str_view(c.retention)),
                    ValueView::OptText(opt_str_view(dd.retention)),
                );
                lemma_all_ops_push(r, x, "~"@, "stream "@);
                lemma_has_push(r, x, "~"@, "stream "@ + n, "retention"@);
            },
            _ => {},
        }
    }
}

proof fn lemma_insert_sorted_keeps(s: Seq<Seq<char>>, x: Seq<char>)
    ensures
        insert_sorted(s, x).contains(x),
        forall|y: Seq<char>| s.contains(y) ==> #[trigger] insert_sorted(s, x).contains(y),
    decreases s.len(),
{
    if s.len() == 0 {
        assert(insert_sorted(s, x)[0] == x);
    } else if s.last() == x {
        assert(s[s.len() - 1] == x);
    } else if seq_lt(s.last(), x) {
        let r = s.push(x);
        assert(r[s.len() as int] == x);
        assert forall|y: Seq<char>| s.contains(y) implies #[trigger] insert_sorted(s, x).contains(y) by {
            let k = choose|k: int| 0 <= k < s.len() && s[k] == y;
            assert(r[k] == y);
        }
    } else {
        let d = s.drop_last();
        lemma_insert_sorted_keeps(d, x);
        let rd = insert_sorted(d, x);
        let r = rd.push(s.last());
        let k0 = choose|k: int| 0 <= k < rd.len() && rd[k] == x;
        assert(r[k0] == x);
        assert forall|y: Seq<char>| s.contains(y) implies #[trigger] insert_sorted(s, x).contains(y) by {
            let k = choose|k: int| 0 <= k < s.len() && s[k] == y;
            if k == s.len() - 1 {
                assert(r[rd.len() as int] == y);
            } else {
                assert(d[k] == y);
                assert(d.contains(y));
                assert(rd.contains(y));
                let j = choose|j: int| 0 <= j < rd.len() && rd[j] == y;
                assert(r[j] == y);
            }
        }
    }
}

pub(crate) proof fn lemma_sorted_names_complete(ns: Seq<Seq<char>>, y: Seq<char>)
    ensures
        sorted_names(ns).contains(y) <==> ns.contains(y),
    decreases ns.len(),
{
    lemma_sorted_names_members(ns);
    if ns.len() > 0 {
        let d = ns.drop_last();
        lemma_sorted_names_complete(d, y);
        lemma_insert_sorted_keeps(sorted_names(d), ns.last());
        if ns.contains(y) && y != ns.last() {
            let k = choose|k: int| 0 <= k < ns.len() && ns[k] == y;
            assert(d[k] == y);
        }
    }
}

proof fn lemma_last_agent_named(a: Seq<Agent>, n: Seq<char>)
    ensures
        last_agent(a, n) is Some <==> agent_names_of(a).contains(n),
    decreases a.len(),
{
    if agent_names_of(a).contains(n) {
        lemma_last_agent_some(a, n);
    }
    if a.len() > 0 {
        lemma_last_agent_named(a.drop_last(), n);
        if a.last().name@ == n {
            assert(agent_names_of(a)[a.len() - 1] == n);
        } else if last_agent(a, n) is Some {
            let k = choose|k: int| 0 <= k < agent_names_of(a.drop_last()).len() && agent_names_of(a.drop_last())[k] == n;
            assert(agent_names_of(a)[k] == n);
        }
    }
}

proof fn lemma_last_stream_named(a: Seq<Stream>, n: Seq<char>)
    ensures
        last_stream(a, n) is Some <==> stream_names_of(a).contains(n),
    decreases a.len(),
{
    if stream_names_of(a).contains(n) {
        lemma_last_stream_some(a, n);
    }
    if a.len() > 0 {
        lemma_last_stream_named(a.drop_last(), n);
        if a.last().name@ == n {
            assert(stream_names_of(a)[a.len() - 1] == n);
        } else if last_stream(a, n) is Some {
            let k = choose|k: int| 0 <= k < stream_names_of(a.drop_last()).len() && stream_names_of(a.drop_last())[k] == n;
            assert(stream_names_of(a)[k] == n);
        }
    }
}

/// Whether a change adds, removes or modifies an agent or a stream.
pub open spec fn well_shaped(x: ChangeView) -> bool {
    &&& (x.op == "+"@ || x.op == "-"@ || x.op == "~"@)
    &&& ((x.component.len() >= 6 && x.component.take(6) == "agent "@) || (x.component.len() >= 7 && x.component.take(7)
        == "stream "@))
}

proof fn lemma_shaped_part(d: Seq<ChangeView>, op: Seq<char>, prefix: Seq<char>)
    requires
        all_ops(d, op, prefix),
        op == "+"@ || op == "-"@ || op == "~"@,
        prefix == "agent "@ || prefix == "stream "@,
    ensures
        forall|i: int| 0 <= i < d.len() ==> well_shaped(#[trigger] d[i]),
{
    reveal_strlit("agent ");
    reveal_strlit("stream ");
    assert forall|i: int| 0 <= i < d.len() implies well_shaped(#[trigger] d[i]) by {
        assert(d[i].op == op);
    }
}

proof fn lemma_shaped_concat(a: Seq<ChangeView>, b: Seq<ChangeView>)
    requires
        forall|i: int| 0 <= i < a.len() ==> well_shaped(#[trigger] a[i]),
        forall|i: int| 0 <= i < b.len() ==> well_shaped(#[trigger] b[i]),
    ensures
        forall|i: int| 0 <= i < (a + b).len() ==> well_shaped(#[trigger] (a + b)[i]),
{
    assert forall|i: int| 0 <= i < (a + b).len() implies well_shaped(#[trigger] (a + b)[i]) by {
        if i < a.len() {
            assert((a + b)[i] == a[i]);
        } else {
            assert((a + b)[i] == b[i - a.len()]);
        }
    }
}

/// Whether a change of `agent n` or `stream n` carries the right values: a
/// replicas or image modification goes from the current agent's value to
/// the desired agent's, a retention modification from the current stream's
/// retention to the desired stream's.
pub open spec fn carries_values(x: ChangeView, cur: Topology, des: Topology, n: Seq<char>) -> bool {
    &&& (x.op == "~"@ && x.component == "agent "@ + n && x.field == Some("replicas"@)) ==> (last_agent(cur.agents@, n) matches Some(c)
        && last_agent(des.agents@, n) matches Some(d) && x.from == Some(ValueView::Count(c.replicas)) && x.to == Some(
        ValueView::Count(d.replicas),
    ))
    &&& (x.op == "~"@ && x.component == "agent "@ + n && x.field == Some("image"@)) ==> (last_agent(cur.agents@, n) matches Some(c)
        && last_agent(des.agents@, n) matches Some(d) && x.from == Some(ValueView::Text(c.image@)) && x.to == Some(
        ValueView::Text(d.image@),
    ))
    &&& (x.op == "~"@ && x.component == "stream "@ + n && x.field == Some("retention"@)) ==> (last_stream(cur.streams@, n) matches Some(c)
        && last_stream(des.streams@, n) matches Some(d) && x.from == Some(ValueView::OptText(opt_str_view(c.retention)))
        && x.to == Some(ValueView::OptText(opt_str_view(d.retention))))
}

proof fn lemma_all_concat(a: Seq<ChangeView>, b: Seq<ChangeView>, p: spec_fn(ChangeView) -> bool)
    requires
        forall|i: int| 0 <= i < a.len() ==> p(#[trigger] a[i]),
        forall|i: int| 0 <= i < b.len() ==> p(#[trigger] b[i]),
    ensures
        forall|i: int| 0 <= i < (a + b).len() ==> p(#[trigger] (a + b)[i]),
{
    assert forall|i: int| 0 <= i < (a + b).len() implies p(#[trigger] (a + b)[i]) by {
        if i < a.len() {
            assert((a + b)[i] == a[i]);
        } else {
            assert((a + b)[i] == b[i - a.len()]);
        }
    }
}

proof fn lemma_other_ops_carry(d: Seq<ChangeView>, op: Seq<char>, prefix: Seq<char>, cur: Topology, des: Topology, n: Seq<char>)
    requires
        all_ops(d, op, prefix),
        op == "+"@ || op == "-"@,
    ensures
        forall|i: int| 0 <= i < d.len() ==> carries_values(#[trigger] d[i], cur, des, n),
{
    reveal_strlit("+");
    reveal_strlit("-");
    reveal_strlit("~");
    assert forall|i: int| 0 <= i < d.len() implies carries_values(#[trigger] d[i], cur, des, n) by {
        assert(d[i].op == op);
        assert(op[0] != '~');
    }
}

proof fn lemma_agent_mod_values(names: Seq<Seq<char>>, cur: Topology, des: Topology, n: Seq<char>)
    ensures
        forall|i: int| 0 <= i < agent_modifications(names, cur.agents@, des.agents@).len() ==> carries_values(
            #[trigger] agent_modifications(names, cur.agents@, des.agents@)[i],
            cur,
            des,
            n,
        ),
    decreases names.len(),
{
    reveal_strlit("replicas");
    reveal_strlit("image");
    reveal_strlit("retention");
    reveal_strlit("agent ");
    reveal_strlit("stream ");
    let ca = cur.agents@;
    let da = des.agents@;
    let r = agent_modifications(names, ca, da);
    if names.len() > 0 {
        let dn = names.drop_last();
        let r0 = agent_modifications(dn, ca, da);
        lemma_agent_mod_values(dn, cur, des, n);
        let m = names.last();
        lemma_prefix("agent "@, m, n);
        assert(("agent "@ + m)[0] == 'a');
        assert(("stream "@ + n)[0] == 's');
        assert("replicas"@ != "image"@) by {
            assert("replicas"@.len() != "image"@.len());
        }
        assert("replicas"@ != "retention"@) by {
            assert("replicas"@.len() != "retention"@.len());
        }
        assert("image"@ != "retention"@) by {
            assert("image"@.len() != "retention"@.len());
        }
        assert forall|i: int| 0 <= i < r.len() implies carries_values(#[trigger] r[i], cur, des, n) by {
            if i < r0.len() {
                match (last_agent(ca, m), last_agent(da, m)) {
                    (Some(c), Some(d)) => {
                        let x1 = field_change("agent "@ + m, "replicas"@, ValueView::Count(c.replicas), ValueView::Count(d.replicas));
                        let r1 = if c.replicas != d.replicas { r0.push(x1) } else { r0 };
                        assert(r1[i] == r0[i]);
                        assert(r[i] == r1[i]);
                    },
                    _ => {},
                }
                assert(r[i] == r0[i]);
            } else {
                assert(r[i].component == "agent "@ + m);
                if r[i].component == "agent "@ + n {
                    assert(m == n);
                }
                assert(r[i].component != "stream "@ + n) by {
                    assert(r[i].component[0] != ("stream "@ + n)[0]);
                }
            }
        }
    }
}

proof fn lemma_stream_mod_values(names: Seq<Seq<char>>, cur: Topology, des: Topology, n: Seq<char>)
    ensures
        forall|i: int| 0 <= i < stream_modifications(names, cur.streams@, des.streams@).len() ==> carries_values(
            #[trigger] stream_modifications(names, cur.streams@, des.streams@)[i],
            cur,
            des,
            n,
        ),
    decreases names.len(),
{
    reveal_strlit("agent ");
    reveal_strlit("stream ");
    let cs = cur.streams@;
    let ds = des.streams@;
    let r = stream_modifications(names, cs, ds);
    if names.len() > 0 {
        let dn = names.drop_last();
        let r0 = stream_modifications(dn, cs, ds);
        lemma_stream_mod_values(dn, cur, des, n);
        let m = names.last();
        lemma_prefix("stream "@, m, n);
        assert(("stream "@ + m)[0] == 's');
        assert(("agent "@ + n)[0] == 'a');
        assert forall|i: int| 0 <= i < r.len() implies carries_values(#[trigger] r[i], cur, des, n) by {
            if i < r0.len() {
                assert(r[i] == r0[i]);
            } else {
                assert(r[i].component == "stream "@ + m);
                if r[i].component == "stream "@ + n {
                    assert(m == n);
                }
                assert(r[i].component != "agent "@ + n) by {
                    assert(r[i].component[0] != ("agent "@ + n)[0]);
                }
            }
        }
    }
}

/// Every modification in a diff goes from the current value to the desired
/// one: for an agent present in both topologies, a replicas change goes from
/// the current agent's replicas to the desired agent's, and an image change
/// from the current image to the desired image; for a stream present in
/// both, a retention change goes from the current retention to the desired
/// one.
pub proof fn law_diff_values(cur: Topology, des: Topology, n: Seq<char>)
    ensures
        forall|i: int| 0 <= i < topology_diff(cur, des).len() ==> carries_values(#[trigger] topology_diff(cur, des)[i], cur, des, n),
{
    let ca = cur.agents@;
    let cs = cur.streams@;
    let da = des.agents@;
    let ds = des.streams@;
    let can = sorted_names(agent_names_of(ca));
    let dan = sorted_names(agent_names_of(da));
    let csn = sorted_names(stream_names_of(cs));
    let dsn = sorted_names(stream_names_of(ds));
    let a1 = agent_additions(dan, ca, da);
    let a2 = agent_removals(can, da);
    let a3 = agent_modifications(dan, ca, da);
    let s1 = stream_additions(dsn, cs);
    let s2 = stream_removals(csn, ds);
    let s3 = stream_modifications(dsn, cs, ds);
    let e = Seq::<char>::empty();
    lemma_agent_additions(dan, ca, da, n, e);
    lemma_agent_removals(can, da, n, e);
    lemma_stream_additions(dsn, cs, n, e);
    lemma_stream_removals(csn, ds, n, e);
    lemma_other_ops_carry(a1, "+"@, "agent "@, cur, des, n);
    lemma_other_ops_carry(a2, "-"@, "agent "@, cur, des, n);
    lemma_other_ops_carry(s1, "+"@, "stream "@, cur, des, n);
    lemma_other_ops_carry(s2, "-"@, "stream "@, cur, des, n);
    lemma_agent_mod_values(dan, cur, des, n);
    lemma_stream_mod_values(dsn, cur, des, n);
    let p = |x: ChangeView| carries_values(x, cur, des, n);
    lemma_all_concat(a1, a2, p);
    lemma_all_concat(a1 + a2, a3, p);
    lemma_all_concat(a1 + a2 + a3, s1, p);
    lemma_all_concat(a1 + a2 + a3 + s1, s2, p);
    lemma_all_concat(a1 + a2 + a3 + s1 + s2, s3, p);
}

/// What a diff holds: an agent is added exactly when the desired topology
/// has it and the current one does not, removed in the opposite case, and
/// its replicas or image modified exactly when both have it and they
/// differ; a stream likewise is added, removed, or has its retention
/// modified; and every change adds, removes or modifies an agent or a
/// stream.
pub proof fn law_diff_changes(cur: Topology, des: Topology, n: Seq<char>)
    ensures
        has_change(topology_diff(cur, des), "+"@, "agent "@ + n) <==> (last_agent(des.agents@, n) is Some && last_agent(
            cur.agents@,
            n,
        ) is None),
        has_change(topology_diff(cur, des), "-"@, "agent "@ + n) <==> (last_agent(cur.agents@, n) is Some && last_agent(
            des.agents@,
            n,
        ) is None),
        has_field_change(topology_diff(cur, des), "agent "@ + n, "replicas"@) <==> agent_field_differs(
            cur.agents@,
            des.agents@,
            n,
            false,
        ),
        has_field_change(topology_diff(cur, des), "agent "@ + n, "image"@) <==> agent_field_differs(
            cur.agents@,
            des.agents@,
            n,
            true,
        ),
        has_change(topology_diff(cur, des), "+"@, "stream "@ + n) <==> (last_stream(des.streams@, n) is Some
            && last_stream(cur.streams@, n) is None),
        has_change(topology_diff(cur, des), "-"@, "stream "@ + n) <==> (last_stream(cur.streams@, n) is Some
            && last_stream(des.streams@, n) is None),
        has_field_change(topology_diff(cur, des), "stream "@ + n, "retention"@) <==> retention_differs(
            cur.streams@,
            des.streams@,
            n,
        ),
        forall|i: int| 0 <= i < topology_diff(cur, des).len() ==> well_shaped(#[trigger] topology_diff(cur, des)[i]),
{
    reveal_strlit("agent ");
    reveal_strlit("stream ");
    reveal_strlit("+");
    reveal_strlit("-");
    reveal_strlit("~");
    let ca = cur.agents@;
    let cs = cur.streams@;
    let da = des.agents@;
    let ds = des.streams@;
    let can = sorted_names(agent_names_of(ca));
    let dan = sorted_names(agent_names_of(da));
    let csn = sorted_names(stream_names_of(cs));
    let dsn = sorted_names(stream_names_of(ds));
    let a1 = agent_additions(dan, ca, da);
    let a2 = agent_removals(can, da);
    let a3 = agent_modifications(dan, ca, da);
    let s1 = stream_additions(dsn, cs);
    let s2 = stream_removals(csn, ds);
    let s3 = stream_modifications(dsn, cs, ds);
    let an = "agent "@ + n;
    let sn = "stream "@ + n;
    let e = Seq::<char>::empty();
    lemma_agent_additions(dan, ca, da, n, e);
    lemma_agent_removals(can, da, n, e);
    lemma_agent_modifications(dan, ca, da, n);
    lemma_stream_additions(dsn, cs, n, e);
    lemma_stream_removals(csn, ds, n, e);
    lemma_stream_modifications(dsn, cs, ds, n);
    lemma_sorted_names_complete(agent_names_of(ca), n);
    lemma_sorted_names_complete(agent_names_of(da), n);
    lemma_sorted_names_complete(stream_names_of(cs), n);
    lemma_sorted_names_complete(stream_names_of(ds), n);
    lemma_last_agent_named(ca, n);
    lemma_last_agent_named(da, n);
    lemma_last_stream_named(cs, n);
    lemma_last_stream_named(ds, n);
    lemma_prefix("agent "@, n, n);
    lemma_prefix("stream "@, n, n);
    assert(an[0] == 'a');
    assert(sn[0] == 's');
    assert(an.len() < 7 || an.take(7) != "stream "@) by {
        if an.len() >= 7 {
            assert(an.take(7)[0] == 'a');
        }
    }
    assert(sn.take(6) != "agent "@) by {
        assert(sn.take(6)[0] == 's');
    }
    assert("+"@[0] == '+' && "-"@[0] == '-' && "~"@[0] == '~');
    assert("+"@ != "-"@ && "+"@ != "~"@ && "-"@ != "~"@);
    // the parts that cannot hold a given change
    lemma_no_change(a2, "-"@, "agent "@, "+"@, an, "replicas"@);
    lemma_no_change(a3, "~"@, "agent "@, "+"@, an, "replicas"@);
    lemma_no_change(s1, "+"@, "stream "@, "+"@, an, "replicas"@);
    lemma_no_change(s2, "-"@, "stream "@, "+"@, an, "replicas"@);
    lemma_no_change(s3, "~"@, "stream "@, "+"@, an, "replicas"@);
    lemma_no_change(a1, "+"@, "agent "@, "-"@, an, "replicas"@);
    lemma_no_change(a3, "~"@, "agent "@, "-"@, an, "image"@);
    lemma_no_change(s1, "+"@, "stream "@, "-"@, an, "image"@);
    lemma_no_change(s2, "-"@, "stream "@, "-"@, an, "image"@);
    lemma_no_change(s3, "~"@, "stream "@, "-"@, an, "image"@);
    lemma_no_change(a1, "+"@, "agent "@, "+"@, sn, "retention"@);
    lemma_no_change(a2, "-"@, "agent "@, "+"@, sn, "retention"@);
    lemma_no_change(a3, "~"@, "agent "@, "+"@, sn, "retention"@);
    lemma_no_change(s2, "-"@, "stream "@, "+"@, sn, "retention"@);
    lemma_no_change(s3, "~"@, "stream "@, "+"@, sn, "retention"@);
    lemma_no_change(a1, "+"@, "agent "@, "-"@, sn, "retention"@);
    lemma_no_change(a2, "-"@, "agent "@, "-"@, sn, "retention"@);
    lemma_no_change(a3, "~"@, "agent "@, "-"@, sn, "retention"@);
    lemma_no_change(s1, "+"@, "stream "@, "-"@, sn, "retention"@);
    lemma_no_change(s3, "~"@, "stream "@, "-"@, sn, "retention"@);
    lemma_no_change(s1, "+"@, "stream "@, "~"@, an, "replicas"@);
    lemma_no_change(s2, "-"@, "stream "@, "~"@, an, "replicas"@);
    lemma_no_change(s3, "~"@, "stream "@, "~"@, an, "replicas"@);
    lemma_no_change(s1, "+"@, "stream "@, "~"@, an, "image"@);
    lemma_no_change(s2, "-"@, "stream "@, "~"@, an, "image"@);
    lemma_no_change(s3, "~"@, "stream "@, "~"@, an, "image"@);
    lemma_no_change(a1, "+"@, "agent "@, "~"@, an, "replicas"@);
    lemma_no_change(a2, "-"@, "agent "@, "~"@, an, "replicas"@);
    lemma_no_change(a1, "+"@, "agent "@, "~"@, an, "image"@);
    lemma_no_change(a2, "-"@, "agent "@, "~"@, an, "image"@);
    lemma_no_change(a1, "+"@, "agent "@, "~"@, sn, "retention"@);
    lemma_no_change(a2, "-"@, "agent "@, "~"@, sn, "retention"@);
    lemma_no_change(a3, "~"@, "agent "@, "~"@, sn, "retention"@);
    lemma_no_change(s1, "+"@, "stream "@, "~"@, sn, "retention"@);
    lemma_no_change(s2, "-"@, "stream "@, "~"@, sn, "retention"@);
    // the diff is the six parts in order
    let p1 = a1 + a2;
    let p2 = p1 + a3;
    let p3 = p2 + s1;
    let p4 = p3 + s2;
    let p5 = p4 + s3;
    assert(topology_diff(cur, des) == p5);
    lemma_has_concat(a1, a2, "+"@, an, "replicas"@);
    lemma_has_concat(p1, a3, "+"@, an, "replicas"@);
    lemma_has_concat(p2, s1, "+"@, an, "replicas"@);
    lemma_has_concat(p3, s2, "+"@, an, "replicas"@);
    lemma_has_concat(p4, s3, "+"@, an, "replicas"@);
    lemma_has_concat(a1, a2, "-"@, an, "image"@);
    lemma_has_concat(p1, a3, "-"@, an, "image"@);
    lemma_has_concat(p2, s1, "-"@, an, "image"@);
    lemma_has_concat(p3, s2, "-"@, an, "image"@);
    lemma_has_concat(p4, s3, "-"@, an, "image"@);
    lemma_has_concat(a1, a2, "+"@, sn, "retention"@);
    lemma_has_concat(p1, a3, "+"@, sn, "retention"@);
    lemma_has_concat(p2, s1, "+"@, sn, "retention"@);
    lemma_has_concat(p3, s2, "+"@, sn, "retention"@);
    lemma_has_concat(p4, s3, "+"@, sn, "retention"@);
    lemma_has_concat(a1, a2, "-"@, sn, "retention"@);
    lemma_has_concat(p1, a3, "-"@, sn, "retention"@);
    lemma_has_concat(p2, s1, "-"@, sn, "retention"@);
    lemma_has_concat(p3, s2, "-"@, sn, "retention"@);
    lemma_has_concat(p4, s3, "-"@, sn, "retention"@);
    lemma_has_concat(a1, a2, "~"@, an, "replicas"@);
    lemma_has_concat(p1, a3, "~"@, an, "replicas"@);
    lemma_has_concat(p2, s1, "~"@, an, "replicas"@);
    lemma_has_concat(p3, s2, "~"@, an, "replicas"@);
    lemma_has_concat(p4, s3, "~"@, an, "replicas"@);
    lemma_has_concat(a1, a2, "~"@, an, "image"@);
    lemma_has_concat(p1, a3, "~"@, an, "image"@);
    lemma_has_concat(p2, s1, "~"@, an, "image"@);
    lemma_has_concat(p3, s2, "~"@, an, "image"@);
    lemma_has_concat(p4, s3, "~"@, an, "image"@);
    lemma_has_concat(a1, a2, "~"@, sn, "retention"@);
    lemma_has_concat(p1, a3, "~"@, sn, "retention"@);
    lemma_has_concat(p2, s1, "~"@, sn, "retention"@);
    lemma_has_concat(p3, s2, "~"@, sn, "retention"@);
    lemma_has_concat(p4, s3, "~"@, sn, "retention"@);
    // every change is well shaped
    lemma_shaped_part(a1, "+"@, "agent "@);
    lemma_shaped_part(a2, "-"@, "agent "@);
    lemma_shaped_part(a3, "~"@, "agent "@);
    lemma_shaped_part(s1, "+"@, "stream "@);
    lemma_shaped_part(s2, "-"@, "stream "@);
    lemma_shaped_part(s3, "~"@, "stream "@);
    lemma_shaped_concat(a1, a2);
    lemma_shaped_concat(p1, a3);
    lemma_shaped_concat(p2, s1);
    lemma_shaped_concat(p3, s2);
    lemma_shaped_concat(p4, s3);
}

/// Planning again once the desired state is applied changes nothing: when
/// the applied topology has the desired agents and streams, a plan that
/// succeeds has no change.
pub proof fn law_plan_of_applied_state_is_empty(linted: LintedFile, current: Topology, force_destroy_all: bool, r: Result<
    PlanOutput,
    DeployError,
>)
    requires
        current.agents@ == linted.topology.agents@,
        current.streams@ == linted.topology.streams@,
        plan_result(linted, Some(current), force_destroy_all, r),
        r is Ok,
    ensures
        r->Ok_0.changes@.len() == 0,
        !r->Ok_0.has_changes,
{
    let t = linted.topology;
    law_diff_of_same_is_empty(canonical_sort(t.agents@), canonical_sort(t.streams@));
    let p = r->Ok_0;
    assert(changes_view(p.changes@).len() == p.changes@.len());
}

/// The order in which agents and streams are declared does not change a
/// plan: two files declaring the same agents and streams (no name
/// repeated), in any order, plan the same changes with the same hash.
pub proof fn law_plan_ignores_declaration_order(
    l1: LintedFile,
    l2: LintedFile,
    current: Option<Topology>,
    force_destroy_all: bool,
    r1: Result<PlanOutput, DeployError>,
    r2: Result<PlanOutput, DeployError>,
)
    requires
        names_distinct(l1.topology.agents@),
        names_distinct(l2.topology.agents@),
        names_distinct(l1.topology.streams@),
        names_distinct(l2.topology.streams@),
        forall|a: Agent| #[trigger] l1.topology.agents@.contains(a) <==> l2.topology.agents@.contains(a),
        forall|s: Stream| #[trigger] l1.topology.streams@.contains(s) <==> l2.topology.streams@.contains(s),
        plan_result(l1, current, force_destroy_all, r1),
        plan_result(l2, current, force_destroy_all, r2),
        r1 is Ok,
        r2 is Ok,
    ensures
        changes_view(r1->Ok_0.changes@) == changes_view(r2->Ok_0.changes@),
        r1->Ok_0.plan_hash@ == r2->Ok_0.plan_hash@,
{
    law_canonical_order_ignores_declaration_order(l1.topology.agents@, l2.topology.agents@);
    law_canonical_order_ignores_declaration_order(l1.topology.streams@, l2.topology.streams@);
    let c1 = r1->Ok_0.changes@;
    let c2 = r2->Ok_0.changes@;
    assert(canonical_json(c1) == canonical_json(c2));
}

/// The output of a deploy plan: the diff between the applied and the
/// desired topology, with its hash, to be committed next.
#[derive(Debug)]
pub struct PlanOutput {
    pub has_changes: bool,
    pub changes: Vec<Change>,
    pub plan_hash: String,
    pub topology_name: String,
    pub policy_snapshot_hash: String,
    pub warnings: Vec<String>,
    pub desired_topology: Topology,
    pub source_path: String,
}

impl PlanOutput {
    /// Whether the plan changes anything.
    pub fn has_changes(&self) -> (r: bool)
        ensures
            r == self.has_changes,
    {
        self.has_changes
    }

    /// The changes, in the order the diff found them.
    pub fn changes(&self) -> (r: &[Change])
        ensures
            r@ == self.changes@,
    {
        self.changes.as_slice()
    }

    /// The canonical plan hash.
    pub fn plan_hash(&self) -> (r: &str)
        ensures
            r@ == self.plan_hash@,
    {
        self.plan_hash.as_str()
    }

    /// The name of the desired topology.
    pub fn topology_name(&self) -> (r: &str)
        ensures
            r@ == self.topology_name@,
    {
        self.topology_name.as_str()
    }

    /// The hash of the policy the plan was checked against (empty: no policy system).
    pub fn policy_snapshot_hash(&self) -> (r: &str)
        ensures
            r@ == self.policy_snapshot_hash@,
    {
        self.policy_snapshot_hash.as_str()
    }

    /// The warnings the plan raised.
    pub fn warnings(&self) -> (r: &[String])
        ensures
            r@ == self.warnings@,
    {
        self.warnings.as_slice()
    }

    /// The desired topology, in canonical order.
    pub fn desired_topology(&self) -> (r: &Topology)
        ensures
            *r == self.desired_topology,
    {
        &self.desired_topology
    }

    /// The `.wh` file or folder the plan came from.
    pub fn source_path(&self) -> (r: &str)
        ensures
            r@ == self.source_path@,
    {
        self.source_path.as_str()
    }
}

/// Position of the first agent whose replicas exceed `max`.
pub open spec fn first_over(agents: Seq<Agent>, max: u32) -> Option<int>
    decreases agents.len(),
{
    if agents.len() == 0 {
        None
    } else {
        match first_over(agents.drop_last(), max) {
            Some(i) => Some(i),
            None => if agents.last().replicas > max {
                Some(agents.len() - 1)
            } else {
                None
            },
        }
    }
}

/// The error for an agent that asks for more replicas than the guardrail allows.
pub open spec fn replicas_message(name: Seq<char>, replicas: u32, max: u32) -> Seq<char> {
    "agent '"@ + name + "' requests "@ + dec(replicas as nat) + " replicas, exceeds max_replicas "@ + dec(max as nat)
}

/// The guardrail violation of the desired agents, if any: the first agent
/// whose replicas exceed `max_replicas`.
pub open spec fn guardrail_error(agents: Seq<Agent>, guardrails: Option<Guardrails>) -> Option<Seq<char>> {
    match guardrails {
        Some(g) => match g.max_replicas {
            Some(max) => match first_over(agents, max) {
                Some(i) => Some(replicas_message(agents[i].name@, agents[i].replicas, max)),
                None => None,
            },
            None => None,
        },
        None => None,
    }
}

/// The error for a plan that would destroy every agent.
pub open spec fn self_destruct_message() -> Seq<char> {
    "plan would destroy all agents (self-destruct detected). Use --force-destroy-all to proceed."@
}

/// The warning for a self-destruct plan that was forced.
pub open spec fn self_destruct_warning() -> Seq<char> {
    "all agents will be destroyed \u{2014} self-destruct plan approved with --force-destroy-all"@
}

/// The applied agents, in canonical order (none before the first deploy).
pub open spec fn applied_agents(current: Option<Topology>) -> Seq<Agent> {
    match current {
        Some(t) => canonical_sort(t.agents@),
        None => Seq::empty(),
    }
}

/// The applied streams, in canonical order (none before the first deploy).
pub open spec fn applied_streams(current: Option<Topology>) -> Seq<Stream> {
    match current {
        Some(t) => canonical_sort(t.streams@),
        None => Seq::empty(),
    }
}

/// Whether the plan would remove every agent of a topology that has some.
pub open spec fn is_self_destruct(current: Option<Topology>, desired: Topology) -> bool {
    &&& current matches Some(t) && t.agents@.len() > 0
    &&& desired.agents@.len() == 0
}

fn guardrail_check(agents: &Vec<Agent>, guardrails: &Option<Guardrails>) -> (r: Option<String>)
    ensures
        opt_str_view(r) == guardrail_error(agents@, *guardrails),
{
    let max = match guardrails {
        Some(g) => match g.max_replicas {
            Some(m) => m,
            None => return None,
        },
        None => return None,
    };
    let n = agents.len();
    for i in 0..n
        invariant
            n == agents@.len(),
            guardrails matches Some(g) && g.max_replicas == Some(max),
            first_over(agents@.take(i as int), max) is None,
    {
        assert(agents@.take(i + 1).drop_last() =~= agents@.take(i as int));
        let a = &agents[i];
        if a.replicas > max {
            assert(first_over(agents@.take(i + 1), max) == Some(i as int));
            proof { lemma_first_over_prefix(agents@, max, i + 1); }
            let mut m = String::new();
            push_str(&mut m, "agent '");
            push_str(&mut m, a.name.as_str());
            push_str(&mut m, "' requests ");
            push_u64(&mut m, a.replicas as u64);
            push_str(&mut m, " replicas, exceeds max_replicas ");
            push_u64(&mut m, max as u64);
            return Some(m);
        }
    }
    assert(agents@.take(n as int) =~= agents@);
    None
}

proof fn lemma_first_over_prefix(s: Seq<Agent>, max: u32, k: int)
    requires
        0 <= k <= s.len(),
        first_over(s.take(k), max) is Some,
    ensures
        first_over(s, max) == first_over(s.take(k), max),
    decreases s.len() - k,
{
    if k < s.len() {
        assert(s.take(k + 1).drop_last() =~= s.take(k));
        lemma_first_over_prefix(s, max, k + 1);
    } else {
        assert(s.take(k) =~= s);
    }
}

/// An empty topology under `name`: what is applied before the first deploy.
fn empty_topology(name: String) -> (t: Topology)
    ensures
        t.agents@.len() == 0,
        t.streams@.len() == 0,
        t.name@ == name@,
{
    Topology {
        api_version: String::from_str(API_VERSION),
        name,
        broker: None,
        skills_repo: None,
        agents: Vec::new(),
        streams: Vec::new(),
        surfaces: Vec::new(),
        guardrails: None,
        subsystems: Vec::new(),
    }
}

/// Plan a deploy, refusing one that would destroy every agent.
pub fn plan(linted: LintedFile, current: Option<Topology>) -> (r: Result<PlanOutput, DeployError>)
    ensures
        plan_result(linted, current, false, r),
{
    plan_with_options(linted, current, false)
}

/// What a plan answers: the guardrail violation of the first desired agent
/// (in canonical order) over `max_replicas`; else, for a plan that would
/// destroy every agent without `force_destroy_all`, the self-destruct
/// error; else the plan, whose changes are the diff between the applied
/// and the desired topology, both in canonical order.
pub open spec fn plan_result(linted: LintedFile, current: Option<Topology>, force_destroy_all: bool, r: Result<
    PlanOutput,
    DeployError,
>) -> bool {
    let t = linted.topology;
    let da = canonical_sort(t.agents@);
    let ds = canonical_sort(t.streams@);
    let destroys_all = is_self_destruct(current, t);
    match guardrail_error(da, t.guardrails) {
        Some(m) => r matches Err(DeployError::PolicyViolation(e)) && e@ == m,
        None => if destroys_all && !force_destroy_all {
            r matches Err(DeployError::PolicyViolation(e)) && e@ == self_destruct_message()
        } else {
            r matches Ok(p) && {
                &&& p.desired_topology.agents@ == da
                &&& p.desired_topology.streams@ == ds
                &&& p.desired_topology.surfaces@ == canonical_sort(t.surfaces@)
                &&& p.desired_topology == (Topology {
                    agents: p.desired_topology.agents,
                    streams: p.desired_topology.streams,
                    surfaces: p.desired_topology.surfaces,
                    ..t
                })
                &&& changes_view(p.changes@) == diff_parts(applied_agents(current), applied_streams(current), da, ds)
                &&& p.has_changes == (p.changes@.len() > 0)
                &&& p.plan_hash@ == hash_text(sha256_utf8(canonical_json(p.changes@)))
                &&& p.topology_name@ == t.name@
                &&& p.policy_snapshot_hash@.len() == 0
                &&& string_views(p.warnings@) == (if destroys_all {
                    seq![self_destruct_warning()]
                } else {
                    Seq::empty()
                })
                &&& p.source_path == linted.source_path
            }
        },
    }
}

proof fn lemma_first_over_exists(agents: Seq<Agent>, max: u32)
    ensures
        first_over(agents, max) is Some <==> exists|i: int| 0 <= i < agents.len() && #[trigger] agents[i].replicas > max,
    decreases agents.len(),
{
    if agents.len() > 0 {
        let d = agents.drop_last();
        lemma_first_over_exists(d, max);
        if exists|i: int| 0 <= i < d.len() && #[trigger] d[i].replicas > max {
            let i = choose|i: int| 0 <= i < d.len() && #[trigger] d[i].replicas > max;
            assert(agents[i] == d[i]);
        }
        if exists|i: int| 0 <= i < agents.len() && #[trigger] agents[i].replicas > max {
            let i = choose|i: int| 0 <= i < agents.len() && #[trigger] agents[i].replicas > max;
            if i < d.len() {
                assert(d[i] == agents[i]);
            }
        }
        assert(agents[agents.len() - 1] == agents.last());
    }
}

/// Some agent of a list is over `max` exactly when some agent of its
/// canonical order is.
proof fn lemma_over_in_sorted(agents: Seq<Agent>, max: u32)
    ensures
        (exists|i: int| 0 <= i < agents.len() && #[trigger] agents[i].replicas > max) <==> (exists|i: int|
            0 <= i < canonical_sort(agents).len() && #[trigger] canonical_sort(agents)[i].replicas > max),
{
    broadcast use vstd::seq_lib::group_to_multiset_ensures;

    let c = canonical_sort(agents);
    crate::deploy::lemma_canonical_sort(agents);
    if exists|i: int| 0 <= i < agents.len() && #[trigger] agents[i].replicas > max {
        let i = choose|i: int| 0 <= i < agents.len() && #[trigger] agents[i].replicas > max;
        assert(agents.contains(agents[i]));
        assert(agents.to_multiset().contains(agents[i]));
        assert(c.contains(agents[i]));
        let j = choose|j: int| 0 <= j < c.len() && c[j] == agents[i];
        assert(c[j].replicas > max);
    }
    if exists|i: int| 0 <= i < c.len() && #[trigger] c[i].replicas > max {
        let i = choose|i: int| 0 <= i < c.len() && #[trigger] c[i].replicas > max;
        assert(c.contains(c[i]));
        assert(c.to_multiset().contains(c[i]));
        assert(agents.contains(c[i]));
        let j = choose|j: int| 0 <= j < agents.len() && agents[j] == c[i];
        assert(agents[j].replicas > max);
    }
}

/// A plan is refused, always as a policy violation, exactly when a desired
/// agent has more replicas than the guardrails allow, or when it would
/// destroy every deployed agent and that is not forced; an accepted plan
/// has changes exactly when its change list is not empty, and warns
/// exactly when it destroys every agent by force.
pub proof fn law_plan_refusals(linted: LintedFile, current: Option<Topology>, force_destroy_all: bool, r: Result<
    PlanOutput,
    DeployError,
>)
    requires
        plan_result(linted, current, force_destroy_all, r),
    ensures
        r is Err <==> ((linted.topology.guardrails matches Some(g) && g.max_replicas matches Some(m) && exists|i: int|
            0 <= i < linted.topology.agents@.len() && #[trigger] linted.topology.agents@[i].replicas > m) || (
        is_self_destruct(current, linted.topology) && !force_destroy_all)),
        r is Err ==> r->Err_0 is PolicyViolation,
        r matches Ok(p) ==> p.has_changes == (p.changes@.len() > 0) && (p.warnings@.len() > 0 <==> is_self_destruct(
            current,
            linted.topology,
        )),
{
    let t = linted.topology;
    if let Some(g) = t.guardrails {
        if let Some(m) = g.max_replicas {
            lemma_first_over_exists(canonical_sort(t.agents@), m);
            lemma_over_in_sorted(t.agents@, m);
        }
    }
    if r is Ok {
        let p = r->Ok_0;
        if is_self_destruct(current, t) {
            assert(string_views(p.warnings@).len() == 1);
        } else {
            assert(string_views(p.warnings@).len() == 0);
        }
    }
}

/// Plan a deploy: diff the applied topology (`None` before the first
/// deploy) against the desired one, check the guardrails, and refuse a
/// plan that would destroy every agent unless `force_destroy_all`.
pub fn plan_with_options(linted: LintedFile, current: Option<Topology>, force_destroy_all: bool) -> (r: Result<
    PlanOutput,
    DeployError,
>)
    ensures
        plan_result(linted, current, force_destroy_all, r),
{
    let ghost t0 = linted.topology;
    let LintedFile { topology, source_path, source_map: _ } = linted;
    let desired_empty = topology.agents.len() == 0;
    let current_has_agents = match &current {
        Some(c) => c.agents.len() > 0,
        None => false,
    };
    let desired = canonicalize_topology(topology);
    let changes = match current {
        Some(cur) => {
            let c = canonicalize_topology(cur);
            diff_topologies(&c, &desired)
        },
        None => {
            let e = empty_topology(desired.name.clone());
            assert(e.agents@ =~= Seq::<Agent>::empty());
            assert(e.streams@ =~= Seq::<Stream>::empty());
            diff_topologies(&e, &desired)
        },
    };
    let has_changes = changes.len() > 0;
    let plan_hash = compute_plan_hash(changes.as_slice());
    let topology_name = desired.name.clone();
    if let Some(m) = guardrail_check(&desired.agents, &desired.guardrails) {
        return Err(DeployError::PolicyViolation(m));
    }
    let destroys_all = current_has_agents && desired_empty;
    if destroys_all && !force_destroy_all {
        return Err(
            DeployError::PolicyViolation(
                String::from_str(
                    "plan would destroy all agents (self-destruct detected). Use --force-destroy-all to proceed.",
                ),
            ),
        );
    }
    let mut warnings: Vec<String> = Vec::new();
    if destroys_all {
        warnings.push(
            String::from_str(
                "all agents will be destroyed \u{2014} self-destruct plan approved with --force-destroy-all",
            ),
        );
    }
    proof {
        assert(string_views(warnings@) =~= (if destroys_all {
            seq![self_destruct_warning()]
        } else {
            Seq::<Seq<char>>::empty()
        }));
    }
    Ok(
        PlanOutput {
            has_changes,
            changes,
            plan_hash,
            topology_name,
            policy_snapshot_hash: String::new(),
            warnings,
            desired_topology: desired,
            source_path,
        },
    )
}

/// What a plan shows its user: whether it changes anything, the changes,
/// the hash and the warnings.
#[derive(Debug)]
pub struct PlanData {
    pub has_changes: bool,
    pub changes: Vec<Change>,
    pub plan_hash: String,
    pub topology_name: String,
    pub policy_snapshot_hash: String,
    pub warnings: Vec<String>,
}

/// How many changes have operation `op`.
pub open spec fn count_op(s: Seq<ChangeView>, op: Seq<char>) -> nat
    decreases s.len(),
{
    if s.len() == 0 {
        0
    } else {
        count_op(s.drop_last(), op) + if s.last().op == op {
            1nat
        } else {
            0nat
        }
    }
}

/// The line that shows one change.
pub open spec fn change_line(c: ChangeView) -> Seq<char> {
    if c.op == "+"@ {
        match c.to {
            Some(ValueView::Provider(p)) => "  + "@ + c.component + " (new, provider: "@ + p + ")\n"@,
            _ => "  + "@ + c.component + " (new)\n"@,
        }
    } else if c.op == "-"@ {
        "  - "@ + c.component + " (destroy)\n"@
    } else if c.op == "~"@ {
        match (c.field, c.from, c.to) {
            (Some(f), Some(a), Some(b)) => "  ~ "@ + c.component + " "@ + f + ": "@ + json_value(a) + " -> "@
                + json_value(b) + "\n"@,
            _ => "  ~ "@ + c.component + "\n"@,
        }
    } else {
        "  "@ + c.op + " "@ + c.component + "\n"@
    }
}

/// The lines of the changes, in order.
pub open spec fn change_lines(s: Seq<ChangeView>) -> Seq<char>
    decreases s.len(),
{
    if s.len() == 0 {
        Seq::empty()
    } else {
        change_lines(s.drop_last()) + change_line(s.last())
    }
}

/// One `Warning:` line for each warning.
pub open spec fn warning_lines(ws: Seq<Seq<char>>) -> Seq<char>
    decreases ws.len(),
{
    if ws.len() == 0 {
        Seq::empty()
    } else {
        warning_lines(ws.drop_last()) + "Warning: "@ + ws.last() + "\n"@
    }
}

/// The text of a plan: a no-change message, or the topology, one line per
/// change, the counts to create, update and destroy, the hash and the
/// warnings.
pub open spec fn plan_text(d: PlanData) -> Seq<char> {
    let cs = changes_view(d.changes@);
    if !d.has_changes {
        "No changes. Infrastructure is up-to-date.\n"@
    } else {
        "Changes detected in topology '"@ + d.topology_name@ + "':\n"@ + "\n"@ + change_lines(cs) + "\n"@ + dec(
            count_op(cs, "+"@),
        ) + " to create \u{00B7} "@ + dec(count_op(cs, "~"@)) + " to update \u{00B7} "@ + dec(count_op(cs, "-"@))
            + " to destroy\n"@ + "\n"@ + "Plan hash: "@ + d.plan_hash@ + "\n"@ + warning_lines(
            string_views(d.warnings@),
        )
    }
}

fn push_change_line(out: &mut String, c: &Change)
    ensures
        final(out)@ == old(out)@ + change_line(change_view(*c)),
{
    let ghost start = out@;
    let op = c.op.as_str();
    let comp = c.component.as_str();
    if str_eq(op, "+") {
        match &c.to {
            Some(ChangeValue::Provider(p)) => {
                push_str(out, "  + ");
                push_str(out, comp);
                push_str(out, " (new, provider: ");
                push_str(out, p.as_str());
                push_str(out, ")\n");
            },
            _ => {
                push_str(out, "  + ");
                push_str(out, comp);
                push_str(out, " (new)\n");
            },
        }
    } else if str_eq(op, "-") {
        push_str(out, "  - ");
        push_str(out, comp);
        push_str(out, " (destroy)\n");
    } else if str_eq(op, "~") {
        match (&c.field, &c.from, &c.to) {
            (Some(f), Some(a), Some(b)) => {
                push_str(out, "  ~ ");
                push_str(out, comp);
                push_str(out, " ");
                push_str(out, f.as_str());
                push_str(out, ": ");
                crate::deploy::plan_hash::push_json_value(out, a);
                push_str(out, " -> ");
                crate::deploy::plan_hash::push_json_value(out, b);
                push_str(out, "\n");
            },
            _ => {
                push_str(out, "  ~ ");
                push_str(out, comp);
                push_str(out, "\n");
            },
        }
    } else {
        push_str(out, "  ");
        push_str(out, op);
        push_str(out, " ");
        push_str(out, comp);
        push_str(out, "\n");
    }
    assert(out@ =~= start + change_line(change_view(*c)));
}

impl PlanData {
    /// The data a plan shows.
    pub fn from_plan(plan: &PlanOutput) -> (d: PlanData)
        ensures
            d.has_changes == plan.has_changes,
            changes_view(d.changes@) == changes_view(plan.changes@),
            d.plan_hash@ == plan.plan_hash@,
            d.topology_name@ == plan.topology_name@,
            d.policy_snapshot_hash@ == plan.policy_snapshot_hash@,
            string_views(d.warnings@) == string_views(plan.warnings@),
    {
        let mut changes: Vec<Change> = Vec::new();
        let n = plan.changes.len();
        for i in 0..n
            invariant
                n == plan.changes@.len(),
                changes_view(changes@) == changes_view(plan.changes@).take(i as int),
        {
            let c = clone_change(&plan.changes[i]);
            let ghost before = changes@;
            changes.push(c);
            assert(changes@ == before.push(c));
            assert(changes_view(changes@) =~= changes_view(before).push(change_view(c)));
            assert(changes_view(plan.changes@).take(i + 1) =~= changes_view(plan.changes@).take(i as int).push(
                change_view(plan.changes@[i as int]),
            ));
        }
        assert(changes_view(plan.changes@).take(n as int) =~= changes_view(plan.changes@));
        let mut warnings: Vec<String> = Vec::new();
        let m = plan.warnings.len();
        for i in 0..m
            invariant
                m == plan.warnings@.len(),
                string_views(warnings@) == string_views(plan.warnings@).take(i as int),
        {
            let w = plan.warnings[i].clone();
            let ghost before = warnings@;
            warnings.push(w);
            assert(warnings@ == before.push(w));
            assert(string_views(warnings@) =~= string_views(before).push(w@));
            assert(string_views(plan.warnings@).take(i + 1) =~= string_views(plan.warnings@).take(i as int).push(
                plan.warnings@[i as int]@,
            ));
        }
        assert(string_views(plan.warnings@).take(m as int) =~= string_views(plan.warnings@));
        PlanData {
            has_changes: plan.has_changes,
            changes,
            plan_hash: plan.plan_hash.clone(),
            topology_name: plan.topology_name.clone(),
            policy_snapshot_hash: plan.policy_snapshot_hash.clone(),
            warnings,
        }
    }

    /// The plan as text for the terminal.
    pub fn render(&self) -> (r: String)
        ensures
            r@ == plan_text(*self),
    {
        let mut out = String::new();
        if !self.has_changes {
            push_str(&mut out, "No changes. Infrastructure is up-to-date.\n");
            return out;
        }
        let ghost cs = changes_view(self.changes@);
        push_str(&mut out, "Changes detected in topology '");
        push_str(&mut out, self.topology_name.as_str());
        push_str(&mut out, "':\n");
        push_str(&mut out, "\n");
        let ghost start = out@;
        let mut creates: u64 = 0;
        let mut updates: u64 = 0;
        let mut destroys: u64 = 0;
        let n = self.changes.len();
        for i in 0..n
            invariant
                n == self.changes@.len(),
                cs == changes_view(self.changes@),
                out@ == start + change_lines(cs.take(i as int)),
                creates == count_op(cs.take(i as int), "+"@),
                updates == count_op(cs.take(i as int), "~"@),
                destroys == count_op(cs.take(i as int), "-"@),
                creates <= i,
                updates <= i,
                destroys <= i,
        {
            let c = &self.changes[i];
            proof {
                reveal_strlit("+");
                reveal_strlit("~");
                reveal_strlit("-");
            }
            assert(cs.take(i + 1).drop_last() =~= cs.take(i as int));
            assert(cs.take(i + 1).last() == change_view(*c));
            push_change_line(&mut out, c);
            assert(count_op(cs.take(i + 1), "~"@) == count_op(cs.take(i as int), "~"@) + if c.op@ == "~"@ {
                1nat
            } else {
                0nat
            });
            assert(count_op(cs.take(i + 1), "-"@) == count_op(cs.take(i as int), "-"@) + if c.op@ == "-"@ {
                1nat
            } else {
                0nat
            });
            assert("+"@[0] == '+' && "~"@[0] == '~' && "-"@[0] == '-');
            assert("+"@ != "~"@ && "+"@ != "-"@ && "~"@ != "-"@);
            let op = c.op.as_str();
            if str_eq(op, "+") {
                creates = creates + 1;
            } else if str_eq(op, "~") {
                updates = updates + 1;
            } else if str_eq(op, "-") {
                destroys = destroys + 1;
            }
        }
        assert(cs.take(n as int) =~= cs);
        push_str(&mut out, "\n");
        push_u64(&mut out, creates);
        push_str(&mut out, " to create \u{00B7} ");
        push_u64(&mut out, updates);
        push_str(&mut out, " to update \u{00B7} ");
        push_u64(&mut out, destroys);
        push_str(&mut out, " to destroy\n");
        push_str(&mut out, "\n");
        push_str(&mut out, "Plan hash: ");
        push_str(&mut out, self.plan_hash.as_str());
        push_str(&mut out, "\n");
        let ghost mid = out@;
        let ghost ws = string_views(self.warnings@);
        let m = self.warnings.len();
        for i in 0..m
            invariant
                m == self.warnings@.len(),
                ws == string_views(self.warnings@),
                out@ == mid + warning_lines(ws.take(i as int)),
        {
            assert(ws.take(i + 1).drop_last() =~= ws.take(i as int));
            push_str(&mut out, "Warning: ");
            push_str(&mut out, self.warnings[i].as_str());
            push_str(&mut out, "\n");
            assert(out@ =~= mid + warning_lines(ws.take(i + 1)));
        }
        assert(ws.take(m as int) =~= ws);
        assert(out@ =~= plan_text(*self));
        out
    }
}

} // verus!
