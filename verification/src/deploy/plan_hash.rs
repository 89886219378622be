//! The plan hash: SHA-256 over the canonical JSON of a plan's changes,
//! sorted by component, operation and field.

use vstd::prelude::*;
use crate::deploy::{Change, ChangeValue};
use crate::deploy::plan::{ChangeView, ValueView, change_view, changes_view, opt_str_view, value_view, opt_value_view,
    clone_opt_str};
use crate::text::{dec, hex_bytes, json_quote, push_hex_bytes, push_json_str, push_str, push_u64, seq_lt, str_eq,
    str_lt, lemma_seq_lt_irrefl, lemma_seq_lt_asym, lemma_seq_lt_trans, lemma_seq_lt_total};
use sha2::Digest;

verus! {

/// Whether optional field `a` sorts strictly before `b` (no field first).
pub open spec fn opt_before(a: Option<Seq<char>>, b: Option<Seq<char>>) -> bool {
    match (a, b) {
        (None, Some(_)) => true,
        (Some(x), Some(y)) => seq_lt(x, y),
        _ => false,
    }
}

/// Whether change `a` sorts strictly before `b`: by component, then
/// operation, then field.
pub open spec fn change_before(a: ChangeView, b: ChangeView) -> bool {
    ||| seq_lt(a.component, b.component)
    ||| a.component == b.component && seq_lt(a.op, b.op)
    ||| a.component == b.component && a.op == b.op && opt_before(a.field, b.field)
}

/// `x` inserted into `s` after every element that does not sort after it.
pub open spec fn insert_change(s: Seq<ChangeView>, x: ChangeView) -> Seq<ChangeView>
    decreases s.len(),
{
    if s.len() == 0 {
        seq![x]
    } else if change_before(x, s.last()) {
        insert_change(s.drop_last(), x).push(s.last())
    } else {
        s.push(x)
    }
}

/// The stable sort of `s` by component, operation and field: changes with
/// equal keys keep their order.
pub open spec fn sort_changes(s: Seq<ChangeView>) -> Seq<ChangeView>
    decreases s.len(),
{
    if s.len() == 0 {
        s
    } else {
        insert_change(sort_changes(s.drop_last()), s.last())
    }
}

/// A change value as `serde_json` writes it (object keys in sorted order).
pub open spec fn json_value(v: ValueView) -> Seq<char> {
    match v {
        ValueView::AgentSpec { image, replicas } => "{\"image\":"@ + json_quote(image) + ",\"replicas\":"@ + dec(
            replicas as nat,
        ) + "}"@,
        ValueView::Provider(p) => "{\"provider\":"@ + json_quote(p) + "}"@,
        ValueView::Count(n) => dec(n as nat),
        ValueView::Text(t) => json_quote(t),
        ValueView::OptText(o) => match o {
            Some(t) => json_quote(t),
            None => "null"@,
        },
    }
}

/// An optional string member, left out when absent.
pub open spec fn json_opt_str(key: Seq<char>, v: Option<Seq<char>>) -> Seq<char> {
    match v {
        Some(s) => key + json_quote(s),
        None => Seq::empty(),
    }
}

/// An optional value member, left out when absent.
pub open spec fn json_opt_value(key: Seq<char>, v: Option<ValueView>) -> Seq<char> {
    match v {
        Some(x) => key + json_value(x),
        None => Seq::empty(),
    }
}

/// A change as `serde_json` writes it: members in declaration order, absent
/// optional members left out.
pub open spec fn json_change(c: ChangeView) -> Seq<char> {
    "{\"op\":"@ + json_quote(c.op) + ",\"component\":"@ + json_quote(c.component) + json_opt_str(
        ",\"field\":"@,
        c.field,
    ) + json_opt_value(",\"from\":"@, c.from) + json_opt_value(",\"to\":"@, c.to) + json_opt_str(
        ",\"source_file\":"@,
        c.source_file,
    ) + "}"@
}

/// The changes written one after another, separated by commas.
pub open spec fn json_change_items(s: Seq<ChangeView>) -> Seq<char>
    decreases s.len(),
{
    if s.len() == 0 {
        Seq::empty()
    } else if s.len() == 1 {
        json_change(s[0])
    } else {
        json_change_items(s.drop_last()) + ","@ + json_change(s.last())
    }
}

/// A list of changes as a compact JSON array.
pub open spec fn json_changes(s: Seq<ChangeView>) -> Seq<char> {
    "["@ + json_change_items(s) + "]"@
}

/// The canonical text the plan hash is computed over.
pub open spec fn canonical_json(changes: Seq<Change>) -> Seq<char> {
    json_changes(sort_changes(changes_view(changes)))
}

/// A plan hash as printed: `sha256:` and the digest in lower-case hex.
pub open spec fn hash_text(digest: Seq<u8>) -> Seq<char> {
    "sha256:"@ + hex_bytes(digest)
}

/// The SHA-256 digest of the UTF-8 encoding of `text`.
pub uninterp spec fn sha256_utf8(text: Seq<char>) -> Seq<u8>;

/// Calls `sha2::Sha256::digest` on the UTF-8 bytes of `text`. Claimed: the
/// result is the named digest of `text` and is 32 bytes long, the output
/// size of SHA-256.
#[verifier::external_body]
fn sha256_digest(text: &str) -> (d: Vec<u8>)
    ensures
        d@ == sha256_utf8(text@),
        d@.len() == 32,
{
    sha2::Sha256::digest(text.as_bytes()).to_vec()
}

/// A copy of a change value.
pub fn clone_value(v: &ChangeValue) -> (r: ChangeValue)
    ensures
        value_view(r) == value_view(*v),
{
    match v {
        ChangeValue::AgentSpec { image, replicas } => ChangeValue::AgentSpec { image: image.clone(), replicas: *replicas },
        ChangeValue::Provider(p) => ChangeValue::Provider(p.clone()),
        ChangeValue::Count(n) => ChangeValue::Count(*n),
        ChangeValue::Text(t) => ChangeValue::Text(t.clone()),
        ChangeValue::OptText(o) => ChangeValue::OptText(clone_opt_str(o)),
    }
}

fn clone_opt_value(v: &Option<ChangeValue>) -> (r: Option<ChangeValue>)
    ensures
        opt_value_view(r) == opt_value_view(*v),
{
    match v {
        Some(x) => Some(clone_value(x)),
        None => None,
    }
}

/// A copy of a change.
pub fn clone_change(c: &Change) -> (r: Change)
    ensures
        change_view(r) == change_view(*c),
{
    Change {
        op: c.op.clone(),
        component: c.component.clone(),
        field: clone_opt_str(&c.field),
        from: clone_opt_value(&c.from),
        to: clone_opt_value(&c.to),
        source_file: clone_opt_str(&c.source_file),
    }
}

fn opt_before_exec(a: &Option<String>, b: &Option<String>) -> (r: bool)
    ensures
        r == opt_before(opt_str_view(*a), opt_str_view(*b)),
{
    match (a, b) {
        (None, Some(_)) => true,
        (Some(x), Some(y)) => str_lt(x.as_str(), y.as_str()),
        _ => false,
    }
}

fn change_before_exec(a: &Change, b: &Change) -> (r: bool)
    ensures
        r == change_before(change_view(*a), change_view(*b)),
{
    if str_lt(a.component.as_str(), b.component.as_str()) {
        return true;
    }
    if !str_eq(a.component.as_str(), b.component.as_str()) {
        return false;
    }
    if str_lt(a.op.as_str(), b.op.as_str()) {
        return true;
    }
    if !str_eq(a.op.as_str(), b.op.as_str()) {
        return false;
    }
    opt_before_exec(&a.field, &b.field)
}

proof fn lemma_insert_change(s: Seq<ChangeView>, x: ChangeView, j: int)
    requires
        0 <= j <= s.len(),
        forall|k: int| j <= k < s.len() ==> change_before(x, #[trigger] s[k]),
        j == 0 || !change_before(x, s[j - 1]),
    ensures
        insert_change(s, x) == s.insert(j, x),
    decreases s.len(),
{
    if s.len() == 0 {
        assert(s.insert(j, x) =~= seq![x]);
    } else if change_before(x, s.last()) {
        let d = s.drop_last();
        assert forall|k: int| j <= k < d.len() implies change_before(x, #[trigger] d[k]) by {
            assert(d[k] == s[k]);
        }
        if j == s.len() {
            assert(!change_before(x, s[j - 1]));
        }
        lemma_insert_change(d, x, j);
        assert(d.insert(j, x).push(s.last()) =~= s.insert(j, x));
    } else {
        if j < s.len() {
            assert(change_before(x, s[s.len() - 1]));
        }
        assert(s.push(x) =~= s.insert(j, x));
    }
}

/// The changes in canonical order: by component, then operation, then
/// field, changes with equal keys in their original order.
pub fn sorted_changes(changes: &[Change]) -> (r: Vec<Change>)
    ensures
        changes_view(r@) == sort_changes(changes_view(changes@)),
{
    let ghost cv = changes_view(changes@);
    let mut out: Vec<Change> = Vec::new();
    let n = changes.len();
    for i in 0..n
        invariant
            n == changes@.len(),
            cv == changes_view(changes@),
            changes_view(out@) == sort_changes(cv.take(i as int)),
    {
        let x = clone_change(&changes[i]);
        let ghost before = changes_view(out@);
        let mut j: usize = out.len();
        while j > 0 && change_before_exec(&x, &out[j - 1])
            invariant
                j <= out@.len(),
                before == changes_view(out@),
                forall|k: int| j <= k < before.len() ==> change_before(change_view(x), #[trigger] before[k]),
            decreases j,
        {
            j = j - 1;
        }
        proof {
            lemma_insert_change(before, change_view(x), j as int);
            assert(cv.take(i + 1).drop_last() =~= cv.take(i as int));
            assert(cv.take(i + 1).last() == change_view(x));
        }
        out.insert(j, x);
        assert(changes_view(out@) =~= before.insert(j as int, change_view(x)));
    }
    assert(cv.take(n as int) =~= cv);
    out
}

pub(crate) fn push_json_value(out: &mut String, v: &ChangeValue)
    ensures
        final(out)@ == old(out)@ + json_value(value_view(*v)),
{
    let ghost start = out@;
    match v {
        ChangeValue::AgentSpec { image, replicas } => {
            push_str(out, "{\"image\":");
            push_json_str(out, image.as_str());
            push_str(out, ",\"replicas\":");
            push_u64(out, *replicas as u64);
            push_str(out, "}");
        },
        ChangeValue::Provider(p) => {
            push_str(out, "{\"provider\":");
            push_json_str(out, p.as_str());
            push_str(out, "}");
        },
        ChangeValue::Count(n) => {
            push_u64(out, *n as u64);
        },
        ChangeValue::Text(t) => {
            push_json_str(out, t.as_str());
        },
        ChangeValue::OptText(o) => match o {
            Some(t) => {
                push_json_str(out, t.as_str());
            },
            None => {
                push_str(out, "null");
            },
        },
    }
    assert(out@ =~= start + json_value(value_view(*v)));
}

fn push_json_opt_str(out: &mut String, key: &str, v: &Option<String>)
    ensures
        final(out)@ == old(out)@ + json_opt_str(key@, opt_str_view(*v)),
{
    let ghost start = out@;
    if let Some(s) = v {
        push_str(out, key);
        push_json_str(out, s.as_str());
    }
    assert(out@ =~= start + json_opt_str(key@, opt_str_view(*v)));
}

fn push_json_opt_value(out: &mut String, key: &str, v: &Option<ChangeValue>)
    ensures
        final(out)@ == old(out)@ + json_opt_value(key@, opt_value_view(*v)),
{
    let ghost start = out@;
    if let Some(x) = v {
        push_str(out, key);
        push_json_value(out, x);
    }
    assert(out@ =~= start + json_opt_value(key@, opt_value_view(*v)));
}

fn push_json_change(out: &mut String, c: &Change)
    ensures
        final(out)@ == old(out)@ + json_change(change_view(*c)),
{
    let ghost start = out@;
    push_str(out, "{\"op\":");
    push_json_str(out, c.op.as_str());
    push_str(out, ",\"component\":");
    push_json_str(out, c.component.as_str());
    push_json_opt_str(out, ",\"field\":", &c.field);
    push_json_opt_value(out, ",\"from\":", &c.from);
    push_json_opt_value(out, ",\"to\":", &c.to);
    push_json_opt_str(out, ",\"source_file\":", &c.source_file);
    push_str(out, "}");
    assert(out@ =~= start + json_change(change_view(*c)));
}

/// The changes as a compact JSON array, in the order given.
pub fn changes_to_json(changes: &[Change]) -> (r: String)
    ensures
        r@ == json_changes(changes_view(changes@)),
{
    let ghost cv = changes_view(changes@);
    let mut out = String::new();
    push_str(&mut out, "[");
    let ghost start = out@;
    let n = changes.len();
    for i in 0..n
        invariant
            n == changes@.len(),
            cv == changes_view(changes@),
            out@ == start + json_change_items(cv.take(i as int)),
    {
        assert(cv.take(i + 1).drop_last() =~= cv.take(i as int));
        assert(cv.take(i + 1)[i as int] == change_view(changes@[i as int]));
        if i > 0 {
            push_str(&mut out, ",");
        } else {
            assert(cv.take(1)[0] == cv.take(i + 1)[i as int]);
        }
        push_json_change(&mut out, &changes[i]);
        assert(out@ =~= start + json_change_items(cv.take(i + 1)));
    }
    assert(cv.take(n as int) =~= cv);
    push_str(&mut out, "]");
    assert(out@ =~= json_changes(cv));
    out
}

/// The canonical JSON of a plan's changes: sorted, then written compactly.
pub fn canonical_changes_json(changes: &[Change]) -> (r: String)
    ensures
        r@ == canonical_json(changes@),
{
    let sorted = sorted_changes(changes);
    changes_to_json(sorted.as_slice())
}

/// The plan hash for a SHA-256 digest: `sha256:` and the digest in hex.
pub fn plan_hash_of_digest(digest: &[u8]) -> (r: String)
    ensures
        r@ == hash_text(digest@),
{
    let mut out = String::new();
    push_str(&mut out, "sha256:");
    push_hex_bytes(&mut out, digest);
    out
}

/// The canonical plan hash: SHA-256 over the sorted, compact JSON of the
/// changes, so that the order in which changes were found does not matter.
pub fn compute_plan_hash(changes: &[Change]) -> (r: String)
    ensures
        r@ == hash_text(sha256_utf8(canonical_json(changes@))),
{
    let json = canonical_changes_json(changes);
    let digest = sha256_digest(json.as_str());
    plan_hash_of_digest(digest.as_slice())
}

/// Whether two changes have the same sort key: component, operation, field.
pub open spec fn same_key(a: ChangeView, b: ChangeView) -> bool {
    a.component == b.component && a.op == b.op && a.field == b.field
}

/// Whether no two changes share a sort key.
pub open spec fn keys_distinct(s: Seq<ChangeView>) -> bool {
    forall|i: int, j: int| 0 <= i < j < s.len() ==> !same_key(#[trigger] s[i], #[trigger] s[j])
}

/// Whether the changes ascend strictly by sort key.
pub open spec fn strictly_sorted(s: Seq<ChangeView>) -> bool {
    forall|i: int, j: int| 0 <= i < j < s.len() ==> change_before(#[trigger] s[i], #[trigger] s[j])
}

proof fn lemma_before_order(a: ChangeView, b: ChangeView, c: ChangeView)
    ensures
        !change_before(a, a),
        change_before(a, b) && change_before(b, c) ==> change_before(a, c),
        !same_key(a, b) ==> change_before(a, b) || change_before(b, a),
{
    lemma_seq_lt_irrefl(a.component);
    lemma_seq_lt_irrefl(a.op);
    lemma_seq_lt_trans(a.component, b.component, c.component);
    lemma_seq_lt_trans(a.op, b.op, c.op);
    lemma_seq_lt_total(a.component, b.component);
    lemma_seq_lt_total(a.op, b.op);
    lemma_seq_lt_asym(a.component, b.component);
    lemma_seq_lt_asym(b.component, c.component);
    lemma_seq_lt_asym(a.op, b.op);
    lemma_seq_lt_asym(b.op, c.op);
    match (a.field, b.field, c.field) {
        (Some(x), Some(y), Some(z)) => {
            lemma_seq_lt_irrefl(x);
            lemma_seq_lt_trans(x, y, z);
            lemma_seq_lt_total(x, y);
        },
        (Some(x), Some(y), None) => {
            lemma_seq_lt_irrefl(x);
            lemma_seq_lt_total(x, y);
        },
        (Some(x), None, _) => {
            lemma_seq_lt_irrefl(x);
        },
        (None, Some(y), Some(z)) => {},
        _ => {},
    }
}

proof fn lemma_insert_change_sorted(s: Seq<ChangeView>, x: ChangeView)
    requires
        strictly_sorted(s),
        forall|k: int| 0 <= k < s.len() ==> !same_key(x, #[trigger] s[k]),
    ensures
        strictly_sorted(insert_change(s, x)),
        forall|y: ChangeView| #[trigger] insert_change(s, x).contains(y) <==> (y == x || s.contains(y)),
    decreases s.len(),
{
    if s.len() == 0 {
        assert(insert_change(s, x) =~= seq![x]);
        assert forall|y: ChangeView| #[trigger] insert_change(s, x).contains(y) <==> (y == x || s.contains(y)) by {
            if y == x {
                assert(insert_change(s, x)[0] == x);
            }
        }
    } else if change_before(x, s.last()) {
        let d = s.drop_last();
        let last = s.last();
        assert forall|k: int| 0 <= k < d.len() implies !same_key(x, #[trigger] d[k]) by {
            assert(d[k] == s[k]);
        }
        lemma_insert_change_sorted(d, x);
        let r = insert_change(d, x);
        let res = r.push(last);
        assert(insert_change(s, x) == res);
        assert forall|i: int, j: int| 0 <= i < j < res.len() implies change_before(#[trigger] res[i], #[trigger] res[j]) by {
            if j == res.len() - 1 {
                assert(res[j] == last);
                assert(r.contains(res[i]));
                if res[i] != x {
                    assert(d.contains(res[i]));
                    let k = choose|k: int| 0 <= k < d.len() && d[k] == res[i];
                    assert(s[k] == d[k]);
                    assert(change_before(s[k], s[s.len() - 1]));
                }
            } else {
                assert(res[i] == r[i] && res[j] == r[j]);
            }
        }
        assert forall|y: ChangeView| #[trigger] res.contains(y) <==> (y == x || s.contains(y)) by {
            if res.contains(y) {
                let i = choose|i: int| 0 <= i < res.len() && res[i] == y;
                if i < r.len() {
                    assert(r[i] == y);
                    assert(r.contains(y));
                    if y != x {
                        let k = choose|k: int| 0 <= k < d.len() && d[k] == y;
                        assert(s[k] == y);
                    }
                } else {
                    assert(s[s.len() - 1] == y);
                }
            }
            if y == x {
                assert(r.contains(x));
                let i = choose|i: int| 0 <= i < r.len() && r[i] == x;
                assert(res[i] == x);
            } else if s.contains(y) {
                let k = choose|k: int| 0 <= k < s.len() && s[k] == y;
                if k < s.len() - 1 {
                    assert(d[k] == y);
                    assert(d.contains(y));
                    assert(r.contains(y));
                    let i = choose|i: int| 0 <= i < r.len() && r[i] == y;
                    assert(res[i] == y);
                } else {
                    assert(res[res.len() - 1] == y);
                }
            }
        }
    } else {
        let res = s.push(x);
        assert(insert_change(s, x) == res);
        lemma_before_order(x, s.last(), x);
        assert(!same_key(x, s[s.len() - 1]));
        assert(change_before(s.last(), x));
        assert forall|i: int, j: int| 0 <= i < j < res.len() implies change_before(#[trigger] res[i], #[trigger] res[j]) by {
            if j == res.len() - 1 {
                if i < s.len() - 1 {
                    assert(change_before(s[i], s[s.len() - 1]));
                    lemma_before_order(s[i], s.last(), x);
                }
            } else {
                assert(res[i] == s[i] && res[j] == s[j]);
            }
        }
        assert forall|y: ChangeView| #[trigger] res.contains(y) <==> (y == x || s.contains(y)) by {
            if res.contains(y) {
                let i = choose|i: int| 0 <= i < res.len() && res[i] == y;
                if i < s.len() {
                    assert(s[i] == y);
                }
            }
            if y == x {
                assert(res[res.len() - 1] == x);
            } else if s.contains(y) {
                let k = choose|k: int| 0 <= k < s.len() && s[k] == y;
                assert(res[k] == y);
            }
        }
    }
}

proof fn lemma_sort_changes_sorted(s: Seq<ChangeView>)
    requires
        keys_distinct(s),
    ensures
        strictly_sorted(sort_changes(s)),
        forall|y: ChangeView| #[trigger] sort_changes(s).contains(y) <==> s.contains(y),
    decreases s.len(),
{
    if s.len() > 0 {
        let d = s.drop_last();
        assert forall|i: int, j: int| 0 <= i < j < d.len() implies !same_key(#[trigger] d[i], #[trigger] d[j]) by {
            assert(d[i] == s[i] && d[j] == s[j]);
        }
        lemma_sort_changes_sorted(d);
        let sd = sort_changes(d);
        assert forall|k: int| 0 <= k < sd.len() implies !same_key(s.last(), #[trigger] sd[k]) by {
            assert(sd.contains(sd[k]));
            assert(d.contains(sd[k]));
            let m = choose|m: int| 0 <= m < d.len() && d[m] == sd[k];
            assert(s[m] == sd[k]);
            assert(!same_key(s[m], s[s.len() - 1]));
        }
        lemma_insert_change_sorted(sd, s.last());
        assert forall|y: ChangeView| #[trigger] sort_changes(s).contains(y) <==> s.contains(y) by {
            if s.contains(y) && y != s.last() {
                let k = choose|k: int| 0 <= k < s.len() && s[k] == y;
                assert(k < s.len() - 1);
                assert(d[k] == y);
                assert(d.contains(y));
            }
            if d.contains(y) {
                let k = choose|k: int| 0 <= k < d.len() && d[k] == y;
                assert(s[k] == y);
            }
            if y == s.last() {
                assert(s[s.len() - 1] == y);
            }
        }
    }
}

proof fn lemma_sorted_unique(a: Seq<ChangeView>, b: Seq<ChangeView>)
    requires
        strictly_sorted(a),
        strictly_sorted(b),
        forall|y: ChangeView| #[trigger] a.contains(y) <==> b.contains(y),
    ensures
        a == b,
    decreases a.len() + b.len(),
{
    if a.len() == 0 {
        if b.len() > 0 {
            assert(b.contains(b[0]));
            assert(a.contains(b[0]));
        }
        assert(a =~= b);
    } else {
        assert(a.contains(a.last()));
        assert(b.contains(a.last()));
        assert(b.len() > 0);
        assert(b.contains(b.last()));
        assert(a.contains(b.last()));
        let j = choose|j: int| 0 <= j < b.len() && b[j] == a.last();
        let i = choose|i: int| 0 <= i < a.len() && a[i] == b.last();
        lemma_before_order(a.last(), b.last(), a.last());
        if j < b.len() - 1 {
            assert(change_before(b[j], b[b.len() - 1]));
            if i < a.len() - 1 {
                assert(change_before(a[i], a[a.len() - 1]));
            }
        }
        if i < a.len() - 1 {
            assert(change_before(a[i], a[a.len() - 1]));
            if j < b.len() - 1 {
                assert(change_before(b[j], b[b.len() - 1]));
            }
        }
        assert(a.last() == b.last());
        let da = a.drop_last();
        let db = b.drop_last();
        assert forall|p: int, q: int| 0 <= p < q < da.len() implies change_before(#[trigger] da[p], #[trigger] da[q]) by {
            assert(da[p] == a[p] && da[q] == a[q]);
        }
        assert forall|p: int, q: int| 0 <= p < q < db.len() implies change_before(#[trigger] db[p], #[trigger] db[q]) by {
            assert(db[p] == b[p] && db[q] == b[q]);
        }
        assert forall|y: ChangeView| #[trigger] da.contains(y) <==> db.contains(y) by {
            if da.contains(y) {
                let p = choose|p: int| 0 <= p < da.len() && da[p] == y;
                assert(a[p] == y);
                assert(change_before(a[p], a[a.len() - 1]));
                lemma_before_order(y, y, y);
                assert(y != a.last());
                assert(a.contains(y));
                assert(b.contains(y));
                let q = choose|q: int| 0 <= q < b.len() && b[q] == y;
                assert(q != b.len() - 1);
                assert(db[q] == y);
            }
            if db.contains(y) {
                let q = choose|q: int| 0 <= q < db.len() && db[q] == y;
                assert(b[q] == y);
                assert(change_before(b[q], b[b.len() - 1]));
                lemma_before_order(y, y, y);
                assert(y != b.last());
                assert(b.contains(y));
                assert(a.contains(y));
                let p = choose|p: int| 0 <= p < a.len() && a[p] == y;
                assert(p != a.len() - 1);
                assert(da[p] == y);
            }
        }
        lemma_sorted_unique(da, db);
        assert(a =~= da.push(a.last()));
        assert(b =~= db.push(b.last()));
    }
}

/// The plan hash does not depend on the order in which the changes were
/// found: two lists of the same changes, neither repeating a sort key,
/// have the same canonical text, so the same hash.
pub proof fn law_plan_hash_ignores_order(s1: Seq<Change>, s2: Seq<Change>)
    requires
        keys_distinct(changes_view(s1)),
        keys_distinct(changes_view(s2)),
        forall|y: ChangeView| #[trigger] changes_view(s1).contains(y) <==> changes_view(s2).contains(y),
    ensures
        canonical_json(s1) == canonical_json(s2),
        hash_text(sha256_utf8(canonical_json(s1))) == hash_text(sha256_utf8(canonical_json(s2))),
{
    let v1 = changes_view(s1);
    let v2 = changes_view(s2);
    lemma_sort_changes_sorted(v1);
    lemma_sort_changes_sorted(v2);
    assert forall|y: ChangeView| #[trigger] sort_changes(v1).contains(y) <==> sort_changes(v2).contains(y) by {
        assert(sort_changes(v1).contains(y) <==> v1.contains(y));
        assert(sort_changes(v2).contains(y) <==> v2.contains(y));
        assert(v1.contains(y) <==> v2.contains(y));
    }
    lemma_sorted_unique(sort_changes(v1), sort_changes(v2));
}

} // verus!
