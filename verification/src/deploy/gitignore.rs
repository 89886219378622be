//! The `.wh/.gitignore` that keeps WAL files, secrets and lock files out of
//! git, and the scans for secrets that were staged or committed. Reading
//! and writing files and running git are left to the caller.

use vstd::prelude::*;
use crate::text::{is_ws, lemma_lines_append, lemma_lines_newline, lemma_lines_single, lemma_trim_unchanged, strip_cr, chars_eq_str, chars_of, contains_seq, contains_str, ends_with_seq, ends_with_str, lines, lines_of,
    lowercase, push_char, push_str, starts_with_seq, starts_with_str, string_of, to_lowercase, trim, trim_chars, trim_str};
use vstd::string::StringExecFns;

verus! {

/// The patterns a `.wh/.gitignore` must hold: secrets, WAL files, locks.
pub open spec fn required_patterns() -> Seq<Seq<char>> {
    seq![
        ".env"@,
        ".env.*"@,
        "*.token"@,
        "secrets/"@,
        "*.key"@,
        "*.pem"@,
        "*_secret*"@,
        "*.db"@,
        "*.db-wal"@,
        "*.db-shm"@,
        "workspace.lock"@,
    ]
}

/// All required gitignore patterns: secrets, then WAL files, then locks.
pub fn all_required_patterns() -> (r: Vec<&'static str>)
    ensures
        r@.map_values(|p: &str| p@) == required_patterns(),
{
    let r = vec![
        ".env",
        ".env.*",
        "*.token",
        "secrets/",
        "*.key",
        "*.pem",
        "*_secret*",
        "*.db",
        "*.db-wal",
        "*.db-shm",
        "workspace.lock",
    ];
    assert(r@.map_values(|p: &str| p@) =~= required_patterns());
    r
}

/// Whether some line of `content`, trimmed, is `p`.
pub open spec fn has_line(content: Seq<char>, p: Seq<char>) -> bool {
    exists|i: int| 0 <= i < lines(content).len() && trim(#[trigger] lines(content)[i]) == p
}

/// The patterns of `ps` that no line of `content` holds, in order.
pub open spec fn missing_from(ps: Seq<Seq<char>>, content: Seq<char>) -> Seq<Seq<char>>
    decreases ps.len(),
{
    if ps.len() == 0 {
        Seq::empty()
    } else {
        let m = missing_from(ps.drop_last(), content);
        if has_line(content, ps.last()) {
            m
        } else {
            m.push(ps.last())
        }
    }
}

/// Each pattern on a line of its own.
pub open spec fn pattern_lines(ps: Seq<Seq<char>>) -> Seq<char>
    decreases ps.len(),
{
    if ps.len() == 0 {
        Seq::empty()
    } else {
        pattern_lines(ps.drop_last()) + ps.last() + seq!['\n']
    }
}

/// The header put before the patterns when the file has no Wheelhouse section.
pub open spec fn managed_header() -> Seq<char> {
    "\n# Wheelhouse managed \u{2014} do not remove these patterns\n"@
}

/// The new content of `.wh/.gitignore`, or `None` when it already holds
/// every required pattern: the existing content, ended by a newline, a
/// header unless there is a Wheelhouse section already, and each missing
/// pattern on its own line. Nothing is ever removed.
pub open spec fn gitignore_update(existing: Seq<char>) -> Option<Seq<char>> {
    let missing = missing_from(required_patterns(), existing);
    if missing.len() == 0 {
        None
    } else {
        let base = if existing.len() > 0 && existing.last() != '\n' {
            existing.push('\n')
        } else {
            existing
        };
        let header = if contains_seq(existing, "# Wheelhouse managed"@) {
            Seq::empty()
        } else {
            managed_header()
        };
        Some(base + header + pattern_lines(missing))
    }
}

/// A pattern that makes a line of its own: not empty, no newline in it, no
/// whitespace at either end.
spec fn plain(p: Seq<char>) -> bool {
    &&& p.len() > 0
    &&& !is_ws(p[0])
    &&& !is_ws(p.last())
    &&& forall|i: int| 0 <= i < p.len() ==> p[i] != '\n'
}

proof fn lemma_required_plain()
    ensures
        forall|k: int| 0 <= k < required_patterns().len() ==> plain(#[trigger] required_patterns()[k]),
{
    reveal_strlit(".env");
    reveal_strlit(".env.*");
    reveal_strlit("*.token");
    reveal_strlit("secrets/");
    reveal_strlit("*.key");
    reveal_strlit("*.pem");
    reveal_strlit("*_secret*");
    reveal_strlit("*.db");
    reveal_strlit("*.db-wal");
    reveal_strlit("*.db-shm");
    reveal_strlit("workspace.lock");
    let r = required_patterns();
    assert forall|k: int, i: int| 0 <= k < r.len() && 0 <= i < r[k].len() implies r[k][i] != '\n' by {
        assert(k == 0 || k == 1 || k == 2 || k == 3 || k == 4 || k == 5 || k == 6 || k == 7 || k == 8 || k == 9
            || k == 10);
        assert(i == 0 || i == 1 || i == 2 || i == 3 || i == 4 || i == 5 || i == 6 || i == 7 || i == 8 || i == 9
            || i == 10 || i == 11 || i == 12 || i == 13);
    }
    assert forall|k: int| 0 <= k < r.len() implies plain(#[trigger] r[k]) by {
        assert(k == 0 || k == 1 || k == 2 || k == 3 || k == 4 || k == 5 || k == 6 || k == 7 || k == 8 || k == 9
            || k == 10);
    }
}

proof fn lemma_lines_pattern_lines(ms: Seq<Seq<char>>)
    requires
        forall|k: int| 0 <= k < ms.len() ==> plain(#[trigger] ms[k]),
    ensures
        lines(pattern_lines(ms)) == ms,
        pattern_lines(ms).len() == 0 || pattern_lines(ms).last() == '\n',
    decreases ms.len(),
{
    if ms.len() > 0 {
        let d = ms.drop_last();
        assert forall|k: int| 0 <= k < d.len() implies plain(#[trigger] d[k]) by {
            assert(d[k] == ms[k]);
        }
        lemma_lines_pattern_lines(d);
        let m = ms.last();
        assert(plain(ms[ms.len() - 1]));
        lemma_lines_single(m);
        lemma_lines_append(pattern_lines(d), m + seq!['\n']);
        assert(pattern_lines(d) + m + seq!['\n'] =~= pattern_lines(d) + (m + seq!['\n']));
        assert(strip_cr(m) == m);
        assert(lines(pattern_lines(ms)) =~= ms);
    } else {
        assert(lines(Seq::<char>::empty()) =~= Seq::<Seq<char>>::empty());
    }
}

proof fn lemma_missing_from(ps: Seq<Seq<char>>, c: Seq<char>)
    ensures
        forall|j: int| 0 <= j < missing_from(ps, c).len() ==> ps.contains(#[trigger] missing_from(ps, c)[j]),
        forall|k: int| 0 <= k < ps.len() && !has_line(c, ps[k]) ==> missing_from(ps, c).contains(#[trigger] ps[k]),
        (forall|k: int| 0 <= k < ps.len() ==> has_line(c, #[trigger] ps[k])) ==> missing_from(ps, c).len() == 0,
    decreases ps.len(),
{
    if ps.len() > 0 {
        let d = ps.drop_last();
        lemma_missing_from(d, c);
        let md = missing_from(d, c);
        let m = missing_from(ps, c);
        assert forall|j: int| 0 <= j < m.len() implies ps.contains(#[trigger] m[j]) by {
            if j < md.len() {
                assert(m[j] == md[j]);
                assert(d.contains(md[j]));
                let k = choose|k: int| 0 <= k < d.len() && d[k] == md[j];
                assert(ps[k] == m[j]);
            } else {
                assert(m[j] == ps[ps.len() - 1]);
            }
        }
        assert forall|k: int| 0 <= k < ps.len() && !has_line(c, ps[k]) implies m.contains(#[trigger] ps[k]) by {
            if k < d.len() {
                assert(ps[k] == d[k]);
                assert(md.contains(d[k]));
                let j = choose|j: int| 0 <= j < md.len() && md[j] == d[k];
                assert(m[j] == md[j]);
            } else {
                assert(m[m.len() - 1] == ps[k]);
            }
        }
        if forall|k: int| 0 <= k < ps.len() ==> has_line(c, #[trigger] ps[k]) {
            assert forall|k: int| 0 <= k < d.len() implies has_line(c, #[trigger] d[k]) by {
                assert(d[k] == ps[k]);
            }
            assert(has_line(c, ps[ps.len() - 1]));
        }
    }
}

/// Bringing `.wh/.gitignore` up to date is idempotent: once updated, the
/// file needs no further update.
pub proof fn law_gitignore_update_idempotent(existing: Seq<char>)
    ensures
        match gitignore_update(existing) {
            Some(updated) => gitignore_update(updated) is None,
            None => true,
        },
{
    let r = required_patterns();
    let ms = missing_from(r, existing);
    if ms.len() > 0 {
        lemma_required_plain();
        lemma_missing_from(r, existing);
        let base = if existing.len() > 0 && existing.last() != '\n' {
            existing.push('\n')
        } else {
            existing
        };
        let header = if contains_seq(existing, "# Wheelhouse managed"@) {
            Seq::empty()
        } else {
            managed_header()
        };
        let updated = base + header + pattern_lines(ms);
        assert forall|k: int| 0 <= k < ms.len() implies plain(#[trigger] ms[k]) by {
            assert(r.contains(ms[k]));
            let kk = choose|kk: int| 0 <= kk < r.len() && r[kk] == ms[k];
            assert(plain(r[kk]));
        }
        lemma_lines_pattern_lines(ms);
        if existing.len() > 0 && existing.last() != '\n' {
            lemma_lines_newline(existing);
        }
        reveal_strlit("\n# Wheelhouse managed \u{2014} do not remove these patterns\n");
        lemma_lines_append(base, header);
        if header.len() == 0 {
            assert(base + header =~= base);
        }
        lemma_lines_append(base + header, pattern_lines(ms));
        let head = lines(base + header);
        assert(lines(updated) == head + ms);
        assert(head == lines(existing) + lines(header));
        assert forall|k: int| 0 <= k < r.len() implies has_line(updated, #[trigger] r[k]) by {
            if has_line(existing, r[k]) {
                let i = choose|i: int| 0 <= i < lines(existing).len() && trim(#[trigger] lines(existing)[i]) == r[k];
                assert(lines(updated)[i] == lines(existing)[i]);
            } else {
                assert(ms.contains(r[k]));
                let j = choose|j: int| 0 <= j < ms.len() && ms[j] == r[k];
                assert(lines(updated)[head.len() + j] == ms[j]);
                lemma_trim_unchanged(ms[j]);
            }
        }
        lemma_missing_from(r, updated);
    }
}

/// Bringing `.wh/.gitignore` up to date never removes anything: the old
/// content is a prefix of the new.
pub proof fn law_gitignore_update_keeps_content(existing: Seq<char>)
    ensures
        gitignore_update(existing) matches Some(updated) ==> updated.len() >= existing.len() && updated.take(
            existing.len() as int,
        ) == existing,
{
    if let Some(updated) = gitignore_update(existing) {
        let base = if existing.len() > 0 && existing.last() != '\n' {
            existing.push('\n')
        } else {
            existing
        };
        assert(base.take(existing.len() as int) =~= existing);
        assert(updated.take(existing.len() as int) =~= existing);
    }
}

/// Whether some line of the content, trimmed, is `p`.
fn content_has_line(ls: &Vec<Vec<char>>, p: &str) -> (b: bool)
    ensures
        b == (exists|i: int| 0 <= i < ls@.len() && trim(#[trigger] ls@[i]@) == p@),
{
    for i in 0..ls.len()
        invariant
            forall|j: int| 0 <= j < i ==> trim(#[trigger] ls@[j]@) != p@,
    {
        let t = trim_chars(ls[i].as_slice());
        if chars_eq_str(t.as_slice(), p) {
            return true;
        }
    }
    false
}

/// The required patterns missing from `content`.
fn missing_patterns(content: &str) -> (r: Vec<&'static str>)
    ensures
        r@.map_values(|p: &str| p@) == missing_from(required_patterns(), content@),
{
    let ls = lines_of(content);
    let ghost lv = ls@.map_values(|l: Vec<char>| l@);
    assert(lv == lines(content@));
    let req = all_required_patterns();
    let ghost rq = req@.map_values(|p: &str| p@);
    let mut r: Vec<&'static str> = Vec::new();
    for i in 0..req.len()
        invariant
            lv == ls@.map_values(|l: Vec<char>| l@),
            lv == lines(content@),
            rq == req@.map_values(|p: &str| p@),
            rq == required_patterns(),
            r@.map_values(|p: &str| p@) == missing_from(rq.take(i as int), content@),
    {
        assert(rq.take(i + 1).drop_last() =~= rq.take(i as int));
        let p = req[i];
        let present = content_has_line(&ls, p);
        proof {
            if present {
                let j = choose|j: int| 0 <= j < ls@.len() && trim(#[trigger] ls@[j]@) == p@;
                assert(trim(lines(content@)[j]) == p@);
            } else {
                assert forall|j: int| 0 <= j < lines(content@).len() implies trim(#[trigger] lines(content@)[j]) != p@ by {
                    assert(lines(content@)[j] == ls@[j]@);
                }
            }
        }
        if !present {
            let ghost before = r@;
            r.push(p);
            assert(r@.map_values(|p: &str| p@) =~= before.map_values(|p: &str| p@).push(p@));
        }
    }
    assert(rq.take(req@.len() as int) =~= rq);
    r
}

/// The new content of `.wh/.gitignore` given what it holds now (empty when
/// there is no file), or `None` when every required pattern is present.
pub fn gitignore_update_content(existing: &str) -> (r: Option<String>)
    ensures
        match r {
            Some(s) => gitignore_update(existing@) == Some(s@),
            None => gitignore_update(existing@) is None,
        },
{
    let missing = missing_patterns(existing);
    if missing.len() == 0 {
        return None;
    }
    let ghost ms = missing@.map_values(|p: &str| p@);
    let v = chars_of(existing);
    let mut out = String::from_str(existing);
    if v.len() > 0 && v[v.len() - 1] != '\n' {
        push_char(&mut out, '\n');
    }
    if !contains_str(existing, "# Wheelhouse managed") {
        push_str(&mut out, "\n# Wheelhouse managed \u{2014} do not remove these patterns\n");
    }
    let ghost base = out@;
    for i in 0..missing.len()
        invariant
            ms == missing@.map_values(|p: &str| p@),
            out@ == base + pattern_lines(ms.take(i as int)),
    {
        assert(ms.take(i + 1).drop_last() =~= ms.take(i as int));
        push_str(&mut out, missing[i]);
        push_char(&mut out, '\n');
        assert(out@ =~= base + pattern_lines(ms.take(i + 1)));
    }
    assert(ms.take(missing@.len() as int) =~= ms);
    Some(out)
}

/// The required patterns missing from `.wh/.gitignore`: all of them when
/// there is no file.
pub fn check_gitignore_completeness(content: Option<&str>) -> (r: Vec<String>)
    ensures
        r@.map_values(|s: String| s@) == match content {
            Some(c) => missing_from(required_patterns(), c@),
            None => required_patterns(),
        },
{
    let ps = match content {
        Some(c) => missing_patterns(c),
        None => all_required_patterns(),
    };
    let mut r: Vec<String> = Vec::new();
    for i in 0..ps.len()
        invariant
            r@.map_values(|s: String| s@) == ps@.map_values(|p: &str| p@).take(i as int),
    {
        let ghost before = r@;
        let item = String::from_str(ps[i]);
        r.push(item);
        assert(r@.map_values(|s: String| s@) =~= before.map_values(|s: String| s@).push(ps@[i as int]@));
        assert(ps@.map_values(|p: &str| p@).take(i + 1) =~= ps@.map_values(|p: &str| p@).take(i as int).push(
            ps@[i as int]@,
        ));
    }
    assert(ps@.map_values(|p: &str| p@).take(ps@.len() as int) =~= ps@.map_values(|p: &str| p@));
    r
}

/// What follows the last `c` in `s` (all of `s` without one).
pub open spec fn last_segment(s: Seq<char>, c: char) -> Seq<char>
    decreases s.len(),
{
    if s.len() == 0 {
        s
    } else if s.last() == c {
        Seq::empty()
    } else {
        last_segment(s.drop_last(), c).push(s.last())
    }
}

/// Whether a file name looks like it holds secrets: after lower-casing, its
/// last path segment ends in `.token`, `.key`, `.pem` or `.env`, starts with
/// `.env.`, or contains `secret` or `password`.
pub open spec fn suspicious(path: Seq<char>) -> bool {
    let f = last_segment(lowercase(path), '/');
    ends_with_seq(f, ".token"@) || ends_with_seq(f, ".key"@) || ends_with_seq(f, ".pem"@) || ends_with_seq(f, ".env"@)
        || f == ".env"@ || starts_with_seq(f, ".env."@) || contains_seq(f, "secret"@) || contains_seq(f, "password"@)
}

fn last_segment_of(s: &str, c: char) -> (r: String)
    ensures
        r@ == last_segment(s@, c),
{
    let v = chars_of(s);
    let mut start: usize = 0;
    for i in 0..v.len()
        invariant
            v@ == s@,
            start <= i,
            last_segment(s@.take(i as int), c) == s@.subrange(start as int, i as int),
    {
        assert(s@.take(i + 1).drop_last() =~= s@.take(i as int));
        if v[i] == c {
            start = i + 1;
            assert(s@.subrange(start as int, i + 1) =~= Seq::<char>::empty());
        } else {
            assert(s@.subrange(start as int, i + 1) =~= s@.subrange(start as int, i as int).push(v@[i as int]));
        }
    }
    assert(s@.take(v@.len() as int) =~= s@);
    let mut out: Vec<char> = Vec::new();
    for k in start..v.len()
        invariant
            v@ == s@,
            start <= v@.len(),
            out@ == s@.subrange(start as int, k as int),
    {
        out.push(v[k]);
        assert(out@ =~= s@.subrange(start as int, k + 1));
    }
    string_of(out.as_slice())
}

/// Check whether a file name looks like it holds secrets.
pub fn is_suspicious_filename(path: &str) -> (b: bool)
    ensures
        b == suspicious(path@),
{
    let lower = to_lowercase(path);
    let f = last_segment_of(lower.as_str(), '/');
    let fs = f.as_str();
    ends_with_str(fs, ".token") || ends_with_str(fs, ".key") || ends_with_str(fs, ".pem") || ends_with_str(fs, ".env")
        || crate::text::str_eq(fs, ".env") || starts_with_str(fs, ".env.") || contains_str(fs, "secret") || contains_str(
        fs,
        "password",
    )
}

/// The suspicious files of a staged list: lines under `.wh/` that look
/// like they hold secrets, in order.
pub open spec fn suspicious_lines(ls: Seq<Seq<char>>) -> Seq<Seq<char>>
    decreases ls.len(),
{
    if ls.len() == 0 {
        Seq::empty()
    } else {
        let r = suspicious_lines(ls.drop_last());
        if starts_with_seq(ls.last(), ".wh/"@) && suspicious(ls.last()) {
            r.push(ls.last())
        } else {
            r
        }
    }
}

/// What the staged-file scan keeps: exactly the lines under `.wh/` whose
/// name looks like it holds secrets, in the order they were listed.
pub proof fn law_suspicious_lines_filter(ls: Seq<Seq<char>>)
    ensures
        suspicious_lines(ls) == ls.filter(|l: Seq<char>| starts_with_seq(l, ".wh/"@) && suspicious(l)),
    decreases ls.len(),
{
    reveal(Seq::filter);
    if ls.len() > 0 {
        law_suspicious_lines_filter(ls.drop_last());
    }
}

/// The staged files, from the output of `git diff --cached --name-only`,
/// that lie under `.wh/` and look like they hold secrets.
pub fn suspicious_staged_files(staged: &str) -> (r: Vec<String>)
    ensures
        r@.map_values(|s: String| s@) == suspicious_lines(lines(staged@)),
{
    let ls = lines_of(staged);
    let ghost lv = ls@.map_values(|l: Vec<char>| l@);
    let mut r: Vec<String> = Vec::new();
    for i in 0..ls.len()
        invariant
            lv == ls@.map_values(|l: Vec<char>| l@),
            r@.map_values(|s: String| s@) == suspicious_lines(lv.take(i as int)),
    {
        assert(lv.take(i + 1).drop_last() =~= lv.take(i as int));
        let line = string_of(ls[i].as_slice());
        if starts_with_str(line.as_str(), ".wh/") && is_suspicious_filename(line.as_str()) {
            let ghost before = r@;
            let ghost lv2 = line@;
            r.push(line);
            assert(r@.map_values(|s: String| s@) =~= before.map_values(|s: String| s@).push(lv2));
        }
    }
    assert(lv.take(ls@.len() as int) =~= lv);
    r
}

/// The number of non-overlapping occurrences of `t` in `s`, left to right.
pub open spec fn count_matches(s: Seq<char>, t: Seq<char>) -> nat
    decreases s.len(),
{
    if t.len() == 0 || s.len() < t.len() {
        0
    } else if starts_with_seq(s, t) {
        1 + count_matches(s.skip(t.len() as int), t)
    } else {
        count_matches(s.drop_first(), t)
    }
}

/// Whether `w` occurs in `v` at position `i`.
fn occurs_at(v: &Vec<char>, w: &Vec<char>, i: usize) -> (b: bool)
    requires
        i + w@.len() <= v@.len(),
    ensures
        b == (v@.subrange(i as int, i + w@.len()) == w@),
{
    let vl = v.len();
    let mut k: usize = 0;
    while k < w.len()
        invariant
            vl == v@.len(),
            k <= w@.len(),
            i + w@.len() <= v@.len(),
            forall|j: int| 0 <= j < k ==> v@[i + j] == w@[j],
        decreases w@.len() - k,
    {
        if v[i + k] != w[k] {
            assert(v@.subrange(i as int, i + w@.len())[k as int] != w@[k as int]);
            return false;
        }
        k = k + 1;
    }
    assert(v@.subrange(i as int, i + w@.len()) =~= w@);
    true
}

/// The number of non-overlapping occurrences of `t` in `s`.
pub fn count_occurrences(s: &str, t: &str) -> (n: usize)
    ensures
        n == count_matches(s@, t@),
{
    let v = chars_of(s);
    let w = chars_of(t);
    if w.len() == 0 {
        return 0;
    }
    let mut i: usize = 0;
    let mut n: usize = 0;
    assert(s@.skip(0) =~= s@);
    while w.len() <= v.len() - i
        invariant
            v@ == s@,
            w@ == t@,
            w@.len() > 0,
            i <= v@.len(),
            n <= i,
            n + count_matches(s@.skip(i as int), t@) == count_matches(s@, t@),
        decreases v@.len() - i,
    {
        let ghost rest = s@.skip(i as int);
        let hit = occurs_at(&v, &w, i);
        assert(rest.subrange(0, t@.len() as int) =~= v@.subrange(i as int, i + w@.len()));
        if hit {
            assert(rest.skip(t@.len() as int) =~= s@.skip(i + w@.len()));
            n = n + 1;
            i = i + w.len();
        } else {
            assert(rest.drop_first() =~= s@.skip(i + 1));
            i = i + 1;
        }
    }
    assert(s@.skip(i as int).len() < t@.len());
    n
}

/// What the history scan reports for one search term, given whether
/// `git log` succeeded and what it printed: the term and how many commits
/// matched, when the output is not blank and names at least one commit.
pub open spec fn history_finding_spec(term: Seq<char>, success: bool, output: Seq<char>) -> Option<(Seq<char>, nat)> {
    if success && trim(output).len() > 0 && count_matches(output, "commit "@) > 0 {
        Some((term, count_matches(output, "commit "@)))
    } else {
        None
    }
}

/// The finding of the history scan for one search term.
pub fn history_finding(term: &str, success: bool, output: &str) -> (r: Option<(String, usize)>)
    ensures
        match r {
            Some((t, n)) => history_finding_spec(term@, success, output@) == Some((t@, n as nat)),
            None => history_finding_spec(term@, success, output@) is None,
        },
{
    if !success {
        return None;
    }
    let t = trim_str(output);
    if t.len() == 0 {
        return None;
    }
    let n = count_occurrences(output, "commit ");
    if n > 0 {
        Some((String::from_str(term), n))
    } else {
        None
    }
}

/// The terms the history scan searches for.
pub fn history_search_terms() -> (r: Vec<&'static str>)
    ensures
        r@.map_values(|p: &str| p@) == seq!["API_KEY"@, "SECRET_KEY"@, "TOKEN="@, "PASSWORD="@, "sk-ant-"@],
{
    let r = vec!["API_KEY", "SECRET_KEY", "TOKEN=", "PASSWORD=", "sk-ant-"];
    assert(r@.map_values(|p: &str| p@) =~= seq!["API_KEY"@, "SECRET_KEY"@, "TOKEN="@, "PASSWORD="@, "sk-ant-"@]);
    r
}

} // verus!
