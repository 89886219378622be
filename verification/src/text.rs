//! Character-level text utilities shared by the library: views of `&str` as
//! character sequences, decimal rendering, Unicode whitespace trimming,
//! splitting and integer parsing.

use vstd::prelude::*;

verus! {

/// The decimal digit character for `d` (which must be below ten).
pub open spec fn digit_char(d: nat) -> char {
    (d + 48) as char
}

/// The shortest decimal rendering of `n`.
pub open spec fn dec(n: nat) -> Seq<char>
    decreases n,
{
    if n < 10 {
        seq![digit_char(n)]
    } else {
        dec(n / 10).push(digit_char(n % 10))
    }
}

/// The decimal rendering of a signed integer, with a leading `-` when negative.
pub open spec fn dec_signed(n: int) -> Seq<char> {
    if n < 0 {
        seq!['-'] + dec((-n) as nat)
    } else {
        dec(n as nat)
    }
}

/// Appends one character to a string.
#[verifier::external_body]
pub(crate) fn push_char(s: &mut String, c: char)
    ensures
        final(s)@ == old(s)@.push(c),
{
    s.push(c);
}

/// Appends a string slice to a string.
pub fn push_str(s: &mut String, t: &str)
    ensures
        final(s)@ == old(s)@ + t@,
{
    s.append(t);
}

/// Appends the decimal rendering of `n`.
pub fn push_u64(s: &mut String, n: u64)
    ensures
        final(s)@ == old(s)@ + dec(n as nat),
    decreases n,
{
    if n >= 10 {
        push_u64(s, n / 10);
    }
    let d: u64 = n % 10;
    let c: char = ((d as u8) + 48u8) as char;
    assert(c == digit_char((n % 10) as nat));
    push_char(s, c);
    proof {
        if n >= 10 {
            assert(dec(n as nat) == dec((n / 10) as nat).push(digit_char((n % 10) as nat)));
        } else {
            assert(dec(n as nat) == seq![digit_char(n as nat)]);
        }
    }
}


/// Appends the decimal rendering of a signed integer.
pub fn push_i64(s: &mut String, n: i64)
    ensures
        final(s)@ == old(s)@ + dec_signed(n as int),
{
    if n < 0 {
        push_char(s, '-');
        let m: u64 = (0i128 - (n as i128)) as u64;
        push_u64(s, m);
        assert(final(s)@ =~= old(s)@ + dec_signed(n as int));
    } else {
        push_u64(s, n as u64);
    }
}

/// Copies the characters of a string slice into a vector.
pub fn chars_of(s: &str) -> (v: Vec<char>)
    ensures
        v@ == s@,
{
    let mut v: Vec<char> = Vec::new();
    for c in it: s.chars()
        invariant
            v@ == it.seq().take(it.index() as int),
            it.seq() == s@,
    {
        v.push(c);
        assert(it.seq().take(it.index() + 1) == it.seq().take(it.index() as int).push(c));
    }
    v
}

/// Builds a string holding exactly the given characters.
pub fn string_of(v: &[char]) -> (s: String)
    ensures
        s@ == v@,
{
    let mut s = String::new();
    let n = v.len();
    for i in 0..n
        invariant
            n == v@.len(),
            s@ == v@.subrange(0, i as int),
    {
        push_char(&mut s, v[i]);
        assert(v@.subrange(0, (i + 1) as int) == v@.subrange(0, i as int).push(v@[i as int]));
    }
    assert(v@.subrange(0, n as int) == v@);
    s
}

/// The character views of a sequence of strings.
pub open spec fn string_views(s: Seq<String>) -> Seq<Seq<char>> {
    s.map_values(|x: String| x@)
}

/// The parts joined with `sep` between consecutive parts.
pub open spec fn join(parts: Seq<Seq<char>>, sep: Seq<char>) -> Seq<char>
    decreases parts.len(),
{
    if parts.len() == 0 {
        Seq::empty()
    } else if parts.len() == 1 {
        parts[0]
    } else {
        join(parts.drop_last(), sep) + sep + parts.last()
    }
}

/// Joins strings with a separator.
pub fn join_strings(parts: &[String], sep: &str) -> (r: String)
    ensures
        r@ == join(string_views(parts@), sep@),
{
    let mut r = String::new();
    let n = parts.len();
    let ghost ps = string_views(parts@);
    for i in 0..n
        invariant
            n == parts@.len(),
            ps == string_views(parts@),
            r@ == join(ps.take(i as int), sep@),
    {
        assert(ps.take(i + 1).drop_last() =~= ps.take(i as int));
        if i > 0 {
            push_str(&mut r, sep);
        }
        push_str(&mut r, parts[i].as_str());
        proof {
            if i == 0 {
                assert(r@ =~= ps.take(1)[0]);
            }
        }
    }
    assert(ps.take(n as int) =~= ps);
    r
}

/// The maximal runs of non-whitespace characters of `s`, in order, as
/// `str::split_whitespace` yields them.
pub open spec fn words(s: Seq<char>) -> Seq<Seq<char>>
    decreases s.len(),
{
    if s.len() == 0 {
        Seq::empty()
    } else {
        let w = words(s.drop_last());
        if is_ws(s.last()) {
            w
        } else if s.len() >= 2 && !is_ws(s[s.len() - 2]) && w.len() > 0 {
            w.drop_last().push(w.last().push(s.last()))
        } else {
            w.push(seq![s.last()])
        }
    }
}

/// Splits a string at runs of Unicode whitespace.
pub fn split_whitespace(s: &str) -> (r: Vec<String>)
    ensures
        string_views(r@) == words(s@),
{
    let v = chars_of(s);
    let mut done: Vec<String> = Vec::new();
    let mut cur: Vec<char> = Vec::new();
    let mut in_word = false;
    for i in 0..v.len()
        invariant
            v@ == s@,
            in_word <==> (i > 0 && !is_ws(s@[i - 1])),
            in_word ==> words(s@.take(i as int)) == string_views(done@).push(cur@),
            !in_word ==> words(s@.take(i as int)) == string_views(done@) && cur@.len() == 0,
    {
        let c = v[i];
        let ghost t = s@.take(i + 1);
        assert(t.drop_last() =~= s@.take(i as int));
        assert(t.last() == c);
        if is_whitespace(c) {
            if in_word {
                let ghost before = done@;
                done.push(string_of(cur.as_slice()));
                assert(string_views(done@) =~= string_views(before).push(cur@));
                cur = Vec::new();
            }
            in_word = false;
        } else {
            let ghost was = in_word;
            let ghost old_cur = cur@;
            let ghost w = words(s@.take(i as int));
            cur.push(c);
            in_word = true;
            proof {
                if was {
                    assert(t[t.len() - 2] == s@[i - 1]);
                    assert(w.drop_last() =~= string_views(done@));
                    assert(cur@ == old_cur.push(c));
                } else {
                    assert(cur@ =~= seq![c]);
                }
            }
        }
        assert(in_word ==> words(t) =~= string_views(done@).push(cur@));
    }
    assert(s@.take(v@.len() as int) =~= s@);
    if in_word {
        let ghost before = done@;
        done.push(string_of(cur.as_slice()));
        assert(string_views(done@) =~= string_views(before).push(cur@));
    }
    done
}

/// What `str::to_lowercase` returns for a string: its Unicode lowercase mapping.
pub uninterp spec fn lowercase(s: Seq<char>) -> Seq<char>;

/// `str::to_lowercase`: the lowercase equivalent of a string, a function of
/// the string alone; the Unicode case tables are not restated.
#[verifier::external_body]
pub(crate) fn to_lowercase(s: &str) -> (r: String)
    ensures
        r@ == lowercase(s@),
{
    s.to_lowercase()
}

/// Whether `t` occurs in `s`.
pub open spec fn contains_seq(s: Seq<char>, t: Seq<char>) -> bool {
    exists|i: int| 0 <= i && i + t.len() <= s.len() && #[trigger] s.subrange(i, i + t.len()) == t
}

/// Whether `s` starts with `t`.
pub open spec fn starts_with_seq(s: Seq<char>, t: Seq<char>) -> bool {
    t.len() <= s.len() && s.subrange(0, t.len() as int) == t
}

/// Whether `s` ends with `t`.
pub open spec fn ends_with_seq(s: Seq<char>, t: Seq<char>) -> bool {
    t.len() <= s.len() && s.subrange(s.len() - t.len(), s.len() as int) == t
}

/// Whether `t` occurs in `v` at position `i`.
fn matches_at(v: &[char], t: &[char], i: usize) -> (b: bool)
    requires
        i + t@.len() <= v@.len(),
    ensures
        b == (v@.subrange(i as int, i + t@.len()) == t@),
{
    let n = v.len();
    for k in 0..t.len()
        invariant
            n == v@.len(),
            i + t@.len() <= v@.len(),
            forall|j: int| 0 <= j < k ==> v@[i + j] == t@[j],
    {
        if v[i + k] != t[k] {
            assert(v@.subrange(i as int, i + t@.len())[k as int] != t@[k as int]);
            return false;
        }
    }
    assert(v@.subrange(i as int, i + t@.len()) =~= t@);
    true
}

/// Whether `t` occurs in `s`.
pub fn contains_str(s: &str, t: &str) -> (b: bool)
    ensures
        b == contains_seq(s@, t@),
{
    let v = chars_of(s);
    let w = chars_of(t);
    if w.len() > v.len() {
        return false;
    }
    let last = v.len() - w.len();
    for i in 0..last
        invariant
            v@ == s@,
            w@ == t@,
            last + w@.len() == v@.len(),
            forall|j: int| 0 <= j < i ==> #[trigger] s@.subrange(j, j + t@.len()) != t@,
    {
        if matches_at(v.as_slice(), w.as_slice(), i) {
            return true;
        }
    }
    matches_at(v.as_slice(), w.as_slice(), last)
}

/// Whether `s` starts with `t`.
pub fn starts_with_str(s: &str, t: &str) -> (b: bool)
    ensures
        b == starts_with_seq(s@, t@),
{
    let v = chars_of(s);
    let w = chars_of(t);
    if w.len() > v.len() {
        return false;
    }
    matches_at(v.as_slice(), w.as_slice(), 0)
}

/// Whether `s` ends with `t`.
pub fn ends_with_str(s: &str, t: &str) -> (b: bool)
    ensures
        b == ends_with_seq(s@, t@),
{
    let v = chars_of(s);
    let w = chars_of(t);
    if w.len() > v.len() {
        return false;
    }
    matches_at(v.as_slice(), w.as_slice(), v.len() - w.len())
}

/// A line without its trailing carriage return.
pub open spec fn strip_cr(l: Seq<char>) -> Seq<char> {
    if l.len() > 0 && l.last() == '\r' {
        l.drop_last()
    } else {
        l
    }
}

/// The lines of a text as `str::lines` yields them: split at `\n`, a final
/// empty piece dropped, and a trailing `\r` removed from each line.
pub open spec fn lines(s: Seq<char>) -> Seq<Seq<char>> {
    let pieces = split(s, '\n');
    let kept = if pieces.last().len() == 0 {
        pieces.drop_last()
    } else {
        pieces
    };
    kept.map_values(|l: Seq<char>| strip_cr(l))
}

/// A text with no `c` in it is one piece.
pub proof fn lemma_split_single(s: Seq<char>, c: char)
    requires
        forall|i: int| 0 <= i < s.len() ==> s[i] != c,
    ensures
        split(s, c) == seq![s],
    decreases s.len(),
{
    if s.len() > 0 {
        lemma_split_single(s.drop_last(), c);
        assert(s.drop_last().push(s.last()) =~= s);
        assert(split(s, c) =~= seq![s]);
    } else {
        assert(s =~= Seq::<char>::empty());
    }
}

/// The pieces of `a + b`, where `a` is empty or ends with `c`: those of
/// `a` but its last (empty) one, then those of `b`.
pub proof fn lemma_split_append(a: Seq<char>, b: Seq<char>, c: char)
    requires
        a.len() == 0 || a.last() == c,
    ensures
        split(a, c).last().len() == 0,
        split(a + b, c) == split(a, c).drop_last() + split(b, c),
    decreases b.len(),
{
    lemma_split_nonempty(a, c);
    if a.len() > 0 {
        assert(a.drop_last() + seq![a.last()] =~= a);
    }
    if b.len() == 0 {
        assert(a + b =~= a);
        assert(split(a, c) =~= split(a, c).drop_last() + split(b, c));
    } else {
        lemma_split_append(a, b.drop_last(), c);
        lemma_split_nonempty(b.drop_last(), c);
        assert((a + b).drop_last() =~= a + b.drop_last());
        assert(split(a + b, c) =~= split(a, c).drop_last() + split(b, c));
    }
}

/// The lines of `a + b`, where `a` is empty or ends with a newline, are
/// those of `a` followed by those of `b`.
pub proof fn lemma_lines_append(a: Seq<char>, b: Seq<char>)
    requires
        a.len() == 0 || a.last() == '\n',
    ensures
        lines(a + b) == lines(a) + lines(b),
{
    lemma_split_append(a, b, '\n');
    lemma_split_nonempty(b, '\n');
    let pa = split(a, '\n');
    let pb = split(b, '\n');
    let kb = if pb.last().len() == 0 { pb.drop_last() } else { pb };
    assert((pa.drop_last() + pb).last() == pb.last());
    if pb.last().len() == 0 {
        assert((pa.drop_last() + pb).drop_last() =~= pa.drop_last() + pb.drop_last());
    }
    assert(lines(a + b) =~= lines(a) + lines(b));
}

/// Ending a text that lacks a final newline with one keeps its lines.
pub proof fn lemma_lines_newline(s: Seq<char>)
    requires
        s.len() > 0,
        s.last() != '\n',
    ensures
        lines(s.push('\n')) == lines(s),
{
    lemma_split_nonempty(s.drop_last(), '\n');
    assert(s.drop_last() + seq![s.last()] =~= s);
    assert(s.push('\n').drop_last() =~= s);
    assert(split(s.push('\n'), '\n').drop_last() =~= split(s, '\n'));
}

/// A text with no newline, ended by one, is one line.
pub proof fn lemma_lines_single(m: Seq<char>)
    requires
        forall|i: int| 0 <= i < m.len() ==> m[i] != '\n',
    ensures
        lines(m + seq!['\n']) == seq![strip_cr(m)],
{
    lemma_split_single(m, '\n');
    assert((m + seq!['\n']).drop_last() =~= m);
    assert(split(m + seq!['\n'], '\n') =~= seq![m, Seq::<char>::empty()]);
    assert(lines(m + seq!['\n']) =~= seq![strip_cr(m)]);
}

/// A text that neither starts nor ends with whitespace is its own trim.
pub proof fn lemma_trim_unchanged(s: Seq<char>)
    requires
        s.len() > 0,
        !is_ws(s[0]),
        !is_ws(s.last()),
    ensures
        trim(s) == s,
{
    assert(lead_ws(s) == 0);
    assert(s.skip(0) =~= s);
    assert(trail_ws(s) == 0);
    assert(trim(s) =~= s);
}

/// The lines of a text.
pub fn lines_of(s: &str) -> (r: Vec<Vec<char>>)
    ensures
        r@.map_values(|l: Vec<char>| l@) == lines(s@),
{
    let v = chars_of(s);
    let pieces = split_chars(v.as_slice(), '\n');
    let ghost ps = pieces@.map_values(|l: Vec<char>| l@);
    assert(ps == split(s@, '\n'));
    proof { lemma_split_nonempty(s@, '\n'); }
    let n = pieces.len();
    let keep = if pieces[n - 1].len() == 0 { n - 1 } else { n };
    let ghost kept = if ps.last().len() == 0 { ps.drop_last() } else { ps };
    let mut r: Vec<Vec<char>> = Vec::new();
    for i in 0..keep
        invariant
            ps == pieces@.map_values(|l: Vec<char>| l@),
            keep <= n,
            n == pieces@.len(),
            kept.len() == keep,
            forall|j: int| 0 <= j < keep ==> kept[j] == ps[j],
            r@.map_values(|l: Vec<char>| l@) == kept.take(i as int).map_values(|l: Seq<char>| strip_cr(l)),
    {
        let p = &pieces[i];
        let mut l: Vec<char> = Vec::new();
        let m = if p.len() > 0 && p[p.len() - 1] == '\r' { p.len() - 1 } else { p.len() };
        for k in 0..m
            invariant
                m <= p@.len(),
                l@ == p@.take(k as int),
        {
            l.push(p[k]);
            assert(l@ =~= p@.take(k + 1));
        }
        assert(l@ =~= strip_cr(p@));
        assert(kept[i as int] == p@);
        assert(kept.take(i + 1) =~= kept.take(i as int).push(kept[i as int]));
        let ghost before = r@;
        let ghost lv = l@;
        r.push(l);
        assert(r@.map_values(|l: Vec<char>| l@) =~= before.map_values(|l: Vec<char>| l@).push(lv));
        assert(kept.take(i + 1).map_values(|l: Seq<char>| strip_cr(l)) =~= kept.take(i as int).map_values(
            |l: Seq<char>| strip_cr(l),
        ).push(strip_cr(kept[i as int])));
    }
    assert(kept.take(keep as int) =~= kept);
    r
}

/// Whether two string slices hold the same characters.
pub(crate) fn str_eq(a: &str, b: &str) -> (r: bool)
    ensures
        r == (a@ == b@),
{
    let av = chars_of(a);
    let bv = chars_of(b);
    chars_eq(av.as_slice(), bv.as_slice())
}

/// Whether two character vectors are equal.
pub fn chars_eq(a: &[char], b: &[char]) -> (r: bool)
    ensures
        r == (a@ == b@),
{
    if a.len() != b.len() {
        return false;
    }
    let n = a.len();
    for i in 0..n
        invariant
            n == a@.len(),
            n == b@.len(),
            forall|j: int| 0 <= j < i ==> a@[j] == b@[j],
    {
        if a[i] != b[i] {
            return false;
        }
    }
    assert(a@ =~= b@);
    true
}

/// Whether `s` equals the string slice `t`.
pub fn chars_eq_str(s: &[char], t: &str) -> (r: bool)
    ensures
        r == (s@ == t@),
{
    let tv = chars_of(t);
    chars_eq(s, tv.as_slice())
}

/// Unicode `White_Space`, the set `char::is_whitespace` and `str::trim` use.
pub open spec fn is_ws(c: char) -> bool {
    let u = c as u32;
    ||| 0x09 <= u <= 0x0D
    ||| u == 0x20
    ||| u == 0x85
    ||| u == 0xA0
    ||| u == 0x1680
    ||| 0x2000 <= u <= 0x200A
    ||| u == 0x2028
    ||| u == 0x2029
    ||| u == 0x202F
    ||| u == 0x205F
    ||| u == 0x3000
}

/// Executable Unicode whitespace test.
pub fn is_whitespace(c: char) -> (r: bool)
    ensures
        r == is_ws(c),
{
    let u = c as u32;
    (0x09 <= u && u <= 0x0D) || u == 0x20 || u == 0x85 || u == 0xA0 || u == 0x1680 || (0x2000
        <= u && u <= 0x200A) || u == 0x2028 || u == 0x2029 || u == 0x202F || u == 0x205F || u
        == 0x3000
}

/// Number of leading whitespace characters of `s`.
pub open spec fn lead_ws(s: Seq<char>) -> nat
    decreases s.len(),
{
    if s.len() > 0 && is_ws(s[0]) {
        1 + lead_ws(s.drop_first())
    } else {
        0
    }
}

/// Number of trailing whitespace characters of `s`.
pub open spec fn trail_ws(s: Seq<char>) -> nat
    decreases s.len(),
{
    if s.len() > 0 && is_ws(s.last()) {
        1 + trail_ws(s.drop_last())
    } else {
        0
    }
}

/// `s` with leading and trailing Unicode whitespace removed, as `str::trim` does.
pub open spec fn trim(s: Seq<char>) -> Seq<char> {
    let a = lead_ws(s);
    let rest = s.skip(a as int);
    rest.take(rest.len() - trail_ws(rest))
}

proof fn lemma_lead_ws(s: Seq<char>, i: int)
    requires
        0 <= i <= s.len(),
        forall|j: int| 0 <= j < i ==> is_ws(s[j]),
        i == s.len() || !is_ws(s[i]),
    ensures
        lead_ws(s) == i,
    decreases i,
{
    if i > 0 {
        lemma_lead_ws(s.drop_first(), i - 1);
    }
}

proof fn lemma_trail_ws(s: Seq<char>, k: int)
    requires
        0 <= k <= s.len(),
        forall|j: int| s.len() - k <= j < s.len() ==> is_ws(s[j]),
        k == s.len() || !is_ws(s[s.len() - k - 1]),
    ensures
        trail_ws(s) == k,
    decreases k,
{
    if k > 0 {
        lemma_trail_ws(s.drop_last(), k - 1);
    }
}

/// The characters of `v` with leading and trailing Unicode whitespace removed.
pub fn trim_chars(v: &[char]) -> (r: Vec<char>)
    ensures
        r@ == trim(v@),
{
    let n = v.len();
    let mut i: usize = 0;
    while i < n && is_whitespace(v[i])
        invariant
            i <= n,
            n == v@.len(),
            forall|j: int| 0 <= j < i ==> is_ws(v@[j]),
        decreases n - i,
    {
        i = i + 1;
    }
    proof {
        lemma_lead_ws(v@, i as int);
    }
    let mut e: usize = n;
    while e > i && is_whitespace(v[e - 1])
        invariant
            i <= e <= n,
            n == v@.len(),
            forall|j: int| e <= j < n ==> is_ws(v@[j]),
        decreases e,
    {
        e = e - 1;
    }
    let ghost rest = v@.skip(i as int);
    proof {
        lemma_trail_ws(rest, (n - e) as int);
    }
    let mut r: Vec<char> = Vec::new();
    let mut k: usize = i;
    while k < e
        invariant
            i <= k <= e <= n,
            n == v@.len(),
            r@ == v@.subrange(i as int, k as int),
        decreases e - k,
    {
        r.push(v[k]);
        assert(v@.subrange(i as int, (k + 1) as int) == v@.subrange(i as int, k as int).push(
            v@[k as int],
        ));
        k = k + 1;
    }
    assert(r@ =~= trim(v@));
    r
}

/// The characters of `s` with leading and trailing Unicode whitespace removed.
pub fn trim_str(s: &str) -> (r: Vec<char>)
    ensures
        r@ == trim(s@),
{
    let v = chars_of(s);
    trim_chars(v.as_slice())
}


/// The pieces of `s` between occurrences of `c`, as `str::split` with a
/// character pattern yields them (an empty input yields one empty piece).
pub open spec fn split(s: Seq<char>, c: char) -> Seq<Seq<char>>
    decreases s.len(),
{
    if s.len() == 0 {
        seq![Seq::<char>::empty()]
    } else {
        let r = split(s.drop_last(), c);
        if s.last() == c {
            r.push(Seq::<char>::empty())
        } else {
            r.update(r.len() - 1, r.last().push(s.last()))
        }
    }
}

proof fn lemma_split_nonempty(s: Seq<char>, c: char)
    ensures
        split(s, c).len() >= 1,
    decreases s.len(),
{
    if s.len() > 0 {
        lemma_split_nonempty(s.drop_last(), c);
    }
}

/// Splits `v` on every occurrence of `c`.
pub fn split_chars(v: &[char], c: char) -> (r: Vec<Vec<char>>)
    ensures
        r@.len() == split(v@, c).len(),
        forall|i: int| 0 <= i < r@.len() ==> #[trigger] r@[i]@ == split(v@, c)[i],
{
    let n = v.len();
    let mut done: Vec<Vec<char>> = Vec::new();
    let mut cur: Vec<char> = Vec::new();
    for i in 0..n
        invariant
            n == v@.len(),
            done@.len() + 1 == split(v@.take(i as int), c).len(),
            forall|j: int| 0 <= j < done@.len() ==> #[trigger] done@[j]@ == split(v@.take(i as int), c)[j],
            cur@ == split(v@.take(i as int), c).last(),
    {
        let ghost pre = v@.take(i as int);
        assert(v@.take(i + 1).drop_last() == pre);
        assert(v@.take(i + 1).last() == v@[i as int]);
        proof { lemma_split_nonempty(pre, c); }
        if v[i] == c {
            done.push(cur);
            cur = Vec::new();
        } else {
            cur.push(v[i]);
        }
    }
    assert(v@.take(n as int) == v@);
    proof { lemma_split_nonempty(v@, c); }
    done.push(cur);
    done
}

/// Index of the first occurrence of `c` in `s`, if any.
pub open spec fn find_char(s: Seq<char>, c: char) -> Option<int>
    decreases s.len(),
{
    if s.len() == 0 {
        None
    } else if s[0] == c {
        Some(0)
    } else {
        match find_char(s.drop_first(), c) {
            Some(i) => Some(i + 1),
            None => None,
        }
    }
}

proof fn lemma_find_char(s: Seq<char>, c: char, i: int)
    requires
        0 <= i <= s.len(),
        forall|j: int| 0 <= j < i ==> s[j] != c,
    ensures
        i < s.len() && s[i] == c ==> find_char(s, c) == Some(i),
        i == s.len() ==> find_char(s, c) is None,
    decreases i,
{
    if i > 0 {
        lemma_find_char(s.drop_first(), c, i - 1);
    }
}

/// Index of the first occurrence of `c` in `v`.
pub fn find_char_in(v: &[char], c: char) -> (r: Option<usize>)
    ensures
        match r {
            Some(i) => find_char(v@, c) == Some(i as int),
            None => find_char(v@, c) is None,
        },
        r matches Some(i) ==> i < v@.len() && v@[i as int] == c,
        r is None ==> forall|j: int| 0 <= j < v@.len() ==> v@[j] != c,
{
    let n = v.len();
    for i in 0..n
        invariant
            n == v@.len(),
            forall|j: int| 0 <= j < i ==> v@[j] != c,
    {
        if v[i] == c {
            proof { lemma_find_char(v@, c, i as int); }
            return Some(i);
        }
    }
    proof { lemma_find_char(v@, c, n as int); }
    None
}

/// Whether `c` is an ASCII decimal digit.
pub open spec fn is_digit(c: char) -> bool {
    '0' <= c <= '9'
}

/// The value of a string of ASCII decimal digits.
pub open spec fn digits_value(s: Seq<char>) -> nat
    decreases s.len(),
{
    if s.len() == 0 {
        0
    } else {
        digits_value(s.drop_last()) * 10 + ((s.last() as u32) - 48) as nat
    }
}

/// The unsigned integer `str::parse` reads from `s` before its range check:
/// an optional `+`, then one or more ASCII digits.
pub open spec fn parse_nat(s: Seq<char>) -> Option<nat> {
    let d = unsigned_digits(s);
    if d.len() > 0 && all_digits(d) {
        Some(digits_value(d))
    } else {
        None
    }
}

/// `s` without one leading `+`, if it has one.
pub open spec fn unsigned_digits(s: Seq<char>) -> Seq<char> {
    if s.len() > 0 && s[0] == '+' {
        s.drop_first()
    } else {
        s
    }
}

/// Whether every character of `s` is an ASCII digit.
pub open spec fn all_digits(s: Seq<char>) -> bool {
    forall|i: int| 0 <= i < s.len() ==> #[trigger] is_digit(s[i])
}

/// What `str::parse` gives for an unsigned integer type whose largest value is `max`.
pub open spec fn parse_uint(s: Seq<char>, max: nat) -> Option<nat> {
    match parse_nat(s) {
        Some(n) => if n <= max { Some(n) } else { None },
        None => None,
    }
}

proof fn lemma_digits_value_mono(s: Seq<char>, i: int)
    requires
        0 <= i <= s.len(),
        forall|j: int| 0 <= j < s.len() ==> #[trigger] is_digit(s[j]),
    ensures
        digits_value(s.take(i)) <= digits_value(s),
    decreases s.len() - i,
{
    if i < s.len() {
        lemma_digits_value_mono(s, i + 1);
        assert(s.take(i + 1).drop_last() == s.take(i));
    } else {
        assert(s.take(i) == s);
    }
}

/// Reads an unsigned integer from `v` with the syntax and range rules of
/// `str::parse`, for a type whose largest value is `max`.
pub fn parse_uint_chars(v: &[char], max: u64) -> (r: Option<u64>)
    ensures
        match r {
            Some(n) => parse_uint(v@, max as nat) == Some(n as nat),
            None => parse_uint(v@, max as nat) is None,
        },
{
    let n = v.len();
    let start: usize = if n > 0 && v[0] == '+' { 1 } else { 0 };
    let ghost d = unsigned_digits(v@);
    assert(d == v@.subrange(start as int, n as int));
    if start >= n {
        return None;
    }
    let mut acc: u64 = 0;
    let mut i: usize = start;
    let mut overflow = false;
    while i < n
        invariant
            start <= i <= n,
            n == v@.len(),
            start < n,
            d == v@.subrange(start as int, n as int),
            d == unsigned_digits(v@),
            forall|j: int| start <= j < i ==> #[trigger] is_digit(v@[j]),
            !overflow ==> acc as nat == digits_value(v@.subrange(start as int, i as int)),
            !overflow ==> acc <= max,
            overflow ==> digits_value(v@.subrange(start as int, i as int)) > max,
        decreases n - i,
    {
        let c = v[i];
        if !('0' <= c && c <= '9') {
            assert(d[i - start] == c);
            assert(!is_digit(d[i - start]));
            assert(!all_digits(d));
            return None;
        }
        let dv: u64 = ((c as u32) - 48) as u64;
        let ghost pre = v@.subrange(start as int, i as int);
        assert(v@.subrange(start as int, i + 1).drop_last() == pre);
        assert(v@.subrange(start as int, i + 1).last() == c);
        if !overflow {
            if dv > max || acc > (max - dv) / 10 {
                overflow = true;
                assert(acc * 10 + dv > max) by (nonlinear_arith)
                    requires dv > max || acc > (max - dv) / 10, dv <= 9, acc >= 0;
            } else {
                assert(acc * 10 + dv <= max) by (nonlinear_arith)
                    requires acc <= (max - dv) / 10, dv <= max;
                acc = acc * 10 + dv;
            }
        } else {
            assert(digits_value(v@.subrange(start as int, i + 1)) >= digits_value(pre) * 10) by (nonlinear_arith)
                requires digits_value(v@.subrange(start as int, i + 1)) == digits_value(pre) * 10 + ((c as u32) - 48) as nat;
            assert(digits_value(pre) * 10 >= digits_value(pre)) by (nonlinear_arith);
        }
        i = i + 1;
    }
    assert forall|j: int| 0 <= j < d.len() implies #[trigger] is_digit(d[j]) by {
        assert(d[j] == v@[start + j]);
    }
    if overflow {
        None
    } else {
        Some(acc)
    }
}


/// Lexicographic order on character sequences by code point, the order of
/// `str`'s `Ord` (UTF-8 byte order and code point order agree).
pub open spec fn seq_lt(a: Seq<char>, b: Seq<char>) -> bool
    decreases a.len(),
{
    if a.len() == 0 {
        b.len() > 0
    } else if b.len() == 0 {
        false
    } else if a[0] != b[0] {
        a[0] < b[0]
    } else {
        seq_lt(a.drop_first(), b.drop_first())
    }
}

/// `seq_lt` is irreflexive.
pub proof fn lemma_seq_lt_irrefl(a: Seq<char>)
    ensures
        !seq_lt(a, a),
    decreases a.len(),
{
    if a.len() > 0 {
        lemma_seq_lt_irrefl(a.drop_first());
    }
}

/// `seq_lt` is asymmetric.
pub proof fn lemma_seq_lt_asym(a: Seq<char>, b: Seq<char>)
    ensures
        seq_lt(a, b) ==> !seq_lt(b, a),
    decreases a.len(),
{
    if a.len() > 0 && b.len() > 0 {
        lemma_seq_lt_asym(a.drop_first(), b.drop_first());
    }
}

/// `seq_lt` is transitive.
pub proof fn lemma_seq_lt_trans(a: Seq<char>, b: Seq<char>, c: Seq<char>)
    ensures
        seq_lt(a, b) && seq_lt(b, c) ==> seq_lt(a, c),
    decreases a.len(),
{
    if a.len() > 0 && b.len() > 0 && c.len() > 0 {
        lemma_seq_lt_trans(a.drop_first(), b.drop_first(), c.drop_first());
    }
}

/// Two distinct sequences are ordered one way or the other.
pub proof fn lemma_seq_lt_total(a: Seq<char>, b: Seq<char>)
    ensures
        a != b ==> seq_lt(a, b) || seq_lt(b, a),
    decreases a.len(),
{
    if a.len() > 0 && b.len() > 0 {
        lemma_seq_lt_total(a.drop_first(), b.drop_first());
        if a[0] == b[0] && a.drop_first() == b.drop_first() {
            assert(a =~= seq![a[0]] + a.drop_first());
            assert(b =~= seq![b[0]] + b.drop_first());
        }
    }
    if a.len() == 0 && b.len() == 0 {
        assert(a =~= b);
    }
}

/// Whether `a` sorts strictly before `b`.
pub fn str_lt(a: &str, b: &str) -> (r: bool)
    ensures
        r == seq_lt(a@, b@),
{
    let av = chars_of(a);
    let bv = chars_of(b);
    let n = av.len();
    let m = bv.len();
    let mut i: usize = 0;
    assert(a@.skip(0) == a@);
    assert(b@.skip(0) == b@);
    while i < n && i < m && av[i] == bv[i]
        invariant
            i <= n,
            i <= m,
            n == av@.len(),
            m == bv@.len(),
            av@ == a@,
            bv@ == b@,
            seq_lt(a@, b@) == seq_lt(a@.skip(i as int), b@.skip(i as int)),
        decreases n - i,
    {
        assert(a@.skip(i as int).drop_first() == a@.skip(i + 1));
        assert(b@.skip(i as int).drop_first() == b@.skip(i + 1));
        i = i + 1;
    }
    if i == n {
        assert(a@.skip(i as int).len() == 0);
        i < m
    } else if i == m {
        assert(b@.skip(i as int).len() == 0);
        false
    } else {
        assert(a@.skip(i as int)[0] == av@[i as int]);
        assert(b@.skip(i as int)[0] == bv@[i as int]);
        av[i] < bv[i]
    }
}


/// Lower-case hexadecimal digit for `d` below sixteen.
pub open spec fn hex_digit(d: nat) -> char {
    if d < 10 { (d + 48) as char } else { (d + 87) as char }
}

/// How `serde_json` writes one character inside a JSON string.
pub open spec fn json_escape_char(c: char) -> Seq<char> {
    if c == '"' {
        seq!['\\', '"']
    } else if c == '\\' {
        seq!['\\', '\\']
    } else if c == '\n' {
        seq!['\\', 'n']
    } else if c == '\r' {
        seq!['\\', 'r']
    } else if c == '\t' {
        seq!['\\', 't']
    } else if (c as u32) == 8 {
        seq!['\\', 'b']
    } else if (c as u32) == 12 {
        seq!['\\', 'f']
    } else if (c as u32) < 32 {
        seq!['\\', 'u', '0', '0', hex_digit(((c as u32) / 16) as nat), hex_digit(((c as u32) % 16) as nat)]
    } else {
        seq![c]
    }
}

/// The escaped body of a JSON string.
pub open spec fn json_escape(s: Seq<char>) -> Seq<char>
    decreases s.len(),
{
    if s.len() == 0 {
        Seq::empty()
    } else {
        json_escape(s.drop_last()) + json_escape_char(s.last())
    }
}

/// A JSON string literal holding `s`, as `serde_json` writes it.
pub open spec fn json_quote(s: Seq<char>) -> Seq<char> {
    seq!['"'] + json_escape(s) + seq!['"']
}

fn hex_char(d: u32) -> (c: char)
    requires
        d < 16,
    ensures
        c == hex_digit(d as nat),
{
    if d < 10 {
        ((d as u8) + 48u8) as char
    } else {
        ((d as u8) + 87u8) as char
    }
}

/// Appends the escaped form of one character.
fn push_json_char(out: &mut String, c: char)
    ensures
        final(out)@ == old(out)@ + json_escape_char(c),
{
    let u = c as u32;
    if c == '"' {
        push_char(out, '\\');
        push_char(out, '"');
    } else if c == '\\' {
        push_char(out, '\\');
        push_char(out, '\\');
    } else if c == '\n' {
        push_char(out, '\\');
        push_char(out, 'n');
    } else if c == '\r' {
        push_char(out, '\\');
        push_char(out, 'r');
    } else if c == '\t' {
        push_char(out, '\\');
        push_char(out, 't');
    } else if u == 8 {
        push_char(out, '\\');
        push_char(out, 'b');
    } else if u == 12 {
        push_char(out, '\\');
        push_char(out, 'f');
    } else if u < 32 {
        push_char(out, '\\');
        push_char(out, 'u');
        push_char(out, '0');
        push_char(out, '0');
        push_char(out, hex_char(u / 16));
        push_char(out, hex_char(u % 16));
    } else {
        push_char(out, c);
    }
    assert(final(out)@ =~= old(out)@ + json_escape_char(c));
}

/// Appends `s` as a JSON string literal.
pub fn push_json_str(out: &mut String, s: &str)
    ensures
        final(out)@ == old(out)@ + json_quote(s@),
{
    let v = chars_of(s);
    let ghost start = out@;
    push_char(out, '"');
    let n = v.len();
    for i in 0..n
        invariant
            n == v@.len(),
            v@ == s@,
            out@ == start + seq!['"'] + json_escape(s@.take(i as int)),
    {
        push_json_char(out, v[i]);
        assert(s@.take(i + 1).drop_last() == s@.take(i as int));
        assert(s@.take(i + 1).last() == v@[i as int]);
    }
    assert(s@.take(n as int) == s@);
    push_char(out, '"');
    assert(out@ =~= start + json_quote(s@));
}

/// Two lower-case hexadecimal digits for each byte, as `{:x}` prints a digest.
pub open spec fn hex_bytes(b: Seq<u8>) -> Seq<char>
    decreases b.len(),
{
    if b.len() == 0 {
        Seq::empty()
    } else {
        hex_bytes(b.drop_last()) + seq![hex_digit((b.last() / 16) as nat), hex_digit((b.last() % 16) as nat)]
    }
}

/// Appends each byte of `b` as two lower-case hexadecimal digits.
pub fn push_hex_bytes(out: &mut String, b: &[u8])
    ensures
        final(out)@ == old(out)@ + hex_bytes(b@),
{
    let ghost start = out@;
    let n = b.len();
    for i in 0..n
        invariant
            n == b@.len(),
            out@ == start + hex_bytes(b@.take(i as int)),
    {
        let x = b[i];
        push_char(out, hex_char((x / 16) as u32));
        push_char(out, hex_char((x % 16) as u32));
        assert(b@.take(i + 1).drop_last() =~= b@.take(i as int));
        assert(out@ =~= start + hex_bytes(b@.take(i + 1)));
    }
    assert(b@.take(n as int) =~= b@);
}

} // verus!
