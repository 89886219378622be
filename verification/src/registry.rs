//! Registry of custom Protobuf types. Types are registered under a
//! namespace as `<namespace>.<TypeName>`; the `wheelhouse` namespace is
//! reserved, and there are limits per namespace and in total.
//! Re-registering a type updates it without counting against the limits.
//!
//! Saving the registry to its JSON file is left to the caller.

use vstd::prelude::*;
use crate::strmap::{StrMap, key_index, lemma_insert_len, lemma_insert_sorted, lemma_key_index, lemma_map_insert_lookup,
    map_insert, sorted_keys};
use crate::text::{chars_of, dec, find_char, find_char_in, push_char, push_str, push_u64, string_of};
use vstd::string::{StrSliceExecFns, StringExecFns};

verus! {

/// The namespace that cannot be registered.
pub const RESERVED_NAMESPACE: &'static str = "wheelhouse";

/// Default per-namespace registration limit.
pub const DEFAULT_PER_NAMESPACE_LIMIT: usize = 100;

/// Default total registration limit.
pub const DEFAULT_TOTAL_LIMIT: usize = 10000;

/// Registry errors.
#[derive(Debug, Clone, PartialEq, Eq)]
pub enum RegistryError {
    ReservedNamespace(String),
    InvalidTypeName(String),
    NamespaceFull(String, usize),
    TotalLimitReached(usize),
    /// An I/O error, with its text.
    Io(String),
    /// A JSON error, with its text.
    Json(String),
}

pub open spec fn registry_error_code(e: RegistryError) -> Seq<char> {
    match e {
        RegistryError::ReservedNamespace(_) => "RESERVED_NAMESPACE"@,
        RegistryError::InvalidTypeName(_) => "INVALID_TYPE_NAME"@,
        RegistryError::NamespaceFull(_, _) => "REGISTRY_FULL"@,
        RegistryError::TotalLimitReached(_) => "REGISTRY_FULL"@,
        RegistryError::Io(_) => "IO_ERROR"@,
        RegistryError::Json(_) => "SERIALIZATION_ERROR"@,
    }
}

pub open spec fn registry_error_message(e: RegistryError) -> Seq<char> {
    match e {
        RegistryError::ReservedNamespace(n) => "RESERVED_NAMESPACE: namespace '"@ + n@
            + "' is reserved and cannot be registered"@,
        RegistryError::InvalidTypeName(n) => "INVALID_TYPE_NAME: type name '"@ + n@
            + "' must be in format '<namespace>.<TypeName>'"@,
        RegistryError::NamespaceFull(n, l) => "REGISTRY_FULL: namespace '"@ + n@ + "' has reached the per-namespace limit of "@
            + dec(l as nat) + " types"@,
        RegistryError::TotalLimitReached(l) => "REGISTRY_FULL: total registry limit of "@ + dec(l as nat) + " types reached"@,
        RegistryError::Io(m) => "IO error: "@ + m@,
        RegistryError::Json(m) => "JSON serialization error: "@ + m@,
    }
}

impl RegistryError {
    /// The SCREAMING_SNAKE_CASE code of the error.
    pub fn error_code(&self) -> (c: &'static str)
        ensures
            c@ == registry_error_code(*self),
    {
        match self {
            RegistryError::ReservedNamespace(_) => "RESERVED_NAMESPACE",
            RegistryError::InvalidTypeName(_) => "INVALID_TYPE_NAME",
            RegistryError::NamespaceFull(_, _) => "REGISTRY_FULL",
            RegistryError::TotalLimitReached(_) => "REGISTRY_FULL",
            RegistryError::Io(_) => "IO_ERROR",
            RegistryError::Json(_) => "SERIALIZATION_ERROR",
        }
    }

    /// The display text of the error.
    pub fn message(&self) -> (m: String)
        ensures
            m@ == registry_error_message(*self),
    {
        let mut out = String::new();
        match self {
            RegistryError::ReservedNamespace(n) => {
                push_str(&mut out, "RESERVED_NAMESPACE: namespace '");
                push_str(&mut out, n.as_str());
                push_str(&mut out, "' is reserved and cannot be registered");
            },
            RegistryError::InvalidTypeName(n) => {
                push_str(&mut out, "INVALID_TYPE_NAME: type name '");
                push_str(&mut out, n.as_str());
                push_str(&mut out, "' must be in format '<namespace>.<TypeName>'");
            },
            RegistryError::NamespaceFull(n, l) => {
                push_str(&mut out, "REGISTRY_FULL: namespace '");
                push_str(&mut out, n.as_str());
                push_str(&mut out, "' has reached the per-namespace limit of ");
                push_u64(&mut out, *l as u64);
                push_str(&mut out, " types");
            },
            RegistryError::TotalLimitReached(l) => {
                push_str(&mut out, "REGISTRY_FULL: total registry limit of ");
                push_u64(&mut out, *l as u64);
                push_str(&mut out, " types reached");
            },
            RegistryError::Io(m) => {
                push_str(&mut out, "IO error: ");
                push_str(&mut out, m.as_str());
            },
            RegistryError::Json(m) => {
                push_str(&mut out, "JSON serialization error: ");
                push_str(&mut out, m.as_str());
            },
        }
        assert(out@ =~= registry_error_message(*self));
        out
    }
}

/// A registered custom type.
#[derive(Debug, Clone)]
pub struct TypeEntry {
    /// Fully qualified type name: `<namespace>.<TypeName>`.
    pub qualified_name: String,
    pub namespace: String,
    pub short_name: String,
    /// Base64-encoded `FileDescriptorProto` bytes.
    pub descriptor_bytes: Option<String>,
    /// Registration time, ISO 8601.
    pub registered_at: String,
}

/// The persisted state of the registry.
#[derive(Debug, Clone)]
pub struct RegistryState {
    /// Schema version.
    pub version: u32,
    /// The registered types by fully qualified name.
    pub types: StrMap<TypeEntry>,
}

/// Registration limits.
#[derive(Debug, Clone, Copy)]
pub struct RegistryConfig {
    pub per_namespace_limit: usize,
    pub total_limit: usize,
}

impl Default for RegistryConfig {
    fn default() -> (c: Self)
        ensures
            c.per_namespace_limit == DEFAULT_PER_NAMESPACE_LIMIT,
            c.total_limit == DEFAULT_TOTAL_LIMIT,
    {
        RegistryConfig { per_namespace_limit: DEFAULT_PER_NAMESPACE_LIMIT, total_limit: DEFAULT_TOTAL_LIMIT }
    }
}

/// How a type name splits: at the first `.` into a non-empty namespace and
/// a non-empty short name without further dots, outside the reserved
/// namespace. `Err(true)` means the namespace is reserved; `Err(false)`
/// means the name is malformed.
pub open spec fn type_name_parts(t: Seq<char>) -> Result<(Seq<char>, Seq<char>), bool> {
    match find_char(t, '.') {
        None => Err(false),
        Some(i) => {
            let ns = t.take(i);
            let short = t.skip(i + 1);
            if ns.len() == 0 || short.len() == 0 || find_char(short, '.') is Some {
                Err(false)
            } else if ns == RESERVED_NAMESPACE@ {
                Err(true)
            } else {
                Ok((ns, short))
            }
        },
    }
}

/// The number of entries in namespace `ns`.
/// The entries of a namespace, in entry order.
pub open spec fn namespace_entries(e: Seq<(String, TypeEntry)>, ns: Seq<char>) -> Seq<TypeEntry>
    decreases e.len(),
{
    if e.len() == 0 {
        Seq::empty()
    } else if e.last().1.namespace@ == ns {
        namespace_entries(e.drop_last(), ns).push(e.last().1)
    } else {
        namespace_entries(e.drop_last(), ns)
    }
}

pub open spec fn namespace_count(e: Seq<(String, TypeEntry)>, ns: Seq<char>) -> nat
    decreases e.len(),
{
    if e.len() == 0 {
        0
    } else {
        namespace_count(e.drop_last(), ns) + if e.last().1.namespace@ == ns {
            1nat
        } else {
            0nat
        }
    }
}

/// What registering `name` does to a registry: a malformed name or the
/// reserved namespace is refused; a new type is refused when the registry
/// or its namespace is full; otherwise the type's entry is set (stamped
/// with the time), other entries stay, and the count grows by one for a
/// new type. A refused registration changes nothing.
pub open spec fn register_outcome(
    old: TypeRegistry,
    new: TypeRegistry,
    name: Seq<char>,
    descriptor_bytes: Option<String>,
    r: Result<TypeEntry, RegistryError>,
) -> bool {
    match type_name_parts(name) {
        Err(true) => r is Err && r->Err_0 is ReservedNamespace && new.entries() == old.entries(),
        Err(false) => r is Err && r->Err_0 is InvalidTypeName && r->Err_0->InvalidTypeName_0@ == name
            && new.entries() == old.entries(),
        Ok((ns, short)) => {
            let is_new = key_index(old.entries(), name) is None;
            if is_new && old.entries().len() >= old.limits().total_limit {
                r == Err::<TypeEntry, RegistryError>(RegistryError::TotalLimitReached(old.limits().total_limit))
                    && new.entries() == old.entries()
            } else if is_new && namespace_count(old.entries(), ns) >= old.limits().per_namespace_limit {
                r is Err && r->Err_0 is NamespaceFull && r->Err_0->NamespaceFull_0@ == ns
                    && r->Err_0->NamespaceFull_1 == old.limits().per_namespace_limit && new.entries() == old.entries()
            } else {
                &&& r is Ok
                &&& r->Ok_0.qualified_name@ == name
                &&& r->Ok_0.namespace@ == ns
                &&& r->Ok_0.short_name@ == short
                &&& r->Ok_0.descriptor_bytes == descriptor_bytes
                &&& exists|secs: u64| r->Ok_0.registered_at@ == iso_utc(secs as nat)
                &&& new.entry_of(name) == Some(r->Ok_0)
                &&& new.entries().len() == old.entries().len() + if is_new {
                    1int
                } else {
                    0int
                }
                &&& forall|t: Seq<char>| t != name ==> #[trigger] new.entry_of(t) == old.entry_of(t)
            }
        },
    }
}

/// The type registry.
#[derive(Debug)]
pub struct TypeRegistry {
    state: RegistryState,
    config: RegistryConfig,
    persistence_path: String,
}

fn slice_chars(v: &Vec<char>, lo: usize, hi: usize) -> (r: Vec<char>)
    requires
        lo <= hi <= v@.len(),
    ensures
        r@ == v@.subrange(lo as int, hi as int),
{
    let mut r: Vec<char> = Vec::new();
    for k in lo..hi
        invariant
            lo <= hi <= v@.len(),
            r@ == v@.subrange(lo as int, k as int),
    {
        r.push(v[k]);
        assert(r@ =~= v@.subrange(lo as int, k + 1));
    }
    r
}

impl TypeRegistry {
    /// The registered entries, in type name order.
    pub closed spec fn entries(&self) -> Seq<(String, TypeEntry)> {
        self.state.types.entries()
    }

    /// The limits.
    pub closed spec fn limits(&self) -> RegistryConfig {
        self.config
    }

    /// The path the registry is saved to.
    pub closed spec fn path(&self) -> Seq<char> {
        self.persistence_path@
    }

    /// The registry's own invariant: the type names ascend.
    pub closed spec fn wf(&self) -> bool {
        sorted_keys(self.state.types.entries())
    }

    /// The entry of a type, if registered.
    pub open spec fn entry_of(&self, t: Seq<char>) -> Option<TypeEntry> {
        match key_index(self.entries(), t) {
            Some(i) => Some(self.entries()[i].1),
            None => None,
        }
    }

    /// A new empty registry saved at the given path.
    pub fn new(persistence_path: String, config: RegistryConfig) -> (r: Self)
        ensures
            r.wf(),
            r.entries().len() == 0,
            r.limits() == config,
            r.path() == persistence_path@,
    {
        TypeRegistry { state: RegistryState { version: 1, types: StrMap::new() }, config, persistence_path }
    }

    /// A registry holding a loaded state; the entries keep their order.
    pub fn from_state(state: RegistryState, persistence_path: String, config: RegistryConfig) -> (r: Self)
        ensures
            r.entries() == state.types.entries(),
            r.limits() == config,
            r.path() == persistence_path@,
    {
        TypeRegistry { state, config, persistence_path }
    }

    /// The state to save.
    pub fn state(&self) -> (s: &RegistryState)
        ensures
            s.types.entries() == self.entries(),
    {
        &self.state
    }

    /// Validate a fully qualified type name and split it into namespace and
    /// short name.
    pub fn parse_type_name(qualified_name: &str) -> (r: Result<(String, String), RegistryError>)
        ensures
            match type_name_parts(qualified_name@) {
                Ok((ns, short)) => r is Ok && r->Ok_0.0@ == ns && r->Ok_0.1@ == short,
                Err(true) => r is Err && r->Err_0 is ReservedNamespace && r->Err_0->ReservedNamespace_0@
                    == RESERVED_NAMESPACE@,
                Err(false) => r is Err && r->Err_0 is InvalidTypeName && r->Err_0->InvalidTypeName_0@ == qualified_name@,
            },
    {
        let v = chars_of(qualified_name);
        let dot = match find_char_in(v.as_slice(), '.') {
            Some(d) => d,
            None => return Err(RegistryError::InvalidTypeName(String::from_str(qualified_name))),
        };
        assert(dot < v.len());
        let ns = slice_chars(&v, 0, dot);
        let short = slice_chars(&v, dot + 1, v.len());
        assert(ns@ =~= qualified_name@.take(dot as int));
        assert(short@ =~= qualified_name@.skip(dot + 1));
        if ns.len() == 0 || short.len() == 0 {
            return Err(RegistryError::InvalidTypeName(String::from_str(qualified_name)));
        }
        if find_char_in(short.as_slice(), '.').is_some() {
            return Err(RegistryError::InvalidTypeName(String::from_str(qualified_name)));
        }
        let ns_s = string_of(ns.as_slice());
        if crate::text::str_eq(ns_s.as_str(), RESERVED_NAMESPACE) {
            return Err(RegistryError::ReservedNamespace(ns_s));
        }
        Ok((ns_s, string_of(short.as_slice())))
    }

    fn count_namespace(&self, ns: &str) -> (n: usize)
        ensures
            n == namespace_count(self.entries(), ns@),
    {
        let s = self.state.types.as_slice();
        let mut n: usize = 0;
        for i in 0..s.len()
            invariant
                s@ == self.entries(),
                n == namespace_count(s@.take(i as int), ns@),
                n <= i,
        {
            assert(s@.take(i + 1).drop_last() =~= s@.take(i as int));
            if crate::text::str_eq(s[i].1.namespace.as_str(), ns) {
                n = n + 1;
            }
        }
        assert(s@.take(s@.len() as int) =~= s@);
        n
    }

    /// Register a custom type. A new type must fit in the total limit and
    /// its namespace's limit; re-registering a type replaces its entry
    /// without counting against the limits. The entry is stamped with the
    /// current time.
    pub fn register(&mut self, qualified_name: &str, descriptor_bytes: Option<String>) -> (r: Result<&TypeEntry, RegistryError>)
        requires
            old(self).wf(),
        ensures
            final(self).wf(),
            final(self).limits() == old(self).limits(),
            final(self).path() == old(self).path(),
            register_outcome(*old(self), *final(self), qualified_name@, descriptor_bytes, match r {
                Ok(e) => Ok(*e),
                Err(x) => Err(x),
            }),
    {
        let (namespace, short_name) = match Self::parse_type_name(qualified_name) {
            Ok(p) => p,
            Err(e) => return Err(e),
        };
        let is_update = self.state.types.contains_key(qualified_name);
        if !is_update {
            if self.state.types.len() >= self.config.total_limit {
                return Err(RegistryError::TotalLimitReached(self.config.total_limit));
            }
            let count = self.count_namespace(namespace.as_str());
            if count >= self.config.per_namespace_limit {
                return Err(RegistryError::NamespaceFull(namespace, self.config.per_namespace_limit));
            }
        }
        let entry = TypeEntry {
            qualified_name: String::from_str(qualified_name),
            namespace,
            short_name,
            descriptor_bytes,
            registered_at: chrono_now_iso(),
        };
        let key = String::from_str(qualified_name);
        let ghost before = self.state.types.entries();
        let ghost g = entry;
        proof {
            lemma_insert_sorted(before, key, entry);
            lemma_insert_len(before, key, entry);
            lemma_map_insert_lookup(before, key, entry, qualified_name@);
        }
        self.state.types.insert(key, entry);
        proof {
            assert forall|t: Seq<char>| t != qualified_name@ implies #[trigger] self.entry_of(t) == old(self).entry_of(t) by {
                lemma_map_insert_lookup(before, key, g, t);
            }
        }
        match self.state.types.get(qualified_name) {
            Some(e) => Ok(e),
            None => Err(RegistryError::InvalidTypeName(String::from_str(qualified_name))),
        }
    }

    /// Whether a type is registered.
    pub fn contains(&self, qualified_name: &str) -> (b: bool)
        ensures
            b == (self.entry_of(qualified_name@) is Some),
    {
        self.state.types.contains_key(qualified_name)
    }

    /// The entry of a registered type.
    pub fn get(&self, qualified_name: &str) -> (r: Option<&TypeEntry>)
        ensures
            match r {
                Some(e) => self.entry_of(qualified_name@) == Some(*e),
                None => self.entry_of(qualified_name@) is None,
            },
    {
        self.state.types.get(qualified_name)
    }

    /// All registered types, in type name order.
    pub fn list(&self) -> (l: Vec<&TypeEntry>)
        ensures
            l@.len() == self.entries().len(),
            forall|i: int| 0 <= i < l@.len() ==> *l@[i] == self.entries()[i].1,
    {
        let s = self.state.types.as_slice();
        let mut l: Vec<&TypeEntry> = Vec::new();
        for i in 0..s.len()
            invariant
                s@ == self.entries(),
                l@.len() == i,
                forall|j: int| 0 <= j < i ==> *l@[j] == s@[j].1,
        {
            l.push(&s[i].1);
        }
        l
    }

    /// The registered types of a namespace: exactly the entries whose
    /// namespace it is, each once, in type name order.
    pub fn list_by_namespace(&self, namespace: &str) -> (l: Vec<&TypeEntry>)
        ensures
            l@.len() == namespace_entries(self.entries(), namespace@).len(),
            forall|i: int| 0 <= i < l@.len() ==> *l@[i] == namespace_entries(self.entries(), namespace@)[i],
            l@.len() == namespace_count(self.entries(), namespace@),
    {
        let s = self.state.types.as_slice();
        let mut l: Vec<&TypeEntry> = Vec::new();
        for i in 0..s.len()
            invariant
                s@ == self.entries(),
                l@.len() == namespace_entries(s@.take(i as int), namespace@).len(),
                forall|j: int| 0 <= j < l@.len() ==> *l@[j] == namespace_entries(s@.take(i as int), namespace@)[j],
                l@.len() == namespace_count(s@.take(i as int), namespace@),
        {
            assert(s@.take(i + 1).drop_last() =~= s@.take(i as int));
            if crate::text::str_eq(s[i].1.namespace.as_str(), namespace) {
                l.push(&s[i].1);
            }
        }
        assert(s@.take(s@.len() as int) =~= s@);
        l
    }

    /// Number of registered types.
    pub fn len(&self) -> (n: usize)
        ensures
            n == self.entries().len(),
    {
        self.state.types.len()
    }

    /// Whether no type is registered.
    pub fn is_empty(&self) -> (b: bool)
        ensures
            b == (self.entries().len() == 0),
    {
        self.state.types.is_empty()
    }

    /// The path the registry is saved to.
    pub fn persistence_path(&self) -> (p: &str)
        ensures
            p@ == self.path(),
    {
        self.persistence_path.as_str()
    }
}


/// Whether `y` is a leap year of the Gregorian calendar.
pub open spec fn is_leap_year(y: int) -> bool {
    (y % 4 == 0 && y % 100 != 0) || y % 400 == 0
}

pub open spec fn year_days(y: int) -> int {
    if is_leap_year(y) {
        366
    } else {
        365
    }
}

/// The year and day of year `d` days after January 1 of year `y`.
pub open spec fn split_years(y: int, d: int) -> (int, int)
    decreases d,
{
    if d < year_days(y) || d < 0 {
        (y, d)
    } else {
        split_years(y + 1, d - year_days(y))
    }
}

/// The length of month `m` (0 for January).
pub open spec fn month_days(m: int, leap: bool) -> int {
    if m == 1 {
        if leap {
            29
        } else {
            28
        }
    } else if m == 3 || m == 5 || m == 8 || m == 10 {
        30
    } else {
        31
    }
}

/// The month (0 for January) and day of month (0 for the first) of day of year `d`.
pub open spec fn split_months(m: int, d: int, leap: bool) -> (int, int)
    decreases 12 - m,
{
    if m < 12 && d >= month_days(m, leap) {
        split_months(m + 1, d - month_days(m, leap), leap)
    } else {
        (m, d)
    }
}

/// `n` in decimal, padded with zeros to `w` digits.
pub open spec fn padded(n: nat, w: nat) -> Seq<char> {
    let s = dec(n);
    if s.len() < w {
        Seq::new((w - s.len()) as nat, |i: int| '0') + s
    } else {
        s
    }
}

/// The UTC time `secs` seconds after the Unix epoch as `YYYY-MM-DDTHH:MM:SSZ`.
pub open spec fn iso_utc(secs: nat) -> Seq<char> {
    let days = secs / 86400;
    let tod = secs % 86400;
    let (y, d) = split_years(1970, days as int);
    let (m, md) = split_months(0, d, is_leap_year(y));
    padded(y as nat, 4) + "-"@ + padded((m + 1) as nat, 2) + "-"@ + padded((md + 1) as nat, 2) + "T"@ + padded(
        tod / 3600,
        2,
    ) + ":"@ + padded((tod % 3600) / 60, 2) + ":"@ + padded(tod % 60, 2) + "Z"@
}

/// The ISO text of a time is never empty.
pub proof fn lemma_iso_utc_nonempty(secs: nat)
    ensures
        iso_utc(secs).len() > 0,
{
    reveal_strlit("Z");
}

fn push_padded(s: &mut String, n: u64, w: u64)
    ensures
        final(s)@ == old(s)@ + padded(n as nat, w as nat),
{
    let mut digits = String::new();
    push_u64(&mut digits, n);
    assert(digits@ =~= dec(n as nat));
    let len = digits.as_str().unicode_len();
    let ghost o = s@;
    let mut k: u64 = len as u64;
    while k < w
        invariant
            len as nat == dec(n as nat).len(),
            len <= k,
            (len < w ==> k <= w),
            (len >= w ==> k == len),
            s@ == o + Seq::new((k - len) as nat, |i: int| '0'),
        decreases w - k,
    {
        push_char(s, '0');
        assert(s@ =~= o + Seq::new((k + 1 - len) as nat, |i: int| '0'));
        k = k + 1;
    }
    push_str(s, digits.as_str());
    if (len as u64) < w {
        assert(k == w);
        assert(s@ =~= o + padded(n as nat, w as nat));
    } else {
        assert(k == len);
        assert(Seq::new((k - len) as nat, |i: int| '0') =~= Seq::<char>::empty());
        assert(s@ =~= o + padded(n as nat, w as nat));
    }
}

fn year_len(y: u64) -> (n: u64)
    ensures
        n == year_days(y as int),
{
    if (y % 4 == 0 && y % 100 != 0) || y % 400 == 0 {
        366
    } else {
        365
    }
}

fn month_len(m: u64, leap: bool) -> (n: u64)
    ensures
        n == month_days(m as int, leap),
{
    if m == 1 {
        if leap {
            29
        } else {
            28
        }
    } else if m == 3 || m == 5 || m == 8 || m == 10 {
        30
    } else {
        31
    }
}

/// Format a time in seconds since the Unix epoch as `YYYY-MM-DDTHH:MM:SSZ`
/// (UTC, proleptic Gregorian calendar, no leap seconds).
pub fn iso_from_epoch_secs(secs: u64) -> (s: String)
    ensures
        s@ == iso_utc(secs as nat),
{
    let days = secs / 86400;
    let tod = secs % 86400;
    let mut y: u64 = 1970;
    let mut rem: u64 = days;
    while rem >= year_len(y)
        invariant
            split_years(y as int, rem as int) == split_years(1970, days as int),
            1970 <= y,
            y - 1970 <= days - rem,
            rem <= days,
            days == secs / 86400,
        decreases rem,
    {
        let yd = year_len(y);
        rem = rem - yd;
        y = y + 1;
    }
    assert(split_years(1970, days as int) == (y as int, rem as int));
    let leap = (y % 4 == 0 && y % 100 != 0) || y % 400 == 0;
    let ghost d0 = rem;
    let mut m: u64 = 0;
    while m < 12 && rem >= month_len(m, leap)
        invariant
            m <= 12,
            rem <= d0,
            d0 <= days,
            days == secs / 86400,
            leap == is_leap_year(y as int),
            split_months(m as int, rem as int, leap) == split_months(0, d0 as int, leap),
        decreases 12 - m,
    {
        let md = month_len(m, leap);
        rem = rem - md;
        m = m + 1;
    }
    assert(split_months(0, d0 as int, leap) == (m as int, rem as int));
    let mut s = String::new();
    push_padded(&mut s, y, 4);
    push_str(&mut s, "-");
    push_padded(&mut s, m + 1, 2);
    push_str(&mut s, "-");
    push_padded(&mut s, rem + 1, 2);
    push_str(&mut s, "T");
    push_padded(&mut s, tod / 3600, 2);
    push_str(&mut s, ":");
    push_padded(&mut s, (tod % 3600) / 60, 2);
    push_str(&mut s, ":");
    push_padded(&mut s, tod % 60, 2);
    push_str(&mut s, "Z");
    assert(s@ =~= iso_utc(secs as nat));
    s
}

/// Reads the system clock in whole seconds since the Unix epoch (zero
/// before the epoch). The value depends on when it is called, so nothing is
/// stated of it.
#[verifier::external_body]
fn epoch_secs() -> (r: u64) {
    std::time::SystemTime::now().duration_since(std::time::UNIX_EPOCH).map(|d| d.as_secs()).unwrap_or(0)
}

/// The current UTC time as `YYYY-MM-DDTHH:MM:SSZ`.
pub fn chrono_now_iso() -> (s: String)
    ensures
        exists|secs: u64| s@ == iso_utc(secs as nat),
{
    let secs = epoch_secs();
    iso_from_epoch_secs(secs)
}

/// Registering a type makes it registered, with the entry returned, and
/// leaves every other type as it was.
pub proof fn law_register_then_contains(e: Seq<(String, TypeEntry)>, k: String, entry: TypeEntry, other: Seq<char>)
    ensures
        ({
            let r = map_insert(e, k, entry);
            &&& key_index(r, k@) matches Some(i) && r[i].1 == entry
            &&& other != k@ ==> match key_index(e, other) {
                Some(i) => key_index(r, other) matches Some(j) && r[j].1 == e[i].1,
                None => key_index(r, other) is None,
            }
        }),
{
    lemma_map_insert_lookup(e, k, entry, k@);
    lemma_map_insert_lookup(e, k, entry, other);
}

} // verus!
