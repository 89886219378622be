//! The canonical order of a topology's components: the fields compared one
//! after the other in declaration order, strings by their characters,
//! numbers by value, `false` before `true`, `None` before `Some`, and lists
//! and maps element by element, a list that is a prefix of another first.

use vstd::prelude::*;
use crate::deploy::{Agent, SkillRefConfig, Stream, Surface, SurfaceChatConfig, SurfaceThreadConfig, VolumeMount};
use crate::strmap::StrMap;
use crate::text::{lemma_seq_lt_asym, seq_lt, str_lt};

verus! {

/// An order on values given as -1 (before), 0 (level) or 1 (after).
pub trait CanonicalOrder: Sized {
    /// How `self` orders against `other`.
    spec fn order(&self, other: &Self) -> int;

    /// Compare two values.
    fn order_exec(&self, other: &Self) -> (c: i8)
        ensures
            c == self.order(other),
    ;

    /// The order is -1, 0 or 1, and swapping the values flips it.
    proof fn order_antisym(a: Self, b: Self)
        ensures
            -1 <= a.order(&b) <= 1,
            a.order(&b) == -b.order(&a),
    ;
}

/// The first of two comparisons that is not level.
pub open spec fn lex(first: int, rest: int) -> int {
    if first != 0 {
        first
    } else {
        rest
    }
}

/// Character sequences in lexicographic order by code point.
pub open spec fn chars_order(a: Seq<char>, b: Seq<char>) -> int {
    if seq_lt(a, b) {
        -1
    } else if seq_lt(b, a) {
        1
    } else {
        0
    }
}

impl CanonicalOrder for String {
    open spec fn order(&self, other: &Self) -> int {
        chars_order(self@, other@)
    }

    fn order_exec(&self, other: &Self) -> (c: i8) {
        if str_lt(self.as_str(), other.as_str()) {
            -1
        } else if str_lt(other.as_str(), self.as_str()) {
            1
        } else {
            0
        }
    }

    proof fn order_antisym(a: Self, b: Self) {
        lemma_seq_lt_asym(a@, b@);
    }
}

impl CanonicalOrder for u32 {
    open spec fn order(&self, other: &Self) -> int {
        if *self < *other {
            -1
        } else if *self > *other {
            1
        } else {
            0
        }
    }

    fn order_exec(&self, other: &Self) -> (c: i8) {
        if *self < *other {
            -1
        } else if *self > *other {
            1
        } else {
            0
        }
    }

    proof fn order_antisym(a: Self, b: Self) {
    }
}

impl CanonicalOrder for bool {
    open spec fn order(&self, other: &Self) -> int {
        if !*self && *other {
            -1
        } else if *self && !*other {
            1
        } else {
            0
        }
    }

    fn order_exec(&self, other: &Self) -> (c: i8) {
        if !*self && *other {
            -1
        } else if *self && !*other {
            1
        } else {
            0
        }
    }

    proof fn order_antisym(a: Self, b: Self) {
    }
}

impl<T: CanonicalOrder> CanonicalOrder for Option<T> {
    open spec fn order(&self, other: &Self) -> int {
        match (self, other) {
            (None, None) => 0,
            (None, Some(_)) => -1,
            (Some(_), None) => 1,
            (Some(a), Some(b)) => a.order(b),
        }
    }

    fn order_exec(&self, other: &Self) -> (c: i8) {
        match (self, other) {
            (None, None) => 0,
            (None, Some(_)) => -1,
            (Some(_), None) => 1,
            (Some(a), Some(b)) => a.order_exec(b),
        }
    }

    proof fn order_antisym(a: Self, b: Self) {
        if a is Some && b is Some {
            T::order_antisym(a->0, b->0);
        }
    }
}

impl<A: CanonicalOrder, B: CanonicalOrder> CanonicalOrder for (A, B) {
    open spec fn order(&self, other: &Self) -> int {
        lex(self.0.order(&other.0), self.1.order(&other.1))
    }

    fn order_exec(&self, other: &Self) -> (c: i8) {
        let c = self.0.order_exec(&other.0);
        if c != 0 {
            return c;
        }
        self.1.order_exec(&other.1)
    }

    proof fn order_antisym(a: Self, b: Self) {
        A::order_antisym(a.0, b.0);
        B::order_antisym(a.1, b.1);
    }
}

/// Sequences element by element; a proper prefix comes first.
pub open spec fn seq_order<T: CanonicalOrder>(a: Seq<T>, b: Seq<T>) -> int
    decreases a.len(),
{
    if a.len() == 0 {
        if b.len() == 0 {
            0
        } else {
            -1
        }
    } else if b.len() == 0 {
        1
    } else {
        lex(a[0].order(&b[0]), seq_order(a.drop_first(), b.drop_first()))
    }
}

/// The sequence order is -1, 0 or 1, and swapping flips it.
pub proof fn lemma_seq_order_antisym<T: CanonicalOrder>(a: Seq<T>, b: Seq<T>)
    ensures
        -1 <= seq_order(a, b) <= 1,
        seq_order(a, b) == -seq_order(b, a),
    decreases a.len(),
{
    if a.len() > 0 && b.len() > 0 {
        T::order_antisym(a[0], b[0]);
        lemma_seq_order_antisym(a.drop_first(), b.drop_first());
    }
}

/// Compare two slices element by element.
pub fn slice_order<T: CanonicalOrder>(a: &[T], b: &[T]) -> (c: i8)
    ensures
        c == seq_order(a@, b@),
{
    let mut i: usize = 0;
    assert(a@.skip(0) =~= a@);
    assert(b@.skip(0) =~= b@);
    while i < a.len() && i < b.len()
        invariant
            i <= a.len(),
            i <= b.len(),
            seq_order(a@, b@) == seq_order(a@.skip(i as int), b@.skip(i as int)),
        decreases a.len() - i,
    {
        assert(a@.skip(i as int).drop_first() =~= a@.skip(i + 1));
        assert(b@.skip(i as int).drop_first() =~= b@.skip(i + 1));
        assert(a@.skip(i as int)[0] == a@[i as int]);
        assert(b@.skip(i as int)[0] == b@[i as int]);
        let c = a[i].order_exec(&b[i]);
        if c != 0 {
            return c;
        }
        i = i + 1;
    }
    if i == a.len() && i == b.len() {
        0
    } else if i == a.len() {
        -1
    } else {
        1
    }
}

impl<T: CanonicalOrder> CanonicalOrder for Vec<T> {
    open spec fn order(&self, other: &Self) -> int {
        seq_order(self@, other@)
    }

    fn order_exec(&self, other: &Self) -> (c: i8) {
        slice_order(self.as_slice(), other.as_slice())
    }

    proof fn order_antisym(a: Self, b: Self) {
        lemma_seq_order_antisym(a@, b@);
    }
}

impl<V: CanonicalOrder> CanonicalOrder for StrMap<V> {
    /// A map orders by its entries in key order, as a sorted map does.
    open spec fn order(&self, other: &Self) -> int {
        seq_order(self.entries(), other.entries())
    }

    fn order_exec(&self, other: &Self) -> (c: i8) {
        slice_order(self.as_slice(), other.as_slice())
    }

    proof fn order_antisym(a: Self, b: Self) {
        lemma_seq_order_antisym(a.entries(), b.entries());
    }
}

impl CanonicalOrder for SkillRefConfig {
    open spec fn order(&self, other: &Self) -> int {
        lex(self.name.order(&other.name), self.version.order(&other.version))
    }

    fn order_exec(&self, other: &Self) -> (c: i8) {
        let c = self.name.order_exec(&other.name);
        if c != 0 {
            return c;
        }
        self.version.order_exec(&other.version)
    }

    proof fn order_antisym(a: Self, b: Self) {
        String::order_antisym(a.name, b.name);
        String::order_antisym(a.version, b.version);
    }
}

impl CanonicalOrder for VolumeMount {
    open spec fn order(&self, other: &Self) -> int {
        lex(self.name.order(&other.name), lex(self.mount.order(&other.mount), self.mount_mode.order(&other.mount_mode)))
    }

    fn order_exec(&self, other: &Self) -> (c: i8) {
        let c = self.name.order_exec(&other.name);
        if c != 0 {
            return c;
        }
        let c = self.mount.order_exec(&other.mount);
        if c != 0 {
            return c;
        }
        self.mount_mode.order_exec(&other.mount_mode)
    }

    proof fn order_antisym(a: Self, b: Self) {
        String::order_antisym(a.name, b.name);
        String::order_antisym(a.mount, b.mount);
        Option::<String>::order_antisym(a.mount_mode, b.mount_mode);
    }
}

impl CanonicalOrder for SurfaceThreadConfig {
    open spec fn order(&self, other: &Self) -> int {
        lex(self.id.order(&other.id), self.stream.order(&other.stream))
    }

    fn order_exec(&self, other: &Self) -> (c: i8) {
        let c = self.id.order_exec(&other.id);
        if c != 0 {
            return c;
        }
        self.stream.order_exec(&other.stream)
    }

    proof fn order_antisym(a: Self, b: Self) {
        String::order_antisym(a.id, b.id);
        String::order_antisym(a.stream, b.stream);
    }
}

impl CanonicalOrder for SurfaceChatConfig {
    open spec fn order(&self, other: &Self) -> int {
        lex(self.id.order(&other.id), lex(self.stream.order(&other.stream), self.threads.order(&other.threads)))
    }

    fn order_exec(&self, other: &Self) -> (c: i8) {
        let c = self.id.order_exec(&other.id);
        if c != 0 {
            return c;
        }
        let c = self.stream.order_exec(&other.stream);
        if c != 0 {
            return c;
        }
        self.threads.order_exec(&other.threads)
    }

    proof fn order_antisym(a: Self, b: Self) {
        String::order_antisym(a.id, b.id);
        Option::<String>::order_antisym(a.stream, b.stream);
        Option::<Vec<SurfaceThreadConfig>>::order_antisym(a.threads, b.threads);
    }
}

impl CanonicalOrder for Agent {
    /// Name, image, replicas, streams, persona, skills, topology edit,
    /// volumes, environment.
    open spec fn order(&self, other: &Self) -> int {
        lex(
            self.name.order(&other.name),
            lex(
                self.image.order(&other.image),
                lex(
                    self.replicas.order(&other.replicas),
                    lex(
                        self.streams.order(&other.streams),
                        lex(
                            self.persona.order(&other.persona),
                            lex(
                                self.skills.order(&other.skills),
                                lex(
                                    self.topology_edit.order(&other.topology_edit),
                                    lex(self.volumes.order(&other.volumes), self.env.order(&other.env)),
                                ),
                            ),
                        ),
                    ),
                ),
            ),
        )
    }

    fn order_exec(&self, other: &Self) -> (c: i8) {
        let c = self.name.order_exec(&other.name);
        if c != 0 {
            return c;
        }
        let c = self.image.order_exec(&other.image);
        if c != 0 {
            return c;
        }
        let c = self.replicas.order_exec(&other.replicas);
        if c != 0 {
            return c;
        }
        let c = self.streams.order_exec(&other.streams);
        if c != 0 {
            return c;
        }
        let c = self.persona.order_exec(&other.persona);
        if c != 0 {
            return c;
        }
        let c = self.skills.order_exec(&other.skills);
        if c != 0 {
            return c;
        }
        let c = self.topology_edit.order_exec(&other.topology_edit);
        if c != 0 {
            return c;
        }
        let c = self.volumes.order_exec(&other.volumes);
        if c != 0 {
            return c;
        }
        self.env.order_exec(&other.env)
    }

    proof fn order_antisym(a: Self, b: Self) {
        String::order_antisym(a.name, b.name);
        String::order_antisym(a.image, b.image);
        u32::order_antisym(a.replicas, b.replicas);
        Vec::<String>::order_antisym(a.streams, b.streams);
        Option::<String>::order_antisym(a.persona, b.persona);
        Option::<Vec<SkillRefConfig>>::order_antisym(a.skills, b.skills);
        Option::<bool>::order_antisym(a.topology_edit, b.topology_edit);
        Vec::<VolumeMount>::order_antisym(a.volumes, b.volumes);
        Option::<StrMap<String>>::order_antisym(a.env, b.env);
    }
}

impl CanonicalOrder for Stream {
    /// Name, retention, description.
    open spec fn order(&self, other: &Self) -> int {
        lex(
            self.name.order(&other.name),
            lex(self.retention.order(&other.retention), self.description.order(&other.description)),
        )
    }

    fn order_exec(&self, other: &Self) -> (c: i8) {
        let c = self.name.order_exec(&other.name);
        if c != 0 {
            return c;
        }
        let c = self.retention.order_exec(&other.retention);
        if c != 0 {
            return c;
        }
        self.description.order_exec(&other.description)
    }

    proof fn order_antisym(a: Self, b: Self) {
        String::order_antisym(a.name, b.name);
        Option::<String>::order_antisym(a.retention, b.retention);
        Option::<String>::order_antisym(a.description, b.description);
    }
}

impl CanonicalOrder for Surface {
    /// Name, kind, stream, environment, chats.
    open spec fn order(&self, other: &Self) -> int {
        lex(
            self.name.order(&other.name),
            lex(
                self.kind.order(&other.kind),
                lex(self.stream.order(&other.stream), lex(self.env.order(&other.env), self.chats.order(&other.chats))),
            ),
        )
    }

    fn order_exec(&self, other: &Self) -> (c: i8) {
        let c = self.name.order_exec(&other.name);
        if c != 0 {
            return c;
        }
        let c = self.kind.order_exec(&other.kind);
        if c != 0 {
            return c;
        }
        let c = self.stream.order_exec(&other.stream);
        if c != 0 {
            return c;
        }
        let c = self.env.order_exec(&other.env);
        if c != 0 {
            return c;
        }
        self.chats.order_exec(&other.chats)
    }

    proof fn order_antisym(a: Self, b: Self) {
        String::order_antisym(a.name, b.name);
        String::order_antisym(a.kind, b.kind);
        String::order_antisym(a.stream, b.stream);
        Option::<StrMap<String>>::order_antisym(a.env, b.env);
        Option::<Vec<SurfaceChatConfig>>::order_antisym(a.chats, b.chats);
    }
}

} // verus!
