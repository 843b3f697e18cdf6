//! The compacting type registry.
//!
//! A registry deduplicates type descriptors into a flat table indexed by
//! small integer handles.  The first registration of a distinct
//! descriptor appends it and hands out its index; later registrations of
//! an identical descriptor resolve to the existing handle, so handle
//! assignment order matches first-encounter order.  A registry lives for
//! one metadata-generation run and has no persistence of its own.

use vstd::prelude::*;

verus! {

/// The structural identity of a type referenced by a cell, as portable
/// metadata records it.
pub struct TypeDescriptor {
    /// The type's display path, as bytes.
    pub name: Vec<u8>,
}

impl View for TypeDescriptor {
    type V = Seq<u8>;

    open spec fn view(&self) -> Seq<u8> {
        self.name@
    }
}

impl TypeDescriptor {
    /// Creates the descriptor with the given display path.
    pub fn new(name: Vec<u8>) -> (d: TypeDescriptor)
        ensures
            d@ == name@,
    {
        TypeDescriptor { name }
    }

    /// Deep-copies the descriptor.
    pub fn duplicate(&self) -> (d: TypeDescriptor)
        ensures
            d@ == self@,
    {
        let mut name: Vec<u8> = Vec::new();
        let mut i: usize = 0;
        while i < self.name.len()
            invariant
                i <= self.name.len(),
                name@ == self.name@.take(i as int),
            decreases self.name.len() - i,
        {
            name.push(self.name[i]);
            proof {
                assert(self.name@.take(i + 1 as int) =~= self.name@.take(i as int).push(
                    self.name@[i as int],
                ));
            }
            i = i + 1;
        }
        proof {
            assert(self.name@.take(self.name@.len() as int) =~= self.name@);
        }
        TypeDescriptor { name }
    }
}

/// The models of a descriptor table.
pub open spec fn descs_view(ds: Seq<TypeDescriptor>) -> Seq<Seq<u8>>
    decreases ds,
{
    if ds.len() == 0 {
        Seq::empty()
    } else {
        seq![ds[0]@] + descs_view(ds.drop_first())
    }
}

pub proof fn lemma_descs_view_len(ds: Seq<TypeDescriptor>)
    ensures
        descs_view(ds).len() == ds.len(),
    decreases ds,
{
    if ds.len() > 0 {
        lemma_descs_view_len(ds.drop_first());
    }
}

pub proof fn lemma_descs_view_index(ds: Seq<TypeDescriptor>, i: int)
    requires
        0 <= i < ds.len(),
    ensures
        descs_view(ds).len() == ds.len(),
        descs_view(ds)[i] == ds[i]@,
    decreases ds,
{
    lemma_descs_view_len(ds);
    if i > 0 {
        lemma_descs_view_index(ds.drop_first(), i - 1);
    }
}

/// The handle of the first occurrence of `d` in the table, or `-1` when
/// the table does not hold it.
pub open spec fn spec_find(regs: Seq<Seq<u8>>, d: Seq<u8>) -> int
    decreases regs,
{
    if regs.len() == 0 {
        -1
    } else if regs[0] == d {
        0
    } else {
        let r = spec_find(regs.drop_first(), d);
        if r < 0 {
            -1
        } else {
            r + 1
        }
    }
}

/// What registering `d` makes of the table, and the handle it yields:
/// an existing first occurrence wins, else `d` is appended and its index
/// is the handle.
pub open spec fn spec_register(regs: Seq<Seq<u8>>, d: Seq<u8>) -> (Seq<Seq<u8>>, int) {
    let f = spec_find(regs, d);
    if f >= 0 {
        (regs, f)
    } else {
        (regs.push(d), regs.len() as int)
    }
}

/// Where the search lands: at the first occurrence of `d`, and nowhere
/// when `d` is absent.
pub proof fn lemma_find_characterization(regs: Seq<Seq<u8>>, d: Seq<u8>)
    ensures
        spec_find(regs, d) >= 0 ==> {
            &&& spec_find(regs, d) < regs.len()
            &&& regs[spec_find(regs, d)] == d
            &&& forall|j: int| 0 <= j < spec_find(regs, d) ==> regs[j] != d
        },
        spec_find(regs, d) < 0 ==> forall|j: int| 0 <= j < regs.len() ==> regs[j] != d,
    decreases regs,
{
    if regs.len() > 0 && regs[0] != d {
        lemma_find_characterization(regs.drop_first(), d);
        let f = spec_find(regs, d);
        if f >= 0 {
            assert(regs[f] == regs.drop_first()[f - 1]);
            assert forall|j: int| 0 <= j < f implies regs[j] != d by {
                if j > 0 {
                    assert(regs[j] == regs.drop_first()[j - 1]);
                }
            }
        } else {
            assert forall|j: int| 0 <= j < regs.len() implies regs[j] != d by {
                if j > 0 {
                    assert(regs[j] == regs.drop_first()[j - 1]);
                }
            }
        }
    }
}

/// The search finds a first occurrence where one exists.
pub proof fn lemma_find_at(regs: Seq<Seq<u8>>, d: Seq<u8>, i: int)
    requires
        0 <= i < regs.len(),
        regs[i] == d,
        forall|j: int| 0 <= j < i ==> regs[j] != d,
    ensures
        spec_find(regs, d) == i,
    decreases regs,
{
    if i > 0 {
        lemma_find_at(regs.drop_first(), d, i - 1);
    }
}

/// A mapping from descriptor identity to handle, insertion order
/// preserved.
pub struct Registry {
    types: Vec<TypeDescriptor>,
}

impl View for Registry {
    type V = Seq<Seq<u8>>;

    closed spec fn view(&self) -> Seq<Seq<u8>> {
        descs_view(self.types@)
    }
}

impl Registry {
    /// Creates an empty registry.
    pub fn new() -> (r: Registry)
        ensures
            r@ == Seq::<Seq<u8>>::empty(),
    {
        let r = Registry { types: Vec::new() };
        proof {
            assert(r@ =~= Seq::<Seq<u8>>::empty());
        }
        r
    }

    /// Number of registered descriptors.
    pub fn len(&self) -> (n: usize)
        ensures
            n == self@.len(),
    {
        proof {
            lemma_descs_view_len(self.types@);
        }
        self.types.len()
    }

    /// The descriptor behind a handle.
    pub fn get(&self, handle: usize) -> (d: &TypeDescriptor)
        requires
            handle < self@.len(),
        ensures
            d@ == self@[handle as int],
    {
        proof {
            lemma_descs_view_len(self.types@);
            lemma_descs_view_index(self.types@, handle as int);
        }
        &self.types[handle]
    }

    /// Registers `d`, handing back the handle of its first registration.
    pub fn register(&mut self, d: TypeDescriptor) -> (h: usize)
        ensures
            final(self)@ == spec_register(old(self)@, d@).0,
            h as int == spec_register(old(self)@, d@).1,
            final(self)@.len() <= old(self)@.len() + 1,
    {
        proof {
            lemma_descs_view_len(self.types@);
        }
        let mut i: usize = 0;
        let n = self.types.len();
        while i < n
            invariant
                n == self.types@.len(),
                i <= n,
                forall|j: int| 0 <= j < i ==> descs_view(self.types@)[j] != d@,
            decreases n - i,
        {
            proof {
                lemma_descs_view_index(self.types@, i as int);
            }
            if bytes_eq(&self.types[i].name, &d.name) {
                proof {
                    lemma_find_at(descs_view(self.types@), d@, i as int);
                }
                return i;
            }
            i = i + 1;
        }
        proof {
            lemma_find_characterization(descs_view(self.types@), d@);
            lemma_descs_view_len(self.types@);
            if spec_find(descs_view(self.types@), d@) >= 0 {
                assert(false);
            }
        }
        let h = self.types.len();
        self.types.push(d);
        proof {
            assert(self.types@.drop_last() =~= old(self).types@);
            lemma_descs_view_push(old(self).types@, d);
        }
        h
    }
}

/// Appending a descriptor appends its model.
proof fn lemma_descs_view_push(ds: Seq<TypeDescriptor>, d: TypeDescriptor)
    ensures
        descs_view(ds.push(d)) == descs_view(ds).push(d@),
    decreases ds,
{
    if ds.len() == 0 {
        assert(ds.push(d)[0] == d);
        assert(ds.push(d).drop_first() =~= Seq::<TypeDescriptor>::empty());
        assert(descs_view(ds) == Seq::<Seq<u8>>::empty());
        assert(descs_view(ds.push(d)) == seq![d@] + descs_view(ds.push(d).drop_first()));
        assert(descs_view(ds.push(d).drop_first()) == Seq::<Seq<u8>>::empty());
        assert(descs_view(ds.push(d)) =~~= descs_view(ds).push(d@));
    } else {
        assert(ds.push(d)[0] == ds[0]);
        assert(ds.push(d).drop_first() =~= ds.drop_first().push(d));
        lemma_descs_view_push(ds.drop_first(), d);
        lemma_descs_view_len(ds);
        lemma_descs_view_len(ds.drop_first());
        lemma_descs_view_len(ds.push(d));
        assert(descs_view(ds.push(d)) == seq![ds.push(d)[0]@] + descs_view(
            ds.push(d).drop_first(),
        ));
        assert(descs_view(ds.push(d).drop_first()) == descs_view(ds.drop_first().push(d)));
        assert(descs_view(ds.push(d)) == seq![ds[0]@] + descs_view(ds.drop_first()).push(d@));
        assert(descs_view(ds) == seq![ds[0]@] + descs_view(ds.drop_first()));
        assert(descs_view(ds.push(d)) =~~= descs_view(ds).push(d@));
    }
}

/// Compares two byte strings.
pub fn bytes_eq(a: &Vec<u8>, b: &Vec<u8>) -> (r: bool)
    ensures
        r == (a@ == b@),
{
    if a.len() != b.len() {
        proof {
            assert(a@ != b@);
        }
        return false;
    }
    let mut i: usize = 0;
    while i < a.len()
        invariant
            i <= a.len(),
            a.len() == b.len(),
            forall|j: int| 0 <= j < i ==> a@[j] == b@[j],
        decreases a.len() - i,
    {
        if a[i] != b[i] {
            return false;
        }
        i = i + 1;
    }
    proof {
        assert(a@ =~= b@);
    }
    true
}

/// Registering the same descriptor twice yields the same handle and
/// leaves the table unchanged the second time.
pub proof fn lemma_register_deterministic(regs: Seq<Seq<u8>>, d: Seq<u8>)
    ensures
        spec_register(spec_register(regs, d).0, d).0 == spec_register(regs, d).0,
        spec_register(spec_register(regs, d).0, d).1 == spec_register(regs, d).1,
{
    let f = spec_find(regs, d);
    lemma_find_characterization(regs, d);
    if f < 0 {
        lemma_find_at(regs.push(d), d, regs.len() as int);
    }
}

/// Registering two structurally distinct descriptors yields distinct
/// handles.
pub proof fn lemma_register_distinct(regs: Seq<Seq<u8>>, d1: Seq<u8>, d2: Seq<u8>)
    requires
        d1 != d2,
    ensures
        ({
            let (r1, h1) = spec_register(regs, d1);
            let (_, h2) = spec_register(r1, d2);
            h1 != h2
        }),
{
    let (r1, h1) = spec_register(regs, d1);
    let (_, h2) = spec_register(r1, d2);
    lemma_find_characterization(regs, d1);
    lemma_find_characterization(r1, d2);
    assert(r1[h1] == d1);
    if h1 == h2 {
        assert(r1[h2] == d2);
    }
}

/// Handle assignment order matches first-encounter order: a descriptor
/// the table does not yet hold is appended at the end, so its handle is
/// the table's size at first encounter.
pub proof fn lemma_register_first_encounter(regs: Seq<Seq<u8>>, d: Seq<u8>)
    requires
        forall|j: int| 0 <= j < regs.len() ==> regs[j] != d,
    ensures
        spec_register(regs, d).0 == regs.push(d),
        spec_register(regs, d).1 == regs.len(),
{
    lemma_find_characterization(regs, d);
    if spec_find(regs, d) >= 0 {
        assert(regs[spec_find(regs, d)] == d);
    }
}

} // verus!
