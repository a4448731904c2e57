//! Declaring a batch of named value markers: each binding gives a name, a
//! visibility, an unsigned integer type and a literal. A batch is accepted
//! when every literal fits its type and no name is used twice; each declared
//! marker then conveys exactly its own literal.
use vstd::prelude::*;

verus! {

/// Whether a declared marker is seen beyond the scope that declares it.
#[derive(PartialEq, Eq, Structural, Clone, Copy, Debug)]
pub enum Visibility {
    Local,
    Exported,
}

/// The type that a binding's literal is given.
#[derive(PartialEq, Eq, Structural, Clone, Copy, Debug)]
pub enum ValueType {
    U8,
    U16,
    U32,
    U64,
}

/// One binding of a batch: `visibility name: ty = value;`.
pub struct TypeBinding {
    pub visibility: Visibility,
    pub name: String,
    pub ty: ValueType,
    pub value: u64,
}

/// A declared marker: a name with its visibility, and the literal that its
/// accessor returns at its type.
pub struct DeclaredType {
    pub visibility: Visibility,
    pub name: String,
    pub ty: ValueType,
    pub value: u64,
}

/// Why a batch was refused; `index` is the position of the binding at fault.
#[derive(PartialEq, Eq, Structural, Clone, Copy, Debug)]
pub enum DeclareError {
    /// The literal does not fit the binding's type.
    LiteralOutOfRange { index: usize },
    /// The name was already declared by an earlier binding of the batch.
    DuplicateName { index: usize },
}

/// The largest value of a type.
pub open spec fn max_of(ty: ValueType) -> int {
    match ty {
        ValueType::U8 => 0xff,
        ValueType::U16 => 0xffff,
        ValueType::U32 => 0xffff_ffff,
        ValueType::U64 => 0xffff_ffff_ffff_ffff,
    }
}

/// Whether the literal of `b` can be given its type.
pub open spec fn fits(b: TypeBinding) -> bool {
    b.value <= max_of(b.ty)
}

/// Whether the `i`th binding's name is also the name of an earlier binding.
pub open spec fn name_taken(bindings: Seq<TypeBinding>, i: int) -> bool {
    exists|j: int| 0 <= j < i && #[trigger] bindings[j].name@ == bindings[i].name@
}

/// What is wrong with the `i`th binding, if anything.
pub open spec fn fault_at(bindings: Seq<TypeBinding>, i: int) -> Option<DeclareError> {
    if !fits(bindings[i]) {
        Some(DeclareError::LiteralOutOfRange { index: i as usize })
    } else if name_taken(bindings, i) {
        Some(DeclareError::DuplicateName { index: i as usize })
    } else {
        None
    }
}

/// Whether the first `n` bindings are free of faults.
pub open spec fn sound_prefix(bindings: Seq<TypeBinding>, n: int) -> bool {
    forall|i: int| 0 <= i < n ==> #[trigger] fault_at(bindings, i).is_none()
}

/// Whether a whole batch is free of faults.
pub open spec fn sound(bindings: Seq<TypeBinding>) -> bool {
    sound_prefix(bindings, bindings.len() as int)
}

/// The marker that a binding declares.
pub open spec fn declared_from(b: TypeBinding, d: DeclaredType) -> bool {
    &&& d.visibility == b.visibility
    &&& d.name@ == b.name@
    &&& d.ty == b.ty
    &&& d.value == b.value
}

impl DeclaredType {
    /// The value that the marker's accessor returns.
    pub fn get(&self) -> (r: u64)
        ensures
            r == self.value,
    {
        self.value
    }

    /// Whether the marker is seen beyond its scope.
    pub fn is_exported(&self) -> (r: bool)
        ensures
            r == (self.visibility == Visibility::Exported),
    {
        self.visibility == Visibility::Exported
    }
}

/// The largest value of a type.
pub fn max_value(ty: ValueType) -> (r: u64)
    ensures
        r == max_of(ty),
{
    match ty {
        ValueType::U8 => 0xff,
        ValueType::U16 => 0xffff,
        ValueType::U32 => 0xffff_ffff,
        ValueType::U64 => 0xffff_ffff_ffff_ffff,
    }
}

/// Declares a batch of bindings, in order. The batch is refused at its first
/// faulty binding: a literal that does not fit comes before a repeated name.
/// Otherwise one marker is declared per binding, at the same position, and
/// each depends on its own binding alone.
pub fn declare(bindings: &Vec<TypeBinding>) -> (r: Result<Vec<DeclaredType>, DeclareError>)
    ensures
        match r {
            Ok(d) => {
                &&& sound(bindings@)
                &&& d@.len() == bindings@.len()
                &&& forall|i: int| 0 <= i < d@.len() ==> declared_from(bindings@[i], #[trigger] d@[i])
            },
            Err(e) => exists|i: int|
                0 <= i < bindings@.len() && sound_prefix(bindings@, i) && #[trigger] fault_at(bindings@, i) == Some(e),
        },
{
    let mut out: Vec<DeclaredType> = Vec::new();
    let mut i: usize = 0;
    while i < bindings.len()
        invariant
            i <= bindings@.len(),
            sound_prefix(bindings@, i as int),
            out@.len() == i,
            forall|k: int| 0 <= k < i ==> declared_from(bindings@[k], #[trigger] out@[k]),
        decreases bindings@.len() - i,
    {
        let b = &bindings[i];
        if b.value > max_value(b.ty) {
            assert(fault_at(bindings@, i as int) == Some(DeclareError::LiteralOutOfRange { index: i }));
            return Err(DeclareError::LiteralOutOfRange { index: i });
        }
        let mut j: usize = 0;
        while j < i
            invariant
                j <= i < bindings@.len(),
                b == bindings@[i as int],
                fits(bindings@[i as int]),
                sound_prefix(bindings@, i as int),
                out@.len() == i,
                forall|k: int| 0 <= k < i ==> declared_from(bindings@[k], #[trigger] out@[k]),
                forall|k: int| 0 <= k < j ==> bindings@[k].name@ != b.name@,
            decreases i - j,
        {
            if bindings[j].name == b.name {
                assert(name_taken(bindings@, i as int));
                assert(fault_at(bindings@, i as int) == Some(DeclareError::DuplicateName { index: i }));
                return Err(DeclareError::DuplicateName { index: i });
            }
            j = j + 1;
        }
        assert(fault_at(bindings@, i as int).is_none());
        out.push(DeclaredType { visibility: b.visibility, name: b.name.clone(), ty: b.ty, value: b.value });
        i = i + 1;
    }
    Ok(out)
}

/// A batch has at most one first fault, so declaring the same batch twice
/// gives the same error, just as it gives the same markers when it is sound.
pub proof fn lemma_first_fault_unique(bindings: Seq<TypeBinding>, i: int, k: int)
    requires
        0 <= i < bindings.len(),
        0 <= k < bindings.len(),
        sound_prefix(bindings, i),
        sound_prefix(bindings, k),
        fault_at(bindings, i).is_some(),
        fault_at(bindings, k).is_some(),
    ensures
        i == k,
        fault_at(bindings, i) == fault_at(bindings, k),
{
    if i < k {
        assert(fault_at(bindings, i).is_none());
    } else if k < i {
        assert(fault_at(bindings, k).is_none());
    }
}

/// An empty batch is sound: it is accepted and declares nothing.
pub proof fn lemma_empty_batch()
    ensures
        sound(Seq::<TypeBinding>::empty()),
{
}

/// Declaration order does not matter: a reordering of a sound batch is sound
/// too, so each binding declares the same marker in either order. `perm`
/// maps each position of `reordered` to the position in `bindings` that it
/// was taken from.
pub proof fn lemma_reorder_sound(
    bindings: Seq<TypeBinding>,
    reordered: Seq<TypeBinding>,
    perm: Seq<int>,
)
    requires
        sound(bindings),
        reordered.len() == bindings.len(),
        perm.len() == bindings.len(),
        forall|i: int| 0 <= i < perm.len() ==> 0 <= #[trigger] perm[i] < bindings.len(),
        forall|i: int, j: int| 0 <= i < j < perm.len() ==> perm[i] != perm[j],
        forall|i: int| 0 <= i < reordered.len() ==> #[trigger] reordered[i] == bindings[perm[i]],
    ensures
        sound(reordered),
{
    assert forall|i: int| 0 <= i < reordered.len() implies #[trigger] fault_at(reordered, i).is_none() by {
        assert(fault_at(bindings, perm[i]).is_none());
        assert(reordered[i] == bindings[perm[i]]);
        if name_taken(reordered, i) {
            let j = choose|j: int| 0 <= j < i && #[trigger] reordered[j].name@ == reordered[i].name@;
            assert(reordered[j] == bindings[perm[j]]);
            assert(perm[i] != perm[j]);
            if perm[j] < perm[i] {
                assert(name_taken(bindings, perm[i]));
            } else {
                assert(fault_at(bindings, perm[j]).is_none());
                assert(bindings[perm[i]].name@ == bindings[perm[j]].name@);
                assert(name_taken(bindings, perm[j]));
            }
        }
    }
}

} // verus!
