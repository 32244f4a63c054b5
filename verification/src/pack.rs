//! Where each parameter of an effect lands in the uniform block every effect
//! shader reads.
//!
//! Slots are assigned by walking an effect's parameters in declaration
//! order, each taking as many slots as its kind needs. Order is the
//! interface: reordering an effect's parameters rewires every saved document
//! that uses it. The values themselves are filled in elsewhere; this is the
//! layout they are filled into.

use vstd::prelude::*;
use crate::text::str_eq;

verus! {

/// Number of `f32` slots available to an effect: twelve `vec4`s.
pub const PARAM_SLOTS: usize = 64;

/// The kind of a parameter, as far as the uniform block cares.
#[derive(Clone, Copy, Debug, PartialEq, Eq, Structural)]
pub enum ParamShape {
    Float,
    Bool,
    Choice,
    Rgb,
    Wheel,
    /// Curves, pins and warps ride the lookup texture instead of the
    /// uniform block.
    Curve,
    Pins,
    Warp,
}

/// How many slots a parameter of this kind occupies.
pub open spec fn width_of(kind: ParamShape) -> nat {
    match kind {
        ParamShape::Float | ParamShape::Bool | ParamShape::Choice => 1,
        ParamShape::Rgb => 3,
        ParamShape::Wheel => 4,
        ParamShape::Curve | ParamShape::Pins | ParamShape::Warp => 0,
    }
}

/// How many slots a parameter of this kind occupies.
pub fn slot_width(kind: ParamShape) -> (w: usize)
    ensures
        w == width_of(kind),
{
    match kind {
        ParamShape::Float | ParamShape::Bool | ParamShape::Choice => 1,
        ParamShape::Rgb => 3,
        ParamShape::Wheel => 4,
        ParamShape::Curve | ParamShape::Pins | ParamShape::Warp => 0,
    }
}

/// The slots taken by the first `i` parameters.
pub open spec fn slots_before(params: Seq<(&str, ParamShape)>, i: int) -> nat
    decreases i,
{
    if i <= 0 {
        0
    } else {
        slots_before(params, i - 1) + width_of(params[i - 1].1)
    }
}

/// `i` is the first parameter named `key`.
pub open spec fn first_named(params: Seq<(&str, ParamShape)>, key: Seq<char>, i: int) -> bool {
    &&& 0 <= i < params.len()
    &&& params[i].0@ == key
    &&& forall|j: int| 0 <= j < i ==> params[j].0@ != key
}

proof fn lemma_slots_grow(params: Seq<(&str, ParamShape)>, i: int, j: int)
    requires
        0 <= i <= j,
    ensures
        slots_before(params, i) <= slots_before(params, j),
    decreases j - i,
{
    if i < j {
        lemma_slots_grow(params, i, j - 1);
    }
}

/// Slots occupied by the effect's declared parameters.
pub fn declared_slots(params: &[(&str, ParamShape)]) -> (n: usize)
    requires
        4 * params@.len() <= usize::MAX,
    ensures
        n == slots_before(params@, params@.len() as int),
{
    let mut n: usize = 0;
    let mut i: usize = 0;
    while i < params.len()
        invariant
            i <= params@.len(),
            4 * params@.len() <= usize::MAX,
            n == slots_before(params@, i as int),
            n <= 4 * i,
        decreases params@.len() - i,
    {
        n = n + slot_width(params[i].1);
        i = i + 1;
    }
    n
}

/// Total slots an effect needs: its declared parameters' and the ones
/// derived from them on the CPU.
pub fn slots_used(params: &[(&str, ParamShape)], derived_slots: usize) -> (n: usize)
    requires
        4 * params@.len() <= usize::MAX,
        slots_before(params@, params@.len() as int) + derived_slots <= usize::MAX,
    ensures
        n == slots_before(params@, params@.len() as int) + derived_slots,
{
    declared_slots(params) + derived_slots
}

proof fn lemma_slots_at_most(params: Seq<(&str, ParamShape)>, i: int)
    requires
        0 <= i,
    ensures
        slots_before(params, i) <= 4 * i,
    decreases i,
{
    if i > 0 {
        lemma_slots_at_most(params, i - 1);
    }
}

/// The first slot a named parameter occupies; `None` for a parameter that
/// takes no slots and for a name the effect does not have.
pub fn slot_of(params: &[(&str, ParamShape)], key: &str) -> (r: Option<usize>)
    requires
        4 * params@.len() <= usize::MAX,
    ensures
        match r {
            Some(at) => exists|i: int|
                first_named(params@, key@, i) && width_of(params@[i].1) > 0 && at == slots_before(params@, i),
            None => forall|i: int| first_named(params@, key@, i) ==> width_of(params@[i].1) == 0,
        },
{
    let mut at: usize = 0;
    let mut i: usize = 0;
    while i < params.len()
        invariant
            i <= params@.len(),
            4 * params@.len() <= usize::MAX,
            at == slots_before(params@, i as int),
            at <= 4 * i,
            forall|j: int| 0 <= j < i ==> params@[j].0@ != key@,
        decreases params@.len() - i,
    {
        let (name, kind) = params[i];
        if str_eq(name, key) {
            let w = slot_width(kind);
            if w > 0 {
                return Some(at);
            } else {
                return None;
            }
        }
        at = at + slot_width(kind);
        i = i + 1;
    }
    None
}

/// Where each parameter's slots start, in declaration order.
pub fn layout(params: &[(&str, ParamShape)]) -> (offsets: Vec<usize>)
    requires
        4 * params@.len() <= usize::MAX,
    ensures
        offsets@.len() == params@.len(),
        forall|i: int| 0 <= i < params@.len() ==> offsets@[i] == slots_before(params@, i),
{
    let mut offsets: Vec<usize> = Vec::new();
    let mut at: usize = 0;
    let mut i: usize = 0;
    while i < params.len()
        invariant
            i <= params@.len(),
            4 * params@.len() <= usize::MAX,
            at == slots_before(params@, i as int),
            at <= 4 * i,
            offsets@.len() == i,
            forall|j: int| 0 <= j < i ==> offsets@[j] == slots_before(params@, j),
        decreases params@.len() - i,
    {
        offsets.push(at);
        at = at + slot_width(params[i].1);
        i = i + 1;
    }
    offsets
}

/// Parameters never share a slot: the slots of an earlier parameter all come
/// before those of a later one.
pub proof fn lemma_slots_do_not_overlap(params: Seq<(&str, ParamShape)>, i: int, j: int)
    requires
        0 <= i < j <= params.len(),
    ensures
        slots_before(params, i) + width_of(params[i].1) <= slots_before(params, j),
{
    lemma_slots_grow(params, i + 1, j);
}

/// The first position at which `options` holds `s`.
pub open spec fn position_of(options: Seq<&str>, s: Seq<char>, i: int) -> bool {
    &&& 0 <= i < options.len()
    &&& options[i]@ == s
    &&& forall|j: int| 0 <= j < i ==> options[j]@ != s
}

fn position(options: &[&str], s: &str) -> (r: Option<usize>)
    ensures
        match r {
            Some(i) => position_of(options@, s@, i as int),
            None => forall|j: int| 0 <= j < options@.len() ==> options@[j]@ != s@,
        },
{
    let mut i: usize = 0;
    while i < options.len()
        invariant
            i <= options@.len(),
            forall|j: int| 0 <= j < i ==> options@[j]@ != s@,
        decreases options@.len() - i,
    {
        if str_eq(options[i], s) {
            return Some(i);
        }
        i = i + 1;
    }
    None
}

/// The index a choice packs as: where the chosen option sits in the list,
/// and for an option the list does not have, where the default sits rather
/// than 0, which might be a very different look; 0 only when neither is
/// there.
pub fn choice_index(options: &[&str], chosen: &str, default: &str) -> (r: usize)
    ensures
        (exists|i: int| 0 <= i < options@.len() && options@[i]@ == chosen@) ==> position_of(
            options@,
            chosen@,
            r as int,
        ),
        (forall|i: int| 0 <= i < options@.len() ==> options@[i]@ != chosen@) && (exists|i: int|
            0 <= i < options@.len() && options@[i]@ == default@) ==> position_of(options@, default@, r as int),
        (forall|i: int| 0 <= i < options@.len() ==> options@[i]@ != chosen@ && options@[i]@ != default@) ==> r
            == 0,
{
    match position(options, chosen) {
        Some(i) => i,
        None => match position(options, default) {
            Some(i) => i,
            None => 0,
        },
    }
}

} // verus!
