//! From the type registry to the types of the codec: what a decoder has to
//! know to read a value of a registered type, and an encoder to check one.

use crate::error::MetadataError;
use crate::lookup::{
    find_type, id_position, lemma_id_position_absent, lemma_id_position_found, type_def_for,
};
use crate::metadata::{Metadata, MetadataModel};
use crate::registry::{
    variant_models, Primitive, TypeDef, TypeDefModel, VariantDef, VariantModel,
};
use crate::value::{shapes, variant_shapes, Shape, TypeDescriptor};
use vstd::prelude::*;

verus! {

/// The shape of the values of a primitive type: a character is its 32-bit
/// code, a string its bytes, a 256-bit integer its 32 bytes.
pub open spec fn primitive_shape(p: Primitive) -> Shape {
    match p {
        Primitive::Bool => Shape::Bool,
        Primitive::Char => Shape::Uint(4),
        Primitive::Str => Shape::Bytes,
        Primitive::U8 => Shape::Uint(1),
        Primitive::U16 => Shape::Uint(2),
        Primitive::U32 => Shape::Uint(4),
        Primitive::U64 => Shape::Uint(8),
        Primitive::U128 => Shape::Uint(16),
        Primitive::U256 => Shape::Array(32),
        Primitive::I8 => Shape::Sint(1),
        Primitive::I16 => Shape::Sint(2),
        Primitive::I32 => Shape::Sint(4),
        Primitive::I64 => Shape::Sint(8),
        Primitive::I128 => Shape::Sint(16),
        Primitive::I256 => Shape::Array(32),
    }
}

/// The shape of the compact form of a value of shape `sh`: an unsigned
/// integer is written as a compact integer, a unit as nothing, and a
/// wrapper of one of these as what it wraps.
pub open spec fn compact_shape(sh: Shape) -> Result<Shape, MetadataError>
    decreases sh,
{
    match sh {
        Shape::Uint(_) => Ok(Shape::Compact),
        Shape::Tuple(members) => if members.len() == 0 {
            Ok(Shape::Tuple(Seq::empty()))
        } else if members.len() == 1 {
            compact_shape(members[0])
        } else {
            Err(MetadataError::Unsupported)
        },
        _ => Err(MetadataError::Unsupported),
    }
}

/// The indices of the variants, in declaration order.
pub open spec fn variant_indices(variants: Seq<VariantModel>) -> Seq<u32> {
    Seq::new(variants.len(), |i: int| variants[i].index as u32)
}

/// One more than the largest index that a variant has; none for no
/// variants.
pub open spec fn span(variants: Seq<VariantModel>) -> nat
    decreases variants.len(),
{
    if variants.len() == 0 {
        0
    } else {
        let front = span(variants.drop_last());
        if variants.last().index + 1 > front {
            (variants.last().index + 1) as nat
        } else {
            front
        }
    }
}

/// The shape of the values of the type `id`, looking at most `depth`
/// definitions deep.
pub open spec fn shape_for(m: MetadataModel, id: u32, depth: nat) -> Result<Shape, MetadataError>
    decreases depth, 0nat, 0nat,
{
    if depth == 0 {
        Err(MetadataError::Unsupported)
    } else {
        match type_def_for(m, id) {
            Err(e) => Err(e),
            Ok(TypeDefModel::Primitive(p)) => Ok(primitive_shape(p)),
            Ok(TypeDefModel::Composite(fields)) => match shapes_for(
                m,
                fields,
                (depth - 1) as nat,
            ) {
                Ok(members) => Ok(Shape::Tuple(members)),
                Err(e) => Err(e),
            },
            Ok(TypeDefModel::Tuple(fields)) => match shapes_for(m, fields, (depth - 1) as nat) {
                Ok(members) => Ok(Shape::Tuple(members)),
                Err(e) => Err(e),
            },
            Ok(TypeDefModel::Sequence(elem)) => match shape_for(m, elem, (depth - 1) as nat) {
                Ok(sh) => Ok(Shape::Sequence(Box::new(sh))),
                Err(e) => Err(e),
            },
            Ok(TypeDefModel::Array(len, elem)) => match shape_for(m, elem, (depth - 1) as nat) {
                Ok(sh) => if sh == Shape::Uint(1) {
                    Ok(Shape::Array(len as nat))
                } else {
                    Ok(Shape::Tuple(Seq::new(len as nat, |i: int| sh)))
                },
                Err(e) => Err(e),
            },
            Ok(TypeDefModel::Compact(inner)) => match shape_for(m, inner, (depth - 1) as nat) {
                Ok(sh) => compact_shape(sh),
                Err(e) => Err(e),
            },
            Ok(TypeDefModel::BitSequence(_, _)) => Err(MetadataError::Unsupported),
            Ok(TypeDefModel::Variant(variants)) => match variant_table(
                m,
                variants,
                (depth - 1) as nat,
                span(variants),
            ) {
                Ok(table) => Ok(Shape::Variant(table)),
                Err(e) => Err(e),
            },
        }
    }
}

/// The shapes of the types `ids`, in order; the first that has none
/// decides the error.
pub open spec fn shapes_for(m: MetadataModel, ids: Seq<u32>, depth: nat) -> Result<
    Seq<Shape>,
    MetadataError,
>
    decreases depth, 1nat, ids.len(),
{
    if ids.len() == 0 {
        Ok(Seq::empty())
    } else {
        match shape_for(m, ids[0], depth) {
            Err(e) => Err(e),
            Ok(sh) => match shapes_for(m, ids.skip(1), depth) {
                Err(e) => Err(e),
                Ok(rest) => Ok(seq![sh] + rest),
            },
        }
    }
}

/// The shapes of the fields of the variants by index, for the indices
/// below `upto`: at each index the first variant that is declared with it,
/// or `None` where none is. The lowest index whose fields cannot be
/// described decides the error.
pub open spec fn variant_table(
    m: MetadataModel,
    variants: Seq<VariantModel>,
    depth: nat,
    upto: nat,
) -> Result<Seq<Option<Seq<Shape>>>, MetadataError>
    decreases depth, 2nat, upto,
{
    if upto == 0 {
        Ok(Seq::empty())
    } else {
        match variant_table(m, variants, depth, (upto - 1) as nat) {
            Err(e) => Err(e),
            Ok(front) => match id_position(variant_indices(variants), (upto - 1) as u32) {
                None => Ok(front.push(None)),
                Some(k) => match shapes_for(m, variants[k].fields, depth) {
                    Err(e) => Err(e),
                    Ok(fields) => Ok(front.push(Some(fields))),
                },
            },
        }
    }
}

/// An error at a lower index is the error of the whole table.
pub proof fn lemma_variant_table_error(
    m: MetadataModel,
    variants: Seq<VariantModel>,
    depth: nat,
    at: nat,
    upto: nat,
)
    requires
        at <= upto,
        variant_table(m, variants, depth, at) is Err,
    ensures
        variant_table(m, variants, depth, upto) == variant_table(m, variants, depth, at),
    decreases upto,
{
    if at < upto {
        lemma_variant_table_error(m, variants, depth, at, (upto - 1) as nat);
    }
}

/// The answer for a list once `done` is known and `next` is the answer for
/// what is left.
pub open spec fn then<T>(done: Seq<T>, next: Result<Seq<T>, MetadataError>) -> Result<
    Seq<T>,
    MetadataError,
> {
    match next {
        Ok(rest) => Ok(done + rest),
        Err(e) => Err(e),
    }
}

/// The type of the values of a primitive type.
pub fn primitive_type(p: Primitive) -> (t: TypeDescriptor)
    ensures
        t@ == primitive_shape(p),
{
    match p {
        Primitive::Bool => TypeDescriptor::Bool,
        Primitive::Char => TypeDescriptor::U32,
        Primitive::Str => TypeDescriptor::Bytes,
        Primitive::U8 => TypeDescriptor::U8,
        Primitive::U16 => TypeDescriptor::U16,
        Primitive::U32 => TypeDescriptor::U32,
        Primitive::U64 => TypeDescriptor::U64,
        Primitive::U128 => TypeDescriptor::U128,
        Primitive::U256 => TypeDescriptor::Array(32),
        Primitive::I8 => TypeDescriptor::I8,
        Primitive::I16 => TypeDescriptor::I16,
        Primitive::I32 => TypeDescriptor::I32,
        Primitive::I64 => TypeDescriptor::I64,
        Primitive::I128 => TypeDescriptor::I128,
        Primitive::I256 => TypeDescriptor::Array(32),
    }
}

/// One more than the largest index that a variant has.
pub fn span_of(variants: &Vec<VariantDef>) -> (n: usize)
    ensures
        n as nat == span(variant_models(variants@)),
        n <= 256,
{
    let ghost all = variant_models(variants@);
    let count: usize = variants.len();
    let mut n: usize = 0;
    let mut i: usize = 0;
    assert(all.take(0) =~= Seq::<VariantModel>::empty());
    while i < count
        invariant
            i <= count,
            count == variants@.len(),
            all == variant_models(variants@),
            n as nat == span(all.take(i as int)),
            n <= 256,
        decreases count - i,
    {
        proof {
            let upto = all.take(i + 1);
            assert(upto.drop_last() =~= all.take(i as int));
            assert(upto.last() == variants@[i as int]@);
        }
        let next: usize = variants[i].index as usize + 1;
        if next > n {
            n = next;
        }
        i = i + 1;
    }
    assert(all.take(count as int) =~= all);
    n
}

/// The place of the first variant with the given index.
pub fn find_index(variants: &Vec<VariantDef>, index: u8) -> (r: Option<usize>)
    ensures
        r matches Some(k) ==> k < variants@.len() && id_position(
            variant_indices(variant_models(variants@)),
            index as u32,
        ) == Some(k as int),
        r is None ==> id_position(variant_indices(variant_models(variants@)), index as u32)
            is None,
{
    let ghost ids = variant_indices(variant_models(variants@));
    let n: usize = variants.len();
    let mut i: usize = 0;
    while i < n
        invariant
            i <= n,
            n == variants@.len(),
            ids == variant_indices(variant_models(variants@)),
            forall|j: int| 0 <= j < i ==> #[trigger] ids[j] != index as u32,
        decreases n - i,
    {
        assert(ids[i as int] == variants@[i as int]@.index as u32);
        if variants[i].index == index {
            proof {
                lemma_id_position_found(ids, index as u32, i as int);
            }
            return Some(i);
        }
        i = i + 1;
    }
    proof {
        lemma_id_position_absent(ids, index as u32);
    }
    None
}

/// Whether a type is that of a single byte.
fn is_byte(t: &TypeDescriptor) -> (b: bool)
    ensures
        b == (t@ == Shape::Uint(1)),
{
    match t {
        TypeDescriptor::U8 => true,
        _ => false,
    }
}

/// The type of the compact form of a value of type `t`.
pub fn compact_type(t: &TypeDescriptor) -> (r: Result<TypeDescriptor, MetadataError>)
    ensures
        match compact_shape(t@) {
            Ok(sh) => r is Ok && r->Ok_0@ == sh,
            Err(e) => r is Err && r->Err_0 == e,
        },
    decreases t,
{
    match t {
        TypeDescriptor::U8 => Ok(TypeDescriptor::Compact),
        TypeDescriptor::U16 => Ok(TypeDescriptor::Compact),
        TypeDescriptor::U32 => Ok(TypeDescriptor::Compact),
        TypeDescriptor::U64 => Ok(TypeDescriptor::Compact),
        TypeDescriptor::U128 => Ok(TypeDescriptor::Compact),
        TypeDescriptor::Tuple(members) => {
            assert(shapes(members@).len() == members@.len());
            if members.len() == 0 {
                let unit: Vec<TypeDescriptor> = Vec::new();
                assert(shapes(unit@) =~= Seq::<Shape>::empty());
                Ok(TypeDescriptor::Tuple(unit))
            } else if members.len() == 1 {
                assert(shapes(members@)[0] == members@[0]@);
                compact_type(&members[0])
            } else {
                Err(MetadataError::Unsupported)
            }
        },
        _ => Err(MetadataError::Unsupported),
    }
}

impl Metadata {
    /// The codec's type for the registered type `id`, looking at most
    /// `depth` definitions deep.
    pub fn describe(&self, id: u32, depth: usize) -> (r: Result<TypeDescriptor, MetadataError>)
        ensures
            match shape_for(self@, id, depth as nat) {
                Ok(sh) => r is Ok && r->Ok_0@ == sh,
                Err(e) => r is Err && r->Err_0 == e,
            },
        decreases depth, 0nat, 0nat,
    {
        if depth == 0 {
            return Err(MetadataError::Unsupported);
        }
        let at: usize = match find_type(&self.types, id) {
            Some(at) => at,
            None => {
                return Err(MetadataError::NotFound);
            },
        };
        assert(self@.types[at as int] == self.types@[at as int]@);
        match &self.types[at].def {
            TypeDef::Primitive(p) => Ok(primitive_type(*p)),
            TypeDef::Composite(fields) => match self.describe_all(fields, depth - 1) {
                Ok(members) => Ok(TypeDescriptor::Tuple(members)),
                Err(e) => Err(e),
            },
            TypeDef::Tuple(fields) => match self.describe_all(fields, depth - 1) {
                Ok(members) => Ok(TypeDescriptor::Tuple(members)),
                Err(e) => Err(e),
            },
            TypeDef::Sequence(elem) => match self.describe(*elem, depth - 1) {
                Ok(t) => Ok(TypeDescriptor::Sequence(Box::new(t))),
                Err(e) => Err(e),
            },
            TypeDef::Array(len, elem) => match self.describe(*elem, depth - 1) {
                Ok(t) => {
                    if is_byte(&t) {
                        Ok(TypeDescriptor::Array(*len))
                    } else {
                        self.describe_copies(*elem, depth - 1, *len)
                    }
                },
                Err(e) => Err(e),
            },
            TypeDef::Compact(inner) => match self.describe(*inner, depth - 1) {
                Ok(t) => compact_type(&t),
                Err(e) => Err(e),
            },
            TypeDef::BitSequence(_, _) => Err(MetadataError::Unsupported),
            TypeDef::Variant(variants) => match self.describe_variants(variants, depth - 1) {
                Ok(table) => Ok(TypeDescriptor::Variant(table)),
                Err(e) => Err(e),
            },
        }
    }

    /// The tuple of `count` values of the type `id`, which has a shape.
    fn describe_copies(&self, id: u32, depth: usize, count: u32) -> (r: Result<
        TypeDescriptor,
        MetadataError,
    >)
        requires
            shape_for(self@, id, depth as nat) is Ok,
        ensures
            r is Ok && r->Ok_0@ == Shape::Tuple(
                Seq::new(count as nat, |i: int| shape_for(self@, id, depth as nat)->Ok_0),
            ),
        decreases depth, 0nat, 1nat,
    {
        let ghost sh = shape_for(self@, id, depth as nat)->Ok_0;
        let mut members: Vec<TypeDescriptor> = Vec::new();
        let mut i: u32 = 0;
        while i < count
            invariant
                i <= count,
                members@.len() == i,
                shape_for(self@, id, depth as nat) is Ok,
                sh == shape_for(self@, id, depth as nat)->Ok_0,
                forall|j: int| 0 <= j < i ==> (#[trigger] members@[j])@ == sh,
            decreases count - i,
        {
            match self.describe(id, depth) {
                Ok(t) => {
                    members.push(t);
                },
                Err(e) => {
                    assert(false);
                },
            }
            i = i + 1;
        }
        assert(shapes(members@) =~= Seq::new(
            count as nat,
            |i: int| shape_for(self@, id, depth as nat)->Ok_0,
        ));
        Ok(TypeDescriptor::Tuple(members))
    }

    /// The codec's types for the registered types `ids`, in order.
    pub fn describe_all(&self, ids: &Vec<u32>, depth: usize) -> (r: Result<
        Vec<TypeDescriptor>,
        MetadataError,
    >)
        ensures
            match shapes_for(self@, ids@, depth as nat) {
                Ok(all) => r is Ok && shapes(r->Ok_0@) == all,
                Err(e) => r is Err && r->Err_0 == e,
            },
        decreases depth, 1nat, ids@.len(),
    {
        let n: usize = ids.len();
        let mut out: Vec<TypeDescriptor> = Vec::new();
        let mut i: usize = 0;
        proof {
            assert(ids@.skip(0) =~= ids@);
            assert(shapes(out@) =~= Seq::<Shape>::empty());
            match shapes_for(self@, ids@, depth as nat) {
                Ok(rest) => {
                    assert(Seq::<Shape>::empty() + rest =~= rest);
                },
                Err(e) => {},
            }
        }
        while i < n
            invariant
                i <= n,
                n == ids@.len(),
                shapes_for(self@, ids@, depth as nat) == then(
                    shapes(out@),
                    shapes_for(self@, ids@.skip(i as int), depth as nat),
                ),
            decreases n - i,
        {
            let ghost cur = ids@.skip(i as int);
            let ghost done = shapes(out@);
            assert(cur[0] == ids@[i as int]);
            match self.describe(ids[i], depth) {
                Err(e) => {
                    return Err(e);
                },
                Ok(t) => {
                    out.push(t);
                    proof {
                        assert(cur.skip(1) =~= ids@.skip(i + 1));
                        assert(shapes(out@) =~= done.push(t@));
                        match shapes_for(self@, ids@.skip(i + 1), depth as nat) {
                            Ok(rest) => {
                                assert(done + (seq![t@] + rest) =~= done.push(t@) + rest);
                            },
                            Err(e) => {},
                        }
                    }
                },
            }
            i = i + 1;
        }
        proof {
            assert(ids@.skip(n as int) =~= Seq::<u32>::empty());
            assert(shapes(out@) + Seq::<Shape>::empty() =~= shapes(out@));
        }
        Ok(out)
    }

    /// The codec's types for the fields of the variants, by index.
    fn describe_variants(&self, variants: &Vec<VariantDef>, depth: usize) -> (r: Result<
        Vec<Option<Vec<TypeDescriptor>>>,
        MetadataError,
    >)
        ensures
            match variant_table(
                self@,
                variant_models(variants@),
                depth as nat,
                span(variant_models(variants@)),
            ) {
                Ok(table) => r is Ok && variant_shapes(r->Ok_0@) == table,
                Err(e) => r is Err && r->Err_0 == e,
            },
        decreases depth, 2nat, 0nat,
    {
        let ghost all = variant_models(variants@);
        let n: usize = span_of(variants);
        let mut out: Vec<Option<Vec<TypeDescriptor>>> = Vec::new();
        let mut i: usize = 0;
        assert(variant_shapes(out@) =~= Seq::<Option<Seq<Shape>>>::empty());
        while i < n
            invariant
                i <= n,
                n <= 256,
                n as nat == span(variant_models(variants@)),
                all == variant_models(variants@),
                variant_table(self@, all, depth as nat, i as nat) == Ok::<
                    Seq<Option<Seq<Shape>>>,
                    MetadataError,
                >(variant_shapes(out@)),
            decreases n - i,
        {
            let ghost front = variant_shapes(out@);
            match find_index(variants, i as u8) {
                None => {
                    out.push(None);
                    assert(variant_shapes(out@) =~= front.push(None));
                },
                Some(k) => {
                    assert(all[k as int] == variants@[k as int]@);
                    match self.describe_all(&variants[k].fields, depth) {
                        Err(e) => {
                            proof {
                                lemma_variant_table_error(
                                    self@,
                                    all,
                                    depth as nat,
                                    (i + 1) as nat,
                                    n as nat,
                                );
                            }
                            return Err(e);
                        },
                        Ok(fields) => {
                            let ghost got = shapes(fields@);
                            out.push(Some(fields));
                            assert(variant_shapes(out@) =~= front.push(Some(got)));
                        },
                    }
                },
            }
            i = i + 1;
        }
        Ok(out)
    }
}

} // verus!
