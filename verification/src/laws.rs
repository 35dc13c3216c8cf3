//! What holds of the wire format as a whole.

use crate::codec::{
    all_well_formed, decoding, decoding_all, decoding_repeat, encoding, encoding_all, has_shape,
    have_shapes, max_len, well_formed,
};
use crate::compact::{
    compact_bytes, compact_limit, compact_parse, lemma_compact_canonical, lemma_compact_class,
    lemma_compact_round_trip,
};
use crate::error::DecodeError;
use crate::fixed::{
    lemma_le_bytes_len, lemma_le_bytes_of_value, lemma_le_value_bound, lemma_le_value_of_bytes,
    lemma_pow256_values, twos_complement,
};
use crate::value::{shapes, variant_shapes, Datum, Shape, TypeDescriptor};
use vstd::prelude::*;

verus! {

/// A length that a prefix can announce is within what compact integers hold.
pub proof fn lemma_max_len_is_compact()
    ensures
        max_len() < compact_limit(),
{
    lemma_pow256_values();
}

/// Round trip for the values that hold no other value.
proof fn lemma_round_trip_leaf(d: Datum, sh: Shape, rest: Seq<u8>)
    requires
        has_shape(d, sh),
        d is Uint || d is Sint || d is Bool || d is Compact || d is Bytes || d is Array,
    ensures
        decoding(sh, encoding(d) + rest) == Ok::<(Datum, nat), DecodeError>(
            (d, encoding(d).len()),
        ),
{
    let bytes = encoding(d);
    let input = bytes + rest;
    match d {
        Datum::Uint { width, value } => {
            lemma_le_bytes_len(value, width);
            lemma_le_value_of_bytes(value, width);
            assert(input.subrange(0, width as int) =~= bytes);
        },
        Datum::Sint { width, number } => {
            let n = twos_complement(number, width);
            lemma_le_bytes_len(n, width);
            lemma_le_value_of_bytes(n, width);
            assert(input.subrange(0, width as int) =~= bytes);
        },
        Datum::Bool(b) => {},
        Datum::Compact(n) => {
            lemma_compact_round_trip(n, rest);
            lemma_compact_class(n);
        },
        Datum::Bytes(s) => {
            let head = compact_bytes(s.len());
            lemma_max_len_is_compact();
            lemma_compact_class(s.len());
            lemma_compact_round_trip(s.len(), s + rest);
            assert(input =~= head + (s + rest));
            assert(input.subrange(head.len() as int, (head.len() + s.len()) as int) =~= s);
        },
        Datum::Array(s) => {
            assert(input.subrange(0, s.len() as int) =~= s);
        },
        _ => {},
    }
}

/// Round trip: a value of a given shape, once written, is read back under
/// that shape as the same value, taking exactly the bytes written,
/// whatever follows them.
pub proof fn lemma_round_trip(d: Datum, sh: Shape, rest: Seq<u8>)
    requires
        has_shape(d, sh),
    ensures
        decoding(sh, encoding(d) + rest) == Ok::<(Datum, nat), DecodeError>(
            (d, encoding(d).len()),
        ),
    decreases d,
{
    let bytes = encoding(d);
    let input = bytes + rest;
    match d {
        Datum::Sequence(items) => {
            let head = compact_bytes(items.len());
            let body = encoding_all(items);
            lemma_max_len_is_compact();
            lemma_compact_class(items.len());
            lemma_compact_round_trip(items.len(), body + rest);
            assert(input =~= head + (body + rest));
            assert(input.skip(head.len() as int) =~= body + rest);
            lemma_round_trip_repeat(items, *sh->Sequence_0, rest);
        },
        Datum::Tuple(items) => {
            lemma_round_trip_all(items, sh->Tuple_0, rest);
        },
        Datum::Variant { index, fields } => {
            let body = encoding_all(fields);
            assert(input[0] == index);
            assert(input.skip(1) =~= body + rest);
            lemma_round_trip_all(fields, sh->Variant_0[index as int]->Some_0, rest);
        },
        Datum::Optional(None) => {},
        Datum::Optional(Some(inner)) => {
            assert(input.skip(1) =~= encoding(*inner) + rest);
            lemma_round_trip(*inner, *sh->Optional_0, rest);
        },
        _ => {
            lemma_round_trip_leaf(d, sh, rest);
        },
    }
}

/// Round trip for a list of values read under a list of shapes.
pub proof fn lemma_round_trip_all(items: Seq<Datum>, members: Seq<Shape>, rest: Seq<u8>)
    requires
        have_shapes(items, members),
    ensures
        decoding_all(members, encoding_all(items) + rest) == Ok::<(Seq<Datum>, nat), DecodeError>(
            (items, encoding_all(items).len()),
        ),
    decreases items,
{
    if items.len() == 0 {
        assert(items =~= Seq::<Datum>::empty());
    } else {
        let first = encoding(items[0]);
        let others = encoding_all(items.skip(1));
        let input = encoding_all(items) + rest;
        assert(input =~= first + (others + rest));
        lemma_round_trip(items[0], members[0], others + rest);
        assert(input.skip(first.len() as int) =~= others + rest);
        assert(have_shapes(items.skip(1), members.skip(1))) by {
            assert forall|i: int| 0 <= i < items.skip(1).len() implies has_shape(
                #[trigger] items.skip(1)[i],
                members.skip(1)[i],
            ) by {
                assert(items.skip(1)[i] == items[i + 1]);
            }
        }
        lemma_round_trip_all(items.skip(1), members.skip(1), rest);
        assert(seq![items[0]] + items.skip(1) =~= items);
    }
}

/// Round trip for a list of values of one shape.
pub proof fn lemma_round_trip_repeat(items: Seq<Datum>, sh: Shape, rest: Seq<u8>)
    requires
        forall|i: int| 0 <= i < items.len() ==> has_shape(#[trigger] items[i], sh),
    ensures
        decoding_repeat(sh, items.len(), encoding_all(items) + rest) == Ok::<
            (Seq<Datum>, nat),
            DecodeError,
        >((items, encoding_all(items).len())),
    decreases items,
{
    if items.len() == 0 {
        assert(items =~= Seq::<Datum>::empty());
    } else {
        let first = encoding(items[0]);
        let others = encoding_all(items.skip(1));
        let input = encoding_all(items) + rest;
        assert(input =~= first + (others + rest));
        lemma_round_trip(items[0], sh, others + rest);
        assert(input.skip(first.len() as int) =~= others + rest);
        assert forall|i: int| 0 <= i < items.skip(1).len() implies has_shape(
            #[trigger] items.skip(1)[i],
            sh,
        ) by {
            assert(items.skip(1)[i] == items[i + 1]);
        }
        lemma_round_trip_repeat(items.skip(1), sh, rest);
        assert(seq![items[0]] + items.skip(1) =~= items);
    }
}

/// Round trip on exactly the bytes written: reading them back under the
/// value's shape gives the value and takes them all.
pub proof fn lemma_round_trip_exact(d: Datum, sh: Shape)
    requires
        has_shape(d, sh),
    ensures
        decoding(sh, encoding(d)) == Ok::<(Datum, nat), DecodeError>((d, encoding(d).len())),
{
    lemma_round_trip(d, sh, Seq::empty());
    assert(encoding(d) + Seq::<u8>::empty() =~= encoding(d));
}

/// One encoding per value, for the shapes that hold no other shape.
proof fn lemma_decoding_canonical_leaf(sh: Shape, input: Seq<u8>)
    requires
        decoding(sh, input) is Ok,
        sh is Uint || sh is Sint || sh is Bool || sh is Compact || sh is Bytes || sh is Array,
    ensures
        ({
            let (d, used) = decoding(sh, input)->Ok_0;
            &&& used <= input.len()
            &&& encoding(d) == input.subrange(0, used as int)
        }),
{
    let (d, used) = decoding(sh, input)->Ok_0;
    match sh {
        Shape::Uint(w) => {
            lemma_le_bytes_of_value(input.subrange(0, w as int));
        },
        Shape::Sint(w) => {
            let s = input.subrange(0, w as int);
            lemma_le_value_bound(s);
            lemma_le_bytes_of_value(s);
        },
        Shape::Bool => {
            assert(encoding(d) =~= input.subrange(0, 1));
        },
        Shape::Compact => {
            lemma_compact_canonical(input);
        },
        Shape::Bytes => {
            lemma_compact_canonical(input);
            let (n, k) = compact_parse(input)->Ok_0;
            assert(input.subrange(0, k as int) + input.subrange(k as int, (k + n) as int)
                =~= input.subrange(0, (k + n) as int));
        },
        _ => {},
    }
}

/// One encoding per value: whatever is read is read from exactly the bytes
/// that writing it gives, so no other byte string stands for it.
pub proof fn lemma_decoding_canonical(sh: Shape, input: Seq<u8>)
    requires
        decoding(sh, input) is Ok,
    ensures
        ({
            let (d, used) = decoding(sh, input)->Ok_0;
            &&& used <= input.len()
            &&& encoding(d) == input.subrange(0, used as int)
        }),
    decreases sh, 0nat,
{
    let (d, used) = decoding(sh, input)->Ok_0;
    match sh {
        Shape::Sequence(elem) => {
            lemma_compact_canonical(input);
            let (n, k) = compact_parse(input)->Ok_0;
            let tail = input.skip(k as int);
            lemma_decoding_repeat_canonical(*elem, n, tail);
            let (items, more) = decoding_repeat(*elem, n, tail)->Ok_0;
            assert(input.subrange(0, k as int) + tail.subrange(0, more as int) =~= input.subrange(
                0,
                (k + more) as int,
            ));
        },
        Shape::Tuple(members) => {
            lemma_decoding_all_canonical(members, input);
        },
        Shape::Variant(variants) => {
            let tail = input.skip(1);
            let members = variants[input[0] as int]->Some_0;
            lemma_decoding_all_canonical(members, tail);
            let (fields, more) = decoding_all(members, tail)->Ok_0;
            assert(seq![input[0]] + tail.subrange(0, more as int) =~= input.subrange(
                0,
                (1 + more) as int,
            ));
        },
        Shape::Optional(inner) => {
            if input[0] == 0 {
                assert(encoding(d) =~= input.subrange(0, 1));
            } else {
                let tail = input.skip(1);
                lemma_decoding_canonical(*inner, tail);
                let (v, more) = decoding(*inner, tail)->Ok_0;
                assert(seq![1u8] + tail.subrange(0, more as int) =~= input.subrange(
                    0,
                    (1 + more) as int,
                ));
            }
        },
        _ => {
            lemma_decoding_canonical_leaf(sh, input);
        },
    }
}

/// One encoding per list of values read under a list of shapes.
pub proof fn lemma_decoding_all_canonical(members: Seq<Shape>, input: Seq<u8>)
    requires
        decoding_all(members, input) is Ok,
    ensures
        ({
            let (items, used) = decoding_all(members, input)->Ok_0;
            &&& items.len() == members.len()
            &&& used <= input.len()
            &&& encoding_all(items) == input.subrange(0, used as int)
        }),
    decreases members, 0nat,
{
    let (items, used) = decoding_all(members, input)->Ok_0;
    if members.len() == 0 {
        assert(encoding_all(items) =~= input.subrange(0, 0));
    } else {
        lemma_decoding_canonical(members[0], input);
        let (d, k) = decoding(members[0], input)->Ok_0;
        let tail = input.skip(k as int);
        lemma_decoding_all_canonical(members.skip(1), tail);
        let (rest, more) = decoding_all(members.skip(1), tail)->Ok_0;
        assert(items.skip(1) =~= rest);
        assert(input.subrange(0, k as int) + tail.subrange(0, more as int) =~= input.subrange(
            0,
            (k + more) as int,
        ));
    }
}

/// One encoding per list of values of one shape.
pub proof fn lemma_decoding_repeat_canonical(sh: Shape, count: nat, input: Seq<u8>)
    requires
        decoding_repeat(sh, count, input) is Ok,
    ensures
        ({
            let (items, used) = decoding_repeat(sh, count, input)->Ok_0;
            &&& items.len() == count
            &&& used <= input.len()
            &&& encoding_all(items) == input.subrange(0, used as int)
        }),
    decreases sh, count + 1,
{
    let (items, used) = decoding_repeat(sh, count, input)->Ok_0;
    if count == 0 {
        assert(encoding_all(items) =~= input.subrange(0, 0));
    } else {
        lemma_decoding_canonical(sh, input);
        let (d, k) = decoding(sh, input)->Ok_0;
        let tail = input.skip(k as int);
        lemma_decoding_repeat_canonical(sh, (count - 1) as nat, tail);
        let (rest, more) = decoding_repeat(sh, (count - 1) as nat, tail)->Ok_0;
        assert(items.skip(1) =~= rest);
        assert(input.subrange(0, k as int) + tail.subrange(0, more as int) =~= input.subrange(
            0,
            (k + more) as int,
        ));
    }
}

/// The shape of every type descriptor is well formed.
pub proof fn lemma_descriptor_well_formed(t: TypeDescriptor)
    ensures
        well_formed(t@),
    decreases t,
{
    match t {
        TypeDescriptor::Sequence(elem) => {
            lemma_descriptor_well_formed(*elem);
        },
        TypeDescriptor::Tuple(members) => {
            lemma_descriptors_well_formed(members);
        },
        TypeDescriptor::Variant(variants) => {
            let shs = variant_shapes(variants@);
            assert forall|i: int| 0 <= i < shs.len() implies (#[trigger] shs[i] matches Some(
                members,
            ) ==> all_well_formed(members)) by {
                match variants@[i] {
                    Some(members) => {
                        lemma_descriptors_well_formed(members);
                    },
                    None => {},
                }
            }
        },
        TypeDescriptor::Optional(inner) => {
            lemma_descriptor_well_formed(*inner);
        },
        _ => {},
    }
}

/// The shapes of a list of type descriptors are well formed.
pub proof fn lemma_descriptors_well_formed(members: Vec<TypeDescriptor>)
    ensures
        all_well_formed(shapes(members@)),
    decreases members,
{
    let shs = shapes(members@);
    assert forall|i: int| 0 <= i < shs.len() implies well_formed(#[trigger] shs[i]) by {
        lemma_descriptor_well_formed(members@[i]);
    }
}

/// Whatever is read under a well-formed shape is a value of that shape.
pub proof fn lemma_decoding_has_shape(sh: Shape, input: Seq<u8>)
    requires
        well_formed(sh),
        decoding(sh, input) is Ok,
    ensures
        has_shape(decoding(sh, input)->Ok_0.0, sh),
    decreases sh, 0nat,
{
    let (d, used) = decoding(sh, input)->Ok_0;
    match sh {
        Shape::Uint(w) => {
            lemma_le_value_bound(input.subrange(0, w as int));
        },
        Shape::Sint(w) => {
            lemma_le_value_bound(input.subrange(0, w as int));
        },
        Shape::Bool => {},
        Shape::Compact => {
            lemma_compact_canonical(input);
        },
        Shape::Bytes => {},
        Shape::Array(n) => {},
        Shape::Sequence(elem) => {
            let (n, k) = compact_parse(input)->Ok_0;
            lemma_decoding_repeat_has_shape(*elem, n, input.skip(k as int));
        },
        Shape::Tuple(members) => {
            lemma_decoding_all_has_shape(members, input);
        },
        Shape::Variant(variants) => {
            lemma_decoding_all_has_shape(variants[input[0] as int]->Some_0, input.skip(1));
        },
        Shape::Optional(inner) => {
            if input[0] == 1 {
                lemma_decoding_has_shape(*inner, input.skip(1));
            }
        },
    }
}

/// Whatever is read under a list of well-formed shapes has those shapes.
pub proof fn lemma_decoding_all_has_shape(members: Seq<Shape>, input: Seq<u8>)
    requires
        all_well_formed(members),
        decoding_all(members, input) is Ok,
    ensures
        have_shapes(decoding_all(members, input)->Ok_0.0, members),
    decreases members, 0nat,
{
    let (items, used) = decoding_all(members, input)->Ok_0;
    if members.len() > 0 {
        lemma_decoding_has_shape(members[0], input);
        let (d, k) = decoding(members[0], input)->Ok_0;
        let tail = input.skip(k as int);
        assert(all_well_formed(members.skip(1))) by {
            assert forall|i: int| 0 <= i < members.skip(1).len() implies well_formed(
                #[trigger] members.skip(1)[i],
            ) by {
                assert(members.skip(1)[i] == members[i + 1]);
            }
        }
        lemma_decoding_all_has_shape(members.skip(1), tail);
        let (rest, more) = decoding_all(members.skip(1), tail)->Ok_0;
        assert forall|i: int| 0 <= i < items.len() implies has_shape(
            #[trigger] items[i],
            members[i],
        ) by {
            if i > 0 {
                assert(items[i] == rest[i - 1]);
                assert(members[i] == members.skip(1)[i - 1]);
            }
        }
    }
}

/// Whatever is read as a run of one well-formed shape has that shape.
pub proof fn lemma_decoding_repeat_has_shape(sh: Shape, count: nat, input: Seq<u8>)
    requires
        well_formed(sh),
        decoding_repeat(sh, count, input) is Ok,
    ensures
        ({
            let items = decoding_repeat(sh, count, input)->Ok_0.0;
            &&& items.len() == count
            &&& forall|i: int| 0 <= i < items.len() ==> has_shape(#[trigger] items[i], sh)
        }),
    decreases sh, count + 1,
{
    let (items, used) = decoding_repeat(sh, count, input)->Ok_0;
    if count > 0 {
        lemma_decoding_has_shape(sh, input);
        let (d, k) = decoding(sh, input)->Ok_0;
        let tail = input.skip(k as int);
        lemma_decoding_repeat_has_shape(sh, (count - 1) as nat, tail);
        let (rest, more) = decoding_repeat(sh, (count - 1) as nat, tail)->Ok_0;
        assert forall|i: int| 0 <= i < items.len() implies has_shape(#[trigger] items[i], sh) by {
            if i > 0 {
                assert(items[i] == rest[i - 1]);
            }
        }
    }
}

} // verus!
