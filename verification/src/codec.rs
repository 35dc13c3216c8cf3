//! The wire format: what each value is written as, and what each byte
//! string is read as under a given type.

use crate::bytes::{copy_range, push_bytes};
use crate::compact::{
    compact_bytes, compact_limit, compact_parse, decode_compact_at, push_compact,
};
use crate::error::{DecodeError, EncodeError};
use crate::fixed::{
    from_twos_complement, le_bytes, le_value, lemma_le_value_bound, lemma_pow256_values, pow256,
    push_le, read_le, twos_complement,
};
use crate::value::{models, shapes, variant_shapes, Datum, Shape, TypeDescriptor, Value};
use vstd::prelude::*;

verus! {

/// The longest sequence that a length prefix announces.
pub open spec fn max_len() -> nat {
    0xffff_ffff
}

/// The bytes that a value is written as.
pub open spec fn encoding(d: Datum) -> Seq<u8>
    decreases d,
{
    match d {
        Datum::Uint { width, value } => le_bytes(value, width),
        Datum::Sint { width, number } => le_bytes(twos_complement(number, width), width),
        Datum::Bool(b) => seq![if b { 1u8 } else { 0u8 }],
        Datum::Compact(n) => compact_bytes(n),
        Datum::Bytes(s) => compact_bytes(s.len()) + s,
        Datum::Array(s) => s,
        Datum::Sequence(items) => compact_bytes(items.len()) + encoding_all(items),
        Datum::Tuple(items) => encoding_all(items),
        Datum::Variant { index, fields } => seq![index as u8] + encoding_all(fields),
        Datum::Optional(None) => seq![0u8],
        Datum::Optional(Some(inner)) => seq![1u8] + encoding(*inner),
    }
}

/// The bytes that a list of values is written as: each in turn, nothing
/// between them.
pub open spec fn encoding_all(items: Seq<Datum>) -> Seq<u8>
    decreases items,
{
    if items.len() == 0 {
        Seq::empty()
    } else {
        encoding(items[0]) + encoding_all(items.skip(1))
    }
}

/// What reading a value of shape `sh` at the front of `input` gives: the
/// value and the number of bytes taken, or the reason for refusing.
pub open spec fn decoding(sh: Shape, input: Seq<u8>) -> Result<(Datum, nat), DecodeError>
    decreases sh, 0nat,
{
    match sh {
        Shape::Uint(w) => if input.len() < w {
            Err(DecodeError::UnexpectedEnd)
        } else {
            Ok((Datum::Uint { width: w, value: le_value(input.subrange(0, w as int)) }, w))
        },
        Shape::Sint(w) => if input.len() < w {
            Err(DecodeError::UnexpectedEnd)
        } else {
            Ok(
                (
                    Datum::Sint {
                        width: w,
                        number: from_twos_complement(le_value(input.subrange(0, w as int)), w),
                    },
                    w,
                ),
            )
        },
        Shape::Bool => if input.len() == 0 {
            Err(DecodeError::UnexpectedEnd)
        } else if input[0] == 0 {
            Ok((Datum::Bool(false), 1))
        } else if input[0] == 1 {
            Ok((Datum::Bool(true), 1))
        } else {
            Err(DecodeError::InvalidBool)
        },
        Shape::Compact => match compact_parse(input) {
            Err(e) => Err(e),
            Ok((n, used)) => Ok((Datum::Compact(n), used)),
        },
        Shape::Bytes => match compact_parse(input) {
            Err(e) => Err(e),
            Ok((n, used)) => if n > max_len() {
                Err(DecodeError::OutOfRange)
            } else if input.len() < used + n {
                Err(DecodeError::UnexpectedEnd)
            } else {
                Ok((Datum::Bytes(input.subrange(used as int, (used + n) as int)), used + n))
            },
        },
        Shape::Array(n) => if input.len() < n {
            Err(DecodeError::UnexpectedEnd)
        } else {
            Ok((Datum::Array(input.subrange(0, n as int)), n))
        },
        Shape::Sequence(elem) => match compact_parse(input) {
            Err(e) => Err(e),
            Ok((n, used)) => if n > max_len() {
                Err(DecodeError::OutOfRange)
            } else {
                match decoding_repeat(*elem, n, input.skip(used as int)) {
                    Err(e) => Err(e),
                    Ok((items, more)) => Ok((Datum::Sequence(items), used + more)),
                }
            },
        },
        Shape::Tuple(members) => match decoding_all(members, input) {
            Err(e) => Err(e),
            Ok((items, used)) => Ok((Datum::Tuple(items), used)),
        },
        Shape::Variant(variants) => if input.len() == 0 {
            Err(DecodeError::UnexpectedEnd)
        } else if input[0] >= variants.len() {
            Err(DecodeError::InvalidVariantTag)
        } else {
            match variants[input[0] as int] {
                None => Err(DecodeError::InvalidVariantTag),
                Some(members) => match decoding_all(members, input.skip(1)) {
                    Err(e) => Err(e),
                    Ok((fields, used)) => Ok(
                        (Datum::Variant { index: input[0] as nat, fields }, 1 + used),
                    ),
                },
            }
        },
        Shape::Optional(inner) => if input.len() == 0 {
            Err(DecodeError::UnexpectedEnd)
        } else if input[0] == 0 {
            Ok((Datum::Optional(None), 1))
        } else if input[0] == 1 {
            match decoding(*inner, input.skip(1)) {
                Err(e) => Err(e),
                Ok((d, used)) => Ok((Datum::Optional(Some(Box::new(d))), 1 + used)),
            }
        } else {
            Err(DecodeError::InvalidOptionTag)
        },
    }
}

/// Reading one value of each of the shapes of `members`, in order.
pub open spec fn decoding_all(members: Seq<Shape>, input: Seq<u8>) -> Result<
    (Seq<Datum>, nat),
    DecodeError,
>
    decreases members, 0nat,
{
    if members.len() == 0 {
        Ok((Seq::empty(), 0))
    } else {
        match decoding(members[0], input) {
            Err(e) => Err(e),
            Ok((d, used)) => match decoding_all(members.skip(1), input.skip(used as int)) {
                Err(e) => Err(e),
                Ok((rest, more)) => Ok((seq![d] + rest, used + more)),
            },
        }
    }
}

/// Reading `count` values of shape `sh`, one after the other.
pub open spec fn decoding_repeat(sh: Shape, count: nat, input: Seq<u8>) -> Result<
    (Seq<Datum>, nat),
    DecodeError,
>
    decreases sh, count + 1,
{
    if count == 0 {
        Ok((Seq::empty(), 0))
    } else {
        match decoding(sh, input) {
            Err(e) => Err(e),
            Ok((d, used)) => match decoding_repeat(
                sh,
                (count - 1) as nat,
                input.skip(used as int),
            ) {
                Err(e) => Err(e),
                Ok((rest, more)) => Ok((seq![d] + rest, used + more)),
            },
        }
    }
}

/// The widths, in bytes, of the fixed-width integers.
pub open spec fn int_width(w: nat) -> bool {
    w == 1 || w == 2 || w == 4 || w == 8 || w == 16
}

/// Whether `d` is a value of shape `sh` that the wire format can hold.
pub open spec fn has_shape(d: Datum, sh: Shape) -> bool
    decreases d,
{
    match (d, sh) {
        (Datum::Uint { width, value }, Shape::Uint(w)) => width == w && int_width(w) && value
            < pow256(w),
        (Datum::Sint { width, number }, Shape::Sint(w)) => width == w && int_width(w) && -pow256(w)
            <= 2 * number < pow256(w),
        (Datum::Bool(_), Shape::Bool) => true,
        (Datum::Compact(n), Shape::Compact) => n < compact_limit(),
        (Datum::Bytes(s), Shape::Bytes) => s.len() <= max_len(),
        (Datum::Array(s), Shape::Array(n)) => s.len() == n,
        (Datum::Sequence(items), Shape::Sequence(elem)) => items.len() <= max_len() && forall|
            i: int,
        |
            0 <= i < items.len() ==> has_shape(#[trigger] items[i], *elem),
        (Datum::Tuple(items), Shape::Tuple(members)) => have_shapes(items, members),
        (Datum::Variant { index, fields }, Shape::Variant(variants)) => index < variants.len()
            && index < 256 && (variants[index as int] matches Some(members) && have_shapes(
            fields,
            members,
        )),
        (Datum::Optional(None), Shape::Optional(_)) => true,
        (Datum::Optional(Some(inner)), Shape::Optional(of)) => has_shape(*inner, *of),
        _ => false,
    }
}

/// Whether the values of `items` have the shapes of `members`, one for one.
pub open spec fn have_shapes(items: Seq<Datum>, members: Seq<Shape>) -> bool
    decreases items,
{
    items.len() == members.len() && forall|i: int|
        0 <= i < items.len() ==> has_shape(#[trigger] items[i], members[i])
}

/// Whether a shape names only integer widths that exist.
pub open spec fn well_formed(sh: Shape) -> bool
    decreases sh,
{
    match sh {
        Shape::Uint(w) => int_width(w),
        Shape::Sint(w) => int_width(w),
        Shape::Sequence(elem) => well_formed(*elem),
        Shape::Tuple(members) => all_well_formed(members),
        Shape::Variant(variants) => forall|i: int|
            0 <= i < variants.len() ==> (#[trigger] variants[i] matches Some(members)
                ==> all_well_formed(members)),
        Shape::Optional(inner) => well_formed(*inner),
        _ => true,
    }
}

/// Whether every shape of a list is well formed.
pub open spec fn all_well_formed(members: Seq<Shape>) -> bool
    decreases members,
{
    forall|i: int| 0 <= i < members.len() ==> well_formed(#[trigger] members[i])
}

/// Writing a list with one more value at its end appends that value.
pub proof fn lemma_encoding_all_push(items: Seq<Datum>, last: Datum)
    ensures
        encoding_all(items.push(last)) == encoding_all(items) + encoding(last),
    decreases items.len(),
{
    let all = items.push(last);
    if items.len() == 0 {
        assert(all.skip(1) =~= Seq::<Datum>::empty());
        assert(encoding_all(all.skip(1)) =~= Seq::<u8>::empty());
        assert(encoding_all(all) =~= encoding(last));
        assert(encoding_all(items) + encoding(last) =~= encoding(last));
    } else {
        assert(all.skip(1) =~= items.skip(1).push(last));
        lemma_encoding_all_push(items.skip(1), last);
        assert(encoding_all(all) =~= encoding_all(items) + encoding(last));
    }
}

/// The largest number of `width` bytes.
fn width_mask(width: usize) -> (mask: u128)
    requires
        int_width(width as nat),
    ensures
        mask as nat == pow256(width as nat) - 1,
{
    proof {
        lemma_pow256_values();
    }
    if width == 1 {
        0xff
    } else if width == 2 {
        0xffff
    } else if width == 4 {
        0xffff_ffff
    } else if width == 8 {
        0xffff_ffff_ffff_ffff
    } else {
        0xffff_ffff_ffff_ffff_ffff_ffff_ffff_ffff
    }
}

/// The residue of `x` in `width` bytes, as two's complement has it.
fn residue(x: i128, width: usize) -> (r: u128)
    requires
        int_width(width as nat),
        -pow256(width as nat) <= 2 * x < pow256(width as nat),
    ensures
        r as nat == twos_complement(x as int, width as nat),
        r < pow256(width as nat),
{
    proof {
        lemma_pow256_values();
    }
    if x >= 0 {
        x as u128
    } else {
        let mask: u128 = width_mask(width);
        let below: u128 = (-(x + 1)) as u128;
        mask - below
    }
}

/// Appends what each value of `items` is written as, in order.
pub fn encode_all_into(items: &Vec<Value>, out: &mut Vec<u8>)
    ensures
        final(out)@ == old(out)@ + encoding_all(models(items@)),
    decreases items,
{
    let n: usize = items.len();
    let mut i: usize = 0;
    let ghost all = models(items@);
    assert(out@ =~= old(out)@ + encoding_all(all.take(0)));
    while i < n
        invariant
            i <= n,
            n == items@.len(),
            all == models(items@),
            out@ == old(out)@ + encoding_all(all.take(i as int)),
        decreases n - i,
    {
        encode_into(&items[i], out);
        proof {
            assert(all.take(i + 1) =~= all.take(i as int).push(all[i as int]));
            lemma_encoding_all_push(all.take(i as int), all[i as int]);
        }
        i = i + 1;
    }
    assert(all.take(n as int) =~= all);
}

/// Appends what `v` is written as.
pub fn encode_into(v: &Value, out: &mut Vec<u8>)
    ensures
        final(out)@ == old(out)@ + encoding(v@),
    decreases v,
{
    proof {
        lemma_pow256_values();
    }
    match v {
        Value::U8(x) => push_le(out, *x as u128, 1),
        Value::U16(x) => push_le(out, *x as u128, 2),
        Value::U32(x) => push_le(out, *x as u128, 4),
        Value::U64(x) => push_le(out, *x as u128, 8),
        Value::U128(x) => push_le(out, *x, 16),
        Value::I8(x) => push_le(out, residue(*x as i128, 1), 1),
        Value::I16(x) => push_le(out, residue(*x as i128, 2), 2),
        Value::I32(x) => push_le(out, residue(*x as i128, 4), 4),
        Value::I64(x) => push_le(out, residue(*x as i128, 8), 8),
        Value::I128(x) => push_le(out, residue(*x, 16), 16),
        Value::Bool(b) => {
            out.push(if *b { 1u8 } else { 0u8 });
            assert(out@ =~= old(out)@ + encoding(v@));
        },
        Value::Compact(n) => push_compact(out, *n),
        Value::Bytes(bytes) => {
            push_compact(out, bytes.len() as u128);
            push_bytes(out, bytes.as_slice());
            assert(out@ =~= old(out)@ + encoding(v@));
        },
        Value::Array(bytes) => push_bytes(out, bytes.as_slice()),
        Value::Sequence(items) => {
            push_compact(out, items.len() as u128);
            encode_all_into(items, out);
            assert(out@ =~= old(out)@ + encoding(v@));
        },
        Value::Tuple(items) => encode_all_into(items, out),
        Value::Variant(index, fields) => {
            out.push(*index);
            encode_all_into(fields, out);
            assert(out@ =~= old(out)@ + encoding(v@));
        },
        Value::Optional(None) => {
            out.push(0u8);
            assert(out@ =~= old(out)@ + encoding(v@));
        },
        Value::Optional(Some(inner)) => {
            out.push(1u8);
            encode_into(inner, out);
            assert(out@ =~= old(out)@ + encoding(v@));
        },
    }
}

/// What `v` is written as.
pub fn encode(v: &Value) -> (out: Vec<u8>)
    ensures
        out@ == encoding(v@),
{
    let mut out: Vec<u8> = Vec::new();
    encode_into(v, &mut out);
    assert(out@ =~= encoding(v@));
    out
}

/// Whether a decoder's answer is the one that the format prescribes.
pub open spec fn answers(
    r: Result<(Value, usize), DecodeError>,
    expected: Result<(Datum, nat), DecodeError>,
) -> bool {
    match expected {
        Ok((d, used)) => r is Ok && r->Ok_0.0@ == d && r->Ok_0.1 == used,
        Err(e) => r is Err && r->Err_0 == e,
    }
}

/// Whether a list decoder's answer is the one that the format prescribes.
pub open spec fn answers_all(
    r: Result<(Vec<Value>, usize), DecodeError>,
    expected: Result<(Seq<Datum>, nat), DecodeError>,
) -> bool {
    match expected {
        Ok((ds, used)) => r is Ok && models(r->Ok_0.0@) == ds && r->Ok_0.1 == used,
        Err(e) => r is Err && r->Err_0 == e,
    }
}

/// A list decoder's answer once `done` has been read in `used` bytes and
/// `next` is the answer for what is left.
pub open spec fn after(
    done: Seq<Datum>,
    used: nat,
    next: Result<(Seq<Datum>, nat), DecodeError>,
) -> Result<(Seq<Datum>, nat), DecodeError> {
    match next {
        Ok((rest, more)) => Ok((done + rest, used + more)),
        Err(e) => Err(e),
    }
}

/// The signed number that the `width`-byte residue `n` stands for.
fn signed(n: u128, width: usize) -> (x: i128)
    requires
        int_width(width as nat),
        n < pow256(width as nat),
    ensures
        x as int == from_twos_complement(n as nat, width as nat),
        -pow256(width as nat) <= 2 * x < pow256(width as nat),
{
    proof {
        lemma_pow256_values();
    }
    let mask: u128 = width_mask(width);
    if n <= mask / 2 {
        n as i128
    } else {
        let below: i128 = (mask - n) as i128;
        -below - 1
    }
}

/// Reads the `width`-byte unsigned integer at `start`.
fn read_uint(input: &[u8], start: usize, width: usize) -> (r: Result<u128, DecodeError>)
    requires
        start <= input@.len(),
        1 <= width <= 16,
    ensures
        input@.len() - start < width ==> r == Err::<u128, DecodeError>(
            DecodeError::UnexpectedEnd,
        ),
        input@.len() - start >= width ==> r is Ok && r->Ok_0 as nat == le_value(
            input@.skip(start as int).subrange(0, width as int),
        ) && r->Ok_0 < pow256(width as nat),
{
    if input.len() - start < width {
        return Err(DecodeError::UnexpectedEnd);
    }
    let x: u128 = read_le(input, start, width);
    proof {
        let part = input@.skip(start as int).subrange(0, width as int);
        assert(part =~= input@.subrange(start as int, start + width));
        lemma_le_value_bound(part);
    }
    Ok(x)
}

/// Reads one value of each of the types of `members` at `start`, in order.
fn decode_all_at(members: &Vec<TypeDescriptor>, input: &[u8], start: usize) -> (r: Result<
    (Vec<Value>, usize),
    DecodeError,
>)
    requires
        start <= input@.len(),
    ensures
        answers_all(r, decoding_all(shapes(members@), input@.skip(start as int))),
        r is Ok ==> start + r->Ok_0.1 <= input@.len(),
    decreases members, 0nat,
{
    let n: usize = members.len();
    let len: usize = input.len();
    let mut items: Vec<Value> = Vec::new();
    let mut pos: usize = start;
    let mut i: usize = 0;
    let ghost shs = shapes(members@);
    let ghost tail = input@.skip(start as int);
    proof {
        assert(shs.skip(0) =~= shs);
        assert(models(items@) =~= Seq::<Datum>::empty());
        let next = decoding_all(shs, tail);
        match next {
            Ok((rest, more)) => {
                assert(Seq::<Datum>::empty() + rest =~= rest);
            },
            Err(e) => {},
        }
    }
    while i < n
        invariant
            i <= n,
            n == members@.len(),
            len == input@.len(),
            shs == shapes(members@),
            tail == input@.skip(start as int),
            start <= pos <= len,
            decoding_all(shs, tail) == after(
                models(items@),
                (pos - start) as nat,
                decoding_all(shs.skip(i as int), input@.skip(pos as int)),
            ),
        decreases n - i,
    {
        let ghost cur = shs.skip(i as int);
        let ghost here = input@.skip(pos as int);
        let ghost done = models(items@);
        assert(cur[0] == members@[i as int]@);
        match decode_at(&members[i], input, pos) {
            Err(e) => {
                return Err(e);
            },
            Ok((v, used)) => {
                items.push(v);
                proof {
                    assert(cur.skip(1) =~= shs.skip(i + 1));
                    assert(here.skip(used as int) =~= input@.skip(pos + used));
                    assert(models(items@) =~= done.push(v@));
                    match decoding_all(shs.skip(i + 1), input@.skip(pos + used)) {
                        Ok((rest, more)) => {
                            assert(done + (seq![v@] + rest) =~= done.push(v@) + rest);
                        },
                        Err(e) => {},
                    }
                }
                pos = pos + used;
                i = i + 1;
            },
        }
    }
    proof {
        assert(shs.skip(n as int) =~= Seq::<Shape>::empty());
        assert(models(items@) + Seq::<Datum>::empty() =~= models(items@));
    }
    Ok((items, pos - start))
}

/// Reads `count` values of type `elem` at `start`, one after the other.
fn decode_repeat_at(elem: &TypeDescriptor, count: usize, input: &[u8], start: usize) -> (r:
    Result<(Vec<Value>, usize), DecodeError>)
    requires
        start <= input@.len(),
    ensures
        answers_all(r, decoding_repeat(elem@, count as nat, input@.skip(start as int))),
        r is Ok ==> start + r->Ok_0.1 <= input@.len(),
    decreases elem, 1nat,
{
    let len: usize = input.len();
    let mut items: Vec<Value> = Vec::new();
    let mut pos: usize = start;
    let mut i: usize = 0;
    let ghost tail = input@.skip(start as int);
    proof {
        assert(models(items@) =~= Seq::<Datum>::empty());
        match decoding_repeat(elem@, count as nat, tail) {
            Ok((rest, more)) => {
                assert(Seq::<Datum>::empty() + rest =~= rest);
            },
            Err(e) => {},
        }
    }
    while i < count
        invariant
            i <= count,
            len == input@.len(),
            tail == input@.skip(start as int),
            start <= pos <= len,
            decoding_repeat(elem@, count as nat, tail) == after(
                models(items@),
                (pos - start) as nat,
                decoding_repeat(elem@, (count - i) as nat, input@.skip(pos as int)),
            ),
        decreases count - i,
    {
        let ghost here = input@.skip(pos as int);
        let ghost done = models(items@);
        match decode_at(elem, input, pos) {
            Err(e) => {
                return Err(e);
            },
            Ok((v, used)) => {
                items.push(v);
                proof {
                    assert(here.skip(used as int) =~= input@.skip(pos + used));
                    assert(models(items@) =~= done.push(v@));
                    match decoding_repeat(
                        elem@,
                        (count - i - 1) as nat,
                        input@.skip(pos + used),
                    ) {
                        Ok((rest, more)) => {
                            assert(done + (seq![v@] + rest) =~= done.push(v@) + rest);
                        },
                        Err(e) => {},
                    }
                }
                pos = pos + used;
                i = i + 1;
            },
        }
    }
    proof {
        assert(models(items@) + Seq::<Datum>::empty() =~= models(items@));
    }
    Ok((items, pos - start))
}

/// Reads the unsigned integer of `width` bytes at `start`.
fn decode_uint_at(width: usize, input: &[u8], start: usize) -> (r: Result<
    (Value, usize),
    DecodeError,
>)
    requires
        start <= input@.len(),
        int_width(width as nat),
    ensures
        answers(r, decoding(Shape::Uint(width as nat), input@.skip(start as int))),
        r is Ok ==> start + r->Ok_0.1 <= input@.len(),
{
    proof {
        lemma_pow256_values();
    }
    match read_uint(input, start, width) {
        Err(e) => Err(e),
        Ok(x) => {
            let v = if width == 1 {
                Value::U8(x as u8)
            } else if width == 2 {
                Value::U16(x as u16)
            } else if width == 4 {
                Value::U32(x as u32)
            } else if width == 8 {
                Value::U64(x as u64)
            } else {
                Value::U128(x)
            };
            Ok((v, width))
        },
    }
}

/// Reads the signed integer of `width` bytes at `start`.
fn decode_sint_at(width: usize, input: &[u8], start: usize) -> (r: Result<
    (Value, usize),
    DecodeError,
>)
    requires
        start <= input@.len(),
        int_width(width as nat),
    ensures
        answers(r, decoding(Shape::Sint(width as nat), input@.skip(start as int))),
        r is Ok ==> start + r->Ok_0.1 <= input@.len(),
{
    proof {
        lemma_pow256_values();
    }
    match read_uint(input, start, width) {
        Err(e) => Err(e),
        Ok(x) => {
            let y: i128 = signed(x, width);
            let v = if width == 1 {
                Value::I8(y as i8)
            } else if width == 2 {
                Value::I16(y as i16)
            } else if width == 4 {
                Value::I32(y as i32)
            } else if width == 8 {
                Value::I64(y as i64)
            } else {
                Value::I128(y)
            };
            Ok((v, width))
        },
    }
}

/// Reads the boolean at `start`.
fn decode_bool_at(input: &[u8], start: usize) -> (r: Result<(Value, usize), DecodeError>)
    requires
        start <= input@.len(),
    ensures
        answers(r, decoding(Shape::Bool, input@.skip(start as int))),
        r is Ok ==> start + r->Ok_0.1 <= input@.len(),
{
    if start >= input.len() {
        return Err(DecodeError::UnexpectedEnd);
    }
    let b: u8 = input[start];
    assert(input@.skip(start as int)[0] == b);
    if b == 0 {
        Ok((Value::Bool(false), 1))
    } else if b == 1 {
        Ok((Value::Bool(true), 1))
    } else {
        Err(DecodeError::InvalidBool)
    }
}

/// Reads the byte sequence at `start`.
fn decode_bytes_at(input: &[u8], start: usize) -> (r: Result<(Value, usize), DecodeError>)
    requires
        start <= input@.len(),
    ensures
        answers(r, decoding(Shape::Bytes, input@.skip(start as int))),
        r is Ok ==> start + r->Ok_0.1 <= input@.len(),
{
    let ghost tail = input@.skip(start as int);
    match decode_compact_at(input, start) {
        Err(e) => Err(e),
        Ok((n, used)) => {
            if n > 0xffff_ffff {
                return Err(DecodeError::OutOfRange);
            }
            let count: usize = n as usize;
            if input.len() - start - used < count {
                return Err(DecodeError::UnexpectedEnd);
            }
            let bytes = copy_range(input, start + used, start + used + count);
            assert(bytes@ =~= tail.subrange(used as int, used + count));
            Ok((Value::Bytes(bytes), used + count))
        },
    }
}

/// Reads the byte array of `count` bytes at `start`.
fn decode_array_at(count: u32, input: &[u8], start: usize) -> (r: Result<
    (Value, usize),
    DecodeError,
>)
    requires
        start <= input@.len(),
    ensures
        answers(r, decoding(Shape::Array(count as nat), input@.skip(start as int))),
        r is Ok ==> start + r->Ok_0.1 <= input@.len(),
{
    let n: usize = count as usize;
    if input.len() - start < n {
        return Err(DecodeError::UnexpectedEnd);
    }
    let bytes = copy_range(input, start, start + n);
    assert(bytes@ =~= input@.skip(start as int).subrange(0, n as int));
    Ok((Value::Array(bytes), n))
}

/// Reads a value of type `t` at `start`, giving the value and the number
/// of bytes taken.
pub fn decode_at(t: &TypeDescriptor, input: &[u8], start: usize) -> (r: Result<
    (Value, usize),
    DecodeError,
>)
    requires
        start <= input@.len(),
    ensures
        answers(r, decoding(t@, input@.skip(start as int))),
        r is Ok ==> start + r->Ok_0.1 <= input@.len(),
    decreases t, 0nat,
{
    let len: usize = input.len();
    let ghost tail = input@.skip(start as int);
    match t {
        TypeDescriptor::U8 => decode_uint_at(1, input, start),
        TypeDescriptor::U16 => decode_uint_at(2, input, start),
        TypeDescriptor::U32 => decode_uint_at(4, input, start),
        TypeDescriptor::U64 => decode_uint_at(8, input, start),
        TypeDescriptor::U128 => decode_uint_at(16, input, start),
        TypeDescriptor::I8 => decode_sint_at(1, input, start),
        TypeDescriptor::I16 => decode_sint_at(2, input, start),
        TypeDescriptor::I32 => decode_sint_at(4, input, start),
        TypeDescriptor::I64 => decode_sint_at(8, input, start),
        TypeDescriptor::I128 => decode_sint_at(16, input, start),
        TypeDescriptor::Bool => decode_bool_at(input, start),
        TypeDescriptor::Compact => match decode_compact_at(input, start) {
            Err(e) => Err(e),
            Ok((n, used)) => Ok((Value::Compact(n), used)),
        },
        TypeDescriptor::Bytes => decode_bytes_at(input, start),
        TypeDescriptor::Array(n) => decode_array_at(*n, input, start),
        TypeDescriptor::Sequence(elem) => match decode_compact_at(input, start) {
            Err(e) => Err(e),
            Ok((n, used)) => {
                if n > 0xffff_ffff {
                    return Err(DecodeError::OutOfRange);
                }
                let count: usize = n as usize;
                assert(tail.skip(used as int) =~= input@.skip(start + used));
                match decode_repeat_at(elem, count, input, start + used) {
                    Err(e) => Err(e),
                    Ok((items, more)) => Ok((Value::Sequence(items), used + more)),
                }
            },
        },
        TypeDescriptor::Tuple(members) => match decode_all_at(members, input, start) {
            Err(e) => Err(e),
            Ok((items, used)) => Ok((Value::Tuple(items), used)),
        },
        TypeDescriptor::Variant(variants) => {
            if start >= len {
                return Err(DecodeError::UnexpectedEnd);
            }
            let tag: u8 = input[start];
            assert(tail[0] == tag);
            assert(variant_shapes(variants@).len() == variants@.len());
            if tag as usize >= variants.len() {
                return Err(DecodeError::InvalidVariantTag);
            }
            assert(tail.skip(1) =~= input@.skip(start + 1));
            match &variants[tag as usize] {
                None => Err(DecodeError::InvalidVariantTag),
                Some(members) => match decode_all_at(members, input, start + 1) {
                    Err(e) => Err(e),
                    Ok((fields, used)) => Ok((Value::Variant(tag, fields), 1 + used)),
                },
            }
        },
        TypeDescriptor::Optional(inner) => {
            if start >= len {
                return Err(DecodeError::UnexpectedEnd);
            }
            let tag: u8 = input[start];
            assert(tail[0] == tag);
            if tag == 0 {
                Ok((Value::Optional(None), 1))
            } else if tag == 1 {
                assert(tail.skip(1) =~= input@.skip(start + 1));
                match decode_at(inner, input, start + 1) {
                    Err(e) => Err(e),
                    Ok((v, used)) => Ok((Value::Optional(Some(Box::new(v))), 1 + used)),
                }
            } else {
                Err(DecodeError::InvalidOptionTag)
            }
        },
    }
}

/// Reads a value of type `t` at the front of `input`, giving the value and
/// the number of bytes taken.
pub fn decode(t: &TypeDescriptor, input: &[u8]) -> (r: Result<(Value, usize), DecodeError>)
    ensures
        answers(r, decoding(t@, input@)),
        r is Ok ==> r->Ok_0.1 <= input@.len(),
{
    assert(input@.skip(0) =~= input@);
    decode_at(t, input, 0)
}

/// Whether the values of `items` are of the types of `members`, one for one.
pub fn conform_all(items: &Vec<Value>, members: &Vec<TypeDescriptor>) -> (b: bool)
    ensures
        b == have_shapes(models(items@), shapes(members@)),
    decreases items,
{
    let n: usize = items.len();
    if n != members.len() {
        return false;
    }
    let ghost ds = models(items@);
    let ghost shs = shapes(members@);
    let mut i: usize = 0;
    while i < n
        invariant
            i <= n,
            n == items@.len(),
            n == members@.len(),
            ds == models(items@),
            shs == shapes(members@),
            forall|j: int| 0 <= j < i ==> has_shape(#[trigger] ds[j], shs[j]),
        decreases n - i,
    {
        if !conforms(&items[i], &members[i]) {
            assert(!has_shape(ds[i as int], shs[i as int]));
            return false;
        }
        i = i + 1;
    }
    true
}

/// Whether every value of `items` is of type `elem`.
fn conform_each(items: &Vec<Value>, elem: &TypeDescriptor) -> (b: bool)
    ensures
        b == (forall|j: int|
            0 <= j < items@.len() ==> has_shape(#[trigger] models(items@)[j], elem@)),
    decreases items,
{
    let n: usize = items.len();
    let ghost ds = models(items@);
    let mut i: usize = 0;
    while i < n
        invariant
            i <= n,
            n == items@.len(),
            ds == models(items@),
            forall|j: int| 0 <= j < i ==> has_shape(#[trigger] ds[j], elem@),
        decreases n - i,
    {
        if !conforms(&items[i], elem) {
            assert(!has_shape(ds[i as int], elem@));
            return false;
        }
        i = i + 1;
    }
    true
}

/// Whether `v` is a value of type `t` that the wire format can hold.
pub fn conforms(v: &Value, t: &TypeDescriptor) -> (b: bool)
    ensures
        b == has_shape(v@, t@),
    decreases v,
{
    proof {
        lemma_pow256_values();
    }
    match (v, t) {
        (Value::U8(_), TypeDescriptor::U8) => true,
        (Value::U16(_), TypeDescriptor::U16) => true,
        (Value::U32(_), TypeDescriptor::U32) => true,
        (Value::U64(_), TypeDescriptor::U64) => true,
        (Value::U128(_), TypeDescriptor::U128) => true,
        (Value::I8(_), TypeDescriptor::I8) => true,
        (Value::I16(_), TypeDescriptor::I16) => true,
        (Value::I32(_), TypeDescriptor::I32) => true,
        (Value::I64(_), TypeDescriptor::I64) => true,
        (Value::I128(_), TypeDescriptor::I128) => true,
        (Value::Bool(_), TypeDescriptor::Bool) => true,
        (Value::Compact(_), TypeDescriptor::Compact) => true,
        (Value::Bytes(bytes), TypeDescriptor::Bytes) => bytes.len() <= 0xffff_ffff,
        (Value::Array(bytes), TypeDescriptor::Array(n)) => bytes.len() == *n as usize,
        (Value::Sequence(items), TypeDescriptor::Sequence(elem)) => {
            items.len() <= 0xffff_ffff && conform_each(items, elem)
        },
        (Value::Tuple(items), TypeDescriptor::Tuple(members)) => conform_all(items, members),
        (Value::Variant(index, fields), TypeDescriptor::Variant(variants)) => {
            assert(variant_shapes(variants@).len() == variants@.len());
            if (*index as usize) < variants.len() {
                match &variants[*index as usize] {
                    Some(members) => conform_all(fields, members),
                    None => false,
                }
            } else {
                false
            }
        },
        (Value::Optional(None), TypeDescriptor::Optional(_)) => true,
        (Value::Optional(Some(inner)), TypeDescriptor::Optional(of)) => conforms(inner, of),
        _ => false,
    }
}

/// What `v` is written as under the declared type `t`, or the refusal to
/// write a value that is not of that type.
pub fn encode_as(v: &Value, t: &TypeDescriptor) -> (r: Result<Vec<u8>, EncodeError>)
    ensures
        has_shape(v@, t@) ==> r is Ok && r->Ok_0@ == encoding(v@),
        !has_shape(v@, t@) ==> r == Err::<Vec<u8>, EncodeError>(EncodeError::ShapeMismatch),
{
    if conforms(v, t) {
        Ok(encode(v))
    } else {
        Err(EncodeError::ShapeMismatch)
    }
}

/// What reading `input` as exactly one value of shape `sh` gives: the
/// value, where it takes every byte.
pub open spec fn decoding_exact(sh: Shape, input: Seq<u8>) -> Result<Datum, DecodeError> {
    match decoding(sh, input) {
        Err(e) => Err(e),
        Ok((d, used)) => if used == input.len() {
            Ok(d)
        } else {
            Err(DecodeError::TrailingBytes)
        },
    }
}

/// Reads `input` as exactly one value of type `t`.
pub fn decode_exact(t: &TypeDescriptor, input: &[u8]) -> (r: Result<Value, DecodeError>)
    ensures
        match decoding_exact(t@, input@) {
            Ok(d) => r is Ok && r->Ok_0@ == d,
            Err(e) => r is Err && r->Err_0 == e,
        },
{
    match decode(t, input) {
        Err(e) => Err(e),
        Ok((v, used)) => {
            if used == input.len() {
                Ok(v)
            } else {
                Err(DecodeError::TrailingBytes)
            }
        },
    }
}

} // verus!
