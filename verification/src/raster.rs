//! The raster-attribute clause of a Sixel payload.
//!
//! A payload may open with `"` followed by decimal fields separated by `;`.
//! The full form `Pa;Pb;Ph;Pv` carries the pixel aspect ratio and then the
//! width and height; the short form `Ph;Pv` carries width and height alone.
//! Anything else is treated as a payload without raster attributes.

use vstd::prelude::*;

verus! {

/// The byte that opens a raster-attribute clause: `"`.
pub const QUOTE: u8 = 0x22;

/// The byte that separates the fields of a clause: `;`.
pub const SEMICOLON: u8 = 0x3b;

/// The largest value a field may hold.
pub const FIELD_MAX: u32 = 65535;

pub open spec fn is_digit(b: u8) -> bool {
    0x30 <= b <= 0x39
}

/// Bytes that may occur inside a clause: digits and the separator.
pub open spec fn is_clause_byte(b: u8) -> bool {
    is_digit(b) || b == SEMICOLON
}

/// The length of the longest prefix of `s` made of clause bytes.
pub open spec fn clause_len(s: Seq<u8>) -> nat
    decreases s.len(),
{
    if s.len() > 0 && is_clause_byte(s[0]) {
        1 + clause_len(s.skip(1))
    } else {
        0
    }
}

/// The clause of a payload that opens with `"`: the digits and separators
/// that follow the quote, up to the first other byte or the payload's end.
pub open spec fn raster_clause(data: Seq<u8>) -> Seq<u8>
    recommends
        data.len() > 0,
{
    data.subrange(1, 1 + clause_len(data.skip(1)) as int)
}

/// `s` cut at every `;`. A clause with `k` separators has `k + 1` fields,
/// some of which may be empty.
pub open spec fn split_fields(s: Seq<u8>) -> Seq<Seq<u8>>
    decreases s.len(),
{
    if s.len() == 0 {
        seq![Seq::<u8>::empty()]
    } else {
        let init = split_fields(s.drop_last());
        if s.last() == SEMICOLON {
            init.push(Seq::<u8>::empty())
        } else {
            init.update(init.len() - 1, init.last().push(s.last()))
        }
    }
}

/// The number that a sequence of ASCII digits writes in base ten.
pub open spec fn decimal(digits: Seq<u8>) -> nat
    decreases digits.len(),
{
    if digits.len() == 0 {
        0
    } else {
        decimal(digits.drop_last()) * 10 + (digits.last() - 0x30) as nat
    }
}

/// A field is well formed when it has at least one digit and its value fits
/// in sixteen bits. Leading zeros are allowed.
pub open spec fn field_ok(field: Seq<u8>) -> bool {
    field.len() > 0 && decimal(field) <= FIELD_MAX
}

/// Width and height named by the fields of a clause: the last two fields
/// when there are exactly two or exactly four well-formed fields, and
/// `(0, 0)` otherwise.
pub open spec fn dims_of_fields(fields: Seq<Seq<u8>>) -> (u16, u16) {
    if (fields.len() == 2 || fields.len() == 4) && (forall|k: int|
        0 <= k < fields.len() ==> field_ok(#[trigger] fields[k])) {
        (decimal(fields[fields.len() - 2]) as u16, decimal(fields[fields.len() - 1]) as u16)
    } else {
        (0, 0)
    }
}

/// Width and height declared by a payload, `(0, 0)` when it declares none.
pub open spec fn raster_dims(data: Seq<u8>) -> (u16, u16) {
    if data.len() == 0 || data[0] != QUOTE {
        (0, 0)
    } else {
        dims_of_fields(split_fields(raster_clause(data)))
    }
}

/// A field's value as the parser tracks it: exact up to `FIELD_MAX`, and
/// one more than that for everything larger.
pub open spec fn capped(v: nat) -> nat {
    if v > FIELD_MAX {
        (FIELD_MAX + 1) as nat
    } else {
        v
    }
}

/// A prefix of clause bytes that cannot be extended is the longest one.
pub proof fn lemma_clause_len_is(s: Seq<u8>, k: int)
    requires
        0 <= k <= s.len(),
        forall|j: int| 0 <= j < k ==> is_clause_byte(#[trigger] s[j]),
        k == s.len() || !is_clause_byte(s[k]),
    ensures
        clause_len(s) == k,
    decreases k,
{
    if k > 0 {
        let t = s.skip(1);
        assert forall|j: int| 0 <= j < k - 1 implies is_clause_byte(#[trigger] t[j]) by {
            assert(t[j] == s[j + 1]);
        }
        lemma_clause_len_is(t, k - 1);
    }
}

/// Every clause has at least one field.
pub proof fn lemma_split_fields_nonempty(s: Seq<u8>)
    ensures
        split_fields(s).len() >= 1,
    decreases s.len(),
{
    if s.len() > 0 {
        lemma_split_fields_nonempty(s.drop_last());
    }
}

/// How the fields change when one more byte joins the clause.
pub proof fn lemma_split_fields_push(s: Seq<u8>, b: u8)
    ensures
        split_fields(s).len() >= 1,
        b == SEMICOLON ==> split_fields(s.push(b)) == split_fields(s).push(Seq::<u8>::empty()),
        b != SEMICOLON ==> split_fields(s.push(b)) == split_fields(s).update(
            split_fields(s).len() - 1,
            split_fields(s).last().push(b),
        ),
{
    lemma_split_fields_nonempty(s);
    assert(s.push(b).drop_last() =~= s);
}

/// Appending a digit multiplies the value by ten and adds the digit.
pub proof fn lemma_decimal_push(digits: Seq<u8>, b: u8)
    requires
        is_digit(b),
    ensures
        decimal(digits.push(b)) == decimal(digits) * 10 + (b - 0x30),
{
    assert(digits.push(b).drop_last() =~= digits);
}

/// Every byte of `s` is an ASCII digit.
pub open spec fn all_digits(s: Seq<u8>) -> bool {
    forall|i: int| 0 <= i < s.len() ==> is_digit(#[trigger] s[i])
}

/// Digits without a separator form a single field.
pub proof fn lemma_split_digits(digits: Seq<u8>)
    requires
        all_digits(digits),
    ensures
        split_fields(digits) == seq![digits],
    decreases digits.len(),
{
    if digits.len() == 0 {
        assert(digits =~= Seq::<u8>::empty());
        assert(split_fields(digits) =~= seq![digits]);
    } else {
        let init = digits.drop_last();
        assert forall|i: int| 0 <= i < init.len() implies is_digit(#[trigger] init[i]) by {
            assert(init[i] == digits[i]);
        }
        lemma_split_digits(init);
        lemma_split_fields_push(init, digits.last());
        assert(init.push(digits.last()) =~= digits);
        assert(split_fields(digits) =~= seq![digits]);
    }
}

/// A separator followed by digits adds one field, made of those digits.
pub proof fn lemma_split_append_field(s: Seq<u8>, digits: Seq<u8>)
    requires
        all_digits(digits),
    ensures
        split_fields(s + seq![SEMICOLON] + digits) == split_fields(s).push(digits),
    decreases digits.len(),
{
    let whole = s + seq![SEMICOLON] + digits;
    if digits.len() == 0 {
        assert(whole =~= s.push(SEMICOLON));
        lemma_split_fields_push(s, SEMICOLON);
        assert(digits =~= Seq::<u8>::empty());
        assert(split_fields(whole) =~= split_fields(s).push(digits));
    } else {
        let init = digits.drop_last();
        assert forall|i: int| 0 <= i < init.len() implies is_digit(#[trigger] init[i]) by {
            assert(init[i] == digits[i]);
        }
        lemma_split_append_field(s, init);
        let shorter = s + seq![SEMICOLON] + init;
        assert(whole =~= shorter.push(digits.last()));
        lemma_split_fields_push(shorter, digits.last());
        assert(init.push(digits.last()) =~= digits);
        assert(split_fields(whole) =~= split_fields(s).push(digits));
    }
}

/// The clause of a payload that opens with `"`, then `clause`, then
/// something that is no clause byte, is `clause`.
pub proof fn lemma_clause_found(clause: Seq<u8>, rest: Seq<u8>)
    requires
        forall|i: int| 0 <= i < clause.len() ==> is_clause_byte(#[trigger] clause[i]),
        rest.len() == 0 || !is_clause_byte(rest[0]),
    ensures
        raster_clause(seq![QUOTE] + clause + rest) == clause,
{
    let data = seq![QUOTE] + clause + rest;
    let tail = data.skip(1);
    assert(tail =~= clause + rest);
    assert forall|j: int| 0 <= j < clause.len() implies is_clause_byte(#[trigger] tail[j]) by {
        assert(tail[j] == clause[j]);
    }
    lemma_clause_len_is(tail, clause.len() as int);
    assert(data.subrange(1, 1 + clause.len() as int) =~= clause);
}

/// A payload that does not open with `"` declares no size.
pub proof fn lemma_no_clause_no_size(data: Seq<u8>)
    requires
        data.len() == 0 || data[0] != QUOTE,
    ensures
        raster_dims(data) == (0u16, 0u16),
{
}

/// The short form: `"`, a width, `;`, a height, and then anything that
/// cannot continue the clause. The payload declares that width and height.
pub proof fn lemma_short_form(width: Seq<u8>, height: Seq<u8>, rest: Seq<u8>)
    requires
        all_digits(width),
        all_digits(height),
        field_ok(width),
        field_ok(height),
        rest.len() == 0 || !is_clause_byte(rest[0]),
    ensures
        raster_dims(seq![QUOTE] + (width + seq![SEMICOLON] + height) + rest) == (
            decimal(width) as u16,
            decimal(height) as u16,
        ),
{
    let clause = width + seq![SEMICOLON] + height;
    lemma_clause_found(clause, rest);
    lemma_split_digits(width);
    lemma_split_append_field(width, height);
    let fields = split_fields(clause);
    assert(fields =~= seq![width, height]);
    assert((seq![QUOTE] + clause + rest)[0] == QUOTE);
}

/// The full form: `"`, the two parts of the pixel aspect ratio, a width and
/// a height, separated by `;`, and then anything that cannot continue the
/// clause. The payload declares that width and height, whatever the aspect
/// ratio.
pub proof fn lemma_full_form(
    aspect_num: Seq<u8>,
    aspect_den: Seq<u8>,
    width: Seq<u8>,
    height: Seq<u8>,
    rest: Seq<u8>,
)
    requires
        all_digits(aspect_num),
        all_digits(aspect_den),
        all_digits(width),
        all_digits(height),
        field_ok(aspect_num),
        field_ok(aspect_den),
        field_ok(width),
        field_ok(height),
        rest.len() == 0 || !is_clause_byte(rest[0]),
    ensures
        raster_dims(
            seq![QUOTE] + (aspect_num + seq![SEMICOLON] + aspect_den + seq![SEMICOLON] + width
                + seq![SEMICOLON] + height) + rest,
        ) == (decimal(width) as u16, decimal(height) as u16),
{
    let two = aspect_num + seq![SEMICOLON] + aspect_den;
    let three = two + seq![SEMICOLON] + width;
    let clause = three + seq![SEMICOLON] + height;
    lemma_clause_found(clause, rest);
    lemma_split_digits(aspect_num);
    lemma_split_append_field(aspect_num, aspect_den);
    lemma_split_append_field(two, width);
    lemma_split_append_field(three, height);
    let fields = split_fields(clause);
    assert(fields =~= seq![aspect_num, aspect_den, width, height]);
    assert((seq![QUOTE] + clause + rest)[0] == QUOTE);
}

/// Reads the width and height that a payload declares.
///
/// The payload is everything between the introducer and the terminator of
/// one Sixel sequence. The result is `(0, 0)` unless the payload opens with
/// a well-formed clause of two or of four fields.
pub fn parse_raster(data: &[u8]) -> (dims: (u16, u16))
    ensures
        dims == raster_dims(data@),
{
    let n: usize = data.len();
    if n == 0 || data[0] != QUOTE {
        return (0, 0);
    }
    let mut i: usize = 1;
    let mut done: usize = 0;
    let mut all_ok: bool = true;
    let mut cur_some: bool = false;
    let mut cur: u32 = 0;
    let mut prev: u32 = 0;
    proof {
        assert(data@.subrange(1, 1) =~= Seq::<u8>::empty());
    }
    while i < n
        invariant
            n == data@.len(),
            1 <= i <= n,
            done < i,
            forall|j: int| 1 <= j < i ==> is_clause_byte(#[trigger] data@[j]),
            split_fields(data@.subrange(1, i as int)).len() == done + 1,
            cur_some == (split_fields(data@.subrange(1, i as int)).last().len() > 0),
            cur == capped(decimal(split_fields(data@.subrange(1, i as int)).last())),
            done > 0 ==> prev == capped(
                decimal(split_fields(data@.subrange(1, i as int))[done - 1]),
            ),
            all_ok == (forall|k: int|
                0 <= k < done ==> field_ok(
                    #[trigger] split_fields(data@.subrange(1, i as int))[k],
                )),
        ensures
            1 <= i <= n,
            i == n || !is_clause_byte(data@[i as int]),
        decreases n - i,
    {
        let b: u8 = data[i];
        let ghost before = data@.subrange(1, i as int);
        let ghost fields = split_fields(before);
        proof {
            lemma_split_fields_push(before, b);
            assert(data@.subrange(1, i + 1) =~= before.push(b));
        }
        if b == SEMICOLON {
            all_ok = all_ok && cur_some && cur <= FIELD_MAX;
            prev = cur;
            cur = 0;
            cur_some = false;
            done = done + 1;
            proof {
                let after = split_fields(data@.subrange(1, i + 1));
                assert(after == fields.push(Seq::<u8>::empty()));
                assert forall|k: int| 0 <= k < done - 1 implies after[k] == fields[k] by {}
                assert(after[done - 1] == fields.last());
            }
        } else if 0x30 <= b && b <= 0x39 {
            proof {
                lemma_decimal_push(fields.last(), b);
                let after = split_fields(data@.subrange(1, i + 1));
                assert(after == fields.update(fields.len() - 1, fields.last().push(b)));
                assert forall|k: int| 0 <= k < done implies after[k] == fields[k] by {}
            }
            if cur <= FIELD_MAX {
                cur = cur * 10 + (b - 0x30) as u32;
                if cur > FIELD_MAX {
                    cur = FIELD_MAX + 1;
                }
            }
            cur_some = true;
        } else {
            break;
        }
        i = i + 1;
    }
    proof {
        let tail = data@.skip(1);
        assert forall|j: int| 0 <= j < i - 1 implies is_clause_byte(#[trigger] tail[j]) by {
            assert(tail[j] == data@[j + 1]);
        }
        if i < n {
            assert(tail[i - 1] == data@[i as int]);
        }
        lemma_clause_len_is(tail, i - 1);
        assert(raster_clause(data@) == data@.subrange(1, i as int));
    }
    if all_ok && cur_some && cur <= FIELD_MAX && (done == 1 || done == 3) {
        (prev as u16, cur as u16)
    } else {
        (0, 0)
    }
}

} // verus!
