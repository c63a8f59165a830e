//! Scalars as text.

use vstd::prelude::*;

use super::scalars::{
    abs, lemma_digit_count_bound, pairs_view, pow10, scalars_view, truncated_quotient, DecimalData,
    Scalar, ScalarView,
};
use crate::schema::{bool_str, bool_text, fields_view, FieldView, StructField};
use crate::text::{decimal, push_decimal};

verus! {

/// What is left of a division that is cut off towards zero; it has the sign of the dividend.
pub open spec fn truncated_remainder(x: int, y: int) -> int
    recommends
        y != 0,
{
    let remainder = abs(x) as int % abs(y) as int;
    if x < 0 {
        -remainder
    } else {
        remainder
    }
}

/// A text with zeros before it, up to a width.
pub open spec fn zero_padded(text: Seq<char>, width: nat) -> Seq<char> {
    if text.len() < width {
        Seq::new((width - text.len()) as nat, |i: int| '0') + text
    } else {
        text
    }
}

/// A decimal as text: the whole part, and the digits after the point where the type has any.
pub open spec fn decimal_text(data: DecimalData) -> Seq<char> {
    let bits = data.bits_spec() as int;
    let scale = data.ty_spec().scale_spec() as nat;
    if scale == 0 {
        decimal(bits)
    } else {
        let multiple = pow10(scale) as int;
        decimal(truncated_quotient(bits, multiple)) + "."@ + zero_padded(
            decimal(truncated_remainder(bits, multiple)),
            scale,
        )
    }
}

/// The first `n` bytes as text.
pub open spec fn bytes_text(bytes: Seq<u8>, n: nat) -> Seq<char>
    decreases n,
{
    if n == 0 || n > bytes.len() {
        Seq::empty()
    } else {
        let before = if n == 1 {
            Seq::empty()
        } else {
            bytes_text(bytes, (n - 1) as nat) + ", "@
        };
        before + decimal(bytes[n - 1] as int)
    }
}

/// A scalar as text.
pub open spec fn scalar_text(scalar: ScalarView) -> Seq<char>
    decreases scalar, 0nat,
{
    match scalar {
        ScalarView::Integer(v) => decimal(v as int),
        ScalarView::Long(v) => decimal(v as int),
        ScalarView::Short(v) => decimal(v as int),
        ScalarView::Byte(v) => decimal(v as int),
        ScalarView::Float(v) => v.text,
        ScalarView::Double(v) => v.text,
        ScalarView::String(v) => "'"@ + v + "'"@,
        ScalarView::Boolean(v) => bool_text(v),
        ScalarView::Timestamp(v) => decimal(v as int),
        ScalarView::TimestampNtz(v) => decimal(v as int),
        ScalarView::IntervalYearMonth(v) => decimal(v as int),
        ScalarView::IntervalDayTime(v) => decimal(v as int),
        ScalarView::Date(v) => decimal(v as int),
        ScalarView::Binary(v) => "["@ + bytes_text(v, v.len()) + "]"@,
        ScalarView::Decimal(v) => decimal_text(v),
        ScalarView::Null(_) => "null"@,
        ScalarView::Struct(fields, values) => "{"@ + values_text(fields, values, values.len())
            + "}"@,
        ScalarView::Array(_, elements) => "("@ + elements_text(elements, elements.len()) + ")"@,
        ScalarView::Mapping(_, pairs) => "{"@ + pairs_text(pairs, pairs.len()) + "}"@,
    }
}

/// The first `n` elements of a list as text.
pub open spec fn elements_text(elements: Seq<ScalarView>, n: nat) -> Seq<char>
    decreases elements, n,
{
    if n == 0 || n > elements.len() {
        Seq::empty()
    } else {
        let before = if n == 1 {
            Seq::empty()
        } else {
            elements_text(elements, (n - 1) as nat) + ", "@
        };
        before + scalar_text(elements[n - 1])
    }
}

/// The first `n` values of a struct as text, each after the name of its field. Values without a
/// field are left out.
pub open spec fn values_text(fields: Seq<FieldView>, values: Seq<ScalarView>, n: nat) -> Seq<char>
    decreases values, n,
{
    if n == 0 || n > values.len() {
        Seq::empty()
    } else if n > fields.len() {
        values_text(fields, values, (n - 1) as nat)
    } else {
        let before = if n == 1 {
            Seq::empty()
        } else {
            values_text(fields, values, (n - 1) as nat) + ", "@
        };
        before + fields[n - 1].name + ": "@ + scalar_text(values[n - 1])
    }
}

/// The first `n` pairs as text.
pub open spec fn pairs_text(pairs: Seq<(ScalarView, ScalarView)>, n: nat) -> Seq<char>
    decreases pairs, n,
{
    if n == 0 || n > pairs.len() {
        Seq::empty()
    } else {
        let before = if n == 1 {
            Seq::empty()
        } else {
            pairs_text(pairs, (n - 1) as nat) + ", "@
        };
        before + scalar_text(pairs[n - 1].0) + ": "@ + scalar_text(pairs[n - 1].1)
    }
}

/// Appends a text with zeros before it, up to a width.
fn push_zero_padded(out: &mut String, text: &str, width: usize)
    ensures
        final(out)@ == old(out)@ + zero_padded(text@, width as nat),
{
    let len: usize = text.unicode_len();
    if len < width {
        let zeros: usize = width - len;
        let mut i: usize = 0;
        while i < zeros
            invariant
                i <= zeros,
                out@ == old(out)@ + Seq::new(i as nat, |k: int| '0'),
            decreases zeros - i,
        {
            out.push('0');
            i += 1;
            assert(out@ =~= old(out)@ + Seq::new(i as nat, |k: int| '0'));
        }
    }
    let ghost before = out@;
    out.append(text);
    assert(out@ =~= old(out)@ + zero_padded(text@, width as nat));
}

/// Ten to the power of `n`.
fn power_of_ten(n: u8) -> (r: i128)
    requires
        n <= 38,
    ensures
        r == pow10(n as nat),
        r > 0,
{
    let mut r: i128 = 1;
    let mut i: u8 = 0;
    while i < n
        invariant
            i <= n <= 38,
            r == pow10(i as nat),
            r > 0,
        decreases n - i,
    {
        proof {
            lemma_pow10_bound((i + 1) as nat);
        }
        r = r * 10;
        i += 1;
    }
    r
}

proof fn lemma_pow10_bound(n: nat)
    requires
        n <= 38,
    ensures
        pow10(n) <= i128::MAX,
{
    lemma_pow10_grows(n, 38);
    reveal_with_fuel(pow10, 39);
}

proof fn lemma_pow10_grows(n: nat, m: nat)
    requires
        n <= m,
    ensures
        0 < pow10(n) <= pow10(m),
    decreases m,
{
    if n < m {
        lemma_pow10_grows(n, (m - 1) as nat);
    } else if n > 0 {
        lemma_pow10_grows((n - 1) as nat, (n - 1) as nat);
    }
}

fn push_decimal_data(out: &mut String, data: &DecimalData)
    ensures
        final(out)@ == old(out)@ + decimal_text(*data),
{
    let bits: i128 = data.bits();
    let scale: u8 = data.scale();
    if scale == 0 {
        push_decimal(out, bits);
        return;
    }
    proof {
        lemma_digit_count_bound(abs(bits as int), data.ty_spec().precision_spec() as nat);
    }
    let precision: u8 = data.ty().precision();
    proof {
        lemma_pow10_bound(precision as nat);
    }
    let multiple: i128 = power_of_ten(scale);
    let magnitude: i128 = if bits < 0 {
        -bits
    } else {
        bits
    };
    let whole: i128 = magnitude / multiple;
    let rest: i128 = magnitude % multiple;
    let negative: bool = bits < 0;
    push_decimal(
        out,
        if negative {
            -whole
        } else {
            whole
        },
    );
    out.append(".");
    let mut tail: String = String::new();
    push_decimal(
        &mut tail,
        if negative {
            -rest
        } else {
            rest
        },
    );
    push_zero_padded(out, tail.as_str(), scale as usize);
    proof {
        assert(tail@ =~= decimal(truncated_remainder(bits as int, multiple as int)));
        assert(out@ =~= old(out)@ + decimal_text(*data));
    }
}

fn push_bytes(out: &mut String, bytes: &[u8])
    ensures
        final(out)@ == old(out)@ + bytes_text(bytes@, bytes@.len()),
{
    let mut i: usize = 0;
    assert(out@ =~= old(out)@ + bytes_text(bytes@, 0));
    while i < bytes.len()
        invariant
            i <= bytes.len(),
            out@ == old(out)@ + bytes_text(bytes@, i as nat),
        decreases bytes.len() - i,
    {
        if i > 0 {
            out.append(", ");
        }
        push_decimal(out, bytes[i] as i128);
        i += 1;
        assert(out@ =~= old(out)@ + bytes_text(bytes@, i as nat));
    }
}

fn push_elements(out: &mut String, elements: &[Scalar])
    ensures
        final(out)@ == old(out)@ + elements_text(scalars_view(elements@), elements@.len()),
    decreases elements@,
{
    let mut i: usize = 0;
    assert(out@ =~= old(out)@ + elements_text(scalars_view(elements@), 0));
    while i < elements.len()
        invariant
            i <= elements.len(),
            out@ == old(out)@ + elements_text(scalars_view(elements@), i as nat),
        decreases elements.len() - i,
    {
        if i > 0 {
            out.append(", ");
        }
        assert(decreases_to!(elements@ => elements@[i as int]));
        elements[i].push_text(out);
        i += 1;
        assert(out@ =~= old(out)@ + elements_text(scalars_view(elements@), i as nat));
    }
}

fn push_values(out: &mut String, fields: &[StructField], values: &[Scalar])
    ensures
        final(out)@ == old(out)@ + values_text(
            fields_view(fields@),
            scalars_view(values@),
            values@.len(),
        ),
    decreases values@,
{
    let mut i: usize = 0;
    assert(out@ =~= old(out)@ + values_text(fields_view(fields@), scalars_view(values@), 0));
    while i < values.len()
        invariant
            i <= values.len(),
            out@ == old(out)@ + values_text(
                fields_view(fields@),
                scalars_view(values@),
                i as nat,
            ),
        decreases values.len() - i,
    {
        if i < fields.len() {
            if i > 0 {
                out.append(", ");
            }
            out.append(fields[i].name.as_str());
            out.append(": ");
            assert(decreases_to!(values@ => values@[i as int]));
            values[i].push_text(out);
        }
        i += 1;
        assert(out@ =~= old(out)@ + values_text(
            fields_view(fields@),
            scalars_view(values@),
            i as nat,
        ));
    }
}

fn push_pairs(out: &mut String, pairs: &[(Scalar, Scalar)])
    ensures
        final(out)@ == old(out)@ + pairs_text(pairs_view(pairs@), pairs@.len()),
    decreases pairs@,
{
    let mut i: usize = 0;
    assert(out@ =~= old(out)@ + pairs_text(pairs_view(pairs@), 0));
    while i < pairs.len()
        invariant
            i <= pairs.len(),
            out@ == old(out)@ + pairs_text(pairs_view(pairs@), i as nat),
        decreases pairs.len() - i,
    {
        if i > 0 {
            out.append(", ");
        }
        assert(decreases_to!(pairs@ => pairs@[i as int]));
        pairs[i].0.push_text(out);
        out.append(": ");
        pairs[i].1.push_text(out);
        i += 1;
        assert(out@ =~= old(out)@ + pairs_text(pairs_view(pairs@), i as nat));
    }
}

impl Scalar {
    /// Appends the scalar as text.
    pub fn push_text(&self, out: &mut String)
        ensures
            final(out)@ == old(out)@ + scalar_text(self@),
        decreases self,
    {
        match self {
            Scalar::Integer(v) => push_decimal(out, *v as i128),
            Scalar::Long(v) => push_decimal(out, *v as i128),
            Scalar::Short(v) => push_decimal(out, *v as i128),
            Scalar::Byte(v) => push_decimal(out, *v as i128),
            Scalar::Float(v) => out.append(v.text.as_str()),
            Scalar::Double(v) => out.append(v.text.as_str()),
            Scalar::String(v) => {
                out.append("'");
                out.append(v.as_str());
                out.append("'");
            },
            Scalar::Boolean(v) => out.append(bool_str(*v)),
            Scalar::Timestamp(v) => push_decimal(out, *v as i128),
            Scalar::TimestampNtz(v) => push_decimal(out, *v as i128),
            Scalar::IntervalYearMonth(v) => push_decimal(out, *v as i128),
            Scalar::IntervalDayTime(v) => push_decimal(out, *v as i128),
            Scalar::Date(v) => push_decimal(out, *v as i128),
            Scalar::Binary(v) => {
                out.append("[");
                push_bytes(out, v.as_slice());
                out.append("]");
            },
            Scalar::Decimal(v) => push_decimal_data(out, v),
            Scalar::Null(_) => out.append("null"),
            Scalar::Struct(data) => {
                out.append("{");
                push_values(out, data.fields.as_slice(), data.values.as_slice());
                out.append("}");
            },
            Scalar::Array(data) => {
                out.append("(");
                push_elements(out, data.elements.as_slice());
                out.append(")");
            },
            Scalar::Mapping(data) => {
                out.append("{");
                push_pairs(out, data.pairs.as_slice());
                out.append("}");
            },
        }
        assert(out@ =~= old(out)@ + scalar_text(self@));
    }

    /// The scalar as text.
    pub fn to_string(&self) -> (r: String)
        ensures
            r@ == scalar_text(self@),
    {
        let mut text: String = String::new();
        self.push_text(&mut text);
        assert(text@ =~= scalar_text(self@));
        text
    }
}

} // verus!
