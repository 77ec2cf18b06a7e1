//! Exact decimal numbers and their text form.
//!
//! The numeric attributes of a style travel as decimal text: a sign, digits,
//! and optionally a point with more digits. A [`Decimal`] holds such a number
//! exactly, so that writing it out and reading it back changes nothing.

use crate::text::{
    all_digits, char_to_digit, digit_value, digits, digits_value, drop_low_digits, high_part,
    is_digit, lemma_digits_are_digits, lemma_digits_value, lemma_low_digits_are_digits,
    lemma_split_value, low_digits, push_digits, push_low_digits, text_of_integer,
};
use vstd::prelude::*;

verus! {

/// A decimal number as a mathematical value: `mantissa / 10^scale`.
pub struct Number {
    pub mantissa: int,
    pub scale: nat,
}

impl Number {
    /// No zero is kept at the end of the digits behind the point, so that
    /// two numbers of the same value are the same `Number`.
    pub open spec fn normal(self) -> bool {
        self.scale == 0 || self.mantissa % 10 != 0
    }

    /// The number fits a [`Decimal`].
    pub open spec fn fits(self) -> bool {
        i64::MIN <= self.mantissa <= i64::MAX && self.scale <= u8::MAX
    }

    /// The number is one that a [`Decimal`] can hold.
    pub open spec fn valid(self) -> bool {
        self.normal() && self.fits()
    }

    /// The same value with the zeros at the end of the digits behind the
    /// point taken away.
    pub open spec fn reduced(self) -> Number
        decreases self.scale,
    {
        if self.scale > 0 && self.mantissa % 10 == 0 {
            Number { mantissa: self.mantissa / 10, scale: (self.scale - 1) as nat }.reduced()
        } else {
            self
        }
    }

    /// The mantissa without its sign.
    pub open spec fn magnitude(self) -> nat {
        if self.mantissa < 0 {
            (-self.mantissa) as nat
        } else {
            self.mantissa as nat
        }
    }

    /// The whole number `value`.
    pub open spec fn integer(value: int) -> Number {
        Number { mantissa: value, scale: 0 }
    }
}

/// The text of a number: a minus sign where it is negative, the digits before
/// the point, the point, and the digits behind it, of which there is always at
/// least one.
pub open spec fn text_of_number(n: Number) -> Seq<char> {
    let sign = if n.mantissa < 0 {
        seq!['-']
    } else {
        Seq::<char>::empty()
    };
    let fraction = if n.scale == 0 {
        seq!['0']
    } else {
        low_digits(n.magnitude(), n.scale)
    };
    sign + digits(high_part(n.magnitude(), n.scale)) + seq!['.'] + fraction
}

/// The parts of a number's text.
pub struct Parts {
    /// Whether the text starts with a minus sign.
    pub negative: bool,
    /// The digits before the point.
    pub whole: Seq<char>,
    /// The digits behind the point; none where the text has no point.
    pub fraction: Seq<char>,
}

/// Takes the text of a number apart, if it is one: an optional minus sign, one
/// or more digits, and optionally a point followed by one or more digits.
pub open spec fn parts_of_text(text: Seq<char>) -> Option<Parts> {
    let negative = text.len() > 0 && text[0] == '-';
    let body = if negative {
        text.skip(1)
    } else {
        text
    };
    let point = body.index_of_first('.');
    let whole = match point {
        Some(p) => body.take(p),
        None => body,
    };
    let fraction = match point {
        Some(p) => body.skip(p + 1),
        None => Seq::<char>::empty(),
    };
    if whole.len() > 0 && all_digits(whole) && all_digits(fraction) && (point is Some
        ==> fraction.len() > 0) {
        Some(Parts { negative, whole, fraction })
    } else {
        None
    }
}

/// The number that the parts of a text denote, if it fits a [`Decimal`].
pub open spec fn number_of_parts(parts: Parts) -> Option<Number> {
    let magnitude = digits_value(parts.whole + parts.fraction) as int;
    let number = Number {
        mantissa: if parts.negative {
            -magnitude
        } else {
            magnitude
        },
        scale: parts.fraction.len(),
    }.reduced();
    if number.fits() {
        Some(number)
    } else {
        None
    }
}

/// The number that a text denotes, if it is the text of a number that fits a
/// [`Decimal`].
pub open spec fn number_of_text(text: Seq<char>) -> Option<Number> {
    match parts_of_text(text) {
        Some(parts) => number_of_parts(parts),
        None => None,
    }
}

/// An exact decimal number with a 64-bit mantissa and up to 255 digits behind
/// the point.
#[derive(Clone, Copy, Debug, Eq)]
pub struct Decimal {
    mantissa: i64,
    scale: u8,
}

impl View for Decimal {
    type V = Number;

    closed spec fn view(&self) -> Number {
        Number { mantissa: self.mantissa as int, scale: self.scale as nat }
    }
}

impl PartialEq for Decimal {
    fn eq(&self, other: &Decimal) -> (r: bool) {
        self.mantissa == other.mantissa && self.scale == other.scale
    }
}

impl vstd::std_specs::cmp::PartialEqSpecImpl for Decimal {
    open spec fn obeys_eq_spec() -> bool {
        true
    }

    open spec fn eq_spec(&self, other: &Decimal) -> bool {
        self@ == other@
    }
}

impl Decimal {
    /// What holds of every decimal: it holds a valid number.
    #[verifier::type_invariant]
    pub open spec fn well_formed(self) -> bool {
        self@.valid()
    }

    /// The decimal of a whole number.
    pub fn from_integer(value: i64) -> (d: Decimal)
        ensures
            d@ == Number::integer(value as int),
            d.well_formed(),
    {
        Decimal { mantissa: value, scale: 0 }
    }

    /// The mantissa: the number times ten to the power of [`Decimal::scale`].
    pub fn mantissa(&self) -> (m: i64)
        ensures
            m == self@.mantissa,
    {
        self.mantissa
    }

    /// How many digits stand behind the point.
    pub fn scale(&self) -> (s: u8)
        ensures
            s == self@.scale,
    {
        self.scale
    }

    /// The text of the number, as [`text_of_number`] defines it.
    pub fn text(&self) -> (out: String)
        ensures
            out@ == text_of_number(self@),
    {
        let mut out = String::new();
        let magnitude: u64 = if self.mantissa < 0 {
            out.push('-');
            (-(self.mantissa + 1)) as u64 + 1
        } else {
            self.mantissa as u64
        };
        assert(magnitude == self@.magnitude());
        push_digits(&mut out, drop_low_digits(magnitude, self.scale));
        out.push('.');
        if self.scale == 0 {
            out.push('0');
        } else {
            push_low_digits(&mut out, magnitude, self.scale);
        }
        assert(out@ =~= text_of_number(self@));
        out
    }

    /// Reads a number from its text: `Some` exactly for the texts that denote
    /// a number that fits, `None` for every other text.
    pub fn parse(text: &str) -> (r: Option<Decimal>)
        ensures
            match r {
                Some(d) => number_of_text(text@) == Some(d@) && d.well_formed(),
                None => number_of_text(text@) is None,
            },
    {
        let chars = collect_chars(text);
        match find_parts(&chars) {
            Some((start, point, first)) => read_parts(&chars, start, point, first),
            None => None,
        }
    }
}

/// Where the run of digits that starts at `from` ends.
fn digits_end(chars: &Vec<char>, from: usize) -> (to: usize)
    requires
        from <= chars@.len(),
    ensures
        from <= to <= chars@.len(),
        forall|k: int| from <= k < to ==> is_digit(#[trigger] chars@[k]),
        to < chars@.len() ==> !is_digit(chars@[to as int]),
{
    let mut to: usize = from;
    while to < chars.len()
        invariant
            from <= to <= chars@.len(),
            forall|k: int| from <= k < to ==> is_digit(#[trigger] chars@[k]),
        ensures
            from <= to <= chars@.len(),
            forall|k: int| from <= k < to ==> is_digit(#[trigger] chars@[k]),
            to < chars@.len() ==> !is_digit(chars@[to as int]),
        decreases chars@.len() - to,
    {
        if char_to_digit(chars[to]).is_none() {
            break;
        }
        to += 1;
    }
    to
}

/// What the scan of a text says of its parts.
///
/// The scan knows where the digits start (`start`, behind the sign if there
/// is one), where the first run of digits ends (`point`) and, where a point
/// stands there, where the run of digits behind it ends (`end`).
proof fn lemma_parts_scanned(text: Seq<char>, start: int, point: int, end: int)
    requires
        0 <= start <= point <= text.len(),
        start == if text.len() > 0 && text[0] == '-' {
            1int
        } else {
            0int
        },
        forall|k: int| start <= k < point ==> is_digit(#[trigger] text[k]),
        point < text.len() ==> !is_digit(text[point]),
        point < text.len() && text[point] == '.' ==> {
            &&& point + 1 <= end <= text.len()
            &&& forall|k: int| point + 1 <= k < end ==> is_digit(#[trigger] text[k])
            &&& end < text.len() ==> !is_digit(text[end])
        },
    ensures
        parts_of_text(text) == if point == start {
            None
        } else if point == text.len() {
            Some(
                Parts {
                    negative: start == 1,
                    whole: text.subrange(start, point),
                    fraction: Seq::<char>::empty(),
                },
            )
        } else if text[point] != '.' || end < text.len() || end == point + 1 {
            None
        } else {
            Some(
                Parts {
                    negative: start == 1,
                    whole: text.subrange(start, point),
                    fraction: text.subrange(point + 1, text.len() as int),
                },
            )
        },
{
    let body = if start == 1 {
        text.skip(1)
    } else {
        text
    };
    let p = point - start;
    assert forall|k: int| 0 <= k < p implies body[k] != '.' by {
        assert(is_digit(text[k + start]));
    }
    let has_point = point < text.len() && text[point] == '.';
    lemma_first_point(body, p, has_point);
    if has_point {
        let whole = body.take(p);
        let fraction = body.skip(p + 1);
        assert(whole =~= text.subrange(start, point));
        assert(fraction =~= text.subrange(point + 1, text.len() as int));
        if p > 0 {
            assert forall|k: int| 0 <= k < whole.len() implies is_digit(#[trigger] whole[k]) by {
                assert(is_digit(text[k + start]));
            }
        }
        if end < text.len() {
            assert(!is_digit(fraction[end - point - 1]));
        } else {
            assert forall|k: int| 0 <= k < fraction.len() implies is_digit(
                #[trigger] fraction[k],
            ) by {
                assert(is_digit(text[k + point + 1]));
            }
        }
    } else if point == text.len() {
        assert(body =~= text.subrange(start, point));
        assert forall|k: int| 0 <= k < body.len() implies is_digit(#[trigger] body[k]) by {
            assert(is_digit(text[k + start]));
        }
    }
}

/// Finds the parts of a number's text: where its digits start, where the
/// digits before the point end, and where those behind it start.
fn find_parts(chars: &Vec<char>) -> (r: Option<(usize, usize, usize)>)
    ensures
        match r {
            Some((start, point, first)) => {
                &&& start <= point <= first <= chars@.len()
                &&& parts_of_text(chars@) == Some(
                    Parts {
                        negative: start == 1,
                        whole: chars@.subrange(start as int, point as int),
                        fraction: chars@.subrange(first as int, chars@.len() as int),
                    },
                )
            },
            None => parts_of_text(chars@) is None,
        },
{
    let n: usize = chars.len();
    let start: usize = if n > 0 && chars[0] == '-' {
        1
    } else {
        0
    };
    let point = digits_end(chars, start);
    let end = if point < n && chars[point] == '.' {
        digits_end(chars, point + 1)
    } else {
        n
    };
    proof {
        lemma_parts_scanned(chars@, start as int, point as int, end as int);
    }
    if point == start {
        None
    } else if point == n {
        proof {
            assert(chars@.subrange(n as int, n as int) =~= Seq::<char>::empty());
        }
        Some((start, point, n))
    } else if chars[point] != '.' || end < n || end == point + 1 {
        None
    } else {
        Some((start, point, point + 1))
    }
}

/// Where the digits behind the point end once the zeros at their end are left
/// out.
fn significant_end(chars: &Vec<char>, first: usize) -> (end: usize)
    requires
        first <= chars@.len(),
    ensures
        first <= end <= chars@.len(),
        forall|k: int| end <= k < chars@.len() ==> chars@[k] == '0',
        end > first ==> chars@[end - 1] != '0',
{
    let mut end: usize = chars.len();
    while end > first && chars[end - 1] == '0'
        invariant
            first <= end <= chars@.len(),
            forall|k: int| end <= k < chars@.len() ==> chars@[k] == '0',
        decreases end,
    {
        end -= 1;
    }
    end
}

/// The number that the parts found by [`find_parts`] denote.
fn read_parts(chars: &Vec<char>, start: usize, point: usize, first: usize) -> (r: Option<Decimal>)
    requires
        start <= point <= first <= chars@.len(),
        all_digits(chars@.subrange(start as int, point as int)),
        all_digits(chars@.subrange(first as int, chars@.len() as int)),
    ensures
        ({
            let parts = Parts {
                negative: start == 1,
                whole: chars@.subrange(start as int, point as int),
                fraction: chars@.subrange(first as int, chars@.len() as int),
            };
            match r {
                Some(d) => number_of_parts(parts) == Some(d@) && d.well_formed(),
                None => number_of_parts(parts) is None,
            }
        }),
{
    let negative = start == 1;
    let end = significant_end(chars, first);
    let ghost whole = chars@.subrange(start as int, point as int);
    let ghost fraction = chars@.subrange(first as int, chars@.len() as int);
    let ghost kept = chars@.subrange(first as int, end as int);
    let ghost zeros = chars@.subrange(end as int, chars@.len() as int);
    let limit: u64 = if negative {
        9223372036854775808
    } else {
        9223372036854775807
    };
    proof {
        assert(digits_value(Seq::<char>::empty()) == 0);
        assert(Seq::<char>::empty() + whole =~= whole);
        assert(fraction =~= kept + zeros);
        assert(whole + fraction =~= (whole + kept) + zeros);
        assert forall|k: int| 0 <= k < kept.len() implies is_digit(#[trigger] kept[k]) by {
            assert(kept[k] == fraction[k]);
        }
        if kept.len() > 0 {
            assert((whole + kept).last() == kept.last());
            assert(kept.last() == chars@[end - 1]);
        }
        lemma_reduced_drops_zeros(whole + kept, zeros, kept.len(), negative);
    }
    let whole_value = match accumulate(chars, start, point, 0, limit, Ghost(Seq::empty())) {
        Some(v) => v,
        None => {
            proof {
                lemma_value_grows(whole, kept);
            }
            return None;
        },
    };
    let magnitude = match accumulate(chars, first, end, whole_value, limit, Ghost(whole)) {
        Some(v) => v,
        None => {
            return None;
        },
    };
    if end - first > 255 {
        return None;
    }
    let mantissa: i64 = if !negative {
        magnitude as i64
    } else if magnitude == 9223372036854775808 {
        i64::MIN
    } else {
        -(magnitude as i64)
    };
    Some(Decimal { mantissa, scale: (end - first) as u8 })
}

/// The digits before and behind the point in the text of a number.
pub open spec fn parts_of_number(n: Number) -> Parts {
    Parts {
        negative: n.mantissa < 0,
        whole: digits(high_part(n.magnitude(), n.scale)),
        fraction: if n.scale == 0 {
            seq!['0']
        } else {
            low_digits(n.magnitude(), n.scale)
        },
    }
}

/// The text of a number is taken apart into the parts it was made of.
proof fn lemma_parts_of_number_text(n: Number)
    ensures
        parts_of_text(text_of_number(n)) == Some(parts_of_number(n)),
{
    let parts = parts_of_number(n);
    let whole = parts.whole;
    let fraction = parts.fraction;
    let body = whole + seq!['.'] + fraction;
    let text = text_of_number(n);
    lemma_digits_are_digits(high_part(n.magnitude(), n.scale));
    lemma_low_digits_are_digits(n.magnitude(), n.scale);
    assert(is_digit(whole[0]));
    if parts.negative {
        assert(text =~= seq!['-'] + body);
        assert(text[0] == '-');
        assert(text.skip(1) =~= body);
    } else {
        assert(text =~= body);
        assert(text[0] == whole[0]);
    }
    assert forall|k: int| 0 <= k < whole.len() implies body[k] != '.' by {
        assert(is_digit(whole[k]));
    }
    assert(body[whole.len() as int] == '.');
    lemma_first_point(body, whole.len() as int, true);
    assert(body.take(whole.len() as int) =~= whole);
    assert(body.skip(whole.len() as int + 1) =~= fraction);
}

/// The parts of a valid number's text denote the number.
proof fn lemma_number_of_its_parts(n: Number)
    requires
        n.valid(),
    ensures
        number_of_parts(parts_of_number(n)) == Some(n),
{
    let parts = parts_of_number(n);
    let magnitude = n.magnitude();
    if n.scale == 0 {
        lemma_digits_value(magnitude);
        assert((parts.whole + parts.fraction).drop_last() =~= parts.whole);
        assert((parts.whole + parts.fraction).last() == '0');
        assert(digits_value(parts.whole + parts.fraction) == magnitude * 10);
        let raw = Number {
            mantissa: if parts.negative {
                -(magnitude * 10)
            } else {
                (magnitude * 10) as int
            },
            scale: 1,
        };
        assert(raw.mantissa % 10 == 0);
        assert(raw.mantissa / 10 == n.mantissa);
        assert(raw.reduced() == Number { mantissa: n.mantissa, scale: 0 }.reduced());
        assert(Number { mantissa: n.mantissa, scale: 0 }.reduced() == n);
    } else {
        lemma_split_value(magnitude, n.scale);
        lemma_low_digits_are_digits(magnitude, n.scale);
        assert(n.reduced() == n);
    }
}

/// Writing a number out and reading the text back gives the number again.
pub proof fn lemma_text_round_trip(n: Number)
    requires
        n.valid(),
    ensures
        number_of_text(text_of_number(n)) == Some(n),
{
    lemma_parts_of_number_text(n);
    lemma_number_of_its_parts(n);
}

/// The text of a whole number is read as that whole number.
pub proof fn lemma_integer_text_is_read_back(value: int)
    requires
        i64::MIN <= value <= i64::MAX,
    ensures
        number_of_text(text_of_integer(value)) == Some(Number::integer(value)),
{
    let magnitude = Number::integer(value).magnitude();
    let body = digits(magnitude);
    let text = text_of_integer(value);
    lemma_digits_are_digits(magnitude);
    lemma_digits_value(magnitude);
    assert(is_digit(body[0]));
    if value < 0 {
        assert(text[0] == '-');
        assert(text.skip(1) =~= body);
    } else {
        assert(text[0] == body[0]);
    }
    assert forall|k: int| 0 <= k < body.len() implies body[k] != '.' by {
        assert(is_digit(body[k]));
    }
    lemma_first_point(body, body.len() as int, false);
    assert(body + Seq::<char>::empty() =~= body);
}

/// The characters of a text, in a vector.
fn collect_chars(text: &str) -> (chars: Vec<char>)
    ensures
        chars@ == text@,
{
    broadcast use vstd::string::group_string_axioms;

    let mut chars: Vec<char> = Vec::new();
    let source = text.chars();
    for c in it: source
        invariant
            it.seq() == text@,
            chars@ == text@.take(it.index()),
    {
        chars.push(c);
        proof {
            assert(text@.take(it.index() + 1) =~= text@.take(it.index()).push(c));
        }
    }
    proof {
        assert(text@.take(text@.len() as int) =~= text@);
    }
    chars
}

/// Carries the value of the digits `before` on through the digits that stand
/// from `from` up to `to`; `None` where the value passes `limit`.
fn accumulate(
    chars: &Vec<char>,
    from: usize,
    to: usize,
    start: u64,
    limit: u64,
    Ghost(before): Ghost<Seq<char>>,
) -> (r: Option<u64>)
    requires
        from <= to <= chars@.len(),
        all_digits(chars@.subrange(from as int, to as int)),
        start == digits_value(before),
        start <= limit,
        limit >= 9,
    ensures
        match r {
            Some(v) => v == digits_value(before + chars@.subrange(from as int, to as int)) && v
                <= limit,
            None => digits_value(before + chars@.subrange(from as int, to as int)) > limit,
        },
{
    let ghost span = chars@.subrange(from as int, to as int);
    let mut value: u64 = start;
    let mut i: usize = from;
    proof {
        assert(before + span.take(0) =~= before);
    }
    while i < to
        invariant
            from <= i <= to <= chars@.len(),
            span == chars@.subrange(from as int, to as int),
            all_digits(span),
            value == digits_value(before + span.take(i - from)),
            value <= limit,
            limit >= 9,
        decreases to - i,
    {
        let ghost sofar = before + span.take(i - from);
        let ghost next = before + span.take(i - from + 1);
        proof {
            assert(next.drop_last() =~= sofar);
            assert(next.last() == span[i - from]);
            assert(span[i - from] == chars@[i as int]);
        }
        let d: u64 = match char_to_digit(chars[i]) {
            Some(d) => d as u64,
            None => {
                return None;
            },
        };
        if value > (limit - d) / 10 {
            proof {
                assert(span =~= span.take(i - from + 1) + span.skip(i - from + 1));
                assert(before + span =~= next + span.skip(i - from + 1));
                lemma_value_grows(next, span.skip(i - from + 1));
            }
            return None;
        }
        value = value * 10 + d;
        i += 1;
    }
    proof {
        assert(span.take(to - from) =~= span);
    }
    Some(value)
}

/// Where a text has no point before position `p`, its first point stands at
/// `p` if there is one there, and it has none if `p` is its end.
proof fn lemma_first_point(body: Seq<char>, p: int, found: bool)
    requires
        0 <= p <= body.len(),
        forall|k: int| 0 <= k < p ==> body[k] != '.',
        found ==> p < body.len() && body[p] == '.',
        !found ==> (p == body.len() || (p < body.len() && body[p] != '.' && !is_digit(body[p]))),
    ensures
        found ==> body.index_of_first('.') == Some(p),
        !found && p == body.len() ==> body.index_of_first('.') is None,
        !found && p < body.len() ==> match body.index_of_first('.') {
            Some(q) => p < q && !all_digits(body.take(q)),
            None => !all_digits(body),
        },
{
    body.index_of_first_ensures('.');
    match body.index_of_first('.') {
        Some(q) => {
            if !found && p < body.len() {
                assert(body.take(q)[p] == body[p]);
            }
        },
        None => {
            if found {
                assert(body.contains('.'));
            }
        },
    }
}

/// More digits never make the value smaller.
proof fn lemma_value_grows(s: Seq<char>, more: Seq<char>)
    requires
        all_digits(more),
    ensures
        digits_value(s + more) >= digits_value(s),
    decreases more.len(),
{
    if more.len() == 0 {
        assert(s + more =~= s);
    } else {
        lemma_value_grows(s, more.drop_last());
        assert((s + more).drop_last() =~= s + more.drop_last());
        assert((s + more).last() == more.last());
        assert(is_digit(more.last()));
    }
}

/// Zeros at the end of the digits behind the point are taken away by
/// [`Number::reduced`], and what is left is normal where its last digit
/// behind the point is no zero.
proof fn lemma_reduced_drops_zeros(s: Seq<char>, zeros: Seq<char>, scale: nat, negative: bool)
    requires
        forall|k: int| 0 <= k < zeros.len() ==> zeros[k] == '0',
        scale > 0 ==> s.len() > 0 && is_digit(s.last()) && s.last() != '0',
    ensures
        ({
            let long = digits_value(s + zeros) as int;
            let short = digits_value(s) as int;
            Number {
                mantissa: if negative {
                    -long
                } else {
                    long
                },
                scale: scale + zeros.len(),
            }.reduced() == (Number {
                mantissa: if negative {
                    -short
                } else {
                    short
                },
                scale: scale,
            })
        }),
    decreases zeros.len(),
{
    if zeros.len() == 0 {
        assert(s + zeros =~= s);
        if scale > 0 {
            assert(digits_value(s) == digits_value(s.drop_last()) * 10 + digit_value(s.last()));
        }
    } else {
        lemma_reduced_drops_zeros(s, zeros.drop_last(), scale, negative);
        assert((s + zeros).drop_last() =~= s + zeros.drop_last());
        assert((s + zeros).last() == '0');
        assert(digits_value(s + zeros) == digits_value(s + zeros.drop_last()) * 10);
    }
}

} // verus!
