//! Exact fixed-point decimal amounts: a mantissa together with a decimal
//! scale, so that balance arithmetic is exact integer arithmetic with no
//! floating-point drift.

use vstd::prelude::*;

verus! {

/// Greatest number of decimal places an `Amount` may carry.
pub const MAX_SCALE: u32 = 14;

/// `10^e` as a mathematical integer.
pub open spec fn pow10(e: nat) -> int
    decreases e,
{
    if e == 0 {
        1
    } else {
        10 * pow10((e - 1) as nat)
    }
}

/// Bound on an amount's value, measured in units of `10^-MAX_SCALE`.
/// Chosen so that the sum or difference of any two amounts fits in `i128`,
/// and so that every amount's mantissa stays within what the decimal
/// library can carry when an amount is printed.
pub open spec fn amount_limit() -> int {
    pow10(28)
}

/// Whether a value in units of `10^-MAX_SCALE` is representable as an `Amount`.
pub open spec fn in_amount_range(v: int) -> bool {
    -amount_limit() <= v <= amount_limit()
}

pub proof fn lemma_pow10_pos(e: nat)
    ensures
        pow10(e) >= 1,
    decreases e,
{
    if e > 0 {
        lemma_pow10_pos((e - 1) as nat);
    }
}

pub proof fn lemma_pow10_adds(a: nat, b: nat)
    ensures
        pow10(a + b) == pow10(a) * pow10(b),
    decreases a,
{
    if a == 0 {
    } else {
        lemma_pow10_adds((a - 1) as nat, b);
        assert(10 * (pow10((a - 1) as nat) * pow10(b)) == (10 * pow10((a - 1) as nat)) * pow10(
            b,
        )) by (nonlinear_arith);
    }
}

pub proof fn lemma_pow10_mono(a: nat, b: nat)
    requires
        a <= b,
    ensures
        pow10(a) <= pow10(b),
    decreases b,
{
    if a < b {
        lemma_pow10_mono(a, (b - 1) as nat);
        lemma_pow10_pos((b - 1) as nat);
    }
}

pub proof fn lemma_pow10_28()
    ensures
        pow10(28) == 10000000000000000000000000000int,
{
    reveal_with_fuel(pow10, 40);
}

/// An exact decimal number `mantissa * 10^-scale`, mirroring the value model
/// of a fixed-point decimal library: the scale is carried through arithmetic
/// (the result of `+`/`-` keeps the larger operand's scale), and equality is
/// equality of values, not of representations.
#[derive(Clone, Copy, Debug)]
pub struct Amount {
    m: i128,
    s: u32,
}

/// Mantissas of two amounts brought to their common (larger) scale.
pub closed spec fn spec_align(a: Amount, b: Amount) -> (int, int, u32) {
    if a.spec_scale() >= b.spec_scale() {
        (
            a.spec_mantissa() as int,
            b.spec_mantissa() * pow10((a.spec_scale() - b.spec_scale()) as nat),
            a.spec_scale(),
        )
    } else {
        (
            a.spec_mantissa() * pow10((b.spec_scale() - a.spec_scale()) as nat),
            b.spec_mantissa() as int,
            b.spec_scale(),
        )
    }
}

impl Amount {
    pub closed spec fn spec_mantissa(self) -> i128 {
        self.m
    }

    pub closed spec fn spec_scale(self) -> u32 {
        self.s
    }

    /// The value of this amount in units of `10^-MAX_SCALE`.
    pub open spec fn val(self) -> int {
        self.spec_mantissa() * pow10((MAX_SCALE - self.spec_scale()) as nat)
    }

    /// Well-formedness: the scale is in range and the value is bounded.
    /// Every executable `Amount` satisfies this; spec-level laws that build
    /// amounts out of thin air state it explicitly.
    pub open spec fn wf(self) -> bool {
        self.spec_scale() <= MAX_SCALE && in_amount_range(self.val())
    }

    #[verifier::type_invariant]
    pub(crate) open spec fn inv(self) -> bool {
        self.wf()
    }

    /// The sum of two amounts, at the common scale.  Mirrored exactly by
    /// `checked_add` whenever the sum is in range; `lemma_add_val` gives its
    /// value and scale.
    pub closed spec fn spec_add(self, other: Amount) -> Amount {
        let (am, bm, s) = spec_align(self, other);
        Amount { m: (am + bm) as i128, s }
    }

    /// The negation of an amount, keeping its scale.
    pub closed spec fn spec_neg(self) -> Amount {
        Amount { m: (-self.spec_mantissa()) as i128, s: self.spec_scale() }
    }

    /// The difference of two amounts, at the common scale.
    pub open spec fn spec_sub(self, other: Amount) -> Amount {
        self.spec_add(other.spec_neg())
    }

    /// An amount with the given mantissa and scale: `new(15, 1)` is `1.5`.
    /// A mantissa of up to `10^14` in magnitude is representable at every
    /// scale.
    pub fn new(mantissa: i64, scale: u32) -> (r: Amount)
        requires
            scale <= MAX_SCALE,
            -100000000000000 <= mantissa <= 100000000000000,
        ensures
            r.spec_mantissa() == mantissa,
            r.spec_scale() == scale,
            r.wf(),
    {
        proof {
            reveal_with_fuel(pow10, 30);
            lemma_pow10_mono((MAX_SCALE - scale) as nat, 14);
            lemma_pow10_pos((MAX_SCALE - scale) as nat);
            assert(-amount_limit() <= mantissa * pow10((MAX_SCALE - scale) as nat)
                <= amount_limit()) by (nonlinear_arith)
                requires
                    -100000000000000 <= mantissa <= 100000000000000,
                    1 <= pow10((MAX_SCALE - scale) as nat) <= 100000000000000,
                    amount_limit() == 10000000000000000000000000000,
            ;
        }
        Amount { m: mantissa as i128, s: scale }
    }

    /// Zero, at scale 0, as a spec value.
    pub closed spec fn spec_zero() -> Amount {
        Amount { m: 0, s: 0 }
    }

    /// Zero, at scale 0.
    pub fn zero() -> (r: Amount)
        ensures
            r == Amount::spec_zero(),
            r.spec_mantissa() == 0,
            r.spec_scale() == 0,
            r.val() == 0,
            r.wf(),
    {
        proof {
            lemma_pow10_pos(28);
        }
        Amount { m: 0, s: 0 }
    }

    /// The amount an input field's text stands for: nothing when the text
    /// does not parse as a decimal number or its value is not representable.
    pub closed spec fn spec_parse(s: Seq<char>) -> Option<Amount> {
        match decimal_of_str(s) {
            None => None,
            Some(p) => if p.1 <= MAX_SCALE && in_amount_range(
                p.0 * pow10((MAX_SCALE - p.1) as nat),
            ) {
                Some(Amount { m: p.0, s: p.1 })
            } else {
                None
            },
        }
    }

    /// Parses an amount field.  Empty or unparsable text gives an absent
    /// amount; so does a number outside the representable range.
    pub fn parse(s: &str) -> (r: Option<Amount>)
        ensures
            r == Amount::spec_parse(s@),
    {
        match decimal_from_str(s) {
            None => None,
            Some((m, sc)) => {
                if sc > MAX_SCALE {
                    return None;
                }
                let cap = pow10_exec(14 + sc);
                proof {
                    lemma_pow10_adds((14 + sc) as nat, (MAX_SCALE - sc) as nat);
                    lemma_pow10_pos((MAX_SCALE - sc) as nat);
                    lemma_pow10_28();
                }
                if -cap <= m && m <= cap {
                    proof {
                        assert(-amount_limit() <= m * pow10((MAX_SCALE - sc) as nat)
                            <= amount_limit()) by (nonlinear_arith)
                            requires
                                -cap <= m <= cap,
                                pow10((MAX_SCALE - sc) as nat) >= 1,
                                cap * pow10((MAX_SCALE - sc) as nat) == amount_limit(),
                        ;
                    }
                    Some(Amount { m, s: sc })
                } else {
                    proof {
                        assert(!(-amount_limit() <= m * pow10((MAX_SCALE - sc) as nat)
                            <= amount_limit())) by (nonlinear_arith)
                            requires
                                !(-cap <= m <= cap),
                                pow10((MAX_SCALE - sc) as nat) >= 1,
                                cap * pow10((MAX_SCALE - sc) as nat) == amount_limit(),
                        ;
                    }
                    None
                }
            },
        }
    }

    pub fn mantissa(self) -> (r: i128)
        ensures
            r == self.spec_mantissa(),
    {
        self.m
    }

    pub fn scale(self) -> (r: u32)
        ensures
            r == self.spec_scale(),
    {
        self.s
    }

    /// Both mantissas at the common scale, with the facts comparisons need.
    fn align(self, other: Amount) -> (r: (i128, i128, u32))
        ensures
            (r.0 as int, r.1 as int, r.2) == spec_align(self, other),
            r.2 <= MAX_SCALE,
            r.0 * pow10((MAX_SCALE - r.2) as nat) == self.val(),
            r.1 * pow10((MAX_SCALE - r.2) as nat) == other.val(),
            -amount_limit() <= r.0 <= amount_limit(),
            -amount_limit() <= r.1 <= amount_limit(),
    {
        proof {
            use_type_invariant(&self);
            use_type_invariant(&other);
            lemma_pow10_28();
        }
        if self.s >= other.s {
            let f = pow10_exec(self.s - other.s);
            proof {
                lemma_rescale(other.m as int, other.s as nat, self.s as nat);
                lemma_pow10_pos((MAX_SCALE - self.s) as nat);
                lemma_mantissa_bound(
                    other.m * pow10((self.s - other.s) as nat),
                    pow10((MAX_SCALE - self.s) as nat),
                );
                lemma_mantissa_bound(self.m as int, pow10((MAX_SCALE - self.s) as nat));
            }
            let om: i128 = other.m * f;
            (self.m, om, self.s)
        } else {
            let f = pow10_exec(other.s - self.s);
            proof {
                lemma_rescale(self.m as int, self.s as nat, other.s as nat);
                lemma_pow10_pos((MAX_SCALE - other.s) as nat);
                lemma_mantissa_bound(
                    self.m * pow10((other.s - self.s) as nat),
                    pow10((MAX_SCALE - other.s) as nat),
                );
                lemma_mantissa_bound(other.m as int, pow10((MAX_SCALE - other.s) as nat));
            }
            let sm: i128 = self.m * f;
            (sm, other.m, other.s)
        }
    }

    /// Exact addition: `Some` exactly when the sum is in range, and then the
    /// result is `spec_add` of the operands.
    pub fn checked_add(self, other: Amount) -> (r: Option<Amount>)
        ensures
            r is Some <==> in_amount_range(self.val() + other.val()),
            r is Some ==> {
                let c = r->0;
                &&& c == self.spec_add(other)
                &&& c.wf()
                &&& c.val() == self.val() + other.val()
                &&& c.spec_scale() == if self.spec_scale() >= other.spec_scale() {
                    self.spec_scale()
                } else {
                    other.spec_scale()
                }
            },
    {
        let (am, bm, s) = self.align(other);
        proof {
            lemma_pow10_28();
        }
        let sum: i128 = am + bm;
        let cap = pow10_exec(14 + s);
        proof {
            lemma_pow10_adds((14 + s) as nat, (MAX_SCALE - s) as nat);
            lemma_pow10_pos((MAX_SCALE - s) as nat);
            // sum * f is the value of the would-be result
            assert(sum * pow10((MAX_SCALE - s) as nat) == am * pow10((MAX_SCALE - s) as nat) + bm
                * pow10((MAX_SCALE - s) as nat)) by (nonlinear_arith)
                requires
                    sum == am + bm,
            ;
        }
        if -cap <= sum && sum <= cap {
            proof {
                assert(-amount_limit() <= sum * pow10((MAX_SCALE - s) as nat)
                    <= amount_limit()) by (nonlinear_arith)
                    requires
                        -cap <= sum <= cap,
                        pow10((MAX_SCALE - s) as nat) >= 1,
                        cap * pow10((MAX_SCALE - s) as nat) == amount_limit(),
                ;
            }
            Some(Amount { m: sum, s })
        } else {
            proof {
                assert(!(-amount_limit() <= sum * pow10((MAX_SCALE - s) as nat)
                    <= amount_limit())) by (nonlinear_arith)
                    requires
                        !(-cap <= sum <= cap),
                        pow10((MAX_SCALE - s) as nat) >= 1,
                        cap * pow10((MAX_SCALE - s) as nat) == amount_limit(),
                ;
            }
            None
        }
    }

    /// Exact subtraction: `Some` exactly when the difference is in range, and
    /// then the result is `spec_sub` of the operands.
    pub fn checked_sub(self, other: Amount) -> (r: Option<Amount>)
        ensures
            r is Some <==> in_amount_range(self.val() - other.val()),
            r is Some ==> {
                let c = r->0;
                &&& c == self.spec_sub(other)
                &&& c.wf()
                &&& c.val() == self.val() - other.val()
                &&& c.spec_scale() == if self.spec_scale() >= other.spec_scale() {
                    self.spec_scale()
                } else {
                    other.spec_scale()
                }
            },
    {
        proof {
            use_type_invariant(&other);
            lemma_pow10_pos((MAX_SCALE - other.s) as nat);
            assert(-other.m * pow10((MAX_SCALE - other.s) as nat) == -(other.m * pow10((MAX_SCALE
                - other.s) as nat))) by (nonlinear_arith);
            assert(-amount_limit() <= other.m <= amount_limit()) by (nonlinear_arith)
                requires
                    pow10((MAX_SCALE - other.s) as nat) >= 1,
                    -amount_limit() <= other.m * pow10((MAX_SCALE - other.s) as nat)
                        <= amount_limit(),
            ;
            lemma_pow10_28();
        }
        let negated = Amount { m: -other.m, s: other.s };
        self.checked_add(negated)
    }

    /// Value comparison: `self < other` as decimal values.
    pub fn lt(self, other: Amount) -> (r: bool)
        ensures
            r == (self.val() < other.val()),
    {
        let (am, bm, s) = self.align(other);
        proof {
            lemma_pow10_pos((MAX_SCALE - s) as nat);
            assert((am < bm) == (am * pow10((MAX_SCALE - s) as nat) < bm * pow10((MAX_SCALE
                - s) as nat))) by (nonlinear_arith)
                requires
                    pow10((MAX_SCALE - s) as nat) >= 1,
            ;
        }
        am < bm
    }
}

/// What the decimal library's parser yields for a string: the parsed
/// number's mantissa and scale, or nothing when the text does not parse.
pub uninterp spec fn decimal_of_str(s: Seq<char>) -> Option<(i128, u32)>;

/// Relies on rust_decimal: `Decimal::from_str` parses plain decimal text,
/// and `mantissa` / `scale` expose its representation, which always has
/// `|mantissa| <= 2^96 - 1` and `scale <= 28`.
#[verifier::external_body]
fn decimal_from_str(s: &str) -> (r: Option<(i128, u32)>)
    ensures
        r == decimal_of_str(s@),
        r matches Some(p) ==> -79228162514264337593543950335i128 <= p.0
            <= 79228162514264337593543950335i128 && p.1 <= 28,
{
    match <rust_decimal::Decimal as core::str::FromStr>::from_str(s) {
        Ok(d) => Some((d.mantissa(), d.scale())),
        Err(_) => None,
    }
}

/// The zero amount is well-formed and worth nothing.
pub proof fn lemma_zero_props()
    ensures
        Amount::spec_zero().val() == 0,
        Amount::spec_zero().spec_scale() == 0,
        Amount::spec_zero().wf(),
{
    lemma_pow10_pos(28);
}

/// A well-formed amount's mantissa is itself bounded by the value limit.
pub proof fn lemma_wf_mantissa_bound(a: Amount)
    requires
        a.wf(),
    ensures
        -amount_limit() <= a.spec_mantissa() <= amount_limit(),
{
    lemma_pow10_pos((MAX_SCALE - a.spec_scale()) as nat);
    lemma_mantissa_bound(a.spec_mantissa() as int, pow10((MAX_SCALE - a.spec_scale()) as nat));
}

/// The value and scale of a spec-level sum of well-formed amounts.
pub proof fn lemma_add_val(a: Amount, b: Amount)
    requires
        a.wf(),
        b.wf(),
    ensures
        a.spec_add(b).val() == a.val() + b.val(),
        a.spec_add(b).spec_scale() == if a.spec_scale() >= b.spec_scale() {
            a.spec_scale()
        } else {
            b.spec_scale()
        },
        a.spec_add(b).wf() <==> in_amount_range(a.val() + b.val()),
{
    let (am, bm, s) = spec_align(a, b);
    if a.spec_scale() >= b.spec_scale() {
        lemma_rescale(b.spec_mantissa() as int, b.spec_scale() as nat, a.spec_scale() as nat);
    } else {
        lemma_rescale(a.spec_mantissa() as int, a.spec_scale() as nat, b.spec_scale() as nat);
    }
    lemma_pow10_pos((MAX_SCALE - s) as nat);
    lemma_pow10_28();
    assert(-amount_limit() <= am <= amount_limit() && -amount_limit() <= bm
        <= amount_limit()) by (nonlinear_arith)
        requires
            pow10((MAX_SCALE - s) as nat) >= 1,
            -amount_limit() <= am * pow10((MAX_SCALE - s) as nat) <= amount_limit(),
            -amount_limit() <= bm * pow10((MAX_SCALE - s) as nat) <= amount_limit(),
    ;
    assert((am + bm) * pow10((MAX_SCALE - s) as nat) == am * pow10((MAX_SCALE - s) as nat) + bm
        * pow10((MAX_SCALE - s) as nat)) by (nonlinear_arith);
}

/// The value and scale of a spec-level negation of a well-formed amount.
pub proof fn lemma_neg_val(a: Amount)
    requires
        a.wf(),
    ensures
        a.spec_neg().val() == -a.val(),
        a.spec_neg().spec_scale() == a.spec_scale(),
        a.spec_neg().wf(),
{
    lemma_pow10_pos((MAX_SCALE - a.spec_scale()) as nat);
    lemma_pow10_28();
    assert(-amount_limit() <= a.spec_mantissa() <= amount_limit()) by (nonlinear_arith)
        requires
            pow10((MAX_SCALE - a.spec_scale()) as nat) >= 1,
            -amount_limit() <= a.spec_mantissa() * pow10((MAX_SCALE - a.spec_scale()) as nat)
                <= amount_limit(),
    ;
    assert(-a.spec_mantissa() * pow10((MAX_SCALE - a.spec_scale()) as nat) == -(a.spec_mantissa()
        * pow10((MAX_SCALE - a.spec_scale()) as nat))) by (nonlinear_arith);
}

/// The value and scale of a spec-level difference of well-formed amounts.
pub proof fn lemma_sub_val(a: Amount, b: Amount)
    requires
        a.wf(),
        b.wf(),
    ensures
        a.spec_sub(b).val() == a.val() - b.val(),
        a.spec_sub(b).spec_scale() == if a.spec_scale() >= b.spec_scale() {
            a.spec_scale()
        } else {
            b.spec_scale()
        },
        a.spec_sub(b).wf() <==> in_amount_range(a.val() - b.val()),
{
    lemma_neg_val(b);
    lemma_add_val(a, b.spec_neg());
}

/// A mantissa is bounded by any bound on its value.
proof fn lemma_mantissa_bound(m: int, p: int)
    requires
        p >= 1,
        -amount_limit() <= m * p <= amount_limit(),
    ensures
        -amount_limit() <= m <= amount_limit(),
{
    assert(-amount_limit() <= m <= amount_limit()) by (nonlinear_arith)
        requires
            p >= 1,
            -amount_limit() <= m * p <= amount_limit(),
    ;
}

/// Rescaling to a coarser position and then to `MAX_SCALE` is the same as
/// rescaling to `MAX_SCALE` directly.
proof fn lemma_rescale(m: int, s: nat, t: nat)
    requires
        s <= t <= MAX_SCALE,
    ensures
        (m * pow10((t - s) as nat)) * pow10((MAX_SCALE - t) as nat) == m * pow10(
            (MAX_SCALE - s) as nat,
        ),
{
    lemma_pow10_adds((t - s) as nat, (MAX_SCALE - t) as nat);
    assert((m * pow10((t - s) as nat)) * pow10((MAX_SCALE - t) as nat) == m * (pow10(
        (t - s) as nat,
    ) * pow10((MAX_SCALE - t) as nat))) by (nonlinear_arith);
}

/// `10^e`, executable.
pub fn pow10_exec(e: u32) -> (r: i128)
    requires
        e <= 28,
    ensures
        r == pow10(e as nat),
{
    proof {
        lemma_pow10_28();
    }
    let mut r: i128 = 1;
    let mut i: u32 = 0;
    while i < e
        invariant
            i <= e <= 28,
            r == pow10(i as nat),
        decreases e - i,
    {
        proof {
            lemma_pow10_mono((i + 1) as nat, 28);
            lemma_pow10_pos(i as nat);
            lemma_pow10_28();
        }
        r = r * 10;
        i = i + 1;
    }
    r
}

impl PartialEq for Amount {
    /// Amounts are equal when their values are equal, whatever their scales:
    /// `1.5` equals `1.50`.
    fn eq(&self, other: &Amount) -> (r: bool) {
        let (am, bm, s) = (*self).align(*other);
        proof {
            lemma_pow10_pos((MAX_SCALE - s) as nat);
            assert((am == bm) == (am * pow10((MAX_SCALE - s) as nat) == bm * pow10((MAX_SCALE
                - s) as nat))) by (nonlinear_arith)
                requires
                    pow10((MAX_SCALE - s) as nat) >= 1,
            ;
        }
        am == bm
    }
}

impl vstd::std_specs::cmp::PartialEqSpecImpl for Amount {
    open spec fn obeys_eq_spec() -> bool {
        true
    }

    open spec fn eq_spec(&self, other: &Amount) -> bool {
        self.val() == other.val()
    }
}

} // verus!
