//! Sparse polynomials with byte coefficients.
//!
//! A polynomial is a list of terms `coefficient * x^degree`. Its meaning is the
//! function that maps each degree to the sum, modulo 256, of the coefficients
//! of the terms of that degree ([`coefficient_at`]). The canonical form of a
//! polynomial lists each degree at most once, from the highest degree down, and
//! holds no term whose coefficient is zero.

use vstd::prelude::*;
use core::convert::From;
use core::ops::Add;
use core::ops::Div;
use core::ops::Mul;
use core::ops::Sub;
use vstd::std_specs::convert::FromSpecImpl;
use vstd::std_specs::ops::AddSpecImpl;
use vstd::std_specs::ops::DivSpecImpl;
use vstd::std_specs::ops::MulSpecImpl;
use vstd::std_specs::ops::SubSpecImpl;

verus! {

/// One term of a polynomial: `coefficient * x^degree`.
#[derive(Clone, Copy, PartialEq, Eq, Debug, Structural)]
pub struct Indeterminate {
    /// factor in front of the indeterminate
    pub coefficient: u8,
    /// the power to which the indeterminate is raised
    pub degree: i16,
}

/// Why an operation on polynomials was refused.
#[derive(Clone, Copy, PartialEq, Eq, Debug, Structural)]
pub enum PolynomialError {
    /// an operand of a product or a quotient has no terms
    EmptyOperand,
    /// the division does not come out: a leading coefficient is no
    /// multiple of the leading coefficient of the divisor, or the degrees
    /// leave the range of a degree
    InexactDivision,
}

/// A list of terms; see the module documentation for what it stands for.
#[derive(Clone, PartialEq, Eq, Debug)]
pub struct Polynomial {
    pub function: Vec<Indeterminate>,
}

impl View for Polynomial {
    type V = Seq<Indeterminate>;

    open spec fn view(&self) -> Seq<Indeterminate> {
        self.function@
    }
}

/// Sum modulo 256 of the coefficients of the terms of degree `degree`.
pub open spec fn coefficient_at(terms: Seq<Indeterminate>, degree: int) -> int
    decreases terms.len(),
{
    if terms.len() == 0 {
        0
    } else {
        let rest = coefficient_at(terms.drop_last(), degree);
        if terms.last().degree == degree {
            (rest + terms.last().coefficient) % 256
        } else {
            rest
        }
    }
}

/// Some term of `terms` has degree `degree`.
pub open spec fn has_degree(terms: Seq<Indeterminate>, degree: int) -> bool {
    exists|i: int| 0 <= i < terms.len() && (#[trigger] terms[i]).degree == degree
}

/// The degrees fall strictly from each term to the next.
pub open spec fn is_descending(terms: Seq<Indeterminate>) -> bool {
    forall|i: int, j: int|
        0 <= i < j < terms.len() ==> (#[trigger] terms[i]).degree > (#[trigger] terms[j]).degree
}

/// Strictly descending degrees and no zero coefficient.
pub open spec fn is_canonical(terms: Seq<Indeterminate>) -> bool {
    &&& is_descending(terms)
    &&& forall|i: int| 0 <= i < terms.len() ==> (#[trigger] terms[i]).coefficient != 0
}

/// `merged` lists each degree of `terms` once, from the highest down, with the
/// coefficient that `terms` has at that degree (zero included).
pub open spec fn is_merged_form_of(merged: Seq<Indeterminate>, terms: Seq<Indeterminate>) -> bool {
    &&& is_descending(merged)
    &&& forall|d: int| has_degree(merged, d) <==> has_degree(terms, d)
    &&& forall|d: int| coefficient_at(merged, d) == coefficient_at(terms, d)
}

/// `canonical` is canonical and stands for the same polynomial as `terms`.
pub open spec fn is_canonical_form_of(canonical: Seq<Indeterminate>, terms: Seq<Indeterminate>) -> bool {
    &&& is_canonical(canonical)
    &&& forall|d: int| coefficient_at(canonical, d) == coefficient_at(terms, d)
}

/// The degrees are `terms.len() - 1, ..., 1, 0` in this order: one term for
/// each coefficient of a byte sequence.
pub open spec fn is_contiguous(terms: Seq<Indeterminate>) -> bool {
    forall|i: int| 0 <= i < terms.len() ==> (#[trigger] terms[i]).degree == terms.len() - 1 - i
}

/// The coefficients of `terms`, in order.
pub open spec fn coefficients(terms: Seq<Indeterminate>) -> Seq<u8> {
    Seq::new(terms.len(), |i: int| terms[i].coefficient)
}

/// The terms that stand for a byte sequence: the first byte is the coefficient
/// of the highest degree, the last byte that of degree zero.
pub open spec fn terms_of_bytes(bytes: Seq<u8>) -> Seq<Indeterminate>
    recommends
        bytes.len() <= 0x8000,
{
    Seq::new(
        bytes.len(),
        |i: int| Indeterminate { coefficient: bytes[i], degree: (bytes.len() - 1 - i) as i16 },
    )
}

/// A coefficient is a byte.
pub proof fn lemma_coefficient_range(terms: Seq<Indeterminate>, degree: int)
    ensures
        0 <= coefficient_at(terms, degree) < 256,
    decreases terms.len(),
{
    if terms.len() > 0 {
        lemma_coefficient_range(terms.drop_last(), degree);
    }
}

/// At a degree that does not occur the coefficient is zero.
pub proof fn lemma_coefficient_absent(terms: Seq<Indeterminate>, degree: int)
    requires
        !has_degree(terms, degree),
    ensures
        coefficient_at(terms, degree) == 0,
    decreases terms.len(),
{
    if terms.len() > 0 {
        let rest = terms.drop_last();
        assert(terms[terms.len() - 1].degree != degree);
        assert(!has_degree(rest, degree)) by {
            if has_degree(rest, degree) {
                let i = choose|i: int| 0 <= i < rest.len() && (#[trigger] rest[i]).degree == degree;
                assert(terms[i].degree == degree);
            }
        }
        lemma_coefficient_absent(rest, degree);
    }
}

/// In a descending list the coefficient at a term's degree is that term's own.
pub proof fn lemma_coefficient_descending(terms: Seq<Indeterminate>, i: int)
    requires
        is_descending(terms),
        0 <= i < terms.len(),
    ensures
        coefficient_at(terms, terms[i].degree as int) == terms[i].coefficient,
    decreases terms.len(),
{
    let rest = terms.drop_last();
    let degree = terms[i].degree as int;
    if i == terms.len() - 1 {
        assert(!has_degree(rest, degree)) by {
            if has_degree(rest, degree) {
                let j = choose|j: int| 0 <= j < rest.len() && (#[trigger] rest[j]).degree == degree;
                assert(terms[j].degree > terms[i].degree);
            }
        }
        lemma_coefficient_absent(rest, degree);
    } else {
        assert(terms[i].degree > terms[terms.len() - 1].degree);
        assert(is_descending(rest)) by {
            assert forall|a: int, b: int| 0 <= a < b < rest.len() implies (#[trigger] rest[a]).degree
                > (#[trigger] rest[b]).degree by {
                assert(terms[a].degree > terms[b].degree);
            }
        }
        assert(rest[i] == terms[i]);
        lemma_coefficient_descending(rest, i);
    }
}

/// Sums modulo 256 can be taken in any grouping.
proof fn lemma_add_mod_assoc(x: int, y: int, z: int)
    requires
        0 <= x < 256,
        0 <= y < 256,
        0 <= z < 256,
    ensures
        ((x + y) % 256 + z) % 256 == (x + (y + z) % 256) % 256,
{
}

/// The coefficients of a concatenation are the sums of the coefficients.
pub proof fn lemma_coefficient_concat(a: Seq<Indeterminate>, b: Seq<Indeterminate>, degree: int)
    ensures
        coefficient_at(a + b, degree) == (coefficient_at(a, degree) + coefficient_at(b, degree)) % 256,
    decreases b.len(),
{
    lemma_coefficient_range(a, degree);
    if b.len() == 0 {
        assert(a + b =~= a);
    } else {
        let front = b.drop_last();
        assert(a + b =~= (a + front).push(b.last()));
        lemma_coefficient_push(a + front, b.last(), degree);
        assert(b =~= front.push(b.last()));
        lemma_coefficient_push(front, b.last(), degree);
        lemma_coefficient_concat(a, front, degree);
        lemma_coefficient_range(front, degree);
        if b.last().degree == degree {
            lemma_add_mod_assoc(
                coefficient_at(a, degree),
                coefficient_at(front, degree),
                b.last().coefficient as int,
            );
        }
    }
}

/// What one more term does to the coefficients.
pub proof fn lemma_coefficient_push(terms: Seq<Indeterminate>, term: Indeterminate, degree: int)
    ensures
        coefficient_at(terms.push(term), degree) == if term.degree == degree {
            (coefficient_at(terms, degree) + term.coefficient) % 256
        } else {
            coefficient_at(terms, degree)
        },
{
    assert(terms.push(term).drop_last() =~= terms);
}

/// A descending list is fixed by the degrees that occur in it and the
/// coefficients at those degrees.
pub proof fn lemma_descending_unique(a: Seq<Indeterminate>, b: Seq<Indeterminate>)
    requires
        is_descending(a),
        is_descending(b),
        forall|d: int| has_degree(a, d) <==> has_degree(b, d),
        forall|d: int| coefficient_at(a, d) == coefficient_at(b, d),
    ensures
        a == b,
    decreases a.len(),
{
    if a.len() == 0 {
        if b.len() > 0 {
            assert(has_degree(b, b[0].degree as int));
        }
        assert(a =~= b);
    } else {
        assert(has_degree(a, a[0].degree as int));
        let ib = choose|i: int| 0 <= i < b.len() && (#[trigger] b[i]).degree == a[0].degree;
        assert(has_degree(b, b[0].degree as int));
        let ia = choose|i: int| 0 <= i < a.len() && (#[trigger] a[i]).degree == b[0].degree;
        if ia > 0 {
            assert(a[0].degree > a[ia].degree);
            if ib > 0 {
                assert(b[0].degree > b[ib].degree);
            }
        }
        assert(a[0].degree == b[0].degree);
        lemma_coefficient_descending(a, 0);
        lemma_coefficient_descending(b, 0);
        assert(a[0] == b[0]);
        let ra = a.subrange(1, a.len() as int);
        let rb = b.subrange(1, b.len() as int);
        lemma_descending_tail(a);
        lemma_descending_tail(b);
        assert forall|d: int| has_degree(ra, d) <==> has_degree(rb, d) by {
            assert(has_degree(ra, d) <==> (has_degree(a, d) && d != a[0].degree));
            assert(has_degree(rb, d) <==> (has_degree(b, d) && d != b[0].degree));
        }
        assert forall|d: int| coefficient_at(ra, d) == coefficient_at(rb, d) by {
            if d == a[0].degree {
                lemma_coefficient_absent(ra, d);
                lemma_coefficient_absent(rb, d);
            } else {
                assert(coefficient_at(ra, d) == coefficient_at(a, d));
                assert(coefficient_at(rb, d) == coefficient_at(b, d));
            }
        }
        lemma_descending_unique(ra, rb);
        assert(a =~= seq![a[0]] + ra);
        assert(b =~= seq![b[0]] + rb);
    }
}

/// What remains of a descending list without its first term.
proof fn lemma_descending_tail(a: Seq<Indeterminate>)
    requires
        is_descending(a),
        a.len() > 0,
    ensures
        is_descending(a.subrange(1, a.len() as int)),
        forall|d: int|
            has_degree(a.subrange(1, a.len() as int), d) <==> (has_degree(a, d) && d != a[0].degree),
        forall|d: int|
            d != a[0].degree ==> coefficient_at(a.subrange(1, a.len() as int), d) == coefficient_at(a, d),
{
    let ra = a.subrange(1, a.len() as int);
    assert forall|i: int, j: int| 0 <= i < j < ra.len() implies (#[trigger] ra[i]).degree
        > (#[trigger] ra[j]).degree by {
        assert(a[i + 1].degree > a[j + 1].degree);
    }
    assert forall|d: int| has_degree(ra, d) <==> (has_degree(a, d) && d != a[0].degree) by {
        if has_degree(ra, d) {
            let k = choose|k: int| 0 <= k < ra.len() && (#[trigger] ra[k]).degree == d;
            assert(a[k + 1].degree == d);
            assert(a[0].degree > a[k + 1].degree);
        }
        if has_degree(a, d) && d != a[0].degree {
            let k = choose|k: int| 0 <= k < a.len() && (#[trigger] a[k]).degree == d;
            assert(ra[k - 1].degree == d);
        }
    }
    assert forall|d: int| d != a[0].degree implies coefficient_at(ra, d) == coefficient_at(a, d) by {
        let none = Seq::<Indeterminate>::empty();
        assert(seq![a[0]] =~= none.push(a[0]));
        lemma_coefficient_push(none, a[0], d);
        lemma_coefficient_concat(seq![a[0]], ra, d);
        assert(seq![a[0]] + ra =~= a);
        lemma_coefficient_range(ra, d);
    }
}

/// Two canonical lists that stand for the same polynomial are the same list.
pub proof fn lemma_canonical_unique(a: Seq<Indeterminate>, b: Seq<Indeterminate>)
    requires
        is_canonical(a),
        is_canonical(b),
        forall|d: int| coefficient_at(a, d) == coefficient_at(b, d),
    ensures
        a == b,
{
    assert forall|d: int| has_degree(a, d) <==> has_degree(b, d) by {
        if has_degree(a, d) {
            let i = choose|i: int| 0 <= i < a.len() && (#[trigger] a[i]).degree == d;
            lemma_coefficient_descending(a, i);
            lemma_present_when_nonzero(b, d);
        }
        if has_degree(b, d) {
            let i = choose|i: int| 0 <= i < b.len() && (#[trigger] b[i]).degree == d;
            lemma_coefficient_descending(b, i);
            lemma_present_when_nonzero(a, d);
        }
    }
    lemma_descending_unique(a, b);
}

/// A degree at which the coefficient is not zero occurs in the list.
pub proof fn lemma_present_when_nonzero(terms: Seq<Indeterminate>, degree: int)
    requires
        coefficient_at(terms, degree) != 0,
    ensures
        has_degree(terms, degree),
{
    if !has_degree(terms, degree) {
        lemma_coefficient_absent(terms, degree);
    }
}

impl Indeterminate {
    /// The term `coefficient * x^degree`.
    pub fn new(coefficient: u8, degree: i16) -> (term: Indeterminate)
        ensures
            term == (Indeterminate { coefficient, degree }),
    {
        Indeterminate { coefficient, degree }
    }

    /// The factor in front of the indeterminate.
    pub fn get_coefficient(&self) -> (coefficient: u8)
        ensures
            coefficient == self.coefficient,
    {
        self.coefficient
    }

    /// Replaces the factor in front of the indeterminate.
    pub fn set_coefficient(&mut self, new_coefficient: u8)
        ensures
            *final(self) == (Indeterminate { coefficient: new_coefficient, degree: old(self).degree }),
    {
        self.coefficient = new_coefficient;
    }

    /// The power to which the indeterminate is raised.
    pub fn get_degree(&self) -> (degree: i16)
        ensures
            degree == self.degree,
    {
        self.degree
    }
}

/// Product of two terms: the coefficients are multiplied modulo 256, the
/// degrees are added.
pub open spec fn term_product(a: Indeterminate, b: Indeterminate) -> Indeterminate {
    Indeterminate {
        coefficient: ((a.coefficient * b.coefficient) % 256) as u8,
        degree: (a.degree + b.degree) as i16,
    }
}

impl Mul for Indeterminate {
    type Output = Indeterminate;

    /// The product of two terms; the sum of the degrees must be a degree.
    fn mul(self, rhs: Indeterminate) -> (product: Indeterminate)
        ensures
            product == term_product(self, rhs),
    {
        assert(self.coefficient * rhs.coefficient <= 255 * 255) by (nonlinear_arith)
            requires
                self.coefficient <= 255,
                rhs.coefficient <= 255,
        ;
        let wide: u16 = (self.coefficient as u16) * (rhs.coefficient as u16);
        Indeterminate { coefficient: (wide % 256) as u8, degree: self.degree + rhs.degree }
    }
}

impl MulSpecImpl for Indeterminate {
    open spec fn obeys_mul_spec() -> bool {
        true
    }

    open spec fn mul_req(self, rhs: Indeterminate) -> bool {
        i16::MIN <= self.degree + rhs.degree <= i16::MAX
    }

    open spec fn mul_spec(self, rhs: Indeterminate) -> Indeterminate {
        term_product(self, rhs)
    }
}

/// Puts `term` into the descending list `acc`: added to the term of the same
/// degree if there is one, else inserted where its degree belongs. Returns the
/// place and whether a term of that degree was there.
fn insert_term(acc: &mut Vec<Indeterminate>, term: Indeterminate) -> (place: (usize, bool))
    requires
        is_descending(old(acc)@),
    ensures
        is_descending(final(acc)@),
        place.0 <= old(acc)@.len(),
        place.1 ==> place.0 < old(acc)@.len() && old(acc)@[place.0 as int].degree == term.degree
            && final(acc)@ == old(acc)@.update(
            place.0 as int,
            Indeterminate {
                coefficient: ((old(acc)@[place.0 as int].coefficient + term.coefficient) % 256) as u8,
                degree: term.degree,
            },
        ),
        !place.1 ==> !has_degree(old(acc)@, term.degree as int) && final(acc)@ == old(acc)@.insert(
            place.0 as int,
            term,
        ),
{
    let mut i: usize = 0;
    while i < acc.len() && acc[i].degree > term.degree
        invariant
            i <= acc.len(),
            acc@ == old(acc)@,
            forall|j: int| 0 <= j < i ==> (#[trigger] acc@[j]).degree > term.degree,
        decreases acc.len() - i,
    {
        i += 1;
    }
    if i < acc.len() && acc[i].degree == term.degree {
        let sum: u16 = acc[i].coefficient as u16 + term.coefficient as u16;
        let merged = Indeterminate { coefficient: (sum % 256) as u8, degree: term.degree };
        acc[i] = merged;
        proof {
            assert forall|a: int, b: int| 0 <= a < b < acc@.len() implies (#[trigger] acc@[a]).degree
                > (#[trigger] acc@[b]).degree by {
                assert(old(acc)@[a].degree > old(acc)@[b].degree);
            }
        }
        (i, true)
    } else {
        proof {
            assert(!has_degree(acc@, term.degree as int)) by {
                if has_degree(acc@, term.degree as int) {
                    let k = choose|k: int| 0 <= k < acc@.len() && (#[trigger] acc@[k]).degree == term.degree;
                    if k >= i {
                        if k > i {
                            assert(acc@[i as int].degree > acc@[k].degree);
                        }
                    }
                }
            }
        }
        let ghost before = acc@;
        acc.insert(i, term);
        proof {
            assert forall|a: int, b: int| 0 <= a < b < acc@.len() implies (#[trigger] acc@[a]).degree
                > (#[trigger] acc@[b]).degree by {
                if b < i {
                    assert(before[a].degree > before[b].degree);
                } else if b == i {
                    assert(before[a].degree > term.degree);
                } else if a < i {
                    assert(before[a].degree > before[b - 1].degree);
                } else if a == i {
                    if b - 1 > i {
                        assert(before[i as int].degree > before[b - 1].degree);
                    }
                } else {
                    assert(before[a - 1].degree > before[b - 1].degree);
                }
            }
        }
        (i, false)
    }
}

/// Lists each degree of `terms` once, from the highest down, with the sum of
/// its coefficients.
fn merge_terms(terms: &Vec<Indeterminate>) -> (merged: Vec<Indeterminate>)
    ensures
        is_merged_form_of(merged@, terms@),
        forall|i: int|
            0 <= i < merged@.len() ==> (#[trigger] merged@[i]).coefficient == coefficient_at(
                terms@,
                merged@[i].degree as int,
            ),
{
    let mut acc: Vec<Indeterminate> = Vec::new();
    let mut k: usize = 0;
    while k < terms.len()
        invariant
            k <= terms.len(),
            is_descending(acc@),
            forall|d: int| has_degree(acc@, d) <==> has_degree(terms@.take(k as int), d),
            forall|i: int|
                0 <= i < acc@.len() ==> (#[trigger] acc@[i]).coefficient == coefficient_at(
                    terms@.take(k as int),
                    acc@[i].degree as int,
                ),
        decreases terms.len() - k,
    {
        let term = terms[k];
        let ghost before = acc@;
        let ghost seen = terms@.take(k as int);
        let ghost next = terms@.take(k + 1);
        let place = insert_term(&mut acc, term);
        proof {
            assert(next =~= seen.push(term));
            let p = place.0 as int;
            assert forall|d: int| has_degree(acc@, d) <==> has_degree(next, d) by {
                if has_degree(acc@, d) {
                    let i = choose|i: int| 0 <= i < acc@.len() && (#[trigger] acc@[i]).degree == d;
                    if d != term.degree {
                        if place.1 {
                            assert(before[i].degree == d);
                        } else if i < p {
                            assert(before[i].degree == d);
                        } else {
                            assert(before[i - 1].degree == d);
                        }
                        assert(has_degree(before, d));
                        assert(has_degree(seen, d));
                        let j = choose|j: int| 0 <= j < seen.len() && (#[trigger] seen[j]).degree == d;
                        assert(next[j].degree == d);
                    } else {
                        assert(next[k as int].degree == d);
                    }
                }
                if has_degree(next, d) {
                    let j = choose|j: int| 0 <= j < next.len() && (#[trigger] next[j]).degree == d;
                    if d == term.degree {
                        assert(acc@[p].degree == d);
                    } else {
                        assert(seen[j].degree == d);
                        assert(has_degree(seen, d));
                        assert(has_degree(before, d));
                        let i = choose|i: int| 0 <= i < before.len() && (#[trigger] before[i]).degree == d;
                        if place.1 || i < p {
                            assert(acc@[i].degree == d);
                        } else {
                            assert(acc@[i + 1].degree == d);
                        }
                    }
                }
            }
            assert forall|i: int| 0 <= i < acc@.len() implies (#[trigger] acc@[i]).coefficient
                == coefficient_at(next, acc@[i].degree as int) by {
                lemma_coefficient_push(seen, term, acc@[i].degree as int);
                if place.1 {
                    if i != p {
                        assert(before[i].coefficient == coefficient_at(seen, before[i].degree as int));
                        if i < p {
                            assert(before[i].degree > before[p].degree);
                        } else {
                            assert(before[p].degree > before[i].degree);
                        }
                    } else {
                        assert(before[p].coefficient == coefficient_at(seen, before[p].degree as int));
                    }
                } else {
                    if i == p {
                        lemma_coefficient_absent(seen, term.degree as int);
                    } else if i < p {
                        assert(before[i].coefficient == coefficient_at(seen, before[i].degree as int));
                        assert(acc@[i].degree > acc@[p].degree);
                    } else {
                        assert(before[i - 1].coefficient == coefficient_at(
                            seen,
                            before[i - 1].degree as int,
                        ));
                        assert(acc@[p].degree > acc@[i].degree);
                    }
                }
            }
        }
        k += 1;
    }
    proof {
        assert(terms@.take(k as int) =~= terms@);
        assert forall|d: int| coefficient_at(acc@, d) == coefficient_at(terms@, d) by {
            if has_degree(acc@, d) {
                let i = choose|i: int| 0 <= i < acc@.len() && (#[trigger] acc@[i]).degree == d;
                lemma_coefficient_descending(acc@, i);
            } else {
                lemma_coefficient_absent(acc@, d);
                lemma_coefficient_absent(terms@, d);
            }
        }
    }
    acc
}

/// `term` is one of the first `until` terms of `terms`.
spec fn occurs_before(terms: Seq<Indeterminate>, until: int, term: Indeterminate) -> bool {
    exists|j: int| 0 <= j < until && j < terms.len() && (#[trigger] terms[j]) == term
}

/// Drops the terms whose coefficient is zero from a descending list.
fn drop_zero_terms(merged: &Vec<Indeterminate>) -> (kept: Vec<Indeterminate>)
    requires
        is_descending(merged@),
    ensures
        is_canonical_form_of(kept@, merged@),
{
    let mut kept: Vec<Indeterminate> = Vec::new();
    let mut i: usize = 0;
    while i < merged.len()
        invariant
            i <= merged.len(),
            is_descending(merged@),
            is_canonical(kept@),
            forall|k: int| 0 <= k < kept@.len() ==> occurs_before(merged@, i as int, #[trigger] kept@[k]),
            forall|j: int|
                0 <= j < i && (#[trigger] merged@[j]).coefficient != 0 ==> has_degree(
                    kept@,
                    merged@[j].degree as int,
                ),
        decreases merged.len() - i,
    {
        let term = merged[i];
        if term.coefficient != 0 {
            let ghost before = kept@;
            kept.push(term);
            proof {
                assert forall|a: int, b: int| 0 <= a < b < kept@.len() implies (#[trigger] kept@[a]).degree
                    > (#[trigger] kept@[b]).degree by {
                    if b < before.len() {
                        assert(before[a].degree > before[b].degree);
                    } else {
                        assert(occurs_before(merged@, i as int, before[a]));
                        let j = choose|j: int| 0 <= j < i && (#[trigger] merged@[j]) == before[a];
                        assert(merged@[j].degree > merged@[i as int].degree);
                    }
                }
                assert forall|k: int| 0 <= k < kept@.len() implies occurs_before(
                    merged@,
                    i + 1,
                    #[trigger] kept@[k],
                ) by {
                    if k < before.len() {
                        assert(occurs_before(merged@, i as int, before[k]));
                        let j = choose|j: int| 0 <= j < i && (#[trigger] merged@[j]) == before[k];
                        assert(merged@[j] == kept@[k]);
                    } else {
                        assert(merged@[i as int] == kept@[k]);
                    }
                }
                assert forall|j: int| 0 <= j < i + 1 && (#[trigger] merged@[j]).coefficient
                    != 0 implies has_degree(kept@, merged@[j].degree as int) by {
                    if j < i {
                        assert(has_degree(before, merged@[j].degree as int));
                        let k = choose|k: int|
                            0 <= k < before.len() && (#[trigger] before[k]).degree == merged@[j].degree;
                        assert(kept@[k].degree == merged@[j].degree);
                    } else {
                        assert(kept@[before.len() as int].degree == merged@[j].degree);
                    }
                }
            }
        }
        i += 1;
    }
    proof {
        assert forall|d: int| coefficient_at(kept@, d) == coefficient_at(merged@, d) by {
            if has_degree(kept@, d) {
                let k = choose|k: int| 0 <= k < kept@.len() && (#[trigger] kept@[k]).degree == d;
                assert(occurs_before(merged@, i as int, kept@[k]));
                let j = choose|j: int| 0 <= j < i && (#[trigger] merged@[j]) == kept@[k];
                lemma_coefficient_descending(kept@, k);
                lemma_coefficient_descending(merged@, j);
            } else {
                lemma_coefficient_absent(kept@, d);
                if has_degree(merged@, d) {
                    let j = choose|j: int| 0 <= j < merged@.len() && (#[trigger] merged@[j]).degree == d;
                    lemma_coefficient_descending(merged@, j);
                } else {
                    lemma_coefficient_absent(merged@, d);
                }
            }
        }
    }
    kept
}

/// A copy of a list of terms.
fn copy_terms(terms: &Vec<Indeterminate>) -> (copy: Vec<Indeterminate>)
    ensures
        copy@ == terms@,
{
    let mut copy: Vec<Indeterminate> = Vec::new();
    let mut i: usize = 0;
    while i < terms.len()
        invariant
            i <= terms.len(),
            copy@ == terms@.take(i as int),
        decreases terms.len() - i,
    {
        copy.push(terms[i]);
        assert(terms@.take(i + 1) =~= terms@.take(i as int).push(terms@[i as int]));
        i += 1;
    }
    assert(terms@.take(i as int) =~= terms@);
    copy
}

impl Polynomial {
    /// The canonical form of the polynomial that `function` stands for.
    pub fn new(function: Vec<Indeterminate>) -> (polynomial: Polynomial)
        ensures
            is_canonical_form_of(polynomial@, function@),
    {
        let merged = merge_terms(&function);
        let kept = drop_zero_terms(&merged);
        Polynomial { function: kept }
    }

    /// Brings the polynomial into canonical form and returns a copy of it.
    pub fn reduce(&mut self) -> (reduced: Polynomial)
        ensures
            is_canonical_form_of(reduced@, old(self)@),
            final(self)@ == reduced@,
    {
        let merged = merge_terms(&self.function);
        let kept = drop_zero_terms(&merged);
        let copy = copy_terms(&kept);
        self.function = kept;
        Polynomial { function: copy }
    }

    /// Appends a term as it is; the list is not brought into canonical form.
    pub fn push(&mut self, element: Indeterminate)
        ensures
            final(self)@ == old(self)@.push(element),
    {
        self.function.push(element);
    }

    /// A copy of the terms.
    pub fn get_function(&self) -> (function: Vec<Indeterminate>)
        ensures
            function@ == self@,
    {
        copy_terms(&self.function)
    }

    /// The terms themselves, for changes in place.
    pub fn get_function_mut(&mut self) -> (function: &mut Vec<Indeterminate>)
        ensures
            *function == old(self).function,
            final(self).function == *final(function),
    {
        &mut self.function
    }
}

/// The terms of `terms` with each coefficient replaced by its negative
/// modulo 256.
pub open spec fn negated(terms: Seq<Indeterminate>) -> Seq<Indeterminate> {
    Seq::new(
        terms.len(),
        |i: int|
            Indeterminate {
                coefficient: ((256 - terms[i].coefficient) % 256) as u8,
                degree: terms[i].degree,
            },
    )
}

/// The products of `term` with each term of `terms`.
pub open spec fn scaled(term: Indeterminate, terms: Seq<Indeterminate>) -> Seq<Indeterminate> {
    Seq::new(terms.len(), |j: int| term_product(term, terms[j]))
}

/// The products of every term of `a` with every term of `b`.
pub open spec fn product_terms(a: Seq<Indeterminate>, b: Seq<Indeterminate>) -> Seq<Indeterminate>
    decreases a.len(),
{
    if a.len() == 0 {
        Seq::empty()
    } else {
        product_terms(a.drop_last(), b) + scaled(a.last(), b)
    }
}

/// Every sum of a degree of `a` and a degree of `b` fits the type of a degree.
pub open spec fn degrees_add_up(a: Seq<Indeterminate>, b: Seq<Indeterminate>) -> bool {
    forall|i: int, j: int|
        0 <= i < a.len() && 0 <= j < b.len() ==> i16::MIN <= (#[trigger] a[i]).degree + (
        #[trigger] b[j]).degree <= i16::MAX
}

/// The negative of a sum is the sum of the negatives, modulo 256.
proof fn lemma_neg_mod(x: int, y: int)
    requires
        0 <= x < 256,
        0 <= y < 256,
    ensures
        ((256 - x) % 256 + (256 - y) % 256) % 256 == (256 - (x + y) % 256) % 256,
{
}

/// To add the negative is to subtract, modulo 256.
proof fn lemma_sub_mod(x: int, y: int)
    requires
        0 <= x < 256,
        0 <= y < 256,
    ensures
        (x + (256 - y) % 256) % 256 == (x - y) % 256,
{
}

/// The coefficients of the negated terms are the negatives of the coefficients.
pub proof fn lemma_coefficient_negated(terms: Seq<Indeterminate>, degree: int)
    ensures
        coefficient_at(negated(terms), degree) == (256 - coefficient_at(terms, degree)) % 256,
    decreases terms.len(),
{
    if terms.len() > 0 {
        let front = terms.drop_last();
        lemma_coefficient_negated(front, degree);
        assert(negated(terms) =~= negated(front).push(negated(terms).last()));
        lemma_coefficient_push(negated(front), negated(terms).last(), degree);
        assert(terms =~= front.push(terms.last()));
        lemma_coefficient_push(front, terms.last(), degree);
        lemma_coefficient_range(front, degree);
        if terms.last().degree == degree {
            lemma_neg_mod(coefficient_at(front, degree), terms.last().coefficient as int);
        }
    }
}

/// The highest degree among the terms, and zero where no degree is above it.
pub open spec fn highest_degree(terms: Seq<Indeterminate>) -> int
    decreases terms.len(),
{
    if terms.len() == 0 {
        0
    } else if terms.last().degree > highest_degree(terms.drop_last()) {
        terms.last().degree as int
    } else {
        highest_degree(terms.drop_last())
    }
}

/// The coefficient at a degree of the product with `x`, in which `x^m` is
/// replaced with `reduction` and every coefficient 2 with 0: the product
/// with `x` in the field with 2^m elements, for polynomials whose
/// coefficients are 0 and 1.
pub open spec fn times_x_coefficient(
    terms: Seq<Indeterminate>,
    reduction: Seq<Indeterminate>,
    m: int,
    degree: int,
) -> int {
    let moved = if degree == m {
        0
    } else {
        coefficient_at(terms, degree - 1)
    };
    let summed = if coefficient_at(terms, m - 1) != 0 {
        (moved + coefficient_at(reduction, degree)) % 256
    } else {
        moved
    };
    if summed == 2 {
        0
    } else {
        summed
    }
}

impl Polynomial {
    /// The canonical form of the polynomial without its terms of the
    /// highest degree; the highest degree counts from zero upwards.
    pub fn remove_highest_degree(&self) -> (rest: Polynomial)
        requires
            self@.len() > 0,
        ensures
            is_canonical(rest@),
            forall|d: int|
                coefficient_at(rest@, d) == if d == highest_degree(self@) {
                    0
                } else {
                    coefficient_at(self@, d)
                },
    {
        let mut highest: i16 = 0;
        let mut i: usize = 0;
        while i < self.function.len()
            invariant
                i <= self@.len(),
                highest == highest_degree(self@.take(i as int)),
            decreases self@.len() - i,
        {
            assert(self@.take(i + 1).drop_last() =~= self@.take(i as int));
            if self.function[i].degree > highest {
                highest = self.function[i].degree;
            }
            i += 1;
        }
        assert(self@.take(i as int) =~= self@);
        let mut kept: Vec<Indeterminate> = Vec::new();
        let mut k: usize = 0;
        while k < self.function.len()
            invariant
                k <= self@.len(),
                forall|d: int|
                    coefficient_at(kept@, d) == if d == highest {
                        0
                    } else {
                        coefficient_at(self@.take(k as int), d)
                    },
            decreases self@.len() - k,
        {
            let term = self.function[k];
            let ghost before = kept@;
            if term.degree != highest {
                kept.push(term);
            }
            proof {
                assert(self@.take(k + 1) =~= self@.take(k as int).push(term));
                assert forall|d: int|
                    coefficient_at(kept@, d) == if d == highest {
                        0
                    } else {
                        coefficient_at(self@.take(k + 1), d)
                    } by {
                    lemma_coefficient_push(self@.take(k as int), term, d);
                    lemma_coefficient_push(before, term, d);
                }
            }
            k += 1;
        }
        assert(self@.take(k as int) =~= self@);
        Polynomial::new(kept)
    }

    /// The product with `x` in the field with 2^m elements in which `x^m` is
    /// `mod_fx`, for a polynomial whose coefficients are 0 and 1: the
    /// degrees go up by one, a term `x^m` is replaced with `mod_fx`, and
    /// every coefficient 2 becomes 0.
    pub fn galois_mul_x1(&self, mod_fx: Polynomial, m: u8) -> (product: Polynomial)
        requires
            forall|i: int| 0 <= i < self@.len() ==> (#[trigger] self@[i]).degree < i16::MAX,
        ensures
            is_canonical(product@),
            forall|d: int|
                coefficient_at(product@, d) == times_x_coefficient(self@, mod_fx@, m as int, d),
    {
        let merged = merge_terms(&self.function);
        let mut moved: Vec<Indeterminate> = Vec::new();
        let mut is_overflowing = false;
        let mut i: usize = 0;
        while i < merged.len()
            invariant
                i <= merged@.len(),
                is_merged_form_of(merged@, self@),
                forall|j: int| 0 <= j < self@.len() ==> (#[trigger] self@[j]).degree < i16::MAX,
                is_overflowing == (coefficient_at(merged@.take(i as int), m - 1) != 0),
                forall|d: int|
                    coefficient_at(moved@, d) == if d == m {
                        0
                    } else {
                        coefficient_at(merged@.take(i as int), d - 1)
                    },
            decreases merged@.len() - i,
        {
            let term = merged[i];
            let ghost before = moved@;
            proof {
                assert(has_degree(merged@, term.degree as int));
                assert(has_degree(self@, term.degree as int));
                assert(merged@.take(i + 1) =~= merged@.take(i as int).push(term));
                lemma_coefficient_push(merged@.take(i as int), term, m - 1);
                assert(!has_degree(merged@.take(i as int), term.degree as int)) by {
                    if has_degree(merged@.take(i as int), term.degree as int) {
                        let j = choose|j: int|
                            0 <= j < i && (#[trigger] merged@.take(i as int)[j]).degree == term.degree;
                        assert(merged@[j].degree > merged@[i as int].degree);
                    }
                }
                lemma_coefficient_absent(merged@.take(i as int), term.degree as int);
            }
            if term.degree as i32 + 1 == m as i32 {
                if term.coefficient != 0 {
                    is_overflowing = true;
                }
            } else {
                moved.push(Indeterminate { coefficient: term.coefficient, degree: term.degree + 1 });
            }
            proof {
                assert forall|d: int|
                    coefficient_at(moved@, d) == if d == m {
                        0
                    } else {
                        coefficient_at(merged@.take(i + 1), d - 1)
                    } by {
                    lemma_coefficient_push(merged@.take(i as int), term, d - 1);
                    lemma_coefficient_push(
                        before,
                        Indeterminate { coefficient: term.coefficient, degree: (term.degree + 1) as i16 },
                        d,
                    );
                }
            }
            i += 1;
        }
        assert(merged@.take(i as int) =~= merged@);
        let ghost cut = moved@;
        if is_overflowing {
            let mut r: usize = 0;
            while r < mod_fx.function.len()
                invariant
                    r <= mod_fx@.len(),
                    moved@ == cut + mod_fx@.take(r as int),
                decreases mod_fx@.len() - r,
            {
                moved.push(mod_fx.function[r]);
                assert(moved@ =~= cut + mod_fx@.take(r + 1));
                r += 1;
            }
            assert(mod_fx@.take(r as int) =~= mod_fx@);
        }
        let ghost summed_terms = moved@;
        let summed = Polynomial::new(moved);
        proof {
            assert forall|d: int|
                coefficient_at(summed@, d) == if coefficient_at(self@, m - 1) != 0 {
                    ((if d == m {
                        0
                    } else {
                        coefficient_at(self@, d - 1)
                    }) + coefficient_at(mod_fx@, d)) % 256
                } else {
                    if d == m {
                        0
                    } else {
                        coefficient_at(self@, d - 1)
                    }
                } by {
                if is_overflowing {
                    lemma_coefficient_concat(cut, mod_fx@, d);
                }
            }
        }
        let mut cleared: Vec<Indeterminate> = Vec::new();
        let mut k: usize = 0;
        while k < summed.function.len()
            invariant
                k <= summed@.len(),
                is_canonical(summed@),
                forall|d: int|
                    coefficient_at(cleared@, d) == if coefficient_at(summed@.take(k as int), d) == 2 {
                        0
                    } else {
                        coefficient_at(summed@.take(k as int), d)
                    },
            decreases summed@.len() - k,
        {
            let term = summed.function[k];
            let ghost before = cleared@;
            proof {
                assert(summed@.take(k + 1) =~= summed@.take(k as int).push(term));
                assert(!has_degree(summed@.take(k as int), term.degree as int)) by {
                    if has_degree(summed@.take(k as int), term.degree as int) {
                        let j = choose|j: int|
                            0 <= j < k && (#[trigger] summed@.take(k as int)[j]).degree == term.degree;
                        assert(summed@[j].degree > summed@[k as int].degree);
                    }
                }
                lemma_coefficient_absent(summed@.take(k as int), term.degree as int);
            }
            if term.coefficient != 2 {
                cleared.push(term);
            }
            proof {
                assert forall|d: int|
                    coefficient_at(cleared@, d) == if coefficient_at(summed@.take(k + 1), d) == 2 {
                        0
                    } else {
                        coefficient_at(summed@.take(k + 1), d)
                    } by {
                    lemma_coefficient_push(summed@.take(k as int), term, d);
                    lemma_coefficient_push(before, term, d);
                }
            }
            k += 1;
        }
        assert(summed@.take(k as int) =~= summed@);
        Polynomial::new(cleared)
    }
}

impl Add for Polynomial {
    type Output = Polynomial;

    /// The canonical form of the sum: at each degree the coefficients are
    /// added modulo 256.
    fn add(self, rhs: Polynomial) -> (sum: Polynomial)
        ensures
            is_canonical_form_of(sum@, self@ + rhs@),
            forall|d: int|
                coefficient_at(sum@, d) == (coefficient_at(self@, d) + coefficient_at(rhs@, d)) % 256,
    {
        let mut all = self.function;
        let mut i: usize = 0;
        while i < rhs.function.len()
            invariant
                i <= rhs.function.len(),
                all@ == self@ + rhs@.take(i as int),
            decreases rhs.function.len() - i,
        {
            all.push(rhs.function[i]);
            assert(rhs@.take(i + 1) =~= rhs@.take(i as int).push(rhs@[i as int]));
            assert(all@ =~= self@ + rhs@.take(i + 1));
            i += 1;
        }
        proof {
            assert(rhs@.take(i as int) =~= rhs@);
            assert forall|d: int|
                coefficient_at(self@ + rhs@, d) == (coefficient_at(self@, d) + coefficient_at(rhs@, d))
                    % 256 by {
                lemma_coefficient_concat(self@, rhs@, d);
            }
        }
        Polynomial::new(all)
    }
}

impl AddSpecImpl for Polynomial {
    open spec fn obeys_add_spec() -> bool {
        false
    }

    open spec fn add_req(self, rhs: Polynomial) -> bool {
        true
    }

    open spec fn add_spec(self, rhs: Polynomial) -> Polynomial {
        choose|sum: Polynomial| is_canonical_form_of(sum@, self@ + rhs@)
    }
}

impl Sub for Polynomial {
    type Output = Polynomial;

    /// The canonical form of the difference: at each degree the coefficients
    /// are subtracted modulo 256.
    fn sub(self, rhs: Polynomial) -> (difference: Polynomial)
        ensures
            is_canonical_form_of(difference@, self@ + negated(rhs@)),
            forall|d: int|
                coefficient_at(difference@, d) == (coefficient_at(self@, d) - coefficient_at(rhs@, d))
                    % 256,
    {
        let mut all = self.function;
        let mut i: usize = 0;
        while i < rhs.function.len()
            invariant
                i <= rhs.function.len(),
                all@ == self@ + negated(rhs@).take(i as int),
            decreases rhs.function.len() - i,
        {
            let term = rhs.function[i];
            let wide: u16 = (256 - term.coefficient as u16) % 256;
            all.push(Indeterminate { coefficient: wide as u8, degree: term.degree });
            assert(negated(rhs@).take(i + 1) =~= negated(rhs@).take(i as int).push(negated(rhs@)[i as int]));
            assert(all@ =~= self@ + negated(rhs@).take(i + 1));
            i += 1;
        }
        proof {
            assert(negated(rhs@).take(i as int) =~= negated(rhs@));
            assert forall|d: int|
                coefficient_at(self@ + negated(rhs@), d) == (coefficient_at(self@, d) - coefficient_at(
                    rhs@,
                    d,
                )) % 256 by {
                lemma_coefficient_concat(self@, negated(rhs@), d);
                lemma_coefficient_negated(rhs@, d);
                lemma_coefficient_range(self@, d);
                lemma_coefficient_range(rhs@, d);
                lemma_sub_mod(coefficient_at(self@, d), coefficient_at(rhs@, d));
            }
        }
        Polynomial::new(all)
    }
}

impl SubSpecImpl for Polynomial {
    open spec fn obeys_sub_spec() -> bool {
        false
    }

    open spec fn sub_req(self, rhs: Polynomial) -> bool {
        true
    }

    open spec fn sub_spec(self, rhs: Polynomial) -> Polynomial {
        choose|difference: Polynomial| is_canonical_form_of(difference@, self@ + negated(rhs@))
    }
}

impl Mul for Polynomial {
    type Output = Result<Polynomial, PolynomialError>;

    /// The canonical form of the product: every term of one operand is
    /// multiplied with every term of the other. An operand without terms is
    /// refused.
    fn mul(self, rhs: Polynomial) -> (product: Result<Polynomial, PolynomialError>)
        ensures
            (self@.len() == 0 || rhs@.len() == 0) <==> product == Err::<Polynomial, PolynomialError>(
                PolynomialError::EmptyOperand,
            ),
            self@.len() > 0 && rhs@.len() > 0 ==> product is Ok && is_canonical_form_of(
                product->Ok_0@,
                product_terms(self@, rhs@),
            ),
    {
        if self.function.len() == 0 || rhs.function.len() == 0 {
            return Err(PolynomialError::EmptyOperand);
        }
        let mut all: Vec<Indeterminate> = Vec::new();
        let mut i: usize = 0;
        while i < self.function.len()
            invariant
                i <= self.function.len(),
                degrees_add_up(self@, rhs@),
                all@ == product_terms(self@.take(i as int), rhs@),
            decreases self.function.len() - i,
        {
            let left = self.function[i];
            let ghost done = all@;
            let mut j: usize = 0;
            while j < rhs.function.len()
                invariant
                    j <= rhs.function.len(),
                    i < self.function.len(),
                    left == self@[i as int],
                    degrees_add_up(self@, rhs@),
                    all@ == done + scaled(left, rhs@).take(j as int),
                decreases rhs.function.len() - j,
            {
                let right = rhs.function[j];
                assert(i16::MIN <= self@[i as int].degree + rhs@[j as int].degree <= i16::MAX);
                all.push(left * right);
                assert(scaled(left, rhs@).take(j + 1) =~= scaled(left, rhs@).take(j as int).push(
                    term_product(left, right),
                ));
                assert(all@ =~= done + scaled(left, rhs@).take(j + 1));
                j += 1;
            }
            proof {
                assert(scaled(left, rhs@).take(j as int) =~= scaled(left, rhs@));
                assert(self@.take(i + 1).drop_last() =~= self@.take(i as int));
                assert(self@.take(i + 1).last() == left);
            }
            i += 1;
        }
        assert(self@.take(i as int) =~= self@);
        Ok(Polynomial::new(all))
    }
}

impl MulSpecImpl for Polynomial {
    open spec fn obeys_mul_spec() -> bool {
        false
    }

    open spec fn mul_req(self, rhs: Polynomial) -> bool {
        degrees_add_up(self@, rhs@)
    }

    open spec fn mul_spec(self, rhs: Polynomial) -> Result<Polynomial, PolynomialError> {
        if self@.len() == 0 || rhs@.len() == 0 {
            Err(PolynomialError::EmptyOperand)
        } else {
            Ok(choose|product: Polynomial| is_canonical_form_of(product@, product_terms(self@, rhs@)))
        }
    }
}

/// The canonical form of the polynomial that `terms` stands for.
pub open spec fn canonical_of(terms: Seq<Indeterminate>) -> Seq<Indeterminate> {
    choose|canonical: Seq<Indeterminate>| is_canonical_form_of(canonical, terms)
}

/// Whatever is a canonical form of `terms` is the canonical form of it.
pub proof fn lemma_canonical_of(canonical: Seq<Indeterminate>, terms: Seq<Indeterminate>)
    requires
        is_canonical_form_of(canonical, terms),
    ensures
        canonical == canonical_of(terms),
{
    lemma_canonical_unique(canonical, canonical_of(terms));
}

/// What is left of the dividend when the product of the divisor and one
/// term of the quotient is taken from it.
pub open spec fn division_rest(
    dividend: Seq<Indeterminate>,
    divisor: Seq<Indeterminate>,
    part: Indeterminate,
) -> Seq<Indeterminate> {
    canonical_of(dividend + negated(product_terms(divisor, seq![part])))
}

/// The terms of the quotient of two canonical polynomials with terms, found
/// by long division: each term is the quotient of the leading terms, the
/// coefficients divided as whole numbers. After the first term at most
/// `budget` further terms are found. There is no quotient where a quotient
/// of coefficients is zero, where a degree leaves the range of a degree,
/// and where the budget runs out.
pub open spec fn quotient_terms(
    dividend: Seq<Indeterminate>,
    divisor: Seq<Indeterminate>,
    budget: int,
) -> Option<Seq<Indeterminate>>
    decreases budget,
{
    let difference = dividend[0].degree - divisor[0].degree;
    let factor = dividend[0].coefficient as int / divisor[0].coefficient as int;
    let part = Indeterminate { coefficient: factor as u8, degree: difference as i16 };
    if difference < 0 {
        Some(Seq::empty())
    } else if difference > i16::MAX || factor == 0 {
        None
    } else if division_rest(dividend, divisor, part).len() == 0 {
        Some(seq![part])
    } else if budget <= 0 {
        None
    } else {
        match quotient_terms(division_rest(dividend, divisor, part), divisor, budget - 1) {
            Some(further) => Some(seq![part] + further),
            None => None,
        }
    }
}

/// Number of terms that a long division may find after the first: one for
/// each degree from that of the dividend down to zero.
pub open spec fn division_budget(dividend: Seq<Indeterminate>) -> int {
    if dividend[0].degree >= 0 {
        dividend[0].degree as int
    } else {
        0
    }
}

/// The quotient of two polynomials: of their canonical forms, by long
/// division.
pub open spec fn spec_quotient(dividend: Seq<Indeterminate>, divisor: Seq<Indeterminate>) -> Result<
    Seq<Indeterminate>,
    PolynomialError,
> {
    let a = canonical_of(dividend);
    let b = canonical_of(divisor);
    if a.len() == 0 || b.len() == 0 {
        Err(PolynomialError::EmptyOperand)
    } else {
        match quotient_terms(a, b, division_budget(a)) {
            Some(terms) => Ok(canonical_of(terms)),
            None => Err(PolynomialError::InexactDivision),
        }
    }
}

/// What a subtraction of the product leaves is the rest of the division step.
proof fn lemma_rest_is_difference(
    rest: Seq<Indeterminate>,
    dividend: Seq<Indeterminate>,
    product: Seq<Indeterminate>,
    divisor: Seq<Indeterminate>,
    part: Indeterminate,
)
    requires
        is_canonical_form_of(product, product_terms(divisor, seq![part])),
        is_canonical(rest),
        forall|d: int|
            coefficient_at(rest, d) == (coefficient_at(dividend, d) - coefficient_at(product, d)) % 256,
    ensures
        rest == division_rest(dividend, divisor, part),
{
    let all = dividend + negated(product_terms(divisor, seq![part]));
    assert forall|d: int| coefficient_at(rest, d) == coefficient_at(all, d) by {
        lemma_coefficient_concat(dividend, negated(product_terms(divisor, seq![part])), d);
        lemma_coefficient_negated(product_terms(divisor, seq![part]), d);
        lemma_coefficient_range(dividend, d);
        lemma_coefficient_range(product_terms(divisor, seq![part]), d);
        lemma_sub_mod(coefficient_at(dividend, d), coefficient_at(product_terms(divisor, seq![part]), d));
    }
    lemma_canonical_of(rest, all);
}

impl Div for Polynomial {
    type Output = Result<Polynomial, PolynomialError>;

    /// The canonical form of the quotient by long division. An operand that
    /// stands for zero is refused, and so is a division that does not come
    /// out.
    fn div(self, rhs: Polynomial) -> (quotient: Result<Polynomial, PolynomialError>)
        ensures
            match quotient {
                Ok(polynomial) => spec_quotient(self@, rhs@) == Ok::<Seq<Indeterminate>, PolynomialError>(
                    polynomial@,
                ),
                Err(error) => spec_quotient(self@, rhs@) == Err::<Seq<Indeterminate>, PolynomialError>(
                    error,
                ),
            },
    {
        let divisor = Polynomial::new(rhs.function);
        let mut working = Polynomial::new(self.function);
        proof {
            lemma_canonical_of(divisor@, rhs@);
            lemma_canonical_of(working@, self@);
        }
        if divisor.function.len() == 0 || working.function.len() == 0 {
            return Err(PolynomialError::EmptyOperand);
        }
        let ghost first = working@;
        let mut budget: i16 = if working.function[0].degree >= 0 {
            working.function[0].degree
        } else {
            0
        };
        let mut found: Vec<Indeterminate> = Vec::new();
        loop
            invariant
                is_canonical(divisor@),
                divisor@.len() > 0,
                is_canonical(working@),
                working@.len() > 0,
                budget >= 0,
                quotient_terms(first, divisor@, division_budget(first)) == (match quotient_terms(
                    working@,
                    divisor@,
                    budget as int,
                ) {
                    Some(further) => Some(found@ + further),
                    None => None::<Seq<Indeterminate>>,
                }),
                spec_quotient(self@, rhs@) == (match quotient_terms(first, divisor@, division_budget(first)) {
                    Some(terms) => Ok::<Seq<Indeterminate>, PolynomialError>(canonical_of(terms)),
                    None => Err::<Seq<Indeterminate>, PolynomialError>(PolynomialError::InexactDivision),
                }),
            decreases budget,
        {
            let lead = working.function[0];
            let divisor_lead = divisor.function[0];
            let difference: i32 = lead.degree as i32 - divisor_lead.degree as i32;
            if difference < 0 {
                proof {
                    assert(found@ + Seq::<Indeterminate>::empty() =~= found@);
                }
                let polynomial = Polynomial::new(found);
                proof {
                    lemma_canonical_of(polynomial@, found@);
                }
                return Ok(polynomial);
            }
            assert(divisor@[0].coefficient != 0);
            let factor: u8 = lead.coefficient / divisor_lead.coefficient;
            if difference > 32767 || factor == 0 {
                return Err(PolynomialError::InexactDivision);
            }
            let part = Indeterminate { coefficient: factor, degree: difference as i16 };
            let mut single: Vec<Indeterminate> = Vec::new();
            single.push(part);
            assert(single@ =~= seq![part]);
            let copy = Polynomial { function: copy_terms(&divisor.function) };
            proof {
                assert forall|i: int, j: int| 0 <= i < copy@.len() && 0 <= j < single@.len() implies i16::MIN
                    <= (#[trigger] copy@[i]).degree + (#[trigger] single@[j]).degree <= i16::MAX by {
                    if i > 0 {
                        assert(divisor@[0].degree > divisor@[i].degree);
                    }
                }
            }
            let product = match copy * (Polynomial { function: single }) {
                Ok(product) => product,
                Err(error) => {
                    return Err(PolynomialError::InexactDivision);
                },
            };
            let ghost before = working@;
            let rest = working - product;
            proof {
                lemma_rest_is_difference(rest@, before, product@, divisor@, part);
            }
            let ghost earlier = found@;
            found.push(part);
            proof {
                assert(found@ =~= earlier + seq![part]);
                assert(lead == before[0]);
                assert(divisor_lead == divisor@[0]);
                assert(difference == before[0].degree - divisor@[0].degree);
                assert(factor as int == before[0].coefficient as int / divisor@[0].coefficient as int);
                assert(division_rest(before, divisor@, part) == rest@);
            }
            if rest.function.len() == 0 {
                proof {
                    assert(quotient_terms(before, divisor@, budget as int) == Some(seq![part]));
                }
                let polynomial = Polynomial::new(found);
                proof {
                    lemma_canonical_of(polynomial@, found@);
                }
                return Ok(polynomial);
            }
            if budget <= 0 {
                return Err(PolynomialError::InexactDivision);
            }
            proof {
                let further = quotient_terms(rest@, divisor@, budget - 1);
                if further is Some {
                    assert(earlier + (seq![part] + further->0) =~= found@ + further->0);
                }
            }
            working = rest;
            budget = budget - 1;
        }
    }
}

impl DivSpecImpl for Polynomial {
    open spec fn obeys_div_spec() -> bool {
        false
    }

    open spec fn div_req(self, rhs: Polynomial) -> bool {
        true
    }

    open spec fn div_spec(self, rhs: Polynomial) -> Result<Polynomial, PolynomialError> {
        match spec_quotient(self@, rhs@) {
            Ok(terms) => Ok(choose|quotient: Polynomial| quotient@ == terms),
            Err(error) => Err(error),
        }
    }
}

impl From<Vec<u8>> for Polynomial {
    /// One term for each byte, zero bytes included: the first byte is the
    /// coefficient of the highest degree.
    fn from(item: Vec<u8>) -> (polynomial: Polynomial)
        ensures
            polynomial@ == terms_of_bytes(item@),
    {
        let n = item.len();
        let mut terms: Vec<Indeterminate> = Vec::new();
        let mut i: usize = 0;
        while i < n
            invariant
                i <= n,
                n == item@.len(),
                terms@ == terms_of_bytes(item@).take(i as int),
            decreases n - i,
        {
            let degree: i16 = #[verifier::truncate]
            ((n - 1 - i) as i16);
            terms.push(Indeterminate { coefficient: item[i], degree });
            assert(terms@ =~= terms_of_bytes(item@).take(i + 1));
            i += 1;
        }
        assert(terms_of_bytes(item@).take(i as int) =~= terms_of_bytes(item@));
        Polynomial { function: terms }
    }
}

impl FromSpecImpl<Vec<u8>> for Polynomial {
    open spec fn obeys_from_spec() -> bool {
        false
    }

    open spec fn from_spec(item: Vec<u8>) -> Polynomial {
        choose|polynomial: Polynomial| polynomial@ == terms_of_bytes(item@)
    }
}

/// `bytes` are the coefficients of `terms` from the highest degree down, one
/// for each degree that occurs among the terms.
pub open spec fn is_byte_form_of(bytes: Seq<u8>, terms: Seq<Indeterminate>) -> bool {
    exists|merged: Seq<Indeterminate>| #[trigger]
        is_merged_form_of(merged, terms) && bytes == coefficients(merged)
}

impl From<Polynomial> for Vec<u8> {
    /// The coefficients from the highest degree down, one for each degree
    /// that occurs among the terms. A degree that does not occur gives no byte.
    fn from(item: Polynomial) -> (bytes: Vec<u8>)
        ensures
            is_byte_form_of(bytes@, item@),
            is_descending(item@) ==> bytes@ == coefficients(item@),
    {
        let merged = merge_terms(&item.function);
        let mut bytes: Vec<u8> = Vec::new();
        let mut i: usize = 0;
        while i < merged.len()
            invariant
                i <= merged.len(),
                bytes@ == coefficients(merged@).take(i as int),
            decreases merged.len() - i,
        {
            bytes.push(merged[i].coefficient);
            assert(bytes@ =~= coefficients(merged@).take(i + 1));
            i += 1;
        }
        proof {
            assert(coefficients(merged@).take(i as int) =~= coefficients(merged@));
            if is_descending(item@) {
                lemma_descending_unique(merged@, item@);
            }
        }
        bytes
    }
}

impl FromSpecImpl<Polynomial> for Vec<u8> {
    open spec fn obeys_from_spec() -> bool {
        false
    }

    open spec fn from_spec(item: Polynomial) -> Vec<u8> {
        choose|bytes: Vec<u8>| is_byte_form_of(bytes@, item@)
    }
}

/// The terms that stand for a byte sequence have strictly falling degrees.
pub proof fn lemma_terms_of_bytes_descending(bytes: Seq<u8>)
    requires
        bytes.len() <= 0x8000,
    ensures
        is_descending(terms_of_bytes(bytes)),
        is_contiguous(terms_of_bytes(bytes)),
        coefficients(terms_of_bytes(bytes)) == bytes,
{
    assert(coefficients(terms_of_bytes(bytes)) =~= bytes);
}

/// Turning a polynomial that has one term for each degree, from the
/// highest down to zero, into bytes and the bytes back into a polynomial
/// gives the polynomial again.
pub proof fn lemma_terms_round_trip(terms: Seq<Indeterminate>, bytes: Seq<u8>)
    requires
        is_contiguous(terms),
        is_byte_form_of(bytes, terms),
    ensures
        is_descending(terms),
        bytes == coefficients(terms),
        terms_of_bytes(bytes) == terms,
{
    assert(is_descending(terms)) by {
        assert forall|i: int, j: int| 0 <= i < j < terms.len() implies (#[trigger] terms[i]).degree
            > (#[trigger] terms[j]).degree by {
            assert(terms[i].degree == terms.len() - 1 - i);
            assert(terms[j].degree == terms.len() - 1 - j);
        }
    }
    let merged = choose|merged: Seq<Indeterminate>| #[trigger]
        is_merged_form_of(merged, terms) && bytes == coefficients(merged);
    lemma_descending_unique(merged, terms);
    assert(terms_of_bytes(bytes) =~= terms) by {
        assert forall|i: int| 0 <= i < terms.len() implies terms_of_bytes(bytes)[i] == terms[i] by {
            assert(terms[i].degree == terms.len() - 1 - i);
        }
    }
}

/// Turning bytes into a polynomial and the polynomial back into bytes gives
/// the bytes again.
pub proof fn lemma_bytes_round_trip(bytes: Seq<u8>, back: Seq<u8>)
    requires
        bytes.len() <= 0x8000,
        is_byte_form_of(back, terms_of_bytes(bytes)),
    ensures
        back == bytes,
{
    lemma_terms_of_bytes_descending(bytes);
    let merged = choose|merged: Seq<Indeterminate>| #[trigger]
        is_merged_form_of(merged, terms_of_bytes(bytes)) && back == coefficients(merged);
    lemma_descending_unique(merged, terms_of_bytes(bytes));
}

} // verus!
