//! The finite fields with 2^m elements, 1 <= m <= 8, in the representation by
//! powers of a generating element, and Reed-Solomon error correction in them.
//!
//! An element of the field is a byte below 2^m: bit `i` is the coefficient of
//! `x^i`. The field is fixed by `m` and by the reduction mask, the bits of
//! the polynomial that `x^m` is replaced with. The field is usable where the
//! powers of `x` run through every element but zero: [`is_generator`].

use vstd::prelude::*;
use std::collections::HashMap;
use crate::error::QrError;
use crate::polynomials::Indeterminate;
use crate::polynomials::Polynomial;
use crate::polynomials::coefficients;
use crate::polynomials::is_contiguous;
use crate::polynomials::terms_of_bytes;

verus! {

/// Number of elements of the field of width `m`.
pub open spec fn field_size(m: int) -> int {
    if m == 1 {
        2
    } else if m == 2 {
        4
    } else if m == 3 {
        8
    } else if m == 4 {
        16
    } else if m == 5 {
        32
    } else if m == 6 {
        64
    } else if m == 7 {
        128
    } else {
        256
    }
}

/// Number of elements of the field but zero.
pub open spec fn field_order(m: int) -> int {
    field_size(m) - 1
}

/// The byte with the one bit `degree` set; zero for a degree that a byte
/// does not have.
pub open spec fn bit_of_degree(degree: int) -> u8 {
    if degree == 0 {
        1
    } else if degree == 1 {
        2
    } else if degree == 2 {
        4
    } else if degree == 3 {
        8
    } else if degree == 4 {
        16
    } else if degree == 5 {
        32
    } else if degree == 6 {
        64
    } else if degree == 7 {
        128
    } else {
        0
    }
}

/// Every term is `x^d` with `0 <= d < 8`: the polynomial has a binary
/// representation.
pub open spec fn is_binary_polynomial(terms: Seq<Indeterminate>) -> bool {
    forall|i: int|
        0 <= i < terms.len() ==> (#[trigger] terms[i]).coefficient == 1 && 0 <= terms[i].degree < 8
}

/// The binary representation of a polynomial: bit `d` is set where `x^d`
/// is among the terms.
pub open spec fn binary_representation(terms: Seq<Indeterminate>) -> u8
    decreases terms.len(),
{
    if terms.len() == 0 {
        0
    } else {
        binary_representation(terms.drop_last()) | bit_of_degree(terms.last().degree as int)
    }
}

/// The product of a field element with `x`.
pub open spec fn times_x(value: u8, m: int, mask: u8) -> u8 {
    if 2 * value >= field_size(m) {
        ((2 * value - field_size(m)) as u8) ^ mask
    } else {
        (2 * value) as u8
    }
}

/// The power `x^exponent` in the field.
pub open spec fn power_of_x(exponent: int, m: int, mask: u8) -> u8
    decreases exponent,
{
    if exponent <= 0 {
        1
    } else {
        times_x(power_of_x(exponent - 1, m, mask), m, mask)
    }
}

/// `value` is one of the first `until` powers of `x`.
pub open spec fn is_power_below(value: u8, until: int, m: int, mask: u8) -> bool {
    exists|j: int| 0 <= j < until && #[trigger] power_of_x(j as int, m, mask) == value
}

/// The powers `x^0, ..., x^(2^m - 2)` are the elements of the field but
/// zero, each once.
pub open spec fn is_generator(m: int, mask: u8) -> bool {
    &&& forall|i: int|
        0 <= i < field_order(m) ==> 1 <= #[trigger] power_of_x(i as int, m, mask) < field_size(m)
    &&& forall|value: u8|
        1 <= value < field_size(m) ==> #[trigger] is_power_below(value, field_order(m), m, mask)
    &&& forall|i: int, j: int|
        0 <= i < j < field_order(m) ==> #[trigger] power_of_x(i as int, m, mask) != #[trigger] power_of_x(
            j as int,
            m,
            mask,
        )
}

/// The width and the reduction polynomial describe a usable field.
pub open spec fn is_supported_field(m: u8, reduction: Seq<Indeterminate>) -> bool {
    &&& 1 <= m <= 8
    &&& is_binary_polynomial(reduction)
    &&& is_generator(m as int, binary_representation(reduction))
}

/// The exponent below the order to which `x` gives `value`.
pub open spec fn exponent_of(value: u8, m: int, mask: u8) -> int {
    choose|i: int| 0 <= i < field_order(m) && #[trigger] power_of_x(i, m, mask) == value
}

/// The product of two elements of the field; zero where one of them is zero
/// or no element of the field.
pub open spec fn field_product(a: u8, b: u8, m: int, mask: u8) -> u8 {
    if 1 <= a < field_size(m) && 1 <= b < field_size(m) {
        power_of_x(((exponent_of(a, m, mask) + exponent_of(b, m, mask)) % field_order(m)) as int, m, mask)
    } else {
        0
    }
}

/// The coefficients of `g * (x + root)`, from the highest degree down,
/// where `coefficients` are those of `g`.
pub open spec fn generator_step(coefficients: Seq<u8>, root: u8, m: int, mask: u8) -> Seq<u8> {
    Seq::new(
        coefficients.len() + 1,
        |j: int|
            if j == 0 {
                coefficients[0]
            } else if j < coefficients.len() {
                coefficients[j] ^ field_product(coefficients[j - 1], root, m, mask)
            } else {
                field_product(coefficients[j - 1], root, m, mask)
            },
    )
}

/// The coefficients, from the highest degree down, of the product of
/// `x + x^i` over `0 <= i < count`, taken in the field: the generator
/// polynomial for `count` error-correction bytes.
pub open spec fn generator_coefficients(count: int, m: int, mask: u8) -> Seq<u8>
    decreases count,
{
    if count <= 0 {
        seq![1u8]
    } else {
        generator_step(
            generator_coefficients(count - 1, m, mask),
            power_of_x((count - 1) % field_order(m), m, mask),
            m,
            mask,
        )
    }
}

/// One step of the division by the generator: the multiple of the generator
/// that clears the coefficient at place `at` is added, from that place on.
pub open spec fn division_step(work: Seq<u8>, generator: Seq<u8>, at: int, m: int, mask: u8) -> Seq<u8> {
    Seq::new(
        work.len(),
        |i: int|
            if at <= i < at + generator.len() {
                work[i] ^ field_product(generator[i - at], work[at], m, mask)
            } else {
                work[i]
            },
    )
}

/// The dividend after the first `steps` steps of the division.
pub open spec fn divided(work: Seq<u8>, generator: Seq<u8>, steps: int, m: int, mask: u8) -> Seq<u8>
    decreases steps,
{
    if steps <= 0 {
        work
    } else {
        division_step(divided(work, generator, steps - 1, m, mask), generator, steps - 1, m, mask)
    }
}

/// What the division of `data` by `generator` leaves: one step for each
/// coefficient of `data` that has a whole generator below it, and of the
/// result the coefficients that the steps did not reach.
pub open spec fn error_correction_bytes(data: Seq<u8>, generator: Seq<u8>, m: int, mask: u8) -> Seq<u8> {
    let steps = data.len() - generator.len() + 1;
    divided(data, generator, steps, m, mask).subrange(steps, data.len() as int)
}

/// The generator polynomial for `count` bytes has `count + 1` coefficients,
/// the first of which is 1.
pub proof fn lemma_generator_shape(count: int, m: int, mask: u8)
    requires
        0 <= count,
    ensures
        generator_coefficients(count, m, mask).len() == count + 1,
        generator_coefficients(count, m, mask)[0] == 1,
    decreases count,
{
    if count > 0 {
        lemma_generator_shape(count - 1, m, mask);
    }
}

/// The division keeps the number of coefficients.
proof fn lemma_divided_len(work: Seq<u8>, generator: Seq<u8>, steps: int, m: int, mask: u8)
    ensures
        divided(work, generator, steps, m, mask).len() == work.len(),
    decreases steps,
{
    if steps > 0 {
        lemma_divided_len(work, generator, steps - 1, m, mask);
    }
}

/// A field with 2^m elements and its tables of powers and exponents.
#[derive(Debug, PartialEq, Clone)]
pub struct GaloisFields {
    m: u8,
    mod_poly: Polynomial,
    /// key 0 gives zero, key `i + 1` gives `x^i`
    galois_table: HashMap<u8, u8>,
    /// entry `x^i` is `i`
    index_table: Vec<u8>,
}

/// Number of elements of the field of width `m`.
fn size_of_width(m: u8) -> (size: u16)
    requires
        1 <= m <= 8,
    ensures
        size == field_size(m as int),
        2 <= size <= 256,
{
    if m == 1 {
        2
    } else if m == 2 {
        4
    } else if m == 3 {
        8
    } else if m == 4 {
        16
    } else if m == 5 {
        32
    } else if m == 6 {
        64
    } else if m == 7 {
        128
    } else {
        256
    }
}

/// The byte with the one bit `degree` set.
fn bit_for(degree: i16) -> (bit: u8)
    ensures
        bit == bit_of_degree(degree as int),
{
    if degree == 0 {
        1
    } else if degree == 1 {
        2
    } else if degree == 2 {
        4
    } else if degree == 3 {
        8
    } else if degree == 4 {
        16
    } else if degree == 5 {
        32
    } else if degree == 6 {
        64
    } else if degree == 7 {
        128
    } else {
        0
    }
}

/// The product of a field element with `x`.
fn multiply_by_x(value: u8, m: u8, mask: u8) -> (product: u8)
    requires
        1 <= m <= 8,
        value < field_size(m as int),
    ensures
        product == times_x(value, m as int, mask),
{
    let size = size_of_width(m);
    let doubled: u16 = 2 * (value as u16);
    if doubled >= size {
        ((doubled - size) as u8) ^ mask
    } else {
        doubled as u8
    }
}

/// The value that the table gives for a key that it holds.
fn table_entry(table: &HashMap<u8, u8>, key: u8) -> (value: u8)
    requires
        table@.contains_key(key),
    ensures
        value == table@[key],
{
    match table.get(&key) {
        Some(value) => *value,
        None => vstd::pervasive::unreached(),
    }
}

/// `length` zero bytes.
fn filled_bytes(length: usize) -> (bytes: Vec<u8>)
    ensures
        bytes@.len() == length,
        forall|i: int| 0 <= i < length ==> bytes@[i] == 0,
{
    let mut bytes: Vec<u8> = Vec::new();
    let mut i: usize = 0;
    while i < length
        invariant
            i <= length,
            bytes@.len() == i,
            forall|k: int| 0 <= k < i ==> bytes@[k] == 0,
        decreases length - i,
    {
        bytes.push(0);
        i += 1;
    }
    bytes
}

/// `length` flags, none of them set.
fn cleared_flags(length: usize) -> (flags: Vec<bool>)
    ensures
        flags@.len() == length,
        forall|i: int| 0 <= i < length ==> !flags@[i],
{
    let mut flags: Vec<bool> = Vec::new();
    let mut i: usize = 0;
    while i < length
        invariant
            i <= length,
            flags@.len() == i,
            forall|k: int| 0 <= k < i ==> !flags@[k],
        decreases length - i,
    {
        flags.push(false);
        i += 1;
    }
    flags
}

/// Every term is a power of `x` below `x^8`.
fn has_binary_terms(terms: &Vec<Indeterminate>) -> (binary: bool)
    ensures
        binary == is_binary_polynomial(terms@),
{
    let mut i: usize = 0;
    while i < terms.len()
        invariant
            i <= terms.len(),
            forall|k: int|
                0 <= k < i ==> (#[trigger] terms@[k]).coefficient == 1 && 0 <= terms@[k].degree < 8,
        decreases terms.len() - i,
    {
        if terms[i].coefficient != 1 || terms[i].degree < 0 || terms[i].degree >= 8 {
            return false;
        }
        i += 1;
    }
    true
}

impl GaloisFields {
    /// Width of the field.
    pub closed spec fn spec_m(&self) -> u8 {
        self.m
    }

    /// Reduction mask of the field.
    pub closed spec fn spec_mask(&self) -> u8 {
        binary_representation(self.mod_poly@)
    }

    /// The reduction polynomial that the field was made with.
    pub closed spec fn spec_reduction(&self) -> Seq<Indeterminate> {
        self.mod_poly@
    }

    /// The tables hold the powers of `x` and their exponents, and the powers
    /// run through the field.
    pub closed spec fn wf(&self) -> bool {
        let m = self.m as int;
        let mask = binary_representation(self.mod_poly@);
        &&& 1 <= self.m <= 8
        &&& is_binary_polynomial(self.mod_poly@)
        &&& self.index_table@.len() == 256
        &&& self.galois_table@.contains_key(0)
        &&& self.galois_table@[0] == 0
        &&& forall|i: int|
            0 <= i < field_order(m) ==> {
                &&& 1 <= #[trigger] power_of_x(i as int, m, mask) < field_size(m)
                &&& self.galois_table@.contains_key((i + 1) as u8)
                &&& self.galois_table@[(i + 1) as u8] == power_of_x(i as int, m, mask)
                &&& self.index_table@[power_of_x(i as int, m, mask) as int] == i
            }
        &&& forall|value: int|
            1 <= value < field_size(m) ==> {
                &&& 0 <= #[trigger] self.index_table@[value] < field_order(m)
                &&& power_of_x(self.index_table@[value] as int, m, mask) == value
            }
    }

    /// What a well-formed field is: a supported one.
    pub proof fn lemma_wf_is_supported(&self)
        requires
            self.wf(),
        ensures
            is_supported_field(self.spec_m(), self.spec_reduction()),
            self.spec_mask() == binary_representation(self.spec_reduction()),
    {
        let m = self.m as int;
        let mask = binary_representation(self.mod_poly@);
        assert forall|value: u8| 1 <= value < field_size(m) implies #[trigger] is_power_below(
            value,
            field_order(m),
            m,
            mask,
        ) by {
            let j = self.index_table@[value as int] as int;
            assert(power_of_x(j as int, m, mask) == value);
        }
        assert forall|i: int, j: int| 0 <= i < j < field_order(m) implies #[trigger] power_of_x(
            i as int,
            m,
            mask,
        ) != #[trigger] power_of_x(j as int, m, mask) by {
            assert(self.index_table@[power_of_x(i as int, m, mask) as int] == i);
            assert(self.index_table@[power_of_x(j as int, m, mask) as int] == j);
        }
    }

    /// The exponent table holds the exponents of the elements.
    proof fn lemma_exponents(&self, value: u8)
        requires
            self.wf(),
            1 <= value < field_size(self.m as int),
        ensures
            self.index_table@[value as int] == exponent_of(value, self.m as int, self.spec_mask()),
            0 <= exponent_of(value, self.m as int, self.spec_mask()) < field_order(self.m as int),
            power_of_x(exponent_of(value, self.m as int, self.spec_mask()) as int, self.m as int, self.spec_mask())
                == value,
    {
        let m = self.m as int;
        let mask = binary_representation(self.mod_poly@);
        let found = self.index_table@[value as int] as int;
        assert(power_of_x(found as int, m, mask) == value);
        let chosen = exponent_of(value, m, mask);
        assert(0 <= chosen < field_order(m) && power_of_x(chosen as int, m, mask) == value);
        assert(self.index_table@[power_of_x(chosen as int, m, mask) as int] == chosen);
    }

    /// Width of the field: it has 2^m elements.
    pub fn get_m(&self) -> (m: u8)
        ensures
            m == self.spec_m(),
    {
        self.m
    }

    /// The reduction polynomial that the field was made with.
    pub fn get_mod_poly(&self) -> (reduction: Polynomial)
        ensures
            reduction@ == self.spec_reduction(),
    {
        Polynomial { function: self.mod_poly.get_function() }
    }

    /// The binary representation of a polynomial whose terms are powers of
    /// `x` below `x^8`: `x^4+x^3+x^2+1` gives `0b00011101`.
    pub fn _to_galois_u8(polynomial: Polynomial) -> (mask: u8)
        requires
            is_binary_polynomial(polynomial@),
        ensures
            mask == binary_representation(polynomial@),
    {
        let mut mask: u8 = 0;
        let mut i: usize = 0;
        while i < polynomial.function.len()
            invariant
                i <= polynomial.function.len(),
                mask == binary_representation(polynomial@.take(i as int)),
            decreases polynomial.function.len() - i,
        {
            let bit = bit_for(polynomial.function[i].degree);
            assert(polynomial@.take(i + 1).drop_last() =~= polynomial@.take(i as int));
            mask = mask | bit;
            i += 1;
        }
        assert(polynomial@.take(i as int) =~= polynomial@);
        mask
    }

    /// The field of width `m` in which `x^m` is replaced with `mod_fx`. A
    /// width outside 1..=8, a reduction polynomial without a binary
    /// representation, and one under which the powers of `x` do not run
    /// through the field are refused.
    pub fn _new(m: u8, mod_fx: Polynomial) -> (field: Result<GaloisFields, QrError>)
        ensures
            match field {
                Ok(made) => {
                    &&& made.wf()
                    &&& made.spec_m() == m
                    &&& made.spec_reduction() == mod_fx@
                    &&& made.spec_mask() == binary_representation(mod_fx@)
                    &&& is_supported_field(m, mod_fx@)
                },
                Err(error) => error == QrError::UnsupportedConfiguration && !is_supported_field(
                    m,
                    mod_fx@,
                ),
            },
    {
        if m == 0 || m > 8 {
            return Err(QrError::UnsupportedConfiguration);
        }
        if !has_binary_terms(&mod_fx.function) {
            return Err(QrError::UnsupportedConfiguration);
        }
        let mask = GaloisFields::_to_galois_u8(Polynomial { function: mod_fx.get_function() });
        let size = size_of_width(m);
        let order: usize = (size - 1) as usize;
        let mut galois_table: HashMap<u8, u8> = HashMap::new();
        galois_table.insert(0, 0);
        let mut index_table = filled_bytes(256);
        let mut seen = cleared_flags(256);
        let mut value: u8 = 1;
        let mut i: usize = 0;
        while i < order
            invariant
                1 <= m <= 8,
                mask == binary_representation(mod_fx@),
                size == field_size(m as int),
                order == field_order(m as int),
                i <= order,
                index_table@.len() == 256,
                seen@.len() == 256,
                galois_table@.contains_key(0),
                galois_table@[0] == 0,
                value == power_of_x(i as int, m as int, mask),
                forall|j: int|
                    0 <= j < i ==> 1 <= #[trigger] power_of_x(j as int, m as int, mask) < size
                        && galois_table@.contains_key((j + 1) as u8) && galois_table@[(j + 1) as u8]
                        == power_of_x(j as int, m as int, mask),
                forall|v: int|
                    0 <= v < 256 ==> (#[trigger] seen@[v] <==> is_power_below(
                        v as u8,
                        i as int,
                        m as int,
                        mask,
                    )),
                forall|v: int|
                    0 <= v < 256 && #[trigger] seen@[v] ==> 0 <= index_table@[v] < i && power_of_x(
                        index_table@[v] as int,
                        m as int,
                        mask,
                    ) == v,
            decreases order - i,
        {
            if value == 0 || value as u16 >= size {
                proof {
                    assert(!(1 <= power_of_x(i as int, m as int, mask) < field_size(m as int)));
                }
                return Err(QrError::UnsupportedConfiguration);
            }
            let ghost seen_before = seen@;
            galois_table.insert((i + 1) as u8, value);
            index_table[value as usize] = i as u8;
            seen[value as usize] = true;
            proof {
                assert forall|v: int| 0 <= v < 256 implies (#[trigger] seen@[v] <==> is_power_below(
                    v as u8,
                    i + 1,
                    m as int,
                    mask,
                )) by {
                    if seen@[v] {
                        if v == value {
                            assert(power_of_x(i as int, m as int, mask) == v as u8);
                        } else {
                            assert(seen_before[v]);
                            assert(is_power_below(v as u8, i as int, m as int, mask));
                            let j = choose|j: int|
                                0 <= j < i && #[trigger] power_of_x(j as int, m as int, mask) == v as u8;
                            assert(power_of_x(j as int, m as int, mask) == v as u8);
                        }
                    }
                    if is_power_below(v as u8, i + 1, m as int, mask) {
                        let j = choose|j: int|
                            0 <= j < i + 1 && #[trigger] power_of_x(j as int, m as int, mask) == v as u8;
                        if j < i {
                            assert(is_power_below(v as u8, i as int, m as int, mask));
                            assert(seen_before[v]);
                        }
                    }
                }
            }
            value = multiply_by_x(value, m, mask);
            i += 1;
        }
        let mut v: usize = 1;
        while v < size as usize
            invariant
                1 <= v <= size,
                mask == binary_representation(mod_fx@),
                size <= 256,
                size == field_size(m as int),
                order == field_order(m as int),
                seen@.len() == 256,
                forall|u: int|
                    0 <= u < 256 ==> (#[trigger] seen@[u] <==> is_power_below(
                        u as u8,
                        order as int,
                        m as int,
                        mask,
                    )),
                forall|u: int| 1 <= u < v ==> #[trigger] seen@[u],
            decreases size - v,
        {
            if !seen[v] {
                proof {
                    assert(!is_power_below(v as u8, order as int, m as int, mask));
                }
                return Err(QrError::UnsupportedConfiguration);
            }
            v += 1;
        }
        let mut k: usize = 0;
        while k < order
            invariant
                k <= order,
                mask == binary_representation(mod_fx@),
                order == field_order(m as int),
                size == field_size(m as int),
                1 <= m <= 8,
                index_table@.len() == 256,
                galois_table@.contains_key(0),
                galois_table@[0] == 0,
                forall|j: int|
                    0 <= j < order ==> 1 <= #[trigger] power_of_x(j as int, m as int, mask) < size
                        && galois_table@.contains_key((j + 1) as u8) && galois_table@[(j + 1) as u8]
                        == power_of_x(j as int, m as int, mask),
                forall|u: int|
                    0 <= u < 256 && #[trigger] seen@[u] ==> 0 <= index_table@[u] < order && power_of_x(
                        index_table@[u] as int,
                        m as int,
                        mask,
                    ) == u,
                seen@.len() == 256,
                forall|u: int| 1 <= u < size ==> #[trigger] seen@[u],
                forall|j: int|
                    0 <= j < k ==> index_table@[#[trigger] power_of_x(j as int, m as int, mask) as int] == j,
            decreases order - k,
        {
            assert(galois_table@.contains_key((k + 1) as u8)) by {
                assert(1 <= power_of_x(k as int, m as int, mask));
            }
            let power = table_entry(&galois_table, (k + 1) as u8);
            assert(power == power_of_x(k as int, m as int, mask));
            if index_table[power as usize] as usize != k {
                proof {
                    let other = index_table@[power as int] as int;
                    assert(seen@[power as int]);
                    assert(power_of_x(other as int, m as int, mask) == power);
                    if other < k {
                        assert(power_of_x(other as int, m as int, mask) == power_of_x(
                            k as int,
                            m as int,
                            mask,
                        ));
                    } else {
                        assert(power_of_x(k as int, m as int, mask) == power_of_x(
                            other as int,
                            m as int,
                            mask,
                        ));
                    }
                    assert(!is_generator(m as int, mask));
                }
                return Err(QrError::UnsupportedConfiguration);
            }
            k += 1;
        }
        let made = GaloisFields { m, mod_poly: mod_fx, galois_table, index_table };
        proof {
            assert forall|value: int| 1 <= value < field_size(m as int) implies {
                &&& 0 <= #[trigger] made.index_table@[value] < field_order(m as int)
                &&& power_of_x(made.index_table@[value] as int, m as int, mask) == value
            } by {
                assert(seen@[value]);
            }
            assert(made.wf());
            made.lemma_wf_is_supported();
        }
        Ok(made)
    }

    /// The power `x^alpha_indice`; the exponent counts modulo the order of
    /// the field.
    pub fn index_to_value(&self, alpha_indice: u8) -> (value: u8)
        requires
            self.wf(),
        ensures
            value == power_of_x(
                (alpha_indice as int % field_order(self.spec_m() as int)) as int,
                self.spec_m() as int,
                self.spec_mask(),
            ),
            1 <= value < field_size(self.spec_m() as int),
    {
        let size = size_of_width(self.m);
        let order: u16 = size - 1;
        let exponent: u16 = (alpha_indice as u16) % order;
        assert(1 <= power_of_x(exponent as int, self.m as int, self.spec_mask()) < field_size(
            self.m as int,
        ));
        table_entry(&self.galois_table, (exponent + 1) as u8)
    }

    /// The exponent to which `x` gives `value`. Zero, and a byte that is no
    /// element of the field, has none.
    pub fn value_to_index(&self, value: u8) -> (index: Result<u8, QrError>)
        requires
            self.wf(),
        ensures
            match index {
                Ok(exponent) => {
                    &&& 1 <= value < field_size(self.spec_m() as int)
                    &&& exponent == exponent_of(value, self.spec_m() as int, self.spec_mask())
                    &&& exponent < field_order(self.spec_m() as int)
                    &&& power_of_x(exponent as int, self.spec_m() as int, self.spec_mask()) == value
                },
                Err(error) => error == QrError::NotInField && !(1 <= value < field_size(
                    self.spec_m() as int,
                )),
            },
    {
        let size = size_of_width(self.m);
        if value == 0 || value as u16 >= size {
            return Err(QrError::NotInField);
        }
        proof {
            self.lemma_exponents(value);
        }
        Ok(self.index_table[value as usize])
    }
    /// From an element to its exponent and back to the element: the same
    /// element, for every element but zero; and `x^0` is 1.
    pub proof fn lemma_exponent_round_trip(&self, value: u8)
        requires
            self.wf(),
            1 <= value < field_size(self.spec_m() as int),
        ensures
            power_of_x(
                exponent_of(value, self.spec_m() as int, self.spec_mask()) % field_order(
                    self.spec_m() as int,
                ),
                self.spec_m() as int,
                self.spec_mask(),
            ) == value,
            power_of_x(0, self.spec_m() as int, self.spec_mask()) == 1,
    {
        self.lemma_exponents(value);
        let exponent = exponent_of(value, self.spec_m() as int, self.spec_mask());
        let order = field_order(self.spec_m() as int);
        assert(exponent % order == exponent) by (nonlinear_arith)
            requires
                0 <= exponent < order,
        ;
    }

    /// The product of two elements of the field.
    pub fn multiply(&self, a: u8, b: u8) -> (product: u8)
        requires
            self.wf(),
        ensures
            product == field_product(a, b, self.spec_m() as int, self.spec_mask()),
    {
        let size = size_of_width(self.m);
        if a == 0 || b == 0 || a as u16 >= size || b as u16 >= size {
            return 0;
        }
        proof {
            self.lemma_exponents(a);
            self.lemma_exponents(b);
        }
        let order: u16 = size - 1;
        let sum: u16 = self.index_table[a as usize] as u16 + self.index_table[b as usize] as u16;
        let exponent: u16 = sum % order;
        assert(1 <= power_of_x(exponent as int, self.m as int, self.spec_mask()) < field_size(
            self.m as int,
        ));
        table_entry(&self.galois_table, (exponent + 1) as u8)
    }

    /// The generator polynomial for `num_error_corr` error-correction bytes:
    /// the product of `x + x^i` over `0 <= i < num_error_corr`, with one term
    /// for each degree from `num_error_corr` down to zero.
    pub fn correction_polynomial(&self, num_error_corr: u8) -> (generator: Option<Polynomial>)
        requires
            self.wf(),
        ensures
            generator is Some,
            generator->0@ == terms_of_bytes(
                generator_coefficients(num_error_corr as int, self.spec_m() as int, self.spec_mask()),
            ),
            generator->0@.len() == num_error_corr + 1,
            generator->0@[0] == (Indeterminate { coefficient: 1, degree: num_error_corr as i16 }),
            is_contiguous(generator->0@),
    {
        let ghost m = self.m as int;
        let ghost mask = self.spec_mask();
        let mut current: Vec<u8> = Vec::new();
        current.push(1);
        assert(current@ =~= generator_coefficients(0, m, mask));
        let mut count: u8 = 0;
        while count < num_error_corr
            invariant
                self.wf(),
                m == self.m as int,
                mask == self.spec_mask(),
                count <= num_error_corr,
                current@ == generator_coefficients(count as int, m, mask),
                current@.len() == count + 1,
            decreases num_error_corr - count,
        {
            let root = self.index_to_value(count);
            let ghost wanted = generator_step(current@, root, m, mask);
            let mut next: Vec<u8> = Vec::new();
            next.push(current[0]);
            let mut j: usize = 1;
            while j < current.len()
                invariant
                    self.wf(),
                    m == self.m as int,
                    mask == self.spec_mask(),
                    1 <= j <= current@.len(),
                    wanted == generator_step(current@, root, m, mask),
                    next@ == wanted.take(j as int),
                decreases current.len() - j,
            {
                let carried = self.multiply(current[j - 1], root);
                next.push(current[j] ^ carried);
                assert(next@ =~= wanted.take(j + 1));
                j += 1;
            }
            let last = self.multiply(current[current.len() - 1], root);
            next.push(last);
            assert(next@ =~= wanted);
            current = next;
            count += 1;
        }
        proof {
            lemma_generator_shape(num_error_corr as int, m, mask);
            crate::polynomials::lemma_terms_of_bytes_descending(current@);
        }
        let generator = Polynomial::from(current);
        Some(generator)
    }

    /// The error-correction bytes for a message, as a polynomial with one
    /// term for each byte. `data_bytes` holds the message followed by one
    /// zero for each error-correction byte, `correction_polynomial` the
    /// generator polynomial, both with one term for each degree down to zero.
    pub fn calculate_error_correction(
        data_bytes: &Polynomial,
        correction_polynomial: Polynomial,
        galois_field: &GaloisFields,
    ) -> (correction: Polynomial)
        requires
            galois_field.wf(),
            is_contiguous(data_bytes@),
            is_contiguous(correction_polynomial@),
            1 <= correction_polynomial@.len() <= data_bytes@.len(),
        ensures
            correction@ == terms_of_bytes(
                error_correction_bytes(
                    coefficients(data_bytes@),
                    coefficients(correction_polynomial@),
                    galois_field.spec_m() as int,
                    galois_field.spec_mask(),
                ),
            ),
            correction@.len() == correction_polynomial@.len() - 1,
            is_contiguous(correction@),
    {
        let ghost m = galois_field.m as int;
        let ghost mask = galois_field.spec_mask();
        let mut work = coefficient_bytes(&data_bytes.function);
        let generator = coefficient_bytes(&correction_polynomial.function);
        let ghost data = work@;
        let length = work.len();
        let steps: usize = length - generator.len() + 1;
        let mut at: usize = 0;
        while at < steps
            invariant
                galois_field.wf(),
                m == galois_field.m as int,
                mask == galois_field.spec_mask(),
                at <= steps,
                steps == length - generator@.len() + 1,
                1 <= generator@.len() <= length,
                work@.len() == length,
                work@ == divided(data, generator@, at as int, m, mask),
            decreases steps - at,
        {
            let lead = work[at];
            let ghost before = work@;
            let mut j: usize = 0;
            while j < generator.len()
                invariant
                    galois_field.wf(),
                    m == galois_field.m as int,
                    mask == galois_field.spec_mask(),
                    j <= generator@.len(),
                    at + generator@.len() <= length,
                    before.len() == length,
                    work@.len() == length,
                    lead == before[at as int],
                    forall|i: int|
                        0 <= i < length ==> #[trigger] work@[i] == if at <= i < at + j {
                            before[i] ^ field_product(generator@[i - at], lead, m, mask)
                        } else {
                            before[i]
                        },
                decreases generator.len() - j,
            {
                let scaled = galois_field.multiply(generator[j], lead);
                let mixed = work[at + j] ^ scaled;
                work[at + j] = mixed;
                j += 1;
            }
            assert(work@ =~= division_step(before, generator@, at as int, m, mask));
            at += 1;
        }
        let mut rest: Vec<u8> = Vec::new();
        let mut i: usize = steps;
        while i < length
            invariant
                steps <= i <= length,
                work@.len() == length,
                rest@ == work@.subrange(steps as int, i as int),
            decreases length - i,
        {
            rest.push(work[i]);
            assert(rest@ =~= work@.subrange(steps as int, i + 1));
            i += 1;
        }
        proof {
            assert(data_bytes@[0].degree == data_bytes@.len() - 1);
            crate::polynomials::lemma_terms_of_bytes_descending(rest@);
        }
        Polynomial::from(rest)
    }
}

/// The coefficients of a list of terms, in order.
pub fn coefficient_bytes(terms: &Vec<Indeterminate>) -> (bytes: Vec<u8>)
    ensures
        bytes@ == coefficients(terms@),
{
    let mut bytes: Vec<u8> = Vec::new();
    let mut i: usize = 0;
    while i < terms.len()
        invariant
            i <= terms.len(),
            bytes@ == coefficients(terms@).take(i as int),
        decreases terms.len() - i,
    {
        bytes.push(terms[i].coefficient);
        assert(bytes@ =~= coefficients(terms@).take(i + 1));
        i += 1;
    }
    assert(coefficients(terms@).take(i as int) =~= coefficients(terms@));
    bytes
}

} // verus!
