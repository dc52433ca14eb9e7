use qrcode::polynomials::Indeterminate;
use qrcode::polynomials::Polynomial;
use qrcode::polynomials::PolynomialError;

/// The byte that stands for a signed coefficient: the coefficients count
/// modulo 256.
fn signed(coefficient: i8) -> u8 {
    coefficient as u8
}

#[test]
fn mul_ind() {
    let inde1: Indeterminate = Indeterminate::new(3, 2);
    let inde2: Indeterminate = Indeterminate::new(5, 6);
    let result2: Indeterminate = inde1 * inde2;
    println!("{} multiplied with {} equals {} ", format!("{:?}", inde1), format!("{:?}", inde2), format!("{:?}", result2));
    assert_eq!(result2, Indeterminate::new(15, 8));
}

#[test]
fn mod_mul_ind() {
    let inde1: Indeterminate = Indeterminate::new(3, 2);
    let inde2: Indeterminate = Indeterminate::new(signed(-1), 6);
    let result2: Indeterminate = inde1 * inde2;
    println!("{} multiplied with {} equals {} ", format!("{:?}", inde1), format!("{:?}", inde2), format!("{:?}", result2));
    assert_eq!(result2, Indeterminate::new(signed(-3), 8));
}

#[test]
fn reduce_poly() {
    // simple test polynomial
    let reduce_test1: Polynomial =
        Polynomial::new(vec![Indeterminate::new(6, 4), Indeterminate::new(5, 4)]);
    println!(
        "{} simplified to {}",
        format!("{:?}", reduce_test1),
        format!("{:?}", reduce_test1.clone().reduce())
    );
    assert_eq!(
        reduce_test1.clone().reduce(),
        Polynomial::new(vec![Indeterminate::new(11, 4)])
    );
    // make sure coefficients of value zero get deleted
    let mut test_pol_zero: Polynomial = Polynomial::new(vec![
        Indeterminate::new(0, 3),
        Indeterminate::new(0, 1),
        Indeterminate::new(14, 0),
        // also check sorting while being at it
        Indeterminate::new(128, 2),
    ]);
    let expected_result: Polynomial =
        Polynomial::new(vec![Indeterminate::new(128, 2), Indeterminate::new(14, 0)]);
    println!(
        "{} should get reduced to {}",
        format!("{:?}", test_pol_zero.reduce()),
        format!("{:?}", expected_result)
    );
    assert_eq!(test_pol_zero.reduce(), expected_result);
}

#[test]
fn mod_reduce_poly() {
    // simple test polynomial
    let test_pol: Polynomial = Polynomial::new(vec![
        Indeterminate::new(1, 2),
        Indeterminate::new(2, 1),
        Indeterminate::new(signed(-4), 0),
    ]);
    println!("{}", format!("{:?}", test_pol));
    let reduce_test1: Polynomial =
        Polynomial::new(vec![Indeterminate::new(signed(-3), 4), Indeterminate::new(5, 4)]);
    println!(
        "{} simplified to {}",
        format!("{:?}", reduce_test1),
        format!("{:?}", reduce_test1.clone().reduce())
    );
    assert_eq!(
        reduce_test1.clone().reduce(),
        Polynomial::new(vec![Indeterminate::new(2, 4)])
    );
    // make sure coefficients of value zero get deleted
    let mut test_pol_zero: Polynomial = Polynomial::new(vec![
        Indeterminate::new(0, 3),
        Indeterminate::new(0, 1),
        Indeterminate::new(14, 0),
        // also check sorting while being at it
        Indeterminate::new(signed(-3), 2),
    ]);
    let expected_result: Polynomial =
        Polynomial::new(vec![Indeterminate::new(signed(-3), 2), Indeterminate::new(14, 0)]);
    println!(
        "{} should get reduced to {}",
        format!("{:?}", test_pol_zero.reduce()),
        format!("{:?}", expected_result)
    );
    assert_eq!(test_pol_zero.reduce(), expected_result);
}

#[test]
fn add_poly() {
    let add1: Polynomial =
        Polynomial::new(vec![Indeterminate::new(4, 3), Indeterminate::new(2, 2)]);
    let add2: Polynomial = Polynomial::new(vec![Indeterminate::new(65, 3)]);
    let result_add: Polynomial = add1.clone() + add2.clone();
    println!("{} plus {} equals {}", format!("{:?}", add1), format!("{:?}", add2), format!("{:?}", result_add));
    assert_eq!(
        result_add,
        Polynomial::new(vec![Indeterminate::new(69, 3), Indeterminate::new(2, 2)])
    );
}

#[test]
fn mod_add_poly() {
    let add1: Polynomial =
        Polynomial::new(vec![Indeterminate::new(4, 3), Indeterminate::new(2, 2)]);
    let add2: Polynomial = Polynomial::new(vec![Indeterminate::new(signed(-2), 3)]);
    let result_add: Polynomial = add1.clone() + add2.clone();
    println!("{} plus {} equals {}", format!("{:?}", add1), format!("{:?}", add2), format!("{:?}", result_add));
    assert_eq!(
        result_add,
        Polynomial::new(vec![Indeterminate::new(2, 3), Indeterminate::new(2, 2)])
    );
}

#[test]
fn minus_poly() {
    let add1: Polynomial =
        Polynomial::new(vec![Indeterminate::new(4, 3), Indeterminate::new(2, 2)]);
    let add2: Polynomial = Polynomial::new(vec![Indeterminate::new(signed(-2), 3)]);
    println!(
        "{} minus {} equals {}",
        format!("{:?}", add1),
        format!("{:?}", add2),
        format!("{:?}", add1.clone() - add2.clone())
    );
    assert_eq!(
        add1.clone() - add2.clone(),
        Polynomial::new(vec![Indeterminate::new(6, 3), Indeterminate::new(2, 2)])
    );
}

#[test]
fn mul_poly() {
    let mul1: Polynomial = Polynomial::new(vec![
        Indeterminate::new(1, 2),
        Indeterminate::new(1, 1),
        Indeterminate::new(1, 0),
    ]);
    let mul2: Polynomial =
        Polynomial::new(vec![Indeterminate::new(1, 1), Indeterminate::new(1, 0)]);
    let result: Polynomial = (mul1.clone() * mul2.clone()).unwrap();
    println!("{} multiplied by {} equals {}", format!("{:?}", mul1), format!("{:?}", mul2), format!("{:?}", result));
    assert_eq!(
        result,
        Polynomial::new(vec![
            Indeterminate::new(1, 3),
            Indeterminate::new(2, 2),
            Indeterminate::new(2, 1),
            Indeterminate::new(1, 0),
        ])
    );
}

#[test]
fn mod_mul_poly() {
    let mul1: Polynomial = Polynomial::new(vec![
        Indeterminate::new(1, 2),
        Indeterminate::new(1, 1),
        Indeterminate::new(1, 0),
    ]);
    let mul2: Polynomial =
        Polynomial::new(vec![Indeterminate::new(1, 1), Indeterminate::new(1, 0)]);
    let result: Polynomial = (mul1.clone() * mul2.clone()).unwrap();
    println!("{} multiplied by {} equals {}", format!("{:?}", mul1), format!("{:?}", mul2), format!("{:?}", result));
    assert_eq!(
        result,
        Polynomial::new(vec![
            Indeterminate::new(1, 3),
            Indeterminate::new(2, 2),
            Indeterminate::new(2, 1),
            Indeterminate::new(1, 0),
        ])
    );
}

#[test]
fn product_with_a_negative_coefficient() {
    // (x^2 - x + 1) * (x + 1) = x^3 + 1
    let mul1: Polynomial = Polynomial::new(vec![
        Indeterminate::new(1, 2),
        Indeterminate::new(signed(-1), 1),
        Indeterminate::new(1, 0),
    ]);
    let mul2: Polynomial =
        Polynomial::new(vec![Indeterminate::new(1, 1), Indeterminate::new(1, 0)]);
    assert_eq!(
        (mul1 * mul2).unwrap(),
        Polynomial::new(vec![Indeterminate::new(1, 3), Indeterminate::new(1, 0)])
    );
}

#[test]
fn conversion_vecu8_poly() {
    let test_vec: Vec<u8> = vec![102, 51, 1, 3];
    let to_poly: Polynomial = Polynomial::from(test_vec.clone());
    let back_to_vec: Vec<u8> = Vec::from(to_poly.clone());
    println!(
        "vector {:?} after converison {} and {:?} again",
        test_vec, format!("{:?}", to_poly), back_to_vec
    );
    assert!(test_vec == back_to_vec)
}

#[test]
fn conversion_keeps_zero_bytes() {
    let bytes: Vec<u8> = vec![0, 7, 0, 0, 9, 0];
    let polynomial = Polynomial::from(bytes.clone());
    assert_eq!(polynomial.get_function().len(), 6);
    assert_eq!(polynomial.get_function()[0], Indeterminate::new(0, 5));
    assert_eq!(polynomial.get_function()[5], Indeterminate::new(0, 0));
    let back: Vec<u8> = Vec::from(polynomial);
    assert_eq!(back, bytes);
}

#[test]
fn conversion_gives_no_byte_for_a_gap() {
    let polynomial = Polynomial::new(vec![Indeterminate::new(5, 3), Indeterminate::new(7, 0)]);
    let bytes: Vec<u8> = Vec::from(polynomial);
    assert_eq!(bytes, vec![5, 7]);
}

#[test]
fn new_is_canonical() {
    let polynomial = Polynomial::new(vec![
        Indeterminate::new(1, 0),
        Indeterminate::new(200, 5),
        Indeterminate::new(3, -2),
        Indeterminate::new(56, 5),
        Indeterminate::new(9, 7),
        Indeterminate::new(2, 0),
    ]);
    assert_eq!(
        polynomial.get_function(),
        vec![Indeterminate::new(9, 7), Indeterminate::new(3, 0), Indeterminate::new(3, -2)]
    );
}

#[test]
fn coefficients_wrap_at_256() {
    let sum = Polynomial::new(vec![Indeterminate::new(200, 1)])
        + Polynomial::new(vec![Indeterminate::new(100, 1)]);
    assert_eq!(sum, Polynomial::new(vec![Indeterminate::new(44, 1)]));
    let product = Indeterminate::new(200, 1) * Indeterminate::new(200, 2);
    assert_eq!(product, Indeterminate::new(64, 3));
    let difference = Polynomial::new(vec![Indeterminate::new(1, 1)])
        - Polynomial::new(vec![Indeterminate::new(2, 1)]);
    assert_eq!(difference, Polynomial::new(vec![Indeterminate::new(255, 1)]));
}

#[test]
fn product_without_terms_is_refused() {
    let empty = Polynomial::new(vec![]);
    let some = Polynomial::new(vec![Indeterminate::new(1, 1)]);
    assert_eq!(empty.clone() * some.clone(), Err(PolynomialError::EmptyOperand));
    assert_eq!(some.clone() * empty.clone(), Err(PolynomialError::EmptyOperand));
    assert_eq!(empty.clone() * empty, Err(PolynomialError::EmptyOperand));
    assert!((some.clone() * some).is_ok());
}

#[test]
fn push_and_setters() {
    let mut polynomial = Polynomial::new(vec![Indeterminate::new(4, 2)]);
    polynomial.push(Indeterminate::new(0, 1));
    polynomial.get_function_mut().push(Indeterminate::new(6, 0));
    assert_eq!(polynomial.get_function().len(), 3);
    let mut term = Indeterminate::new(1, 9);
    term.set_coefficient(77);
    assert_eq!(term.get_coefficient(), 77);
    assert_eq!(term.get_degree(), 9);
    let reduced = polynomial.reduce();
    assert_eq!(reduced.get_function(), vec![Indeterminate::new(4, 2), Indeterminate::new(6, 0)]);
    assert_eq!(polynomial, reduced);
}

#[test]
fn poly_div() {
    let divident: Polynomial = Polynomial::new(vec![
        Indeterminate::new(1, 3),
        Indeterminate::new(1, 2),
        Indeterminate::new(signed(-9), 1),
        Indeterminate::new(7, 0),
    ]);
    let divisor: Polynomial =
        Polynomial::new(vec![Indeterminate::new(1, 1), Indeterminate::new(signed(-1), 0)]);
    println!(
        "{} divided by {} equals {}",
        format!("{:?}", divident),
        format!("{:?}", divisor),
        format!("{:?}", divident.clone() / divisor.clone())
    );
    assert_eq!(
        (divident.clone() / divisor.clone()).unwrap(),
        Polynomial::new(vec![
            Indeterminate::new(1, 2),
            Indeterminate::new(2, 1),
            Indeterminate::new(signed(-7), 0)
        ])
    );
}

#[test]
// with numbers from a video on error correction
fn calculate_a_b() {
    let final_poly_without_a_b: Polynomial = Polynomial::new(vec![
        Indeterminate::new(1, 5),
        Indeterminate::new(signed(-2), 4),
        Indeterminate::new(3, 3),
        Indeterminate::new(5, 2),
    ]);
    let error_correction_x1_x2: Polynomial =
        (Polynomial::new(vec![Indeterminate::new(1, 1), Indeterminate::new(signed(-1), 0)])
            * Polynomial::new(vec![Indeterminate::new(1, 1), Indeterminate::new(signed(-2), 0)]))
        .unwrap();
    println!("original polynom: {}", format!("{:?}", final_poly_without_a_b));
    println!("error correction term: {}", format!("{:?}", error_correction_x1_x2));
    let start_with_a_b_extracted: Polynomial =
        (final_poly_without_a_b.clone() / error_correction_x1_x2.clone()).unwrap();
    println!(
        "{} divided by {} equals {}",
        format!("{:?}", final_poly_without_a_b),
        format!("{:?}", error_correction_x1_x2),
        format!("{:?}", start_with_a_b_extracted)
    );
    let mut a_b_term: Polynomial = (start_with_a_b_extracted.clone()
        * error_correction_x1_x2.clone())
    .unwrap()
        - final_poly_without_a_b.clone();
    a_b_term.reduce();
    println!(
        "the complete term is {}",
        format!("{:?}", start_with_a_b_extracted.clone() * error_correction_x1_x2.clone())
    );
    println!(
        "the term for a and b is {} and the resulting values are: a={}, b={}",
        format!("{:?}", a_b_term),
        a_b_term.get_function()[0].get_coefficient(),
        a_b_term.get_function()[1].get_coefficient()
    );
    assert_eq!(
        a_b_term,
        Polynomial::new(vec![Indeterminate::new(signed(-37), 1), Indeterminate::new(30, 0)])
    );
}

#[test]
fn division_that_is_refused() {
    let zero = Polynomial::new(vec![Indeterminate::new(0, 3)]);
    let some = Polynomial::new(vec![Indeterminate::new(6, 2), Indeterminate::new(1, 0)]);
    assert_eq!(zero.clone() / some.clone(), Err(PolynomialError::EmptyOperand));
    assert_eq!(some.clone() / zero, Err(PolynomialError::EmptyOperand));
    assert_eq!(some.clone() / Polynomial::new(vec![]), Err(PolynomialError::EmptyOperand));
    // 6 is no multiple of 4, and 1 is less than 3
    let four = Polynomial::new(vec![Indeterminate::new(4, 1)]);
    assert_eq!(some.clone() / four, Err(PolynomialError::InexactDivision));
    let three = Polynomial::new(vec![Indeterminate::new(3, 0)]);
    assert_eq!(some.clone() / three, Err(PolynomialError::InexactDivision));
    // the degrees leave the range
    let high = Polynomial::new(vec![Indeterminate::new(1, 30000)]);
    let low = Polynomial::new(vec![Indeterminate::new(1, -30000)]);
    assert_eq!(high / low, Err(PolynomialError::InexactDivision));
    // a divisor of a higher degree gives the quotient zero
    let cube = Polynomial::new(vec![Indeterminate::new(1, 3)]);
    assert_eq!(some.clone() / cube, Ok(Polynomial::new(vec![])));
    let two = Polynomial::new(vec![Indeterminate::new(2, 1)]);
    assert_eq!(
        Polynomial::new(vec![Indeterminate::new(6, 2), Indeterminate::new(8, 1)]) / two,
        Ok(Polynomial::new(vec![Indeterminate::new(3, 1), Indeterminate::new(4, 0)]))
    );
}

#[test]
fn highest_degree_is_removed() {
    let polynomial = Polynomial::new(vec![
        Indeterminate::new(3, 5),
        Indeterminate::new(2, 2),
        Indeterminate::new(1, 0),
    ]);
    assert_eq!(
        polynomial.remove_highest_degree(),
        Polynomial::new(vec![Indeterminate::new(2, 2), Indeterminate::new(1, 0)])
    );
    let mut listed = Polynomial::new(vec![]);
    listed.push(Indeterminate::new(1, 1));
    listed.push(Indeterminate::new(7, 4));
    listed.push(Indeterminate::new(9, 4));
    listed.push(Indeterminate::new(2, 1));
    assert_eq!(listed.remove_highest_degree(), Polynomial::new(vec![Indeterminate::new(3, 1)]));
    // the highest degree counts from zero upwards
    let negative = Polynomial::new(vec![Indeterminate::new(3, -1), Indeterminate::new(4, -2)]);
    assert_eq!(negative.remove_highest_degree(), negative);
    let constant = Polynomial::new(vec![Indeterminate::new(3, 0), Indeterminate::new(4, -2)]);
    assert_eq!(constant.remove_highest_degree(), Polynomial::new(vec![Indeterminate::new(4, -2)]));
}

#[test]
fn product_with_x_in_a_field() {
    let reduction = || Polynomial::new(vec![Indeterminate::new(1, 1), Indeterminate::new(1, 0)]);
    let x = Polynomial::new(vec![Indeterminate::new(1, 1)]);
    assert_eq!(x.galois_mul_x1(reduction(), 4), Polynomial::new(vec![Indeterminate::new(1, 2)]));
    // x^3 * x = x^4 = x + 1
    let cube = Polynomial::new(vec![Indeterminate::new(1, 3)]);
    assert_eq!(cube.galois_mul_x1(reduction(), 4), reduction());
    // (x^3 + x) * x = x^4 + x^2 = x^2 + x + 1
    let polynomial = Polynomial::new(vec![Indeterminate::new(1, 3), Indeterminate::new(1, 1)]);
    assert_eq!(
        polynomial.galois_mul_x1(reduction(), 4),
        Polynomial::new(vec![
            Indeterminate::new(1, 2),
            Indeterminate::new(1, 1),
            Indeterminate::new(1, 0)
        ])
    );
    // (x^3 + 1) * x = x^4 + x = 2x + 1 = 1
    let polynomial = Polynomial::new(vec![Indeterminate::new(1, 3), Indeterminate::new(1, 0)]);
    assert_eq!(polynomial.galois_mul_x1(reduction(), 4), Polynomial::new(vec![Indeterminate::new(1, 0)]));
    assert_eq!(Polynomial::new(vec![]).galois_mul_x1(reduction(), 4), Polynomial::new(vec![]));
}
