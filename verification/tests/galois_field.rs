use qrcode::error::QrError;
use qrcode::galois_field::GaloisFields;
use qrcode::polynomials::Indeterminate;
use qrcode::polynomials::Polynomial;
use qrcode::standard_qr_code::field::symbol_field;

fn by_polynomial() -> GaloisFields {
    GaloisFields::_new(
        8,
        Polynomial::new(vec![
            Indeterminate::new(1, 4),
            Indeterminate::new(1, 3),
            Indeterminate::new(1, 2),
            Indeterminate::new(1, 0),
        ]),
    )
    .unwrap()
}

#[test]
fn the_field_of_the_symbol() {
    assert_eq!(symbol_field(), by_polynomial());
}

#[test]
fn test_values_m_4() {
    let example = GaloisFields::_new(
        4,
        Polynomial::new(vec![Indeterminate::new(1, 1), Indeterminate::new(1, 0)]),
    )
    .unwrap();
    // the table of the field: key 0 is the zero, key k the power k - 1
    let correct_map: Vec<(u8, u8)> = vec![
        (0, 0b0000_u8),
        (1, 0b0001_u8),
        (2, 0b0010_u8),
        (3, 0b0100_u8),
        (4, 0b1000_u8),
        (5, 0b0011_u8),
        (6, 0b0110_u8),
        (7, 0b1100_u8),
        (8, 0b1011_u8),
        (9, 0b0101_u8),
        (10, 0b1010_u8),
        (11, 0b0111_u8),
        (12, 0b1110_u8),
        (13, 0b1111_u8),
        (14, 0b1101_u8),
        (15, 0b1001_u8),
    ];
    for (key, value) in correct_map {
        if key == 0 {
            assert_eq!(example.value_to_index(value), Err(QrError::NotInField));
        } else {
            assert_eq!(example.index_to_value(key - 1), value);
            assert_eq!(example.value_to_index(value), Ok(key - 1));
        }
    }
    assert_eq!(example.value_to_index(16), Err(QrError::NotInField));
}

#[test]
fn sanity_alpha_conversion() {
    let galois_field = symbol_field();
    let alpha_index = 120;
    let alpha_value = galois_field.index_to_value(alpha_index);
    let reconstructed_alpha_index = galois_field.value_to_index(alpha_value).unwrap();
    assert_eq!(alpha_index, reconstructed_alpha_index);
}

#[test]
/// default example on red titan
fn test_calculate_error_correction() {
    let galois_field = symbol_field();
    let Some(correction_polynomial) = galois_field.correction_polynomial(10) else {
        panic!("test couldn't obtain generator polynomial for 10 error bytes");
    };
    let mut data = Polynomial::new(vec![
        Indeterminate::new(16, 15),
        Indeterminate::new(32, 14),
        Indeterminate::new(12, 13),
        Indeterminate::new(86, 12),
        Indeterminate::new(97, 11),
        Indeterminate::new(128, 10),
        Indeterminate::new(236, 9),
        Indeterminate::new(17, 8),
        Indeterminate::new(236, 7),
        Indeterminate::new(17, 6),
        Indeterminate::new(236, 5),
        Indeterminate::new(17, 4),
        Indeterminate::new(236, 3),
        Indeterminate::new(17, 2),
        Indeterminate::new(236, 1),
        Indeterminate::new(17, 0),
    ]);
    data = (data * Polynomial::new(vec![Indeterminate::new(1, 10)])).unwrap();
    // append missing 0x^n's
    for index in (0..=9).rev() {
        data.get_function_mut().push(Indeterminate::new(0, index));
    }
    let result =
        GaloisFields::calculate_error_correction(&data, correction_polynomial, &galois_field);
    let expected_result = Polynomial::new(vec![
        Indeterminate::new(0, 25),
        Indeterminate::new(0, 24),
        Indeterminate::new(0, 23),
        Indeterminate::new(0, 22),
        Indeterminate::new(0, 21),
        Indeterminate::new(0, 20),
        Indeterminate::new(0, 19),
        Indeterminate::new(0, 18),
        Indeterminate::new(0, 17),
        Indeterminate::new(0, 16),
        Indeterminate::new(0, 15),
        Indeterminate::new(0, 14),
        Indeterminate::new(0, 13),
        Indeterminate::new(0, 12),
        Indeterminate::new(0, 11),
        Indeterminate::new(0, 10),
        Indeterminate::new(165, 9),
        Indeterminate::new(36, 8),
        Indeterminate::new(212, 7),
        Indeterminate::new(193, 6),
        Indeterminate::new(237, 5),
        Indeterminate::new(54, 4),
        Indeterminate::new(199, 3),
        Indeterminate::new(135, 2),
        Indeterminate::new(44, 1),
        Indeterminate::new(85, 0),
    ]);
    println!("results\ncalculated: {}\nexpected:   {}", format!("{:?}", result), format!("{:?}", expected_result));
    assert_eq!(result, expected_result);
}

#[test]
fn golden_error_correction_bytes() {
    let galois_field = symbol_field();
    let message: Vec<u8> = vec![16, 32, 12, 86, 97, 128, 236, 17, 236, 17, 236, 17, 236, 17, 236, 17];
    let mut extended = message.clone();
    extended.extend(vec![0u8; 10]);
    let generator = galois_field.correction_polynomial(10).unwrap();
    let result = GaloisFields::calculate_error_correction(
        &Polynomial::from(extended),
        generator,
        &galois_field,
    );
    let bytes: Vec<u8> = Vec::from(result);
    assert_eq!(bytes, vec![165, 36, 212, 193, 237, 54, 199, 135, 44, 85]);
}

#[test]
fn bijection_over_the_nonzero_values() {
    let galois_field = symbol_field();
    assert_eq!(galois_field.index_to_value(0), 1);
    for value in 1..=255u8 {
        let index = galois_field.value_to_index(value).unwrap();
        assert!(index < 255);
        assert_eq!(galois_field.index_to_value(index), value);
    }
    for index in 0..255u8 {
        assert_eq!(galois_field.value_to_index(galois_field.index_to_value(index)), Ok(index));
    }
    assert_eq!(galois_field.value_to_index(0), Err(QrError::NotInField));
    // the exponent counts modulo 255
    assert_eq!(galois_field.index_to_value(255), 1);
    assert_eq!(galois_field.index_to_value(1), 2);
    assert_eq!(galois_field.index_to_value(8), 0b0001_1101);
    assert_eq!(galois_field.index_to_value(25), 3);
}

#[test]
fn generator_polynomial_shape() {
    let galois_field = symbol_field();
    for count in [0u8, 1, 2, 7, 10, 13, 17, 30, 68] {
        let generator = galois_field.correction_polynomial(count).unwrap().get_function();
        assert_eq!(generator.len(), count as usize + 1);
        assert_eq!(generator[0], Indeterminate::new(1, count as i16));
        assert_eq!(generator[count as usize].get_degree(), 0);
    }
    // the exponents of the generator polynomial for seven bytes
    let exponents: Vec<u8> = vec![87, 229, 146, 149, 238, 102, 21];
    let generator = galois_field.correction_polynomial(7).unwrap().get_function();
    for (place, exponent) in exponents.iter().enumerate() {
        assert_eq!(generator[place + 1].get_coefficient(), galois_field.index_to_value(*exponent));
    }
    // the generator polynomial for two bytes is x^2 + 3x + 2
    let generator = galois_field.correction_polynomial(2).unwrap().get_function();
    assert_eq!(
        generator,
        vec![Indeterminate::new(1, 2), Indeterminate::new(3, 1), Indeterminate::new(2, 0)]
    );
}

#[test]
fn multiplication_in_the_field() {
    let galois_field = symbol_field();
    assert_eq!(galois_field.multiply(0, 77), 0);
    assert_eq!(galois_field.multiply(77, 0), 0);
    assert_eq!(galois_field.multiply(1, 77), 77);
    assert_eq!(galois_field.multiply(2, 128), 0b0001_1101);
    assert_eq!(galois_field.multiply(3, 3), 5);
}

#[test]
fn unsupported_fields_are_refused() {
    let mask = || Polynomial::new(vec![Indeterminate::new(1, 1), Indeterminate::new(1, 0)]);
    assert_eq!(GaloisFields::_new(0, mask()), Err(QrError::UnsupportedConfiguration));
    assert_eq!(GaloisFields::_new(9, mask()), Err(QrError::UnsupportedConfiguration));
    // a coefficient that is not one
    assert_eq!(
        GaloisFields::_new(4, Polynomial::new(vec![Indeterminate::new(2, 1)])),
        Err(QrError::UnsupportedConfiguration)
    );
    // a degree that a byte does not have
    assert_eq!(
        GaloisFields::_new(4, Polynomial::new(vec![Indeterminate::new(1, 8)])),
        Err(QrError::UnsupportedConfiguration)
    );
    // x^4 = 1 does not generate the field
    assert_eq!(
        GaloisFields::_new(4, Polynomial::new(vec![Indeterminate::new(1, 0)])),
        Err(QrError::UnsupportedConfiguration)
    );
    // x^8 = x^4 + x^3 + x + 1 gives a field in which x generates only 51 elements
    assert_eq!(
        GaloisFields::_new(
            8,
            Polynomial::new(vec![
                Indeterminate::new(1, 4),
                Indeterminate::new(1, 3),
                Indeterminate::new(1, 1),
                Indeterminate::new(1, 0),
            ])
        ),
        Err(QrError::UnsupportedConfiguration)
    );
    assert!(GaloisFields::_new(1, Polynomial::new(vec![Indeterminate::new(1, 0)])).is_ok());
}

#[test]
fn binary_representation_of_a_polynomial() {
    let polynomial = Polynomial::new(vec![
        Indeterminate::new(1, 4),
        Indeterminate::new(1, 3),
        Indeterminate::new(1, 2),
        Indeterminate::new(1, 0),
    ]);
    assert_eq!(GaloisFields::_to_galois_u8(polynomial), 0b0001_1101);
    assert_eq!(GaloisFields::_to_galois_u8(Polynomial::new(vec![])), 0);
}

#[test]
fn products_agree_with_the_product_of_polynomials() {
    let galois_field = by_polynomial();
    for a in 0..=255u8 {
        for b in [0u8, 1, 2, 3, 29, 76, 128, 200, 255] {
            let mut product: u16 = 0;
            for bit in 0..8 {
                if (b >> bit) & 1 == 1 {
                    product ^= (a as u16) << bit;
                }
            }
            for bit in (8..16).rev() {
                if (product >> bit) & 1 == 1 {
                    product ^= 0x11d << (bit - 8);
                }
            }
            assert_eq!(galois_field.multiply(a, b), product as u8);
        }
    }
    assert_eq!(galois_field.get_m(), 8);
    assert_eq!(galois_field.get_mod_poly().get_function().len(), 4);
}
