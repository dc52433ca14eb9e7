//! One block worked through: sixteen data bytes, the generator polynomial
//! for ten error-correction bytes, and the ten bytes that the division
//! leaves.

use vstd::prelude::*;
use crate::galois_field::divided;
use crate::galois_field::division_step;
use crate::galois_field::error_correction_bytes;
use crate::galois_field::generator_coefficients;
use crate::galois_field::generator_step;
use crate::standard_qr_code::codewords::block_error_correction;
use crate::standard_qr_code::codewords::zero_bytes;
use crate::standard_qr_code::field::bits_product;
use crate::standard_qr_code::field::lemma_field_product_in_bits;
use crate::standard_qr_code::field::lemma_symbol_powers;
use crate::standard_qr_code::field::qr_mask;
use crate::galois_field::power_of_x;
use crate::galois_field::field_order;

verus! {

/// The data bytes of the block.
pub open spec fn example_data() -> Seq<u8> {
    seq![16u8, 32, 12, 86, 97, 128, 236, 17, 236, 17, 236, 17, 236, 17, 236, 17]
}

/// The coefficients of the generator polynomial for ten bytes, from the
/// highest degree down.
pub open spec fn example_generator() -> Seq<u8> {
    seq![1u8, 216, 194, 159, 111, 199, 94, 95, 113, 157, 193]
}

/// The error-correction bytes of the block.
pub open spec fn example_correction() -> Seq<u8> {
    seq![165u8, 36, 212, 193, 237, 54, 199, 135, 44, 85]
}

/// The first factor of the generator polynomial, `x + 1`.
proof fn lemma_generator_factor_1()
    ensures
        generator_step(seq![1u8], 1, 8, qr_mask()) == seq![1u8, 1],
{
    assert(
        bits_product(1, 1) == 1u8
    ) by (bit_vector);
    lemma_field_product_in_bits(1, 1);
    let next = generator_step(seq![1u8], 1, 8, qr_mask());
    assert(next =~= seq![1u8, 1]);
}

/// The second factor of the generator polynomial, `x + 2`.
proof fn lemma_generator_factor_2()
    ensures
        generator_step(seq![1u8, 1], 2, 8, qr_mask()) == seq![1u8, 3, 2],
{
    assert(
        1u8 ^ bits_product(1, 2) == 3u8
            && bits_product(1, 2) == 2u8
    ) by (bit_vector);
    lemma_field_product_in_bits(1, 2);
    let next = generator_step(seq![1u8, 1], 2, 8, qr_mask());
    assert(next =~= seq![1u8, 3, 2]);
}

/// The third factor of the generator polynomial, `x + 4`.
proof fn lemma_generator_factor_3()
    ensures
        generator_step(seq![1u8, 3, 2], 4, 8, qr_mask()) == seq![1u8, 7, 14, 8],
{
    assert(
        3u8 ^ bits_product(1, 4) == 7u8
            && 2u8 ^ bits_product(3, 4) == 14u8
            && bits_product(2, 4) == 8u8
    ) by (bit_vector);
    lemma_field_product_in_bits(1, 4);
    lemma_field_product_in_bits(3, 4);
    lemma_field_product_in_bits(2, 4);
    let next = generator_step(seq![1u8, 3, 2], 4, 8, qr_mask());
    assert(next =~= seq![1u8, 7, 14, 8]);
}

/// The fourth factor of the generator polynomial, `x + 8`.
proof fn lemma_generator_factor_4()
    ensures
        generator_step(seq![1u8, 7, 14, 8], 8, 8, qr_mask()) == seq![1u8, 15, 54, 120, 64],
{
    assert(
        7u8 ^ bits_product(1, 8) == 15u8
            && 14u8 ^ bits_product(7, 8) == 54u8
            && 8u8 ^ bits_product(14, 8) == 120u8
            && bits_product(8, 8) == 64u8
    ) by (bit_vector);
    lemma_field_product_in_bits(1, 8);
    lemma_field_product_in_bits(7, 8);
    lemma_field_product_in_bits(14, 8);
    lemma_field_product_in_bits(8, 8);
    let next = generator_step(seq![1u8, 7, 14, 8], 8, 8, qr_mask());
    assert(next =~= seq![1u8, 15, 54, 120, 64]);
}

/// The fifth factor of the generator polynomial, `x + 16`.
proof fn lemma_generator_factor_5()
    ensures
        generator_step(seq![
            1u8, 15, 54, 120, 64,
        ], 16, 8, qr_mask()) == seq![
            1u8, 31, 198, 63, 147, 116,
        ],
{
    assert(
        15u8 ^ bits_product(1, 16) == 31u8
            && 54u8 ^ bits_product(15, 16) == 198u8
            && 120u8 ^ bits_product(54, 16) == 63u8
            && 64u8 ^ bits_product(120, 16) == 147u8
            && bits_product(64, 16) == 116u8
    ) by (bit_vector);
    lemma_field_product_in_bits(1, 16);
    lemma_field_product_in_bits(15, 16);
    lemma_field_product_in_bits(54, 16);
    lemma_field_product_in_bits(120, 16);
    lemma_field_product_in_bits(64, 16);
    let next = generator_step(seq![1u8, 15, 54, 120, 64], 16, 8, qr_mask());
    assert(next =~= seq![1u8, 31, 198, 63, 147, 116]);
}

/// The sixth factor of the generator polynomial, `x + 32`.
proof fn lemma_generator_factor_6()
    ensures
        generator_step(seq![
            1u8, 31, 198, 63, 147, 116,
        ], 32, 8, qr_mask()) == seq![
            1u8, 63, 1, 218, 32, 227, 38,
        ],
{
    assert(
        31u8 ^ bits_product(1, 32) == 63u8
            && 198u8 ^ bits_product(31, 32) == 1u8
            && 63u8 ^ bits_product(198, 32) == 218u8
            && 147u8 ^ bits_product(63, 32) == 32u8
            && 116u8 ^ bits_product(147, 32) == 227u8
            && bits_product(116, 32) == 38u8
    ) by (bit_vector);
    lemma_field_product_in_bits(1, 32);
    lemma_field_product_in_bits(31, 32);
    lemma_field_product_in_bits(198, 32);
    lemma_field_product_in_bits(63, 32);
    lemma_field_product_in_bits(147, 32);
    lemma_field_product_in_bits(116, 32);
    let next = generator_step(seq![1u8, 31, 198, 63, 147, 116], 32, 8, qr_mask());
    assert(next =~= seq![1u8, 63, 1, 218, 32, 227, 38]);
}

/// The seventh factor of the generator polynomial, `x + 64`.
proof fn lemma_generator_factor_7()
    ensures
        generator_step(seq![
            1u8, 63, 1, 218, 32, 227, 38,
        ], 64, 8, qr_mask()) == seq![
            1u8, 127, 122, 154, 164, 11, 68, 117,
        ],
{
    assert(
        63u8 ^ bits_product(1, 64) == 127u8
            && 1u8 ^ bits_product(63, 64) == 122u8
            && 218u8 ^ bits_product(1, 64) == 154u8
            && 32u8 ^ bits_product(218, 64) == 164u8
            && 227u8 ^ bits_product(32, 64) == 11u8
            && 38u8 ^ bits_product(227, 64) == 68u8
            && bits_product(38, 64) == 117u8
    ) by (bit_vector);
    lemma_field_product_in_bits(1, 64);
    lemma_field_product_in_bits(63, 64);
    lemma_field_product_in_bits(218, 64);
    lemma_field_product_in_bits(32, 64);
    lemma_field_product_in_bits(227, 64);
    lemma_field_product_in_bits(38, 64);
    let next = generator_step(seq![1u8, 63, 1, 218, 32, 227, 38], 64, 8, qr_mask());
    assert(next =~= seq![1u8, 127, 122, 154, 164, 11, 68, 117]);
}

/// The eighth factor of the generator polynomial, `x + 128`.
proof fn lemma_generator_factor_8()
    ensures
        generator_step(seq![
            1u8, 127, 122, 154, 164, 11, 68, 117,
        ], 128, 8, qr_mask()) == seq![
            1u8, 255, 11, 81, 54, 239, 173, 200, 24,
        ],
{
    assert(
        127u8 ^ bits_product(1, 128) == 255u8
            && 122u8 ^ bits_product(127, 128) == 11u8
            && 154u8 ^ bits_product(122, 128) == 81u8
            && 164u8 ^ bits_product(154, 128) == 54u8
            && 11u8 ^ bits_product(164, 128) == 239u8
            && 68u8 ^ bits_product(11, 128) == 173u8
            && 117u8 ^ bits_product(68, 128) == 200u8
            && bits_product(117, 128) == 24u8
    ) by (bit_vector);
    lemma_field_product_in_bits(1, 128);
    lemma_field_product_in_bits(127, 128);
    lemma_field_product_in_bits(122, 128);
    lemma_field_product_in_bits(154, 128);
    lemma_field_product_in_bits(164, 128);
    lemma_field_product_in_bits(11, 128);
    lemma_field_product_in_bits(68, 128);
    lemma_field_product_in_bits(117, 128);
    let next = generator_step(seq![1u8, 127, 122, 154, 164, 11, 68, 117], 128, 8, qr_mask());
    assert(next =~= seq![1u8, 255, 11, 81, 54, 239, 173, 200, 24]);
}

/// The ninth factor of the generator polynomial, `x + 29`.
proof fn lemma_generator_factor_9()
    ensures
        generator_step(seq![
            1u8, 255, 11, 81, 54, 239, 173, 200, 24,
        ], 29, 8, qr_mask()) == seq![
            1u8, 226, 207, 158, 245, 235, 164, 232, 197, 37,
        ],
{
    assert(
        255u8 ^ bits_product(1, 29) == 226u8
            && 11u8 ^ bits_product(255, 29) == 207u8
            && 81u8 ^ bits_product(11, 29) == 158u8
            && 54u8 ^ bits_product(81, 29) == 245u8
            && 239u8 ^ bits_product(54, 29) == 235u8
            && 173u8 ^ bits_product(239, 29) == 164u8
            && 200u8 ^ bits_product(173, 29) == 232u8
            && 24u8 ^ bits_product(200, 29) == 197u8
            && bits_product(24, 29) == 37u8
    ) by (bit_vector);
    lemma_field_product_in_bits(1, 29);
    lemma_field_product_in_bits(255, 29);
    lemma_field_product_in_bits(11, 29);
    lemma_field_product_in_bits(81, 29);
    lemma_field_product_in_bits(54, 29);
    lemma_field_product_in_bits(239, 29);
    lemma_field_product_in_bits(173, 29);
    lemma_field_product_in_bits(200, 29);
    lemma_field_product_in_bits(24, 29);
    let next = generator_step(seq![1u8, 255, 11, 81, 54, 239, 173, 200, 24], 29, 8, qr_mask());
    assert(next =~= seq![1u8, 226, 207, 158, 245, 235, 164, 232, 197, 37]);
}

/// The tenth factor of the generator polynomial, `x + 58`.
proof fn lemma_generator_factor_10()
    ensures
        generator_step(seq![
            1u8, 226, 207, 158, 245, 235, 164, 232, 197, 37,
        ], 58, 8, qr_mask()) == seq![
            1u8, 216, 194, 159, 111, 199, 94, 95, 113, 157, 193,
        ],
{
    assert(
        226u8 ^ bits_product(1, 58) == 216u8
            && 207u8 ^ bits_product(226, 58) == 194u8
            && 158u8 ^ bits_product(207, 58) == 159u8
            && 245u8 ^ bits_product(158, 58) == 111u8
            && 235u8 ^ bits_product(245, 58) == 199u8
            && 164u8 ^ bits_product(235, 58) == 94u8
            && 232u8 ^ bits_product(164, 58) == 95u8
            && 197u8 ^ bits_product(232, 58) == 113u8
            && 37u8 ^ bits_product(197, 58) == 157u8
            && bits_product(37, 58) == 193u8
    ) by (bit_vector);
    lemma_field_product_in_bits(1, 58);
    lemma_field_product_in_bits(226, 58);
    lemma_field_product_in_bits(207, 58);
    lemma_field_product_in_bits(158, 58);
    lemma_field_product_in_bits(245, 58);
    lemma_field_product_in_bits(235, 58);
    lemma_field_product_in_bits(164, 58);
    lemma_field_product_in_bits(232, 58);
    lemma_field_product_in_bits(197, 58);
    lemma_field_product_in_bits(37, 58);
    let next = generator_step(seq![
        1u8, 226, 207, 158, 245, 235, 164, 232, 197, 37,
    ], 58, 8, qr_mask());
    assert(next =~= seq![1u8, 216, 194, 159, 111, 199, 94, 95, 113, 157, 193]);
}

/// The first ten powers of `x`, the roots of the generator polynomial.
proof fn lemma_first_powers()
    ensures
        power_of_x(0, 8, qr_mask()) == 1,
        power_of_x(1, 8, qr_mask()) == 2,
        power_of_x(2, 8, qr_mask()) == 4,
        power_of_x(3, 8, qr_mask()) == 8,
        power_of_x(4, 8, qr_mask()) == 16,
        power_of_x(5, 8, qr_mask()) == 32,
        power_of_x(6, 8, qr_mask()) == 64,
        power_of_x(7, 8, qr_mask()) == 128,
        power_of_x(8, 8, qr_mask()) == 29,
        power_of_x(9, 8, qr_mask()) == 58,
{
    lemma_symbol_powers(0);
    lemma_symbol_powers(1);
    lemma_symbol_powers(2);
    lemma_symbol_powers(3);
    lemma_symbol_powers(4);
    lemma_symbol_powers(5);
    lemma_symbol_powers(6);
    lemma_symbol_powers(7);
    lemma_symbol_powers(8);
    lemma_symbol_powers(9);
}

/// The generator polynomial for no error-correction byte is one.
proof fn lemma_generator_0()
    ensures
        generator_coefficients(0, 8, qr_mask()) == seq![1u8],
{
    assert(generator_coefficients(0, 8, qr_mask()) =~= seq![1u8]);
}

/// The generator polynomial for 1 error-correction byte.
proof fn lemma_generator_1()
    ensures
        generator_coefficients(1, 8, qr_mask()) == seq![1u8, 1],
{
    lemma_generator_0();
    lemma_first_powers();
    lemma_generator_factor_1();
    assert(field_order(8) == 255);
    assert(0int % 255 == 0);
}

/// The generator polynomial for 2 error-correction bytes.
proof fn lemma_generator_2()
    ensures
        generator_coefficients(2, 8, qr_mask()) == seq![1u8, 3, 2],
{
    lemma_generator_1();
    lemma_first_powers();
    lemma_generator_factor_2();
    assert(field_order(8) == 255);
    assert(1int % 255 == 1);
}

/// The generator polynomial for 3 error-correction bytes.
proof fn lemma_generator_3()
    ensures
        generator_coefficients(3, 8, qr_mask()) == seq![1u8, 7, 14, 8],
{
    lemma_generator_2();
    lemma_first_powers();
    lemma_generator_factor_3();
    assert(field_order(8) == 255);
    assert(2int % 255 == 2);
}

/// The generator polynomial for 4 error-correction bytes.
proof fn lemma_generator_4()
    ensures
        generator_coefficients(4, 8, qr_mask()) == seq![1u8, 15, 54, 120, 64],
{
    lemma_generator_3();
    lemma_first_powers();
    lemma_generator_factor_4();
    assert(field_order(8) == 255);
    assert(3int % 255 == 3);
}

/// The generator polynomial for 5 error-correction bytes.
proof fn lemma_generator_5()
    ensures
        generator_coefficients(5, 8, qr_mask()) == seq![1u8, 31, 198, 63, 147, 116],
{
    lemma_generator_4();
    lemma_first_powers();
    lemma_generator_factor_5();
    assert(field_order(8) == 255);
    assert(4int % 255 == 4);
}

/// The generator polynomial for 6 error-correction bytes.
proof fn lemma_generator_6()
    ensures
        generator_coefficients(6, 8, qr_mask()) == seq![1u8, 63, 1, 218, 32, 227, 38],
{
    lemma_generator_5();
    lemma_first_powers();
    lemma_generator_factor_6();
    assert(field_order(8) == 255);
    assert(5int % 255 == 5);
}

/// The generator polynomial for 7 error-correction bytes.
proof fn lemma_generator_7()
    ensures
        generator_coefficients(7, 8, qr_mask()) == seq![1u8, 127, 122, 154, 164, 11, 68, 117],
{
    lemma_generator_6();
    lemma_first_powers();
    lemma_generator_factor_7();
    assert(field_order(8) == 255);
    assert(6int % 255 == 6);
}

/// The generator polynomial for 8 error-correction bytes.
proof fn lemma_generator_8()
    ensures
        generator_coefficients(8, 8, qr_mask()) == seq![1u8, 255, 11, 81, 54, 239, 173, 200, 24],
{
    lemma_generator_7();
    lemma_first_powers();
    lemma_generator_factor_8();
    assert(field_order(8) == 255);
    assert(7int % 255 == 7);
}

/// The generator polynomial for 9 error-correction bytes.
proof fn lemma_generator_9()
    ensures
        generator_coefficients(9, 8, qr_mask()) == seq![
            1u8, 226, 207, 158, 245, 235, 164, 232, 197, 37,
        ],
{
    lemma_generator_8();
    lemma_first_powers();
    lemma_generator_factor_9();
    assert(field_order(8) == 255);
    assert(8int % 255 == 8);
}

/// The generator polynomial for 10 error-correction bytes.
proof fn lemma_generator_10()
    ensures
        generator_coefficients(10, 8, qr_mask()) == seq![
            1u8, 216, 194, 159, 111, 199, 94, 95, 113, 157, 193,
        ],
{
    lemma_generator_9();
    lemma_first_powers();
    lemma_generator_factor_10();
    assert(field_order(8) == 255);
    assert(9int % 255 == 9);
}

/// The generator polynomial for ten error-correction bytes.
pub proof fn lemma_example_generator()
    ensures
        generator_coefficients(10, 8, qr_mask()) == example_generator(),
{
    lemma_generator_10();
}

/// The data of the block, followed by ten zeros.
pub open spec fn example_dividend() -> Seq<u8> {
    example_data() + zero_bytes(10)
}

/// The first step of the division.
proof fn lemma_division_step_1()
    ensures
        division_step(seq![
            16u8, 32, 12, 86, 97, 128, 236, 17, 236, 17, 236, 17, 236, 17, 236, 17, 0, 0, 0, 0, 0,
            0, 0, 0, 0, 0,
        ], example_generator(), 0, 8, qr_mask()) == seq![
            0u8, 33, 176, 83, 223, 108, 101, 136, 175, 52, 96, 17, 236, 17, 236, 17, 0, 0, 0, 0, 0,
            0, 0, 0, 0, 0,
        ],
{
    assert(
        16u8 ^ bits_product(1, 16) == 0u8
            && 32u8 ^ bits_product(216, 16) == 33u8
            && 12u8 ^ bits_product(194, 16) == 176u8
            && 86u8 ^ bits_product(159, 16) == 83u8
            && 97u8 ^ bits_product(111, 16) == 223u8
            && 128u8 ^ bits_product(199, 16) == 108u8
            && 236u8 ^ bits_product(94, 16) == 101u8
            && 17u8 ^ bits_product(95, 16) == 136u8
            && 236u8 ^ bits_product(113, 16) == 175u8
            && 17u8 ^ bits_product(157, 16) == 52u8
            && 236u8 ^ bits_product(193, 16) == 96u8
    ) by (bit_vector);
    lemma_field_product_in_bits(1, 16);
    lemma_field_product_in_bits(216, 16);
    lemma_field_product_in_bits(194, 16);
    lemma_field_product_in_bits(159, 16);
    lemma_field_product_in_bits(111, 16);
    lemma_field_product_in_bits(199, 16);
    lemma_field_product_in_bits(94, 16);
    lemma_field_product_in_bits(95, 16);
    lemma_field_product_in_bits(113, 16);
    lemma_field_product_in_bits(157, 16);
    lemma_field_product_in_bits(193, 16);
    let next = division_step(seq![
        16u8, 32, 12, 86, 97, 128, 236, 17, 236, 17, 236, 17, 236, 17, 236, 17, 0, 0, 0, 0, 0, 0,
        0, 0, 0, 0,
    ], example_generator(), 0, 8, qr_mask());
    assert(next =~= seq![
        0u8, 33, 176, 83, 223, 108, 101, 136, 175, 52, 96, 17, 236, 17, 236, 17, 0, 0, 0, 0, 0, 0,
        0, 0, 0, 0,
    ]);
}

/// The second step of the division.
proof fn lemma_division_step_2()
    ensures
        division_step(seq![
            0u8, 33, 176, 83, 223, 108, 101, 136, 175, 52, 96, 17, 236, 17, 236, 17, 0, 0, 0, 0, 0,
            0, 0, 0, 0, 0,
        ], example_generator(), 1, 8, qr_mask()) == seq![
            0u8, 0, 106, 244, 74, 98, 103, 217, 223, 195, 183, 213, 236, 17, 236, 17, 0, 0, 0, 0,
            0, 0, 0, 0, 0, 0,
        ],
{
    assert(
        33u8 ^ bits_product(1, 33) == 0u8
            && 176u8 ^ bits_product(216, 33) == 106u8
            && 83u8 ^ bits_product(194, 33) == 244u8
            && 223u8 ^ bits_product(159, 33) == 74u8
            && 108u8 ^ bits_product(111, 33) == 98u8
            && 101u8 ^ bits_product(199, 33) == 103u8
            && 136u8 ^ bits_product(94, 33) == 217u8
            && 175u8 ^ bits_product(95, 33) == 223u8
            && 52u8 ^ bits_product(113, 33) == 195u8
            && 96u8 ^ bits_product(157, 33) == 183u8
            && 17u8 ^ bits_product(193, 33) == 213u8
    ) by (bit_vector);
    lemma_field_product_in_bits(1, 33);
    lemma_field_product_in_bits(216, 33);
    lemma_field_product_in_bits(194, 33);
    lemma_field_product_in_bits(159, 33);
    lemma_field_product_in_bits(111, 33);
    lemma_field_product_in_bits(199, 33);
    lemma_field_product_in_bits(94, 33);
    lemma_field_product_in_bits(95, 33);
    lemma_field_product_in_bits(113, 33);
    lemma_field_product_in_bits(157, 33);
    lemma_field_product_in_bits(193, 33);
    let next = division_step(seq![
        0u8, 33, 176, 83, 223, 108, 101, 136, 175, 52, 96, 17, 236, 17, 236, 17, 0, 0, 0, 0, 0, 0,
        0, 0, 0, 0,
    ], example_generator(), 1, 8, qr_mask());
    assert(next =~= seq![
        0u8, 0, 106, 244, 74, 98, 103, 217, 223, 195, 183, 213, 236, 17, 236, 17, 0, 0, 0, 0, 0, 0,
        0, 0, 0, 0,
    ]);
}

/// The third step of the division.
proof fn lemma_division_step_3()
    ensures
        division_step(seq![
            0u8, 0, 106, 244, 74, 98, 103, 217, 223, 195, 183, 213, 236, 17, 236, 17, 0, 0, 0, 0,
            0, 0, 0, 0, 0, 0,
        ], example_generator(), 2, 8, qr_mask()) == seq![
            0u8, 0, 0, 209, 34, 211, 69, 110, 184, 206, 109, 176, 58, 17, 236, 17, 0, 0, 0, 0, 0,
            0, 0, 0, 0, 0,
        ],
{
    assert(
        106u8 ^ bits_product(1, 106) == 0u8
            && 244u8 ^ bits_product(216, 106) == 209u8
            && 74u8 ^ bits_product(194, 106) == 34u8
            && 98u8 ^ bits_product(159, 106) == 211u8
            && 103u8 ^ bits_product(111, 106) == 69u8
            && 217u8 ^ bits_product(199, 106) == 110u8
            && 223u8 ^ bits_product(94, 106) == 184u8
            && 195u8 ^ bits_product(95, 106) == 206u8
            && 183u8 ^ bits_product(113, 106) == 109u8
            && 213u8 ^ bits_product(157, 106) == 176u8
            && 236u8 ^ bits_product(193, 106) == 58u8
    ) by (bit_vector);
    lemma_field_product_in_bits(1, 106);
    lemma_field_product_in_bits(216, 106);
    lemma_field_product_in_bits(194, 106);
    lemma_field_product_in_bits(159, 106);
    lemma_field_product_in_bits(111, 106);
    lemma_field_product_in_bits(199, 106);
    lemma_field_product_in_bits(94, 106);
    lemma_field_product_in_bits(95, 106);
    lemma_field_product_in_bits(113, 106);
    lemma_field_product_in_bits(157, 106);
    lemma_field_product_in_bits(193, 106);
    let next = division_step(seq![
        0u8, 0, 106, 244, 74, 98, 103, 217, 223, 195, 183, 213, 236, 17, 236, 17, 0, 0, 0, 0, 0, 0,
        0, 0, 0, 0,
    ], example_generator(), 2, 8, qr_mask());
    assert(next =~= seq![
        0u8, 0, 0, 209, 34, 211, 69, 110, 184, 206, 109, 176, 58, 17, 236, 17, 0, 0, 0, 0, 0, 0, 0,
        0, 0, 0,
    ]);
}

/// The fourth step of the division.
proof fn lemma_division_step_4()
    ensures
        division_step(seq![
            0u8, 0, 0, 209, 34, 211, 69, 110, 184, 206, 109, 176, 58, 17, 236, 17, 0, 0, 0, 0, 0,
            0, 0, 0, 0, 0,
        ], example_generator(), 3, 8, qr_mask()) == seq![
            0u8, 0, 0, 0, 247, 238, 227, 228, 55, 59, 73, 177, 35, 66, 236, 17, 0, 0, 0, 0, 0, 0,
            0, 0, 0, 0,
        ],
{
    assert(
        209u8 ^ bits_product(1, 209) == 0u8
            && 34u8 ^ bits_product(216, 209) == 247u8
            && 211u8 ^ bits_product(194, 209) == 238u8
            && 69u8 ^ bits_product(159, 209) == 227u8
            && 110u8 ^ bits_product(111, 209) == 228u8
            && 184u8 ^ bits_product(199, 209) == 55u8
            && 206u8 ^ bits_product(94, 209) == 59u8
            && 109u8 ^ bits_product(95, 209) == 73u8
            && 176u8 ^ bits_product(113, 209) == 177u8
            && 58u8 ^ bits_product(157, 209) == 35u8
            && 17u8 ^ bits_product(193, 209) == 66u8
    ) by (bit_vector);
    lemma_field_product_in_bits(1, 209);
    lemma_field_product_in_bits(216, 209);
    lemma_field_product_in_bits(194, 209);
    lemma_field_product_in_bits(159, 209);
    lemma_field_product_in_bits(111, 209);
    lemma_field_product_in_bits(199, 209);
    lemma_field_product_in_bits(94, 209);
    lemma_field_product_in_bits(95, 209);
    lemma_field_product_in_bits(113, 209);
    lemma_field_product_in_bits(157, 209);
    lemma_field_product_in_bits(193, 209);
    let next = division_step(seq![
        0u8, 0, 0, 209, 34, 211, 69, 110, 184, 206, 109, 176, 58, 17, 236, 17, 0, 0, 0, 0, 0, 0, 0,
        0, 0, 0,
    ], example_generator(), 3, 8, qr_mask());
    assert(next =~= seq![
        0u8, 0, 0, 0, 247, 238, 227, 228, 55, 59, 73, 177, 35, 66, 236, 17, 0, 0, 0, 0, 0, 0, 0, 0,
        0, 0,
    ]);
}

/// The fifth step of the division.
proof fn lemma_division_step_5()
    ensures
        division_step(seq![
            0u8, 0, 0, 0, 247, 238, 227, 228, 55, 59, 73, 177, 35, 66, 236, 17, 0, 0, 0, 0, 0, 0,
            0, 0, 0, 0,
        ], example_generator(), 4, 8, qr_mask()) == seq![
            0u8, 0, 0, 0, 0, 211, 13, 45, 163, 217, 106, 101, 159, 120, 6, 17, 0, 0, 0, 0, 0, 0, 0,
            0, 0, 0,
        ],
{
    assert(
        247u8 ^ bits_product(1, 247) == 0u8
            && 238u8 ^ bits_product(216, 247) == 211u8
            && 227u8 ^ bits_product(194, 247) == 13u8
            && 228u8 ^ bits_product(159, 247) == 45u8
            && 55u8 ^ bits_product(111, 247) == 163u8
            && 59u8 ^ bits_product(199, 247) == 217u8
            && 73u8 ^ bits_product(94, 247) == 106u8
            && 177u8 ^ bits_product(95, 247) == 101u8
            && 35u8 ^ bits_product(113, 247) == 159u8
            && 66u8 ^ bits_product(157, 247) == 120u8
            && 236u8 ^ bits_product(193, 247) == 6u8
    ) by (bit_vector);
    lemma_field_product_in_bits(1, 247);
    lemma_field_product_in_bits(216, 247);
    lemma_field_product_in_bits(194, 247);
    lemma_field_product_in_bits(159, 247);
    lemma_field_product_in_bits(111, 247);
    lemma_field_product_in_bits(199, 247);
    lemma_field_product_in_bits(94, 247);
    lemma_field_product_in_bits(95, 247);
    lemma_field_product_in_bits(113, 247);
    lemma_field_product_in_bits(157, 247);
    lemma_field_product_in_bits(193, 247);
    let next = division_step(seq![
        0u8, 0, 0, 0, 247, 238, 227, 228, 55, 59, 73, 177, 35, 66, 236, 17, 0, 0, 0, 0, 0, 0, 0, 0,
        0, 0,
    ], example_generator(), 4, 8, qr_mask());
    assert(next =~= seq![
        0u8, 0, 0, 0, 0, 211, 13, 45, 163, 217, 106, 101, 159, 120, 6, 17, 0, 0, 0, 0, 0, 0, 0, 0,
        0, 0,
    ]);
}

/// The sixth step of the division.
proof fn lemma_division_step_6()
    ensures
        division_step(seq![
            0u8, 0, 0, 0, 0, 211, 13, 45, 163, 217, 106, 101, 159, 120, 6, 17, 0, 0, 0, 0, 0, 0, 0,
            0, 0, 0,
        ], example_generator(), 5, 8, qr_mask()) == seq![
            0u8, 0, 0, 0, 0, 0, 117, 137, 38, 141, 118, 44, 5, 155, 56, 221, 0, 0, 0, 0, 0, 0, 0,
            0, 0, 0,
        ],
{
    assert(
        211u8 ^ bits_product(1, 211) == 0u8
            && 13u8 ^ bits_product(216, 211) == 117u8
            && 45u8 ^ bits_product(194, 211) == 137u8
            && 163u8 ^ bits_product(159, 211) == 38u8
            && 217u8 ^ bits_product(111, 211) == 141u8
            && 106u8 ^ bits_product(199, 211) == 118u8
            && 101u8 ^ bits_product(94, 211) == 44u8
            && 159u8 ^ bits_product(95, 211) == 5u8
            && 120u8 ^ bits_product(113, 211) == 155u8
            && 6u8 ^ bits_product(157, 211) == 56u8
            && 17u8 ^ bits_product(193, 211) == 221u8
    ) by (bit_vector);
    lemma_field_product_in_bits(1, 211);
    lemma_field_product_in_bits(216, 211);
    lemma_field_product_in_bits(194, 211);
    lemma_field_product_in_bits(159, 211);
    lemma_field_product_in_bits(111, 211);
    lemma_field_product_in_bits(199, 211);
    lemma_field_product_in_bits(94, 211);
    lemma_field_product_in_bits(95, 211);
    lemma_field_product_in_bits(113, 211);
    lemma_field_product_in_bits(157, 211);
    lemma_field_product_in_bits(193, 211);
    let next = division_step(seq![
        0u8, 0, 0, 0, 0, 211, 13, 45, 163, 217, 106, 101, 159, 120, 6, 17, 0, 0, 0, 0, 0, 0, 0, 0,
        0, 0,
    ], example_generator(), 5, 8, qr_mask());
    assert(next =~= seq![
        0u8, 0, 0, 0, 0, 0, 117, 137, 38, 141, 118, 44, 5, 155, 56, 221, 0, 0, 0, 0, 0, 0, 0, 0, 0,
        0,
    ]);
}

/// The seventh step of the division.
proof fn lemma_division_step_7()
    ensures
        division_step(seq![
            0u8, 0, 0, 0, 0, 0, 117, 137, 38, 141, 118, 44, 5, 155, 56, 221, 0, 0, 0, 0, 0, 0, 0,
            0, 0, 0,
        ], example_generator(), 6, 8, qr_mask()) == seq![
            0u8, 0, 0, 0, 0, 0, 0, 17, 216, 79, 165, 110, 166, 77, 68, 245, 97, 0, 0, 0, 0, 0, 0,
            0, 0, 0,
        ],
{
    assert(
        117u8 ^ bits_product(1, 117) == 0u8
            && 137u8 ^ bits_product(216, 117) == 17u8
            && 38u8 ^ bits_product(194, 117) == 216u8
            && 141u8 ^ bits_product(159, 117) == 79u8
            && 118u8 ^ bits_product(111, 117) == 165u8
            && 44u8 ^ bits_product(199, 117) == 110u8
            && 5u8 ^ bits_product(94, 117) == 166u8
            && 155u8 ^ bits_product(95, 117) == 77u8
            && 56u8 ^ bits_product(113, 117) == 68u8
            && 221u8 ^ bits_product(157, 117) == 245u8
            && 0u8 ^ bits_product(193, 117) == 97u8
    ) by (bit_vector);
    lemma_field_product_in_bits(1, 117);
    lemma_field_product_in_bits(216, 117);
    lemma_field_product_in_bits(194, 117);
    lemma_field_product_in_bits(159, 117);
    lemma_field_product_in_bits(111, 117);
    lemma_field_product_in_bits(199, 117);
    lemma_field_product_in_bits(94, 117);
    lemma_field_product_in_bits(95, 117);
    lemma_field_product_in_bits(113, 117);
    lemma_field_product_in_bits(157, 117);
    lemma_field_product_in_bits(193, 117);
    let next = division_step(seq![
        0u8, 0, 0, 0, 0, 0, 117, 137, 38, 141, 118, 44, 5, 155, 56, 221, 0, 0, 0, 0, 0, 0, 0, 0, 0,
        0,
    ], example_generator(), 6, 8, qr_mask());
    assert(next =~= seq![
        0u8, 0, 0, 0, 0, 0, 0, 17, 216, 79, 165, 110, 166, 77, 68, 245, 97, 0, 0, 0, 0, 0, 0, 0, 0,
        0,
    ]);
}

/// The eighth step of the division.
proof fn lemma_division_step_8()
    ensures
        division_step(seq![
            0u8, 0, 0, 0, 0, 0, 0, 17, 216, 79, 165, 110, 166, 77, 68, 245, 97, 0, 0, 0, 0, 0, 0,
            0, 0, 0,
        ], example_generator(), 7, 8, qr_mask()) == seq![
            0u8, 0, 0, 0, 0, 0, 0, 0, 1, 49, 63, 191, 141, 154, 130, 199, 217, 77, 0, 0, 0, 0, 0,
            0, 0, 0,
        ],
{
    assert(
        17u8 ^ bits_product(1, 17) == 0u8
            && 216u8 ^ bits_product(216, 17) == 1u8
            && 79u8 ^ bits_product(194, 17) == 49u8
            && 165u8 ^ bits_product(159, 17) == 63u8
            && 110u8 ^ bits_product(111, 17) == 191u8
            && 166u8 ^ bits_product(199, 17) == 141u8
            && 77u8 ^ bits_product(94, 17) == 154u8
            && 68u8 ^ bits_product(95, 17) == 130u8
            && 245u8 ^ bits_product(113, 17) == 199u8
            && 97u8 ^ bits_product(157, 17) == 217u8
            && 0u8 ^ bits_product(193, 17) == 77u8
    ) by (bit_vector);
    lemma_field_product_in_bits(1, 17);
    lemma_field_product_in_bits(216, 17);
    lemma_field_product_in_bits(194, 17);
    lemma_field_product_in_bits(159, 17);
    lemma_field_product_in_bits(111, 17);
    lemma_field_product_in_bits(199, 17);
    lemma_field_product_in_bits(94, 17);
    lemma_field_product_in_bits(95, 17);
    lemma_field_product_in_bits(113, 17);
    lemma_field_product_in_bits(157, 17);
    lemma_field_product_in_bits(193, 17);
    let next = division_step(seq![
        0u8, 0, 0, 0, 0, 0, 0, 17, 216, 79, 165, 110, 166, 77, 68, 245, 97, 0, 0, 0, 0, 0, 0, 0, 0,
        0,
    ], example_generator(), 7, 8, qr_mask());
    assert(next =~= seq![
        0u8, 0, 0, 0, 0, 0, 0, 0, 1, 49, 63, 191, 141, 154, 130, 199, 217, 77, 0, 0, 0, 0, 0, 0, 0,
        0,
    ]);
}

/// The ninth step of the division.
proof fn lemma_division_step_9()
    ensures
        division_step(seq![
            0u8, 0, 0, 0, 0, 0, 0, 0, 1, 49, 63, 191, 141, 154, 130, 199, 217, 77, 0, 0, 0, 0, 0,
            0, 0, 0,
        ], example_generator(), 8, 8, qr_mask()) == seq![
            0u8, 0, 0, 0, 0, 0, 0, 0, 0, 233, 253, 32, 226, 93, 220, 152, 168, 208, 193, 0, 0, 0,
            0, 0, 0, 0,
        ],
{
    assert(
        1u8 ^ bits_product(1, 1) == 0u8
            && 49u8 ^ bits_product(216, 1) == 233u8
            && 63u8 ^ bits_product(194, 1) == 253u8
            && 191u8 ^ bits_product(159, 1) == 32u8
            && 141u8 ^ bits_product(111, 1) == 226u8
            && 154u8 ^ bits_product(199, 1) == 93u8
            && 130u8 ^ bits_product(94, 1) == 220u8
            && 199u8 ^ bits_product(95, 1) == 152u8
            && 217u8 ^ bits_product(113, 1) == 168u8
            && 77u8 ^ bits_product(157, 1) == 208u8
            && 0u8 ^ bits_product(193, 1) == 193u8
    ) by (bit_vector);
    lemma_field_product_in_bits(1, 1);
    lemma_field_product_in_bits(216, 1);
    lemma_field_product_in_bits(194, 1);
    lemma_field_product_in_bits(159, 1);
    lemma_field_product_in_bits(111, 1);
    lemma_field_product_in_bits(199, 1);
    lemma_field_product_in_bits(94, 1);
    lemma_field_product_in_bits(95, 1);
    lemma_field_product_in_bits(113, 1);
    lemma_field_product_in_bits(157, 1);
    lemma_field_product_in_bits(193, 1);
    let next = division_step(seq![
        0u8, 0, 0, 0, 0, 0, 0, 0, 1, 49, 63, 191, 141, 154, 130, 199, 217, 77, 0, 0, 0, 0, 0, 0, 0,
        0,
    ], example_generator(), 8, 8, qr_mask());
    assert(next =~= seq![
        0u8, 0, 0, 0, 0, 0, 0, 0, 0, 233, 253, 32, 226, 93, 220, 152, 168, 208, 193, 0, 0, 0, 0, 0,
        0, 0,
    ]);
}

/// The tenth step of the division.
proof fn lemma_division_step_10()
    ensures
        division_step(seq![
            0u8, 0, 0, 0, 0, 0, 0, 0, 0, 233, 253, 32, 226, 93, 220, 152, 168, 208, 193, 0, 0, 0,
            0, 0, 0, 0,
        ], example_generator(), 9, 8, qr_mask()) == seq![
            0u8, 0, 0, 0, 0, 0, 0, 0, 0, 0, 165, 154, 199, 87, 12, 33, 248, 187, 43, 156, 0, 0, 0,
            0, 0, 0,
        ],
{
    assert(
        233u8 ^ bits_product(1, 233) == 0u8
            && 253u8 ^ bits_product(216, 233) == 165u8
            && 32u8 ^ bits_product(194, 233) == 154u8
            && 226u8 ^ bits_product(159, 233) == 199u8
            && 93u8 ^ bits_product(111, 233) == 87u8
            && 220u8 ^ bits_product(199, 233) == 12u8
            && 152u8 ^ bits_product(94, 233) == 33u8
            && 168u8 ^ bits_product(95, 233) == 248u8
            && 208u8 ^ bits_product(113, 233) == 187u8
            && 193u8 ^ bits_product(157, 233) == 43u8
            && 0u8 ^ bits_product(193, 233) == 156u8
    ) by (bit_vector);
    lemma_field_product_in_bits(1, 233);
    lemma_field_product_in_bits(216, 233);
    lemma_field_product_in_bits(194, 233);
    lemma_field_product_in_bits(159, 233);
    lemma_field_product_in_bits(111, 233);
    lemma_field_product_in_bits(199, 233);
    lemma_field_product_in_bits(94, 233);
    lemma_field_product_in_bits(95, 233);
    lemma_field_product_in_bits(113, 233);
    lemma_field_product_in_bits(157, 233);
    lemma_field_product_in_bits(193, 233);
    let next = division_step(seq![
        0u8, 0, 0, 0, 0, 0, 0, 0, 0, 233, 253, 32, 226, 93, 220, 152, 168, 208, 193, 0, 0, 0, 0, 0,
        0, 0,
    ], example_generator(), 9, 8, qr_mask());
    assert(next =~= seq![
        0u8, 0, 0, 0, 0, 0, 0, 0, 0, 0, 165, 154, 199, 87, 12, 33, 248, 187, 43, 156, 0, 0, 0, 0,
        0, 0,
    ]);
}

/// The eleventh step of the division.
proof fn lemma_division_step_11()
    ensures
        division_step(seq![
            0u8, 0, 0, 0, 0, 0, 0, 0, 0, 0, 165, 154, 199, 87, 12, 33, 248, 187, 43, 156, 0, 0, 0,
            0, 0, 0,
        ], example_generator(), 10, 8, qr_mask()) == seq![
            0u8, 0, 0, 0, 0, 0, 0, 0, 0, 0, 0, 15, 198, 172, 58, 43, 240, 22, 39, 48, 243, 0, 0, 0,
            0, 0,
        ],
{
    assert(
        165u8 ^ bits_product(1, 165) == 0u8
            && 154u8 ^ bits_product(216, 165) == 15u8
            && 199u8 ^ bits_product(194, 165) == 198u8
            && 87u8 ^ bits_product(159, 165) == 172u8
            && 12u8 ^ bits_product(111, 165) == 58u8
            && 33u8 ^ bits_product(199, 165) == 43u8
            && 248u8 ^ bits_product(94, 165) == 240u8
            && 187u8 ^ bits_product(95, 165) == 22u8
            && 43u8 ^ bits_product(113, 165) == 39u8
            && 156u8 ^ bits_product(157, 165) == 48u8
            && 0u8 ^ bits_product(193, 165) == 243u8
    ) by (bit_vector);
    lemma_field_product_in_bits(1, 165);
    lemma_field_product_in_bits(216, 165);
    lemma_field_product_in_bits(194, 165);
    lemma_field_product_in_bits(159, 165);
    lemma_field_product_in_bits(111, 165);
    lemma_field_product_in_bits(199, 165);
    lemma_field_product_in_bits(94, 165);
    lemma_field_product_in_bits(95, 165);
    lemma_field_product_in_bits(113, 165);
    lemma_field_product_in_bits(157, 165);
    lemma_field_product_in_bits(193, 165);
    let next = division_step(seq![
        0u8, 0, 0, 0, 0, 0, 0, 0, 0, 0, 165, 154, 199, 87, 12, 33, 248, 187, 43, 156, 0, 0, 0, 0,
        0, 0,
    ], example_generator(), 10, 8, qr_mask());
    assert(next =~= seq![
        0u8, 0, 0, 0, 0, 0, 0, 0, 0, 0, 0, 15, 198, 172, 58, 43, 240, 22, 39, 48, 243, 0, 0, 0, 0,
        0,
    ]);
}

/// The twelfth step of the division.
proof fn lemma_division_step_12()
    ensures
        division_step(seq![
            0u8, 0, 0, 0, 0, 0, 0, 0, 0, 0, 0, 15, 198, 172, 58, 43, 240, 22, 39, 48, 243, 0, 0, 0,
            0, 0,
        ], example_generator(), 11, 8, qr_mask()) == seq![
            0u8, 0, 0, 0, 0, 0, 0, 0, 0, 0, 0, 0, 122, 134, 76, 100, 233, 91, 101, 213, 155, 59, 0,
            0, 0, 0,
        ],
{
    assert(
        15u8 ^ bits_product(1, 15) == 0u8
            && 198u8 ^ bits_product(216, 15) == 122u8
            && 172u8 ^ bits_product(194, 15) == 134u8
            && 58u8 ^ bits_product(159, 15) == 76u8
            && 43u8 ^ bits_product(111, 15) == 100u8
            && 240u8 ^ bits_product(199, 15) == 233u8
            && 22u8 ^ bits_product(94, 15) == 91u8
            && 39u8 ^ bits_product(95, 15) == 101u8
            && 48u8 ^ bits_product(113, 15) == 213u8
            && 243u8 ^ bits_product(157, 15) == 155u8
            && 0u8 ^ bits_product(193, 15) == 59u8
    ) by (bit_vector);
    lemma_field_product_in_bits(1, 15);
    lemma_field_product_in_bits(216, 15);
    lemma_field_product_in_bits(194, 15);
    lemma_field_product_in_bits(159, 15);
    lemma_field_product_in_bits(111, 15);
    lemma_field_product_in_bits(199, 15);
    lemma_field_product_in_bits(94, 15);
    lemma_field_product_in_bits(95, 15);
    lemma_field_product_in_bits(113, 15);
    lemma_field_product_in_bits(157, 15);
    lemma_field_product_in_bits(193, 15);
    let next = division_step(seq![
        0u8, 0, 0, 0, 0, 0, 0, 0, 0, 0, 0, 15, 198, 172, 58, 43, 240, 22, 39, 48, 243, 0, 0, 0, 0,
        0,
    ], example_generator(), 11, 8, qr_mask());
    assert(next =~= seq![
        0u8, 0, 0, 0, 0, 0, 0, 0, 0, 0, 0, 0, 122, 134, 76, 100, 233, 91, 101, 213, 155, 59, 0, 0,
        0, 0,
    ]);
}

/// The thirteenth step of the division.
proof fn lemma_division_step_13()
    ensures
        division_step(seq![
            0u8, 0, 0, 0, 0, 0, 0, 0, 0, 0, 0, 0, 122, 134, 76, 100, 233, 91, 101, 213, 155, 59, 0,
            0, 0, 0,
        ], example_generator(), 12, 8, qr_mask()) == seq![
            0u8, 0, 0, 0, 0, 0, 0, 0, 0, 0, 0, 0, 0, 162, 152, 208, 117, 0, 139, 65, 2, 123, 90, 0,
            0, 0,
        ],
{
    assert(
        122u8 ^ bits_product(1, 122) == 0u8
            && 134u8 ^ bits_product(216, 122) == 162u8
            && 76u8 ^ bits_product(194, 122) == 152u8
            && 100u8 ^ bits_product(159, 122) == 208u8
            && 233u8 ^ bits_product(111, 122) == 117u8
            && 91u8 ^ bits_product(199, 122) == 0u8
            && 101u8 ^ bits_product(94, 122) == 139u8
            && 213u8 ^ bits_product(95, 122) == 65u8
            && 155u8 ^ bits_product(113, 122) == 2u8
            && 59u8 ^ bits_product(157, 122) == 123u8
            && 0u8 ^ bits_product(193, 122) == 90u8
    ) by (bit_vector);
    lemma_field_product_in_bits(1, 122);
    lemma_field_product_in_bits(216, 122);
    lemma_field_product_in_bits(194, 122);
    lemma_field_product_in_bits(159, 122);
    lemma_field_product_in_bits(111, 122);
    lemma_field_product_in_bits(199, 122);
    lemma_field_product_in_bits(94, 122);
    lemma_field_product_in_bits(95, 122);
    lemma_field_product_in_bits(113, 122);
    lemma_field_product_in_bits(157, 122);
    lemma_field_product_in_bits(193, 122);
    let next = division_step(seq![
        0u8, 0, 0, 0, 0, 0, 0, 0, 0, 0, 0, 0, 122, 134, 76, 100, 233, 91, 101, 213, 155, 59, 0, 0,
        0, 0,
    ], example_generator(), 12, 8, qr_mask());
    assert(next =~= seq![
        0u8, 0, 0, 0, 0, 0, 0, 0, 0, 0, 0, 0, 0, 162, 152, 208, 117, 0, 139, 65, 2, 123, 90, 0, 0,
        0,
    ]);
}

/// The fourteenth step of the division.
proof fn lemma_division_step_14()
    ensures
        division_step(seq![
            0u8, 0, 0, 0, 0, 0, 0, 0, 0, 0, 0, 0, 0, 162, 152, 208, 117, 0, 139, 65, 2, 123, 90, 0,
            0, 0,
        ], example_generator(), 13, 8, qr_mask()) == seq![
            0u8, 0, 0, 0, 0, 0, 0, 0, 0, 0, 0, 0, 0, 0, 63, 165, 116, 38, 238, 206, 47, 61, 2, 142,
            0, 0,
        ],
{
    assert(
        162u8 ^ bits_product(1, 162) == 0u8
            && 152u8 ^ bits_product(216, 162) == 63u8
            && 208u8 ^ bits_product(194, 162) == 165u8
            && 117u8 ^ bits_product(159, 162) == 116u8
            && 0u8 ^ bits_product(111, 162) == 38u8
            && 139u8 ^ bits_product(199, 162) == 238u8
            && 65u8 ^ bits_product(94, 162) == 206u8
            && 2u8 ^ bits_product(95, 162) == 47u8
            && 123u8 ^ bits_product(113, 162) == 61u8
            && 90u8 ^ bits_product(157, 162) == 2u8
            && 0u8 ^ bits_product(193, 162) == 142u8
    ) by (bit_vector);
    lemma_field_product_in_bits(1, 162);
    lemma_field_product_in_bits(216, 162);
    lemma_field_product_in_bits(194, 162);
    lemma_field_product_in_bits(159, 162);
    lemma_field_product_in_bits(111, 162);
    lemma_field_product_in_bits(199, 162);
    lemma_field_product_in_bits(94, 162);
    lemma_field_product_in_bits(95, 162);
    lemma_field_product_in_bits(113, 162);
    lemma_field_product_in_bits(157, 162);
    lemma_field_product_in_bits(193, 162);
    let next = division_step(seq![
        0u8, 0, 0, 0, 0, 0, 0, 0, 0, 0, 0, 0, 0, 162, 152, 208, 117, 0, 139, 65, 2, 123, 90, 0, 0,
        0,
    ], example_generator(), 13, 8, qr_mask());
    assert(next =~= seq![
        0u8, 0, 0, 0, 0, 0, 0, 0, 0, 0, 0, 0, 0, 0, 63, 165, 116, 38, 238, 206, 47, 61, 2, 142, 0,
        0,
    ]);
}

/// The fifteenth step of the division.
proof fn lemma_division_step_15()
    ensures
        division_step(seq![
            0u8, 0, 0, 0, 0, 0, 0, 0, 0, 0, 0, 0, 0, 0, 63, 165, 116, 38, 238, 206, 47, 61, 2, 142,
            0, 0,
        ], example_generator(), 14, 8, qr_mask()) == seq![
            0u8, 0, 0, 0, 0, 0, 0, 0, 0, 0, 0, 0, 0, 0, 0, 26, 135, 95, 126, 254, 228, 201, 34,
            137, 178, 0,
        ],
{
    assert(
        63u8 ^ bits_product(1, 63) == 0u8
            && 165u8 ^ bits_product(216, 63) == 26u8
            && 116u8 ^ bits_product(194, 63) == 135u8
            && 38u8 ^ bits_product(159, 63) == 95u8
            && 238u8 ^ bits_product(111, 63) == 126u8
            && 206u8 ^ bits_product(199, 63) == 254u8
            && 47u8 ^ bits_product(94, 63) == 228u8
            && 61u8 ^ bits_product(95, 63) == 201u8
            && 2u8 ^ bits_product(113, 63) == 34u8
            && 142u8 ^ bits_product(157, 63) == 137u8
            && 0u8 ^ bits_product(193, 63) == 178u8
    ) by (bit_vector);
    lemma_field_product_in_bits(1, 63);
    lemma_field_product_in_bits(216, 63);
    lemma_field_product_in_bits(194, 63);
    lemma_field_product_in_bits(159, 63);
    lemma_field_product_in_bits(111, 63);
    lemma_field_product_in_bits(199, 63);
    lemma_field_product_in_bits(94, 63);
    lemma_field_product_in_bits(95, 63);
    lemma_field_product_in_bits(113, 63);
    lemma_field_product_in_bits(157, 63);
    lemma_field_product_in_bits(193, 63);
    let next = division_step(seq![
        0u8, 0, 0, 0, 0, 0, 0, 0, 0, 0, 0, 0, 0, 0, 63, 165, 116, 38, 238, 206, 47, 61, 2, 142, 0,
        0,
    ], example_generator(), 14, 8, qr_mask());
    assert(next =~= seq![
        0u8, 0, 0, 0, 0, 0, 0, 0, 0, 0, 0, 0, 0, 0, 0, 26, 135, 95, 126, 254, 228, 201, 34, 137,
        178, 0,
    ]);
}

/// The sixteenth step of the division.
proof fn lemma_division_step_16()
    ensures
        division_step(seq![
            0u8, 0, 0, 0, 0, 0, 0, 0, 0, 0, 0, 0, 0, 0, 0, 26, 135, 95, 126, 254, 228, 201, 34,
            137, 178, 0,
        ], example_generator(), 15, 8, qr_mask()) == seq![
            0u8, 0, 0, 0, 0, 0, 0, 0, 0, 0, 0, 0, 0, 0, 0, 0, 165, 36, 212, 193, 237, 54, 199, 135,
            44, 85,
        ],
{
    assert(
        26u8 ^ bits_product(1, 26) == 0u8
            && 135u8 ^ bits_product(216, 26) == 165u8
            && 95u8 ^ bits_product(194, 26) == 36u8
            && 126u8 ^ bits_product(159, 26) == 212u8
            && 254u8 ^ bits_product(111, 26) == 193u8
            && 228u8 ^ bits_product(199, 26) == 237u8
            && 201u8 ^ bits_product(94, 26) == 54u8
            && 34u8 ^ bits_product(95, 26) == 199u8
            && 137u8 ^ bits_product(113, 26) == 135u8
            && 178u8 ^ bits_product(157, 26) == 44u8
            && 0u8 ^ bits_product(193, 26) == 85u8
    ) by (bit_vector);
    lemma_field_product_in_bits(1, 26);
    lemma_field_product_in_bits(216, 26);
    lemma_field_product_in_bits(194, 26);
    lemma_field_product_in_bits(159, 26);
    lemma_field_product_in_bits(111, 26);
    lemma_field_product_in_bits(199, 26);
    lemma_field_product_in_bits(94, 26);
    lemma_field_product_in_bits(95, 26);
    lemma_field_product_in_bits(113, 26);
    lemma_field_product_in_bits(157, 26);
    lemma_field_product_in_bits(193, 26);
    let next = division_step(seq![
        0u8, 0, 0, 0, 0, 0, 0, 0, 0, 0, 0, 0, 0, 0, 0, 26, 135, 95, 126, 254, 228, 201, 34, 137,
        178, 0,
    ], example_generator(), 15, 8, qr_mask());
    assert(next =~= seq![
        0u8, 0, 0, 0, 0, 0, 0, 0, 0, 0, 0, 0, 0, 0, 0, 0, 165, 36, 212, 193, 237, 54, 199, 135, 44,
        85,
    ]);
}

/// Before the first step the dividend is as it was.
proof fn lemma_divided_0()
    ensures
        divided(example_dividend(), example_generator(), 0, 8, qr_mask()) == seq![
            16u8, 32, 12, 86, 97, 128, 236, 17, 236, 17, 236, 17, 236, 17, 236, 17, 0, 0, 0, 0, 0,
            0, 0, 0, 0, 0,
        ],
{
    assert(example_dividend() =~= seq![
        16u8, 32, 12, 86, 97, 128, 236, 17, 236, 17, 236, 17, 236, 17, 236, 17, 0, 0, 0, 0, 0, 0,
        0, 0, 0, 0,
    ]);
}

/// The dividend after 1 step of the division.
proof fn lemma_divided_1()
    ensures
        divided(example_dividend(), example_generator(), 1, 8, qr_mask()) == seq![
            0u8, 33, 176, 83, 223, 108, 101, 136, 175, 52, 96, 17, 236, 17, 236, 17, 0, 0, 0, 0, 0,
            0, 0, 0, 0, 0,
        ],
{
    lemma_divided_0();
    lemma_division_step_1();
}

/// The dividend after 2 steps of the division.
proof fn lemma_divided_2()
    ensures
        divided(example_dividend(), example_generator(), 2, 8, qr_mask()) == seq![
            0u8, 0, 106, 244, 74, 98, 103, 217, 223, 195, 183, 213, 236, 17, 236, 17, 0, 0, 0, 0,
            0, 0, 0, 0, 0, 0,
        ],
{
    lemma_divided_1();
    lemma_division_step_2();
}

/// The dividend after 3 steps of the division.
proof fn lemma_divided_3()
    ensures
        divided(example_dividend(), example_generator(), 3, 8, qr_mask()) == seq![
            0u8, 0, 0, 209, 34, 211, 69, 110, 184, 206, 109, 176, 58, 17, 236, 17, 0, 0, 0, 0, 0,
            0, 0, 0, 0, 0,
        ],
{
    lemma_divided_2();
    lemma_division_step_3();
}

/// The dividend after 4 steps of the division.
proof fn lemma_divided_4()
    ensures
        divided(example_dividend(), example_generator(), 4, 8, qr_mask()) == seq![
            0u8, 0, 0, 0, 247, 238, 227, 228, 55, 59, 73, 177, 35, 66, 236, 17, 0, 0, 0, 0, 0, 0,
            0, 0, 0, 0,
        ],
{
    lemma_divided_3();
    lemma_division_step_4();
}

/// The dividend after 5 steps of the division.
proof fn lemma_divided_5()
    ensures
        divided(example_dividend(), example_generator(), 5, 8, qr_mask()) == seq![
            0u8, 0, 0, 0, 0, 211, 13, 45, 163, 217, 106, 101, 159, 120, 6, 17, 0, 0, 0, 0, 0, 0, 0,
            0, 0, 0,
        ],
{
    lemma_divided_4();
    lemma_division_step_5();
}

/// The dividend after 6 steps of the division.
proof fn lemma_divided_6()
    ensures
        divided(example_dividend(), example_generator(), 6, 8, qr_mask()) == seq![
            0u8, 0, 0, 0, 0, 0, 117, 137, 38, 141, 118, 44, 5, 155, 56, 221, 0, 0, 0, 0, 0, 0, 0,
            0, 0, 0,
        ],
{
    lemma_divided_5();
    lemma_division_step_6();
}

/// The dividend after 7 steps of the division.
proof fn lemma_divided_7()
    ensures
        divided(example_dividend(), example_generator(), 7, 8, qr_mask()) == seq![
            0u8, 0, 0, 0, 0, 0, 0, 17, 216, 79, 165, 110, 166, 77, 68, 245, 97, 0, 0, 0, 0, 0, 0,
            0, 0, 0,
        ],
{
    lemma_divided_6();
    lemma_division_step_7();
}

/// The dividend after 8 steps of the division.
proof fn lemma_divided_8()
    ensures
        divided(example_dividend(), example_generator(), 8, 8, qr_mask()) == seq![
            0u8, 0, 0, 0, 0, 0, 0, 0, 1, 49, 63, 191, 141, 154, 130, 199, 217, 77, 0, 0, 0, 0, 0,
            0, 0, 0,
        ],
{
    lemma_divided_7();
    lemma_division_step_8();
}

/// The dividend after 9 steps of the division.
proof fn lemma_divided_9()
    ensures
        divided(example_dividend(), example_generator(), 9, 8, qr_mask()) == seq![
            0u8, 0, 0, 0, 0, 0, 0, 0, 0, 233, 253, 32, 226, 93, 220, 152, 168, 208, 193, 0, 0, 0,
            0, 0, 0, 0,
        ],
{
    lemma_divided_8();
    lemma_division_step_9();
}

/// The dividend after 10 steps of the division.
proof fn lemma_divided_10()
    ensures
        divided(example_dividend(), example_generator(), 10, 8, qr_mask()) == seq![
            0u8, 0, 0, 0, 0, 0, 0, 0, 0, 0, 165, 154, 199, 87, 12, 33, 248, 187, 43, 156, 0, 0, 0,
            0, 0, 0,
        ],
{
    lemma_divided_9();
    lemma_division_step_10();
}

/// The dividend after 11 steps of the division.
proof fn lemma_divided_11()
    ensures
        divided(example_dividend(), example_generator(), 11, 8, qr_mask()) == seq![
            0u8, 0, 0, 0, 0, 0, 0, 0, 0, 0, 0, 15, 198, 172, 58, 43, 240, 22, 39, 48, 243, 0, 0, 0,
            0, 0,
        ],
{
    lemma_divided_10();
    lemma_division_step_11();
}

/// The dividend after 12 steps of the division.
proof fn lemma_divided_12()
    ensures
        divided(example_dividend(), example_generator(), 12, 8, qr_mask()) == seq![
            0u8, 0, 0, 0, 0, 0, 0, 0, 0, 0, 0, 0, 122, 134, 76, 100, 233, 91, 101, 213, 155, 59, 0,
            0, 0, 0,
        ],
{
    lemma_divided_11();
    lemma_division_step_12();
}

/// The dividend after 13 steps of the division.
proof fn lemma_divided_13()
    ensures
        divided(example_dividend(), example_generator(), 13, 8, qr_mask()) == seq![
            0u8, 0, 0, 0, 0, 0, 0, 0, 0, 0, 0, 0, 0, 162, 152, 208, 117, 0, 139, 65, 2, 123, 90, 0,
            0, 0,
        ],
{
    lemma_divided_12();
    lemma_division_step_13();
}

/// The dividend after 14 steps of the division.
proof fn lemma_divided_14()
    ensures
        divided(example_dividend(), example_generator(), 14, 8, qr_mask()) == seq![
            0u8, 0, 0, 0, 0, 0, 0, 0, 0, 0, 0, 0, 0, 0, 63, 165, 116, 38, 238, 206, 47, 61, 2, 142,
            0, 0,
        ],
{
    lemma_divided_13();
    lemma_division_step_14();
}

/// The dividend after 15 steps of the division.
proof fn lemma_divided_15()
    ensures
        divided(example_dividend(), example_generator(), 15, 8, qr_mask()) == seq![
            0u8, 0, 0, 0, 0, 0, 0, 0, 0, 0, 0, 0, 0, 0, 0, 26, 135, 95, 126, 254, 228, 201, 34,
            137, 178, 0,
        ],
{
    lemma_divided_14();
    lemma_division_step_15();
}

/// The dividend after 16 steps of the division.
proof fn lemma_divided_16()
    ensures
        divided(example_dividend(), example_generator(), 16, 8, qr_mask()) == seq![
            0u8, 0, 0, 0, 0, 0, 0, 0, 0, 0, 0, 0, 0, 0, 0, 0, 165, 36, 212, 193, 237, 54, 199, 135,
            44, 85,
        ],
{
    lemma_divided_15();
    lemma_division_step_16();
}

/// The division of the data, followed by ten zeros, by the generator
/// polynomial leaves the error-correction bytes: 165, 36, 212, 193, 237, 54,
/// 199, 135, 44, 85.
pub proof fn lemma_example_correction()
    ensures
        error_correction_bytes(example_dividend(), example_generator(), 8, qr_mask())
            == example_correction(),
        block_error_correction(example_data(), 10, 8, qr_mask()) == example_correction(),
{
    lemma_example_generator();
    lemma_divided_16();
    assert(example_dividend().len() == 26);
    assert(seq![
        0u8, 0, 0, 0, 0, 0, 0, 0, 0, 0, 0, 0, 0, 0, 0, 0, 165, 36, 212, 193, 237, 54, 199, 135, 44,
        85,
    ].subrange(16, 26) =~= example_correction());
}

} // verus!
