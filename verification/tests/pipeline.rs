use qrcode::error::QrError;
use qrcode::input::ErrorLevel;
use qrcode::input::Settings;
use qrcode::standard_qr_code::masking::Feature;
use qrcode::standard_qr_code::qr_code;
use qrcode::standard_qr_code::qr_struct::ErrorBlockInfo;
use qrcode::standard_qr_code::qr_struct::Module;
use qrcode::standard_qr_code::qr_struct::QRData;
use qrcode::standard_qr_code::qr_struct::SymbolRole;
use qrcode::standard_qr_code::qr_struct::SymbolStatus;
use qrcode::standard_qr_code::version_constants::information_sequences;

fn settings(text: &str, level: ErrorLevel) -> Settings {
    Settings { information: String::from(text), error_level: level, debugging: false }
}

fn structure(text: &str, level: ErrorLevel) -> QRData {
    let mut data = QRData::new(settings(text, level)).unwrap();
    data.quiet_zone();
    data.finders();
    data.timing_pattern();
    data.separators();
    data.reserve_format_information();
    data.draw_alignment_pattern();
    data.reserve_version_information();
    data
}

fn count_role(data: &QRData, role: SymbolRole) -> usize {
    data.modules.iter().flatten().filter(|module| module.role == role).count()
}

/// The places of the symbol in the order of the placement.
fn zigzag(width: usize) -> Vec<(usize, usize)> {
    let mut places = vec![];
    let mut x = width - 5;
    let mut up = true;
    loop {
        if x == 10 {
            x -= 1;
        }
        for step in 0..(width - 8) {
            let y = if up { width - 5 - step } else { 4 + step };
            places.push((x, y));
            places.push((x - 1, y));
        }
        up = !up;
        if x < 6 {
            break;
        }
        x -= 2;
    }
    places
}

/// The codewords that the modules of the data carry.
fn read_codewords(data: &QRData, mask: Option<u8>) -> Vec<u8> {
    let mut bits: Vec<bool> = vec![];
    for (x, y) in zigzag(data.get_width()) {
        let module = data.module_at(x, y);
        if module.role == SymbolRole::EncodingRegion {
            let (row, column) = (y - 4, x - 4);
            let inverted = match mask {
                None => false,
                Some(0) => (row + column) % 2 == 0,
                Some(1) => row % 2 == 0,
                Some(2) => column % 3 == 0,
                Some(3) => (row + column) % 3 == 0,
                Some(4) => (row / 2 + column / 3) % 2 == 0,
                Some(5) => (row * column) % 2 + (row * column) % 3 == 0,
                Some(6) => ((row * column) % 2 + (row * column) % 3) % 2 == 0,
                _ => ((row + column) % 2 + (row * column) % 3) % 2 == 0,
            };
            bits.push((module.status == SymbolStatus::LogicalTrue) != inverted);
        }
    }
    bits.chunks(8)
        .filter(|chunk| chunk.len() == 8)
        .map(|chunk| chunk.iter().fold(0u8, |byte, bit| byte * 2 + *bit as u8))
        .collect()
}

/// The mask that the format information of a finished symbol names.
fn read_format(data: &QRData) -> (u8, u16) {
    let mut bits: u16 = 0;
    for x in [4usize, 5, 6, 7, 8, 9, 11, 12] {
        bits = bits * 2 + (data.module_at(x, 12).status == SymbolStatus::LogicalTrue) as u16;
    }
    for y in [12usize, 11, 9, 8, 7, 6, 5, 4] {
        if y != 12 {
            bits = bits * 2 + (data.module_at(12, y).status == SymbolStatus::LogicalTrue) as u16;
        }
    }
    let value = (0..32u8).find(|value| information_sequences(*value) == bits).unwrap();
    (value, bits)
}

#[test]
fn hello_at_level_l() {
    let data = QRData::new(settings("HELLO", ErrorLevel::L)).unwrap();
    assert_eq!(data.get_version(), 1);
    assert_eq!(data.get_error_info(), &vec![ErrorBlockInfo::new(1, 26, 19)]);
    let sizes = data.generate_error_blocks().unwrap();
    assert_eq!(sizes, vec![(19, 7)]);
    assert_eq!(data.raw_bytes(), vec![5, b'H', b'E', b'L', b'L', b'O']);
    let vectors = data.write_data_into_vectors(&sizes).unwrap();
    assert_eq!(vectors.len(), 1);
    // 0100, 0000 0101, then the five bytes, then 0000, then pad bytes
    assert_eq!(
        vectors[0].get_data(),
        vec![
            0x40, 0x54, 0x84, 0x54, 0xc4, 0xc4, 0xf0, 0xec, 0x11, 0xec, 0x11, 0xec, 0x11, 0xec, 0x11, 0xec,
            0x11, 0xec, 0x11
        ]
    );
    let symbol = qr_code(settings("HELLO", ErrorLevel::L)).unwrap();
    assert_eq!(symbol.get_version(), 1);
    assert_eq!(symbol.get_width(), 29);
    let colours = symbol._get_data();
    assert_eq!(colours.len(), 29);
    assert!(colours.iter().all(|column| column.len() == 29));
    assert!(colours.iter().flatten().all(|colour| *colour != SymbolStatus::Uninitialised));
    assert_eq!(count_role(&symbol, SymbolRole::Uninitialised), 0);
    // one module for each bit of the 26 codewords, and none over
    assert_eq!(count_role(&symbol, SymbolRole::EncodingRegion), 208);
    assert_eq!(count_role(&structure("HELLO", ErrorLevel::L), SymbolRole::Uninitialised), 8 * 26);
    // the same input gives the same symbol
    assert_eq!(qr_code(settings("HELLO", ErrorLevel::L)).unwrap().modules, symbol.modules);
    let (value, _) = read_format(&symbol);
    assert_eq!(value >> 3, 0b01);
    let codewords = read_codewords(&symbol, Some(value & 7));
    assert_eq!(
        codewords[..19],
        [
            0x40, 0x54, 0x84, 0x54, 0xc4, 0xc4, 0xf0, 0xec, 0x11, 0xec, 0x11, 0xec, 0x11, 0xec, 0x11, 0xec,
            0x11, 0xec, 0x11
        ]
    );
    assert_eq!(codewords.len(), 26);
}

#[test]
fn message_with_two_count_bytes() {
    let text = "z".repeat(300);
    let data = QRData::new(settings(&text, ErrorLevel::L)).unwrap();
    assert_eq!(data.get_version(), 11);
    let raw = data.raw_bytes();
    assert_eq!(raw.len(), 302);
    assert_eq!(raw[..3], [1, 44, b'z']);
    let sizes = data.generate_error_blocks().unwrap();
    assert_eq!(sizes, vec![(81, 20), (81, 20), (81, 20), (81, 20)]);
    let vectors = data.write_data_into_vectors(&sizes).unwrap();
    assert_eq!(vectors[0].get_data()[..4], [0x40, 0x12, 0xc7, 0xa7]);
    // the stream runs on over the blocks: 303 bytes of it, then pad bytes
    assert_eq!(vectors[1].get_data(), vec![0xa7; 81]);
    assert_eq!(vectors[3].get_data()[57..62], [0xa7, 0xa7, 0xa0, 0xec, 0x11]);
    assert_eq!(vectors[3].get_data().len(), 81);
    assert_eq!(*vectors[3].get_data().last().unwrap(), 0xec);
}

#[test]
fn blocks_behind_the_stream_begin_with_the_first_pad_byte() {
    let data = QRData::new(settings("ab", ErrorLevel::L)).unwrap();
    let vectors = data.write_data_into_vectors(&vec![(3, 2), (3, 2), (4, 2), (2, 2)]).unwrap();
    let bytes: Vec<Vec<u8>> = vectors.iter().map(|vector| vector.get_data()).collect();
    assert_eq!(
        bytes,
        vec![vec![0x40, 0x26, 0x16], vec![0x20, 0xec, 0x11], vec![0xec, 0x11, 0xec, 0x11], vec![0xec, 0x11]]
    );
}

#[test]
fn stream_that_does_not_fit_is_refused() {
    let data = QRData::new(settings("abc", ErrorLevel::L)).unwrap();
    assert!(data.write_data_into_vectors(&vec![(5, 2)]).is_ok());
    assert_eq!(data.write_data_into_vectors(&vec![(4, 2)]).err(), Some(QrError::CapacityExceeded));
    assert_eq!(data.write_data_into_vectors(&vec![(2, 2), (2, 0)]).err(), Some(QrError::CapacityExceeded));
    assert_eq!(data.write_data_into_vectors(&vec![]).err(), Some(QrError::CapacityExceeded));
    assert_eq!(
        data.write_data_into_vectors(&vec![(255, 0); 258]).err(),
        Some(QrError::MalformedBlockLayout)
    );
}

#[test]
fn groups_of_blocks() {
    let mut data = QRData::new(settings("", ErrorLevel::L)).unwrap();
    data.error_blocks = vec![ErrorBlockInfo::new(2, 33, 15), ErrorBlockInfo::new(2, 34, 16)];
    assert_eq!(data.generate_error_blocks(), Ok(vec![(15, 18), (15, 18), (16, 18), (16, 18)]));
    data.error_blocks = vec![];
    assert_eq!(data.generate_error_blocks(), Err(QrError::MalformedBlockLayout));
    data.error_blocks = vec![ErrorBlockInfo::new(1, 2, 1); 3];
    assert_eq!(data.generate_error_blocks(), Err(QrError::MalformedBlockLayout));
    assert_eq!(data.read_and_write(), Err(QrError::MalformedBlockLayout));
    data.error_blocks = vec![ErrorBlockInfo::new(0, 2, 1)];
    assert_eq!(data.generate_error_blocks(), Ok(vec![]));
    assert_eq!(data.read_and_write(), Err(QrError::CapacityExceeded));
}

#[test]
fn error_correction_of_blocks() {
    let data: Vec<Vec<u8>> = vec![
        vec![16, 32, 12, 86, 97, 128, 236, 17, 236, 17, 236, 17, 236, 17, 236, 17],
        vec![],
        vec![0, 0, 0],
    ];
    let blocks = QRData::generate_error_corrction(&vec![(16, 10), (0, 3), (3, 2)], &data);
    assert_eq!(
        blocks,
        vec![vec![165, 36, 212, 193, 237, 54, 199, 135, 44, 85], vec![0, 0, 0], vec![0, 0]]
    );
    // the data of version 1 at level M for "01234567" in the standard's own example
    let data: Vec<Vec<u8>> =
        vec![vec![0x10, 0x20, 0x0c, 0x56, 0x61, 0x80, 0xec, 0x11, 0xec, 0x11, 0xec, 0x11, 0xec, 0x11, 0xec, 0x11]];
    let blocks = QRData::generate_error_corrction(&vec![(16, 10)], &data);
    assert_eq!(blocks, vec![vec![0xa5, 0x24, 0xd4, 0xc1, 0xed, 0x36, 0xc7, 0x87, 0x2c, 0x55]]);
}

#[test]
fn interleaving() {
    let data: Vec<Vec<u8>> = vec![vec![1, 2, 3], vec![11, 12, 13], vec![21, 22, 23, 24], vec![31, 32, 33, 34]];
    let correction: Vec<Vec<u8>> = vec![vec![101, 102], vec![111, 112], vec![121, 122], vec![131, 132]];
    assert_eq!(
        QRData::shuffle_bit_vectors(&data, &correction),
        vec![
            1, 11, 21, 31, 2, 12, 22, 32, 3, 13, 23, 33, 24, 34, 101, 111, 121, 131, 102, 112, 122, 132
        ]
    );
    assert_eq!(QRData::shuffle_bit_vectors(&vec![vec![7, 8, 9]], &vec![vec![1, 2]]), vec![7, 8, 9, 1, 2]);
    assert_eq!(QRData::shuffle_bit_vectors(&vec![], &vec![]), Vec::<u8>::new());
}

#[test]
fn placement_visits_every_free_module_once() {
    for (text, level) in [("", ErrorLevel::L), ("some text that needs version three", ErrorLevel::M)] {
        let mut data = structure(text, level);
        let width = data.get_width();
        let free = count_role(&data, SymbolRole::Uninitialised);
        let places = zigzag(width);
        // every place of the symbol but those of column 10, each once
        assert_eq!(places.len(), (width - 8) * (width - 9));
        let mut seen = vec![vec![false; width]; width];
        for (x, y) in places.iter() {
            assert!(4 <= *x && *x < width - 4 && 4 <= *y && *y < width - 4 && *x != 10);
            assert!(!seen[*x][*y]);
            seen[*x][*y] = true;
        }
        let before = data.modules.clone();
        let codewords: Vec<u8> = (0..(free / 8)).map(|index| (index * 37 + 11) as u8).collect();
        data.write_into_self(&codewords);
        assert_eq!(count_role(&data, SymbolRole::Uninitialised), 0);
        assert_eq!(count_role(&data, SymbolRole::EncodingRegion), free);
        for x in 0..width {
            for y in 0..width {
                if before[x][y].role != SymbolRole::Uninitialised {
                    assert_eq!(data.module_at(x, y), before[x][y]);
                }
            }
        }
        assert_eq!(read_codewords(&data, None), codewords);
    }
}

#[test]
fn placement_begins_in_the_lower_right_corner() {
    let mut data = structure("", ErrorLevel::L);
    data.write_into_self(&vec![0b1011_0001, 0xff]);
    let dark = SymbolStatus::LogicalTrue;
    let light = SymbolStatus::LogicalFalse;
    let wanted = [
        ((24, 24), dark),
        ((23, 24), light),
        ((24, 23), dark),
        ((23, 23), dark),
        ((24, 22), light),
        ((23, 22), light),
        ((24, 21), light),
        ((23, 21), dark),
        ((24, 20), dark),
    ];
    for ((x, y), status) in wanted {
        assert_eq!(data.module_at(x, y), Module { status, role: SymbolRole::EncodingRegion });
    }
    assert_eq!(data.module_at(23, 17), Module { status: dark, role: SymbolRole::EncodingRegion });
    // behind the last codeword the modules are light
    assert_eq!(data.module_at(24, 16), Module { status: light, role: SymbolRole::EncodingRegion });
    assert_eq!(data.module_at(22, 13), Module { status: light, role: SymbolRole::EncodingRegion });
    assert_eq!(data.module_at(4, 13), Module { status: light, role: SymbolRole::EncodingRegion });
}

#[test]
fn masks() {
    let mut data = structure("", ErrorLevel::L);
    data.write_into_self(&vec![]);
    let width = data.get_width();
    for mask in 0..8u8 {
        let masked = data.apply_mask(mask);
        assert_eq!(masked.get_version(), data.get_version());
        for x in 0..width {
            for y in 0..width {
                let before = data.module_at(x, y);
                let after = masked.module_at(x, y);
                assert_eq!(after.role, before.role);
                if before.role != SymbolRole::EncodingRegion {
                    assert_eq!(after, before);
                }
            }
        }
        // the codewords under the mask of a symbol that was all light are the mask itself
        let twice = masked.apply_mask(mask);
        assert_eq!(twice.modules, data.modules);
        assert!(read_codewords(&masked, Some(mask)).iter().all(|byte| *byte == 0));
    }
    // mask 1 inverts the even rows, mask 2 every third column
    let masked = data.apply_mask(1);
    assert_eq!(masked.module_at(24, 24).status, SymbolStatus::LogicalTrue);
    assert_eq!(masked.module_at(24, 23).status, SymbolStatus::LogicalFalse);
    assert_eq!(masked.module_at(23, 24).status, SymbolStatus::LogicalTrue);
    let masked = data.apply_mask(2);
    assert_eq!(masked.module_at(22, 24).status, SymbolStatus::LogicalTrue);
    assert_eq!(masked.module_at(22, 23).status, SymbolStatus::LogicalTrue);
    assert_eq!(masked.module_at(23, 24).status, SymbolStatus::LogicalFalse);
    // mask 4 goes by half the row and a third of the column
    let masked = data.apply_mask(4);
    assert_eq!(masked.module_at(24, 24).status, SymbolStatus::LogicalTrue);
    assert_eq!(masked.module_at(24, 22).status, SymbolStatus::LogicalFalse);
    assert_eq!(masked.module_at(21, 24).status, SymbolStatus::LogicalFalse);
}

/// A symbol of version 1 whose modules in the symbol are given by rows of
/// `#` and `.`; what the rows do not give is light.
fn painted(rows: &[&str]) -> QRData {
    let mut data = QRData::new(settings("", ErrorLevel::L)).unwrap();
    let width = data.get_width();
    for x in 0..width {
        for y in 0..width {
            data.set_module(x, y, Module { status: SymbolStatus::LogicalFalse, role: SymbolRole::EncodingRegion });
        }
    }
    for (y, row) in rows.iter().enumerate() {
        for (x, colour) in row.chars().enumerate() {
            if colour == '#' {
                data.set_module(
                    x + 4,
                    y + 4,
                    Module { status: SymbolStatus::LogicalTrue, role: SymbolRole::EncodingRegion },
                );
            }
        }
    }
    data
}

fn chequered() -> QRData {
    let rows: Vec<String> = (0..21)
        .map(|y| (0..21).map(|x| if (x + y) % 2 == 0 { '#' } else { '.' }).collect())
        .collect();
    let rows: Vec<&str> = rows.iter().map(|row| row.as_str()).collect();
    painted(&rows)
}

#[test]
fn penalty_of_an_empty_symbol() {
    let data = painted(&[]);
    // each of the 21 rows and columns is one run of 21: 3 + 16
    assert_eq!(data.penalty_consecutive_same_color(), 2 * 21 * 19);
    assert_eq!(data.penalty_color_blocks(), 3 * 20 * 20);
    assert_eq!(data.penalty_finder_patterns(), 0);
    // no dark module at all: nine steps of five percent away from one half
    assert_eq!(data.penalty_color_ratios(), 90);
    assert_eq!(data.calculate_penalty(), 2 * 21 * 19 + 3 * 20 * 20 + 90);
    assert_eq!(data.score_of(Feature::Dark), 0);
}

#[test]
fn penalty_of_a_chequered_symbol() {
    let data = chequered();
    assert_eq!(data.penalty_consecutive_same_color(), 0);
    assert_eq!(data.penalty_color_blocks(), 0);
    assert_eq!(data.penalty_finder_patterns(), 0);
    // 221 of 441 modules are dark: fifty percent, rounded down to a step
    assert_eq!(data.score_of(Feature::Dark), 221);
    assert_eq!(data.penalty_color_ratios(), 0);
    assert_eq!(data.calculate_penalty(), 0);
}

#[test]
fn penalty_for_runs() {
    let mut data = chequered();
    // a run of exactly five dark modules in row 0
    for x in [5usize, 7] {
        data.set_module(x, 4, Module { status: SymbolStatus::LogicalTrue, role: SymbolRole::EncodingRegion });
    }
    assert_eq!(data.score_of(Feature::RunRight), 3);
    assert_eq!(data.score_at(Feature::RunRight, 8, 4), 3);
    assert_eq!(data.score_at(Feature::RunRight, 7, 4), 0);
    assert_eq!(data.score_of(Feature::RunDown), 0);
    // two more modules: 3 + 2
    for x in [9usize, 11] {
        data.set_module(x, 4, Module { status: SymbolStatus::LogicalTrue, role: SymbolRole::EncodingRegion });
    }
    assert_eq!(data.score_of(Feature::RunRight), 3 + 4);
    assert_eq!(data.penalty_consecutive_same_color(), 3 + 4);
    // a run of six light modules in column 0, from row 15 to row 20
    for y in [20usize, 22, 24] {
        data.set_module(4, y, Module { status: SymbolStatus::LogicalFalse, role: SymbolRole::EncodingRegion });
    }
    assert_eq!(data.score_of(Feature::RunDown), 3 + 1);
    assert_eq!(data.penalty_consecutive_same_color(), 3 + 4 + 3 + 1);
}

#[test]
fn penalty_for_blocks_and_finder_like_sequences() {
    let mut data = chequered();
    data.set_module(5, 4, Module { status: SymbolStatus::LogicalTrue, role: SymbolRole::EncodingRegion });
    data.set_module(4, 5, Module { status: SymbolStatus::LogicalTrue, role: SymbolRole::EncodingRegion });
    // a square of two by two, of which the modules beside it make no further square
    assert_eq!(data.penalty_color_blocks(), 3);
    assert_eq!(data.score_at(Feature::Block, 4, 4), 3);
    let data = painted(&["#.###.#....", "", "....#.###.##"]);
    assert_eq!(data.score_at(Feature::FinderRight, 14, 4), 40);
    assert_eq!(data.score_at(Feature::FinderRight, 14, 6), 40);
    assert_eq!(data.score_at(Feature::FinderRight, 14, 5), 0);
    assert_eq!(data.score_at(Feature::FinderRight, 15, 4), 0);
    assert_eq!(data.score_of(Feature::FinderRight), 80);
    assert_eq!(data.score_of(Feature::FinderDown), 0);
    assert_eq!(data.penalty_finder_patterns(), 80);
    let rows: Vec<String> = "#.###.#....".chars().map(|colour| colour.to_string()).collect();
    let rows: Vec<&str> = rows.iter().map(|row| row.as_str()).collect();
    let data = painted(&rows);
    assert_eq!(data.score_of(Feature::FinderDown), 40);
    assert_eq!(data.score_of(Feature::FinderRight), 0);
}

#[test]
fn penalty_for_the_share_of_dark_modules() {
    // 441 modules: 44 dark are 9.97 percent, 45 dark are 10.2 percent
    let mut data = painted(&[]);
    let mut dark = 0;
    let mut penalties = vec![];
    for y in 4..25usize {
        for x in 4..25usize {
            if dark == 44 || dark == 45 || dark == 220 || dark == 221 || dark == 243 || dark == 441 {
                penalties.push((dark, data.penalty_color_ratios()));
            }
            data.set_module(x, y, Module { status: SymbolStatus::LogicalTrue, role: SymbolRole::EncodingRegion });
            dark += 1;
        }
    }
    penalties.push((dark, data.penalty_color_ratios()));
    assert_eq!(penalties, vec![(44, 80), (45, 70), (220, 0), (221, 0), (243, 10), (441, 100)]);
}

#[test]
fn chosen_mask_has_the_lowest_penalty() {
    for (text, level) in [
        ("HELLO", ErrorLevel::L),
        ("Hello, world! 123", ErrorLevel::M),
        ("", ErrorLevel::H),
        ("Example string to test qr code program for byte shuffling", ErrorLevel::Q),
    ] {
        let mut data = structure(text, level);
        data.read_and_write().unwrap();
        data.version_information().unwrap();
        let penalties: Vec<u32> = (0..8u8).map(|mask| data.apply_mask(mask).calculate_penalty()).collect();
        let chosen = data.select_mask();
        for (mask, penalty) in penalties.iter().enumerate() {
            assert!(penalties[chosen as usize] <= *penalty);
            if mask < chosen as usize {
                assert!(penalties[chosen as usize] < *penalty);
            }
        }
        let symbol = qr_code(settings(text, level)).unwrap();
        let (value, _) = read_format(&symbol);
        assert_eq!(value & 7, chosen);
        assert_eq!(value >> 3, level.format_bits());
    }
}

#[test]
fn format_information_stands_twice() {
    for (text, level) in [("HELLO", ErrorLevel::L), ("format", ErrorLevel::H), ("x", ErrorLevel::Q)] {
        let symbol = qr_code(settings(text, level)).unwrap();
        let width = symbol.get_width();
        let (_, bits) = read_format(&symbol);
        let mut second: u16 = 0;
        for y in ((width - 11)..(width - 4)).rev() {
            second = second * 2 + (symbol.module_at(12, y).status == SymbolStatus::LogicalTrue) as u16;
        }
        for x in (width - 12)..(width - 4) {
            second = second * 2 + (symbol.module_at(x, 12).status == SymbolStatus::LogicalTrue) as u16;
        }
        assert_eq!(second, bits);
        assert_eq!(count_role(&symbol, SymbolRole::FormatInformation), 30);
        assert_eq!(count_role(&symbol, SymbolRole::ReservedFormatInformation), 0);
        assert_eq!(
            symbol.module_at(12, width - 12),
            Module { status: SymbolStatus::LogicalTrue, role: SymbolRole::AlwaysTrue }
        );
        assert_eq!(count_role(&symbol, SymbolRole::AlwaysTrue), 1);
    }
}

/// What holds of every finished symbol.
fn check_symbol(text: &str, level: ErrorLevel, version: u8) {
    let symbol = qr_code(settings(text, level)).unwrap();
    assert_eq!(symbol.get_version(), version);
    let width = 17 + 4 * version as usize + 8;
    let colours = symbol._get_data();
    assert_eq!(colours.len(), width);
    for (x, column) in colours.iter().enumerate() {
        assert_eq!(column.len(), width);
        for (y, colour) in column.iter().enumerate() {
            assert!(*colour != SymbolStatus::Uninitialised);
            assert_eq!(*colour, symbol.module_at(x, y).status);
        }
    }
    assert_eq!(count_role(&symbol, SymbolRole::Uninitialised), 0);
    assert_eq!(count_role(&symbol, SymbolRole::ReservedVersionInformation), 0);
    assert_eq!(count_role(&symbol, SymbolRole::VersionInformation), if version >= 7 { 36 } else { 0 });
    // the codewords in the symbol are those of the blocks, interleaved
    let (value, _) = read_format(&symbol);
    let data = QRData::new(settings(text, level)).unwrap();
    let sizes = data.generate_error_blocks().unwrap();
    let blocks: Vec<Vec<u8>> = data
        .write_data_into_vectors(&sizes)
        .unwrap()
        .iter()
        .map(|vector| vector.get_data())
        .collect();
    let correction = QRData::generate_error_corrction(&sizes, &blocks);
    let codewords = QRData::shuffle_bit_vectors(&blocks, &correction);
    let total: usize = sizes.iter().map(|size| size.0 as usize + size.1 as usize).sum();
    assert_eq!(codewords.len(), total);
    let read = read_codewords(&symbol, Some(value & 7));
    assert_eq!(read[..total], codewords[..]);
    assert!(read[total..].iter().all(|byte| *byte == 0));
    assert!(count_role(&symbol, SymbolRole::EncodingRegion) - 8 * total < 8);
}

#[test]
fn generated_output_basics() {
    check_symbol("Hello, world! 123", ErrorLevel::M, 2);
}

#[test]
fn generated_output_byte_shuffling() {
    check_symbol("Example string to test qr code program for byte shuffling", ErrorLevel::Q, 5);
}

#[test]
fn generated_output_version_information() {
    check_symbol(
        "This example is testing the version information, which appears in versions 7 or higher.",
        ErrorLevel::Q,
        8,
    );
}

#[test]
fn symbols_of_large_versions() {
    check_symbol(&"q".repeat(1000), ErrorLevel::H, 36);
    check_symbol(&"q".repeat(2953), ErrorLevel::L, 40);
}

#[test]
fn text_that_is_too_long() {
    assert_eq!(qr_code(settings(&"q".repeat(2954), ErrorLevel::L)).err(), Some(QrError::TextTooLong));
    assert_eq!(qr_code(settings(&"q".repeat(1274), ErrorLevel::H)).err(), Some(QrError::TextTooLong));
}

#[test]
fn level_letters() {
    assert_eq!(ErrorLevel::L.to_string(), "l");
    assert_eq!(ErrorLevel::M.to_string(), "m");
    assert_eq!(ErrorLevel::Q.to_string(), "q");
    assert_eq!(ErrorLevel::H.to_string(), "h");
    assert_eq!(ErrorLevel::L.format_bits(), 0b01);
    assert_eq!(ErrorLevel::M.format_bits(), 0b00);
    assert_eq!(ErrorLevel::Q.format_bits(), 0b11);
    assert_eq!(ErrorLevel::H.format_bits(), 0b10);
}

/// The product of two elements of the field of the symbol, multiplied as
/// polynomials and reduced by x^8 + x^4 + x^3 + x^2 + 1.
fn field_product(a: u8, b: u8) -> u8 {
    let mut product: u16 = 0;
    for bit in 0..8 {
        if (b >> bit) & 1 == 1 {
            product ^= (a as u16) << bit;
        }
    }
    for bit in (8..16).rev() {
        if (product >> bit) & 1 == 1 {
            product ^= 0x11d << (bit - 8);
        }
    }
    product as u8
}

#[test]
fn blocks_are_codewords_of_the_code() {
    for (text, level) in [
        ("HELLO", ErrorLevel::L),
        ("Hello, world! 123", ErrorLevel::M),
        ("Example string to test qr code program for byte shuffling", ErrorLevel::Q),
        ("a text that is long enough to need blocks of two sizes at the highest level", ErrorLevel::H),
    ] {
        let data = QRData::new(settings(text, level)).unwrap();
        let sizes = data.generate_error_blocks().unwrap();
        let blocks: Vec<Vec<u8>> = data
            .write_data_into_vectors(&sizes)
            .unwrap()
            .iter()
            .map(|vector| vector.get_data())
            .collect();
        let correction = QRData::generate_error_corrction(&sizes, &blocks);
        for ((block, correction), size) in blocks.iter().zip(correction.iter()).zip(sizes.iter()) {
            assert_eq!(block.len(), size.0 as usize);
            assert_eq!(correction.len(), size.1 as usize);
            // the block, as a polynomial, is zero at the first powers of x
            let mut root: u8 = 1;
            for _ in 0..size.1 {
                let mut value: u8 = 0;
                for byte in block.iter().chain(correction.iter()) {
                    value = field_product(value, root) ^ byte;
                }
                assert_eq!(value, 0);
                root = field_product(root, 2);
            }
        }
    }
}

/// The longest text of bytes that a version holds at a level.
fn longest_text(version: u8, level: ErrorLevel) -> String {
    let capacity: usize = qrcode::standard_qr_code::utils::data_bytes_of(
        &qrcode::standard_qr_code::version_constants::error_blocks_of(version, level),
    );
    "k".repeat(capacity - if version >= 10 { 3 } else { 2 })
}

#[test]
fn symbols_of_many_versions_at_level_l() {
    for version in [1u8, 4, 7, 10, 13, 16, 19, 22, 25, 28, 31] {
        check_symbol(&longest_text(version, ErrorLevel::L), ErrorLevel::L, version);
    }
}

#[test]
fn symbols_of_many_versions_at_level_m() {
    for version in [2u8, 5, 8, 11, 14, 17, 20, 23, 26, 29, 32] {
        check_symbol(&longest_text(version, ErrorLevel::M), ErrorLevel::M, version);
    }
}

#[test]
fn symbols_of_many_versions_at_level_q() {
    for version in [3u8, 6, 9, 12, 15, 18, 21, 24, 27, 30, 33] {
        check_symbol(&longest_text(version, ErrorLevel::Q), ErrorLevel::Q, version);
    }
}

#[test]
fn symbols_of_many_versions_at_level_h() {
    for version in [1u8, 2, 3, 9, 10, 27, 34, 35, 37, 38, 39] {
        check_symbol(&longest_text(version, ErrorLevel::H), ErrorLevel::H, version);
    }
}
