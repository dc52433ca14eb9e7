use std::ops::BitXor;

use qrcode::error::QrError;
use qrcode::input::ErrorLevel;
use qrcode::input::Settings;
use qrcode::standard_qr_code::qr_struct::ErrorBlockInfo;
use qrcode::standard_qr_code::qr_struct::Module;
use qrcode::standard_qr_code::qr_struct::QRData;
use qrcode::standard_qr_code::qr_struct::SymbolRole;
use qrcode::standard_qr_code::qr_struct::SymbolStatus;

fn settings(text: &str, level: ErrorLevel) -> Settings {
    Settings { information: String::from(text), error_level: level, debugging: false }
}

/// A matrix of the version with the stages before the placement run.
fn structure(version: u8) -> QRData {
    let mut data = QRData::new(settings("", ErrorLevel::L)).unwrap();
    let width = 17 + 4 * version as usize + 8;
    let blank = Module { status: SymbolStatus::Uninitialised, role: SymbolRole::Uninitialised };
    data.version = version;
    data.modules = vec![vec![blank; width]; width];
    data.quiet_zone();
    data.finders();
    data.timing_pattern();
    data.separators();
    data.reserve_format_information();
    data.draw_alignment_pattern();
    data.reserve_version_information();
    data
}

fn count_role(data: &QRData, role: SymbolRole) -> usize {
    data.modules.iter().flatten().filter(|module| module.role == role).count()
}

#[test]
fn symbol_status_xor() {
    assert_eq!(
        SymbolStatus::LogicalFalse ^ SymbolStatus::LogicalFalse,
        SymbolStatus::LogicalFalse
    );
    assert_eq!(
        SymbolStatus::LogicalFalse ^ SymbolStatus::LogicalTrue,
        SymbolStatus::LogicalTrue
    );
    assert_eq!(
        SymbolStatus::LogicalTrue ^ SymbolStatus::LogicalFalse,
        SymbolStatus::LogicalTrue
    );
    assert_eq!(
        SymbolStatus::LogicalTrue ^ SymbolStatus::LogicalTrue,
        SymbolStatus::LogicalFalse
    );
}

#[test]
fn qr_struct_symbol_status_xor() {
    assert_eq!(
        SymbolStatus::LogicalFalse.bitxor(SymbolStatus::LogicalFalse),
        SymbolStatus::LogicalFalse
    );
    assert_eq!(
        SymbolStatus::LogicalFalse.bitxor(SymbolStatus::LogicalTrue),
        SymbolStatus::LogicalTrue
    );
    assert_eq!(
        SymbolStatus::LogicalTrue.bitxor(SymbolStatus::LogicalFalse),
        SymbolStatus::LogicalTrue
    );
    assert_eq!(
        SymbolStatus::LogicalTrue.bitxor(SymbolStatus::LogicalTrue),
        SymbolStatus::LogicalFalse
    );
}

#[test]
fn error_block_info() {
    let info = ErrorBlockInfo::new(2, 34, 16);
    assert_eq!(info.num_block, 2);
    assert_eq!(info.num_data_bytes, 16);
    assert_eq!(info.num_error_bytes, 18);
    assert_eq!(ErrorBlockInfo::new(1, 26, 26).num_error_bytes, 0);
}

#[test]
fn new_matrix() {
    let data = QRData::new(settings("HELLO", ErrorLevel::L)).unwrap();
    assert_eq!(data.get_version(), 1);
    assert_eq!(data.get_width(), 29);
    assert_eq!(data.get_settings().information, "HELLO");
    assert_eq!(data.get_settings().error_level, ErrorLevel::L);
    assert_eq!(data.get_error_info(), &vec![ErrorBlockInfo::new(1, 26, 19)]);
    let colours = data._get_data();
    assert_eq!(colours.len(), 29);
    for column in colours.iter() {
        assert_eq!(column, &vec![SymbolStatus::Uninitialised; 29]);
    }
    assert_eq!(count_role(&data, SymbolRole::Uninitialised), 29 * 29);
    let too_long = "x".repeat(2954);
    assert_eq!(QRData::new(settings(&too_long, ErrorLevel::L)).err(), Some(QrError::TextTooLong));
    assert_eq!(QRData::new(settings(&too_long[..2953], ErrorLevel::L)).unwrap().get_version(), 40);
}

#[test]
fn matrix_dimension_of_every_version() {
    for level in [ErrorLevel::L, ErrorLevel::M, ErrorLevel::Q, ErrorLevel::H] {
        let mut seen = vec![false; 41];
        for length in 0..2954usize {
            let text = "a".repeat(length);
            match QRData::new(settings(&text, level)) {
                Ok(data) => {
                    let version = data.get_version() as usize;
                    assert_eq!(data.get_width(), 17 + 4 * version + 8);
                    assert_eq!(data.modules.len(), 17 + 4 * version + 8);
                    assert!(data.modules.iter().all(|column| column.len() == 17 + 4 * version + 8));
                    seen[version] = true;
                }
                Err(error) => assert_eq!(error, QrError::TextTooLong),
            }
        }
        assert!(seen[1..=40].iter().all(|seen| *seen));
    }
}

#[test]
fn text_length_counts_bytes() {
    // seventeen bytes fit version 1 at level L, eighteen do not
    assert_eq!(QRData::new(settings("aaaaaaaaaaaaaaaaa", ErrorLevel::L)).unwrap().get_version(), 1);
    assert_eq!(QRData::new(settings("ääääääää", ErrorLevel::L)).unwrap().get_version(), 1);
    assert_eq!(QRData::new(settings("äääääääää", ErrorLevel::L)).unwrap().get_version(), 2);
}

#[test]
fn quiet_zone_stage() {
    let mut data = QRData::new(settings("", ErrorLevel::L)).unwrap();
    data.quiet_zone();
    let width = data.get_width();
    for x in 0..width {
        for y in 0..width {
            let module = data.module_at(x, y);
            if x <= 3 || x >= width - 4 || y <= 3 || y >= width - 4 {
                assert_eq!(module, Module { status: SymbolStatus::LogicalFalse, role: SymbolRole::QuietZone });
            } else {
                assert_eq!(
                    module,
                    Module { status: SymbolStatus::Uninitialised, role: SymbolRole::Uninitialised }
                );
            }
        }
    }
    assert_eq!(count_role(&data, SymbolRole::QuietZone), 29 * 29 - 21 * 21);
}

#[test]
fn finder_stage() {
    let mut data = QRData::new(settings("", ErrorLevel::L)).unwrap();
    data.quiet_zone();
    data.finders();
    assert_eq!(count_role(&data, SymbolRole::FinderPattern), 3 * 49);
    let rows = [
        "#######",
        "#.....#",
        "#.###.#",
        "#.###.#",
        "#.###.#",
        "#.....#",
        "#######",
    ];
    for (corner_x, corner_y) in [(4usize, 4usize), (18, 4), (4, 18)] {
        for (dy, row) in rows.iter().enumerate() {
            for (dx, colour) in row.chars().enumerate() {
                let module = data.module_at(corner_x + dx, corner_y + dy);
                assert_eq!(module.role, SymbolRole::FinderPattern);
                let wanted = if colour == '#' { SymbolStatus::LogicalTrue } else { SymbolStatus::LogicalFalse };
                assert_eq!(module.status, wanted);
            }
        }
    }
    // the lower right corner has no finder pattern
    assert_eq!(data.module_at(21, 21).role, SymbolRole::Uninitialised);
    // a module that has a role is left alone
    let mut data = QRData::new(settings("", ErrorLevel::L)).unwrap();
    data.set_module(7, 7, Module { status: SymbolStatus::LogicalFalse, role: SymbolRole::Separator });
    data.finders();
    assert_eq!(
        data.module_at(7, 7),
        Module { status: SymbolStatus::LogicalFalse, role: SymbolRole::Separator }
    );
}

#[test]
fn timing_and_separator_stages() {
    let mut data = QRData::new(settings("", ErrorLevel::L)).unwrap();
    data.quiet_zone();
    data.finders();
    data.timing_pattern();
    // between the finder patterns the timing pattern alternates, dark on even places
    for place in 11..18usize {
        let wanted = if place % 2 == 0 { SymbolStatus::LogicalTrue } else { SymbolStatus::LogicalFalse };
        assert_eq!(data.module_at(place, 10), Module { status: wanted, role: SymbolRole::TimingPattern });
        assert_eq!(data.module_at(10, place), Module { status: wanted, role: SymbolRole::TimingPattern });
    }
    assert_eq!(count_role(&data, SymbolRole::TimingPattern), 2 * 7);
    data.separators();
    assert_eq!(count_role(&data, SymbolRole::Separator), 3 * 15);
    assert_eq!(count_role(&data, SymbolRole::TimingPattern), 2 * 5);
    for place in 4..12usize {
        for (x, y) in [(11, place), (place, 11), (17, place), (place + 13, 11), (11, place + 13), (place, 17)] {
            assert_eq!(
                data.module_at(x, y),
                Module { status: SymbolStatus::LogicalFalse, role: SymbolRole::Separator }
            );
        }
    }
    assert_eq!(count_role(&data, SymbolRole::QuietZone), 29 * 29 - 21 * 21);
    assert_eq!(count_role(&data, SymbolRole::FinderPattern), 3 * 49);
}

#[test]
fn format_reservation_stage() {
    let data = structure(1);
    assert_eq!(count_role(&data, SymbolRole::ReservedFormatInformation), 30);
    assert_eq!(count_role(&data, SymbolRole::AlwaysTrue), 1);
    let width = data.get_width();
    for x in 0..width {
        for y in 0..width {
            let module = data.module_at(x, y);
            if module.role == SymbolRole::ReservedFormatInformation {
                assert_eq!(module.status, SymbolStatus::LogicalFalse);
                assert!(x == 12 || y == 12);
                assert!(x != width - 13 && y != width - 13);
            }
            if module.role == SymbolRole::AlwaysTrue {
                assert_eq!((x, y), (12, width - 12));
                assert_eq!(module.status, SymbolStatus::LogicalTrue);
            }
        }
    }
    assert_eq!(
        data.module_at(12, 17),
        Module { status: SymbolStatus::LogicalTrue, role: SymbolRole::AlwaysTrue }
    );
    assert_eq!(data.module_at(12, 18).role, SymbolRole::ReservedFormatInformation);
    assert_eq!(data.module_at(12, 16).role, SymbolRole::Uninitialised);
    assert_eq!(data.module_at(16, 12).role, SymbolRole::Uninitialised);
    assert_eq!(data.module_at(17, 12).role, SymbolRole::ReservedFormatInformation);
}

#[test]
fn alignment_stage() {
    assert_eq!(count_role(&structure(1), SymbolRole::AlignmentPattern), 0);
    let data = structure(2);
    assert_eq!(count_role(&data, SymbolRole::AlignmentPattern), 25);
    let rows = ["#####", "#...#", "#.#.#", "#...#", "#####"];
    for (dy, row) in rows.iter().enumerate() {
        for (dx, colour) in row.chars().enumerate() {
            let module = data.module_at(20 + dx, 20 + dy);
            let wanted = if colour == '#' { SymbolStatus::LogicalTrue } else { SymbolStatus::LogicalFalse };
            assert_eq!(module, Module { status: wanted, role: SymbolRole::AlignmentPattern });
        }
    }
    // version 7 has six patterns, two of them on the timing patterns
    let data = structure(7);
    assert_eq!(count_role(&data, SymbolRole::AlignmentPattern), 6 * 25);
    assert_eq!(data.module_at(26, 10).role, SymbolRole::AlignmentPattern);
    assert_eq!(data.module_at(10, 26).role, SymbolRole::AlignmentPattern);
    assert_eq!(data.module_at(26, 26).status, SymbolStatus::LogicalTrue);
    assert_eq!(data.module_at(42, 42).status, SymbolStatus::LogicalTrue);
    assert_eq!(data.module_at(10, 42).role, SymbolRole::FinderPattern);
    for version in 2..=40u8 {
        let centres = version as usize / 7 + 2;
        assert_eq!(
            count_role(&structure(version), SymbolRole::AlignmentPattern),
            (centres * centres - 3) * 25
        );
    }
}

#[test]
fn version_reservation_and_writing() {
    assert_eq!(count_role(&structure(6), SymbolRole::ReservedVersionInformation), 0);
    let mut data = structure(7);
    assert_eq!(count_role(&data, SymbolRole::ReservedVersionInformation), 36);
    let width = data.get_width();
    for x in 4..10usize {
        for y in (width - 15)..(width - 12) {
            assert_eq!(data.module_at(x, y).role, SymbolRole::ReservedVersionInformation);
            assert_eq!(data.module_at(y, x).role, SymbolRole::ReservedVersionInformation);
        }
        assert_eq!(data.module_at(x, width - 12).role, SymbolRole::Separator);
    }
    assert_eq!(data.version_information(), Ok(()));
    assert_eq!(count_role(&data, SymbolRole::ReservedVersionInformation), 0);
    assert_eq!(count_role(&data, SymbolRole::VersionInformation), 36);
    // 0x07C94, the highest bit first, from column 9 to column 4 and in each
    // column from the lowest of the three rows to the highest
    let bits = 0x07C94u32;
    for number in 0..18usize {
        let wanted = if (bits >> (17 - number)) & 1 == 1 {
            SymbolStatus::LogicalTrue
        } else {
            SymbolStatus::LogicalFalse
        };
        let (x, y) = (9 - number / 3, width - 13 - number % 3);
        assert_eq!(data.module_at(x, y), Module { status: wanted, role: SymbolRole::VersionInformation });
        assert_eq!(data.module_at(y, x), Module { status: wanted, role: SymbolRole::VersionInformation });
    }
    // below version 7 nothing is written
    let mut small = structure(6);
    let before = small.modules.clone();
    assert_eq!(small.version_information(), Ok(()));
    assert_eq!(small.modules, before);
}

#[test]
fn version_information_needs_its_places() {
    let mut data = structure(7);
    let width = data.get_width();
    data.set_module(5, width - 14, Module { status: SymbolStatus::LogicalFalse, role: SymbolRole::EncodingRegion });
    let before = data.modules.clone();
    assert_eq!(data.version_information(), Err(QrError::InvalidPlacementTarget));
    assert_eq!(data.modules, before);
}

#[test]
fn no_module_is_left_without_a_role_but_for_data() {
    for version in [1u8, 2, 6, 7, 14, 21, 40] {
        let data = structure(version);
        let width = data.get_width();
        for x in 0..width {
            for y in 0..width {
                if data.module_at(x, y).role == SymbolRole::Uninitialised {
                    assert!(4 <= x && x < width - 4 && 4 <= y && y < width - 4 && x != 10 && y != 10);
                }
            }
        }
    }
}

#[test]
fn every_neighbour_counts() {
    let blank = Module { status: SymbolStatus::Uninitialised, role: SymbolRole::Uninitialised };
    let finder = Module { status: SymbolStatus::LogicalTrue, role: SymbolRole::FinderPattern };
    for (dx, dy) in [(0usize, 0usize), (1, 0), (2, 0), (0, 1), (2, 1), (0, 2), (1, 2), (2, 2)] {
        let mut data = QRData::new(settings("", ErrorLevel::L)).unwrap();
        data.set_module(14 + dx, 14 + dy, finder);
        assert!(data.touches(15, 15, SymbolRole::FinderPattern));
        assert!(!data.touches(15, 15, SymbolRole::Separator));
        data.separators();
        assert_eq!(
            data.module_at(15, 15),
            Module { status: SymbolStatus::LogicalFalse, role: SymbolRole::Separator }
        );
        data.set_module(14 + dx, 14 + dy, blank);
        assert!(!data.touches(15, 15, SymbolRole::FinderPattern));
    }
    let data = QRData::new(settings("", ErrorLevel::L)).unwrap();
    assert!(!data.touches(15, 15, SymbolRole::FinderPattern));
}
