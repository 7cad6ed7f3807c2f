use gold_code::acquisition::generate_codes;
use gold_code::distinct::LEADING_CHIPS;
use gold_code::generator::ShiftRegGPS;
use gold_code::params::{CODE_LENGTH, GPS_REGISTER_PROPS, REG_SIZE, SATELLITES};

#[test]
fn get_bit_test() {
    assert_eq!(1, ShiftRegGPS::get_bit(2, 0b0000_0001_0000_0000));
    assert_eq!(0, ShiftRegGPS::get_bit(2, 0b1111_1110_1111_1111));
    assert_eq!(1, ShiftRegGPS::get_bit(10, 0b0000_0000_0000_0001));
    assert_eq!(0, ShiftRegGPS::get_bit(10, 0b1111_1111_1111_1110));
}

#[test]
fn push_bit_to_front_test() {
    let mut reg = 0b0000_0000_0000_0000;
    ShiftRegGPS::push_bit_to_front(1, &mut reg);
    assert_eq!(0b0000_0010_0000_0000, reg);
    ShiftRegGPS::push_bit_to_front(1, &mut reg);
    assert_eq!(0b0000_0011_0000_0000, reg);
    ShiftRegGPS::push_bit_to_front(0, &mut reg);
    println!("{}", format!("register value: {:b}", reg));
    assert_eq!(0b0000_0001_1000_0000, reg);
}

#[test]
fn get_bit_reads_front_cell() {
    assert_eq!(1, ShiftRegGPS::get_bit(1, 0b0000_0010_0000_0000));
    assert_eq!(0, ShiftRegGPS::get_bit(1, 0b1111_1101_1111_1111));
}

#[test]
fn get_bit_reads_every_cell_of_a_pattern() {
    // cells, front first: 1 0 1 1 0 0 1 0 0 1
    let reg: u16 = 0b10_1100_1001;
    let expected: [u16; 10] = [1, 0, 1, 1, 0, 0, 1, 0, 0, 1];
    for index in 1..=10u16 {
        assert_eq!(expected[(index - 1) as usize], ShiftRegGPS::get_bit(index, reg));
    }
}

#[test]
fn push_moves_every_cell_one_place_back() {
    let old: u16 = 0b10_1100_1001;
    for bit in 0..=1u16 {
        let mut reg = old;
        ShiftRegGPS::push_bit_to_front(bit, &mut reg);
        assert_eq!(bit, ShiftRegGPS::get_bit(1, reg));
        for index in 2..=10u16 {
            assert_eq!(ShiftRegGPS::get_bit(index - 1, old), ShiftRegGPS::get_bit(index, reg));
        }
    }
}

#[test]
fn push_keeps_spare_bits_shifted() {
    let mut reg: u16 = 0xffff;
    ShiftRegGPS::push_bit_to_front(0, &mut reg);
    assert_eq!(0b0111_1101_1111_1111, reg);
    ShiftRegGPS::push_bit_to_front(1, &mut reg);
    assert_eq!(0b0011_1110_1111_1111, reg);
}

#[test]
fn reg_size_is_ten() {
    assert_eq!(10, ShiftRegGPS::reg_size());
    assert_eq!(REG_SIZE, ShiftRegGPS::reg_size());
}

#[test]
fn new_sets_every_cell() {
    let generator = ShiftRegGPS::new(7);
    assert_eq!(0xffff, generator.top);
    assert_eq!(0xffff, generator.bot);
    assert_eq!(7, generator.id);
    for index in 1..=10u16 {
        assert_eq!(1, ShiftRegGPS::get_bit(index, generator.top));
        assert_eq!(1, ShiftRegGPS::get_bit(index, generator.bot));
    }
}

#[test]
fn next_bit_first_steps_of_first_satellite() {
    let mut generator = ShiftRegGPS::new(0);
    let expected: [u16; 10] = [1, 1, 0, 0, 1, 0, 0, 0, 0, 0];
    for chip in expected {
        assert_eq!(chip, generator.next_bit());
    }
}

#[test]
fn next_bit_updates_registers_after_reading() {
    let mut generator = ShiftRegGPS { top: 0b11_1111_1111, bot: 0b11_1111_1111, id: 4 };
    let chip = generator.next_bit();
    // top output 1, taps 1 and 9 of the bottom register both 1
    assert_eq!(1, chip);
    // top feedback: cell 3 xor cell 10 = 0; bottom feedback: six ones = 0
    assert_eq!(0b01_1111_1111, generator.top);
    assert_eq!(0b01_1111_1111, generator.bot);
    assert_eq!(4, generator.id);
    let chip = generator.next_bit();
    // top output 1, tap 1 now 0, tap 9 still 1
    assert_eq!(0, chip);
    assert_eq!(0b00_1111_1111, generator.top);
    assert_eq!(0b00_1111_1111, generator.bot);
}

#[test]
fn generate_returns_requested_length_of_binary_chips() {
    for length in [0usize, 1, 10, 100, 1023, 1024, 3000] {
        let code = ShiftRegGPS::new(3).generate(length);
        assert_eq!(length, code.len());
        assert!(code.iter().all(|chip| *chip == 0 || *chip == 1));
    }
}

#[test]
fn generate_continues_where_it_stopped() {
    let whole = ShiftRegGPS::new(11).generate(300);
    let mut generator = ShiftRegGPS::new(11);
    let mut pieces = generator.generate(120);
    pieces.extend(generator.generate(180));
    assert_eq!(whole, pieces);
}

#[test]
fn get_code_is_one_period() {
    let code = ShiftRegGPS::new(0).get_code();
    assert_eq!(CODE_LENGTH as usize, code.len());
    assert_eq!(code, ShiftRegGPS::new(0).generate(1023));
}

#[test]
fn code_repeats_after_one_period() {
    let two = ShiftRegGPS::new(5).generate(2046);
    assert_eq!(two[..1023], two[1023..]);
}

#[test]
fn code_is_balanced() {
    for id in 0..SATELLITES {
        let code = ShiftRegGPS::new(id).get_code();
        let ones = code.iter().filter(|chip| **chip == 1).count();
        assert_eq!(512, ones);
    }
}

#[test]
fn two_generators_agree() {
    for id in 0..SATELLITES {
        let first = ShiftRegGPS::new(id).get_code();
        let second = ShiftRegGPS::new(id).get_code();
        assert_eq!(first, second);
    }
}

#[test]
fn spare_bits_do_not_change_the_code() {
    let mut narrow = ShiftRegGPS { top: 0x03ff, bot: 0x03ff, id: 9 };
    let mut wide = ShiftRegGPS::new(9);
    assert_eq!(narrow.generate(500), wide.generate(500));
}

#[test]
fn codes_of_different_satellites_differ() {
    let codes = generate_codes();
    for first in 0..codes.len() {
        for second in 0..codes.len() {
            if first != second {
                assert_ne!(codes[first], codes[second]);
                assert_ne!(codes[first][..10], codes[second][..10]);
            }
        }
    }
}

#[test]
fn leading_chips_match_the_table() {
    let codes = generate_codes();
    for id in 0..24usize {
        let mut number: u16 = 0;
        for k in 0..10usize {
            number = number * 2 + codes[id][k];
        }
        assert_eq!(LEADING_CHIPS[id], number);
    }
    assert_eq!(0o1440, LEADING_CHIPS[0]);
}

#[test]
fn generate_codes_gives_every_satellite_its_code() {
    let codes = generate_codes();
    assert_eq!(24, codes.len());
    for id in 0..SATELLITES {
        assert_eq!(ShiftRegGPS::new(id).get_code(), codes[id as usize]);
    }
}

#[test]
fn tap_table_names_cells_of_the_register() {
    assert_eq!(24, GPS_REGISTER_PROPS.len());
    assert_eq!((2, 6), GPS_REGISTER_PROPS[0]);
    assert_eq!((4, 6), GPS_REGISTER_PROPS[23]);
    for (first, second) in GPS_REGISTER_PROPS {
        assert!(1 <= first && first < second && second <= 10);
    }
}
