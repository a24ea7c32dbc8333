use ethercrab::eeprom::types::{CategoryType, SiiCategory};
use ethercrab::eeprom::{CategoryStep, Eeprom, CATEGORY_END, FIRST_CATEGORY};

/// Walks the headers of an EEPROM given as words from address 0x0040 on.
fn search(words: &[u16], wanted: CategoryType) -> Option<SiiCategory> {
    let eeprom = Eeprom::new(0x1001);
    let mut address = FIRST_CATEGORY;
    loop {
        let at = (address - FIRST_CATEGORY) as usize;
        let header: Vec<u8> = words[at..at + 2].iter().flat_map(|word| word.to_le_bytes()).collect();
        match eeprom.find_category(address, &header, wanted) {
            CategoryStep::Found(category) => return Some(category),
            CategoryStep::NotFound => return None,
            CategoryStep::Next { address: next } => address = next,
        }
    }
}

#[test]
fn categories_are_found_by_walking_their_headers() {
    // Strings, three words; sync managers, two words; FMMUs, one word; end.
    let words = [10, 3, 1, 2, 3, 41, 2, 4, 5, 40, 1, 6, CATEGORY_END, 0];
    assert_eq!(search(&words, CategoryType::Strings), Some(SiiCategory { start: 0x42, len_words: 3 }));
    assert_eq!(
        search(&words, CategoryType::SyncManager),
        Some(SiiCategory { start: 0x47, len_words: 2 })
    );
    assert_eq!(search(&words, CategoryType::Fmmu), Some(SiiCategory { start: 0x4b, len_words: 1 }));
    assert_eq!(search(&words, CategoryType::TxPdo), None);
}

#[test]
fn search_steps_over_other_categories() {
    let eeprom = Eeprom::new(0x1001);
    assert_eq!(
        eeprom.find_category(0x0040, &[30, 0, 0x10, 0], CategoryType::RxPdo),
        CategoryStep::Next { address: 0x0052 }
    );
    assert_eq!(
        eeprom.find_category(0x0040, &[51, 0, 0x10, 0x01], CategoryType::RxPdo),
        CategoryStep::Found(SiiCategory { start: 0x0042, len_words: 0x0110 })
    );
    assert_eq!(
        eeprom.find_category(0x0040, &[50, 0, 0, 0, 9, 9], CategoryType::TxPdo),
        CategoryStep::Found(SiiCategory { start: 0x0042, len_words: 0 })
    );
}

#[test]
fn search_ends_at_the_end_marker_and_at_the_end_of_the_address_space() {
    let eeprom = Eeprom::new(0x1001);
    assert_eq!(
        eeprom.find_category(0x0100, &[0xff, 0xff, 0, 0], CategoryType::General),
        CategoryStep::NotFound
    );
    assert_eq!(
        eeprom.find_category(0x0100, &[30, 0, 0], CategoryType::General),
        CategoryStep::NotFound
    );
    assert_eq!(
        eeprom.find_category(0xfffe, &[30, 0, 1, 0], CategoryType::General),
        CategoryStep::NotFound
    );
    assert_eq!(
        eeprom.find_category(0xfffd, &[30, 0, 1, 0], CategoryType::General),
        CategoryStep::Found(SiiCategory { start: 0xffff, len_words: 1 })
    );
    assert_eq!(
        eeprom.find_category(0xfff0, &[40, 0, 0x0e, 0], CategoryType::General),
        CategoryStep::NotFound
    );
    assert_eq!(
        eeprom.find_category(0xfff0, &[40, 0, 0x0d, 0], CategoryType::General),
        CategoryStep::Next { address: 0xffff }
    );
}

#[test]
fn category_types_have_their_numbers() {
    let codes: Vec<u16> = [
        CategoryType::Strings,
        CategoryType::General,
        CategoryType::Fmmu,
        CategoryType::SyncManager,
        CategoryType::FmmuExtended,
        CategoryType::TxPdo,
        CategoryType::RxPdo,
    ]
    .iter()
    .map(|category| category.code())
    .collect();
    assert_eq!(codes, vec![10, 30, 40, 41, 42, 50, 51]);
}

#[test]
fn eeprom_is_read_by_word_address() {
    let eeprom = Eeprom::new(0x1001);
    assert_eq!(eeprom.read_request(0x0040), vec![0x00, 0x01, 0x40, 0x00, 0x00, 0x00]);
    assert_eq!(eeprom.read_request(0x1234), vec![0x00, 0x01, 0x34, 0x12, 0x00, 0x00]);
    assert!(eeprom.is_busy(&[0x00, 0x80]));
    assert!(eeprom.is_busy(&[0x00, 0x81]));
    assert!(!eeprom.is_busy(&[0xff, 0x7f]));
    assert!(!eeprom.is_busy(&[0x80]));
}

#[test]
fn first_string_has_the_length_that_follows_the_count() {
    let eeprom = Eeprom::new(0x1001);
    assert_eq!(eeprom.first_string_len(&[3, 6]), Some(6));
    assert_eq!(eeprom.first_string_len(&[1, 0, 9]), Some(0));
    assert_eq!(eeprom.first_string_len(&[1, 255]), Some(255));
    assert_eq!(eeprom.first_string_len(&[0, 6]), None);
    assert_eq!(eeprom.first_string_len(&[3]), None);
    assert_eq!(eeprom.first_string_len(&[]), None);
}
