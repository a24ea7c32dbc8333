use ethercrab::eeprom::reader::{EepromSectionReader, Progress};
use ethercrab::eeprom::types::SiiCategory;
use ethercrab::eeprom::Eeprom;
use ethercrab::error::Error;

/// An EEPROM whose byte at position `p` is `p` modulo 251.
fn chunk(address: u16, len: usize) -> Vec<u8> {
    (0..len).map(|i| ((address as usize * 2 + i) % 251) as u8).collect()
}

fn reader(start: u16, len_words: u16) -> EepromSectionReader {
    EepromSectionReader::new(&Eeprom::new(0x1001), SiiCategory { start, len_words })
}

/// Runs `next` to its end, reading chunks of `chunk_len` bytes on request.
fn next(reader: &mut EepromSectionReader, chunk_len: usize, reads: &mut Vec<u16>) -> Option<u8> {
    loop {
        match reader.next() {
            Progress::Done(byte) => return byte,
            Progress::NeedsData { address, .. } => {
                reads.push(address);
                reader.fill(&chunk(address, chunk_len)).unwrap();
            }
        }
    }
}

fn take_n(
    reader: &mut EepromSectionReader,
    len: usize,
    capacity: usize,
) -> Result<Option<Vec<u8>>, Error> {
    let mut partial = Vec::new();
    loop {
        match reader.take_n_vec(partial, len, capacity) {
            Progress::Done(result) => return result,
            Progress::NeedsData { address, pending } => {
                reader.fill(&chunk(address, 8)).unwrap();
                partial = pending;
            }
        }
    }
}

fn take_n_exact(
    reader: &mut EepromSectionReader,
    len: usize,
    capacity: usize,
) -> Result<Vec<u8>, Error> {
    let mut partial = Vec::new();
    loop {
        match reader.take_n_vec_exact(partial, len, capacity) {
            Progress::Done(result) => return result,
            Progress::NeedsData { address, pending } => {
                reader.fill(&chunk(address, 8)).unwrap();
                partial = pending;
            }
        }
    }
}

#[test]
fn reader_asks_for_data_at_the_start_of_the_category() {
    let mut reader = reader(0x0040, 4);
    assert_eq!(reader.configured_address(), 0x1001);
    match reader.next() {
        Progress::NeedsData { address, .. } => assert_eq!(address, 0x0040),
        Progress::Done(_) => panic!("the buffer is empty"),
    }
}

#[test]
fn next_hands_out_the_bytes_of_the_category_and_then_none() {
    let mut reader = reader(0x0040, 5);
    let mut reads = Vec::new();
    let mut bytes = Vec::new();
    for _ in 0..10 {
        bytes.push(next(&mut reader, 8, &mut reads).unwrap());
    }
    assert_eq!(bytes, chunk(0x0040, 10));
    // Ten bytes are ten bytes: the category has ended, though the buffer holds more.
    assert_eq!(next(&mut reader, 8, &mut reads), None);
    assert_eq!(next(&mut reader, 8, &mut reads), None);
    // Two reads of four words each.
    assert_eq!(reads, vec![0x0040, 0x0044]);
    for _ in 0..20 {
        assert_eq!(next(&mut reader, 8, &mut reads), None);
    }
}

#[test]
fn reader_follows_the_chunk_size_of_the_device() {
    let mut reader = reader(0x0010, 4);
    let mut reads = Vec::new();
    let mut bytes = Vec::new();
    while let Some(byte) = next(&mut reader, 4, &mut reads) {
        bytes.push(byte);
    }
    assert_eq!(bytes, chunk(0x0010, 8));
    // Two words per read.
    assert_eq!(&reads[..2], &[0x0010, 0x0012]);
}

#[test]
fn empty_category_has_no_byte() {
    let mut reader = reader(0x0040, 0);
    let mut reads = Vec::new();
    assert_eq!(next(&mut reader, 8, &mut reads), None);
    assert_eq!(take_n(&mut reader, 0, 4), Ok(Some(vec![])));
    assert_eq!(take_n(&mut reader, 1, 4), Ok(None));
}

#[test]
fn take_collects_across_reads() {
    let mut reader = reader(0x0040, 16);
    assert_eq!(take_n(&mut reader, 3, 16), Ok(Some(chunk(0x0040, 3))));
    let next_twelve: Vec<u8> = chunk(0x0040, 15)[3..].to_vec();
    assert_eq!(take_n(&mut reader, 12, 16), Ok(Some(next_twelve)));
    assert_eq!(take_n(&mut reader, 0, 0), Ok(Some(vec![])));
}

#[test]
fn take_exact_after_the_end_of_the_category_underruns() {
    let mut reader = reader(0x0040, 3);
    assert_eq!(take_n_exact(&mut reader, 6, 8), Ok(chunk(0x0040, 6)));
    assert_eq!(take_n_exact(&mut reader, 1, 8), Err(Error::EepromSectionUnderrun));
    assert_eq!(take_n_exact(&mut reader, 4, 8), Err(Error::EepromSectionUnderrun));
    assert_eq!(take_n(&mut reader, 1, 8), Ok(None));
    let mut reads = Vec::new();
    assert_eq!(next(&mut reader, 8, &mut reads), None);
}

#[test]
fn take_exact_across_the_end_of_the_category_underruns() {
    let mut reader = reader(0x0040, 3);
    assert_eq!(take_n_exact(&mut reader, 4, 8), Ok(chunk(0x0040, 4)));
    // Two bytes are left, three are asked for.
    assert_eq!(take_n_exact(&mut reader, 3, 8), Err(Error::EepromSectionUnderrun));
}

#[test]
fn take_into_a_buffer_that_is_too_small_overruns() {
    let mut reader = reader(0x0040, 16);
    assert_eq!(take_n(&mut reader, 5, 4), Err(Error::EepromSectionOverrun));
    assert_eq!(take_n_exact(&mut reader, 1, 0), Err(Error::EepromSectionOverrun));
}

#[test]
fn take_vec_fills_the_whole_buffer() {
    let mut reader = reader(0x0000, 8);
    let mut partial = Vec::new();
    let taken = loop {
        match reader.take_vec(partial, 6) {
            Progress::Done(result) => break result,
            Progress::NeedsData { address, pending } => {
                reader.fill(&chunk(address, 8)).unwrap();
                partial = pending;
            }
        }
    };
    assert_eq!(taken, Ok(Some(chunk(0, 6))));
    let mut partial = Vec::new();
    let exact = loop {
        match reader.take_vec_exact(partial, 12) {
            Progress::Done(result) => break result,
            Progress::NeedsData { address, pending } => {
                reader.fill(&chunk(address, 8)).unwrap();
                partial = pending;
            }
        }
    };
    // Ten bytes are left of sixteen.
    assert_eq!(exact, Err(Error::EepromSectionUnderrun));
}

#[test]
fn request_for_data_hands_back_what_was_collected() {
    let mut reader = reader(0x0040, 16);
    reader.fill(&chunk(0x0040, 8)).unwrap();
    match reader.take_n_vec(vec![], 10, 16) {
        Progress::NeedsData { address, pending } => {
            assert_eq!(address, 0x0044);
            assert_eq!(pending, chunk(0x0040, 8));
        }
        Progress::Done(_) => panic!("eight bytes are not ten"),
    }
}

#[test]
fn skip_passes_over_bytes() {
    let mut reader = reader(0x0040, 16);
    let mut left = 11u16;
    loop {
        match reader.skip(left) {
            Progress::Done(()) => break,
            Progress::NeedsData { address, pending } => {
                reader.fill(&chunk(address, 8)).unwrap();
                left = pending;
            }
        }
    }
    assert_eq!(take_n(&mut reader, 2, 2), Ok(Some(chunk(0x0040, 13)[11..].to_vec())));
}

#[test]
fn try_next_fails_at_the_end_of_the_category() {
    let mut reader = reader(0x0040, 1);
    reader.fill(&chunk(0x0040, 8)).unwrap();
    assert!(matches!(reader.try_next(), Progress::Done(Ok(0x80))));
    assert!(matches!(reader.try_next(), Progress::Done(Ok(0x81))));
    assert!(matches!(reader.try_next(), Progress::Done(Err(Error::EepromSectionOverrun))));
}

#[test]
fn buffer_holds_eight_bytes() {
    let mut reader = reader(0x0040, 16);
    assert_eq!(reader.fill(&[1, 2, 3, 4, 5, 6, 7, 8, 9]), Err(Error::EepromSectionOverrun));
    // The buffer took what it had room for.
    let mut got = Vec::new();
    while let Progress::Done(Some(byte)) = reader.next() {
        got.push(byte);
    }
    assert_eq!(got, vec![1, 2, 3, 4, 5, 6, 7, 8]);
    // The address has not moved.
    assert!(matches!(reader.next(), Progress::NeedsData { address: 0x0040, .. }));
    assert_eq!(reader.fill(&[1, 2, 3, 4, 5, 6, 7, 8]), Ok(()));
    assert_eq!(reader.fill(&[9]), Err(Error::EepromSectionOverrun));
}

#[test]
fn word_address_wraps_at_sixteen_bits() {
    let mut reader = reader(0xfffe, 8);
    reader.fill(&[0; 8]).unwrap();
    for _ in 0..8 {
        assert!(matches!(reader.next(), Progress::Done(Some(0))));
    }
    assert!(matches!(reader.next(), Progress::NeedsData { address: 0x0002, .. }));
}

#[test]
fn address_moves_by_the_words_of_each_chunk() {
    let mut reader = reader(0x0040, 16);
    reader.fill(&[1, 2, 3, 4]).unwrap();
    reader.fill(&[5, 6]).unwrap();
    reader.fill(&[7]).unwrap();
    let mut got = Vec::new();
    while let Progress::Done(Some(byte)) = reader.next() {
        got.push(byte);
    }
    assert_eq!(got, vec![1, 2, 3, 4, 5, 6, 7]);
    // Two words, one word, and no whole word.
    assert!(matches!(reader.next(), Progress::NeedsData { address: 0x0043, .. }));
}
