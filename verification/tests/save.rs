use virtual_picross::save::{time_offset, Fletcher, SaveData, TIMES_LEN, TIMES_OFFSET};

#[test]
fn fletcher_of_nothing() {
    assert_eq!(Fletcher::new().finish(), 0);
}

#[test]
fn fletcher_of_two_bytes() {
    let mut fletcher = Fletcher::new();
    fletcher.add(1);
    fletcher.add(2);
    assert_eq!(fletcher.finish(), 0x0403);
}

#[test]
fn fletcher_wraps_at_255() {
    let mut fletcher = Fletcher::new();
    fletcher.add(255);
    assert_eq!(fletcher.finish(), 0);
    let mut fletcher = Fletcher::new();
    fletcher.add(254);
    fletcher.add(3);
    assert_eq!(fletcher.finish(), (1 << 8) | 2);
}

#[test]
fn fletcher_add_many_is_repeated_add() {
    let bytes = [7u8, 200, 0, 255, 13, 99];
    let mut one = Fletcher::new();
    for byte in bytes {
        one.add(byte);
    }
    let mut many = Fletcher::new();
    many.add_many(&bytes[..2]);
    many.add_many(&bytes[2..]);
    assert_eq!(one.finish(), many.finish());
    let mut sums = Fletcher::new();
    sums.add_many(&bytes);
    assert_eq!(sums.finish(), (147 << 8) | 64);
}

#[test]
fn load_of_blank_memory() {
    let (data, intact) = SaveData::load(&[0; TIMES_LEN], 0);
    assert!(intact);
    assert!(data.times.iter().all(|time| time.is_none()));
}

#[test]
fn load_reads_times() {
    let mut bytes = [0u8; TIMES_LEN];
    bytes[0] = 100;
    bytes[4..8].copy_from_slice(&0x01020304u32.to_le_bytes());
    bytes[116..120].copy_from_slice(&u32::MAX.to_le_bytes());
    let mut fletcher = Fletcher::new();
    fletcher.add_many(&bytes);
    let (data, intact) = SaveData::load(&bytes, fletcher.finish());
    assert!(intact);
    assert_eq!(data.times[0], Some(100));
    assert_eq!(data.times[1], Some(0x01020304));
    assert_eq!(data.times[2], None);
    assert_eq!(data.times[29], Some(u32::MAX));
}

#[test]
fn load_rejects_a_wrong_checksum() {
    let mut bytes = [0u8; TIMES_LEN];
    bytes[0] = 100;
    let (data, intact) = SaveData::load(&bytes, 0);
    assert!(!intact);
    assert!(data.times.iter().all(|time| time.is_none()));
    let (data, intact) = SaveData::load(&bytes, 3940);
    assert!(intact);
    assert_eq!(data.times[0], Some(100));
}

#[test]
fn save_time_returns_the_checksum() {
    let (mut data, _) = SaveData::load(&[0; TIMES_LEN], 0);
    assert_eq!(data.save_time(0, 100), 3940);
    assert_eq!(data.times[0], Some(100));
    assert_eq!(data.times[1], None);
}

#[test]
fn saved_times_load_again() {
    let (mut data, _) = SaveData::load(&[0; TIMES_LEN], 0);
    let mut bytes = [0u8; TIMES_LEN];
    let mut sum = 0;
    for (index, time) in [(3usize, 1234u32), (29, 50), (3, 77), (0, 1 << 31)] {
        sum = data.save_time(index, time);
        let at = time_offset(index) - TIMES_OFFSET;
        bytes[at..at + 4].copy_from_slice(&time.to_le_bytes());
    }
    let (again, intact) = SaveData::load(&bytes, sum);
    assert!(intact);
    assert_eq!(again.times, data.times);
    assert_eq!(again.times[3], Some(77));
    assert_eq!(again.times[29], Some(50));
    assert_eq!(again.times[0], Some(1 << 31));
    assert_eq!(again.times[1], None);
}

#[test]
fn times_lie_behind_the_checksum() {
    assert_eq!(TIMES_OFFSET, 256);
    assert_eq!(TIMES_LEN, 120);
    assert_eq!(time_offset(0), 256);
    assert_eq!(time_offset(29), 372);
}
