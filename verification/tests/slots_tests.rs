use dsr_save::error::FormatError;
use dsr_save::slots::slot_occupancy;

const DIRECTORY_LEN: usize = 192 + 400 * 9 + 26;

fn directory(occupied: &[(usize, &str)]) -> Vec<u8> {
    let mut p = vec![0u8; DIRECTORY_LEN];
    for (i, name) in occupied {
        p[176 + i] = 1;
        let at = 192 + 400 * i;
        for (k, u) in name.encode_utf16().enumerate() {
            p[at + 2 * k] = (u & 0xff) as u8;
            p[at + 2 * k + 1] = (u >> 8) as u8;
        }
    }
    p
}

#[test]
fn occupancy_has_exactly_the_marked_slots() {
    let p = directory(&[(2, "Two"), (5, "Five"), (7, "Seven")]);
    let names = slot_occupancy(&p).unwrap();
    let mut keys: Vec<usize> = names.keys().copied().collect();
    keys.sort();
    assert_eq!(keys, vec![2, 5, 7]);
    assert_eq!(names[&2], "Two");
    assert_eq!(names[&5], "Five");
    assert_eq!(names[&7], "Seven");
    assert!(names.get(&0).is_none());
    assert!(names.get(&10).is_none());
}

#[test]
fn occupancy_of_an_unused_directory_is_empty() {
    let names = slot_occupancy(&vec![0u8; DIRECTORY_LEN]).unwrap();
    assert!(names.is_empty());
}

#[test]
fn occupancy_of_a_full_directory() {
    let all: Vec<(usize, String)> = (0..10).map(|i| (i, format!("Knight{}", i))).collect();
    let refs: Vec<(usize, &str)> = all.iter().map(|(i, n)| (*i, n.as_str())).collect();
    let names = slot_occupancy(&directory(&refs)).unwrap();
    assert_eq!(names.len(), 10);
    for i in 0..10 {
        assert_eq!(names[&i], format!("Knight{}", i));
    }
}

#[test]
fn any_non_zero_byte_marks_a_slot() {
    let mut p = directory(&[]);
    p[176 + 3] = 0xff;
    p[176 + 4] = 0x80;
    let names = slot_occupancy(&p).unwrap();
    assert_eq!(names.len(), 2);
    assert_eq!(names[&3], "");
    assert_eq!(names[&4], "");
}

#[test]
fn bytes_behind_the_bitmap_mark_nothing() {
    let mut p = directory(&[]);
    p[186] = 1;
    p[175] = 1;
    assert!(slot_occupancy(&p).unwrap().is_empty());
}

#[test]
fn names_of_unused_slots_are_not_read() {
    let mut p = directory(&[(1, "Used")]);
    // a lone surrogate in the name field of a slot that is not in use
    p[192 + 400 * 6 + 1] = 0xd8;
    let names = slot_occupancy(&p).unwrap();
    assert_eq!(names.len(), 1);
    assert_eq!(names[&1], "Used");
}

#[test]
fn slot_name_fills_thirteen_units() {
    let p = directory(&[(9, "ThirteenChars")]);
    let names = slot_occupancy(&p).unwrap();
    assert_eq!(names[&9], "ThirteenChars");
}

#[test]
fn slot_name_stops_at_the_field_end() {
    let mut p = directory(&[(0, "ThirteenChars")]);
    p[192 + 26] = b'X';
    assert_eq!(slot_occupancy(&p).unwrap()[&0], "ThirteenChars");
}

#[test]
fn short_payload_has_no_directory() {
    assert_eq!(slot_occupancy(&[]).err(), Some(FormatError::Truncated));
    assert_eq!(slot_occupancy(&vec![0u8; 185]).err(), Some(FormatError::Truncated));
    assert!(slot_occupancy(&vec![0u8; 186]).unwrap().is_empty());
}

#[test]
fn occupied_slot_outside_the_payload_is_truncation() {
    let mut p = directory(&[(9, "Last")]);
    p.truncate(DIRECTORY_LEN - 1);
    assert_eq!(slot_occupancy(&p).err(), Some(FormatError::Truncated));
    let mut q = directory(&[(8, "Eighth")]);
    q.truncate(DIRECTORY_LEN - 1);
    assert_eq!(slot_occupancy(&q).unwrap()[&8], "Eighth");
}

#[test]
fn bad_slot_name_is_reported_with_its_index() {
    let mut p = directory(&[(2, "Two"), (5, "Five")]);
    p[192 + 400 * 5] = 0x00;
    p[192 + 400 * 5 + 1] = 0xdc;
    assert_eq!(slot_occupancy(&p).err(), Some(FormatError::BadName(5)));
}

#[test]
fn the_first_slot_at_fault_decides() {
    let mut p = directory(&[(1, "One"), (4, "Four"), (9, "Nine")]);
    p[192 + 400 * 4 + 1] = 0xdc;
    p.truncate(DIRECTORY_LEN - 1);
    assert_eq!(slot_occupancy(&p).err(), Some(FormatError::BadName(4)));
}
