use syb_tracker::upgrade::{can_upgrade, upgrade, upgrade_v1, upgrade_v2};

fn channel_table() -> Vec<u8> {
    let mut t = vec![];
    for _ in 0..6 {
        t.extend([0u8, 1, 255, 1]);
    }
    for _ in 0..2 {
        t.extend([0u8, 2, 74, 1, 0, 3, 74, 1]);
    }
    for _ in 0..4 {
        t.extend([0u8, 4, 191, 1]);
    }
    t
}

#[test]
fn upgrade_v1_inserts_speed_and_section_height() {
    assert_eq!(upgrade_v1(vec![0, 14, 1, 2, 3]), vec![1, 14, 8, 4, 1, 2, 3]);
    assert_eq!(upgrade_v1(vec![0, 3]), vec![1, 3, 8, 4]);
}

#[test]
fn upgrade_v2_inserts_the_channel_table() {
    let mut expected = vec![2u8, 14, 8, 4];
    expected.extend(channel_table());
    expected.extend([0u8, 7]);
    assert_eq!(upgrade_v2(vec![1, 14, 8, 4, 0, 7]), expected);
    assert_eq!(channel_table().len(), 56);
}

#[test]
fn upgrade_brings_every_version_to_two() {
    let v2 = vec![2u8, 0, 8, 4];
    assert_eq!(upgrade(v2.clone()), v2);
    let from_v1 = upgrade(vec![1, 14, 5, 6]);
    let from_v0 = upgrade(vec![0, 14]);
    assert_eq!(from_v1[0], 2);
    assert_eq!(from_v0[0], 2);
    assert_eq!(&from_v0[..4], &[2, 14, 8, 4]);
    assert_eq!(upgrade(from_v1.clone()), from_v1);
    assert_eq!(upgrade(from_v0.clone()), from_v0);
}

#[test]
fn can_upgrade_says_which_files_upgrade_accepts() {
    assert!(can_upgrade(&[2]));
    assert!(can_upgrade(&[1, 14, 0, 0]));
    assert!(can_upgrade(&[0, 14]));
    assert!(!can_upgrade(&[]));
    assert!(!can_upgrade(&[3]));
    assert!(!can_upgrade(&[1, 14, 0]));
    assert!(!can_upgrade(&[1, 13, 0, 0]));
    assert!(!can_upgrade(&[0, 12]));
    assert!(!can_upgrade(&[0]));
}
