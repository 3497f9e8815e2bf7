use erc721_substream::block::StorageChange;
use erc721_substream::creations::replay;
use erc721_substream::storage::Storage;

fn key(last: u8) -> [u8; 32] {
    let mut key = [0u8; 32];
    key[31] = last;
    key
}

#[test]
fn nothing_is_stored_at_first() {
    assert!(Storage::new().get(&key(0)).is_none());
}

#[test]
fn a_read_gives_back_the_last_write() {
    let mut storage = Storage::new();
    storage.insert(key(1), vec![1]);
    storage.insert(key(2), vec![2, 2]);
    storage.insert(key(1), vec![3, 3, 3]);
    assert_eq!(storage.get(&key(1)), Some(&vec![3, 3, 3]));
    assert_eq!(storage.get(&key(2)), Some(&vec![2, 2]));
    assert_eq!(storage.get(&key(3)), None);
}

#[test]
fn the_last_change_of_a_slot_stays() {
    let changes = vec![
        StorageChange { key: key(1).to_vec(), new_value: vec![1; 32] },
        StorageChange { key: key(2).to_vec(), new_value: vec![2; 32] },
        StorageChange { key: key(1).to_vec(), new_value: vec![3; 32] },
    ];
    let storage = replay(&changes);
    assert_eq!(storage.get(&key(1)), Some(&vec![3; 32]));
    assert_eq!(storage.get(&key(2)), Some(&vec![2; 32]));
    assert_eq!(storage.get(&key(4)), None);
}
