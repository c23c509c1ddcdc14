use ethcore_client::blocks::{read_parent_hash, read_state_root};
use ethcore_client::rlp::{check_list, copy_item, list_of_two, locate, locate_string};
use ethcore_client::types::H256;

/// The encoding of a string of `n` bytes, all 0x61, for n of at least 56.
fn long_string(n: usize) -> Vec<u8> {
    let mut bytes = if n < 256 {
        vec![0xb8, n as u8]
    } else {
        vec![0xb9, (n / 256) as u8, (n % 256) as u8]
    };
    bytes.extend(vec![0x61; n]);
    bytes
}

/// The list of `items`, whose payload takes at least 256 bytes.
fn long_list(items: &[Vec<u8>]) -> Vec<u8> {
    let payload: Vec<u8> = items.concat();
    let mut bytes = vec![0xf9, (payload.len() / 256) as u8, (payload.len() % 256) as u8];
    bytes.extend(payload);
    bytes
}

#[test]
fn items_of_a_short_list() {
    // The list of "cat", the empty list and the byte 5.
    let bytes = vec![0xc6, 0x83, 0x63, 0x61, 0x74, 0xc0, 0x05];
    assert_eq!(copy_item(&bytes, 0), vec![0x83, 0x63, 0x61, 0x74]);
    assert_eq!(copy_item(&bytes, 1), vec![0xc0]);
    assert_eq!(copy_item(&bytes, 2), vec![0x05]);
    assert!(check_list(&bytes, 3));
    assert!(!check_list(&bytes, 4));
}

#[test]
fn items_of_a_long_list() {
    let items = [long_string(60), long_string(300), vec![0xc0]];
    let bytes = long_list(&items);
    for i in 0..3 {
        assert_eq!(copy_item(&bytes, i), items[i]);
    }
    let span = locate(&bytes, 1).unwrap();
    assert_eq!((span.start, span.end), (65, 368));
}

#[test]
fn short_list_of_two_items() {
    let bytes = vec![0xc6, 0x83, 0x63, 0x61, 0x74, 0xc0, 0x05];
    assert_eq!(list_of_two(&bytes, 0, 2), vec![0xc5, 0x83, 0x63, 0x61, 0x74, 0x05]);
    assert_eq!(list_of_two(&bytes, 1, 2), vec![0xc2, 0xc0, 0x05]);
}

#[test]
fn list_header_grows_with_the_payload() {
    // Items of one byte and of 54 bytes: a payload of 55 bytes.
    let mut short = vec![0xf8, 0x38, 0x01, 0x02];
    short.push(0x80 + 53);
    short.extend(vec![0x61; 53]);
    let list = list_of_two(&short, 1, 2);
    assert_eq!(list.len(), 56);
    assert_eq!(list[0], 0xc0 + 55);
    // Items of one byte and of 55 bytes: a payload of 56 bytes.
    let mut long = vec![0xf8, 0x39, 0x01, 0x02];
    long.push(0x80 + 54);
    long.extend(vec![0x61; 54]);
    let list = list_of_two(&long, 1, 2);
    assert_eq!(list.len(), 58);
    assert_eq!(list[0..2], [0xf8, 56]);
}

#[test]
fn list_of_two_long_items_gives_them_back() {
    let items = [vec![0x01], long_string(60), long_string(300)];
    let bytes = long_list(&items);
    let list = list_of_two(&bytes, 1, 2);
    assert_eq!(list[0..3], [0xf9, 0x01, 0x6d]);
    assert_eq!(list.len(), 3 + 62 + 303);
    assert_eq!(copy_item(&list, 0), items[1]);
    assert_eq!(copy_item(&list, 1), items[2]);
}

#[test]
fn broken_lists_are_recognised() {
    assert!(!check_list(&vec![], 1));
    // A string is no list.
    assert!(!check_list(&vec![0x82, 0x01, 0x02], 1));
    // The list is cut short.
    assert!(!check_list(&vec![0xc3, 0x01, 0x02], 1));
    // An item reaches beyond the list.
    assert!(!check_list(&vec![0xc2, 0x82, 0x01, 0x02], 1));
    // The length of an item reaches beyond the list.
    assert!(!check_list(&vec![0xc1, 0xb8, 0x01], 1));
    // The length of the list does not fit the machine.
    assert!(!check_list(&vec![0xff, 0xff, 0xff, 0xff, 0xff, 0xff, 0xff, 0xff, 0xff], 1));
    // What follows the list does not matter.
    assert!(check_list(&vec![0xc1, 0x01, 0x02], 1));
    assert!(!check_list(&vec![0xc1, 0x01, 0x02], 2));
    assert!(locate(&vec![0xc0], 0).is_none());
}

#[test]
fn strings_are_found_by_their_length() {
    let bytes = vec![0xc7, 0x83, 0x63, 0x61, 0x74, 0xc1, 0x05, 0x07];
    let span = locate_string(&bytes, 0, 3).unwrap();
    assert_eq!(bytes[span.start..span.end], [0x63, 0x61, 0x74]);
    // Another length.
    assert!(locate_string(&bytes, 0, 2).is_none());
    // A list.
    assert!(locate_string(&bytes, 1, 1).is_none());
    // A single byte is its own encoding.
    let span = locate_string(&bytes, 2, 1).unwrap();
    assert_eq!((span.start, span.end), (7, 8));
    // No such item.
    assert!(locate_string(&bytes, 3, 1).is_none());
}

#[test]
fn hashes_are_read_from_the_header() {
    let mut header: Vec<u8> = vec![0xa0];
    header.extend(1..=32);
    let mut block = vec![0xe4, 0xe1];
    block.extend(header);
    block.extend([0xc0, 0xc0]);
    let parent = H256 {
        hi: 0x0102_0304_0506_0708_090a_0b0c_0d0e_0f10,
        lo: 0x1112_1314_1516_1718_191a_1b1c_1d1e_1f20,
    };
    assert_eq!(read_parent_hash(&block), Some(parent));
    // The header has one item only.
    assert_eq!(read_state_root(&block), None);
    // The bytes of a hash are told apart.
    block[34] = 0x21;
    assert_eq!(read_parent_hash(&block), Some(H256 { lo: parent.lo + 1, ..parent }));
}

#[test]
fn hashes_of_other_lengths_are_not_read() {
    // A header that is no list.
    assert_eq!(read_parent_hash(&vec![0xc6, 0x82, 0xaa, 0xbb, 0xc0, 0xc1, 0x05]), None);
    // A parent hash of two bytes.
    assert_eq!(read_parent_hash(&vec![0xc6, 0xc3, 0x82, 0xaa, 0xbb, 0xc0, 0xc0]), None);
    // No block at all.
    assert_eq!(read_parent_hash(&vec![]), None);
    assert_eq!(read_state_root(&vec![]), None);
}
