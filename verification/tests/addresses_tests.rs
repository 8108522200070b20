use north_pole::addresses::{dest, key, v6_dest, v6_key};

#[test]
fn destinations_add_octets_with_wraparound() {
    assert_eq!(dest([10, 0, 0, 0], [1, 2, 3, 255]), [11, 2, 3, 255]);
    assert_eq!(dest([128, 128, 33, 0], [255, 0, 255, 33]), [127, 128, 32, 33]);
    assert_eq!(dest([255, 255, 255, 255], [255, 255, 255, 255]), [254, 254, 254, 254]);
}

#[test]
fn keys_subtract_octets_with_wraparound() {
    assert_eq!(key([10, 0, 0, 0], [11, 2, 3, 255]), [1, 2, 3, 255]);
    assert_eq!(key([128, 128, 33, 0], [127, 128, 32, 33]), [255, 0, 255, 33]);
    // The key recovers what the destination hid.
    let from = [192, 168, 0, 1];
    let k = [13, 37, 42, 99];
    assert_eq!(key(from, dest(from, k)), k);
}

#[test]
fn v6_cipher_is_octet_exclusive_or() {
    let from: [u8; 16] = [0xFE, 0x80, 0, 0, 0, 0, 0, 0, 0, 0, 0, 0, 0, 0, 0, 1];
    let k: [u8; 16] = [0x5F, 0x21, 0x9A, 0x01, 0, 0, 0, 0, 0, 0, 0, 0, 0, 0xFF, 0, 0x77];
    let to = v6_dest(&from, &k);
    assert_eq!(to[0], 0xFE ^ 0x5F);
    assert_eq!(to[15], 1 ^ 0x77);

    // The cipher is its own inverse.
    let to_arr: [u8; 16] = to.as_slice().try_into().unwrap();
    assert_eq!(v6_key(&from, &to_arr), k.to_vec());
}
