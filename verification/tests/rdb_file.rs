use redis_starter_rust::rdb_file::{get_empty_rdb_decoded, is_rdb, EMPTY_RDB};

#[test]
fn empty_rdb_decodes_to_an_image_that_opens_with_redis() {
    let image = get_empty_rdb_decoded().unwrap();
    assert_eq!(image.len(), 88);
    assert_eq!(&image[..9], b"REDIS0011");
    assert_eq!(image[image.len() - 1], 0xa2);
    assert!(is_rdb(&image));
    assert_ne!(image, EMPTY_RDB.as_bytes().to_vec());
}

#[test]
fn is_rdb_checks_the_first_five_bytes() {
    assert!(is_rdb(b"REDIS"));
    assert!(is_rdb(b"REDIS0011"));
    assert!(!is_rdb(b"REDI"));
    assert!(!is_rdb(b""));
    assert!(!is_rdb(b"redis0011"));
    assert!(!is_rdb(b"REDIX0011"));
    assert!(!is_rdb(b"XEDIS0011"));
}
