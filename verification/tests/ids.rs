use graphics::component::id::{Id, IdInteractor, IdRepository};
use graphics::driver::uuid_driver::{id_from_random_bytes, u128_from_le_bytes, UuidRepository};

fn is_v4(id: Id) -> bool {
    (id.id >> 52) & 0xf == 4 && (id.id >> 70) & 0x3 == 2
}

#[test]
fn uuid_repository_gives_version_4_ids() {
    let repository = UuidRepository;
    for _ in 0..100 {
        assert!(is_v4(repository.generate().unwrap()));
    }
}

#[test]
fn interactor_gives_version_4_ids() {
    let id_repository = UuidRepository {};
    let id_interactor = IdInteractor { id_repository };
    let id = id_interactor.generate().unwrap();
    assert!(is_v4(id));
}

#[test]
fn interactor_ids_differ() {
    let id_interactor = IdInteractor { id_repository: UuidRepository };
    let a = id_interactor.generate().unwrap();
    let b = id_interactor.generate().unwrap();
    assert_ne!(a, b);
}

#[test]
fn le_bytes_small_values() {
    assert_eq!(u128_from_le_bytes([1, 2, 0, 0, 0, 0, 0, 0, 0, 0, 0, 0, 0, 0, 0, 0]), 513);
    assert_eq!(u128_from_le_bytes([0; 16]), 0);
    assert_eq!(u128_from_le_bytes([0xff; 16]), u128::MAX);
}

#[test]
fn le_bytes_most_significant_last() {
    let mut bytes = [0u8; 16];
    bytes[15] = 0x80;
    assert_eq!(u128_from_le_bytes(bytes), 1u128 << 127);
}

#[test]
fn le_bytes_agree_with_std() {
    let bytes = [
        0x12, 0x34, 0x56, 0x78, 0x9a, 0xbc, 0x4d, 0xef, 0x8f, 0xed, 0xcb, 0xa9, 0x87, 0x65, 0x43, 0x21,
    ];
    let v = u128_from_le_bytes(bytes);
    assert_eq!(v, u128::from_le_bytes(bytes));
    assert!(is_v4(Id { id: v }));
}

#[test]
fn ids_compare_by_value() {
    let a = Id { id: 3 };
    let b = Id { id: 5 };
    assert!(a < b);
    assert_eq!(a, Id { id: 3 });
    assert_eq!(format!("{:?}", a), "Id { id: 3 }");
}

#[test]
fn id_from_zero_bytes_has_only_version_and_variant() {
    let id = id_from_random_bytes([0; 16]);
    assert_eq!(id.id, (0x40u128 << 48) | (0x80u128 << 64));
    assert!(is_v4(id));
}

#[test]
fn id_from_random_bytes_keeps_the_other_bits() {
    let random = [
        0x12, 0x34, 0x56, 0x78, 0x9a, 0xbc, 0xde, 0xf0, 0xff, 0xed, 0xcb, 0xa9, 0x87, 0x65, 0x43, 0x21,
    ];
    let id = id_from_random_bytes(random);
    let mut expected = random;
    expected[6] = 0x4e;
    expected[8] = 0xbf;
    assert_eq!(id.id, u128::from_le_bytes(expected));
    assert_eq!(id.id, uuid::Builder::from_random_bytes(random).into_uuid().to_u128_le());
}

#[test]
fn version_bits_do_not_change_the_id() {
    let mut a = [7u8; 16];
    let mut b = [7u8; 16];
    a[6] = 0x05;
    b[6] = 0xf5;
    a[8] = 0x11;
    b[8] = 0xd1;
    assert_eq!(id_from_random_bytes(a), id_from_random_bytes(b));
    b[3] = 8;
    assert_ne!(id_from_random_bytes(a), id_from_random_bytes(b));
    let mut c = a;
    c[6] = 0x06;
    assert_ne!(id_from_random_bytes(a), id_from_random_bytes(c));
}
