use sqlite_dataset_manager::ip::{ip_form_vec8, ip_to_vec8, Ip};

#[test]
fn test_ip_conversion() {
    let ip100 = Ip::V4(100);
    let arry = ip_to_vec8(&ip100);
    let ip100_2 = ip_form_vec8(&arry).unwrap();
    assert_eq!(ip100, ip100_2);
    let ip100 = Ip::V6(1234567);
    let arry = ip_to_vec8(&ip100);
    let ip100_2 = ip_form_vec8(&arry).unwrap();
    assert_eq!(ip100, ip100_2);
}

#[test]
fn v4_encoding_is_low_byte_first() {
    assert_eq!(ip_to_vec8(&Ip::V4(0x0102_0304)), vec![4u8, 3, 2, 1]);
    assert_eq!(ip_form_vec8(&vec![4u8, 3, 2, 1]), Ok(Ip::V4(0x0102_0304)));
}

#[test]
fn v6_encoding_is_low_byte_first() {
    let b = ip_to_vec8(&Ip::V6(0x0102));
    assert_eq!(b.len(), 16);
    assert_eq!(b[0], 2);
    assert_eq!(b[1], 1);
    assert!(b[2..].iter().all(|x| *x == 0));
}

#[test]
fn v4_round_trip_samples() {
    let mut x: u32 = 0;
    for _ in 0..20000 {
        let ip = Ip::V4(x);
        assert_eq!(ip_form_vec8(&ip_to_vec8(&ip)), Ok(ip));
        x = x.wrapping_mul(2654435761).wrapping_add(40503);
    }
    for v in [0u32, 1, 0xff, 0x0A00_0000, u32::MAX] {
        assert_eq!(ip_form_vec8(&ip_to_vec8(&Ip::V4(v))), Ok(Ip::V4(v)));
    }
}

#[test]
fn v6_round_trip_samples() {
    let mut x: u128 = 1;
    for _ in 0..20000 {
        let ip = Ip::V6(x);
        assert_eq!(ip_form_vec8(&ip_to_vec8(&ip)), Ok(ip));
        x = x.wrapping_mul(0x2545_F491_4F6C_DD1D_9E37_79B9_7F4A_7C15).wrapping_add(7);
    }
    assert_eq!(ip_form_vec8(&ip_to_vec8(&Ip::V6(u128::MAX))), Ok(Ip::V6(u128::MAX)));
}

#[test]
fn bytes_round_trip() {
    let b: Vec<u8> = (0u8..16).map(|i| i.wrapping_mul(37)).collect();
    let ip = ip_form_vec8(&b).unwrap();
    assert_eq!(ip_to_vec8(&ip), b);
}

#[test]
fn other_lengths_are_rejected() {
    assert_eq!(ip_form_vec8(&vec![]), Err(()));
    assert_eq!(ip_form_vec8(&vec![1, 2, 3]), Err(()));
    assert_eq!(ip_form_vec8(&vec![0; 5]), Err(()));
    assert_eq!(ip_form_vec8(&vec![0; 17]), Err(()));
}
