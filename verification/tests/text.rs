use kether_internal_services_server::rng::{hex_encode, random_hex_token};
use kether_internal_services_server::text::{
    i64_to_string, str_parse_i32, str_parse_i64, str_parse_u64, trim_str, u64_to_string,
};

#[test]
fn decimal_rendering_and_parsing_agree() {
    for n in [0i64, 7, -7, 76561198000000000, i64::MIN, i64::MAX] {
        assert_eq!(str_parse_i64(&i64_to_string(n)), Some(n));
        assert_eq!(i64_to_string(n), n.to_string());
    }
    assert_eq!(u64_to_string(u64::MAX), u64::MAX.to_string());
}

#[test]
fn integer_parsing_follows_from_str() {
    assert_eq!(str_parse_u64("+12"), Some(12));
    assert_eq!(str_parse_u64("18446744073709551616"), None);
    assert_eq!(str_parse_u64(""), None);
    assert_eq!(str_parse_i32("-2147483648"), Some(i32::MIN));
    assert_eq!(str_parse_i32("2147483648"), None);
    assert_eq!(str_parse_i32("-"), None);
    assert_eq!(str_parse_i64("-9223372036854775809"), None);
}

#[test]
fn trimming_and_hex() {
    assert_eq!(trim_str("\t a b \n"), "a b");
    assert_eq!(hex_encode(&[0x00, 0xab, 0xff]), "00abff");
    let token = random_hex_token();
    assert_eq!(token.len(), 64);
}
