use otp_auth::db::users::{latest_sub_user, Admin, Admin_Users, Otp, SubUserCode};
use otp_auth::regcode::{
    admin_code_after, first_admin_code, has_sub_user_shape, next_sub_user_code,
    sub_user_code_from,
};

fn codes(list: &[&str]) -> Vec<String> {
    list.iter().map(|c| c.to_string()).collect()
}

fn admin(id: i32, regcode: &str) -> Admin {
    Admin {
        id,
        regcode: regcode.to_string(),
        user_name: "root".to_string(),
        mobile: "100".to_string(),
        email: "root@example.com".to_string(),
        pincode: "560001".to_string(),
    }
}

fn sub_user(id: i32, admin_id: i32, regcode: &str) -> Admin_Users {
    Admin_Users {
        id,
        admin_id,
        regcode: regcode.to_string(),
        user_name: "sub".to_string(),
        mobile: "200".to_string(),
        email: "sub@example.com".to_string(),
        pincode: "560002".to_string(),
    }
}

#[test]
fn first_admin_gets_the_first_code() {
    assert_eq!(Otp::generate_code(&codes(&[])), "G00001");
    assert_eq!(first_admin_code(), "G00001");
}

#[test]
fn admin_code_follows_the_last_one() {
    assert_eq!(Otp::generate_code(&codes(&["G00001"])), "G00002");
    assert_eq!(Otp::generate_code(&codes(&["G00001", "G00002", "G00041"])), "G00042");
    assert_eq!(Otp::generate_code(&codes(&["G00041", "G00002"])), "G00003");
}

#[test]
fn malformed_admin_code_restarts_the_series() {
    assert_eq!(Otp::generate_code(&codes(&["Gabcde"])), "G00001");
    assert_eq!(Otp::generate_code(&codes(&["G00001", "G12x"])), "G00001");
    assert_eq!(Otp::generate_code(&codes(&["G0000 1"])), "G00001");
}

#[test]
fn short_admin_code_restarts_the_series() {
    assert_eq!(Otp::generate_code(&codes(&["G"])), "G00001");
    assert_eq!(Otp::generate_code(&codes(&[""])), "G00001");
    assert_eq!(admin_code_after("7"), "G00001");
}

#[test]
fn admin_code_keeps_the_prefix_of_the_last_one() {
    assert_eq!(admin_code_after("X00041"), "X00042");
    assert_eq!(admin_code_after("é7"), "é00008");
    assert_eq!(admin_code_after("12"), "100003");
}

#[test]
fn admin_code_grows_past_five_digits() {
    assert_eq!(admin_code_after("G99999"), "G100000");
    assert_eq!(admin_code_after("G100000"), "G100001");
    assert_eq!(admin_code_after("G2147483647"), "G2147483648");
    assert_eq!(admin_code_after("G2147483648"), "G00001");
}

#[test]
fn admin_code_tail_may_carry_a_sign() {
    assert_eq!(admin_code_after("G+5"), "G00006");
    assert_eq!(admin_code_after("G-5"), "G-0004");
    assert_eq!(admin_code_after("G-1"), "G00000");
}

#[test]
fn sub_user_shape_needs_g_before_u() {
    assert!(has_sub_user_shape("GU1"));
    assert!(has_sub_user_shape("xxGyyUzz"));
    assert!(has_sub_user_shape("GGUU"));
    assert!(!has_sub_user_shape("UG1"));
    assert!(!has_sub_user_shape("G0001"));
    assert!(!has_sub_user_shape("U0001"));
    assert!(!has_sub_user_shape("gu1"));
    assert!(!has_sub_user_shape(""));
}

#[test]
fn sub_user_code_counts_up_without_padding() {
    assert_eq!(next_sub_user_code("G00001U1"), "G00001U2");
    assert_eq!(next_sub_user_code("G00001U9"), "G00001U10");
    assert_eq!(next_sub_user_code("G00001U19"), "G00001U20");
    assert_eq!(next_sub_user_code("G00001U99"), "G00001U100");
    assert_eq!(next_sub_user_code("G00001U001"), "G00001U2");
    assert_eq!(next_sub_user_code("GU"), "");
}

#[test]
fn sub_user_code_rolls_over_after_09() {
    assert_eq!(next_sub_user_code("G00001U09"), "G00001U10");
    assert_eq!(next_sub_user_code("G00001U109"), "G00001U110");
    assert_eq!(next_sub_user_code("G00001U0009"), "G00001U0010");
    assert_eq!(next_sub_user_code("09"), "10");
}

#[test]
fn sub_user_code_that_is_all_digits() {
    assert_eq!(next_sub_user_code("41"), "42");
    assert_eq!(next_sub_user_code("9"), "10");
}

#[test]
fn sub_user_code_without_a_number_gives_nothing() {
    assert_eq!(next_sub_user_code("G1U"), "");
    assert_eq!(next_sub_user_code("GU-"), "");
    assert_eq!(next_sub_user_code("GU1 "), "");
}

#[test]
fn sub_user_code_with_a_number_too_large_gives_nothing() {
    assert_eq!(next_sub_user_code("GU2147483647"), "GU2147483648");
    assert_eq!(next_sub_user_code("GU2147483648"), "");
    assert_eq!(next_sub_user_code("GU99999999999"), "");
}

#[test]
fn sub_user_code_with_foreign_digits_gives_nothing() {
    assert_eq!(next_sub_user_code("GU٣5"), "");
    assert_eq!(next_sub_user_code("GU٣"), "");
    assert_eq!(next_sub_user_code("GU5٣"), "");
}

#[test]
fn sub_user_code_from_a_given_run() {
    assert_eq!(sub_user_code_from("GU9", Some("9")), "GU10");
    assert_eq!(sub_user_code_from("GU19", Some("19")), "GU20");
    assert_eq!(sub_user_code_from("GU19", Some("9")), "GU110");
    assert_eq!(sub_user_code_from("GU09", Some("09")), "GU10");
    assert_eq!(sub_user_code_from("GU09", None), "GU10");
    assert_eq!(sub_user_code_from("GU-5", Some("-5")), "GU-4");
    assert_eq!(sub_user_code_from("GU7", Some("x")), "");
    assert_eq!(sub_user_code_from("GU7", Some("")), "");
}

#[test]
fn sub_user_code_from_the_last_character() {
    assert_eq!(sub_user_code_from("GU7", None), "GU8");
    assert_eq!(sub_user_code_from("GU9", None), "GU10");
    assert_eq!(sub_user_code_from("GUx", None), "");
    assert_eq!(sub_user_code_from("GU+", None), "");
    assert_eq!(sub_user_code_from("GUé", None), "");
}

#[test]
fn sub_user_code_is_empty_without_an_admin() {
    let rows = vec![sub_user(1, 7, "G00001U1")];
    assert_eq!(Otp::generate_code_for_users(&vec![], &rows, &7), "");
    assert!(matches!(Otp::derive_code_for_users(&vec![], &rows, 7), SubUserCode::NoAdmin));
}

#[test]
fn sub_user_code_is_empty_without_a_predecessor() {
    let admins = vec![admin(7, "G00007")];
    assert_eq!(Otp::generate_code_for_users(&admins, &vec![], &7), "");
    assert!(matches!(
        Otp::derive_code_for_users(&admins, &vec![], 7),
        SubUserCode::NoPredecessor
    ));
    let misshapen = vec![sub_user(1, 7, "U00001G1"), sub_user(2, 7, "00012")];
    assert_eq!(Otp::generate_code_for_users(&admins, &misshapen, &7), "");
}

#[test]
fn sub_user_code_ending_in_9_gains_a_digit() {
    let admins = vec![admin(7, "G00007")];
    let rows = vec![sub_user(1, 7, "G00007U9")];
    assert_eq!(Otp::generate_code_for_users(&admins, &rows, &7), "G00007U10");
    match Otp::derive_code_for_users(&admins, &rows, 7) {
        SubUserCode::Next(code) => assert_eq!(code, "G00007U10"),
        other => panic!("{:?}", other),
    }
}

#[test]
fn sub_user_code_follows_the_highest_id_not_the_highest_code() {
    let admins = vec![admin(7, "G00007")];
    let rows = vec![
        sub_user(3, 7, "G00007U50"),
        sub_user(9, 7, "G00007U4"),
        sub_user(5, 7, "G00007U70"),
    ];
    assert_eq!(latest_sub_user(&rows, 7), Some(1));
    assert_eq!(Otp::generate_code_for_users(&admins, &rows, &7), "G00007U5");
}

#[test]
fn sub_user_code_with_equal_ids_follows_the_first() {
    let rows = vec![sub_user(4, 7, "GU1"), sub_user(4, 7, "GU5"), sub_user(2, 7, "GU8")];
    assert_eq!(latest_sub_user(&rows, 7), Some(0));
}

#[test]
fn sub_user_code_ignores_other_admins_and_other_shapes() {
    let admins = vec![admin(7, "G00007")];
    let rows = vec![
        sub_user(1, 7, "G00007U3"),
        sub_user(8, 2, "G00002U40"),
        sub_user(9, 7, "X40"),
    ];
    assert_eq!(latest_sub_user(&rows, 7), Some(0));
    assert_eq!(latest_sub_user(&rows, 2), Some(1));
    assert_eq!(latest_sub_user(&rows, 3), None);
    assert_eq!(Otp::generate_code_for_users(&admins, &rows, &7), "G00007U4");
}

#[test]
fn sub_user_code_without_a_number_is_told_apart() {
    let admins = vec![admin(7, "G00007")];
    let rows = vec![sub_user(1, 7, "G00007Ux")];
    assert!(matches!(Otp::derive_code_for_users(&admins, &rows, 7), SubUserCode::NoNumber));
    assert_eq!(Otp::generate_code_for_users(&admins, &rows, &7), "");
    assert_eq!(SubUserCode::NoNumber.into_code(), "");
    assert_eq!(SubUserCode::Next("GU2".to_string()).into_code(), "GU2");
}
