use taskboard::app::auth::{validate_password, validate_username};

#[test]
fn auth_username_validation_test() {
    let positive = [
        "Ab12345_",
        "12345Ab_",
        "AAABBb1_",
        "aaabbB1_",
        "_aaabbB1",
        "abcdefghijklmnopqrstuvwxyzABCDEFGHIJKLMNOPQRSTUVWXYZ123456789_",
        "________________________________________________________",
        "user_user",
        "test_1514_test",
        // Very long string, but valid
        "abcdefghijklmnopqrstuvwxyzABCDEFGHIJKLMNOPQRSTUVWXYZ123456789_\
            abcdefghijklmnopqrstuvwxyzABCDEFGHIJKLMNOPQRSTUVWXYZ123456789_\
            abcdefghijklmnopqrstuvwxyzABCDEFGHIJKLMNOPQRSTUVWXYZ123456789_\
            abcdefghijklmnopqrstuvwxyzABCDEFGHIJKLMNOPQRSTUVWXYZ123456789_\
            abcdefghijklmnopqrstuvwxyzABCDEFGHIJKLMNOPQRSTUVWXYZ123456789_\
            abcdefghijklmnopqrstuvwxyzABCDEFGHIJKLMNOPQRSTUVWXYZ123456789_\
            abcdefghijklmnopqrstuvwxyzABCDEFGHIJKLMNOPQRSTUVWXYZ123456789",
    ];

    let negative = [
        // Length < 6
        "",
        "test",
        "a",
        "%",
        "ABab5",
        // Not allowed characters
        "12345678A@",
        "ABCDEFGH1@",
        "!@$ABCDEF123",
        "ABCDEFGHIJKLMNOPQRSTUVWXYZYZ123456789@!$",
        "12345678a@",
        "abcdefh1@",
        "!@$abcdefh123",
        "abcdefghijklmnopqrstuvwxyz123456789@!$",
        "abcdefhABCDEF@",
        "!@$abcdefh_ABCDEF",
        "abcdefghijklmnopqrstuvwxyzABCDEFGHIJKLMNOPQRSTUVWXYZ@!$",
        "abcdefghijklmnopqrstuvwxyzABCDEFGHIJKLMNOPQRSTUVWXYZ123456789@$!_",
        "abcdefghijklmnopqrstuvwxyzABCDEFGHIJKLMNOPQRSTUVWXYZ123456789@$!+",
    ];

    for &username in positive.iter() {
        assert!(
            validate_username(username),
            "username {} was expected to be valid",
            username
        );
    }

    for &username in negative.iter() {
        assert!(
            !validate_username(username),
            "username {} was expected to be invalid",
            username
        );
    }
}

#[test]
fn auth_password_validation_test() {
    // These passwords are expected to be valid.
    let positive = [
        "Ab12345@",
        "12345Ab@",
        "AAABBb1@",
        "aaabbB1@",
        "@aaabbB1",
        "abcdefghijklmnopqrstuvwxyzABCDEFGHIJKLMNOPQRSTUVWXYZ123456789@$!",
        // Very long string, but valid
        "abcdefghijklmnopqrstuvwxyzABCDEFGHIJKLMNOPQRSTUVWXYZ123456789@$!\
            abcdefghijklmnopqrstuvwxyzABCDEFGHIJKLMNOPQRSTUVWXYZ123456789@$!\
            abcdefghijklmnopqrstuvwxyzABCDEFGHIJKLMNOPQRSTUVWXYZ123456789@$!\
            abcdefghijklmnopqrstuvwxyzABCDEFGHIJKLMNOPQRSTUVWXYZ123456789@$!\
            abcdefghijklmnopqrstuvwxyzABCDEFGHIJKLMNOPQRSTUVWXYZ123456789@$!\
            abcdefghijklmnopqrstuvwxyzABCDEFGHIJKLMNOPQRSTUVWXYZ123456789@$!\
            abcdefghijklmnopqrstuvwxyzABCDEFGHIJKLMNOPQRSTUVWXYZ123456789",
    ];

    // These passwords are expected to be invalid.
    let negative = [
        // Length < 8
        "",
        "test",
        "a",
        "%",
        "ABab1@",
        // No lowercase
        "12345678A@",
        "ABCDEFGH1@",
        "!@$ABCDEF123",
        "ABCDEFGHIJKLMNOPQRSTUVWXYZYZ123456789@!$",
        // No uppercase
        "12345678a@",
        "abcdefh1@",
        "!@$abcdefh123",
        "abcdefghijklmnopqrstuvwxyz123456789@!$",
        // No digit
        "abcdefhABCDEF@",
        "!@$abcdefhABCDEF",
        "abcdefghijklmnopqrstuvwxyzABCDEFGHIJKLMNOPQRSTUVWXYZ@!$",
        // No special char
        "ABCabc123",
        "abcdefghijklmnopqrstuvwxyzABCDEFGHIJKLMNOPQRSTUVWXYZ123456789",
        // Not allowed chars
        "abcdefghijklmnopqrstuvwxyzABCDEFGHIJKLMNOPQRSTUVWXYZ123456789@$!_",
        "abcdefghijklmnopqrstuvwxyzABCDEFGHIJKLMNOPQRSTUVWXYZ123456789@$!+",
        "Aa123456@_",
        "Aa123456@-",
        "Aa123456@%",
        "Aa123456^%&*",
        "Aa123456@\\",
        "Aa123456@/",
        "Aa123456@\r\n",
        "Aa123456@\n",
        "Aa123456@\t",
        "Aa123456@\0", // rust strings are not null-terminated
    ];

    for &password in positive.iter() {
        assert!(
            validate_password(password),
            "password {} was expected to be valid",
            password
        );
    }

    for &password in negative.iter() {
        assert!(
            !validate_password(password),
            "password {} was expected to be invalid",
            password
        );
    }
}
