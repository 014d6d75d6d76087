use keepassrx::easy_open::to_short_password;

#[test]
fn mod_shortens_long_password() {
    let short_pw = to_short_password("VeryLongPassword").expect("shortening failed");
    assert_eq!(short_pw, "VeryL");
}

#[test]
fn mod_shortens_exact_password() {
    let short_pw = to_short_password("VeryL").expect("shortening failed");
    assert_eq!(short_pw, "VeryL");
}

#[test]
fn mod_shortens_short_password() {
    let short_pw = to_short_password("Ver").expect("shortening failed");
    assert_eq!(short_pw, "Ver");
}

#[test]
fn mod_shortens_empty_password() {
    let short_pw = to_short_password("").expect("shortening failed");
    assert_eq!(short_pw, "");
}

#[test]
fn easy_open_shortens_long_password() {
    let short_pw = to_short_password("VeryLongPassword").expect("shortening failed");
    assert_eq!(short_pw, "VeryL");
}

#[test]
fn easy_open_shortens_exact_password() {
    let short_pw = to_short_password("VeryL").expect("shortening failed");
    assert_eq!(short_pw, "VeryL");
}

#[test]
fn easy_open_shortens_short_password() {
    let short_pw = to_short_password("Ver").expect("shortening failed");
    assert_eq!(short_pw, "Ver");
}

#[test]
fn easy_open_shortens_empty_password() {
    let short_pw = to_short_password("").expect("shortening failed");
    assert_eq!(short_pw, "");
}

#[test]
fn short_password_counts_characters_not_bytes() {
    // Six characters, eight bytes: the cut happens after five characters.
    let short_pw = to_short_password("héllo!x").expect("shortening failed");
    assert_eq!(short_pw, "héllo");
}
