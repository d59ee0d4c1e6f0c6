use cerium::error::invalid_character::InvalidCharacter;

#[test]
fn colored_report() {
    colored::control::set_override(true);
    let e = InvalidCharacter { found: '$', idx: 2 };
    assert_eq!(
        e.format("a $ b"),
        "\x1b[31mSyntax Error\x1b[0m\x1b[97m: found unexpected character '$'\x1b[0m\n\
         \x1b[94m00001\x1b[0m \x1b[94m|\x1b[0m a $ b\n      \x1b[94m|\x1b[0m   \x1b[31m^\x1b[0m\n"
    );
}
