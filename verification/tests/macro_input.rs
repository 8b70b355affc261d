use near_sdk_abi::macro_input::{
    has_word, name_at, reserved, AbiDef, Expected, MacroInputError, MacroToken,
};

fn word(text: &str) -> MacroToken {
    MacroToken::Word(text.to_string())
}

fn text(value: &str) -> MacroToken {
    MacroToken::Text(value.to_string())
}

fn invocation() -> Vec<MacroToken> {
    vec![
        word("mod"),
        word("ext_adder"),
        word("trait"),
        word("Adder"),
        word("for"),
        text("src/adder.json"),
    ]
}

fn complaint(position: usize, expected: Expected) -> Result<(AbiDef, usize), MacroInputError> {
    Err(MacroInputError { position, expected })
}

fn adder() -> AbiDef {
    AbiDef {
        mod_name: "ext_adder".to_string(),
        trait_name: "Adder".to_string(),
        path: "src/adder.json".to_string(),
    }
}

fn with(position: usize, token: MacroToken) -> Vec<MacroToken> {
    let mut tokens = invocation();
    tokens[position] = token;
    tokens
}

#[test]
fn invocation_names_module_interface_and_path() {
    assert_eq!(AbiDef::parse(&invocation()), Ok((adder(), 6)));
    assert_eq!(AbiDef::parse_macro_input(&invocation()), Ok(adder()));
}

#[test]
fn input_that_ends_early_lacks_what_comes_next() {
    let whole = invocation();
    let expected = [
        Expected::Mod,
        Expected::Name,
        Expected::Trait,
        Expected::Name,
        Expected::For,
        Expected::Path,
    ];
    for length in 0..6 {
        let tokens: Vec<MacroToken> = whole
            .iter()
            .take(length)
            .map(|token| match token {
                MacroToken::Word(w) => word(w),
                MacroToken::Text(t) => text(t),
                MacroToken::Other => MacroToken::Other,
            })
            .collect();
        assert_eq!(AbiDef::parse(&tokens), complaint(length, expected[length]));
    }
}

#[test]
fn tokens_after_the_invocation_are_left_alone() {
    let mut tokens = invocation();
    tokens.push(MacroToken::Other);
    tokens.push(word("mod"));
    assert_eq!(AbiDef::parse(&tokens), Ok((adder(), 6)));
}

#[test]
fn whole_input_that_goes_on_should_have_ended() {
    let mut tokens = invocation();
    tokens.push(MacroToken::Other);
    assert_eq!(
        AbiDef::parse_macro_input(&tokens),
        Err(MacroInputError { position: 6, expected: Expected::End })
    );
}

#[test]
fn whole_input_fails_where_its_beginning_fails() {
    assert_eq!(
        AbiDef::parse_macro_input(&vec![]),
        Err(MacroInputError { position: 0, expected: Expected::Mod })
    );
    let mut tokens = with(3, word("fn"));
    tokens.push(MacroToken::Other);
    assert_eq!(
        AbiDef::parse_macro_input(&tokens),
        Err(MacroInputError { position: 3, expected: Expected::Name })
    );
}

#[test]
fn wrong_token_is_reported_where_it_stands() {
    assert_eq!(AbiDef::parse(&with(0, word("module"))), complaint(0, Expected::Mod));
    assert_eq!(AbiDef::parse(&with(0, text("mod"))), complaint(0, Expected::Mod));
    assert_eq!(AbiDef::parse(&with(1, MacroToken::Other)), complaint(1, Expected::Name));
    assert_eq!(AbiDef::parse(&with(2, word("struct"))), complaint(2, Expected::Trait));
    assert_eq!(AbiDef::parse(&with(3, text("Adder"))), complaint(3, Expected::Name));
    assert_eq!(AbiDef::parse(&with(4, word("in"))), complaint(4, Expected::For));
    assert_eq!(AbiDef::parse(&with(5, word("path"))), complaint(5, Expected::Path));
    assert_eq!(AbiDef::parse(&with(5, MacroToken::Other)), complaint(5, Expected::Path));
}

#[test]
fn reserved_word_names_nothing() {
    assert_eq!(AbiDef::parse(&with(1, word("mod"))), complaint(1, Expected::Name));
    assert_eq!(AbiDef::parse(&with(1, word("_"))), complaint(1, Expected::Name));
    assert_eq!(AbiDef::parse(&with(3, word("Self"))), complaint(3, Expected::Name));
    assert_eq!(AbiDef::parse(&with(3, word("yield"))), complaint(3, Expected::Name));
}

#[test]
fn raw_identifier_is_a_name() {
    let (parsed, read) = AbiDef::parse(&with(1, word("r#mod"))).unwrap();
    assert_eq!(parsed.mod_name, "r#mod");
    assert_eq!(read, 6);
}

#[test]
fn reserved_words_are_those_of_rust() {
    for word in ["_", "abstract", "as", "dyn", "fn", "Self", "self", "try", "while", "yield"] {
        assert!(reserved(word), "{}", word);
    }
    for word in ["", "__", "Mod", "selfish", "union", "r#fn", "adder", "auto"] {
        assert!(!reserved(word), "{}", word);
    }
}

#[test]
fn words_and_names_are_found_by_position() {
    let tokens = invocation();
    assert!(has_word(&tokens, 0, "mod"));
    assert!(!has_word(&tokens, 0, "trait"));
    assert!(!has_word(&tokens, 5, "src/adder.json"));
    assert!(!has_word(&tokens, 6, "mod"));
    assert_eq!(name_at(&tokens, 1), Some("ext_adder".to_string()));
    assert_eq!(name_at(&tokens, 0), None);
    assert_eq!(name_at(&tokens, 5), None);
    assert_eq!(name_at(&tokens, 9), None);
}
