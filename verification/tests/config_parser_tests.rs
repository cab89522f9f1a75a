use hackernews_tui::config_parser::{expand_config_parsers, ConfigParserInput};

#[test]
fn expansion_has_one_arm_per_field() {
    let input = ConfigParserInput {
        ident: "Theme".to_string(),
        fields: Some(vec!["palette".to_string(), "component_style".to_string()]),
    };
    let code = expand_config_parsers(&input);
    assert!(code.starts_with("#[automatically_derived]\nimpl config_parser2::ConfigParser for Theme {"));
    let first = code.find("\"palette\" => self.palette.parse(value),").unwrap();
    let second = code.find("\"component_style\" => self.component_style.parse(value),").unwrap();
    assert!(first < second);
    assert!(code.contains("expect TOML::Value::Table for {}\", \"Theme\")"));
    assert!(code.contains("_ => Ok(()),"));
}

#[test]
fn expansion_is_an_impl_item() {
    let input = ConfigParserInput {
        ident: "Keymap".to_string(),
        fields: Some(vec!["open".to_string(), "r#type".to_string()]),
    };
    let code = expand_config_parsers(&input);
    let tokens: proc_macro2::TokenStream = code.parse().expect("tokens");
    let trees: Vec<proc_macro2::TokenTree> = tokens.into_iter().collect();
    // `#`, `[..]`, `impl`, the trait path, `for`, `Keymap`, `{..}`
    assert_eq!(trees.first().map(|t| t.to_string()), Some("#".to_string()));
    assert_eq!(trees.last().map(|t| t.to_string().starts_with('{')), Some(true));
    assert!(trees.iter().any(|t| t.to_string() == "Keymap"));
}

#[test]
fn expansion_without_fields() {
    let input = ConfigParserInput { ident: "Empty".to_string(), fields: Some(vec![]) };
    let code = expand_config_parsers(&input);
    assert!(code.contains("match key.as_str() {\n                    _ => Ok(()),"));
    let tokens: Result<proc_macro2::TokenStream, _> = code.parse();
    assert!(tokens.is_ok());
}
