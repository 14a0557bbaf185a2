use rust_zero::rsctl::naming::{
    api_ty_to_rust, escape_json, group_file_base, indent_block, join_paths, lower_camel_from_snake,
    mod_decl_with_path, parse_style, pascal, snake, tag_kv_map, template_dir, validate_attrs, Style,
};

#[test]
fn snake_trims_and_lowercases() {
    assert_eq!(snake("  UserCenter \t"), "usercenter");
    assert_eq!(snake(&snake("  Mixed_Name ")), snake("  Mixed_Name "));
}

#[test]
fn pascal_and_lower_camel() {
    assert_eq!(pascal("get_user-info"), "GetUserInfo");
    assert_eq!(pascal("login"), "Login");
    assert_eq!(pascal(""), "");
    assert_eq!(lower_camel_from_snake("user_center"), "userCenter");
    assert_eq!(lower_camel_from_snake(""), "");
}

#[test]
fn styles_name_group_files() {
    assert!(matches!(parse_style("rust_zero"), Ok(Style::Snake)));
    assert!(matches!(parse_style("rustZero"), Ok(Style::LowerCamel)));
    assert!(matches!(parse_style("RustZero"), Ok(Style::UpperCamel)));
    assert_eq!(
        parse_style("camel").unwrap_err(),
        "unsupported style: camel (expected rust_zero|rustZero|RustZero)"
    );
    assert_eq!(group_file_base("user_center", Style::Snake), "user_center");
    assert_eq!(group_file_base("user_center", Style::LowerCamel), "userCenter");
    assert_eq!(group_file_base("user_center", Style::UpperCamel), "UserCenter");
}

#[test]
fn module_declarations() {
    assert_eq!(mod_decl_with_path("handler", "user", "user"), "pub mod user;\n");
    assert_eq!(
        mod_decl_with_path("handler", "user_center", "UserCenter"),
        "#[path = \"handler/UserCenter.rs\"]\npub mod user_center;\n"
    );
}

#[test]
fn route_paths_join_prefixes() {
    assert_eq!(join_paths("/v1/", "users"), "/v1/users");
    assert_eq!(join_paths("", "users"), "/users");
    assert_eq!(join_paths("/v1", "/"), "/v1");
    assert_eq!(join_paths("/v1", "/a"), "/v1/a");
    assert_eq!(template_dir("/t"), "/t/api/rs");
}

#[test]
fn indentation_keeps_blank_lines_empty() {
    assert_eq!(indent_block("a\n\n  \nb\n", 4), "    a\n\n\n    b\n");
    assert_eq!(indent_block("x", 2), "  x\n");
}

#[test]
fn struct_tags_are_read_in_order() {
    let m = tag_kv_map("json:\"name\", validate:\"min=1\"");
    assert_eq!(m.get("json"), Some("name".to_string()));
    assert_eq!(m.get("validate"), Some("min=1".to_string()));
    assert!(!m.contains_key("form"));
    let broken = tag_kv_map("json:name");
    assert!(!broken.contains_key("json"));
}

#[test]
fn api_types_map_to_rust() {
    assert_eq!(api_ty_to_rust("g", "string"), "String");
    assert_eq!(api_ty_to_rust("g", "[]int32"), "Vec<i32>");
    assert_eq!(api_ty_to_rust("g", "uint"), "u64");
    assert_eq!(api_ty_to_rust("g", "float64"), "f64");
    assert_eq!(api_ty_to_rust("g", "User"), "crate::types::g::types::User");
    assert_eq!(api_ty_to_rust("g", "[][]User"), "Vec<Vec<crate::types::g::types::User>>");
}

#[test]
fn json_escaping() {
    assert_eq!(escape_json("a\"b\\c"), "a\\\"b\\\\c");
    assert_eq!(escape_json("plain"), "plain");
}

#[test]
fn validate_tags_become_validator_attributes() {
    assert_eq!(validate_attrs("String", "required, min=2,max=10"), vec![
        "#[validate(required)]".to_string(),
        "#[validate(length(min = 2, max = 10))]".to_string(),
    ]);
    assert_eq!(validate_attrs("i64", "min=-5,max=0"), vec!["#[validate(range(min = -5, max = 0))]".to_string()]);
    assert_eq!(validate_attrs("String", "min=0"), Vec::<String>::new());
    assert_eq!(validate_attrs("bool", "email,url"), vec![
        "#[validate(email)]".to_string(),
        "#[validate(url)]".to_string(),
    ]);
    assert_eq!(validate_attrs("u32", "max=x"), Vec::<String>::new());
}
