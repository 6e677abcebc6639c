use cmake_init::{parse_bool_flag, parse_cxx_std, validate_project_name};

#[test]
fn accepts_true_variants() {
    assert_eq!(parse_bool_flag("true"), Ok(true));
    assert_eq!(parse_bool_flag("True"), Ok(true));
    assert_eq!(parse_bool_flag("TRUE"), Ok(true));
    assert_eq!(parse_bool_flag("yes"), Ok(true));
    assert_eq!(parse_bool_flag("Yes"), Ok(true));
    assert_eq!(parse_bool_flag("on"), Ok(true));
    assert_eq!(parse_bool_flag("1"), Ok(true));
}

#[test]
fn accepts_false_variants() {
    assert_eq!(parse_bool_flag("false"), Ok(false));
    assert_eq!(parse_bool_flag("False"), Ok(false));
    assert_eq!(parse_bool_flag("FALSE"), Ok(false));
    assert_eq!(parse_bool_flag("no"), Ok(false));
    assert_eq!(parse_bool_flag("No"), Ok(false));
    assert_eq!(parse_bool_flag("off"), Ok(false));
    assert_eq!(parse_bool_flag("0"), Ok(false));
}

#[test]
fn rejects_unrecognised_values() {
    assert!(parse_bool_flag("maybe").is_err());
    assert!(parse_bool_flag("2").is_err());
    assert!(parse_bool_flag("").is_err());
    assert!(parse_bool_flag("enabled").is_err());
}

#[test]
fn bool_flag_error_message_and_mixed_case() {
    assert_eq!(
        parse_bool_flag("maybe"),
        Err("invalid boolean value 'maybe': expected true/false, yes/no, on/off, or 1/0".to_string())
    );
    assert_eq!(parse_bool_flag("oFf"), Ok(false));
    assert_eq!(parse_bool_flag("yEs"), Ok(true));
    // Non-ASCII letters are not folded onto ASCII ones.
    assert!(parse_bool_flag("tru\u{c9}").is_err());
    assert!(parse_bool_flag(" true").is_err());
}

#[test]
fn valid_names_are_accepted() {
    assert!(validate_project_name("myproject").is_ok());
    assert!(validate_project_name("my_project").is_ok());
    assert!(validate_project_name("my-project").is_ok());
    assert!(validate_project_name("MyProject42").is_ok());
    assert!(validate_project_name("_internal").is_ok());
    assert!(validate_project_name("a-b_c-D3").is_ok());
}

#[test]
fn space_is_rejected() {
    assert!(validate_project_name("my project").is_err());
}

#[test]
fn open_paren_is_rejected() {
    assert!(validate_project_name("proj(x)").is_err());
}

#[test]
fn semicolon_is_rejected() {
    assert!(validate_project_name("proj;bad").is_err());
}

#[test]
fn empty_name_is_rejected() {
    assert!(validate_project_name("").is_err());
}

#[test]
fn project_name_error_messages() {
    assert_eq!(
        validate_project_name(""),
        Err("Project name must not be empty.".to_string())
    );
    assert_eq!(
        validate_project_name("a b"),
        Err("Invalid project name 'a b'. Accepted characters: ASCII letters, digits, hyphens (-), and underscores (_).".to_string())
    );
    assert!(validate_project_name("caf\u{e9}").is_err());
}

#[test]
fn cxx_std_accepts_supported_standards() {
    for (raw, v) in [("11", 11), ("14", 14), ("17", 17), ("20", 20), ("23", 23), ("26", 26)] {
        assert_eq!(parse_cxx_std(raw, false), Ok(v));
    }
    assert_eq!(parse_cxx_std("+17", false), Ok(17));
    assert_eq!(parse_cxx_std("0020", false), Ok(20));
    assert_eq!(parse_cxx_std("17", true), Ok(17));
    assert_eq!(parse_cxx_std("26", true), Ok(26));
}

#[test]
fn cxx_std_rejects_other_values() {
    let msg = |raw: &str| {
        Err(format!(
            "Invalid C++ standard '{raw}'. Please select 11, 14, 17, 20, 23, or 26."
        ))
    };
    for raw in ["", "+", "-", "18", "98", "-17", "17a", " 17", "c++17", "100000000000000000017"] {
        assert_eq!(parse_cxx_std(raw, false), msg(raw));
    }
}

#[test]
fn kokkos_requires_cxx17() {
    assert_eq!(
        parse_cxx_std("14", true),
        Err("Kokkos requires C++17 or later; C++14 is not supported with --kokkos.".to_string())
    );
    assert_eq!(
        parse_cxx_std("11", true),
        Err("Kokkos requires C++17 or later; C++11 is not supported with --kokkos.".to_string())
    );
    assert!(parse_cxx_std("12", true).unwrap_err().starts_with("Invalid C++ standard"));
}
