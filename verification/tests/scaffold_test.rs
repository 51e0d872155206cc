use cargo_tsn::scaffold::{
    ffi_function_code, function_entry, infer_ts_params, infer_ts_type, insert_function_entry,
    is_priority_key_line, is_valid_function_name, new_project, update_priority, wizard_step, FuncError, WizardAction,
    WizardState,
};

#[test]
fn rust_types_map_to_typescript_types() {
    assert_eq!(infer_ts_type(""), "void");
    assert_eq!(infer_ts_type(" void "), "void");
    assert_eq!(infer_ts_type("()"), "void");
    assert_eq!(infer_ts_type("*const c_char"), "string");
    assert_eq!(infer_ts_type("&str"), "string");
    assert_eq!(infer_ts_type("bool"), "boolean");
    assert_eq!(infer_ts_type("Vec<u8>"), "array");
    assert_eq!(infer_ts_type("&[u8] slice"), "array");
    assert_eq!(infer_ts_type("struct Point"), "object");
    assert_eq!(infer_ts_type("&mut Point"), "object");
    assert_eq!(infer_ts_type("&mut c_char"), "string");
    assert_eq!(infer_ts_type("i32"), "number");
    assert_eq!(infer_ts_type("f64"), "number");
}

#[test]
fn parameter_lists_map_to_typescript_types() {
    assert_eq!(infer_ts_params("a: i32, b: *const c_char, c"), vec!["number", "string", "any"]);
    assert_eq!(infer_ts_params("  "), Vec::<String>::new());
    assert_eq!(infer_ts_params("x: bool,, y: Vec<i32>,"), vec!["boolean", "array"]);
    assert_eq!(infer_ts_params("p: Vec<u8>: extra"), vec!["array"]);
}

#[test]
fn function_names_are_alphanumeric_or_underscore() {
    assert!(is_valid_function_name("add_two"));
    assert!(is_valid_function_name("größe"));
    assert!(is_valid_function_name(""));
    assert!(!is_valid_function_name("bad-name"));
    assert!(!is_valid_function_name("two words"));
}

#[test]
fn ffi_stub_for_a_new_function() {
    let code = match ffi_function_code("add", "a: i32, b: i32", "i32") {
        Ok(code) => code,
        Err(_) => panic!("valid name refused"),
    };
    assert_eq!(
        code,
        "\n#[no_mangle]\npub extern \"C\" fn add(a: i32, b: i32) -> i32 {\n    // TODO: implement\n    0 as i32\n}\n"
    );
    let void_code = match ffi_function_code("reset", "", "void") {
        Ok(code) => code,
        Err(_) => panic!("valid name refused"),
    };
    assert_eq!(void_code, "\n#[no_mangle]\npub extern \"C\" fn reset() {\n    // TODO: implement\n}\n");
    let empty_ret = match ffi_function_code("tick", "n: u32", "") {
        Ok(code) => code,
        Err(_) => panic!("valid name refused"),
    };
    assert_eq!(empty_ret, "\n#[no_mangle]\npub extern \"C\" fn tick(n: u32) {\n    // TODO: implement\n}\n");
    assert!(matches!(ffi_function_code("bad-name", "", ""), Err(FuncError::InvalidFunctionName)));
}

#[test]
fn manifest_entry_for_a_new_function() {
    assert_eq!(
        function_entry("add", "a: i32, b: i32", "i32"),
        "\"add\" = { args = [\"number\", \"number\"], ret = \"number\", impl_name = \"add\" }\n"
    );
    assert_eq!(
        function_entry("hello", "", ""),
        "\"hello\" = { args = [], ret = \"void\", impl_name = \"hello\" }\n"
    );
}

#[test]
fn entries_go_under_the_functions_section() {
    let entry = "\"f\" = { args = [], ret = \"void\", impl_name = \"f\" }\n";
    assert_eq!(
        insert_function_entry("[package]\nname = \"x\"\n\n[functions]\n\"g\" = {}\n", entry),
        format!("[package]\nname = \"x\"\n\n[functions]\n{}\"g\" = {{}}\n", entry)
    );
    assert_eq!(
        insert_function_entry("[package]\nname = \"x\"\n", entry),
        format!("[package]\nname = \"x\"\n\n[functions]\n{}", entry)
    );
}

#[test]
fn priority_lines_are_rewritten() {
    assert_eq!(
        update_priority("[package]\nname = \"x\"\n  priority = 3\nversion = \"1\"\n"),
        "[package]\nname = \"x\"\npriority = 1000\nversion = \"1\""
    );
    assert_eq!(update_priority("a\r\npriority = 1\r\n"), "a\npriority = 1000");
}

#[test]
fn priority_is_added_after_the_line_under_package() {
    assert_eq!(
        update_priority("[package]\nname = \"x\"\nversion = \"1\"\n"),
        "[package]\nname = \"x\"\npriority = 1000\nversion = \"1\"\n"
    );
    assert_eq!(update_priority("[package]\nname = \"x\""), "[package]\nname = \"x\"\npriority = 1000");
    assert_eq!(update_priority("[lib]\nname = \"x\"\n"), "[lib]\nname = \"x\"\n");
}

#[test]
fn forcing_the_priority_sets_it_to_1000() {
    for content in [
        "[package]\n  priority = 7\n",
        "[package]\nname = \"p\"\n",
        "x = 1\npriority = 0",
    ] {
        assert!(update_priority(content).contains("priority = 1000"));
    }
    assert!(!update_priority("name = \"priority = x\"\n").contains("priority = 1000"));
}

#[test]
fn new_project_skeleton() {
    let p = new_project("demo");
    assert_eq!(p.dirs, vec!["demo", "demo/src", "demo/tsnp"]);
    let paths: Vec<&str> = p.files.iter().map(|f| f.path.as_str()).collect();
    assert_eq!(paths, vec!["demo/Cargo.toml", "demo/src/lib.rs", "demo/main.ts"]);
    assert_eq!(
        p.files[0].content,
        "[package]\nname = \"demo\"\nversion = \"0.1.0\"\nedition = \"2021\"\n\n[lib]\ncrate-type = [\"cdylib\"]\n\n[dependencies]\n"
    );
    assert_eq!(
        p.files[1].content,
        "// Export FFI functions here\n// Example:\n// #[no_mangle]\n// pub extern \"C\" fn my_func() -> i32 { 0 }\n"
    );
    assert_eq!(
        p.files[2].content,
        "function main() {\n    print(\"Hello, tsn!\");\n    return 0;\n}\n"
    );
}

#[test]
fn wizard_walks_through_one_function() {
    let (s, a) = wizard_step(WizardState::SelectCrate, 2, " 2\n");
    assert!(matches!(a, WizardAction::AskName));
    assert!(matches!(s, WizardState::EnterName { crate_index: 1 }));
    let (s, a) = wizard_step(s, 2, "add\n");
    assert!(matches!(a, WizardAction::AskParams));
    let (s, a) = wizard_step(s, 2, " a: i32 \n");
    assert!(matches!(a, WizardAction::AskReturn));
    let (s, a) = wizard_step(s, 2, "i32\n");
    match a {
        WizardAction::AddFunction { crate_index, name, params, ret } => {
            assert_eq!(crate_index, 1);
            assert_eq!(name, "add");
            assert_eq!(params, "a: i32");
            assert_eq!(ret, "i32");
        },
        _ => panic!("no function added"),
    }
    assert!(matches!(s, WizardState::EnterName { crate_index: 1 }));
    let (s, a) = wizard_step(s, 2, "\n");
    assert!(matches!(a, WizardAction::ShowCrates));
    let (_, a) = wizard_step(s, 2, "q");
    assert!(matches!(a, WizardAction::Quit));
}

#[test]
fn wizard_refuses_crates_out_of_range() {
    for input in ["0", "3", "x", "", "-1"] {
        let (s, a) = wizard_step(WizardState::SelectCrate, 2, input);
        assert!(matches!(a, WizardAction::InvalidSelection));
        assert!(matches!(s, WizardState::SelectCrate));
    }
    let (s, a) = wizard_step(WizardState::EnterName { crate_index: 0 }, 2, " q ");
    assert!(matches!(a, WizardAction::ShowCrates));
    assert!(matches!(s, WizardState::SelectCrate));
}

#[test]
fn priority_keys_without_blanks_are_replaced() {
    assert_eq!(
        update_priority("[package]\nname = \"x\"\npriority=5\n"),
        "[package]\nname = \"x\"\npriority = 1000"
    );
    assert_eq!(update_priority("[package]\n\tpriority\t =3\n"), "[package]\npriority = 1000");
    assert_eq!(
        update_priority("[package]\npriority_x = 1\n"),
        "[package]\npriority_x = 1\npriority = 1000\n"
    );
    assert_eq!(
        update_priority("[package]\nname = \"priority = x\"\n"),
        "[package]\nname = \"priority = x\"\npriority = 1000\n"
    );
}

#[test]
fn priority_key_lines() {
    assert!(is_priority_key_line("priority = 3"));
    assert!(is_priority_key_line("  priority=3"));
    assert!(is_priority_key_line("priority \t = 3"));
    assert!(!is_priority_key_line("priority"));
    assert!(!is_priority_key_line("priority_x = 3"));
    assert!(!is_priority_key_line("name = \"priority = x\""));
}

#[test]
fn types_ignore_surrounding_white_space() {
    for t in ["i32", "*const c_char", "bool", "Vec<u8>", "&mut P", ""] {
        let r = infer_ts_type(t);
        assert_eq!(infer_ts_type(&format!(" \t{}\n ", t)), r);
        assert_eq!(infer_ts_type(t.trim()), r);
    }
}

#[test]
fn joined_parameter_lists_concatenate() {
    let pairs = [("a: i32", "b: bool"), ("", "x: Vec<u8>"), ("a: f64, b", ""), (" ", " ")];
    for (p, q) in pairs {
        let mut expected = infer_ts_params(p);
        expected.extend(infer_ts_params(q));
        assert_eq!(infer_ts_params(&format!("{},{}", p, q)), expected);
    }
}
