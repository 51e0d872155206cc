use cargo_tsn::declarations::{parse_ffi_declarations, parse_params, FFIFunction};

fn read(sources: &[&str]) -> Vec<FFIFunction> {
    let sources: Vec<String> = sources.iter().map(|s| s.to_string()).collect();
    match parse_ffi_declarations(&sources) {
        Ok(functions) => functions,
        Err(_) => panic!("the declarations could not be read"),
    }
}

fn names(fs: &[FFIFunction]) -> Vec<String> {
    fs.iter().map(|f| f.name.clone()).collect()
}

#[test]
fn declarations_of_joined_sources_concatenate() {
    let a = ["declare function a_one(x: number): void;", "declare function a_two(): string;"];
    let b = ["let y = 2;\ndeclare  function b_one ( s : string ) : number"];
    let mut both = a.to_vec();
    both.extend(b);
    let mut expected = names(&read(&a));
    expected.extend(names(&read(&b)));
    assert_eq!(names(&read(&both)), expected);
    assert_eq!(expected, vec!["a_one", "a_two", "b_one"]);
    let b_one = &read(&b)[0];
    assert_eq!(b_one.params.len(), 1);
    assert_eq!(b_one.params[0].name, "s");
    assert_eq!(b_one.params[0].param_type, "string");
    assert_eq!(b_one.return_type, "number");
}

#[test]
fn parameter_pieces_need_one_colon() {
    let ps = parse_params(" a: number , b , c: x: y, d :string ");
    let pairs: Vec<(String, String)> = ps.iter().map(|p| (p.name.clone(), p.param_type.clone())).collect();
    assert_eq!(
        pairs,
        vec![("a".to_string(), "number".to_string()), ("d".to_string(), "string".to_string())]
    );
    assert!(parse_params("   ").is_empty());
}
