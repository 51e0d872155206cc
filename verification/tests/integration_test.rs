use cargo_tsn::codegen::{generate_c_file, generate_main_toml, normalize_plugin_name};
use cargo_tsn::declarations::{parse_ffi_declarations, FFIFunction};

fn declarations(source: &str) -> Vec<FFIFunction> {
    match parse_ffi_declarations(&vec![source.to_string()]) {
        Ok(functions) => functions,
        Err(_) => panic!("the declarations could not be read"),
    }
}

/// Reading `declare function` statements out of a TypeScript source.
#[test]
fn test_extract_ffi_declarations() {
    let ts_content = r#"
declare function crypto_sha256(data: string): string;
declare function crypto_md5(data: string): string;
declare function file_read(path: string): string;
declare function file_write(path: string, content: string): void;
"#;

    let functions = declarations(ts_content);
    let params: Vec<String> = functions[0]
        .params
        .iter()
        .map(|p| format!("{}: {}", p.name, p.param_type))
        .collect();

    assert_eq!(functions.len(), 4);
    assert_eq!(functions[0].name, "crypto_sha256");
    assert_eq!(params.join(", "), "data: string");
    assert_eq!(functions[0].return_type, "string");
    assert_eq!(functions[2].name, "file_read");
    assert_eq!(functions[3].name, "file_write");
}

/// Plugin names as they appear in C file names.
#[test]
fn test_plugin_name_normalization() {
    assert_eq!(normalize_plugin_name("my-plugin"), "my_plugin");
    assert_eq!("Crypto".to_lowercase(), "crypto");
    assert_eq!(normalize_plugin_name("HTTP-Client").to_lowercase(), "http_client");
}

/// The paths of a plugin's manifest and Windows source.
#[test]
fn test_plugin_path_construction() {
    let plugin_name = "crypto";
    let plugin_dir = format!("tsnp/{}", plugin_name);
    let expected_toml = generate_main_toml(&plugin_dir, plugin_name, &vec![]).path;
    let expected_c = generate_c_file(&plugin_dir, plugin_name, &vec![], "win", false).path;

    assert_eq!(expected_toml, "tsnp/crypto/ts-native.toml");
    assert_eq!(expected_c, "tsnp/crypto/crypto_win.c");
}

/// The C types that the TypeScript types stand for.
#[test]
fn test_type_mapping() {
    let type_map = [
        ("string", "const char*"),
        ("number", "double"),
        ("void", "void"),
        ("boolean", "int"),
    ];

    for (ts_type, c_type) in type_map {
        match ts_type {
            "string" => assert_eq!(c_type, "const char*"),
            "number" => assert_eq!(c_type, "double"),
            "void" => assert_eq!(c_type, "void"),
            "boolean" => assert_eq!(c_type, "int"),
            _ => panic!("Unknown type: {}", ts_type),
        }
    }
}
