use cargo_tsn::codegen::{
    double_params_string, function_summary_string, generate_c_file, generate_function_impl,
    generate_function_stub_with_console, generate_main_toml, generate_platform_toml, generate_plugin,
    get_platform_name, signature_params_string,
};
use cargo_tsn::declarations::{FFIFunction, ParamInfo};

fn param(name: &str, ty: &str) -> ParamInfo {
    ParamInfo { name: name.to_string(), param_type: ty.to_string() }
}

fn function(name: &str, params: Vec<ParamInfo>, ret: &str) -> FFIFunction {
    FFIFunction { name: name.to_string(), params, return_type: ret.to_string() }
}

#[test]
fn platform_names() {
    assert_eq!(get_platform_name("win"), "Windows");
    assert_eq!(get_platform_name("linux"), "Linux");
    assert_eq!(get_platform_name("macos"), "macOS");
    assert_eq!(get_platform_name("bsd"), "Unknown");
}

#[test]
fn signature_pieces() {
    let f = function("file_write", vec![param("path", "string"), param("content", "string")], "void");
    assert_eq!(signature_params_string(&f.params), "path: string, content: string");
    assert_eq!(double_params_string(3), "double p0, double p1, double p2");
    assert_eq!(double_params_string(0), "");
    assert_eq!(function_summary_string(&f), "file_write(path: string, content: string) -> void");
}

#[test]
fn stub_with_console_warnings() {
    let f = function("file_write", vec![param("path", "string"), param("count", "number")], "void");
    let expected = "// ============================================================\n\
// file_write(path: string, count: number) -> void\n\
// \u{26a0}\u{fe0f} STUB: Returns default value, replace with real implementation\n\
// ============================================================\n\
double file_write(double p0, double p1) {\n    const char* path = js_string_unpack(p0);\n    double count = p1;\n\n    // \u{26a0}\u{fe0f} STUB: Replace with real implementation\n    console_err(\"\u{26a0}\u{fe0f} file_write called (stub implementation)\");\n    console_debug(\"  Parameters:\");\n    console_debug(\"    path: \");\n    console_debug(path);\n    console_debug(\"    count: \");\n    // TODO: Debug output for count\n\n    // Stub: void function\n    return 0;\n}\n\n";
    assert_eq!(generate_function_stub_with_console(&f), expected);
    let g = function("mystery", vec![], "blob");
    let text = generate_function_stub_with_console(&g);
    assert!(text.contains("double mystery() {\n"));
    assert!(text.contains("    console_err(\"\u{26a0}\u{fe0f} Unknown return type 'blob', returning 0\");\n    return 0;\n}\n\n"));
    assert!(!text.contains("Parameters:"));
}

#[test]
fn function_implementation() {
    let f = function("crypto_sha256", vec![param("data", "string")], "string");
    let expected = "double crypto_sha256(double p0) {\n    const char* data = js_string_unpack(p0);\n    (void)data; // Stub: parameter unpacked but not used\n\n    // \u{26a0}\u{fe0f} STUB: Replace with real implementation\n    console_err(\"\u{26a0}\u{fe0f} crypto_sha256 called (stub implementation)\");\n    console_debug(\"  Parameters:\");\n    console_debug(\"    data: \");\n    console_debug(data);\n\n    // Stub: return empty string\n    return js_string_new(\"\", 0);\n}\n";
    assert_eq!(generate_function_impl(&f), expected);
    let g = function("flag", vec![param("on", "boolean"), param("m", "map")], "object");
    let text = generate_function_impl(&g);
    assert!(text.contains("    int on = (int)p0;\n    (void)on; // Stub: parameter not used\n"));
    assert!(text.contains("    // TODO: Unpack parameter 'm' of type 'map'\n"));
    assert!(text.contains("    // Stub: return empty object {}\n    return js_object_new();\n}\n"));
}

#[test]
fn c_files_per_platform() {
    let funcs = vec![function("mylib_add", vec![param("a", "number")], "number")];
    let linux = generate_c_file("out/tsnp/my-lib", "my-lib", &funcs, "linux", false);
    assert_eq!(linux.path, "out/tsnp/my-lib/my_lib_linux.c");
    assert_eq!(
        linux.content,
        "// Linux Implementation for my-lib\n// Auto-generated by cargo tsn prepare\n// TODO: Implement your platform-specific functions here\n\n// TODO: Implement my-lib functions for Linux\n// This is a placeholder file.\n// Add your platform-specific implementations here.\n"
    );
    let win = generate_c_file("d", "mylib", &funcs, "win", false);
    assert!(win.content.starts_with("// Windows Implementation for mylib\n"));
    assert!(win.content.contains("#include <windows.h>\n\n// Runtime external functions\n"));
    assert!(win.content.contains("extern double console_err(double msg_val);\n\n// Function implementations (stub with console warnings):\n\n"));
    assert!(win.content.ends_with(&generate_function_stub_with_console(&funcs[0])));
    let templates = generate_c_file("d", "mylib", &funcs, "win", true);
    let template = "// ============================================================\n// mylib_add(a: number) -> number\n//\n// double mylib_add(double p0) {\n//     // TODO: Implement your logic here\n//     return 0;\n// }\n\n";
    assert!(templates.content.ends_with(&format!("// Function templates (copy and implement as needed):\n\n{}", template)));
}

#[test]
fn main_manifest_of_a_custom_plugin() {
    let funcs = vec![function("mylib_add", vec![param("a", "number"), param("b", "number")], "number")];
    let toml = generate_main_toml("out/tsnp/mylib", "mylib", &funcs);
    assert_eq!(toml.path, "out/tsnp/mylib/ts-native.toml");
    assert_eq!(
        toml.content,
        "# ts-native Plugin Configuration\n# Auto-generated by cargo tsn prepare\n# Plugin: mylib\n\n[package]\nname = \"tsnp-mylib\"\nversion = \"0.1.0\"\npriority = 1000\n\n[includes]\nwin = \"ts-native-win.toml\"\nlinux = \"ts-native-linux.toml\"\nmacos = \"ts-native-macos.toml\"\n\n[signatures]\n\"mylib_add\" = \"function(a: number, b: number): number\"\n\n[build]\nwarn_on_missing = true\nerror_on_mismatch = true\n"
    );
}

#[test]
fn platform_manifest_of_a_custom_plugin() {
    let funcs = vec![function("mylib_add", vec![param("a", "number"), param("b", "number")], "number")];
    let toml = generate_platform_toml("out/tsnp/mylib", "mylib", &funcs, "linux");
    assert_eq!(toml.path, "out/tsnp/mylib/ts-native-linux.toml");
    assert_eq!(
        toml.content,
        "# Linux Platform Configuration\n# Auto-generated by cargo tsn prepare for plugin 'mylib'\n\n[platform]\nname = \"Linux\"\nos = \"linux\"\narch = [\"x86_64\", \"arm64\"]\ndescription = \"Linux platform\"\nauthor = \"ts-native user\"\n\n[libs.default]\ndescription = \"Default library\"\nrequired = true\n\n[libs.default.functions]\n\"mylib_add\" = { impl = \"mylib_add\", enabled = true, system = \"POSIX\", args = [\"number\", \"number\"], ret = \"number\", description = \"TODO: Add description\" }\n\n"
    );
    let win = generate_platform_toml("d", "mylib", &funcs, "win");
    assert!(win.content.contains(", system = \"SystemAPI\", "));
    let other = generate_platform_toml("d", "mylib", &vec![], "bsd");
    assert!(other.content.starts_with("# Unknown Platform Configuration\n"));
    assert!(other.content.contains("arch = [\"x86_64\"]\n"));
}

#[test]
fn a_custom_plugin_has_seven_files() {
    let funcs = vec![function("mylib_add", vec![], "number")];
    let plugin = generate_plugin("mylib", &funcs, "prepare", false);
    assert_eq!(plugin.dir, "prepare/tsnp/mylib");
    let paths: Vec<&str> = plugin.files.iter().map(|f| f.path.as_str()).collect();
    assert_eq!(
        paths,
        vec![
            "prepare/tsnp/mylib/mylib_win.c",
            "prepare/tsnp/mylib/mylib_linux.c",
            "prepare/tsnp/mylib/mylib_macos.c",
            "prepare/tsnp/mylib/ts-native.toml",
            "prepare/tsnp/mylib/ts-native-win.toml",
            "prepare/tsnp/mylib/ts-native-linux.toml",
            "prepare/tsnp/mylib/ts-native-macos.toml",
        ]
    );
    assert!(plugin.files[3].content.contains("priority = 1000"));
}

#[test]
fn generated_manifests_are_toml() {
    let funcs = vec![
        function("m_add", vec![param("a", "number")], "number"),
        function("m_log", vec![], "void"),
    ];
    let platform = generate_platform_toml("d", "m", &funcs, "linux");
    let value: toml::Value = toml::from_str(&platform.content).unwrap();
    assert_eq!(value["platform"]["name"].as_str(), Some("Linux"));
    assert_eq!(value["platform"]["os"].as_str(), Some("linux"));
    let add = &value["libs"]["default"]["functions"]["m_add"];
    assert_eq!(add["impl"].as_str(), Some("m_add"));
    assert_eq!(add["system"].as_str(), Some("POSIX"));
    assert_eq!(add["args"].as_array().unwrap().len(), 1);
    assert_eq!(add["ret"].as_str(), Some("number"));
    assert!(value["libs"]["default"]["functions"]["m_log"].is_table());
    let main: toml::Value = toml::from_str(&generate_main_toml("d", "m", &funcs).content).unwrap();
    assert_eq!(main["package"]["priority"].as_integer(), Some(1000));
    assert_eq!(main["signatures"]["m_add"].as_str(), Some("function(a: number): number"));
}
