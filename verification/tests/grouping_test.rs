use cargo_tsn::declarations::{FFIFunction, ParamInfo};
use cargo_tsn::grouping::{
    get_official_plugins, group_by_plugin, is_official_plugin, partition_groups, plugin_name_of,
};

fn function(name: &str) -> FFIFunction {
    FFIFunction {
        name: name.to_string(),
        params: vec![ParamInfo { name: "x".to_string(), param_type: "number".to_string() }],
        return_type: "number".to_string(),
    }
}

#[test]
fn plugin_names_come_from_the_prefix() {
    assert_eq!(plugin_name_of("crypto_sha256"), "crypto");
    assert_eq!(plugin_name_of("my_lib_add"), "my");
    assert_eq!(plugin_name_of("standalone"), "default");
    assert_eq!(plugin_name_of("_hidden"), "");
}

#[test]
fn functions_are_grouped_by_plugin_in_order() {
    let fs = vec![function("fs_read"), function("crypto_md5"), function("fs_write"), function("solo")];
    let groups = group_by_plugin(&fs);
    let names: Vec<&str> = groups.iter().map(|g| g.name.as_str()).collect();
    assert_eq!(names, vec!["fs", "crypto", "default"]);
    let fs_names: Vec<&str> = groups[0].functions.iter().map(|f| f.name.as_str()).collect();
    assert_eq!(fs_names, vec!["fs_read", "fs_write"]);
    let total: usize = groups.iter().map(|g| g.functions.len()).sum();
    assert_eq!(total, fs.len());
}

#[test]
fn official_plugins_are_the_twelve_of_tsnp_contrib() {
    let list = get_official_plugins();
    assert_eq!(
        list,
        vec!["http", "fs", "crypto", "os", "path", "cli", "timer", "json", "net", "process", "log", "env"]
    );
    assert!(is_official_plugin("json"));
    assert!(!is_official_plugin("string"));
    assert!(!is_official_plugin("default"));
}

#[test]
fn groups_split_into_official_and_custom() {
    let fs = vec![function("mylib_a"), function("http_get"), function("zzz_b"), function("fs_read")];
    let (official, custom) = partition_groups(group_by_plugin(&fs));
    let o: Vec<&str> = official.iter().map(|g| g.name.as_str()).collect();
    let c: Vec<&str> = custom.iter().map(|g| g.name.as_str()).collect();
    assert_eq!(o, vec!["http", "fs"]);
    assert_eq!(c, vec!["mylib", "zzz"]);
}
