use cargo_tsn::detect::{
    build_api_plugin_map, detect_plugins_from_ast, detect_plugins_in_module, has_main_function,
    lookup_binding, CallSite, CalleeShape, ExprShape, MemberShape, ModuleSummary, PluginDetector,
    PropShape,
};

fn ident(n: &str) -> ExprShape {
    ExprShape::Ident(n.to_string())
}

fn member(obj: ExprShape, prop: &str) -> ExprShape {
    ExprShape::Member(Box::new(MemberShape { obj, prop: PropShape::Ident(prop.to_string()) }))
}

fn call(callee: ExprShape) -> CallSite {
    CallSite::Call(CalleeShape::Expr(callee))
}

fn module(sites: Vec<CallSite>, fns: &[&str]) -> ModuleSummary {
    ModuleSummary { sites, fn_decls: fns.iter().map(|s| s.to_string()).collect() }
}

#[test]
fn api_table_binds_functions_to_plugins() {
    let m = build_api_plugin_map();
    assert_eq!(lookup_binding(&m, "http_get"), Some("http".to_string()));
    assert_eq!(lookup_binding(&m, "file_write"), Some("fs".to_string()));
    assert_eq!(lookup_binding(&m, "crypto_sha256"), Some("crypto".to_string()));
    assert_eq!(lookup_binding(&m, "os_uptime"), Some("os".to_string()));
    assert_eq!(lookup_binding(&m, "path_join"), Some("path".to_string()));
    assert_eq!(lookup_binding(&m, "str_split"), Some("string".to_string()));
    assert_eq!(lookup_binding(&m, "console_log"), None);
}

#[test]
fn direct_and_member_calls_are_checked() {
    let sites = vec![
        call(ident("http_get")),
        call(member(ident("fs"), "file_write")),
        call(member(member(ident("crypto_md5"), "x"), "y")),
        call(ident("print")),
        CallSite::New(ident("os_type")),
        CallSite::Call(CalleeShape::Other),
        call(ident("http_post")),
    ];
    assert_eq!(detect_plugins_in_module(&sites), vec!["http", "fs", "crypto", "os"]);
    let none = vec![call(member(ExprShape::Other, "toString")), CallSite::New(member(ident("a"), "file_read"))];
    assert_eq!(detect_plugins_in_module(&none), Vec::<String>::new());
}

#[test]
fn the_detector_visits_sites_one_by_one() {
    let mut d = PluginDetector::new();
    d.check_function_name("file_read");
    d.check_function_name("file_size");
    d.visit_call_expr(&CalleeShape::Expr(ident("crypto_crc32")));
    d.visit_new_expr(&ident("http_head"));
    d.check_member_expression(&MemberShape { obj: ident("path_basename"), prop: PropShape::Other });
    assert_eq!(d.detected_plugins(), vec!["fs", "crypto", "http", "path"]);
}

#[test]
fn plugins_of_several_modules_come_once_each() {
    let a = module(vec![call(ident("file_read")), call(ident("http_get"))], &["main"]);
    let b = module(vec![call(ident("http_put")), call(ident("os_env")), call(ident("file_size"))], &[]);
    let found = detect_plugins_from_ast(&vec![a, b]);
    assert_eq!(found, vec!["fs", "http", "os"]);
    let mut sorted = found.clone();
    sorted.sort();
    sorted.dedup();
    assert_eq!(sorted.len(), found.len());
}

#[test]
fn entry_files_declare_main() {
    assert!(has_main_function(&module(vec![], &["helper", "main"])));
    assert!(!has_main_function(&module(vec![], &["helper", "Main"])));
    assert!(!has_main_function(&module(vec![], &[])));
}

#[test]
fn documented_api_names_are_bound() {
    let m = build_api_plugin_map();
    assert_eq!(m.len(), 116);
    assert_eq!(lookup_binding(&m, "fetch"), Some("http".to_string()));
    assert_eq!(lookup_binding(&m, "writeFileSync"), Some("fs".to_string()));
    assert_eq!(lookup_binding(&m, "fs_writeFile"), Some("fs".to_string()));
    assert_eq!(lookup_binding(&m, "sha256"), Some("crypto".to_string()));
    assert_eq!(lookup_binding(&m, "fs"), None);
}

#[test]
fn documented_calls_need_their_plugins() {
    let main = module(vec![call(ident("http_get")), call(ident("fs_writeFile"))], &["main"]);
    assert_eq!(detect_plugins_from_ast(&vec![main]), vec!["http", "fs"]);
    assert_eq!(detect_plugins_in_module(&vec![call(member(ident("fs"), "writeFileSync"))]), vec!["fs"]);
    assert_eq!(detect_plugins_in_module(&vec![call(member(ident("crypto"), "sha256"))]), vec!["crypto"]);
    assert_eq!(detect_plugins_in_module(&vec![call(ident("fetch"))]), vec!["http"]);
}
