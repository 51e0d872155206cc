use cargo_tsn::declarations::{FFIFunction, ParamInfo};
use cargo_tsn::detect::{CallSite, CalleeShape, ExprShape, ModuleSummary};
use cargo_tsn::grouping::PluginGroup;
use cargo_tsn::prepare::{
    analysis_intro, cmd_prepare, dry_run_plan, generate_plugins_from_groups, generate_ts_toml_content,
    path_join, remove_default, EntryFile, PrepareError, PrepareStep,
};

fn describe(s: &PrepareStep) -> String {
    match s {
        PrepareStep::Print(l) => format!("print {}", l),
        PrepareStep::RefuseExistingOutput(o) => format!("refuse {}", o),
        PrepareStep::CreateDir(d) => format!("mkdir {}", d),
        PrepareStep::WriteFile(f) => format!("write {}", f.path),
        PrepareStep::StartProgress(n, m) => format!("start {} {}", n, m),
        PrepareStep::Progress(m) => format!("progress {}", m),
        PrepareStep::FinishProgress(m) => format!("finish {}", m),
        PrepareStep::Fail(e) => match e {
            PrepareError::NoTypeScriptFiles => "fail no files".to_string(),
            PrepareError::NothingToPrepare => "fail nothing".to_string(),
            PrepareError::InvalidPattern => "fail pattern".to_string(),
            PrepareError::MalformedMatch => "fail match".to_string(),
            PrepareError::InvalidFileName(p) => format!("fail name {}", p),
        },
    }
}

fn describe_all(steps: &[PrepareStep]) -> Vec<String> {
    steps.iter().map(describe).collect()
}

fn written<'a>(steps: &'a [PrepareStep], path: &str) -> &'a str {
    for s in steps {
        if let PrepareStep::WriteFile(f) = s {
            if f.path == path {
                return f.content.as_str();
            }
        }
    }
    panic!("{} is not written", path)
}

fn call(name: &str) -> CallSite {
    CallSite::Call(CalleeShape::Expr(ExprShape::Ident(name.to_string())))
}

fn main_module(names: &[&str]) -> ModuleSummary {
    ModuleSummary { sites: names.iter().map(|n| call(n)).collect(), fn_decls: vec!["main".to_string()] }
}

fn entry(path: &str, stem: Option<&str>, dir: &str) -> EntryFile {
    EntryFile { path: path.to_string(), stem: stem.map(|s| s.to_string()), dir: dir.to_string() }
}

#[test]
fn paths_are_joined_as_on_unix() {
    assert_eq!(path_join("out", "tsnp"), "out/tsnp");
    assert_eq!(path_join("out/", "tsnp"), "out/tsnp");
    assert_eq!(path_join("", "tsnp"), "tsnp");
    assert_eq!(path_join("out", "/abs"), "/abs");
}

#[test]
fn entry_manifests() {
    let plugins = vec!["http".to_string(), "default".to_string(), "crypto".to_string()];
    let kept = remove_default(&plugins);
    assert_eq!(kept, vec!["http", "crypto"]);
    assert_eq!(generate_ts_toml_content("main", &kept), "[dependencies]\ntsnp = [\"http\", \"crypto\"]\n");
    assert_eq!(
        generate_ts_toml_content("main", &vec![]),
        "# Entry point: main\n# No plugin dependencies detected\n\n[dependencies]\ntsnp = []\n"
    );
}

#[test]
fn the_intro_lists_the_files_found() {
    assert_eq!(
        describe_all(&analysis_intro(&vec!["a.ts".to_string(), "b.ts".to_string()])),
        vec!["print 📦 Analyzing TypeScript files...", "print   ✓ Found: a.ts, b.ts", "print \n🔍 Analyzing code with AST..."]
    );
    assert_eq!(
        describe_all(&analysis_intro(&vec![])),
        vec!["print 📦 Analyzing TypeScript files...", "fail no files"]
    );
}

#[test]
fn a_real_run_from_detected_plugins() {
    let modules = vec![main_module(&["http_get", "str_split", "http_post"])];
    let entries = vec![entry("./main.ts", Some("main"), ".")];
    let steps = cmd_prepare(&entries, &modules, &vec![], "out", false, false);
    let d = describe_all(&steps);
    let expected: Vec<String> = vec![
        "print   ✓ Detected 2 plugin(s) via AST analysis:",
        "print     - http",
        "print     - string",
        "print \n\u{2699}\u{fe0f}  Generating plugins...\n",
        "refuse out",
        "mkdir out",
        "print 📦 Official Plugins:",
        "write out/has-tsnp-contrib.txt",
        "print   ✓ has-tsnp-contrib.txt (1 plugins)",
        "mkdir out/templates/tsnp/http",
        "write out/templates/tsnp/http/http_win.c",
        "write out/templates/tsnp/http/http_linux.c",
        "write out/templates/tsnp/http/http_macos.c",
        "write out/templates/tsnp/http/ts-native.toml",
        "print   ✓ templates/tsnp/http/ (empty template)",
        "print ",
        "print 🔧 Custom Plugins:",
        "mkdir out/tsnp/string",
        "start 7 Generating string",
        "write out/tsnp/string/string_win.c",
        "progress   ✓ string_win.c",
        "write out/tsnp/string/string_linux.c",
        "progress   ✓ string_linux.c",
        "write out/tsnp/string/string_macos.c",
        "progress   ✓ string_macos.c",
        "write out/tsnp/string/ts-native.toml",
        "progress   ✓ ts-native.toml",
        "write out/tsnp/string/ts-native-win.toml",
        "progress   ✓ ts-native-win.toml",
        "write out/tsnp/string/ts-native-linux.toml",
        "progress   ✓ ts-native-linux.toml",
        "write out/tsnp/string/ts-native-macos.toml",
        "progress   ✓ ts-native-macos.toml",
        "finish ✅ Plugin 'string' generated",
        "print ",
        "write ./main.ts.toml",
        "print   ✓ main.ts.toml (project root)",
        "print ✅ Prepared 2 plugin(s) with 0 function(s)",
        "print    - 1 official (copy from tsnp-contrib/)",
        "print    - 1 custom (implement in tsnp/)",
    ]
    .into_iter()
    .map(|s| s.to_string())
    .collect();
    assert_eq!(d, expected);
    assert_eq!(
        written(&steps, "out/has-tsnp-contrib.txt"),
        "# Official Plugins (from tsnp-contrib)\n\nThese plugins are already implemented. To use them:\n1. Copy template from prepare/templates/tsnp/<plugin>/ to your project's tsnp/<plugin>/\n2. Add to your .ts.toml: tsnp = [\"<plugin>\"]\n\n## Available Plugins\n\n- http\n"
    );
    assert_eq!(
        written(&steps, "out/templates/tsnp/http/ts-native.toml"),
        "[package]\nname = \"http\"\nversion = \"0.1.0\"\npriority = 0\n\n[capabilities]\nfunctions = []\n"
    );
    assert_eq!(
        written(&steps, "out/templates/tsnp/http/http_linux.c"),
        "// ============================================================\n// http Plugin - Linux Implementation\n// ============================================================\n// TODO: Implement for Linux\n// ============================================================\n"
    );
    assert_eq!(written(&steps, "./main.ts.toml"), "[dependencies]\ntsnp = [\"http\", \"string\"]\n");
    assert!(written(&steps, "out/tsnp/string/ts-native.toml").contains("priority = 1000"));
}

#[test]
fn files_without_main_get_no_manifest() {
    let modules = vec![
        ModuleSummary { sites: vec![call("file_read")], fn_decls: vec![] },
        ModuleSummary { sites: vec![], fn_decls: vec!["main".to_string()] },
    ];
    let entries = vec![entry("lib.ts", Some("lib"), ""), entry("app/main.ts", Some("main"), "app")];
    let steps = cmd_prepare(&entries, &modules, &vec![], "out", false, false);
    let d = describe_all(&steps);
    assert!(!d.contains(&"write lib.ts.toml".to_string()));
    assert!(d.contains(&"print   ✓ main.ts.toml (project root, no plugins)".to_string()));
    assert_eq!(
        written(&steps, "app/main.ts.toml"),
        "# Entry point: main\n# No plugin dependencies detected\n\n[dependencies]\ntsnp = []\n"
    );
}

#[test]
fn an_entry_without_a_file_name_stops_the_run() {
    let modules = vec![main_module(&["os_type"]), main_module(&["os_arch"])];
    let entries = vec![entry("..", None, ""), entry("main.ts", Some("main"), "")];
    let steps = cmd_prepare(&entries, &modules, &vec![], "out", false, false);
    let d = describe_all(&steps);
    assert_eq!(d.last().unwrap(), "fail name ..");
    assert!(!d.iter().any(|s| s.starts_with("print ✅ Prepared")));
    assert!(!d.contains(&"write main.ts.toml".to_string()));
}

#[test]
fn a_dry_run_only_prints() {
    let modules = vec![main_module(&["http_get", "str_join"])];
    let entries = vec![entry("main.ts", Some("main"), "")];
    let steps = cmd_prepare(&entries, &modules, &vec![], "prepare", true, false);
    assert!(steps.iter().all(|s| matches!(s, PrepareStep::Print(_))));
    let d = describe_all(&steps);
    assert!(d.contains(&"print     - http → templates/tsnp/http/".to_string()));
    assert!(d.contains(&"print   📁 prepare/tsnp/string".to_string()));
    assert!(d.contains(&"print      📝 Functions: (will be added manually)".to_string()));
    assert_eq!(d[d.len() - 3], "print ✅ Would prepare 2 plugin(s) with 0 function(s)");
    assert_eq!(d[d.len() - 2], "print    - 1 official (ready to use)");
    assert_eq!(d[d.len() - 1], "print    - 1 custom (need implementation)");
}

#[test]
fn declarations_are_the_fallback() {
    let modules = vec![ModuleSummary { sites: vec![call("print")], fn_decls: vec!["main".to_string()] }];
    let entries = vec![entry("main.ts", Some("main"), "")];
    let sources = vec!["declare function mylib_add(a: number, b: number): number;\ndeclare function fs_x(): void;".to_string()];
    let steps = cmd_prepare(&entries, &modules, &sources, "prepare", true, false);
    let d = describe_all(&steps);
    assert_eq!(d[0], "print   \u{26a0}\u{fe0f}  No plugin APIs detected via AST, trying declare function parsing...");
    assert_eq!(d[1], "print   ✓ Parsed 2 FFI functions via declare statements");
    assert!(d.contains(&"print         - mylib_add(a: number, b: number) -> number".to_string()));
    assert!(d.contains(&"print     - fs → templates/tsnp/fs/".to_string()));
    assert_eq!(d[d.len() - 3], "print ✅ Would prepare 2 plugin(s) with 2 function(s)");
}

#[test]
fn nothing_to_prepare() {
    let modules = vec![ModuleSummary { sites: vec![], fn_decls: vec![] }];
    let entries = vec![entry("main.ts", Some("main"), "")];
    let steps = cmd_prepare(&entries, &modules, &vec!["let x = 1;".to_string()], "prepare", false, false);
    let d = describe_all(&steps);
    assert_eq!(d.len(), 2);
    assert_eq!(d[1], "fail nothing");
}

#[test]
fn a_real_run_refuses_an_existing_output_first() {
    let g = PluginGroup {
        name: "mylib".to_string(),
        functions: vec![FFIFunction {
            name: "mylib_f".to_string(),
            params: vec![ParamInfo { name: "s".to_string(), param_type: "string".to_string() }],
            return_type: "string".to_string(),
        }],
    };
    let steps = generate_plugins_from_groups(&vec![], &vec![g], "out", false, true, &vec![], &vec![]);
    let d = describe_all(&steps);
    assert_eq!(d[1], "refuse out");
    assert!(d[..1].iter().all(|s| s.starts_with("print")));
    assert_eq!(d[d.len() - 3], "print ✅ Prepared 1 plugin(s) with 1 function(s)");
    assert!(written(&steps, "out/tsnp/mylib/mylib_win.c").contains("// double mylib_f(double p0) {\n"));
}

#[test]
fn the_dry_run_plan_of_groups() {
    let og = vec![PluginGroup { name: "json".to_string(), functions: vec![] }];
    let steps = dry_run_plan("out", &og, &vec![]);
    assert_eq!(
        describe_all(&steps),
        vec![
            "print \n🔍 Preview mode (no files will be written):\n",
            "print 📦 Official Plugins (available from tsnp-contrib):",
            "print   📄 has-tsnp-contrib.txt (list of official plugins)",
            "print   📁 templates/tsnp/ (empty templates for each plugin)",
            "print     - json → templates/tsnp/json/",
            "print ",
            "print ✅ Would prepare 1 plugin(s) with 0 function(s)",
            "print    - 1 official (ready to use)",
            "print    - 0 custom (need implementation)",
        ]
    );
}
