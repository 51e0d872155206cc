//! The text of the files generated for a custom plugin: the C sources for
//! each platform, with stub functions or commented templates, the main
//! manifest and the per-platform manifests.

use vstd::prelude::*;
use crate::text::{
    contains_seq, decimal_seq, decimal_string, join_seq, lemma_contains_middle, quoted, quote, replace_seq,
    replace_str, str_equal,
};
use crate::declarations::{FFIFunction, FunctionModel, ParamInfo, ParamModel, function_models};
use crate::files::{PlannedFile, FileModel, file_models};

verus! {

/// `name: type` of a parameter.
pub open spec fn param_signature(p: ParamModel) -> Seq<char> {
    p.name + ": "@ + p.param_type
}

/// The parameters of a function as `name: type` joined by `, `.
pub open spec fn signature_params(params: Seq<ParamModel>) -> Seq<char> {
    join_seq(params.map_values(|p: ParamModel| param_signature(p)), ", "@)
}

/// `double p0, double p1, ...` for `n` parameters.
pub open spec fn double_params(n: nat) -> Seq<char> {
    join_seq(Seq::new(n, |i: int| "double p"@ + decimal_seq(i as nat)), ", "@)
}

/// `name(params) -> ret` of a function.
pub open spec fn function_summary(f: FunctionModel) -> Seq<char> {
    f.name + "("@ + signature_params(f.params) + ") -> "@ + f.return_type
}

fn param_signature_string(p: &ParamInfo) -> (r: String)
    ensures
        r@ == param_signature(p@),
{
    let mut s = p.name.clone();
    s.append(": ");
    s.append(p.param_type.as_str());
    s
}

/// The parameters of a function as `name: type` joined by `, `.
pub fn signature_params_string(params: &Vec<ParamInfo>) -> (r: String)
    ensures
        r@ == signature_params(params@.map_values(|p: ParamInfo| p@)),
{
    let ghost ps = params@.map_values(|p: ParamInfo| p@);
    let ghost parts = ps.map_values(|p: ParamModel| param_signature(p));
    let mut out = String::new();
    let mut i: usize = 0;
    while i < params.len()
        invariant
            ps == params@.map_values(|p: ParamInfo| p@),
            parts == ps.map_values(|p: ParamModel| param_signature(p)),
            i <= params.len(),
            out@ == join_seq(parts.subrange(0, i as int), ", "@),
        decreases params.len() - i,
    {
        let ghost prefix = parts.subrange(0, i as int + 1);
        assert(prefix.drop_last() =~= parts.subrange(0, i as int));
        if i > 0 {
            out.append(", ");
        } else {
            assert(parts.subrange(0, 0) =~= Seq::<Seq<char>>::empty());
        }
        let piece = param_signature_string(&params[i]);
        out.append(piece.as_str());
        i = i + 1;
    }
    assert(parts.subrange(0, params.len() as int) =~= parts);
    out
}

/// `double p0, double p1, ...` for `n` parameters.
pub fn double_params_string(n: usize) -> (r: String)
    ensures
        r@ == double_params(n as nat),
{
    let ghost parts = Seq::new(n as nat, |i: int| "double p"@ + decimal_seq(i as nat));
    let mut out = String::new();
    let mut i: usize = 0;
    while i < n
        invariant
            parts == Seq::new(n as nat, |i: int| "double p"@ + decimal_seq(i as nat)),
            i <= n,
            out@ == join_seq(parts.subrange(0, i as int), ", "@),
        decreases n - i,
    {
        let ghost prefix = parts.subrange(0, i as int + 1);
        assert(prefix.drop_last() =~= parts.subrange(0, i as int));
        if i > 0 {
            out.append(", ");
        } else {
            assert(parts.subrange(0, 0) =~= Seq::<Seq<char>>::empty());
        }
        out.append("double p");
        let d = decimal_string(i);
        out.append(d.as_str());
        i = i + 1;
    }
    assert(parts.subrange(0, n as int) =~= parts);
    out
}

/// `name(params) -> ret` of a function.
pub fn function_summary_string(f: &FFIFunction) -> (r: String)
    ensures
        r@ == function_summary(f@),
{
    let mut s = f.name.clone();
    s.append("(");
    let ps = signature_params_string(&f.params);
    s.append(ps.as_str());
    s.append(") -> ");
    s.append(f.return_type.as_str());
    s
}

/// The lines that unpack parameter `index` of a stub into a local of its
/// TypeScript type; `marked` adds the line that marks the local as unused.
pub open spec fn unpack_text(p: ParamModel, index: nat, marked: bool) -> Seq<char> {
    let arg = "p"@ + decimal_seq(index);
    if p.param_type == "string"@ {
        "    const char* "@ + p.name + " = js_string_unpack("@ + arg + ");\n"@ + if marked {
            "    (void)"@ + p.name + "; // Stub: parameter unpacked but not used\n"@
        } else {
            seq![]
        }
    } else if p.param_type == "number"@ {
        "    double "@ + p.name + " = "@ + arg + ";\n"@ + if marked {
            "    (void)"@ + p.name + "; // Stub: parameter not used\n"@
        } else {
            seq![]
        }
    } else if p.param_type == "boolean"@ {
        "    int "@ + p.name + " = (int)"@ + arg + ";\n"@ + if marked {
            "    (void)"@ + p.name + "; // Stub: parameter not used\n"@
        } else {
            seq![]
        }
    } else {
        "    // TODO: Unpack parameter '"@ + p.name + "' of type '"@ + p.param_type + "'\n"@
    }
}

/// The unpacking lines of all parameters, in order.
pub open spec fn unpack_all(params: Seq<ParamModel>, marked: bool) -> Seq<char>
    decreases params.len(),
{
    if params.len() == 0 {
        seq![]
    } else {
        unpack_all(params.drop_last(), marked) + unpack_text(params.last(), (params.len() - 1) as nat, marked)
    }
}

/// The debug output of one parameter: its name, then its value when it is a
/// string (always when `all_values`), else a note.
pub open spec fn debug_text(p: ParamModel, all_values: bool) -> Seq<char> {
    "    console_debug(\"    "@ + p.name + ": \");\n"@ + if all_values || p.param_type == "string"@ {
        "    console_debug("@ + p.name + ");\n"@
    } else {
        "    // TODO: Debug output for "@ + p.name + "\n"@
    }
}

/// The debug output of all parameters, in order.
pub open spec fn debug_all(params: Seq<ParamModel>, all_values: bool) -> Seq<char>
    decreases params.len(),
{
    if params.len() == 0 {
        seq![]
    } else {
        debug_all(params.drop_last(), all_values) + debug_text(params.last(), all_values)
    }
}

/// The debug block of a stub: nothing without parameters.
pub open spec fn debug_block(params: Seq<ParamModel>, all_values: bool) -> Seq<char> {
    if params.len() == 0 {
        seq![]
    } else {
        "    console_debug(\"  Parameters:\");\n"@ + debug_all(params, all_values)
    }
}

/// The default value a stub returns for a TypeScript return type; `other`
/// is used for a type without a default.
pub open spec fn return_text(ret: Seq<char>, other: Seq<char>) -> Seq<char> {
    if ret == "string"@ {
        "    // Stub: return empty string\n    return js_string_new(\"\", 0);\n"@
    } else if ret == "number"@ {
        "    // Stub: return 0\n    return 0.0;\n"@
    } else if ret == "boolean"@ {
        "    // Stub: return false\n    return 0;\n"@
    } else if ret == "array"@ {
        "    // Stub: return empty array []\n    return js_array_new(0);\n"@
    } else if ret == "object"@ {
        "    // Stub: return empty object {}\n    return js_object_new();\n"@
    } else if ret == "null"@ {
        "    // Stub: return null\n    return js_null();\n"@
    } else if ret == "undefined"@ {
        "    // Stub: return undefined\n    return js_undefined_public();\n"@
    } else if ret == "void"@ {
        "    // Stub: void function\n    return 0;\n"@
    } else {
        other
    }
}

/// The stub of a function that warns on the console when called: a header
/// comment, the unpacked parameters, a warning, the parameters' debug output
/// and the default value of the return type.
pub open spec fn stub_with_console_text(f: FunctionModel) -> Seq<char> {
    "// ============================================================\n// "@ + function_summary(f)
        + "\n// ⚠️ STUB: Returns default value, replace with real implementation\n// ============================================================\ndouble "@
        + f.name + "("@ + double_params(f.params.len()) + ") {\n"@ + unpack_all(f.params, false)
        + "\n    // ⚠️ STUB: Replace with real implementation\n    console_err(\"⚠️ "@ + f.name
        + " called (stub implementation)\");\n"@ + debug_block(f.params, false) + "\n"@
        + return_text(
        f.return_type,
        "    console_err(\"⚠️ Unknown return type '"@ + f.return_type + "', returning 0\");\n    return 0;\n"@,
    ) + "}\n\n"@
}

/// The full C implementation of a function stub, with every parameter
/// unpacked and marked unused.
pub open spec fn function_impl_text(f: FunctionModel) -> Seq<char> {
    "double "@ + f.name + "("@ + double_params(f.params.len()) + ") {\n"@ + unpack_all(f.params, true)
        + "\n    // ⚠️ STUB: Replace with real implementation\n    console_err(\"⚠️ "@ + f.name
        + " called (stub implementation)\");\n"@ + debug_block(f.params, true) + "\n"@ + return_text(
        f.return_type,
        "    // TODO: Pack return value of type '"@ + f.return_type + "'\n    return 0;\n"@,
    ) + "}\n"@
}

fn unpack_string(p: &ParamInfo, index: usize, marked: bool) -> (r: String)
    ensures
        r@ == unpack_text(p@, index as nat, marked),
{
    let mut arg = String::from_str("p");
    let d = decimal_string(index);
    arg.append(d.as_str());
    let mut out = String::new();
    if str_equal(p.param_type.as_str(), "string") {
        out.append("    const char* ");
        out.append(p.name.as_str());
        out.append(" = js_string_unpack(");
        out.append(arg.as_str());
        out.append(");\n");
        if marked {
            out.append("    (void)");
            out.append(p.name.as_str());
            out.append("; // Stub: parameter unpacked but not used\n");
        }
    } else if str_equal(p.param_type.as_str(), "number") {
        out.append("    double ");
        out.append(p.name.as_str());
        out.append(" = ");
        out.append(arg.as_str());
        out.append(";\n");
        if marked {
            out.append("    (void)");
            out.append(p.name.as_str());
            out.append("; // Stub: parameter not used\n");
        }
    } else if str_equal(p.param_type.as_str(), "boolean") {
        out.append("    int ");
        out.append(p.name.as_str());
        out.append(" = (int)");
        out.append(arg.as_str());
        out.append(";\n");
        if marked {
            out.append("    (void)");
            out.append(p.name.as_str());
            out.append("; // Stub: parameter not used\n");
        }
    } else {
        out.append("    // TODO: Unpack parameter '");
        out.append(p.name.as_str());
        out.append("' of type '");
        out.append(p.param_type.as_str());
        out.append("'\n");
    }
    out
}

fn unpack_all_string(params: &Vec<ParamInfo>, marked: bool) -> (r: String)
    ensures
        r@ == unpack_all(params@.map_values(|p: ParamInfo| p@), marked),
{
    let ghost ps = params@.map_values(|p: ParamInfo| p@);
    let mut out = String::new();
    let mut i: usize = 0;
    assert(ps.subrange(0, 0) =~= Seq::<ParamModel>::empty());
    while i < params.len()
        invariant
            ps == params@.map_values(|p: ParamInfo| p@),
            i <= params.len(),
            out@ == unpack_all(ps.subrange(0, i as int), marked),
        decreases params.len() - i,
    {
        let ghost prefix = ps.subrange(0, i as int + 1);
        assert(prefix.drop_last() =~= ps.subrange(0, i as int));
        let piece = unpack_string(&params[i], i, marked);
        out.append(piece.as_str());
        i = i + 1;
    }
    assert(ps.subrange(0, params.len() as int) =~= ps);
    out
}

fn debug_string(p: &ParamInfo, all_values: bool) -> (r: String)
    ensures
        r@ == debug_text(p@, all_values),
{
    let mut out = String::from_str("    console_debug(\"    ");
    out.append(p.name.as_str());
    out.append(": \");\n");
    if all_values || str_equal(p.param_type.as_str(), "string") {
        out.append("    console_debug(");
        out.append(p.name.as_str());
        out.append(");\n");
    } else {
        out.append("    // TODO: Debug output for ");
        out.append(p.name.as_str());
        out.append("\n");
    }
    out
}

fn debug_block_string(params: &Vec<ParamInfo>, all_values: bool) -> (r: String)
    ensures
        r@ == debug_block(params@.map_values(|p: ParamInfo| p@), all_values),
{
    let ghost ps = params@.map_values(|p: ParamInfo| p@);
    let mut out = String::new();
    if params.len() == 0 {
        return out;
    }
    out.append("    console_debug(\"  Parameters:\");\n");
    let ghost head = out@;
    let mut i: usize = 0;
    assert(ps.subrange(0, 0) =~= Seq::<ParamModel>::empty());
    while i < params.len()
        invariant
            ps == params@.map_values(|p: ParamInfo| p@),
            head == "    console_debug(\"  Parameters:\");\n"@,
            i <= params.len(),
            out@ == head + debug_all(ps.subrange(0, i as int), all_values),
        decreases params.len() - i,
    {
        let ghost prefix = ps.subrange(0, i as int + 1);
        assert(prefix.drop_last() =~= ps.subrange(0, i as int));
        let piece = debug_string(&params[i], all_values);
        out.append(piece.as_str());
        i = i + 1;
    }
    assert(ps.subrange(0, params.len() as int) =~= ps);
    out
}

fn return_string(ret: &str, other: String) -> (r: String)
    ensures
        r@ == return_text(ret@, other@),
{
    if str_equal(ret, "string") {
        String::from_str("    // Stub: return empty string\n    return js_string_new(\"\", 0);\n")
    } else if str_equal(ret, "number") {
        String::from_str("    // Stub: return 0\n    return 0.0;\n")
    } else if str_equal(ret, "boolean") {
        String::from_str("    // Stub: return false\n    return 0;\n")
    } else if str_equal(ret, "array") {
        String::from_str("    // Stub: return empty array []\n    return js_array_new(0);\n")
    } else if str_equal(ret, "object") {
        String::from_str("    // Stub: return empty object {}\n    return js_object_new();\n")
    } else if str_equal(ret, "null") {
        String::from_str("    // Stub: return null\n    return js_null();\n")
    } else if str_equal(ret, "undefined") {
        String::from_str("    // Stub: return undefined\n    return js_undefined_public();\n")
    } else if str_equal(ret, "void") {
        String::from_str("    // Stub: void function\n    return 0;\n")
    } else {
        other
    }
}

/// The C stub of a declared function that warns on the console when it is
/// called and returns the default value of its return type.
pub fn generate_function_stub_with_console(func: &FFIFunction) -> (r: String)
    ensures
        r@ == stub_with_console_text(func@),
{
    let mut out = String::from_str("// ============================================================\n// ");
    let summary = function_summary_string(func);
    out.append(summary.as_str());
    out.append(
        "\n// ⚠️ STUB: Returns default value, replace with real implementation\n// ============================================================\ndouble ",
    );
    out.append(func.name.as_str());
    out.append("(");
    let decls = double_params_string(func.params.len());
    out.append(decls.as_str());
    out.append(") {\n");
    let unpack = unpack_all_string(&func.params, false);
    out.append(unpack.as_str());
    out.append("\n    // ⚠️ STUB: Replace with real implementation\n    console_err(\"⚠️ ");
    out.append(func.name.as_str());
    out.append(" called (stub implementation)\");\n");
    let debug = debug_block_string(&func.params, false);
    out.append(debug.as_str());
    out.append("\n");
    let mut other = String::from_str("    console_err(\"⚠️ Unknown return type '");
    other.append(func.return_type.as_str());
    other.append("', returning 0\");\n    return 0;\n");
    let ret = return_string(func.return_type.as_str(), other);
    out.append(ret.as_str());
    out.append("}\n\n");
    out
}

/// The full C implementation of a declared function's stub: every parameter
/// unpacked and marked unused, all values printed, and the default value of
/// the return type.
pub fn generate_function_impl(func: &FFIFunction) -> (r: String)
    ensures
        r@ == function_impl_text(func@),
{
    let mut out = String::from_str("double ");
    out.append(func.name.as_str());
    out.append("(");
    let decls = double_params_string(func.params.len());
    out.append(decls.as_str());
    out.append(") {\n");
    let unpack = unpack_all_string(&func.params, true);
    out.append(unpack.as_str());
    out.append("\n    // ⚠️ STUB: Replace with real implementation\n    console_err(\"⚠️ ");
    out.append(func.name.as_str());
    out.append(" called (stub implementation)\");\n");
    let debug = debug_block_string(&func.params, true);
    out.append(debug.as_str());
    out.append("\n");
    let mut other = String::from_str("    // TODO: Pack return value of type '");
    other.append(func.return_type.as_str());
    other.append("'\n    return 0;\n");
    let ret = return_string(func.return_type.as_str(), other);
    out.append(ret.as_str());
    out.append("}\n");
    out
}


/// The display name of a platform key: `Windows`, `Linux`, `macOS`, or
/// `Unknown` for any other key.
pub open spec fn platform_name(platform: Seq<char>) -> Seq<char> {
    if platform == "win"@ {
        "Windows"@
    } else if platform == "linux"@ {
        "Linux"@
    } else if platform == "macos"@ {
        "macOS"@
    } else {
        "Unknown"@
    }
}

/// The display name of a platform key.
pub fn get_platform_name(platform: &str) -> (r: &'static str)
    ensures
        r@ == platform_name(platform@),
{
    if str_equal(platform, "win") {
        "Windows"
    } else if str_equal(platform, "linux") {
        "Linux"
    } else if str_equal(platform, "macos") {
        "macOS"
    } else {
        "Unknown"
    }
}

/// A plugin name as it appears in C file names: dashes become underscores.
pub open spec fn c_name(plugin_name: Seq<char>) -> Seq<char> {
    replace_seq(plugin_name, "-"@, "_"@)
}

/// A plugin name with its dashes replaced by underscores.
pub fn normalize_plugin_name(plugin_name: &str) -> (r: String)
    ensures
        r@ == c_name(plugin_name@),
{
    proof {
        reveal_strlit("-");
    }
    replace_str(plugin_name, "-", "_")
}

/// The commented template of one function in a C file generated without
/// stubs.
pub open spec fn template_text(f: FunctionModel) -> Seq<char> {
    "// ============================================================\n// "@ + function_summary(f)
        + "\n//\n// double "@ + f.name + "("@ + double_params(f.params.len()) + ") {\n"@
        + "//     // TODO: Implement your logic here\n//     return 0;\n// }\n\n"@
}

/// The templates of all functions, in order.
pub open spec fn templates_text(fs: Seq<FunctionModel>) -> Seq<char>
    decreases fs.len(),
{
    if fs.len() == 0 {
        seq![]
    } else {
        templates_text(fs.drop_last()) + template_text(fs.last())
    }
}

/// The stubs of all functions, in order.
pub open spec fn stubs_text(fs: Seq<FunctionModel>) -> Seq<char>
    decreases fs.len(),
{
    if fs.len() == 0 {
        seq![]
    } else {
        stubs_text(fs.drop_last()) + stub_with_console_text(fs.last())
    }
}

/// The runtime functions that a Windows plugin source declares.
pub open spec fn runtime_externs_text() -> Seq<char> {
    "#include <windows.h>\n\n// Runtime external functions\nextern double js_string_new(const char* data, unsigned int len);\nextern const char* js_string_unpack(double val);\nextern double js_number_new(double val);\nextern double js_boolean_new(int val);\nextern double js_undefined();\nextern double js_null();\nextern double js_undefined_public();\nextern double js_array_new(double capacity);\nextern double js_object_new();\nextern double console_log(double msg_val);\nextern double console_debug(double msg_val);\nextern double console_err(double msg_val);\n\n"@
}

/// The C source of a custom plugin for one platform. The Windows source
/// declares the runtime and holds, per function, a stub that warns when
/// called, or with `no_stubs` a commented template; the other platforms get
/// a placeholder.
pub open spec fn c_file_text(plugin_name: Seq<char>, fs: Seq<FunctionModel>, platform: Seq<char>, no_stubs: bool) -> Seq<char> {
    "// "@ + platform_name(platform) + " Implementation for "@ + plugin_name
        + "\n// Auto-generated by cargo tsn prepare\n// TODO: Implement your platform-specific functions here\n\n"@
        + if platform == "win"@ {
        runtime_externs_text() + if no_stubs {
            "// Function templates (copy and implement as needed):\n\n"@ + templates_text(fs)
        } else {
            "// Function implementations (stub with console warnings):\n\n"@ + stubs_text(fs)
        }
    } else {
        "// TODO: Implement "@ + plugin_name + " functions for "@ + platform_name(platform)
            + "\n// This is a placeholder file.\n// Add your platform-specific implementations here.\n"@
    }
}

/// The path of the C source of a plugin for one platform.
pub open spec fn c_file_path(plugin_dir: Seq<char>, plugin_name: Seq<char>, platform: Seq<char>) -> Seq<char> {
    plugin_dir + "/"@ + c_name(plugin_name) + "_"@ + platform + ".c"@
}

fn templates_string(functions: &Vec<FFIFunction>) -> (r: String)
    ensures
        r@ == templates_text(function_models(functions@)),
{
    let ghost fs = function_models(functions@);
    let mut out = String::new();
    let mut i: usize = 0;
    assert(fs.subrange(0, 0) =~= Seq::<FunctionModel>::empty());
    while i < functions.len()
        invariant
            fs == function_models(functions@),
            i <= functions.len(),
            out@ == templates_text(fs.subrange(0, i as int)),
        decreases functions.len() - i,
    {
        let ghost prefix = fs.subrange(0, i as int + 1);
        assert(prefix.drop_last() =~= fs.subrange(0, i as int));
        let f = &functions[i];
        out.append("// ============================================================\n// ");
        let summary = function_summary_string(f);
        out.append(summary.as_str());
        out.append("\n//\n// double ");
        out.append(f.name.as_str());
        out.append("(");
        let decls = double_params_string(f.params.len());
        out.append(decls.as_str());
        out.append(") {\n");
        out.append("//     // TODO: Implement your logic here\n//     return 0;\n// }\n\n");
        i = i + 1;
    }
    assert(fs.subrange(0, functions.len() as int) =~= fs);
    out
}

fn stubs_string(functions: &Vec<FFIFunction>) -> (r: String)
    ensures
        r@ == stubs_text(function_models(functions@)),
{
    let ghost fs = function_models(functions@);
    let mut out = String::new();
    let mut i: usize = 0;
    assert(fs.subrange(0, 0) =~= Seq::<FunctionModel>::empty());
    while i < functions.len()
        invariant
            fs == function_models(functions@),
            i <= functions.len(),
            out@ == stubs_text(fs.subrange(0, i as int)),
        decreases functions.len() - i,
    {
        let ghost prefix = fs.subrange(0, i as int + 1);
        assert(prefix.drop_last() =~= fs.subrange(0, i as int));
        let stub = generate_function_stub_with_console(&functions[i]);
        out.append(stub.as_str());
        i = i + 1;
    }
    assert(fs.subrange(0, functions.len() as int) =~= fs);
    out
}

/// The C source of a custom plugin for one platform, at
/// `plugin_dir/<plugin>_<platform>.c` where the plugin's dashes become
/// underscores.
pub fn generate_c_file(plugin_dir: &str, plugin_name: &str, functions: &Vec<FFIFunction>, platform: &str, no_stubs: bool) -> (r: PlannedFile)
    ensures
        r@ == (FileModel {
            path: c_file_path(plugin_dir@, plugin_name@, platform@),
            content: c_file_text(plugin_name@, function_models(functions@), platform@, no_stubs),
        }),
{
    let mut path = String::from_str(plugin_dir);
    path.append("/");
    let cn = normalize_plugin_name(plugin_name);
    path.append(cn.as_str());
    path.append("_");
    path.append(platform);
    path.append(".c");
    let pname = get_platform_name(platform);
    let mut content = String::from_str("// ");
    content.append(pname);
    content.append(" Implementation for ");
    content.append(plugin_name);
    content.append(
        "\n// Auto-generated by cargo tsn prepare\n// TODO: Implement your platform-specific functions here\n\n",
    );
    if str_equal(platform, "win") {
        content.append(
            "#include <windows.h>\n\n// Runtime external functions\nextern double js_string_new(const char* data, unsigned int len);\nextern const char* js_string_unpack(double val);\nextern double js_number_new(double val);\nextern double js_boolean_new(int val);\nextern double js_undefined();\nextern double js_null();\nextern double js_undefined_public();\nextern double js_array_new(double capacity);\nextern double js_object_new();\nextern double console_log(double msg_val);\nextern double console_debug(double msg_val);\nextern double console_err(double msg_val);\n\n",
        );
        if no_stubs {
            content.append("// Function templates (copy and implement as needed):\n\n");
            let t = templates_string(functions);
            content.append(t.as_str());
        } else {
            content.append("// Function implementations (stub with console warnings):\n\n");
            let t = stubs_string(functions);
            content.append(t.as_str());
        }
    } else {
        content.append("// TODO: Implement ");
        content.append(plugin_name);
        content.append(" functions for ");
        content.append(pname);
        content.append(
            "\n// This is a placeholder file.\n// Add your platform-specific implementations here.\n",
        );
    }
    assert(path@ =~= c_file_path(plugin_dir@, plugin_name@, platform@));
    assert(content@ =~= c_file_text(plugin_name@, function_models(functions@), platform@, no_stubs));
    PlannedFile { path, content }
}

/// One `[signatures]` line of the main manifest.
pub open spec fn signature_line(f: FunctionModel) -> Seq<char> {
    quoted(f.name) + " = \"function("@ + signature_params(f.params) + "): "@ + f.return_type + "\"\n"@
}

/// The `[signatures]` lines of all functions.
pub open spec fn signature_lines(fs: Seq<FunctionModel>) -> Seq<char>
    decreases fs.len(),
{
    if fs.len() == 0 {
        seq![]
    } else {
        signature_lines(fs.drop_last()) + signature_line(fs.last())
    }
}

/// The main manifest `ts-native.toml` of a custom plugin: package `tsnp-<name>`
/// at priority 1000, the per-platform includes, each function's signature
/// and the build checks.
pub open spec fn main_toml_text(plugin_name: Seq<char>, fs: Seq<FunctionModel>) -> Seq<char> {
    "# ts-native Plugin Configuration\n# Auto-generated by cargo tsn prepare\n# Plugin: "@ + plugin_name
        + "\n\n[package]\nname = \"tsnp-"@ + plugin_name
        + "\"\nversion = \"0.1.0\"\npriority = 1000\n\n[includes]\nwin = \"ts-native-win.toml\"\nlinux = \"ts-native-linux.toml\"\nmacos = \"ts-native-macos.toml\"\n\n[signatures]\n"@
        + signature_lines(fs)
        + "\n[build]\nwarn_on_missing = true\nerror_on_mismatch = true\n"@
}

/// The main manifest of a custom plugin, at `plugin_dir/ts-native.toml`.
pub fn generate_main_toml(plugin_dir: &str, plugin_name: &str, functions: &Vec<FFIFunction>) -> (r: PlannedFile)
    ensures
        r@ == (FileModel {
            path: plugin_dir@ + "/ts-native.toml"@,
            content: main_toml_text(plugin_name@, function_models(functions@)),
        }),
{
    let mut path = String::from_str(plugin_dir);
    path.append("/ts-native.toml");
    let mut content = String::from_str("# ts-native Plugin Configuration\n# Auto-generated by cargo tsn prepare\n# Plugin: ");
    content.append(plugin_name);
    content.append("\n\n[package]\nname = \"tsnp-");
    content.append(plugin_name);
    content.append(
        "\"\nversion = \"0.1.0\"\npriority = 1000\n\n[includes]\nwin = \"ts-native-win.toml\"\nlinux = \"ts-native-linux.toml\"\nmacos = \"ts-native-macos.toml\"\n\n[signatures]\n",
    );
    let ghost fs = function_models(functions@);
    let ghost head = content@;
    let mut i: usize = 0;
    assert(fs.subrange(0, 0) =~= Seq::<FunctionModel>::empty());
    while i < functions.len()
        invariant
            fs == function_models(functions@),
            i <= functions.len(),
            content@ == head + signature_lines(fs.subrange(0, i as int)),
        decreases functions.len() - i,
    {
        let ghost prefix = fs.subrange(0, i as int + 1);
        assert(prefix.drop_last() =~= fs.subrange(0, i as int));
        let f = &functions[i];
        let q = quote(f.name.as_str());
        content.append(q.as_str());
        content.append(" = \"function(");
        let ps = signature_params_string(&f.params);
        content.append(ps.as_str());
        content.append("): ");
        content.append(f.return_type.as_str());
        content.append("\"\n");
        i = i + 1;
    }
    assert(fs.subrange(0, functions.len() as int) =~= fs);
    content.append("\n[build]\nwarn_on_missing = true\nerror_on_mismatch = true\n");
    PlannedFile { path, content }
}

/// The architectures listed for a platform key.
pub open spec fn platform_arch_list(platform: Seq<char>) -> Seq<char> {
    if platform == "win"@ || platform == "linux"@ || platform == "macos"@ {
        "\"x86_64\", \"arm64\""@
    } else {
        "\"x86_64\""@
    }
}

/// The system API family that a platform's functions use.
pub open spec fn platform_system(platform: Seq<char>) -> Seq<char> {
    if platform == "win"@ {
        "SystemAPI"@
    } else {
        "POSIX"@
    }
}

/// The parameter types of a function, each quoted, joined by `, `.
pub open spec fn quoted_param_types(params: Seq<ParamModel>) -> Seq<char> {
    join_seq(params.map_values(|p: ParamModel| quoted(p.param_type)), ", "@)
}

/// One function entry of a platform manifest: a TOML inline table on a
/// line of its own, followed by an empty line.
pub open spec fn platform_function_text(f: FunctionModel, platform: Seq<char>) -> Seq<char> {
    quoted(f.name) + " = { impl = "@ + quoted(f.name) + ", enabled = true, system = "@
        + quoted(platform_system(platform)) + ", args = ["@ + quoted_param_types(f.params)
        + "], ret = "@ + quoted(f.return_type)
        + ", description = \"TODO: Add description\" }\n\n"@
}

/// The function entries of a platform manifest.
pub open spec fn platform_functions_text(fs: Seq<FunctionModel>, platform: Seq<char>) -> Seq<char>
    decreases fs.len(),
{
    if fs.len() == 0 {
        seq![]
    } else {
        platform_functions_text(fs.drop_last(), platform) + platform_function_text(fs.last(), platform)
    }
}

/// The manifest of a custom plugin for one platform: the platform, its
/// default library and one entry per function.
pub open spec fn platform_toml_text(plugin_name: Seq<char>, fs: Seq<FunctionModel>, platform: Seq<char>) -> Seq<char> {
    let os = platform_name(platform);
    "# "@ + os + " Platform Configuration\n# Auto-generated by cargo tsn prepare for plugin '"@
        + plugin_name + "'\n\n[platform]\nname = "@ + quoted(os) + "\nos = "@ + quoted(platform)
        + "\narch = ["@ + platform_arch_list(platform) + "]\ndescription = \""@ + os
        + " platform\"\nauthor = \"ts-native user\"\n\n[libs.default]\ndescription = \"Default library\"\nrequired = true\n\n[libs.default.functions]\n"@
        + platform_functions_text(fs, platform)
}

fn quoted_param_types_string(params: &Vec<ParamInfo>) -> (r: String)
    ensures
        r@ == quoted_param_types(params@.map_values(|p: ParamInfo| p@)),
{
    let ghost ps = params@.map_values(|p: ParamInfo| p@);
    let ghost parts = ps.map_values(|p: ParamModel| quoted(p.param_type));
    let mut out = String::new();
    let mut i: usize = 0;
    while i < params.len()
        invariant
            ps == params@.map_values(|p: ParamInfo| p@),
            parts == ps.map_values(|p: ParamModel| quoted(p.param_type)),
            i <= params.len(),
            out@ == join_seq(parts.subrange(0, i as int), ", "@),
        decreases params.len() - i,
    {
        let ghost prefix = parts.subrange(0, i as int + 1);
        assert(prefix.drop_last() =~= parts.subrange(0, i as int));
        if i > 0 {
            out.append(", ");
        } else {
            assert(parts.subrange(0, 0) =~= Seq::<Seq<char>>::empty());
        }
        let q = quote(params[i].param_type.as_str());
        out.append(q.as_str());
        i = i + 1;
    }
    assert(parts.subrange(0, params.len() as int) =~= parts);
    out
}

fn platform_function_string(f: &FFIFunction, system: &str, platform: &str) -> (r: String)
    requires
        system@ == platform_system(platform@),
    ensures
        r@ == platform_function_text(f@, platform@),
{
    let qn = quote(f.name.as_str());
    let mut out = String::new();
    out.append(qn.as_str());
    out.append(" = { impl = ");
    out.append(qn.as_str());
    out.append(", enabled = true, system = ");
    let qs = quote(system);
    out.append(qs.as_str());
    out.append(", args = [");
    let args = quoted_param_types_string(&f.params);
    out.append(args.as_str());
    out.append("], ret = ");
    let qr = quote(f.return_type.as_str());
    out.append(qr.as_str());
    out.append(", description = \"TODO: Add description\" }\n\n");
    out
}

/// The manifest of a custom plugin for one platform, at
/// `plugin_dir/ts-native-<platform>.toml`.
pub fn generate_platform_toml(plugin_dir: &str, plugin_name: &str, functions: &Vec<FFIFunction>, platform: &str) -> (r: PlannedFile)
    ensures
        r@ == (FileModel {
            path: plugin_dir@ + "/ts-native-"@ + platform@ + ".toml"@,
            content: platform_toml_text(plugin_name@, function_models(functions@), platform@),
        }),
{
    let mut path = String::from_str(plugin_dir);
    path.append("/ts-native-");
    path.append(platform);
    path.append(".toml");
    let os = get_platform_name(platform);
    let arch: &str = if str_equal(platform, "win") || str_equal(platform, "linux") || str_equal(platform, "macos") {
        "\"x86_64\", \"arm64\""
    } else {
        "\"x86_64\""
    };
    let system: &str = if str_equal(platform, "win") { "SystemAPI" } else { "POSIX" };
    let mut content = String::from_str("# ");
    content.append(os);
    content.append(" Platform Configuration\n# Auto-generated by cargo tsn prepare for plugin '");
    content.append(plugin_name);
    content.append("'\n\n[platform]\nname = ");
    let q = quote(os);
    content.append(q.as_str());
    content.append("\nos = ");
    let q = quote(platform);
    content.append(q.as_str());
    content.append("\narch = [");
    content.append(arch);
    content.append("]\ndescription = \"");
    content.append(os);
    content.append(
        " platform\"\nauthor = \"ts-native user\"\n\n[libs.default]\ndescription = \"Default library\"\nrequired = true\n\n[libs.default.functions]\n",
    );
    let ghost fs = function_models(functions@);
    let ghost head = content@;
    let mut i: usize = 0;
    assert(fs.subrange(0, 0) =~= Seq::<FunctionModel>::empty());
    while i < functions.len()
        invariant
            fs == function_models(functions@),
            i <= functions.len(),
            system@ == platform_system(platform@),
            content@ == head + platform_functions_text(fs.subrange(0, i as int), platform@),
        decreases functions.len() - i,
    {
        let ghost prefix = fs.subrange(0, i as int + 1);
        assert(prefix.drop_last() =~= fs.subrange(0, i as int));
        let piece = platform_function_string(&functions[i], system, platform);
        content.append(piece.as_str());
        i = i + 1;
    }
    assert(fs.subrange(0, functions.len() as int) =~= fs);
    PlannedFile { path, content }
}

/// The directory of a custom plugin under the output directory.
pub open spec fn plugin_dir_path(output_dir: Seq<char>, plugin_name: Seq<char>) -> Seq<char> {
    output_dir + "/tsnp/"@ + plugin_name
}

#[verifier::opaque]
/// The seven files of a custom plugin, in the order they are written: the C
/// sources for Windows, Linux and macOS, the main manifest, then the
/// manifests for Windows, Linux and macOS.
pub open spec fn plugin_files(output_dir: Seq<char>, plugin_name: Seq<char>, fs: Seq<FunctionModel>, no_stubs: bool) -> Seq<FileModel> {
    let dir = plugin_dir_path(output_dir, plugin_name);
    seq![
        FileModel { path: c_file_path(dir, plugin_name, "win"@), content: c_file_text(plugin_name, fs, "win"@, no_stubs) },
        FileModel { path: c_file_path(dir, plugin_name, "linux"@), content: c_file_text(plugin_name, fs, "linux"@, no_stubs) },
        FileModel { path: c_file_path(dir, plugin_name, "macos"@), content: c_file_text(plugin_name, fs, "macos"@, no_stubs) },
        FileModel { path: dir + "/ts-native.toml"@, content: main_toml_text(plugin_name, fs) },
        FileModel { path: dir + "/ts-native-"@ + "win"@ + ".toml"@, content: platform_toml_text(plugin_name, fs, "win"@) },
        FileModel { path: dir + "/ts-native-"@ + "linux"@ + ".toml"@, content: platform_toml_text(plugin_name, fs, "linux"@) },
        FileModel { path: dir + "/ts-native-"@ + "macos"@ + ".toml"@, content: platform_toml_text(plugin_name, fs, "macos"@) },
    ]
}

/// A custom plugin has seven files.
pub proof fn lemma_plugin_files_len(output_dir: Seq<char>, plugin_name: Seq<char>, fs: Seq<FunctionModel>, no_stubs: bool)
    ensures
        plugin_files(output_dir, plugin_name, fs, no_stubs).len() == 7,
{
    reveal(plugin_files);
}

/// A custom plugin as it is generated: its directory and its files.
pub struct GeneratedPlugin {
    pub dir: String,
    pub files: Vec<PlannedFile>,
}

/// The files of a custom plugin under `output_dir/tsnp/<plugin>`.
pub fn generate_plugin(plugin_name: &str, functions: &Vec<FFIFunction>, output_dir: &str, no_stubs: bool) -> (r: GeneratedPlugin)
    ensures
        r.dir@ == plugin_dir_path(output_dir@, plugin_name@),
        file_models(r.files@) == plugin_files(output_dir@, plugin_name@, function_models(functions@), no_stubs),
{
    let mut dir = String::from_str(output_dir);
    dir.append("/tsnp/");
    dir.append(plugin_name);
    let mut files: Vec<PlannedFile> = Vec::new();
    files.push(generate_c_file(dir.as_str(), plugin_name, functions, "win", no_stubs));
    files.push(generate_c_file(dir.as_str(), plugin_name, functions, "linux", no_stubs));
    files.push(generate_c_file(dir.as_str(), plugin_name, functions, "macos", no_stubs));
    files.push(generate_main_toml(dir.as_str(), plugin_name, functions));
    files.push(generate_platform_toml(dir.as_str(), plugin_name, functions, "win"));
    files.push(generate_platform_toml(dir.as_str(), plugin_name, functions, "linux"));
    files.push(generate_platform_toml(dir.as_str(), plugin_name, functions, "macos"));
    assert(file_models(files@) =~= plugin_files(output_dir@, plugin_name@, function_models(functions@), no_stubs)) by {
        reveal(plugin_files);
    }
    GeneratedPlugin { dir, files }
}

/// The manifests of the three supported platforms, Windows, Linux and
/// macOS, each list both the `x86_64` and the `arm64` architectures, and
/// name the platform's key as its `os`.
pub proof fn law_platform_architectures(plugin_name: Seq<char>, fs: Seq<FunctionModel>, platform: Seq<char>)
    requires
        platform == "win"@ || platform == "linux"@ || platform == "macos"@,
    ensures
        contains_seq(platform_toml_text(plugin_name, fs, platform), "arch = [\"x86_64\", \"arm64\"]"@),
        contains_seq(platform_toml_text(plugin_name, fs, platform), "os = \""@ + platform + "\""@),
{
    let os = platform_name(platform);
    let target = "arch = [\"x86_64\", \"arm64\"]"@;
    reveal_strlit("arch = [\"x86_64\", \"arm64\"]");
    reveal_strlit("\"x86_64\", \"arm64\"");
    reveal_strlit("\narch = [");
    reveal_strlit("arch = [");
    reveal_strlit("]\ndescription = \"");
    reveal_strlit("]");
    reveal_strlit("\ndescription = \"");
    assert("\narch = ["@ =~= seq!['\n'] + "arch = ["@);
    assert("]\ndescription = \""@ =~= "]"@ + "\ndescription = \""@);
    assert(target =~= "arch = ["@ + "\"x86_64\", \"arm64\""@ + "]"@);
    let head = "# "@ + os + " Platform Configuration\n# Auto-generated by cargo tsn prepare for plugin '"@
        + plugin_name + "'\n\n[platform]\nname = "@ + quoted(os) + "\nos = "@ + quoted(platform);
    let tail = "\ndescription = \""@ + os
        + " platform\"\nauthor = \"ts-native user\"\n\n[libs.default]\ndescription = \"Default library\"\nrequired = true\n\n[libs.default.functions]\n"@
        + platform_functions_text(fs, platform);
    assert(platform_toml_text(plugin_name, fs, platform) =~= (head + seq!['\n']) + target + tail);
    lemma_contains_middle(head + seq!['\n'], target, tail);
    let head2 = "# "@ + os + " Platform Configuration\n# Auto-generated by cargo tsn prepare for plugin '"@
        + plugin_name + "'\n\n[platform]\nname = "@ + quoted(os) + seq!['\n'];
    let tail2 = "\narch = ["@ + platform_arch_list(platform) + "]\ndescription = \""@ + os
        + " platform\"\nauthor = \"ts-native user\"\n\n[libs.default]\ndescription = \"Default library\"\nrequired = true\n\n[libs.default.functions]\n"@
        + platform_functions_text(fs, platform);
    reveal_strlit("\nos = ");
    reveal_strlit("os = \"");
    reveal_strlit("\"");
    reveal_strlit("os = ");
    assert("\nos = "@ =~= seq!['\n'] + "os = "@);
    assert("os = \""@ =~= "os = "@ + "\""@);
    let t2 = "os = \""@ + platform + "\""@;
    assert(platform_toml_text(plugin_name, fs, platform) =~= head2 + t2 + tail2);
    lemma_contains_middle(head2, t2, tail2);
}

} // verus!
