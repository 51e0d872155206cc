//! Scaffolding of a project's own FFI crate: TypeScript types inferred from
//! Rust signatures, the Rust stub and TOML entry of an added function, the
//! priority line of a plugin manifest, and the decisions of the interactive
//! function wizard.

use vstd::prelude::*;
use crate::text::{
    contains_seq, contains_str, find_char, find_str, join_seq, join_strings, lemma_find_from_facts,
    lines_seq, lines_str, parse_usize, parse_usize_seq, quote, quote_all, quoted, split_char,
    split_seq, starts_with_seq, starts_with_str, str_equal, trim, trim_seq, find_seq,
    index_of_char, lemma_contains_middle, lemma_join_occurs, lemma_occurs_contains, all_white_space,
    law_trim_settles, lemma_blank_is_white_space, lemma_index_of_char, law_split_joined,
    decimal_seq, lemma_decimal_digits, law_parse_reads_decimal, trim_start_seq, trim_end_seq,
};
use crate::files::{PlannedFile, FileModel, file_models};

verus! {

/// The TypeScript type that a Rust type text maps to.
pub open spec fn ts_type_of(rust_type: Seq<char>) -> Seq<char> {
    let ty = trim_seq(rust_type);
    if ty.len() == 0 || ty == "void"@ || ty == "()"@ {
        "void"@
    } else if contains_seq(ty, "c_char"@) || starts_with_seq(ty, "&str"@) {
        "string"@
    } else if ty == "bool"@ {
        "boolean"@
    } else if contains_seq(ty, "Vec"@) || contains_seq(ty, "slice"@) {
        "array"@
    } else if starts_with_seq(ty, "struct"@) || (starts_with_seq(ty, "&mut"@) && !contains_seq(
        ty,
        "c_char"@,
    )) {
        "object"@
    } else {
        "number"@
    }
}

/// Infers the TypeScript type of a Rust type: `void` for nothing, `()` or
/// `void`; `string` for C strings and `&str`; `boolean`; `array` for vectors
/// and slices; `object` for structs and other mutable references; `number`
/// otherwise.
pub fn infer_ts_type(rust_type: &str) -> (r: String)
    ensures
        r@ == ts_type_of(rust_type@),
{
    let ty = trim(rust_type);
    if ty.unicode_len() == 0 || str_equal(ty, "void") || str_equal(ty, "()") {
        return String::from_str("void");
    }
    if contains_str(ty, "c_char") || starts_with_str(ty, "&str") {
        return String::from_str("string");
    }
    if str_equal(ty, "bool") {
        return String::from_str("boolean");
    }
    if contains_str(ty, "Vec") || contains_str(ty, "slice") {
        return String::from_str("array");
    }
    if starts_with_str(ty, "struct") || (starts_with_str(ty, "&mut") && !contains_str(ty, "c_char")) {
        return String::from_str("object");
    }
    String::from_str("number")
}

/// The TypeScript type of one trimmed, non-empty parameter text `name: type`:
/// the type after the first colon, or `any` when there is no colon.
pub open spec fn param_ts_type(p: Seq<char>) -> Seq<char> {
    match index_of_char(p, ':') {
        Some(i) => ts_type_of(trim_seq(p.subrange(i + 1, p.len() as int))),
        None => "any"@,
    }
}

/// The TypeScript types of the comma-separated pieces, skipping blank pieces.
pub open spec fn param_types_of(pieces: Seq<Seq<char>>) -> Seq<Seq<char>>
    decreases pieces.len(),
{
    if pieces.len() == 0 {
        seq![]
    } else {
        let rest = param_types_of(pieces.drop_last());
        let p = trim_seq(pieces.last());
        if p.len() == 0 {
            rest
        } else {
            rest.push(param_ts_type(p))
        }
    }
}

/// The TypeScript parameter types of a Rust parameter list text.
pub open spec fn ts_params_of(params: Seq<char>) -> Seq<Seq<char>> {
    if trim_seq(params).len() == 0 {
        seq![]
    } else {
        param_types_of(split_seq(params, ','))
    }
}

/// Infers the TypeScript parameter types of a Rust parameter list such as
/// `a: i32, b: *const c_char`: one type per non-blank comma-separated piece,
/// `any` for a piece without a colon.
pub fn infer_ts_params(params: &str) -> (r: Vec<String>)
    ensures
        r.deep_view() == ts_params_of(params@),
{
    let mut out: Vec<String> = Vec::new();
    if trim(params).unicode_len() == 0 {
        assert(out.deep_view() =~= Seq::<Seq<char>>::empty());
        return out;
    }
    let pieces = split_char(params, ',');
    let ghost views = pieces@.map_values(|x: &str| x@);
    let mut i: usize = 0;
    assert(views.subrange(0, 0) =~= Seq::<Seq<char>>::empty());
    assert(out.deep_view() =~= Seq::<Seq<char>>::empty());
    while i < pieces.len()
        invariant
            views == pieces@.map_values(|x: &str| x@),
            views == split_seq(params@, ','),
            i <= pieces.len(),
            out.deep_view() == param_types_of(views.subrange(0, i as int)),
        decreases pieces.len() - i,
    {
        let p = trim(pieces[i]);
        let ghost prefix = views.subrange(0, i as int + 1);
        assert(prefix.drop_last() =~= views.subrange(0, i as int));
        assert(prefix.last() == pieces[i as int]@);
        if p.unicode_len() > 0 {
            let ty = match find_char(p, ':') {
                Some(colon) => {
                    let n = p.unicode_len();
                    let after = trim(p.substring_char(colon + 1, n));
                    infer_ts_type(after)
                },
                None => String::from_str("any"),
            };
            let ghost before = out.deep_view();
            out.push(ty);
            assert(out.deep_view() =~= before.push(ty@));
        }
        i = i + 1;
    }
    assert(views.subrange(0, pieces.len() as int) =~= views);
    out
}

/// Whether a character is alphabetic or numeric in Unicode, as decided by
/// `char::is_alphanumeric`.
pub uninterp spec fn unicode_alphanumeric(c: char) -> bool;

/// Calls `char::is_alphanumeric`. The contract names its result
/// `unicode_alphanumeric(c)` and states its ASCII part: among ASCII
/// characters exactly the letters and the digits are alphanumeric. What it
/// answers for other characters is left to the name.
#[verifier::external_body]
fn char_is_alphanumeric(c: char) -> (r: bool)
    ensures
        r == unicode_alphanumeric(c),
        (c as u32) < 128 ==> (r <==> (('a' <= c && c <= 'z') || ('A' <= c && c <= 'Z') || ('0' <= c
            && c <= '9'))),
{
    c.is_alphanumeric()
}

/// Whether a character is alphanumeric: among ASCII characters the letters
/// and the digits, beyond ASCII what `unicode_alphanumeric` says.
pub open spec fn alphanumeric_char(c: char) -> bool {
    if (c as u32) < 128 {
        ('a' <= c && c <= 'z') || ('A' <= c && c <= 'Z') || ('0' <= c && c <= '9')
    } else {
        unicode_alphanumeric(c)
    }
}

/// A function name may hold only alphanumeric characters and underscores.
pub open spec fn valid_function_name(name: Seq<char>) -> bool {
    forall|i: int| 0 <= i < name.len() ==> alphanumeric_char(#[trigger] name[i]) || name[i] == '_'
}

/// Whether every character of `name` is alphanumeric or an underscore.
pub fn is_valid_function_name(name: &str) -> (r: bool)
    ensures
        r == valid_function_name(name@),
{
    let n = name.unicode_len();
    let mut i: usize = 0;
    while i < n
        invariant
            n == name@.len(),
            i <= n,
            forall|k: int| 0 <= k < i ==> alphanumeric_char(#[trigger] name@[k]) || name@[k] == '_',
        decreases n - i,
    {
        let c = name.get_char(i);
        if !(char_is_alphanumeric(c) || c == '_') {
            return false;
        }
        i = i + 1;
    }
    true
}

/// The Rust FFI stub appended to the crate's `src/lib.rs` for a new function.
pub open spec fn ffi_stub_text(name: Seq<char>, params: Seq<char>, ret: Seq<char>) -> Seq<char> {
    if ret.len() == 0 || ret == "void"@ {
        "\n#[no_mangle]\npub extern \"C\" fn "@ + name + "("@ + params
            + ") {\n    // TODO: implement\n}\n"@
    } else {
        "\n#[no_mangle]\npub extern \"C\" fn "@ + name + "("@ + params + ") -> "@ + ret
            + " {\n    // TODO: implement\n    0 as "@ + ret + "\n}\n"@
    }
}

/// Why a function cannot be added.
pub enum FuncError {
    /// The name holds a character that is neither alphanumeric nor `_`.
    InvalidFunctionName,
}

/// The Rust FFI stub for a new function, or `InvalidFunctionName` when the
/// name holds a character that is neither alphanumeric nor an underscore.
/// A return type that is empty or `void` gives a function without a result.
pub fn ffi_function_code(name: &str, params: &str, ret: &str) -> (r: Result<String, FuncError>)
    ensures
        r is Err <==> !valid_function_name(name@),
        r matches Ok(code) ==> code@ == ffi_stub_text(name@, params@, ret@),
{
    if !is_valid_function_name(name) {
        return Err(FuncError::InvalidFunctionName);
    }
    let mut code = String::from_str("\n#[no_mangle]\npub extern \"C\" fn ");
    code.append(name);
    code.append("(");
    code.append(params);
    if ret.unicode_len() == 0 || str_equal(ret, "void") {
        code.append(") {\n    // TODO: implement\n}\n");
    } else {
        code.append(") -> ");
        code.append(ret);
        code.append(" {\n    // TODO: implement\n    0 as ");
        code.append(ret);
        code.append("\n}\n");
    }
    Ok(code)
}

/// The `[functions]` entry of a manifest for a function added by the wizard.
pub open spec fn function_entry_text(name: Seq<char>, params: Seq<char>, ret: Seq<char>) -> Seq<
    char,
> {
    quoted(name) + " = { args = ["@ + join_seq(
        ts_params_of(params).map_values(|t: Seq<char>| quoted(t)),
        ", "@,
    ) + "], ret = "@ + quoted(ts_type_of(ret)) + ", impl_name = "@ + quoted(name) + " }\n"@
}

/// The manifest entry `"name" = { args = [...], ret = "...", impl_name = "name" }`
/// with the TypeScript types inferred from the Rust parameter list and return
/// type.
pub fn function_entry(name: &str, params: &str, ret: &str) -> (r: String)
    ensures
        r@ == function_entry_text(name@, params@, ret@),
{
    let ts_params = infer_ts_params(params);
    let ts_ret = infer_ts_type(ret);
    let quoted_params = quote_all(&ts_params);
    let mut entry = quote(name);
    entry.append(" = { args = [");
    let list = join_strings(&quoted_params, ", ");
    entry.append(list.as_str());
    entry.append("], ret = ");
    let q = quote(ts_ret.as_str());
    entry.append(q.as_str());
    entry.append(", impl_name = ");
    let q2 = quote(name);
    entry.append(q2.as_str());
    entry.append(" }\n");
    entry
}

/// A manifest with `entry` added: right after the first `[functions]` line
/// when there is one, else in a new `[functions]` section at the end.
pub open spec fn with_function_entry(content: Seq<char>, entry: Seq<char>) -> Seq<char> {
    match find_seq(content, "[functions]\n"@) {
        Some(pos) => {
            let at = pos + "[functions]\n"@.len();
            content.subrange(0, at) + entry + content.subrange(at, content.len() as int)
        },
        None => content + "\n[functions]\n"@ + entry,
    }
}

/// Adds `entry` to the `[functions]` section of a manifest, creating the
/// section at the end when it is missing.
pub fn insert_function_entry(content: &str, entry: &str) -> (r: String)
    ensures
        r@ == with_function_entry(content@, entry@),
{
    let header = "[functions]\n";
    match find_str(content, header) {
        Some(pos) => {
            proof {
                lemma_find_from_facts(content@, header@, 0);
            }
            let n = content.unicode_len();
            let at = pos + header.unicode_len();
            let mut r = String::from_str(content.substring_char(0, at));
            r.append(entry);
            r.append(content.substring_char(at, n));
            r
        },
        None => {
            let mut r = String::from_str(content);
            r.append("\n[functions]\n");
            r.append(entry);
            r
        },
    }
}

/// The index of the first character of `s` at or after `i` that is not a
/// blank (a space or a tab).
pub open spec fn skip_blanks(s: Seq<char>, i: int) -> int
    decreases s.len() - i,
{
    if 0 <= i < s.len() && (s[i] == ' ' || s[i] == '\t') {
        skip_blanks(s, i + 1)
    } else {
        i
    }
}

/// A manifest line that sets the priority: its trimmed text is `priority`,
/// optional blanks, then `=`.
pub open spec fn is_priority_line(l: Seq<char>) -> bool {
    let t = trim_seq(l);
    let j = skip_blanks(t, "priority"@.len() as int);
    starts_with_seq(t, "priority"@) && 0 <= j < t.len() && t[j] == '='
}

/// The manifest has a line that sets the priority.
pub open spec fn has_priority_line(content: Seq<char>) -> bool {
    exists|k: int| 0 <= k < lines_seq(content).len() && is_priority_line(#[trigger] lines_seq(content)[k])
}

/// A manifest line, with the priority forced to 1000 when it sets one.
pub open spec fn priority_line(l: Seq<char>) -> Seq<char> {
    if is_priority_line(l) {
        "priority = 1000"@
    } else {
        l
    }
}

/// A manifest whose priority is 1000: when it has lines that set the
/// priority, each of them becomes `priority = 1000` (the lines joined by
/// `\n`); otherwise `priority = 1000` is put on a new line after the line
/// that follows `[package]`; a manifest with neither stays as it is.
pub open spec fn with_priority_1000(content: Seq<char>) -> Seq<char> {
    if has_priority_line(content) {
        join_seq(lines_seq(content).map_values(|l: Seq<char>| priority_line(l)), "\n"@)
    } else {
        match find_seq(content, "[package]\n"@) {
            Some(pos) => {
                let at = pos + "[package]\n"@.len();
                let next = match index_of_char(content.subrange(at, content.len() as int), '\n') {
                    Some(p) => at + p,
                    None => content.len() as int,
                };
                content.subrange(0, next) + "\npriority = 1000"@ + content.subrange(
                    next,
                    content.len() as int,
                )
            },
            None => content,
        }
    }
}

/// Whether a manifest line sets the priority.
pub fn is_priority_key_line(line: &str) -> (r: bool)
    ensures
        r == is_priority_line(line@),
{
    let t = trim(line);
    if !starts_with_str(t, "priority") {
        return false;
    }
    let n = t.unicode_len();
    let k = "priority".unicode_len();
    let mut j: usize = k;
    while j < n && (t.get_char(j) == ' ' || t.get_char(j) == '\t')
        invariant
            k == "priority"@.len(),
            n == t@.len(),
            k <= j <= n,
            skip_blanks(t@, k as int) == skip_blanks(t@, j as int),
        decreases n - j,
    {
        j = j + 1;
    }
    j < n && t.get_char(j) == '='
}

/// Forces the priority of a plugin manifest to 1000, the priority of a
/// developer's own plugins: the lines that set a priority are replaced, and
/// a manifest without one gets one under `[package]`.
pub fn update_priority(content: &str) -> (r: String)
    ensures
        r@ == with_priority_1000(content@),
{
    let lines = lines_str(content);
    let ghost views = lines@.map_values(|x: &str| x@);
    let ghost mapped = views.map_values(|l: Seq<char>| priority_line(l));
    let mut out = String::new();
    let mut found = false;
    let mut i: usize = 0;
    while i < lines.len()
        invariant
            views == lines@.map_values(|x: &str| x@),
            views == lines_seq(content@),
            mapped == views.map_values(|l: Seq<char>| priority_line(l)),
            i <= lines.len(),
            out@ == join_seq(mapped.subrange(0, i as int), "\n"@),
            found <==> exists|k: int| 0 <= k < i && is_priority_line(#[trigger] views[k]),
        decreases lines.len() - i,
    {
        let ghost prefix = mapped.subrange(0, i as int + 1);
        assert(prefix.drop_last() =~= mapped.subrange(0, i as int));
        if i > 0 {
            out.append("\n");
        } else {
            assert(mapped.subrange(0, 0) =~= Seq::<Seq<char>>::empty());
        }
        let line = lines[i];
        assert(views[i as int] == line@);
        if is_priority_key_line(line) {
            out.append("priority = 1000");
            found = true;
        } else {
            out.append(line);
        }
        i = i + 1;
    }
    assert(mapped.subrange(0, lines.len() as int) =~= mapped);
    if found {
        return out;
    }
    assert(!has_priority_line(content@));
    let header = "[package]\n";
    match find_str(content, header) {
        Some(pos) => {
            proof {
                lemma_find_from_facts(content@, header@, 0);
            }
            let n = content.unicode_len();
            let at = pos + header.unicode_len();
            let rest = content.substring_char(at, n);
            let next = match find_char(rest, '\n') {
                Some(p) => at + p,
                None => n,
            };
            let mut r = String::from_str(content.substring_char(0, next));
            r.append("\npriority = 1000");
            r.append(content.substring_char(next, n));
            r
        },
        None => String::from_str(content),
    }
}

/// The `Cargo.toml` of a new project named `name`.
pub open spec fn new_cargo_toml_text(name: Seq<char>) -> Seq<char> {
    "[package]\nname = \""@ + name
        + "\"\nversion = \"0.1.0\"\nedition = \"2021\"\n\n[lib]\ncrate-type = [\"cdylib\"]\n\n[dependencies]\n"@
}

/// The `src/lib.rs` of a new project.
pub open spec fn new_lib_rs_text() -> Seq<char> {
    "// Export FFI functions here\n// Example:\n// #[no_mangle]\n// pub extern \"C\" fn my_func() -> i32 { 0 }\n"@
}

/// The `main.ts` of a new project.
pub open spec fn new_main_ts_text() -> Seq<char> {
    "function main() {\n    print(\"Hello, tsn!\");\n    return 0;\n}\n"@
}

/// What `cargo tsn new` creates: directories, in the order they are made,
/// then files, in the order they are written.
pub struct NewProject {
    pub dirs: Vec<String>,
    pub files: Vec<PlannedFile>,
}

/// The skeleton of a new project named `name`: the directories `name`,
/// `name/src` and `name/tsnp`, then `name/Cargo.toml`, `name/src/lib.rs`
/// and `name/main.ts`.
pub fn new_project(name: &str) -> (r: NewProject)
    ensures
        r.dirs.deep_view() == seq![name@, name@ + "/src"@, name@ + "/tsnp"@],
        file_models(r.files@) == seq![
            FileModel { path: name@ + "/Cargo.toml"@, content: new_cargo_toml_text(name@) },
            FileModel { path: name@ + "/src/lib.rs"@, content: new_lib_rs_text() },
            FileModel { path: name@ + "/main.ts"@, content: new_main_ts_text() },
        ],
{
    let mut dirs: Vec<String> = Vec::new();
    dirs.push(String::from_str(name));
    let mut src_dir = String::from_str(name);
    src_dir.append("/src");
    dirs.push(src_dir);
    let mut tsnp_dir = String::from_str(name);
    tsnp_dir.append("/tsnp");
    dirs.push(tsnp_dir);
    let mut cargo_path = String::from_str(name);
    cargo_path.append("/Cargo.toml");
    let mut cargo = String::from_str("[package]\nname = \"");
    cargo.append(name);
    cargo.append(
        "\"\nversion = \"0.1.0\"\nedition = \"2021\"\n\n[lib]\ncrate-type = [\"cdylib\"]\n\n[dependencies]\n",
    );
    let mut lib_path = String::from_str(name);
    lib_path.append("/src/lib.rs");
    let lib_rs = String::from_str(
        "// Export FFI functions here\n// Example:\n// #[no_mangle]\n// pub extern \"C\" fn my_func() -> i32 { 0 }\n",
    );
    let mut main_path = String::from_str(name);
    main_path.append("/main.ts");
    let main_ts = String::from_str(
        "function main() {\n    print(\"Hello, tsn!\");\n    return 0;\n}\n",
    );
    let mut files: Vec<PlannedFile> = Vec::new();
    files.push(PlannedFile { path: cargo_path, content: cargo });
    files.push(PlannedFile { path: lib_path, content: lib_rs });
    files.push(PlannedFile { path: main_path, content: main_ts });
    assert(dirs.deep_view() =~= seq![name@, name@ + "/src"@, name@ + "/tsnp"@]);
    let r = NewProject { dirs, files };
    assert(file_models(r.files@) =~= seq![
        FileModel { path: name@ + "/Cargo.toml"@, content: new_cargo_toml_text(name@) },
        FileModel { path: name@ + "/src/lib.rs"@, content: new_lib_rs_text() },
        FileModel { path: name@ + "/main.ts"@, content: new_main_ts_text() },
    ]);
    r
}

/// Where the interactive function wizard stands.
pub enum WizardState {
    /// Waiting for the choice of a crate under `tsnp/`.
    SelectCrate,
    /// A crate is chosen; waiting for a function name.
    EnterName { crate_index: usize },
    /// Waiting for the parameter list of the named function.
    EnterParams { crate_index: usize, name: String },
    /// Waiting for the return type of the named function.
    EnterReturn { crate_index: usize, name: String, params: String },
}

/// What the wizard does after an input line.
pub enum WizardAction {
    /// End the wizard.
    Quit,
    /// Report an invalid crate choice and list the crates again.
    InvalidSelection,
    /// List the crates again.
    ShowCrates,
    /// Ask for a function name.
    AskName,
    /// Ask for the parameter list.
    AskParams,
    /// Ask for the return type.
    AskReturn,
    /// Add the function to the chosen crate, then ask for the next name.
    AddFunction { crate_index: usize, name: String, params: String, ret: String },
}

/// The model of a wizard state.
pub enum WizardStateModel {
    SelectCrate,
    EnterName { crate_index: nat },
    EnterParams { crate_index: nat, name: Seq<char> },
    EnterReturn { crate_index: nat, name: Seq<char>, params: Seq<char> },
}

/// The model of a wizard action.
pub enum WizardActionModel {
    Quit,
    InvalidSelection,
    ShowCrates,
    AskName,
    AskParams,
    AskReturn,
    AddFunction { crate_index: nat, name: Seq<char>, params: Seq<char>, ret: Seq<char> },
}

impl View for WizardState {
    type V = WizardStateModel;

    open spec fn view(&self) -> WizardStateModel {
        match self {
            WizardState::SelectCrate => WizardStateModel::SelectCrate,
            WizardState::EnterName { crate_index } => WizardStateModel::EnterName {
                crate_index: *crate_index as nat,
            },
            WizardState::EnterParams { crate_index, name } => WizardStateModel::EnterParams {
                crate_index: *crate_index as nat,
                name: name@,
            },
            WizardState::EnterReturn { crate_index, name, params } =>
                WizardStateModel::EnterReturn {
                crate_index: *crate_index as nat,
                name: name@,
                params: params@,
            },
        }
    }
}

impl View for WizardAction {
    type V = WizardActionModel;

    open spec fn view(&self) -> WizardActionModel {
        match self {
            WizardAction::Quit => WizardActionModel::Quit,
            WizardAction::InvalidSelection => WizardActionModel::InvalidSelection,
            WizardAction::ShowCrates => WizardActionModel::ShowCrates,
            WizardAction::AskName => WizardActionModel::AskName,
            WizardAction::AskParams => WizardActionModel::AskParams,
            WizardAction::AskReturn => WizardActionModel::AskReturn,
            WizardAction::AddFunction { crate_index, name, params, ret } =>
                WizardActionModel::AddFunction {
                crate_index: *crate_index as nat,
                name: name@,
                params: params@,
                ret: ret@,
            },
        }
    }
}

/// The next state and action of the wizard after the input line `input`,
/// when `crate_count` crates are listed.
pub open spec fn wizard_next(state: WizardStateModel, crate_count: nat, input: Seq<char>) -> (
    WizardStateModel,
    WizardActionModel,
) {
    let t = trim_seq(input);
    match state {
        WizardStateModel::SelectCrate => if t == "q"@ {
            (WizardStateModel::SelectCrate, WizardActionModel::Quit)
        } else {
            match parse_usize_seq(t) {
                Some(n) => if 1 <= n <= crate_count {
                    (
                        WizardStateModel::EnterName { crate_index: (n - 1) as nat },
                        WizardActionModel::AskName,
                    )
                } else {
                    (WizardStateModel::SelectCrate, WizardActionModel::InvalidSelection)
                },
                None => (WizardStateModel::SelectCrate, WizardActionModel::InvalidSelection),
            }
        },
        WizardStateModel::EnterName { crate_index } => if t == "q"@ || t.len() == 0 {
            (WizardStateModel::SelectCrate, WizardActionModel::ShowCrates)
        } else {
            (
                WizardStateModel::EnterParams { crate_index, name: t },
                WizardActionModel::AskParams,
            )
        },
        WizardStateModel::EnterParams { crate_index, name } => (
            WizardStateModel::EnterReturn { crate_index, name, params: t },
            WizardActionModel::AskReturn,
        ),
        WizardStateModel::EnterReturn { crate_index, name, params } => (
            WizardStateModel::EnterName { crate_index },
            WizardActionModel::AddFunction { crate_index, name, params, ret: t },
        ),
    }
}

/// One step of the function wizard: a crate is chosen by its 1-based number
/// or `q` ends the wizard; then a name (`q` or an empty line goes back to
/// the crate list), a parameter list and a return type are read, each
/// trimmed, and the function is added.
pub fn wizard_step(state: WizardState, crate_count: usize, input: &str) -> (r: (
    WizardState,
    WizardAction,
))
    ensures
        (r.0@, r.1@) == wizard_next(state@, crate_count as nat, input@),
{
    let t = trim(input);
    match state {
        WizardState::SelectCrate => {
            if str_equal(t, "q") {
                return (WizardState::SelectCrate, WizardAction::Quit);
            }
            match parse_usize(t) {
                Some(n) => {
                    if 1 <= n && n <= crate_count {
                        (WizardState::EnterName { crate_index: n - 1 }, WizardAction::AskName)
                    } else {
                        (WizardState::SelectCrate, WizardAction::InvalidSelection)
                    }
                },
                None => (WizardState::SelectCrate, WizardAction::InvalidSelection),
            }
        },
        WizardState::EnterName { crate_index } => {
            if str_equal(t, "q") || t.unicode_len() == 0 {
                (WizardState::SelectCrate, WizardAction::ShowCrates)
            } else {
                (
                    WizardState::EnterParams { crate_index, name: String::from_str(t) },
                    WizardAction::AskParams,
                )
            }
        },
        WizardState::EnterParams { crate_index, name } => (
            WizardState::EnterReturn { crate_index, name, params: String::from_str(t) },
            WizardAction::AskReturn,
        ),
        WizardState::EnterReturn { crate_index, name, params } => (
            WizardState::EnterName { crate_index },
            WizardAction::AddFunction { crate_index, name, params, ret: String::from_str(t) },
        ),
    }
}


/// The TypeScript types that inference yields for a Rust type.
pub open spec fn known_ts_type(t: Seq<char>) -> bool {
    t == "void"@ || t == "string"@ || t == "boolean"@ || t == "array"@ || t == "object"@ || t
        == "number"@
}

proof fn lemma_param_types_known(pieces: Seq<Seq<char>>)
    ensures
        forall|i: int|
            0 <= i < param_types_of(pieces).len() ==> known_ts_type(#[trigger] param_types_of(pieces)[i])
                || param_types_of(pieces)[i] == "any"@,
    decreases pieces.len(),
{
    if pieces.len() > 0 {
        lemma_param_types_known(pieces.drop_last());
        let rest = param_types_of(pieces.drop_last());
        let p = trim_seq(pieces.last());
        if p.len() > 0 {
            let x = param_ts_type(p);
            assert(known_ts_type(x) || x == "any"@);
            assert forall|i: int| 0 <= i < rest.push(x).len() implies known_ts_type(#[trigger] rest.push(x)[i])
                || rest.push(x)[i] == "any"@ by {
                if i < rest.len() {
                    assert(rest.push(x)[i] == rest[i]);
                }
            }
        }
    }
}

/// Type inference always yields one of the TypeScript types `void`,
/// `string`, `boolean`, `array`, `object` and `number`; for a parameter list
/// it yields those, or `any` for a parameter without a type.
pub proof fn law_inferred_types_known(rust_type: Seq<char>, params: Seq<char>)
    ensures
        known_ts_type(ts_type_of(rust_type)),
        forall|i: int|
            0 <= i < ts_params_of(params).len() ==> known_ts_type(#[trigger] ts_params_of(params)[i])
                || ts_params_of(params)[i] == "any"@,
{
    if trim_seq(params).len() > 0 {
        lemma_param_types_known(split_seq(params, ','));
    }
}

/// The crate that a wizard state works on is one of the `n` listed crates.
pub open spec fn state_in_range(s: WizardStateModel, n: nat) -> bool {
    match s {
        WizardStateModel::SelectCrate => true,
        WizardStateModel::EnterName { crate_index } => crate_index < n,
        WizardStateModel::EnterParams { crate_index, .. } => crate_index < n,
        WizardStateModel::EnterReturn { crate_index, .. } => crate_index < n,
    }
}

/// The wizard only works on listed crates: from a state within range every
/// input leads to a state within range, and a function is only ever added
/// to one of the listed crates.
pub proof fn law_wizard_stays_in_range(state: WizardStateModel, crate_count: nat, input: Seq<char>)
    requires
        state_in_range(state, crate_count),
    ensures
        state_in_range(wizard_next(state, crate_count, input).0, crate_count),
        wizard_next(state, crate_count, input).1 matches WizardActionModel::AddFunction { crate_index, .. }
            ==> crate_index < crate_count,
{
}

/// Forcing the priority leaves one value for it: when the manifest has lines
/// that set the priority, each becomes `priority = 1000` and every other line
/// stays; a manifest with no such line gets `priority = 1000` under its
/// `[package]` header. Either way the result sets `priority = 1000` when the
/// manifest had a priority line or a `[package]` header line.
pub proof fn law_priority_forced(content: Seq<char>)
    ensures
        has_priority_line(content) ==> {
            let mapped = lines_seq(content).map_values(|l: Seq<char>| priority_line(l));
            &&& with_priority_1000(content) == join_seq(mapped, "\n"@)
            &&& forall|k: int|
                0 <= k < mapped.len() ==> (#[trigger] mapped[k] == "priority = 1000"@ || (mapped[k]
                    == lines_seq(content)[k] && !is_priority_line(mapped[k])))
        },
        has_priority_line(content) || contains_seq(content, "[package]\n"@) ==> contains_seq(
            with_priority_1000(content),
            "priority = 1000"@,
        ),
{
    if has_priority_line(content) {
        let k = choose|k: int|
            0 <= k < lines_seq(content).len() && is_priority_line(#[trigger] lines_seq(content)[k]);
        let mapped = lines_seq(content).map_values(|l: Seq<char>| priority_line(l));
        assert(mapped[k] == "priority = 1000"@);
        let j = lemma_join_occurs(mapped, "\n"@, k);
        lemma_occurs_contains(join_seq(mapped, "\n"@), "priority = 1000"@, j);
    } else if contains_seq(content, "[package]\n"@) {
        let pos = find_seq(content, "[package]\n"@)->0;
        let at = pos + "[package]\n"@.len();
        let next = match index_of_char(content.subrange(at, content.len() as int), '\n') {
            Some(p) => at + p,
            None => content.len() as int,
        };
        let head = content.subrange(0, next);
        let tail = content.subrange(next, content.len() as int);
        reveal_strlit("\npriority = 1000");
        reveal_strlit("priority = 1000");
        assert("\npriority = 1000"@ =~= seq!['\n'] + "priority = 1000"@);
        lemma_contains_middle(head + seq!['\n'], "priority = 1000"@, tail);
        assert(head + "\npriority = 1000"@ + tail =~= head + seq!['\n'] + "priority = 1000"@ + tail);
    }
}

proof fn lemma_param_types_concat(a: Seq<Seq<char>>, b: Seq<Seq<char>>)
    ensures
        param_types_of(a + b) == param_types_of(a) + param_types_of(b),
    decreases b.len(),
{
    if b.len() == 0 {
        assert(a + b =~= a);
        assert(param_types_of(a) + param_types_of(b) =~= param_types_of(a));
    } else {
        lemma_param_types_concat(a, b.drop_last());
        assert((a + b).drop_last() =~= a + b.drop_last());
        assert((a + b).last() == b.last());
        let p = trim_seq(b.last());
        if p.len() > 0 {
            assert(param_types_of(a) + param_types_of(b.drop_last()).push(param_ts_type(p)) =~= (
            param_types_of(a) + param_types_of(b.drop_last())).push(param_ts_type(p)));
        }
    }
}

proof fn lemma_ts_params_pieces(params: Seq<char>)
    ensures
        ts_params_of(params) == param_types_of(split_seq(params, ',')),
{
    if trim_seq(params).len() == 0 {
        lemma_blank_is_white_space(params);
        lemma_index_of_char(params, ',');
        if index_of_char(params, ',') is Some {
            let i = index_of_char(params, ',')->0;
            assert(crate::text::unicode_white_space(params[i]));
        }
        let pieces = split_seq(params, ',');
        assert(pieces == seq![params]);
        assert(pieces.drop_last() =~= Seq::<Seq<char>>::empty());
        assert(pieces.last() == params);
        assert(param_types_of(pieces.drop_last()) == Seq::<Seq<char>>::empty());
        assert(param_types_of(pieces) == Seq::<Seq<char>>::empty());
    }
}

/// The parameter types of two lists joined by a comma are those of the first
/// list followed by those of the second.
pub proof fn law_params_of_joined_list(p: Seq<char>, q: Seq<char>)
    ensures
        ts_params_of(p + seq![','] + q) == ts_params_of(p) + ts_params_of(q),
{
    lemma_ts_params_pieces(p + seq![','] + q);
    lemma_ts_params_pieces(p);
    lemma_ts_params_pieces(q);
    law_split_joined(p, q, ',');
    lemma_param_types_concat(split_seq(p, ','), split_seq(q, ','));
}

/// The inferred TypeScript type does not depend on the white space around
/// the Rust type: trimming it, or adding white space around it, gives the
/// same type.
pub proof fn law_type_ignores_white_space(rust_type: Seq<char>, w1: Seq<char>, w2: Seq<char>)
    ensures
        ts_type_of(trim_seq(rust_type)) == ts_type_of(rust_type),
        all_white_space(w1) && all_white_space(w2) ==> ts_type_of(w1 + rust_type + w2) == ts_type_of(
            rust_type,
        ),
{
    law_trim_settles(rust_type, w1, w2);
}

/// Every listed crate can be chosen: typing the number `n` of one of the
/// `crate_count` crates, as the menu prints it, selects the crate at index
/// `n - 1` and asks for a function name.
pub proof fn law_wizard_selects_listed_crate(crate_count: nat, n: nat)
    requires
        1 <= n <= crate_count,
        n <= usize::MAX,
    ensures
        wizard_next(WizardStateModel::SelectCrate, crate_count, decimal_seq(n)) == (
            WizardStateModel::EnterName { crate_index: (n - 1) as nat },
            WizardActionModel::AskName,
        ),
{
    let d = decimal_seq(n);
    lemma_decimal_digits(n);
    law_parse_reads_decimal(n);
    assert(!crate::text::unicode_white_space(d[0]));
    assert(trim_start_seq(d) == d);
    assert(d.last() == d[d.len() - 1]);
    assert(!crate::text::unicode_white_space(d.last()));
    assert(trim_end_seq(d) == d);
    reveal_strlit("q");
    assert(d != "q"@) by {
        assert("q"@[0] == 'q');
    }
}

/// Names made of ASCII letters, digits and underscores are accepted, and a
/// name holding any other ASCII character (a dash, a space, a dot, ...) is
/// refused.
pub proof fn law_ascii_function_names(name: Seq<char>)
    ensures
        (forall|i: int|
            0 <= i < name.len() ==> {
                let c = #[trigger] name[i];
                ('a' <= c && c <= 'z') || ('A' <= c && c <= 'Z') || ('0' <= c && c <= '9') || c == '_'
            }) ==> valid_function_name(name),
        (exists|i: int|
            0 <= i < name.len() && {
                let c = #[trigger] name[i];
                (c as u32) < 128 && !(('a' <= c && c <= 'z') || ('A' <= c && c <= 'Z') || ('0' <= c
                    && c <= '9') || c == '_')
            }) ==> !valid_function_name(name),
{
}

proof fn lemma_contains_first_char(s: Seq<char>, p: Seq<char>) -> (k: int)
    requires
        contains_seq(s, p),
        p.len() > 0,
    ensures
        0 <= k < s.len(),
        s[k] == p[0],
{
    lemma_find_from_facts(s, p, 0);
    let k = find_seq(s, p)->0;
    assert(s.subrange(k, k + p.len())[0] == s[k]);
    k
}

/// The kind of a Rust type decides its TypeScript type, whatever surrounds
/// the telling part: a type that mentions `c_char`, or starts with `&str`,
/// is a `string`; otherwise one that mentions `Vec` or `slice` anywhere (as
/// in `&Vec<i32>`) is an `array`; `bool` is a `boolean`.
pub proof fn law_ts_type_kinds(rust_type: Seq<char>)
    ensures
        contains_seq(trim_seq(rust_type), "c_char"@) ==> ts_type_of(rust_type) == "string"@,
        starts_with_seq(trim_seq(rust_type), "&str"@) ==> ts_type_of(rust_type) == "string"@,
        (contains_seq(trim_seq(rust_type), "Vec"@) || contains_seq(trim_seq(rust_type), "slice"@))
            && !contains_seq(trim_seq(rust_type), "c_char"@) && !starts_with_seq(
            trim_seq(rust_type),
            "&str"@,
        ) ==> ts_type_of(rust_type) == "array"@,
        trim_seq(rust_type) == "bool"@ ==> ts_type_of(rust_type) == "boolean"@,
{
    let ty = trim_seq(rust_type);
    reveal_strlit("void");
    reveal_strlit("()");
    reveal_strlit("bool");
    reveal_strlit("c_char");
    reveal_strlit("&str");
    reveal_strlit("Vec");
    reveal_strlit("slice");
    if contains_seq(ty, "c_char"@) {
        let k = lemma_contains_first_char(ty, "c_char"@);
    }
    if starts_with_seq(ty, "&str"@) {
        assert(ty.subrange(0, 4)[0] == ty[0]);
    }
    if contains_seq(ty, "Vec"@) {
        let k = lemma_contains_first_char(ty, "Vec"@);
    }
    if contains_seq(ty, "slice"@) {
        let k = lemma_contains_first_char(ty, "slice"@);
    }
    if ty == "bool"@ {
        if contains_seq(ty, "c_char"@) {
            let k = lemma_contains_first_char(ty, "c_char"@);
        }
        assert(ty.subrange(0, 4)[0] == ty[0]);
        assert(ty != "void"@) by {
            assert(ty[0] != "void"@[0]);
        }
        assert(ty != "()"@);
    }
}

} // verus!
