//! Detection of the plugins that a TypeScript module needs, from the callees
//! of its call and `new` expressions.

use vstd::prelude::*;
use crate::text::{starts_with_seq, str_equal};

verus! {

/// The models of a list of API bindings: function name, then plugin.
pub open spec fn binding_models(m: Seq<(String, String)>) -> Seq<(Seq<char>, Seq<char>)> {
    m.map_values(|b: (String, String)| (b.0@, b.1@))
}

/// The API functions of the `http` plugin.
pub open spec fn http_api_table() -> Seq<(Seq<char>, Seq<char>)> {
    seq![
        ("http_get"@, "http"@),
        ("http_post"@, "http"@),
        ("http_put"@, "http"@),
        ("http_delete"@, "http"@),
        ("http_head"@, "http"@),
        ("http_get_status"@, "http"@),
        ("http_get_header"@, "http"@),
        ("http_set_timeout"@, "http"@),
        ("fetch"@, "http"@),
    ]
}

/// The API functions of the `fs` plugin.
pub open spec fn fs_api_table() -> Seq<(Seq<char>, Seq<char>)> {
    seq![
        ("file_write"@, "fs"@),
        ("file_append"@, "fs"@),
        ("file_read"@, "fs"@),
        ("file_exists"@, "fs"@),
        ("file_size"@, "fs"@),
        ("writeFileSync"@, "fs"@),
        ("fs_writeFile"@, "fs"@),
    ]
}

/// The API functions of the `crypto` plugin.
pub open spec fn crypto_api_table() -> Seq<(Seq<char>, Seq<char>)> {
    seq![
        ("crypto_md5"@, "crypto"@),
        ("crypto_sha256"@, "crypto"@),
        ("crypto_sha1"@, "crypto"@),
        ("crypto_crc32"@, "crypto"@),
        ("crypto_base64_encode"@, "crypto"@),
        ("crypto_base64_decode"@, "crypto"@),
        ("sha256"@, "crypto"@),
    ]
}

/// The API functions of the `os` plugin.
pub open spec fn os_api_table() -> Seq<(Seq<char>, Seq<char>)> {
    seq![
        ("os_type"@, "os"@),
        ("os_arch"@, "os"@),
        ("os_hostname"@, "os"@),
        ("os_homedir"@, "os"@),
        ("os_tmpdir"@, "os"@),
        ("os_env"@, "os"@),
        ("os_setenv"@, "os"@),
        ("os_cpus"@, "os"@),
        ("os_totalmem"@, "os"@),
        ("os_freemem"@, "os"@),
        ("os_uptime"@, "os"@),
    ]
}

/// The API functions of the `path` plugin.
pub open spec fn path_api_table() -> Seq<(Seq<char>, Seq<char>)> {
    seq![
        ("path_join"@, "path"@),
        ("path_dirname"@, "path"@),
        ("path_basename"@, "path"@),
        ("path_extname"@, "path"@),
        ("path_is_absolute"@, "path"@),
        ("path_normalize"@, "path"@),
        ("path_cwd"@, "path"@),
        ("path_resolve"@, "path"@),
    ]
}

/// The API functions of the `process` plugin.
pub open spec fn process_api_table() -> Seq<(Seq<char>, Seq<char>)> {
    seq![
        ("process_pid"@, "process"@),
        ("process_ppid"@, "process"@),
        ("process_exit"@, "process"@),
        ("process_memory"@, "process"@),
        ("process_exec"@, "process"@),
        ("process_spawn"@, "process"@),
        ("process_kill"@, "process"@),
        ("process_exists"@, "process"@),
    ]
}

/// The API functions of the `cli` plugin.
pub open spec fn cli_api_table() -> Seq<(Seq<char>, Seq<char>)> {
    seq![
        ("argc"@, "cli"@),
        ("argv"@, "cli"@),
        ("now_ms"@, "cli"@),
        ("sleep"@, "cli"@),
        ("getenv"@, "cli"@),
        ("exit"@, "cli"@),
    ]
}

/// The API functions of the `timer` plugin.
pub open spec fn timer_api_table() -> Seq<(Seq<char>, Seq<char>)> {
    seq![
        ("timer_now_us"@, "timer"@),
        ("timer_measure"@, "timer"@),
        ("timer_sleep_us"@, "timer"@),
        ("timer_format"@, "timer"@),
    ]
}

/// The API functions of the `json` plugin.
pub open spec fn json_api_table() -> Seq<(Seq<char>, Seq<char>)> {
    seq![
        ("json_parse"@, "json"@),
        ("json_stringify"@, "json"@),
        ("json_get"@, "json"@),
        ("json_set"@, "json"@),
        ("json_has"@, "json"@),
        ("json_delete"@, "json"@),
        ("json_keys"@, "json"@),
        ("json_length"@, "json"@),
        ("json_validate"@, "json"@),
        ("json_pretty"@, "json"@),
    ]
}

/// The API functions of the `log` plugin.
pub open spec fn log_api_table() -> Seq<(Seq<char>, Seq<char>)> {
    seq![
        ("log_debug"@, "log"@),
        ("log_info"@, "log"@),
        ("log_warn"@, "log"@),
        ("log_error"@, "log"@),
        ("log_fatal"@, "log"@),
        ("log_set_level"@, "log"@),
        ("log_set_file"@, "log"@),
        ("log_set_console"@, "log"@),
        ("log_get_level"@, "log"@),
        ("log_format"@, "log"@),
    ]
}

/// The API functions of the `math` plugin.
pub open spec fn math_api_table() -> Seq<(Seq<char>, Seq<char>)> {
    seq![
        ("math_abs"@, "math"@),
        ("math_floor"@, "math"@),
        ("math_ceil"@, "math"@),
        ("math_round"@, "math"@),
        ("math_pow"@, "math"@),
        ("math_sqrt"@, "math"@),
        ("math_sin"@, "math"@),
        ("math_cos"@, "math"@),
        ("math_tan"@, "math"@),
        ("math_log"@, "math"@),
        ("math_log2"@, "math"@),
        ("math_log10"@, "math"@),
        ("math_exp"@, "math"@),
        ("math_max"@, "math"@),
        ("math_min"@, "math"@),
        ("math_random"@, "math"@),
        ("math_pi"@, "math"@),
        ("math_e"@, "math"@),
    ]
}

/// The API functions of the `string` plugin.
pub open spec fn string_api_table() -> Seq<(Seq<char>, Seq<char>)> {
    seq![
        ("str_len"@, "string"@),
        ("str_substr"@, "string"@),
        ("str_replace"@, "string"@),
        ("str_replace_all"@, "string"@),
        ("str_find"@, "string"@),
        ("str_to_upper"@, "string"@),
        ("str_to_lower"@, "string"@),
        ("str_trim"@, "string"@),
        ("str_trim_left"@, "string"@),
        ("str_trim_right"@, "string"@),
        ("str_split"@, "string"@),
        ("str_join"@, "string"@),
        ("str_repeat"@, "string"@),
        ("str_starts_with"@, "string"@),
        ("str_ends_with"@, "string"@),
        ("str_contains"@, "string"@),
        ("str_pad_left"@, "string"@),
        ("str_pad_right"@, "string"@),
    ]
}

/// The plugin API functions of tsnp-contrib, each with the plugin that
/// provides it.
pub open spec fn api_plugin_table() -> Seq<(Seq<char>, Seq<char>)> {
    http_api_table() + fs_api_table() + crypto_api_table() + os_api_table() + path_api_table() + process_api_table() + cli_api_table() + timer_api_table() + json_api_table() + log_api_table() + math_api_table() + string_api_table()
}

fn push_binding(m: &mut Vec<(String, String)>, api: &str, plugin: &str)
    ensures
        binding_models(final(m)@) == binding_models(old(m)@).push((api@, plugin@)),
{
    let ghost before = binding_models(m@);
    m.push((String::from_str(api), String::from_str(plugin)));
    assert(binding_models(m@) =~= before.push((api@, plugin@)));
}

fn add_http_bindings(m: &mut Vec<(String, String)>)
    ensures
        binding_models(final(m)@) == binding_models(old(m)@) + http_api_table(),
{
    let ghost start = binding_models(m@);
    push_binding(m, "http_get", "http");
    push_binding(m, "http_post", "http");
    push_binding(m, "http_put", "http");
    push_binding(m, "http_delete", "http");
    push_binding(m, "http_head", "http");
    push_binding(m, "http_get_status", "http");
    push_binding(m, "http_get_header", "http");
    push_binding(m, "http_set_timeout", "http");
    push_binding(m, "fetch", "http");
    assert(binding_models(m@) =~= start + http_api_table());
}

fn add_fs_bindings(m: &mut Vec<(String, String)>)
    ensures
        binding_models(final(m)@) == binding_models(old(m)@) + fs_api_table(),
{
    let ghost start = binding_models(m@);
    push_binding(m, "file_write", "fs");
    push_binding(m, "file_append", "fs");
    push_binding(m, "file_read", "fs");
    push_binding(m, "file_exists", "fs");
    push_binding(m, "file_size", "fs");
    push_binding(m, "writeFileSync", "fs");
    push_binding(m, "fs_writeFile", "fs");
    assert(binding_models(m@) =~= start + fs_api_table());
}

fn add_crypto_bindings(m: &mut Vec<(String, String)>)
    ensures
        binding_models(final(m)@) == binding_models(old(m)@) + crypto_api_table(),
{
    let ghost start = binding_models(m@);
    push_binding(m, "crypto_md5", "crypto");
    push_binding(m, "crypto_sha256", "crypto");
    push_binding(m, "crypto_sha1", "crypto");
    push_binding(m, "crypto_crc32", "crypto");
    push_binding(m, "crypto_base64_encode", "crypto");
    push_binding(m, "crypto_base64_decode", "crypto");
    push_binding(m, "sha256", "crypto");
    assert(binding_models(m@) =~= start + crypto_api_table());
}

fn add_os_bindings(m: &mut Vec<(String, String)>)
    ensures
        binding_models(final(m)@) == binding_models(old(m)@) + os_api_table(),
{
    let ghost start = binding_models(m@);
    push_binding(m, "os_type", "os");
    push_binding(m, "os_arch", "os");
    push_binding(m, "os_hostname", "os");
    push_binding(m, "os_homedir", "os");
    push_binding(m, "os_tmpdir", "os");
    push_binding(m, "os_env", "os");
    push_binding(m, "os_setenv", "os");
    push_binding(m, "os_cpus", "os");
    push_binding(m, "os_totalmem", "os");
    push_binding(m, "os_freemem", "os");
    push_binding(m, "os_uptime", "os");
    assert(binding_models(m@) =~= start + os_api_table());
}

fn add_path_bindings(m: &mut Vec<(String, String)>)
    ensures
        binding_models(final(m)@) == binding_models(old(m)@) + path_api_table(),
{
    let ghost start = binding_models(m@);
    push_binding(m, "path_join", "path");
    push_binding(m, "path_dirname", "path");
    push_binding(m, "path_basename", "path");
    push_binding(m, "path_extname", "path");
    push_binding(m, "path_is_absolute", "path");
    push_binding(m, "path_normalize", "path");
    push_binding(m, "path_cwd", "path");
    push_binding(m, "path_resolve", "path");
    assert(binding_models(m@) =~= start + path_api_table());
}

fn add_process_bindings(m: &mut Vec<(String, String)>)
    ensures
        binding_models(final(m)@) == binding_models(old(m)@) + process_api_table(),
{
    let ghost start = binding_models(m@);
    push_binding(m, "process_pid", "process");
    push_binding(m, "process_ppid", "process");
    push_binding(m, "process_exit", "process");
    push_binding(m, "process_memory", "process");
    push_binding(m, "process_exec", "process");
    push_binding(m, "process_spawn", "process");
    push_binding(m, "process_kill", "process");
    push_binding(m, "process_exists", "process");
    assert(binding_models(m@) =~= start + process_api_table());
}

fn add_cli_bindings(m: &mut Vec<(String, String)>)
    ensures
        binding_models(final(m)@) == binding_models(old(m)@) + cli_api_table(),
{
    let ghost start = binding_models(m@);
    push_binding(m, "argc", "cli");
    push_binding(m, "argv", "cli");
    push_binding(m, "now_ms", "cli");
    push_binding(m, "sleep", "cli");
    push_binding(m, "getenv", "cli");
    push_binding(m, "exit", "cli");
    assert(binding_models(m@) =~= start + cli_api_table());
}

fn add_timer_bindings(m: &mut Vec<(String, String)>)
    ensures
        binding_models(final(m)@) == binding_models(old(m)@) + timer_api_table(),
{
    let ghost start = binding_models(m@);
    push_binding(m, "timer_now_us", "timer");
    push_binding(m, "timer_measure", "timer");
    push_binding(m, "timer_sleep_us", "timer");
    push_binding(m, "timer_format", "timer");
    assert(binding_models(m@) =~= start + timer_api_table());
}

fn add_json_bindings(m: &mut Vec<(String, String)>)
    ensures
        binding_models(final(m)@) == binding_models(old(m)@) + json_api_table(),
{
    let ghost start = binding_models(m@);
    push_binding(m, "json_parse", "json");
    push_binding(m, "json_stringify", "json");
    push_binding(m, "json_get", "json");
    push_binding(m, "json_set", "json");
    push_binding(m, "json_has", "json");
    push_binding(m, "json_delete", "json");
    push_binding(m, "json_keys", "json");
    push_binding(m, "json_length", "json");
    push_binding(m, "json_validate", "json");
    push_binding(m, "json_pretty", "json");
    assert(binding_models(m@) =~= start + json_api_table());
}

fn add_log_bindings(m: &mut Vec<(String, String)>)
    ensures
        binding_models(final(m)@) == binding_models(old(m)@) + log_api_table(),
{
    let ghost start = binding_models(m@);
    push_binding(m, "log_debug", "log");
    push_binding(m, "log_info", "log");
    push_binding(m, "log_warn", "log");
    push_binding(m, "log_error", "log");
    push_binding(m, "log_fatal", "log");
    push_binding(m, "log_set_level", "log");
    push_binding(m, "log_set_file", "log");
    push_binding(m, "log_set_console", "log");
    push_binding(m, "log_get_level", "log");
    push_binding(m, "log_format", "log");
    assert(binding_models(m@) =~= start + log_api_table());
}

fn add_math_bindings(m: &mut Vec<(String, String)>)
    ensures
        binding_models(final(m)@) == binding_models(old(m)@) + math_api_table(),
{
    let ghost start = binding_models(m@);
    push_binding(m, "math_abs", "math");
    push_binding(m, "math_floor", "math");
    push_binding(m, "math_ceil", "math");
    push_binding(m, "math_round", "math");
    push_binding(m, "math_pow", "math");
    push_binding(m, "math_sqrt", "math");
    push_binding(m, "math_sin", "math");
    push_binding(m, "math_cos", "math");
    push_binding(m, "math_tan", "math");
    push_binding(m, "math_log", "math");
    push_binding(m, "math_log2", "math");
    push_binding(m, "math_log10", "math");
    push_binding(m, "math_exp", "math");
    push_binding(m, "math_max", "math");
    push_binding(m, "math_min", "math");
    push_binding(m, "math_random", "math");
    push_binding(m, "math_pi", "math");
    push_binding(m, "math_e", "math");
    assert(binding_models(m@) =~= start + math_api_table());
}

fn add_string_bindings(m: &mut Vec<(String, String)>)
    ensures
        binding_models(final(m)@) == binding_models(old(m)@) + string_api_table(),
{
    let ghost start = binding_models(m@);
    push_binding(m, "str_len", "string");
    push_binding(m, "str_substr", "string");
    push_binding(m, "str_replace", "string");
    push_binding(m, "str_replace_all", "string");
    push_binding(m, "str_find", "string");
    push_binding(m, "str_to_upper", "string");
    push_binding(m, "str_to_lower", "string");
    push_binding(m, "str_trim", "string");
    push_binding(m, "str_trim_left", "string");
    push_binding(m, "str_trim_right", "string");
    push_binding(m, "str_split", "string");
    push_binding(m, "str_join", "string");
    push_binding(m, "str_repeat", "string");
    push_binding(m, "str_starts_with", "string");
    push_binding(m, "str_ends_with", "string");
    push_binding(m, "str_contains", "string");
    push_binding(m, "str_pad_left", "string");
    push_binding(m, "str_pad_right", "string");
    assert(binding_models(m@) =~= start + string_api_table());
}

/// The table of plugin API functions: each function name with the plugin
/// that provides it.
pub fn build_api_plugin_map() -> (m: Vec<(String, String)>)
    ensures
        binding_models(m@) == api_plugin_table(),
{
    let mut m: Vec<(String, String)> = Vec::new();
    assert(binding_models(m@) =~= Seq::<(Seq<char>, Seq<char>)>::empty());
    add_http_bindings(&mut m);
    add_fs_bindings(&mut m);
    add_crypto_bindings(&mut m);
    add_os_bindings(&mut m);
    add_path_bindings(&mut m);
    add_process_bindings(&mut m);
    add_cli_bindings(&mut m);
    add_timer_bindings(&mut m);
    add_json_bindings(&mut m);
    add_log_bindings(&mut m);
    add_math_bindings(&mut m);
    add_string_bindings(&mut m);
    assert(binding_models(m@) =~= api_plugin_table());
    m
}

/// The plugin that a table binds to `name`; when a name is bound twice the
/// later binding wins, as in a map built by successive inserts.
pub open spec fn table_lookup(t: Seq<(Seq<char>, Seq<char>)>, name: Seq<char>) -> Option<Seq<char>>
    decreases t.len(),
{
    if t.len() == 0 {
        None
    } else if t.last().0 == name {
        Some(t.last().1)
    } else {
        table_lookup(t.drop_last(), name)
    }
}

/// The plugin that provides the API function `name`, if any.
pub open spec fn api_plugin(name: Seq<char>) -> Option<Seq<char>> {
    table_lookup(api_plugin_table(), name)
}

/// The plugin bound to `name` in a table of bindings.
pub fn lookup_binding(m: &Vec<(String, String)>, name: &str) -> (r: Option<String>)
    ensures
        r matches Some(p) ==> table_lookup(binding_models(m@), name@) == Some(p@),
        r is None ==> table_lookup(binding_models(m@), name@) is None,
{
    let ghost t = binding_models(m@);
    let mut i: usize = m.len();
    assert(t.subrange(0, i as int) =~= t);
    while i > 0
        invariant
            t == binding_models(m@),
            i <= m.len(),
            table_lookup(t, name@) == table_lookup(t.subrange(0, i as int), name@),
        decreases i,
    {
        let ghost prefix = t.subrange(0, i as int);
        assert(prefix.drop_last() =~= t.subrange(0, i as int - 1));
        assert(prefix.last() == (m@[i - 1].0@, m@[i - 1].1@));
        if str_equal(m[i - 1].0.as_str(), name) {
            return Some(m[i - 1].1.clone());
        }
        i = i - 1;
    }
    None
}

/// The shape of an expression, as far as plugin detection looks at it.
pub enum ExprShape {
    /// A plain identifier.
    Ident(String),
    /// A member access `obj.prop`.
    Member(Box<MemberShape>),
    /// Any other expression.
    Other,
}

/// A member access `obj.prop`.
pub struct MemberShape {
    pub obj: ExprShape,
    pub prop: PropShape,
}

/// The property of a member access.
pub enum PropShape {
    /// A plain identifier property.
    Ident(String),
    /// A computed or private property.
    Other,
}

/// The callee of a call expression.
pub enum CalleeShape {
    /// An ordinary expression.
    Expr(ExprShape),
    /// `super` or `import`.
    Other,
}

/// A call or `new` expression met while walking a module.
pub enum CallSite {
    /// A call `callee(...)`.
    Call(CalleeShape),
    /// A construction `new callee(...)`.
    New(ExprShape),
}

/// The name that a property is checked against, if it is an identifier.
pub open spec fn prop_names(p: PropShape) -> Seq<Seq<char>> {
    match p {
        PropShape::Ident(n) => seq![n@],
        PropShape::Other => seq![],
    }
}

/// The names that the object of a member access is checked against: those
/// of an inner member access, or the object's own name.
pub open spec fn obj_names(e: ExprShape) -> Seq<Seq<char>>
    decreases e,
{
    match e {
        ExprShape::Member(b) => member_names(*b),
        ExprShape::Ident(o) => seq![o@],
        ExprShape::Other => seq![],
    }
}

/// The names that a member access is checked against: the property, then
/// the object.
pub open spec fn member_names(m: MemberShape) -> Seq<Seq<char>>
    decreases m,
{
    prop_names(m.prop) + obj_names(m.obj)
}

/// The names that a call site is checked against.
pub open spec fn site_names(s: CallSite) -> Seq<Seq<char>> {
    match s {
        CallSite::Call(CalleeShape::Expr(ExprShape::Ident(n))) => seq![n@],
        CallSite::Call(CalleeShape::Expr(ExprShape::Member(b))) => member_names(*b),
        CallSite::Call(_) => seq![],
        CallSite::New(ExprShape::Ident(n)) => seq![n@],
        CallSite::New(_) => seq![],
    }
}

/// The names that a list of call sites is checked against, in order.
pub open spec fn sites_names(sites: Seq<CallSite>) -> Seq<Seq<char>>
    decreases sites.len(),
{
    if sites.len() == 0 {
        seq![]
    } else {
        sites_names(sites.drop_last()) + site_names(sites.last())
    }
}

/// `l` with `p` added at the end unless it is there already.
pub open spec fn add_once(l: Seq<Seq<char>>, p: Seq<char>) -> Seq<Seq<char>> {
    if l.contains(p) {
        l
    } else {
        l.push(p)
    }
}

/// The detected plugins after checking `name`: its plugin is added when
/// `name` is a plugin API function.
pub open spec fn add_detected(l: Seq<Seq<char>>, name: Seq<char>) -> Seq<Seq<char>> {
    match api_plugin(name) {
        Some(p) => add_once(l, p),
        None => l,
    }
}

/// The detected plugins after checking the names in order.
pub open spec fn detect_names(l: Seq<Seq<char>>, ns: Seq<Seq<char>>) -> Seq<Seq<char>>
    decreases ns.len(),
{
    if ns.len() == 0 {
        l
    } else {
        add_detected(detect_names(l, ns.drop_last()), ns.last())
    }
}

/// Checking two lists of names one after the other is checking their
/// concatenation.
pub proof fn lemma_detect_names_concat(l: Seq<Seq<char>>, a: Seq<Seq<char>>, b: Seq<Seq<char>>)
    ensures
        detect_names(l, a + b) == detect_names(detect_names(l, a), b),
    decreases b.len(),
{
    if b.len() == 0 {
        assert(a + b =~= a);
    } else {
        lemma_detect_names_concat(l, a, b.drop_last());
        assert((a + b).drop_last() =~= a + b.drop_last());
    }
}

proof fn lemma_detect_single(l: Seq<Seq<char>>, x: Seq<char>)
    ensures
        detect_names(l, seq![x]) == add_detected(l, x),
        detect_names(l, Seq::<Seq<char>>::empty()) == l,
{
    assert(seq![x].drop_last() =~= Seq::<Seq<char>>::empty());
    assert(detect_names(l, seq![x].drop_last()) == l);
}

/// Collects the plugins that the call sites of a module need, in the order
/// in which they are first detected.
pub struct PluginDetector {
    api_map: Vec<(String, String)>,
    detected_plugins: Vec<String>,
}

impl PluginDetector {
    /// The detector holds the API table.
    pub closed spec fn wf(&self) -> bool {
        binding_models(self.api_map@) == api_plugin_table()
    }

    /// The plugins detected so far, in order of detection.
    pub closed spec fn detected(&self) -> Seq<Seq<char>> {
        self.detected_plugins.deep_view()
    }

    /// A detector that has detected nothing.
    pub fn new() -> (r: PluginDetector)
        ensures
            r.wf(),
            r.detected() == Seq::<Seq<char>>::empty(),
    {
        let r = PluginDetector { api_map: build_api_plugin_map(), detected_plugins: Vec::new() };
        assert(r.detected_plugins.deep_view() =~= Seq::<Seq<char>>::empty());
        r
    }

    /// The detected plugins, in order of detection.
    pub fn detected_plugins(&self) -> (r: Vec<String>)
        ensures
            r.deep_view() == self.detected(),
    {
        let r = self.detected_plugins.clone();
        assert(r.deep_view() =~= self.detected_plugins.deep_view());
        r
    }

    /// Records the plugin of `name` when `name` is a plugin API function.
    pub fn check_function_name(&mut self, name: &str)
        requires
            old(self).wf(),
        ensures
            final(self).wf(),
            final(self).detected() == add_detected(old(self).detected(), name@),
    {
        let found = lookup_binding(&self.api_map, name);
        let ghost before = self.detected_plugins.deep_view();
        match found {
            Some(plugin) => {
                let mut present = false;
                let mut i: usize = 0;
                while i < self.detected_plugins.len()
                    invariant
                        before == self.detected_plugins.deep_view(),
                        i <= self.detected_plugins.len(),
                        present ==> before.contains(plugin@),
                        !present ==> forall|k: int| 0 <= k < i ==> before[k] != plugin@,
                    decreases self.detected_plugins.len() - i,
                {
                    if str_equal(self.detected_plugins[i].as_str(), plugin.as_str()) {
                        assert(before[i as int] == plugin@);
                        present = true;
                    }
                    i = i + 1;
                }
                let ghost p = plugin@;
                if !present {
                    self.detected_plugins.push(plugin);
                    assert(self.detected_plugins.deep_view() =~= before.push(p));
                }
            },
            None => {},
        }
    }

    /// Checks a member access `obj.prop`: the property name, then the inner
    /// member access or the object's name.
    pub fn check_member_expression(&mut self, member: &MemberShape)
        requires
            old(self).wf(),
        ensures
            final(self).wf(),
            final(self).detected() == detect_names(old(self).detected(), member_names(*member)),
        decreases *member,
    {
        let ghost start = self.detected();
        let ghost own = prop_names(member.prop);
        let ghost inner = obj_names(member.obj);
        match &member.prop {
            PropShape::Ident(prop) => {
                self.check_function_name(prop.as_str());
                proof { lemma_detect_single(start, prop@); }
            },
            PropShape::Other => {
                proof { lemma_detect_single(start, seq![]); }
            },
        }
        let ghost mid = self.detected();
        assert(mid == detect_names(start, own));
        match &member.obj {
            ExprShape::Member(inner_member) => {
                self.check_member_expression(inner_member);
            },
            ExprShape::Ident(obj) => {
                self.check_function_name(obj.as_str());
                proof { lemma_detect_single(mid, obj@); }
            },
            ExprShape::Other => {
                proof { lemma_detect_single(mid, seq![]); }
            },
        }
        proof {
            lemma_detect_names_concat(start, own, inner);
        }
    }

    /// Checks the callee of a call expression: an identifier is checked by
    /// name, a member access as a member access; other callees are ignored.
    pub fn visit_call_expr(&mut self, callee: &CalleeShape)
        requires
            old(self).wf(),
        ensures
            final(self).wf(),
            final(self).detected() == detect_names(old(self).detected(), site_names(CallSite::Call(*callee))),
    {
        match callee {
            CalleeShape::Expr(ExprShape::Ident(ident)) => {
                self.check_function_name(ident.as_str());
                proof { lemma_detect_single(old(self).detected(), ident@); }
            },
            CalleeShape::Expr(ExprShape::Member(member)) => {
                self.check_member_expression(member);
            },
            _ => {
                proof { lemma_detect_single(old(self).detected(), seq![]); }
            },
        }
    }

    /// Checks the callee of a `new` expression when it is an identifier.
    pub fn visit_new_expr(&mut self, callee: &ExprShape)
        requires
            old(self).wf(),
        ensures
            final(self).wf(),
            final(self).detected() == detect_names(old(self).detected(), site_names(CallSite::New(*callee))),
    {
        match callee {
            ExprShape::Ident(ident) => {
                self.check_function_name(ident.as_str());
                proof { lemma_detect_single(old(self).detected(), ident@); }
            },
            _ => {
                proof { lemma_detect_single(old(self).detected(), seq![]); }
            },
        }
    }

    /// Checks one call site.
    pub fn visit_site(&mut self, site: &CallSite)
        requires
            old(self).wf(),
        ensures
            final(self).wf(),
            final(self).detected() == detect_names(old(self).detected(), site_names(*site)),
    {
        match site {
            CallSite::Call(callee) => self.visit_call_expr(callee),
            CallSite::New(callee) => self.visit_new_expr(callee),
        }
    }
}

/// What plugin detection and entry-point detection read of a parsed module:
/// its call and `new` expressions in the order of a depth-first walk, and the
/// names of its function declarations that do not lie inside another function
/// declaration.
pub struct ModuleSummary {
    pub sites: Vec<CallSite>,
    pub fn_decls: Vec<String>,
}

/// The plugins that the call sites of a module need, in order of first
/// detection.
pub open spec fn module_plugins(sites: Seq<CallSite>) -> Seq<Seq<char>> {
    detect_names(seq![], sites_names(sites))
}

/// The plugins that the call sites of a module need, in the order in which
/// they are first detected.
pub fn detect_plugins_in_module(sites: &Vec<CallSite>) -> (r: Vec<String>)
    ensures
        r.deep_view() == module_plugins(sites@),
{
    let mut detector = PluginDetector::new();
    let mut i: usize = 0;
    assert(sites@.subrange(0, 0) =~= Seq::<CallSite>::empty());
    while i < sites.len()
        invariant
            detector.wf(),
            i <= sites.len(),
            detector.detected() == module_plugins(sites@.subrange(0, i as int)),
        decreases sites.len() - i,
    {
        let ghost prefix = sites@.subrange(0, i as int + 1);
        assert(prefix.drop_last() =~= sites@.subrange(0, i as int));
        assert(prefix.last() == sites@[i as int]);
        detector.visit_site(&sites[i]);
        proof {
            lemma_detect_names_concat(seq![], sites_names(sites@.subrange(0, i as int)), site_names(sites@[i as int]));
        }
        i = i + 1;
    }
    assert(sites@.subrange(0, sites.len() as int) =~= sites@);
    detector.detected_plugins()
}

/// `l` followed by the items of `xs` that it lacks, each once, in order.
pub open spec fn merge_once(l: Seq<Seq<char>>, xs: Seq<Seq<char>>) -> Seq<Seq<char>>
    decreases xs.len(),
{
    if xs.len() == 0 {
        l
    } else {
        add_once(merge_once(l, xs.drop_last()), xs.last())
    }
}

/// The plugins that the modules need together, in order of first detection.
pub open spec fn modules_plugins(ms: Seq<ModuleSummary>) -> Seq<Seq<char>>
    decreases ms.len(),
{
    if ms.len() == 0 {
        seq![]
    } else {
        merge_once(modules_plugins(ms.drop_last()), module_plugins(ms.last().sites@))
    }
}

/// The plugins that a set of parsed modules needs: a plugin is needed when
/// a call or `new` expression names one of its API functions. Each plugin
/// comes once, in the order in which it is first detected.
pub fn detect_plugins_from_ast(modules: &Vec<ModuleSummary>) -> (r: Vec<String>)
    ensures
        r.deep_view() == modules_plugins(modules@),
{
    let mut all: Vec<String> = Vec::new();
    let mut k: usize = 0;
    assert(modules@.subrange(0, 0) =~= Seq::<ModuleSummary>::empty());
    assert(all.deep_view() =~= Seq::<Seq<char>>::empty());
    while k < modules.len()
        invariant
            k <= modules.len(),
            all.deep_view() == modules_plugins(modules@.subrange(0, k as int)),
        decreases modules.len() - k,
    {
        let ghost prefix = modules@.subrange(0, k as int + 1);
        assert(prefix.drop_last() =~= modules@.subrange(0, k as int));
        assert(prefix.last() == modules@[k as int]);
        let found = detect_plugins_in_module(&modules[k].sites);
        let ghost start = all.deep_view();
        let ghost fv = found.deep_view();
        let mut j: usize = 0;
        assert(fv.subrange(0, 0) =~= Seq::<Seq<char>>::empty());
        while j < found.len()
            invariant
                fv == found.deep_view(),
                j <= found.len(),
                all.deep_view() == merge_once(start, fv.subrange(0, j as int)),
            decreases found.len() - j,
        {
            let ghost before = all.deep_view();
            let mut present = false;
            let mut t: usize = 0;
            while t < all.len()
                invariant
                    before == all.deep_view(),
                    fv == found.deep_view(),
                    j < found.len(),
                    t <= all.len(),
                    present ==> before.contains(fv[j as int]),
                    !present ==> forall|q: int| 0 <= q < t ==> before[q] != fv[j as int],
                decreases all.len() - t,
            {
                if str_equal(all[t].as_str(), found[j].as_str()) {
                    assert(before[t as int] == fv[j as int]);
                    present = true;
                }
                t = t + 1;
            }
            let ghost x = fv[j as int];
            let ghost fp = fv.subrange(0, j as int + 1);
            assert(fp.drop_last() =~= fv.subrange(0, j as int));
            assert(fp.last() == x);
            if !present {
                all.push(found[j].clone());
                assert(all.deep_view() =~= before.push(x));
            }
            j = j + 1;
        }
        assert(fv.subrange(0, found.len() as int) =~= fv);
        k = k + 1;
    }
    assert(modules@.subrange(0, modules.len() as int) =~= modules@);
    all
}

/// Whether a module declares a function named `main`.
pub open spec fn declares_main(fn_decls: Seq<Seq<char>>) -> bool {
    fn_decls.contains("main"@)
}

/// Whether the module declares a function named `main`, which makes its
/// file an entry point.
pub fn has_main_function(module: &ModuleSummary) -> (r: bool)
    ensures
        r == declares_main(module.fn_decls.deep_view()),
{
    let ghost names = module.fn_decls.deep_view();
    let mut i: usize = 0;
    while i < module.fn_decls.len()
        invariant
            names == module.fn_decls.deep_view(),
            i <= module.fn_decls.len(),
            forall|k: int| 0 <= k < i ==> names[k] != "main"@,
        decreases module.fn_decls.len() - i,
    {
        if str_equal(module.fn_decls[i].as_str(), "main") {
            assert(names[i as int] == "main"@);
            return true;
        }
        i = i + 1;
    }
    false
}


/// The module has a call site that names an API function of plugin `p`.
pub open spec fn module_needs(m: ModuleSummary, p: Seq<char>) -> bool {
    exists|i: int|
        0 <= i < sites_names(m.sites@).len() && api_plugin(#[trigger] sites_names(m.sites@)[i]) == Some(p)
}

proof fn lemma_add_once(l: Seq<Seq<char>>, p: Seq<char>)
    ensures
        forall|x: Seq<char>| #[trigger] add_once(l, p).contains(x) <==> (l.contains(x) || x == p),
        l.no_duplicates() ==> add_once(l, p).no_duplicates(),
{
    if !l.contains(p) {
        assert forall|x: Seq<char>| #[trigger] add_once(l, p).contains(x) <==> (l.contains(x) || x == p) by {
            if l.push(p).contains(x) {
                let i = choose|i: int| 0 <= i < l.push(p).len() && l.push(p)[i] == x;
                if i < l.len() {
                    assert(l[i] == x);
                }
            }
            if l.contains(x) {
                let i = choose|i: int| 0 <= i < l.len() && l[i] == x;
                assert(l.push(p)[i] == x);
            }
            if x == p {
                assert(l.push(p)[l.len() as int] == x);
            }
        }
    }
}

proof fn lemma_detect_names_members(l: Seq<Seq<char>>, ns: Seq<Seq<char>>)
    ensures
        forall|x: Seq<char>|
            #[trigger] detect_names(l, ns).contains(x) <==> (l.contains(x) || exists|i: int|
                0 <= i < ns.len() && api_plugin(#[trigger] ns[i]) == Some(x)),
        l.no_duplicates() ==> detect_names(l, ns).no_duplicates(),
    decreases ns.len(),
{
    if ns.len() > 0 {
        let prev = detect_names(l, ns.drop_last());
        lemma_detect_names_members(l, ns.drop_last());
        let last = ns.last();
        match api_plugin(last) {
            Some(p) => {
                lemma_add_once(prev, p);
            },
            None => {},
        }
        assert forall|x: Seq<char>|
            #[trigger] detect_names(l, ns).contains(x) <==> (l.contains(x) || exists|i: int|
                0 <= i < ns.len() && api_plugin(#[trigger] ns[i]) == Some(x)) by {
            if exists|i: int| 0 <= i < ns.len() && api_plugin(#[trigger] ns[i]) == Some(x) {
                let i = choose|i: int| 0 <= i < ns.len() && api_plugin(#[trigger] ns[i]) == Some(x);
                if i < ns.len() - 1 {
                    assert(ns.drop_last()[i] == ns[i]);
                }
            }
            if exists|i: int| 0 <= i < ns.drop_last().len() && api_plugin(#[trigger] ns.drop_last()[i]) == Some(x) {
                let i = choose|i: int| 0 <= i < ns.drop_last().len() && api_plugin(#[trigger] ns.drop_last()[i]) == Some(x);
                assert(ns[i] == ns.drop_last()[i]);
            }
        }
    }
}

proof fn lemma_merge_once_members(l: Seq<Seq<char>>, xs: Seq<Seq<char>>)
    ensures
        forall|x: Seq<char>| #[trigger] merge_once(l, xs).contains(x) <==> (l.contains(x) || xs.contains(x)),
        l.no_duplicates() ==> merge_once(l, xs).no_duplicates(),
    decreases xs.len(),
{
    if xs.len() > 0 {
        lemma_merge_once_members(l, xs.drop_last());
        lemma_add_once(merge_once(l, xs.drop_last()), xs.last());
        assert forall|x: Seq<char>| #[trigger] merge_once(l, xs).contains(x) <==> (l.contains(x) || xs.contains(x)) by {
            if xs.contains(x) {
                let i = choose|i: int| 0 <= i < xs.len() && xs[i] == x;
                if i < xs.len() - 1 {
                    assert(xs.drop_last()[i] == x);
                }
            }
            if xs.drop_last().contains(x) {
                let i = choose|i: int| 0 <= i < xs.drop_last().len() && xs.drop_last()[i] == x;
                assert(xs[i] == x);
            }
        }
    }
}

/// What detection finds in a set of modules: each plugin once, and exactly
/// the plugins one of whose API functions some call or `new` expression of
/// some module names.
pub proof fn law_detected_plugins(ms: Seq<ModuleSummary>)
    ensures
        modules_plugins(ms).no_duplicates(),
        forall|p: Seq<char>|
            #[trigger] modules_plugins(ms).contains(p) <==> exists|k: int|
                0 <= k < ms.len() && module_needs(#[trigger] ms[k], p),
    decreases ms.len(),
{
    if ms.len() > 0 {
        law_detected_plugins(ms.drop_last());
        let prev = modules_plugins(ms.drop_last());
        let mp = module_plugins(ms.last().sites@);
        lemma_merge_once_members(prev, mp);
        lemma_detect_names_members(seq![], sites_names(ms.last().sites@));
        assert forall|p: Seq<char>|
            #[trigger] modules_plugins(ms).contains(p) <==> exists|k: int|
                0 <= k < ms.len() && module_needs(#[trigger] ms[k], p) by {
            if exists|k: int| 0 <= k < ms.len() && module_needs(#[trigger] ms[k], p) {
                let k = choose|k: int| 0 <= k < ms.len() && module_needs(#[trigger] ms[k], p);
                if k < ms.len() - 1 {
                    assert(ms.drop_last()[k] == ms[k]);
                } else {
                    assert(mp.contains(p));
                }
            }
            if exists|k: int| 0 <= k < ms.drop_last().len() && module_needs(#[trigger] ms.drop_last()[k], p) {
                let k = choose|k: int| 0 <= k < ms.drop_last().len() && module_needs(#[trigger] ms.drop_last()[k], p);
                assert(ms[k] == ms.drop_last()[k]);
            }
            if mp.contains(p) {
                assert(module_needs(ms[ms.len() - 1], p));
            }
        }
    }
}

/// The plugin that an API name's prefix names, for the plugins whose API
/// functions carry the plugin's prefix: `http_`, `file_` and `fs_` (the
/// `fs` plugin), `crypto_`, `os_`, `path_`, `process_`, `timer_`, `json_`,
/// `log_`, `math_` and `str_` (the `string` plugin).
pub open spec fn prefix_plugin(name: Seq<char>) -> Option<Seq<char>> {
    if starts_with_seq(name, "http_"@) {
        Some("http"@)
    } else if starts_with_seq(name, "file_"@) || starts_with_seq(name, "fs_"@) {
        Some("fs"@)
    } else if starts_with_seq(name, "crypto_"@) {
        Some("crypto"@)
    } else if starts_with_seq(name, "os_"@) {
        Some("os"@)
    } else if starts_with_seq(name, "path_"@) {
        Some("path"@)
    } else if starts_with_seq(name, "process_"@) {
        Some("process"@)
    } else if starts_with_seq(name, "timer_"@) {
        Some("timer"@)
    } else if starts_with_seq(name, "json_"@) {
        Some("json"@)
    } else if starts_with_seq(name, "log_"@) {
        Some("log"@)
    } else if starts_with_seq(name, "math_"@) {
        Some("math"@)
    } else if starts_with_seq(name, "str_"@) {
        Some("string"@)
    } else {
        None
    }
}

/// Every entry of the table with a plugin prefix binds its plugin.
pub open spec fn follows_prefixes(t: Seq<(Seq<char>, Seq<char>)>) -> bool {
    forall|i: int| 0 <= i < t.len() && (#[trigger] prefix_plugin(t[i].0)) is Some ==> prefix_plugin(t[i].0) == Some(t[i].1)
}

/// What a name's first characters say about its prefixes.
proof fn lemma_prefix_facts(name: Seq<char>)
    ensures
        starts_with_seq(name, "http_"@) <==> (name.len() >= 5 && forall|k: int| 0 <= k < 5 ==> name[k] == "http_"@[k]),
        starts_with_seq(name, "file_"@) <==> (name.len() >= 5 && forall|k: int| 0 <= k < 5 ==> name[k] == "file_"@[k]),
        starts_with_seq(name, "fs_"@) <==> (name.len() >= 3 && forall|k: int| 0 <= k < 3 ==> name[k] == "fs_"@[k]),
        starts_with_seq(name, "crypto_"@) <==> (name.len() >= 7 && forall|k: int| 0 <= k < 7 ==> name[k] == "crypto_"@[k]),
        starts_with_seq(name, "os_"@) <==> (name.len() >= 3 && forall|k: int| 0 <= k < 3 ==> name[k] == "os_"@[k]),
        starts_with_seq(name, "path_"@) <==> (name.len() >= 5 && forall|k: int| 0 <= k < 5 ==> name[k] == "path_"@[k]),
        starts_with_seq(name, "process_"@) <==> (name.len() >= 8 && forall|k: int| 0 <= k < 8 ==> name[k] == "process_"@[k]),
        starts_with_seq(name, "timer_"@) <==> (name.len() >= 6 && forall|k: int| 0 <= k < 6 ==> name[k] == "timer_"@[k]),
        starts_with_seq(name, "json_"@) <==> (name.len() >= 5 && forall|k: int| 0 <= k < 5 ==> name[k] == "json_"@[k]),
        starts_with_seq(name, "log_"@) <==> (name.len() >= 4 && forall|k: int| 0 <= k < 4 ==> name[k] == "log_"@[k]),
        starts_with_seq(name, "math_"@) <==> (name.len() >= 5 && forall|k: int| 0 <= k < 5 ==> name[k] == "math_"@[k]),
        starts_with_seq(name, "str_"@) <==> (name.len() >= 4 && forall|k: int| 0 <= k < 4 ==> name[k] == "str_"@[k]),
        "http_"@ == seq!['h', 't', 't', 'p', '_'],
        "file_"@ == seq!['f', 'i', 'l', 'e', '_'],
        "fs_"@ == seq!['f', 's', '_'],
        "crypto_"@ == seq!['c', 'r', 'y', 'p', 't', 'o', '_'],
        "os_"@ == seq!['o', 's', '_'],
        "path_"@ == seq!['p', 'a', 't', 'h', '_'],
        "process_"@ == seq!['p', 'r', 'o', 'c', 'e', 's', 's', '_'],
        "timer_"@ == seq!['t', 'i', 'm', 'e', 'r', '_'],
        "json_"@ == seq!['j', 's', 'o', 'n', '_'],
        "log_"@ == seq!['l', 'o', 'g', '_'],
        "math_"@ == seq!['m', 'a', 't', 'h', '_'],
        "str_"@ == seq!['s', 't', 'r', '_'],
{
    reveal_strlit("http_");
    reveal_strlit("file_");
    reveal_strlit("fs_");
    reveal_strlit("crypto_");
    reveal_strlit("os_");
    reveal_strlit("path_");
    reveal_strlit("process_");
    reveal_strlit("timer_");
    reveal_strlit("json_");
    reveal_strlit("log_");
    reveal_strlit("math_");
    reveal_strlit("str_");
    if starts_with_seq(name, "http_"@) {
        assert forall|k: int| 0 <= k < 5 implies name[k] == "http_"@[k] by {
            assert(name.subrange(0, 5)[k] == name[k]);
        }
    }
    if name.len() >= 5 && forall|k: int| 0 <= k < 5 ==> name[k] == "http_"@[k] {
        assert(name.subrange(0, 5) =~= "http_"@);
    }
    if starts_with_seq(name, "file_"@) {
        assert forall|k: int| 0 <= k < 5 implies name[k] == "file_"@[k] by {
            assert(name.subrange(0, 5)[k] == name[k]);
        }
    }
    if name.len() >= 5 && forall|k: int| 0 <= k < 5 ==> name[k] == "file_"@[k] {
        assert(name.subrange(0, 5) =~= "file_"@);
    }
    if starts_with_seq(name, "fs_"@) {
        assert forall|k: int| 0 <= k < 3 implies name[k] == "fs_"@[k] by {
            assert(name.subrange(0, 3)[k] == name[k]);
        }
    }
    if name.len() >= 3 && forall|k: int| 0 <= k < 3 ==> name[k] == "fs_"@[k] {
        assert(name.subrange(0, 3) =~= "fs_"@);
    }
    if starts_with_seq(name, "crypto_"@) {
        assert forall|k: int| 0 <= k < 7 implies name[k] == "crypto_"@[k] by {
            assert(name.subrange(0, 7)[k] == name[k]);
        }
    }
    if name.len() >= 7 && forall|k: int| 0 <= k < 7 ==> name[k] == "crypto_"@[k] {
        assert(name.subrange(0, 7) =~= "crypto_"@);
    }
    if starts_with_seq(name, "os_"@) {
        assert forall|k: int| 0 <= k < 3 implies name[k] == "os_"@[k] by {
            assert(name.subrange(0, 3)[k] == name[k]);
        }
    }
    if name.len() >= 3 && forall|k: int| 0 <= k < 3 ==> name[k] == "os_"@[k] {
        assert(name.subrange(0, 3) =~= "os_"@);
    }
    if starts_with_seq(name, "path_"@) {
        assert forall|k: int| 0 <= k < 5 implies name[k] == "path_"@[k] by {
            assert(name.subrange(0, 5)[k] == name[k]);
        }
    }
    if name.len() >= 5 && forall|k: int| 0 <= k < 5 ==> name[k] == "path_"@[k] {
        assert(name.subrange(0, 5) =~= "path_"@);
    }
    if starts_with_seq(name, "process_"@) {
        assert forall|k: int| 0 <= k < 8 implies name[k] == "process_"@[k] by {
            assert(name.subrange(0, 8)[k] == name[k]);
        }
    }
    if name.len() >= 8 && forall|k: int| 0 <= k < 8 ==> name[k] == "process_"@[k] {
        assert(name.subrange(0, 8) =~= "process_"@);
    }
    if starts_with_seq(name, "timer_"@) {
        assert forall|k: int| 0 <= k < 6 implies name[k] == "timer_"@[k] by {
            assert(name.subrange(0, 6)[k] == name[k]);
        }
    }
    if name.len() >= 6 && forall|k: int| 0 <= k < 6 ==> name[k] == "timer_"@[k] {
        assert(name.subrange(0, 6) =~= "timer_"@);
    }
    if starts_with_seq(name, "json_"@) {
        assert forall|k: int| 0 <= k < 5 implies name[k] == "json_"@[k] by {
            assert(name.subrange(0, 5)[k] == name[k]);
        }
    }
    if name.len() >= 5 && forall|k: int| 0 <= k < 5 ==> name[k] == "json_"@[k] {
        assert(name.subrange(0, 5) =~= "json_"@);
    }
    if starts_with_seq(name, "log_"@) {
        assert forall|k: int| 0 <= k < 4 implies name[k] == "log_"@[k] by {
            assert(name.subrange(0, 4)[k] == name[k]);
        }
    }
    if name.len() >= 4 && forall|k: int| 0 <= k < 4 ==> name[k] == "log_"@[k] {
        assert(name.subrange(0, 4) =~= "log_"@);
    }
    if starts_with_seq(name, "math_"@) {
        assert forall|k: int| 0 <= k < 5 implies name[k] == "math_"@[k] by {
            assert(name.subrange(0, 5)[k] == name[k]);
        }
    }
    if name.len() >= 5 && forall|k: int| 0 <= k < 5 ==> name[k] == "math_"@[k] {
        assert(name.subrange(0, 5) =~= "math_"@);
    }
    if starts_with_seq(name, "str_"@) {
        assert forall|k: int| 0 <= k < 4 implies name[k] == "str_"@[k] by {
            assert(name.subrange(0, 4)[k] == name[k]);
        }
    }
    if name.len() >= 4 && forall|k: int| 0 <= k < 4 ==> name[k] == "str_"@[k] {
        assert(name.subrange(0, 4) =~= "str_"@);
    }
}

/// A binding agrees with the prefix of its name.
pub open spec fn binding_follows_prefix(e: (Seq<char>, Seq<char>)) -> bool {
    prefix_plugin(e.0) is Some ==> prefix_plugin(e.0) == Some(e.1)
}

proof fn lemma_follows_concat(a: Seq<(Seq<char>, Seq<char>)>, b: Seq<(Seq<char>, Seq<char>)>)
    requires
        follows_prefixes(a),
        follows_prefixes(b),
    ensures
        follows_prefixes(a + b),
{
    assert forall|i: int| 0 <= i < (a + b).len() && (#[trigger] prefix_plugin((a + b)[i].0)) is Some implies prefix_plugin((a + b)[i].0) == Some((a + b)[i].1) by {
        if i < a.len() {
            assert((a + b)[i] == a[i]);
        } else {
            assert((a + b)[i] == b[i - a.len()]);
        }
    }
}

#[verifier::spinoff_prover]
proof fn lemma_http_api_table_follows()
    ensures
        follows_prefixes(http_api_table()),
{
    let t = http_api_table();
    reveal_strlit("http_get");
    lemma_prefix_facts("http_get"@);
    assert(binding_follows_prefix(("http_get"@, "http"@)));
    reveal_strlit("http_post");
    lemma_prefix_facts("http_post"@);
    assert(binding_follows_prefix(("http_post"@, "http"@)));
    reveal_strlit("http_put");
    lemma_prefix_facts("http_put"@);
    assert(binding_follows_prefix(("http_put"@, "http"@)));
    reveal_strlit("http_delete");
    lemma_prefix_facts("http_delete"@);
    assert(binding_follows_prefix(("http_delete"@, "http"@)));
    reveal_strlit("http_head");
    lemma_prefix_facts("http_head"@);
    assert(binding_follows_prefix(("http_head"@, "http"@)));
    reveal_strlit("http_get_status");
    lemma_prefix_facts("http_get_status"@);
    assert(binding_follows_prefix(("http_get_status"@, "http"@)));
    reveal_strlit("http_get_header");
    lemma_prefix_facts("http_get_header"@);
    assert(binding_follows_prefix(("http_get_header"@, "http"@)));
    reveal_strlit("http_set_timeout");
    lemma_prefix_facts("http_set_timeout"@);
    assert(binding_follows_prefix(("http_set_timeout"@, "http"@)));
    reveal_strlit("fetch");
    lemma_prefix_facts("fetch"@);
    assert(binding_follows_prefix(("fetch"@, "http"@)));
    assert forall|i: int| 0 <= i < t.len() && (#[trigger] prefix_plugin(t[i].0)) is Some implies prefix_plugin(t[i].0) == Some(t[i].1) by {
        if i == 0 {
            assert(binding_follows_prefix(t[0]));
        } else if i == 1 {
            assert(binding_follows_prefix(t[1]));
        } else if i == 2 {
            assert(binding_follows_prefix(t[2]));
        } else if i == 3 {
            assert(binding_follows_prefix(t[3]));
        } else if i == 4 {
            assert(binding_follows_prefix(t[4]));
        } else if i == 5 {
            assert(binding_follows_prefix(t[5]));
        } else if i == 6 {
            assert(binding_follows_prefix(t[6]));
        } else if i == 7 {
            assert(binding_follows_prefix(t[7]));
        } else if i == 8 {
            assert(binding_follows_prefix(t[8]));
        }
    }
}

#[verifier::spinoff_prover]
proof fn lemma_fs_api_table_follows()
    ensures
        follows_prefixes(fs_api_table()),
{
    let t = fs_api_table();
    reveal_strlit("file_write");
    lemma_prefix_facts("file_write"@);
    assert(binding_follows_prefix(("file_write"@, "fs"@)));
    reveal_strlit("file_append");
    lemma_prefix_facts("file_append"@);
    assert(binding_follows_prefix(("file_append"@, "fs"@)));
    reveal_strlit("file_read");
    lemma_prefix_facts("file_read"@);
    assert(binding_follows_prefix(("file_read"@, "fs"@)));
    reveal_strlit("file_exists");
    lemma_prefix_facts("file_exists"@);
    assert(binding_follows_prefix(("file_exists"@, "fs"@)));
    reveal_strlit("file_size");
    lemma_prefix_facts("file_size"@);
    assert(binding_follows_prefix(("file_size"@, "fs"@)));
    reveal_strlit("writeFileSync");
    lemma_prefix_facts("writeFileSync"@);
    assert(binding_follows_prefix(("writeFileSync"@, "fs"@)));
    reveal_strlit("fs_writeFile");
    lemma_prefix_facts("fs_writeFile"@);
    assert(binding_follows_prefix(("fs_writeFile"@, "fs"@)));
    assert forall|i: int| 0 <= i < t.len() && (#[trigger] prefix_plugin(t[i].0)) is Some implies prefix_plugin(t[i].0) == Some(t[i].1) by {
        if i == 0 {
            assert(binding_follows_prefix(t[0]));
        } else if i == 1 {
            assert(binding_follows_prefix(t[1]));
        } else if i == 2 {
            assert(binding_follows_prefix(t[2]));
        } else if i == 3 {
            assert(binding_follows_prefix(t[3]));
        } else if i == 4 {
            assert(binding_follows_prefix(t[4]));
        } else if i == 5 {
            assert(binding_follows_prefix(t[5]));
        } else if i == 6 {
            assert(binding_follows_prefix(t[6]));
        }
    }
}

#[verifier::spinoff_prover]
proof fn lemma_crypto_api_table_follows()
    ensures
        follows_prefixes(crypto_api_table()),
{
    let t = crypto_api_table();
    reveal_strlit("crypto_md5");
    lemma_prefix_facts("crypto_md5"@);
    assert(binding_follows_prefix(("crypto_md5"@, "crypto"@)));
    reveal_strlit("crypto_sha256");
    lemma_prefix_facts("crypto_sha256"@);
    assert(binding_follows_prefix(("crypto_sha256"@, "crypto"@)));
    reveal_strlit("crypto_sha1");
    lemma_prefix_facts("crypto_sha1"@);
    assert(binding_follows_prefix(("crypto_sha1"@, "crypto"@)));
    reveal_strlit("crypto_crc32");
    lemma_prefix_facts("crypto_crc32"@);
    assert(binding_follows_prefix(("crypto_crc32"@, "crypto"@)));
    reveal_strlit("crypto_base64_encode");
    lemma_prefix_facts("crypto_base64_encode"@);
    assert(binding_follows_prefix(("crypto_base64_encode"@, "crypto"@)));
    reveal_strlit("crypto_base64_decode");
    lemma_prefix_facts("crypto_base64_decode"@);
    assert(binding_follows_prefix(("crypto_base64_decode"@, "crypto"@)));
    reveal_strlit("sha256");
    lemma_prefix_facts("sha256"@);
    assert(binding_follows_prefix(("sha256"@, "crypto"@)));
    assert forall|i: int| 0 <= i < t.len() && (#[trigger] prefix_plugin(t[i].0)) is Some implies prefix_plugin(t[i].0) == Some(t[i].1) by {
        if i == 0 {
            assert(binding_follows_prefix(t[0]));
        } else if i == 1 {
            assert(binding_follows_prefix(t[1]));
        } else if i == 2 {
            assert(binding_follows_prefix(t[2]));
        } else if i == 3 {
            assert(binding_follows_prefix(t[3]));
        } else if i == 4 {
            assert(binding_follows_prefix(t[4]));
        } else if i == 5 {
            assert(binding_follows_prefix(t[5]));
        } else if i == 6 {
            assert(binding_follows_prefix(t[6]));
        }
    }
}

#[verifier::spinoff_prover]
proof fn lemma_os_api_table_follows()
    ensures
        follows_prefixes(os_api_table()),
{
    let t = os_api_table();
    reveal_strlit("os_type");
    lemma_prefix_facts("os_type"@);
    assert(binding_follows_prefix(("os_type"@, "os"@)));
    reveal_strlit("os_arch");
    lemma_prefix_facts("os_arch"@);
    assert(binding_follows_prefix(("os_arch"@, "os"@)));
    reveal_strlit("os_hostname");
    lemma_prefix_facts("os_hostname"@);
    assert(binding_follows_prefix(("os_hostname"@, "os"@)));
    reveal_strlit("os_homedir");
    lemma_prefix_facts("os_homedir"@);
    assert(binding_follows_prefix(("os_homedir"@, "os"@)));
    reveal_strlit("os_tmpdir");
    lemma_prefix_facts("os_tmpdir"@);
    assert(binding_follows_prefix(("os_tmpdir"@, "os"@)));
    reveal_strlit("os_env");
    lemma_prefix_facts("os_env"@);
    assert(binding_follows_prefix(("os_env"@, "os"@)));
    reveal_strlit("os_setenv");
    lemma_prefix_facts("os_setenv"@);
    assert(binding_follows_prefix(("os_setenv"@, "os"@)));
    reveal_strlit("os_cpus");
    lemma_prefix_facts("os_cpus"@);
    assert(binding_follows_prefix(("os_cpus"@, "os"@)));
    reveal_strlit("os_totalmem");
    lemma_prefix_facts("os_totalmem"@);
    assert(binding_follows_prefix(("os_totalmem"@, "os"@)));
    reveal_strlit("os_freemem");
    lemma_prefix_facts("os_freemem"@);
    assert(binding_follows_prefix(("os_freemem"@, "os"@)));
    reveal_strlit("os_uptime");
    lemma_prefix_facts("os_uptime"@);
    assert(binding_follows_prefix(("os_uptime"@, "os"@)));
    assert forall|i: int| 0 <= i < t.len() && (#[trigger] prefix_plugin(t[i].0)) is Some implies prefix_plugin(t[i].0) == Some(t[i].1) by {
        if i == 0 {
            assert(binding_follows_prefix(t[0]));
        } else if i == 1 {
            assert(binding_follows_prefix(t[1]));
        } else if i == 2 {
            assert(binding_follows_prefix(t[2]));
        } else if i == 3 {
            assert(binding_follows_prefix(t[3]));
        } else if i == 4 {
            assert(binding_follows_prefix(t[4]));
        } else if i == 5 {
            assert(binding_follows_prefix(t[5]));
        } else if i == 6 {
            assert(binding_follows_prefix(t[6]));
        } else if i == 7 {
            assert(binding_follows_prefix(t[7]));
        } else if i == 8 {
            assert(binding_follows_prefix(t[8]));
        } else if i == 9 {
            assert(binding_follows_prefix(t[9]));
        } else if i == 10 {
            assert(binding_follows_prefix(t[10]));
        }
    }
}

#[verifier::spinoff_prover]
proof fn lemma_path_api_table_follows()
    ensures
        follows_prefixes(path_api_table()),
{
    let t = path_api_table();
    reveal_strlit("path_join");
    lemma_prefix_facts("path_join"@);
    assert(binding_follows_prefix(("path_join"@, "path"@)));
    reveal_strlit("path_dirname");
    lemma_prefix_facts("path_dirname"@);
    assert(binding_follows_prefix(("path_dirname"@, "path"@)));
    reveal_strlit("path_basename");
    lemma_prefix_facts("path_basename"@);
    assert(binding_follows_prefix(("path_basename"@, "path"@)));
    reveal_strlit("path_extname");
    lemma_prefix_facts("path_extname"@);
    assert(binding_follows_prefix(("path_extname"@, "path"@)));
    reveal_strlit("path_is_absolute");
    lemma_prefix_facts("path_is_absolute"@);
    assert(binding_follows_prefix(("path_is_absolute"@, "path"@)));
    reveal_strlit("path_normalize");
    lemma_prefix_facts("path_normalize"@);
    assert(binding_follows_prefix(("path_normalize"@, "path"@)));
    reveal_strlit("path_cwd");
    lemma_prefix_facts("path_cwd"@);
    assert(binding_follows_prefix(("path_cwd"@, "path"@)));
    reveal_strlit("path_resolve");
    lemma_prefix_facts("path_resolve"@);
    assert(binding_follows_prefix(("path_resolve"@, "path"@)));
    assert forall|i: int| 0 <= i < t.len() && (#[trigger] prefix_plugin(t[i].0)) is Some implies prefix_plugin(t[i].0) == Some(t[i].1) by {
        if i == 0 {
            assert(binding_follows_prefix(t[0]));
        } else if i == 1 {
            assert(binding_follows_prefix(t[1]));
        } else if i == 2 {
            assert(binding_follows_prefix(t[2]));
        } else if i == 3 {
            assert(binding_follows_prefix(t[3]));
        } else if i == 4 {
            assert(binding_follows_prefix(t[4]));
        } else if i == 5 {
            assert(binding_follows_prefix(t[5]));
        } else if i == 6 {
            assert(binding_follows_prefix(t[6]));
        } else if i == 7 {
            assert(binding_follows_prefix(t[7]));
        }
    }
}

#[verifier::spinoff_prover]
proof fn lemma_process_api_table_follows()
    ensures
        follows_prefixes(process_api_table()),
{
    let t = process_api_table();
    reveal_strlit("process_pid");
    lemma_prefix_facts("process_pid"@);
    assert(binding_follows_prefix(("process_pid"@, "process"@)));
    reveal_strlit("process_ppid");
    lemma_prefix_facts("process_ppid"@);
    assert(binding_follows_prefix(("process_ppid"@, "process"@)));
    reveal_strlit("process_exit");
    lemma_prefix_facts("process_exit"@);
    assert(binding_follows_prefix(("process_exit"@, "process"@)));
    reveal_strlit("process_memory");
    lemma_prefix_facts("process_memory"@);
    assert(binding_follows_prefix(("process_memory"@, "process"@)));
    reveal_strlit("process_exec");
    lemma_prefix_facts("process_exec"@);
    assert(binding_follows_prefix(("process_exec"@, "process"@)));
    reveal_strlit("process_spawn");
    lemma_prefix_facts("process_spawn"@);
    assert(binding_follows_prefix(("process_spawn"@, "process"@)));
    reveal_strlit("process_kill");
    lemma_prefix_facts("process_kill"@);
    assert(binding_follows_prefix(("process_kill"@, "process"@)));
    reveal_strlit("process_exists");
    lemma_prefix_facts("process_exists"@);
    assert(binding_follows_prefix(("process_exists"@, "process"@)));
    assert forall|i: int| 0 <= i < t.len() && (#[trigger] prefix_plugin(t[i].0)) is Some implies prefix_plugin(t[i].0) == Some(t[i].1) by {
        if i == 0 {
            assert(binding_follows_prefix(t[0]));
        } else if i == 1 {
            assert(binding_follows_prefix(t[1]));
        } else if i == 2 {
            assert(binding_follows_prefix(t[2]));
        } else if i == 3 {
            assert(binding_follows_prefix(t[3]));
        } else if i == 4 {
            assert(binding_follows_prefix(t[4]));
        } else if i == 5 {
            assert(binding_follows_prefix(t[5]));
        } else if i == 6 {
            assert(binding_follows_prefix(t[6]));
        } else if i == 7 {
            assert(binding_follows_prefix(t[7]));
        }
    }
}

#[verifier::spinoff_prover]
proof fn lemma_cli_api_table_follows()
    ensures
        follows_prefixes(cli_api_table()),
{
    let t = cli_api_table();
    reveal_strlit("argc");
    lemma_prefix_facts("argc"@);
    assert(binding_follows_prefix(("argc"@, "cli"@)));
    reveal_strlit("argv");
    lemma_prefix_facts("argv"@);
    assert(binding_follows_prefix(("argv"@, "cli"@)));
    reveal_strlit("now_ms");
    lemma_prefix_facts("now_ms"@);
    assert(binding_follows_prefix(("now_ms"@, "cli"@)));
    reveal_strlit("sleep");
    lemma_prefix_facts("sleep"@);
    assert(binding_follows_prefix(("sleep"@, "cli"@)));
    reveal_strlit("getenv");
    lemma_prefix_facts("getenv"@);
    assert(binding_follows_prefix(("getenv"@, "cli"@)));
    reveal_strlit("exit");
    lemma_prefix_facts("exit"@);
    assert(binding_follows_prefix(("exit"@, "cli"@)));
    assert forall|i: int| 0 <= i < t.len() && (#[trigger] prefix_plugin(t[i].0)) is Some implies prefix_plugin(t[i].0) == Some(t[i].1) by {
        if i == 0 {
            assert(binding_follows_prefix(t[0]));
        } else if i == 1 {
            assert(binding_follows_prefix(t[1]));
        } else if i == 2 {
            assert(binding_follows_prefix(t[2]));
        } else if i == 3 {
            assert(binding_follows_prefix(t[3]));
        } else if i == 4 {
            assert(binding_follows_prefix(t[4]));
        } else if i == 5 {
            assert(binding_follows_prefix(t[5]));
        }
    }
}

#[verifier::spinoff_prover]
proof fn lemma_timer_api_table_follows()
    ensures
        follows_prefixes(timer_api_table()),
{
    let t = timer_api_table();
    reveal_strlit("timer_now_us");
    lemma_prefix_facts("timer_now_us"@);
    assert(binding_follows_prefix(("timer_now_us"@, "timer"@)));
    reveal_strlit("timer_measure");
    lemma_prefix_facts("timer_measure"@);
    assert(binding_follows_prefix(("timer_measure"@, "timer"@)));
    reveal_strlit("timer_sleep_us");
    lemma_prefix_facts("timer_sleep_us"@);
    assert(binding_follows_prefix(("timer_sleep_us"@, "timer"@)));
    reveal_strlit("timer_format");
    lemma_prefix_facts("timer_format"@);
    assert(binding_follows_prefix(("timer_format"@, "timer"@)));
    assert forall|i: int| 0 <= i < t.len() && (#[trigger] prefix_plugin(t[i].0)) is Some implies prefix_plugin(t[i].0) == Some(t[i].1) by {
        if i == 0 {
            assert(binding_follows_prefix(t[0]));
        } else if i == 1 {
            assert(binding_follows_prefix(t[1]));
        } else if i == 2 {
            assert(binding_follows_prefix(t[2]));
        } else if i == 3 {
            assert(binding_follows_prefix(t[3]));
        }
    }
}

#[verifier::spinoff_prover]
proof fn lemma_json_api_table_follows()
    ensures
        follows_prefixes(json_api_table()),
{
    let t = json_api_table();
    reveal_strlit("json_parse");
    lemma_prefix_facts("json_parse"@);
    assert(binding_follows_prefix(("json_parse"@, "json"@)));
    reveal_strlit("json_stringify");
    lemma_prefix_facts("json_stringify"@);
    assert(binding_follows_prefix(("json_stringify"@, "json"@)));
    reveal_strlit("json_get");
    lemma_prefix_facts("json_get"@);
    assert(binding_follows_prefix(("json_get"@, "json"@)));
    reveal_strlit("json_set");
    lemma_prefix_facts("json_set"@);
    assert(binding_follows_prefix(("json_set"@, "json"@)));
    reveal_strlit("json_has");
    lemma_prefix_facts("json_has"@);
    assert(binding_follows_prefix(("json_has"@, "json"@)));
    reveal_strlit("json_delete");
    lemma_prefix_facts("json_delete"@);
    assert(binding_follows_prefix(("json_delete"@, "json"@)));
    reveal_strlit("json_keys");
    lemma_prefix_facts("json_keys"@);
    assert(binding_follows_prefix(("json_keys"@, "json"@)));
    reveal_strlit("json_length");
    lemma_prefix_facts("json_length"@);
    assert(binding_follows_prefix(("json_length"@, "json"@)));
    reveal_strlit("json_validate");
    lemma_prefix_facts("json_validate"@);
    assert(binding_follows_prefix(("json_validate"@, "json"@)));
    reveal_strlit("json_pretty");
    lemma_prefix_facts("json_pretty"@);
    assert(binding_follows_prefix(("json_pretty"@, "json"@)));
    assert forall|i: int| 0 <= i < t.len() && (#[trigger] prefix_plugin(t[i].0)) is Some implies prefix_plugin(t[i].0) == Some(t[i].1) by {
        if i == 0 {
            assert(binding_follows_prefix(t[0]));
        } else if i == 1 {
            assert(binding_follows_prefix(t[1]));
        } else if i == 2 {
            assert(binding_follows_prefix(t[2]));
        } else if i == 3 {
            assert(binding_follows_prefix(t[3]));
        } else if i == 4 {
            assert(binding_follows_prefix(t[4]));
        } else if i == 5 {
            assert(binding_follows_prefix(t[5]));
        } else if i == 6 {
            assert(binding_follows_prefix(t[6]));
        } else if i == 7 {
            assert(binding_follows_prefix(t[7]));
        } else if i == 8 {
            assert(binding_follows_prefix(t[8]));
        } else if i == 9 {
            assert(binding_follows_prefix(t[9]));
        }
    }
}

#[verifier::spinoff_prover]
proof fn lemma_log_api_table_follows()
    ensures
        follows_prefixes(log_api_table()),
{
    let t = log_api_table();
    reveal_strlit("log_debug");
    lemma_prefix_facts("log_debug"@);
    assert(binding_follows_prefix(("log_debug"@, "log"@)));
    reveal_strlit("log_info");
    lemma_prefix_facts("log_info"@);
    assert(binding_follows_prefix(("log_info"@, "log"@)));
    reveal_strlit("log_warn");
    lemma_prefix_facts("log_warn"@);
    assert(binding_follows_prefix(("log_warn"@, "log"@)));
    reveal_strlit("log_error");
    lemma_prefix_facts("log_error"@);
    assert(binding_follows_prefix(("log_error"@, "log"@)));
    reveal_strlit("log_fatal");
    lemma_prefix_facts("log_fatal"@);
    assert(binding_follows_prefix(("log_fatal"@, "log"@)));
    reveal_strlit("log_set_level");
    lemma_prefix_facts("log_set_level"@);
    assert(binding_follows_prefix(("log_set_level"@, "log"@)));
    reveal_strlit("log_set_file");
    lemma_prefix_facts("log_set_file"@);
    assert(binding_follows_prefix(("log_set_file"@, "log"@)));
    reveal_strlit("log_set_console");
    lemma_prefix_facts("log_set_console"@);
    assert(binding_follows_prefix(("log_set_console"@, "log"@)));
    reveal_strlit("log_get_level");
    lemma_prefix_facts("log_get_level"@);
    assert(binding_follows_prefix(("log_get_level"@, "log"@)));
    reveal_strlit("log_format");
    lemma_prefix_facts("log_format"@);
    assert(binding_follows_prefix(("log_format"@, "log"@)));
    assert forall|i: int| 0 <= i < t.len() && (#[trigger] prefix_plugin(t[i].0)) is Some implies prefix_plugin(t[i].0) == Some(t[i].1) by {
        if i == 0 {
            assert(binding_follows_prefix(t[0]));
        } else if i == 1 {
            assert(binding_follows_prefix(t[1]));
        } else if i == 2 {
            assert(binding_follows_prefix(t[2]));
        } else if i == 3 {
            assert(binding_follows_prefix(t[3]));
        } else if i == 4 {
            assert(binding_follows_prefix(t[4]));
        } else if i == 5 {
            assert(binding_follows_prefix(t[5]));
        } else if i == 6 {
            assert(binding_follows_prefix(t[6]));
        } else if i == 7 {
            assert(binding_follows_prefix(t[7]));
        } else if i == 8 {
            assert(binding_follows_prefix(t[8]));
        } else if i == 9 {
            assert(binding_follows_prefix(t[9]));
        }
    }
}

#[verifier::spinoff_prover]
proof fn lemma_math_api_table_follows()
    ensures
        follows_prefixes(math_api_table()),
{
    let t = math_api_table();
    reveal_strlit("math_abs");
    lemma_prefix_facts("math_abs"@);
    assert(binding_follows_prefix(("math_abs"@, "math"@)));
    reveal_strlit("math_floor");
    lemma_prefix_facts("math_floor"@);
    assert(binding_follows_prefix(("math_floor"@, "math"@)));
    reveal_strlit("math_ceil");
    lemma_prefix_facts("math_ceil"@);
    assert(binding_follows_prefix(("math_ceil"@, "math"@)));
    reveal_strlit("math_round");
    lemma_prefix_facts("math_round"@);
    assert(binding_follows_prefix(("math_round"@, "math"@)));
    reveal_strlit("math_pow");
    lemma_prefix_facts("math_pow"@);
    assert(binding_follows_prefix(("math_pow"@, "math"@)));
    reveal_strlit("math_sqrt");
    lemma_prefix_facts("math_sqrt"@);
    assert(binding_follows_prefix(("math_sqrt"@, "math"@)));
    reveal_strlit("math_sin");
    lemma_prefix_facts("math_sin"@);
    assert(binding_follows_prefix(("math_sin"@, "math"@)));
    reveal_strlit("math_cos");
    lemma_prefix_facts("math_cos"@);
    assert(binding_follows_prefix(("math_cos"@, "math"@)));
    reveal_strlit("math_tan");
    lemma_prefix_facts("math_tan"@);
    assert(binding_follows_prefix(("math_tan"@, "math"@)));
    reveal_strlit("math_log");
    lemma_prefix_facts("math_log"@);
    assert(binding_follows_prefix(("math_log"@, "math"@)));
    reveal_strlit("math_log2");
    lemma_prefix_facts("math_log2"@);
    assert(binding_follows_prefix(("math_log2"@, "math"@)));
    reveal_strlit("math_log10");
    lemma_prefix_facts("math_log10"@);
    assert(binding_follows_prefix(("math_log10"@, "math"@)));
    reveal_strlit("math_exp");
    lemma_prefix_facts("math_exp"@);
    assert(binding_follows_prefix(("math_exp"@, "math"@)));
    reveal_strlit("math_max");
    lemma_prefix_facts("math_max"@);
    assert(binding_follows_prefix(("math_max"@, "math"@)));
    reveal_strlit("math_min");
    lemma_prefix_facts("math_min"@);
    assert(binding_follows_prefix(("math_min"@, "math"@)));
    reveal_strlit("math_random");
    lemma_prefix_facts("math_random"@);
    assert(binding_follows_prefix(("math_random"@, "math"@)));
    reveal_strlit("math_pi");
    lemma_prefix_facts("math_pi"@);
    assert(binding_follows_prefix(("math_pi"@, "math"@)));
    reveal_strlit("math_e");
    lemma_prefix_facts("math_e"@);
    assert(binding_follows_prefix(("math_e"@, "math"@)));
    assert forall|i: int| 0 <= i < t.len() && (#[trigger] prefix_plugin(t[i].0)) is Some implies prefix_plugin(t[i].0) == Some(t[i].1) by {
        if i == 0 {
            assert(binding_follows_prefix(t[0]));
        } else if i == 1 {
            assert(binding_follows_prefix(t[1]));
        } else if i == 2 {
            assert(binding_follows_prefix(t[2]));
        } else if i == 3 {
            assert(binding_follows_prefix(t[3]));
        } else if i == 4 {
            assert(binding_follows_prefix(t[4]));
        } else if i == 5 {
            assert(binding_follows_prefix(t[5]));
        } else if i == 6 {
            assert(binding_follows_prefix(t[6]));
        } else if i == 7 {
            assert(binding_follows_prefix(t[7]));
        } else if i == 8 {
            assert(binding_follows_prefix(t[8]));
        } else if i == 9 {
            assert(binding_follows_prefix(t[9]));
        } else if i == 10 {
            assert(binding_follows_prefix(t[10]));
        } else if i == 11 {
            assert(binding_follows_prefix(t[11]));
        } else if i == 12 {
            assert(binding_follows_prefix(t[12]));
        } else if i == 13 {
            assert(binding_follows_prefix(t[13]));
        } else if i == 14 {
            assert(binding_follows_prefix(t[14]));
        } else if i == 15 {
            assert(binding_follows_prefix(t[15]));
        } else if i == 16 {
            assert(binding_follows_prefix(t[16]));
        } else if i == 17 {
            assert(binding_follows_prefix(t[17]));
        }
    }
}

#[verifier::spinoff_prover]
proof fn lemma_string_api_table_follows()
    ensures
        follows_prefixes(string_api_table()),
{
    let t = string_api_table();
    reveal_strlit("str_len");
    lemma_prefix_facts("str_len"@);
    assert(binding_follows_prefix(("str_len"@, "string"@)));
    reveal_strlit("str_substr");
    lemma_prefix_facts("str_substr"@);
    assert(binding_follows_prefix(("str_substr"@, "string"@)));
    reveal_strlit("str_replace");
    lemma_prefix_facts("str_replace"@);
    assert(binding_follows_prefix(("str_replace"@, "string"@)));
    reveal_strlit("str_replace_all");
    lemma_prefix_facts("str_replace_all"@);
    assert(binding_follows_prefix(("str_replace_all"@, "string"@)));
    reveal_strlit("str_find");
    lemma_prefix_facts("str_find"@);
    assert(binding_follows_prefix(("str_find"@, "string"@)));
    reveal_strlit("str_to_upper");
    lemma_prefix_facts("str_to_upper"@);
    assert(binding_follows_prefix(("str_to_upper"@, "string"@)));
    reveal_strlit("str_to_lower");
    lemma_prefix_facts("str_to_lower"@);
    assert(binding_follows_prefix(("str_to_lower"@, "string"@)));
    reveal_strlit("str_trim");
    lemma_prefix_facts("str_trim"@);
    assert(binding_follows_prefix(("str_trim"@, "string"@)));
    reveal_strlit("str_trim_left");
    lemma_prefix_facts("str_trim_left"@);
    assert(binding_follows_prefix(("str_trim_left"@, "string"@)));
    reveal_strlit("str_trim_right");
    lemma_prefix_facts("str_trim_right"@);
    assert(binding_follows_prefix(("str_trim_right"@, "string"@)));
    reveal_strlit("str_split");
    lemma_prefix_facts("str_split"@);
    assert(binding_follows_prefix(("str_split"@, "string"@)));
    reveal_strlit("str_join");
    lemma_prefix_facts("str_join"@);
    assert(binding_follows_prefix(("str_join"@, "string"@)));
    reveal_strlit("str_repeat");
    lemma_prefix_facts("str_repeat"@);
    assert(binding_follows_prefix(("str_repeat"@, "string"@)));
    reveal_strlit("str_starts_with");
    lemma_prefix_facts("str_starts_with"@);
    assert(binding_follows_prefix(("str_starts_with"@, "string"@)));
    reveal_strlit("str_ends_with");
    lemma_prefix_facts("str_ends_with"@);
    assert(binding_follows_prefix(("str_ends_with"@, "string"@)));
    reveal_strlit("str_contains");
    lemma_prefix_facts("str_contains"@);
    assert(binding_follows_prefix(("str_contains"@, "string"@)));
    reveal_strlit("str_pad_left");
    lemma_prefix_facts("str_pad_left"@);
    assert(binding_follows_prefix(("str_pad_left"@, "string"@)));
    reveal_strlit("str_pad_right");
    lemma_prefix_facts("str_pad_right"@);
    assert(binding_follows_prefix(("str_pad_right"@, "string"@)));
    assert forall|i: int| 0 <= i < t.len() && (#[trigger] prefix_plugin(t[i].0)) is Some implies prefix_plugin(t[i].0) == Some(t[i].1) by {
        if i == 0 {
            assert(binding_follows_prefix(t[0]));
        } else if i == 1 {
            assert(binding_follows_prefix(t[1]));
        } else if i == 2 {
            assert(binding_follows_prefix(t[2]));
        } else if i == 3 {
            assert(binding_follows_prefix(t[3]));
        } else if i == 4 {
            assert(binding_follows_prefix(t[4]));
        } else if i == 5 {
            assert(binding_follows_prefix(t[5]));
        } else if i == 6 {
            assert(binding_follows_prefix(t[6]));
        } else if i == 7 {
            assert(binding_follows_prefix(t[7]));
        } else if i == 8 {
            assert(binding_follows_prefix(t[8]));
        } else if i == 9 {
            assert(binding_follows_prefix(t[9]));
        } else if i == 10 {
            assert(binding_follows_prefix(t[10]));
        } else if i == 11 {
            assert(binding_follows_prefix(t[11]));
        } else if i == 12 {
            assert(binding_follows_prefix(t[12]));
        } else if i == 13 {
            assert(binding_follows_prefix(t[13]));
        } else if i == 14 {
            assert(binding_follows_prefix(t[14]));
        } else if i == 15 {
            assert(binding_follows_prefix(t[15]));
        } else if i == 16 {
            assert(binding_follows_prefix(t[16]));
        } else if i == 17 {
            assert(binding_follows_prefix(t[17]));
        }
    }
}

/// Every API function whose name carries a plugin's prefix belongs to that
/// plugin: `json_stringify` to `json`, `file_read` and `fs_writeFile` to
/// `fs`, `str_split` to `string`, and so on for every prefixed name the
/// table binds.
pub proof fn law_api_names_follow_prefixes(name: Seq<char>)
    ensures
        follows_prefixes(api_plugin_table()),
        prefix_plugin(name) is Some && api_plugin(name) is Some ==> api_plugin(name) == prefix_plugin(name),
{
    lemma_http_api_table_follows();
    lemma_fs_api_table_follows();
    lemma_crypto_api_table_follows();
    lemma_os_api_table_follows();
    lemma_path_api_table_follows();
    lemma_process_api_table_follows();
    lemma_cli_api_table_follows();
    lemma_timer_api_table_follows();
    lemma_json_api_table_follows();
    lemma_log_api_table_follows();
    lemma_math_api_table_follows();
    lemma_string_api_table_follows();
    lemma_follows_concat(http_api_table(), fs_api_table());
    lemma_follows_concat(http_api_table() + fs_api_table(), crypto_api_table());
    lemma_follows_concat(http_api_table() + fs_api_table() + crypto_api_table(), os_api_table());
    lemma_follows_concat(http_api_table() + fs_api_table() + crypto_api_table() + os_api_table(), path_api_table());
    lemma_follows_concat(http_api_table() + fs_api_table() + crypto_api_table() + os_api_table() + path_api_table(), process_api_table());
    lemma_follows_concat(http_api_table() + fs_api_table() + crypto_api_table() + os_api_table() + path_api_table() + process_api_table(), cli_api_table());
    lemma_follows_concat(http_api_table() + fs_api_table() + crypto_api_table() + os_api_table() + path_api_table() + process_api_table() + cli_api_table(), timer_api_table());
    lemma_follows_concat(http_api_table() + fs_api_table() + crypto_api_table() + os_api_table() + path_api_table() + process_api_table() + cli_api_table() + timer_api_table(), json_api_table());
    lemma_follows_concat(http_api_table() + fs_api_table() + crypto_api_table() + os_api_table() + path_api_table() + process_api_table() + cli_api_table() + timer_api_table() + json_api_table(), log_api_table());
    lemma_follows_concat(http_api_table() + fs_api_table() + crypto_api_table() + os_api_table() + path_api_table() + process_api_table() + cli_api_table() + timer_api_table() + json_api_table() + log_api_table(), math_api_table());
    lemma_follows_concat(http_api_table() + fs_api_table() + crypto_api_table() + os_api_table() + path_api_table() + process_api_table() + cli_api_table() + timer_api_table() + json_api_table() + log_api_table() + math_api_table(), string_api_table());
    lemma_lookup_entry(api_plugin_table(), name);
    let t = api_plugin_table();
    if prefix_plugin(name) is Some && api_plugin(name) is Some {
        let p = api_plugin(name)->0;
        let i = choose|i: int| 0 <= i < t.len() && #[trigger] t[i] == (name, p);
        assert(t[i].0 == name);
        assert(prefix_plugin(t[i].0) is Some);
    }
}

proof fn lemma_lookup_entry(t: Seq<(Seq<char>, Seq<char>)>, name: Seq<char>)
    ensures
        table_lookup(t, name) matches Some(p) ==> exists|i: int| 0 <= i < t.len() && #[trigger] t[i] == (name, p),
    decreases t.len(),
{
    if t.len() > 0 && t.last().0 != name {
        lemma_lookup_entry(t.drop_last(), name);
        if table_lookup(t.drop_last(), name) is Some {
            let p = table_lookup(t.drop_last(), name)->0;
            let i = choose|i: int| 0 <= i < t.drop_last().len() && #[trigger] t.drop_last()[i] == (name, p);
            assert(t[i] == t.drop_last()[i]);
        }
    } else if t.len() > 0 {
        assert(t[t.len() - 1] == t.last());
    }
}

} // verus!
