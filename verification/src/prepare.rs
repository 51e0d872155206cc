//! The `prepare` command: from the plugins detected in TypeScript sources, or
//! from their FFI declarations, the plan of everything it prints and writes.

use vstd::prelude::*;
use crate::text::{
    decimal_seq, decimal_string, join_seq, join_strings, lemma_contains_middle, quote_all, quoted, str_equal,
    contains_seq,
};
use crate::declarations::{
    DECLARE_FUNCTION_PATTERN, DeclarationError, FFIFunction, FunctionModel, declared_in_sources,
    function_models, parse_ffi_declarations, regex_accepts, sources_well_formed,
};
use crate::grouping::{
    GroupModel, PluginGroup, custom_groups_of, group_by_plugin, group_models, groups_of,
    official_groups_of, partition_groups,
};
use crate::codegen::{
    GeneratedPlugin, c_name, function_summary, main_toml_text, signature_lines, function_summary_string, generate_plugin,
    normalize_plugin_name, plugin_dir_path, plugin_files, lemma_plugin_files_len,
};
use crate::detect::{
    ModuleSummary, declares_main, detect_plugins_from_ast, detect_plugins_in_module,
    has_main_function, module_plugins, modules_plugins,
};
use crate::files::{FileModel, PlannedFile, file_models};

verus! {

/// `base` joined with `name` as `Path::join` does on Unix: an absolute
/// `name` replaces `base`; otherwise a `/` separates them unless `base` is
/// empty or already ends with one.
pub open spec fn path_join_seq(base: Seq<char>, name: Seq<char>) -> Seq<char> {
    if name.len() > 0 && name[0] == '/' {
        name
    } else if base.len() == 0 || base.last() == '/' {
        base + name
    } else {
        base + seq!['/'] + name
    }
}

/// `Path::new(base).join(name)`, as a string.
pub fn path_join(base: &str, name: &str) -> (r: String)
    ensures
        r@ == path_join_seq(base@, name@),
{
    proof {
        reveal_strlit("/");
    }
    let n = name.unicode_len();
    if n > 0 && name.get_char(0) == '/' {
        return String::from_str(name);
    }
    let b = base.unicode_len();
    let mut r = String::from_str(base);
    if b == 0 || base.get_char(b - 1) == '/' {
        r.append(name);
    } else {
        r.append("/");
        r.append(name);
    }
    r
}

/// One thing that `prepare` does, in order.
pub enum PrepareStep {
    /// Print a line.
    Print(String),
    /// Stop with an error when this output directory already exists.
    RefuseExistingOutput(String),
    /// Create a directory and its parents.
    CreateDir(String),
    /// Write a file.
    WriteFile(PlannedFile),
    /// Start a progress bar of this many steps, with a message.
    StartProgress(usize, String),
    /// Advance the progress bar by one and show a message.
    Progress(String),
    /// Finish the progress bar with a message.
    FinishProgress(String),
    /// Stop with this error.
    Fail(PrepareError),
}

/// Why `prepare` stops.
pub enum PrepareError {
    /// No TypeScript file was found.
    NoTypeScriptFiles,
    /// Neither plugin API calls nor FFI declarations were found.
    NothingToPrepare,
    /// The declaration pattern did not compile.
    InvalidPattern,
    /// A match of the declaration pattern lacks one of its groups.
    MalformedMatch,
    /// An entry file has no file name.
    InvalidFileName(String),
}

/// The model of a `prepare` error.
pub enum PrepareErrorModel {
    NoTypeScriptFiles,
    NothingToPrepare,
    InvalidPattern,
    MalformedMatch,
    InvalidFileName(Seq<char>),
}

impl View for PrepareError {
    type V = PrepareErrorModel;

    open spec fn view(&self) -> PrepareErrorModel {
        match self {
            PrepareError::NoTypeScriptFiles => PrepareErrorModel::NoTypeScriptFiles,
            PrepareError::NothingToPrepare => PrepareErrorModel::NothingToPrepare,
            PrepareError::InvalidPattern => PrepareErrorModel::InvalidPattern,
            PrepareError::MalformedMatch => PrepareErrorModel::MalformedMatch,
            PrepareError::InvalidFileName(p) => PrepareErrorModel::InvalidFileName(p@),
        }
    }
}

/// The model of a step.
pub enum StepModel {
    Print(Seq<char>),
    RefuseExistingOutput(Seq<char>),
    CreateDir(Seq<char>),
    WriteFile(FileModel),
    StartProgress(nat, Seq<char>),
    Progress(Seq<char>),
    FinishProgress(Seq<char>),
    Fail(PrepareErrorModel),
}

impl View for PrepareStep {
    type V = StepModel;

    open spec fn view(&self) -> StepModel {
        match self {
            PrepareStep::Print(s) => StepModel::Print(s@),
            PrepareStep::RefuseExistingOutput(s) => StepModel::RefuseExistingOutput(s@),
            PrepareStep::CreateDir(s) => StepModel::CreateDir(s@),
            PrepareStep::WriteFile(f) => StepModel::WriteFile(f@),
            PrepareStep::StartProgress(n, s) => StepModel::StartProgress(*n as nat, s@),
            PrepareStep::Progress(s) => StepModel::Progress(s@),
            PrepareStep::FinishProgress(s) => StepModel::FinishProgress(s@),
            PrepareStep::Fail(e) => StepModel::Fail(e@),
        }
    }
}

/// The models of a list of steps.
pub open spec fn step_models(steps: Seq<PrepareStep>) -> Seq<StepModel> {
    steps.map_values(|s: PrepareStep| s@)
}

/// A step writes to the disk.
pub open spec fn writes(s: StepModel) -> bool {
    s is CreateDir || s is WriteFile
}

fn push_print(steps: &mut Vec<PrepareStep>, line: String)
    ensures
        step_models(final(steps)@) == step_models(old(steps)@).push(StepModel::Print(line@)),
{
    let ghost before = step_models(steps@);
    let ghost l = line@;
    steps.push(PrepareStep::Print(line));
    assert(step_models(steps@) =~= before.push(StepModel::Print(l)));
}

fn push_step(steps: &mut Vec<PrepareStep>, step: PrepareStep)
    ensures
        step_models(final(steps)@) == step_models(old(steps)@).push(step@),
{
    let ghost before = step_models(steps@);
    let ghost m = step@;
    steps.push(step);
    assert(step_models(steps@) =~= before.push(m));
}

/// The number of functions in all the groups.
pub open spec fn total_functions(gs: Seq<GroupModel>) -> nat
    decreases gs.len(),
{
    if gs.len() == 0 {
        0
    } else {
        total_functions(gs.drop_last()) + gs.last().functions.len()
    }
}

fn count_functions(groups: &Vec<PluginGroup>) -> (r: usize)
    requires
        total_functions(group_models(groups@)) <= usize::MAX,
    ensures
        r == total_functions(group_models(groups@)),
{
    let ghost gs = group_models(groups@);
    let mut total: usize = 0;
    let mut i: usize = 0;
    while i < groups.len()
        invariant
            gs == group_models(groups@),
            total_functions(gs) <= usize::MAX,
            i <= groups.len(),
            total == total_functions(gs.subrange(0, i as int)),
        decreases groups.len() - i,
    {
        let ghost prefix = gs.subrange(0, i as int + 1);
        assert(prefix.drop_last() =~= gs.subrange(0, i as int));
        proof {
            lemma_total_functions_prefix(gs, i as int + 1);
        }
        total = total + groups[i].functions.len();
        i = i + 1;
    }
    assert(gs.subrange(0, groups.len() as int) =~= gs);
    total
}

proof fn lemma_total_functions_prefix(gs: Seq<GroupModel>, k: int)
    requires
        0 <= k <= gs.len(),
    ensures
        total_functions(gs.subrange(0, k)) <= total_functions(gs),
    decreases gs.len() - k,
{
    if k < gs.len() {
        lemma_total_functions_prefix(gs, k + 1);
        assert(gs.subrange(0, k + 1).drop_last() =~= gs.subrange(0, k));
    } else {
        assert(gs.subrange(0, k) =~= gs);
    }
}

/// Preview line of an official plugin.
pub open spec fn official_preview_line(name: Seq<char>) -> StepModel {
    StepModel::Print("    - "@ + name + " → templates/tsnp/"@ + name + "/"@)
}

/// Preview lines of the official plugins.
pub open spec fn official_preview_lines(gs: Seq<GroupModel>) -> Seq<StepModel>
    decreases gs.len(),
{
    if gs.len() == 0 {
        seq![]
    } else {
        official_preview_lines(gs.drop_last()).push(official_preview_line(gs.last().name))
    }
}

/// Preview lines of the functions of a custom plugin.
pub open spec fn function_preview_lines(fs: Seq<FunctionModel>) -> Seq<StepModel>
    decreases fs.len(),
{
    if fs.len() == 0 {
        seq![]
    } else {
        function_preview_lines(fs.drop_last()).push(StepModel::Print("        - "@ + function_summary(fs.last())))
    }
}

/// Preview of one custom plugin: its directory, its files and its functions.
pub open spec fn custom_preview(output: Seq<char>, g: GroupModel) -> Seq<StepModel> {
    let n = c_name(g.name);
    seq![
        StepModel::Print("  📁 "@ + path_join_seq(path_join_seq(output, "tsnp"@), g.name)),
        StepModel::Print("     📄 "@ + n + "_win.c"@),
        StepModel::Print("     📄 "@ + n + "_linux.c"@),
        StepModel::Print("     📄 "@ + n + "_macos.c"@),
        StepModel::Print("     📄 ts-native.toml"@),
        StepModel::Print("     📄 ts-native-win.toml"@),
        StepModel::Print("     📄 ts-native-linux.toml"@),
        StepModel::Print("     📄 ts-native-macos.toml"@),
    ] + if g.functions.len() > 0 {
        seq![StepModel::Print("     📝 Functions:"@)] + function_preview_lines(g.functions)
    } else {
        seq![StepModel::Print("     📝 Functions: (will be added manually)"@)]
    } + seq![StepModel::Print(seq![])]
}

/// Previews of the custom plugins.
pub open spec fn custom_previews(output: Seq<char>, gs: Seq<GroupModel>) -> Seq<StepModel>
    decreases gs.len(),
{
    if gs.len() == 0 {
        seq![]
    } else {
        custom_previews(output, gs.drop_last()) + custom_preview(output, gs.last())
    }
}

/// The three summary lines: plugin and function totals, then the official
/// and custom counts.
pub open spec fn summary_lines(
    lead: Seq<char>,
    official_note: Seq<char>,
    custom_note: Seq<char>,
    official: Seq<GroupModel>,
    custom: Seq<GroupModel>,
) -> Seq<StepModel> {
    seq![
        StepModel::Print(lead + decimal_seq(official.len() + custom.len()) + " plugin(s) with "@
            + decimal_seq(total_functions(official) + total_functions(custom)) + " function(s)"@),
        StepModel::Print("   - "@ + decimal_seq(official.len()) + official_note),
        StepModel::Print("   - "@ + decimal_seq(custom.len()) + custom_note),
    ]
}

/// What a dry run prints: the official plugins that would get templates,
/// the custom plugins with their files and functions, and the totals. A dry
/// run only prints.
pub open spec fn dry_run_steps(output: Seq<char>, official: Seq<GroupModel>, custom: Seq<GroupModel>) -> Seq<StepModel> {
    seq![StepModel::Print("\n🔍 Preview mode (no files will be written):\n"@)] + if official.len() > 0 {
        seq![
            StepModel::Print("📦 Official Plugins (available from tsnp-contrib):"@),
            StepModel::Print("  📄 has-tsnp-contrib.txt (list of official plugins)"@),
            StepModel::Print("  📁 templates/tsnp/ (empty templates for each plugin)"@),
        ] + official_preview_lines(official) + seq![StepModel::Print(seq![])]
    } else {
        seq![]
    } + if custom.len() > 0 {
        seq![StepModel::Print("🔧 Custom Plugins (need implementation):"@)] + custom_previews(output, custom)
    } else {
        seq![]
    } + summary_lines(
        "✅ Would prepare "@,
        " official (ready to use)"@,
        " custom (need implementation)"@,
        official,
        custom,
    )
}

fn push_summary(
    steps: &mut Vec<PrepareStep>,
    lead: &str,
    official_note: &str,
    custom_note: &str,
    official: &Vec<PluginGroup>,
    custom: &Vec<PluginGroup>,
)
    requires
        total_functions(group_models(official@)) + total_functions(group_models(custom@)) <= usize::MAX,
        official.len() + custom.len() <= usize::MAX,
    ensures
        step_models(final(steps)@) == step_models(old(steps)@) + summary_lines(
            lead@,
            official_note@,
            custom_note@,
            group_models(official@),
            group_models(custom@),
        ),
{
    let ghost start = step_models(steps@);
    let fo = count_functions(official);
    let fc = count_functions(custom);
    let mut l1 = String::from_str(lead);
    let d = decimal_string(official.len() + custom.len());
    l1.append(d.as_str());
    l1.append(" plugin(s) with ");
    let d = decimal_string(fo + fc);
    l1.append(d.as_str());
    l1.append(" function(s)");
    push_print(steps, l1);
    let mut l2 = String::from_str("   - ");
    let d = decimal_string(official.len());
    l2.append(d.as_str());
    l2.append(official_note);
    push_print(steps, l2);
    let mut l3 = String::from_str("   - ");
    let d = decimal_string(custom.len());
    l3.append(d.as_str());
    l3.append(custom_note);
    push_print(steps, l3);
    assert(step_models(steps@) =~= start + summary_lines(
        lead@,
        official_note@,
        custom_note@,
        group_models(official@),
        group_models(custom@),
    ));
}

fn push_custom_preview(steps: &mut Vec<PrepareStep>, output: &str, g: &PluginGroup)
    ensures
        step_models(final(steps)@) == step_models(old(steps)@) + custom_preview(output@, g@),
{
    let ghost start = step_models(steps@);
    let tsnp = path_join(output, "tsnp");
    let dir = path_join(tsnp.as_str(), g.name.as_str());
    let mut l = String::from_str("  📁 ");
    l.append(dir.as_str());
    push_print(steps, l);
    let n = normalize_plugin_name(g.name.as_str());
    let mut l = String::from_str("     📄 ");
    l.append(n.as_str());
    l.append("_win.c");
    push_print(steps, l);
    let mut l = String::from_str("     📄 ");
    l.append(n.as_str());
    l.append("_linux.c");
    push_print(steps, l);
    let mut l = String::from_str("     📄 ");
    l.append(n.as_str());
    l.append("_macos.c");
    push_print(steps, l);
    push_print(steps, String::from_str("     📄 ts-native.toml"));
    push_print(steps, String::from_str("     📄 ts-native-win.toml"));
    push_print(steps, String::from_str("     📄 ts-native-linux.toml"));
    push_print(steps, String::from_str("     📄 ts-native-macos.toml"));
    let ghost head = step_models(steps@);
    let ghost fs = function_models(g.functions@);
    if g.functions.len() > 0 {
        push_print(steps, String::from_str("     📝 Functions:"));
        let ghost mid = step_models(steps@);
        let mut i: usize = 0;
        assert(fs.subrange(0, 0) =~= Seq::<FunctionModel>::empty());
        while i < g.functions.len()
            invariant
                fs == function_models(g.functions@),
                i <= g.functions.len(),
                step_models(steps@) == mid + function_preview_lines(fs.subrange(0, i as int)),
            decreases g.functions.len() - i,
        {
            let ghost prefix = fs.subrange(0, i as int + 1);
            assert(prefix.drop_last() =~= fs.subrange(0, i as int));
            let mut l = String::from_str("        - ");
            let s = function_summary_string(&g.functions[i]);
            l.append(s.as_str());
            push_print(steps, l);
            i = i + 1;
        }
        assert(fs.subrange(0, g.functions.len() as int) =~= fs);
    } else {
        push_print(steps, String::from_str("     📝 Functions: (will be added manually)"));
    }
    push_print(steps, String::new());
    assert(step_models(steps@) =~= start + custom_preview(output@, g@));
}

/// The steps of a dry run: it prints what would be prepared and writes
/// nothing.
pub fn dry_run_plan(output: &str, official: &Vec<PluginGroup>, custom: &Vec<PluginGroup>) -> (r: Vec<PrepareStep>)
    requires
        total_functions(group_models(official@)) + total_functions(group_models(custom@)) <= usize::MAX,
        official.len() + custom.len() <= usize::MAX,
    ensures
        step_models(r@) == dry_run_steps(output@, group_models(official@), group_models(custom@)),
{
    let mut steps: Vec<PrepareStep> = Vec::new();
    push_print(&mut steps, String::from_str("\n🔍 Preview mode (no files will be written):\n"));
    let ghost s0 = step_models(steps@);
    let ghost og = group_models(official@);
    let ghost cg = group_models(custom@);
    if official.len() > 0 {
        push_print(&mut steps, String::from_str("📦 Official Plugins (available from tsnp-contrib):"));
        push_print(&mut steps, String::from_str("  📄 has-tsnp-contrib.txt (list of official plugins)"));
        push_print(&mut steps, String::from_str("  📁 templates/tsnp/ (empty templates for each plugin)"));
        let ghost mid = step_models(steps@);
        let mut i: usize = 0;
        assert(og.subrange(0, 0) =~= Seq::<GroupModel>::empty());
        while i < official.len()
            invariant
                og == group_models(official@),
                i <= official.len(),
                step_models(steps@) == mid + official_preview_lines(og.subrange(0, i as int)),
            decreases official.len() - i,
        {
            let ghost prefix = og.subrange(0, i as int + 1);
            assert(prefix.drop_last() =~= og.subrange(0, i as int));
            let name = official[i].name.as_str();
            let mut l = String::from_str("    - ");
            l.append(name);
            l.append(" → templates/tsnp/");
            l.append(name);
            l.append("/");
            push_print(&mut steps, l);
            i = i + 1;
        }
        assert(og.subrange(0, official.len() as int) =~= og);
        push_print(&mut steps, String::new());
    }
    let ghost s1 = step_models(steps@);
    assert(s1 =~= s0 + if og.len() > 0 {
        seq![
            StepModel::Print("📦 Official Plugins (available from tsnp-contrib):"@),
            StepModel::Print("  📄 has-tsnp-contrib.txt (list of official plugins)"@),
            StepModel::Print("  📁 templates/tsnp/ (empty templates for each plugin)"@),
        ] + official_preview_lines(og) + seq![StepModel::Print(seq![])]
    } else {
        seq![]
    });
    if custom.len() > 0 {
        push_print(&mut steps, String::from_str("🔧 Custom Plugins (need implementation):"));
        let ghost mid = step_models(steps@);
        let mut i: usize = 0;
        assert(cg.subrange(0, 0) =~= Seq::<GroupModel>::empty());
        while i < custom.len()
            invariant
                cg == group_models(custom@),
                i <= custom.len(),
                step_models(steps@) == mid + custom_previews(output@, cg.subrange(0, i as int)),
            decreases custom.len() - i,
        {
            let ghost prefix = cg.subrange(0, i as int + 1);
            assert(prefix.drop_last() =~= cg.subrange(0, i as int));
            push_custom_preview(&mut steps, output, &custom[i]);
            i = i + 1;
        }
        assert(cg.subrange(0, custom.len() as int) =~= cg);
    }
    let ghost s2 = step_models(steps@);
    assert(s2 =~= s1 + if cg.len() > 0 {
        seq![StepModel::Print("🔧 Custom Plugins (need implementation):"@)] + custom_previews(output@, cg)
    } else {
        seq![]
    });
    push_summary(
        &mut steps,
        "✅ Would prepare ",
        " official (ready to use)",
        " custom (need implementation)",
        official,
        custom,
    );
    assert(step_models(steps@) =~= dry_run_steps(output@, og, cg));
    steps
}

/// The list of official plugins written to `has-tsnp-contrib.txt`.
pub open spec fn contrib_names_text(gs: Seq<GroupModel>) -> Seq<char>
    decreases gs.len(),
{
    if gs.len() == 0 {
        seq![]
    } else {
        contrib_names_text(gs.drop_last()) + "- "@ + gs.last().name + "\n"@
    }
}

/// `has-tsnp-contrib.txt`: how to use the official plugins, and their list.
pub open spec fn contrib_list_text(gs: Seq<GroupModel>) -> Seq<char> {
    "# Official Plugins (from tsnp-contrib)\n\nThese plugins are already implemented. To use them:\n1. Copy template from prepare/templates/tsnp/<plugin>/ to your project's tsnp/<plugin>/\n2. Add to your .ts.toml: tsnp = [\"<plugin>\"]\n\n## Available Plugins\n\n"@
        + contrib_names_text(gs)
}

/// The empty Windows template of an official plugin.
pub open spec fn official_win_c_text(n: Seq<char>) -> Seq<char> {
    "// ============================================================\n// "@ + n
        + " Plugin - Windows Implementation\n// ============================================================\n// This is an empty template. The actual implementation is in tsnp-contrib/.\n// To use the official plugin, copy it from tsnp-contrib/"@
        + n + "// to your project.\n// ============================================================\n"@
}

/// The empty Linux template of an official plugin.
pub open spec fn official_linux_c_text(n: Seq<char>) -> Seq<char> {
    "// ============================================================\n// "@ + n
        + " Plugin - Linux Implementation\n// ============================================================\n// TODO: Implement for Linux\n// ============================================================\n"@
}

/// The empty macOS template of an official plugin.
pub open spec fn official_macos_c_text(n: Seq<char>) -> Seq<char> {
    "// ============================================================\n// "@ + n
        + " Plugin - macOS Implementation\n// ============================================================\n// TODO: Implement for macOS\n// ============================================================\n"@
}

/// The manifest template of an official plugin, at priority 0.
pub open spec fn official_toml_text(n: Seq<char>) -> Seq<char> {
    "[package]\nname = \""@ + n + "\"\nversion = \"0.1.0\"\npriority = 0\n\n[capabilities]\nfunctions = []\n"@
}

/// The template directory of an official plugin under the output directory.
pub open spec fn template_dir_path(output: Seq<char>, n: Seq<char>) -> Seq<char> {
    path_join_seq(path_join_seq(path_join_seq(output, "templates"@), "tsnp"@), n)
}

/// The steps that write the empty templates of one official plugin.
pub open spec fn official_template_steps(output: Seq<char>, n: Seq<char>) -> Seq<StepModel> {
    let dir = template_dir_path(output, n);
    seq![
        StepModel::CreateDir(dir),
        StepModel::WriteFile(FileModel { path: path_join_seq(dir, c_name(n) + "_win.c"@), content: official_win_c_text(n) }),
        StepModel::WriteFile(FileModel { path: path_join_seq(dir, c_name(n) + "_linux.c"@), content: official_linux_c_text(n) }),
        StepModel::WriteFile(FileModel { path: path_join_seq(dir, c_name(n) + "_macos.c"@), content: official_macos_c_text(n) }),
        StepModel::WriteFile(FileModel { path: path_join_seq(dir, "ts-native.toml"@), content: official_toml_text(n) }),
        StepModel::Print("  ✓ templates/tsnp/"@ + n + "/ (empty template)"@),
    ]
}

/// The template steps of all official plugins.
pub open spec fn official_templates_steps(output: Seq<char>, gs: Seq<GroupModel>) -> Seq<StepModel>
    decreases gs.len(),
{
    if gs.len() == 0 {
        seq![]
    } else {
        official_templates_steps(output, gs.drop_last()) + official_template_steps(output, gs.last().name)
    }
}

/// The official part of a run: the list of official plugins and their
/// empty templates.
pub open spec fn official_section(output: Seq<char>, gs: Seq<GroupModel>) -> Seq<StepModel> {
    if gs.len() > 0 {
        seq![
            StepModel::Print("📦 Official Plugins:"@),
            StepModel::WriteFile(FileModel { path: path_join_seq(output, "has-tsnp-contrib.txt"@), content: contrib_list_text(gs) }),
            StepModel::Print("  ✓ has-tsnp-contrib.txt ("@ + decimal_seq(gs.len()) + " plugins)"@),
        ] + official_templates_steps(output, gs) + seq![StepModel::Print(seq![])]
    } else {
        seq![]
    }
}

/// The steps that generate one custom plugin: its directory, then its seven
/// files with a progress bar.
pub open spec fn custom_plugin_steps(output: Seq<char>, g: GroupModel, no_stubs: bool) -> Seq<StepModel> {
    let n = g.name;
    let files = plugin_files(output, n, g.functions, no_stubs);
    seq![
        StepModel::CreateDir(plugin_dir_path(output, n)),
        StepModel::StartProgress(7, "Generating "@ + n),
        StepModel::WriteFile(files[0]),
        StepModel::Progress("  ✓ "@ + n + "_win.c"@),
        StepModel::WriteFile(files[1]),
        StepModel::Progress("  ✓ "@ + n + "_linux.c"@),
        StepModel::WriteFile(files[2]),
        StepModel::Progress("  ✓ "@ + n + "_macos.c"@),
        StepModel::WriteFile(files[3]),
        StepModel::Progress("  ✓ ts-native.toml"@),
        StepModel::WriteFile(files[4]),
        StepModel::Progress("  ✓ ts-native-win.toml"@),
        StepModel::WriteFile(files[5]),
        StepModel::Progress("  ✓ ts-native-linux.toml"@),
        StepModel::WriteFile(files[6]),
        StepModel::Progress("  ✓ ts-native-macos.toml"@),
        StepModel::FinishProgress("✅ Plugin '"@ + n + "' generated"@),
        StepModel::Print(seq![]),
    ]
}

/// The steps of all custom plugins.
pub open spec fn custom_plugins_steps(output: Seq<char>, gs: Seq<GroupModel>, no_stubs: bool) -> Seq<StepModel>
    decreases gs.len(),
{
    if gs.len() == 0 {
        seq![]
    } else {
        custom_plugins_steps(output, gs.drop_last(), no_stubs) + custom_plugin_steps(output, gs.last(), no_stubs)
    }
}

/// The custom part of a run.
pub open spec fn custom_section(output: Seq<char>, gs: Seq<GroupModel>, no_stubs: bool) -> Seq<StepModel> {
    if gs.len() > 0 {
        seq![StepModel::Print("🔧 Custom Plugins:"@)] + custom_plugins_steps(output, gs, no_stubs)
    } else {
        seq![]
    }
}

/// A TypeScript file of the project, as the entry-point manifests need it:
/// its path, its file stem (none when the path has no file name) and the
/// directory it lies in.
pub struct EntryFile {
    pub path: String,
    pub stem: Option<String>,
    pub dir: String,
}

/// The plugins of a list other than `default`.
pub open spec fn without_default(l: Seq<Seq<char>>) -> Seq<Seq<char>>
    decreases l.len(),
{
    if l.len() == 0 {
        seq![]
    } else if l.last() == "default"@ {
        without_default(l.drop_last())
    } else {
        without_default(l.drop_last()).push(l.last())
    }
}

/// The manifest `<stem>.ts.toml` of an entry file: its plugin dependencies,
/// or a note that it has none.
pub open spec fn ts_toml_text(stem: Seq<char>, plugins: Seq<Seq<char>>) -> Seq<char> {
    if plugins.len() == 0 {
        "# Entry point: "@ + stem + "\n# No plugin dependencies detected\n\n[dependencies]\ntsnp = []\n"@
    } else {
        "[dependencies]\ntsnp = ["@ + join_seq(plugins.map_values(|p: Seq<char>| quoted(p)), ", "@) + "]\n"@
    }
}

/// The steps for one TypeScript file: nothing unless it declares `main`;
/// then its manifest next to it, or a failure when it has no file name.
pub open spec fn entry_steps(e: EntryFile, m: ModuleSummary) -> Seq<StepModel> {
    if declares_main(m.fn_decls.deep_view()) {
        match e.stem {
            None => seq![StepModel::Fail(PrepareErrorModel::InvalidFileName(e.path@))],
            Some(stem) => {
                let name = stem@ + ".ts.toml"@;
                let plugins = without_default(module_plugins(m.sites@));
                seq![
                    StepModel::WriteFile(FileModel { path: path_join_seq(e.dir@, name), content: ts_toml_text(stem@, plugins) }),
                    StepModel::Print("  ✓ "@ + name + if plugins.len() == 0 {
                        " (project root, no plugins)"@
                    } else {
                        " (project root)"@
                    }),
                ]
            },
        }
    } else {
        seq![]
    }
}

/// The steps end with a failure.
pub open spec fn ends_failed(s: Seq<StepModel>) -> bool {
    s.len() > 0 && s.last() is Fail
}

/// The steps for the entry files with their modules, in order, stopping at
/// the first failure.
pub open spec fn entries_steps(es: Seq<EntryFile>, ms: Seq<ModuleSummary>) -> Seq<StepModel>
    decreases es.len(),
{
    if es.len() == 0 {
        seq![]
    } else {
        let prev = entries_steps(es.drop_last(), ms);
        if ends_failed(prev) {
            prev
        } else {
            prev + entry_steps(es.last(), ms[es.len() - 1])
        }
    }
}

/// What a real run does: refuse an existing output directory, create it,
/// write the official templates and the custom plugins, the entry-point
/// manifests, and print the totals (unless an entry file fails).
pub open spec fn real_run_steps(
    output: Seq<char>,
    official: Seq<GroupModel>,
    custom: Seq<GroupModel>,
    no_stubs: bool,
    entries: Seq<EntryFile>,
    modules: Seq<ModuleSummary>,
) -> Seq<StepModel> {
    let head = seq![
        StepModel::Print("\n⚙\u{fe0f}  Generating plugins...\n"@),
        StepModel::RefuseExistingOutput(output),
        StepModel::CreateDir(output),
    ] + official_section(output, official) + custom_section(output, custom, no_stubs);
    let es = entries_steps(entries, modules);
    if ends_failed(es) {
        head + es
    } else {
        head + es + summary_lines(
            "✅ Prepared "@,
            " official (copy from tsnp-contrib/)"@,
            " custom (implement in tsnp/)"@,
            official,
            custom,
        )
    }
}

fn push_official_templates(steps: &mut Vec<PrepareStep>, output: &str, name: &str)
    ensures
        step_models(final(steps)@) == step_models(old(steps)@) + official_template_steps(output@, name@),
{
    let ghost start = step_models(steps@);
    let t = path_join(output, "templates");
    let t = path_join(t.as_str(), "tsnp");
    let dir = path_join(t.as_str(), name);
    push_step(steps, PrepareStep::CreateDir(dir.clone()));
    let cn = normalize_plugin_name(name);
    let mut fname = cn.clone();
    fname.append("_win.c");
    let path = path_join(dir.as_str(), fname.as_str());
    let mut content = String::from_str("// ============================================================\n// ");
    content.append(name);
    content.append(
        " Plugin - Windows Implementation\n// ============================================================\n// This is an empty template. The actual implementation is in tsnp-contrib/.\n// To use the official plugin, copy it from tsnp-contrib/",
    );
    content.append(name);
    content.append("// to your project.\n// ============================================================\n");
    push_step(steps, PrepareStep::WriteFile(PlannedFile { path, content }));
    let mut fname = cn.clone();
    fname.append("_linux.c");
    let path = path_join(dir.as_str(), fname.as_str());
    let mut content = String::from_str("// ============================================================\n// ");
    content.append(name);
    content.append(
        " Plugin - Linux Implementation\n// ============================================================\n// TODO: Implement for Linux\n// ============================================================\n",
    );
    push_step(steps, PrepareStep::WriteFile(PlannedFile { path, content }));
    let mut fname = cn.clone();
    fname.append("_macos.c");
    let path = path_join(dir.as_str(), fname.as_str());
    let mut content = String::from_str("// ============================================================\n// ");
    content.append(name);
    content.append(
        " Plugin - macOS Implementation\n// ============================================================\n// TODO: Implement for macOS\n// ============================================================\n",
    );
    push_step(steps, PrepareStep::WriteFile(PlannedFile { path, content }));
    let path = path_join(dir.as_str(), "ts-native.toml");
    let mut content = String::from_str("[package]\nname = \"");
    content.append(name);
    content.append("\"\nversion = \"0.1.0\"\npriority = 0\n\n[capabilities]\nfunctions = []\n");
    push_step(steps, PrepareStep::WriteFile(PlannedFile { path, content }));
    let mut l = String::from_str("  ✓ templates/tsnp/");
    l.append(name);
    l.append("/ (empty template)");
    push_print(steps, l);
    assert(step_models(steps@) =~= start + official_template_steps(output@, name@));
}

fn push_official_section(steps: &mut Vec<PrepareStep>, output: &str, official: &Vec<PluginGroup>)
    ensures
        step_models(final(steps)@) == step_models(old(steps)@) + official_section(output@, group_models(official@)),
{
    let ghost start = step_models(steps@);
    let ghost og = group_models(official@);
    if official.len() == 0 {
        assert(step_models(steps@) =~= start + official_section(output@, og));
        return;
    }
    push_print(steps, String::from_str("📦 Official Plugins:"));
    let mut list = String::from_str(
        "# Official Plugins (from tsnp-contrib)\n\nThese plugins are already implemented. To use them:\n1. Copy template from prepare/templates/tsnp/<plugin>/ to your project's tsnp/<plugin>/\n2. Add to your .ts.toml: tsnp = [\"<plugin>\"]\n\n## Available Plugins\n\n",
    );
    let ghost head = list@;
    let mut i: usize = 0;
    assert(og.subrange(0, 0) =~= Seq::<GroupModel>::empty());
    while i < official.len()
        invariant
            og == group_models(official@),
            i <= official.len(),
            list@ == head + contrib_names_text(og.subrange(0, i as int)),
        decreases official.len() - i,
    {
        let ghost prefix = og.subrange(0, i as int + 1);
        assert(prefix.drop_last() =~= og.subrange(0, i as int));
        list.append("- ");
        list.append(official[i].name.as_str());
        list.append("\n");
        i = i + 1;
    }
    assert(og.subrange(0, official.len() as int) =~= og);
    let path = path_join(output, "has-tsnp-contrib.txt");
    push_step(steps, PrepareStep::WriteFile(PlannedFile { path, content: list }));
    let mut l = String::from_str("  ✓ has-tsnp-contrib.txt (");
    let d = decimal_string(official.len());
    l.append(d.as_str());
    l.append(" plugins)");
    push_print(steps, l);
    let ghost mid = step_models(steps@);
    let mut i: usize = 0;
    while i < official.len()
        invariant
            og == group_models(official@),
            i <= official.len(),
            step_models(steps@) == mid + official_templates_steps(output@, og.subrange(0, i as int)),
        decreases official.len() - i,
    {
        let ghost prefix = og.subrange(0, i as int + 1);
        assert(prefix.drop_last() =~= og.subrange(0, i as int));
        push_official_templates(steps, output, official[i].name.as_str());
        i = i + 1;
    }
    push_print(steps, String::new());
    assert(step_models(steps@) =~= start + official_section(output@, og));
}

fn push_custom_plugin(steps: &mut Vec<PrepareStep>, output: &str, g: &PluginGroup, no_stubs: bool)
    ensures
        step_models(final(steps)@) == step_models(old(steps)@) + custom_plugin_steps(output@, g@, no_stubs),
{
    let ghost start = step_models(steps@);
    let n = g.name.as_str();
    let generated = generate_plugin(n, &g.functions, output, no_stubs);
    let ghost files = file_models(generated.files@);
    let GeneratedPlugin { dir, files: mut planned } = generated;
    push_step(steps, PrepareStep::CreateDir(dir));
    let mut m = String::from_str("Generating ");
    m.append(n);
    push_step(steps, PrepareStep::StartProgress(7, m));
    proof {
        lemma_plugin_files_len(output@, g@.name, g@.functions, no_stubs);
    }
    assert(planned@.len() == 7);
    let f = planned.remove(0);
    assert(f@ == files[0]);
    push_step(steps, PrepareStep::WriteFile(f));
    let mut m = String::from_str("  ✓ ");
    m.append(n);
    m.append("_win.c");
    push_step(steps, PrepareStep::Progress(m));
    let f = planned.remove(0);
    assert(f@ == files[1]);
    push_step(steps, PrepareStep::WriteFile(f));
    let mut m = String::from_str("  ✓ ");
    m.append(n);
    m.append("_linux.c");
    push_step(steps, PrepareStep::Progress(m));
    let f = planned.remove(0);
    assert(f@ == files[2]);
    push_step(steps, PrepareStep::WriteFile(f));
    let mut m = String::from_str("  ✓ ");
    m.append(n);
    m.append("_macos.c");
    push_step(steps, PrepareStep::Progress(m));
    let f = planned.remove(0);
    assert(f@ == files[3]);
    push_step(steps, PrepareStep::WriteFile(f));
    push_step(steps, PrepareStep::Progress(String::from_str("  ✓ ts-native.toml")));
    let f = planned.remove(0);
    assert(f@ == files[4]);
    push_step(steps, PrepareStep::WriteFile(f));
    push_step(steps, PrepareStep::Progress(String::from_str("  ✓ ts-native-win.toml")));
    let f = planned.remove(0);
    assert(f@ == files[5]);
    push_step(steps, PrepareStep::WriteFile(f));
    push_step(steps, PrepareStep::Progress(String::from_str("  ✓ ts-native-linux.toml")));
    let f = planned.remove(0);
    assert(f@ == files[6]);
    push_step(steps, PrepareStep::WriteFile(f));
    push_step(steps, PrepareStep::Progress(String::from_str("  ✓ ts-native-macos.toml")));
    let mut m = String::from_str("✅ Plugin '");
    m.append(n);
    m.append("' generated");
    push_step(steps, PrepareStep::FinishProgress(m));
    push_print(steps, String::new());
    assert(step_models(steps@) =~= start + custom_plugin_steps(output@, g@, no_stubs));
}

fn push_custom_section(steps: &mut Vec<PrepareStep>, output: &str, custom: &Vec<PluginGroup>, no_stubs: bool)
    ensures
        step_models(final(steps)@) == step_models(old(steps)@) + custom_section(output@, group_models(custom@), no_stubs),
{
    let ghost start = step_models(steps@);
    let ghost cg = group_models(custom@);
    if custom.len() == 0 {
        assert(step_models(steps@) =~= start + custom_section(output@, cg, no_stubs));
        return;
    }
    push_print(steps, String::from_str("🔧 Custom Plugins:"));
    let ghost mid = step_models(steps@);
    let mut i: usize = 0;
    assert(cg.subrange(0, 0) =~= Seq::<GroupModel>::empty());
    while i < custom.len()
        invariant
            cg == group_models(custom@),
            i <= custom.len(),
            step_models(steps@) == mid + custom_plugins_steps(output@, cg.subrange(0, i as int), no_stubs),
        decreases custom.len() - i,
    {
        let ghost prefix = cg.subrange(0, i as int + 1);
        assert(prefix.drop_last() =~= cg.subrange(0, i as int));
        push_custom_plugin(steps, output, &custom[i], no_stubs);
        i = i + 1;
    }
    assert(cg.subrange(0, custom.len() as int) =~= cg);
    assert(step_models(steps@) =~= start + custom_section(output@, cg, no_stubs));
}

/// The plugins of a list other than `default`, in order.
pub fn remove_default(l: &Vec<String>) -> (r: Vec<String>)
    ensures
        r.deep_view() == without_default(l.deep_view()),
{
    let ghost lv = l.deep_view();
    let mut out: Vec<String> = Vec::new();
    let mut i: usize = 0;
    assert(lv.subrange(0, 0) =~= Seq::<Seq<char>>::empty());
    assert(out.deep_view() =~= Seq::<Seq<char>>::empty());
    while i < l.len()
        invariant
            lv == l.deep_view(),
            i <= l.len(),
            out.deep_view() == without_default(lv.subrange(0, i as int)),
        decreases l.len() - i,
    {
        let ghost prefix = lv.subrange(0, i as int + 1);
        assert(prefix.drop_last() =~= lv.subrange(0, i as int));
        assert(prefix.last() == l@[i as int]@);
        if !str_equal(l[i].as_str(), "default") {
            let ghost before = out.deep_view();
            out.push(l[i].clone());
            assert(out.deep_view() =~= before.push(l@[i as int]@));
        }
        i = i + 1;
    }
    assert(lv.subrange(0, l.len() as int) =~= lv);
    out
}

/// The manifest `<stem>.ts.toml` of an entry file.
pub fn generate_ts_toml_content(stem: &str, plugins: &Vec<String>) -> (r: String)
    ensures
        r@ == ts_toml_text(stem@, plugins.deep_view()),
{
    if plugins.len() == 0 {
        let mut s = String::from_str("# Entry point: ");
        s.append(stem);
        s.append("\n# No plugin dependencies detected\n\n[dependencies]\ntsnp = []\n");
        s
    } else {
        let mut s = String::from_str("[dependencies]\ntsnp = [");
        let q = quote_all(plugins);
        let list = join_strings(&q, ", ");
        s.append(list.as_str());
        s.append("]\n");
        s
    }
}

fn push_entry(steps: &mut Vec<PrepareStep>, e: &EntryFile, m: &ModuleSummary) -> (failed: bool)
    ensures
        step_models(final(steps)@) == step_models(old(steps)@) + entry_steps(*e, *m),
        failed == ends_failed(entry_steps(*e, *m)),
{
    let ghost start = step_models(steps@);
    if !has_main_function(m) {
        assert(step_models(steps@) =~= start + entry_steps(*e, *m));
        return false;
    }
    match &e.stem {
        None => {
            push_step(steps, PrepareStep::Fail(PrepareError::InvalidFileName(e.path.clone())));
            assert(step_models(steps@) =~= start + entry_steps(*e, *m));
            return true;
        },
        Some(stem) => {
            let mut name = stem.clone();
            name.append(".ts.toml");
            let found = detect_plugins_in_module(&m.sites);
            let plugins = remove_default(&found);
            let content = generate_ts_toml_content(stem.as_str(), &plugins);
            let path = path_join(e.dir.as_str(), name.as_str());
            push_step(steps, PrepareStep::WriteFile(PlannedFile { path, content }));
            let mut l = String::from_str("  ✓ ");
            l.append(name.as_str());
            if plugins.len() == 0 {
                l.append(" (project root, no plugins)");
            } else {
                l.append(" (project root)");
            }
            push_print(steps, l);
            assert(step_models(steps@) =~= start + entry_steps(*e, *m));
            return false;
        },
    }
}

fn push_entries(steps: &mut Vec<PrepareStep>, entries: &Vec<EntryFile>, modules: &Vec<ModuleSummary>) -> (failed: bool)
    requires
        entries.len() == modules.len(),
    ensures
        step_models(final(steps)@) == step_models(old(steps)@) + entries_steps(entries@, modules@),
        failed == ends_failed(entries_steps(entries@, modules@)),
{
    let ghost ms = modules@;
    let ghost start = step_models(steps@);
    let mut failed = false;
    let mut i: usize = 0;
    assert(entries@.subrange(0, 0) =~= Seq::<EntryFile>::empty());
    assert(step_models(steps@) =~= start + entries_steps(entries@.subrange(0, 0), ms));
    while i < entries.len()
        invariant
            i <= entries.len(),
            entries.len() == modules.len(),
            ms == modules@,
            step_models(steps@) == start + entries_steps(entries@.subrange(0, i as int), ms),
            failed == ends_failed(entries_steps(entries@.subrange(0, i as int), ms)),
            failed ==> entries_steps(entries@, ms) == entries_steps(entries@.subrange(0, i as int), ms),
        decreases entries.len() - i,
    {
        let ghost prefix = entries@.subrange(0, i as int + 1);
        assert(prefix.drop_last() =~= entries@.subrange(0, i as int));
        assert(prefix.last() == entries@[i as int]);
        if failed {
            proof {
                lemma_entries_failed_stays(entries@, ms, i as int);
            }
            i = entries.len();
            assert(entries@.subrange(0, i as int) =~= entries@);
        } else {
            let ghost prev = entries_steps(entries@.subrange(0, i as int), ms);
            let added_failed = push_entry(steps, &entries[i], &modules[i]);
            let ghost es = entries_steps(prefix, ms);
            let ghost added = entry_steps(entries@[i as int], ms[i as int]);
            assert(es == prev + added);
            proof {
                if added.len() > 0 {
                    assert(es.last() == added.last());
                } else {
                    assert(es =~= prev);
                }
            }
            failed = added_failed;
            assert(step_models(steps@) =~= start + es);
            proof {
                if failed {
                    lemma_entries_failed_stays(entries@, ms, i as int + 1);
                }
            }
            i = i + 1;
        }
    }
    assert(entries@.subrange(0, entries.len() as int) =~= entries@);
    failed
}

proof fn lemma_entries_failed_stays(es: Seq<EntryFile>, ms: Seq<ModuleSummary>, k: int)
    requires
        0 <= k <= es.len(),
        ends_failed(entries_steps(es.subrange(0, k), ms)),
    ensures
        entries_steps(es, ms) == entries_steps(es.subrange(0, k), ms),
    decreases es.len() - k,
{
    if k < es.len() {
        let p = es.subrange(0, k + 1);
        assert(p.drop_last() =~= es.subrange(0, k));
        lemma_entries_failed_stays(es, ms, k + 1);
    } else {
        assert(es.subrange(0, k) =~= es);
    }
}


/// Grouping keeps every function: the groups hold as many functions as
/// were grouped.
pub proof fn lemma_groups_total(fs: Seq<FunctionModel>)
    ensures
        total_functions(groups_of(fs)) == fs.len(),
    decreases fs.len(),
{
    if fs.len() > 0 {
        lemma_groups_total(fs.drop_last());
        lemma_add_to_groups_total(groups_of(fs.drop_last()), fs.last());
    }
}

proof fn lemma_total_update(gs: Seq<GroupModel>, i: int, g: GroupModel)
    requires
        0 <= i < gs.len(),
    ensures
        total_functions(gs.update(i, g)) + gs[i].functions.len() == total_functions(gs) + g.functions.len(),
    decreases gs.len(),
{
    if i < gs.len() - 1 {
        lemma_total_update(gs.drop_last(), i, g);
        assert(gs.update(i, g).drop_last() =~= gs.drop_last().update(i, g));
    } else {
        assert(gs.update(i, g).drop_last() =~= gs.drop_last());
    }
}

proof fn lemma_add_to_groups_total(gs: Seq<GroupModel>, f: FunctionModel)
    ensures
        total_functions(crate::grouping::add_to_groups(gs, f)) == total_functions(gs) + 1,
{
    let p = crate::grouping::plugin_prefix(f.name);
    if exists|i: int| 0 <= i < gs.len() && gs[i].name == p {
        let i = choose|i: int| 0 <= i < gs.len() && gs[i].name == p;
        lemma_total_update(gs, i, GroupModel { name: p, functions: gs[i].functions.push(f) });
    } else {
        let g = GroupModel { name: p, functions: seq![f] };
        assert(gs.push(g).drop_last() =~= gs);
    }
}

/// Splitting groups into official and custom keeps every group and every
/// function.
pub proof fn lemma_partition_totals(gs: Seq<GroupModel>)
    ensures
        official_groups_of(gs).len() + custom_groups_of(gs).len() == gs.len(),
        total_functions(official_groups_of(gs)) + total_functions(custom_groups_of(gs)) == total_functions(gs),
    decreases gs.len(),
{
    reveal(Seq::filter);
    if gs.len() > 0 {
        lemma_partition_totals(gs.drop_last());
        let o = official_groups_of(gs.drop_last());
        let c = custom_groups_of(gs.drop_last());
        let g = gs.last();
        assert(o.push(g).drop_last() =~= o);
        assert(c.push(g).drop_last() =~= c);
    }
}

/// Everything a run does, dry or real.
pub open spec fn generation_steps(
    output: Seq<char>,
    official: Seq<GroupModel>,
    custom: Seq<GroupModel>,
    dry_run: bool,
    no_stubs: bool,
    entries: Seq<EntryFile>,
    modules: Seq<ModuleSummary>,
) -> Seq<StepModel> {
    if dry_run {
        dry_run_steps(output, official, custom)
    } else {
        real_run_steps(output, official, custom, no_stubs, entries, modules)
    }
}

/// The plan of generating the official templates, the custom plugins and the
/// entry-point manifests; a dry run only prints what it would do.
pub fn generate_plugins_from_groups(
    official: &Vec<PluginGroup>,
    custom: &Vec<PluginGroup>,
    output: &str,
    dry_run: bool,
    no_stubs: bool,
    entries: &Vec<EntryFile>,
    modules: &Vec<ModuleSummary>,
) -> (r: Vec<PrepareStep>)
    requires
        total_functions(group_models(official@)) + total_functions(group_models(custom@)) <= usize::MAX,
        official.len() + custom.len() <= usize::MAX,
        entries.len() == modules.len(),
    ensures
        step_models(r@) == generation_steps(
            output@,
            group_models(official@),
            group_models(custom@),
            dry_run,
            no_stubs,
            entries@,
            modules@,
        ),
{
    if dry_run {
        return dry_run_plan(output, official, custom);
    }
    let mut steps: Vec<PrepareStep> = Vec::new();
    push_print(&mut steps, String::from_str("\n⚙\u{fe0f}  Generating plugins...\n"));
    push_step(&mut steps, PrepareStep::RefuseExistingOutput(String::from_str(output)));
    push_step(&mut steps, PrepareStep::CreateDir(String::from_str(output)));
    push_official_section(&mut steps, output, official);
    push_custom_section(&mut steps, output, custom, no_stubs);
    let ghost head = step_models(steps@);
    let failed = push_entries(&mut steps, entries, modules);
    if !failed {
        push_summary(
            &mut steps,
            "✅ Prepared ",
            " official (copy from tsnp-contrib/)",
            " custom (implement in tsnp/)",
            official,
            custom,
        );
    }
    assert(step_models(steps@) =~= real_run_steps(
        output@,
        group_models(official@),
        group_models(custom@),
        no_stubs,
        entries@,
        modules@,
    ));
    steps
}

/// What `prepare` prints before parsing: the files found, or a failure when
/// there are none.
pub open spec fn intro_steps(ts_files: Seq<Seq<char>>) -> Seq<StepModel> {
    seq![StepModel::Print("📦 Analyzing TypeScript files..."@)] + if ts_files.len() == 0 {
        seq![StepModel::Fail(PrepareErrorModel::NoTypeScriptFiles)]
    } else {
        seq![
            StepModel::Print("  ✓ Found: "@ + join_seq(ts_files, ", "@)),
            StepModel::Print("\n🔍 Analyzing code with AST..."@),
        ]
    }
}

/// The steps of `prepare` before any file is parsed.
pub fn analysis_intro(ts_files: &Vec<String>) -> (r: Vec<PrepareStep>)
    ensures
        step_models(r@) == intro_steps(ts_files.deep_view()),
{
    let mut steps: Vec<PrepareStep> = Vec::new();
    push_print(&mut steps, String::from_str("📦 Analyzing TypeScript files..."));
    if ts_files.len() == 0 {
        push_step(&mut steps, PrepareStep::Fail(PrepareError::NoTypeScriptFiles));
    } else {
        let mut l = String::from_str("  ✓ Found: ");
        let list = join_strings(ts_files, ", ");
        l.append(list.as_str());
        push_print(&mut steps, l);
        push_print(&mut steps, String::from_str("\n🔍 Analyzing code with AST..."));
    }
    assert(step_models(steps@) =~= intro_steps(ts_files.deep_view()));
    steps
}



/// The groups of detected plugins, without functions.
pub open spec fn detected_groups(plugins: Seq<Seq<char>>) -> Seq<GroupModel> {
    plugins.map_values(|p: Seq<char>| GroupModel { name: p, functions: seq![] })
}

/// The lines that list the detected plugins.
pub open spec fn detected_lines(plugins: Seq<Seq<char>>) -> Seq<StepModel> {
    plugins.map_values(|p: Seq<char>| StepModel::Print("    - "@ + p))
}

/// The line printed when no plugin API call was found.
pub open spec fn fallback_line() -> StepModel {
    StepModel::Print("  ⚠\u{fe0f}  No plugin APIs detected via AST, trying declare function parsing..."@)
}

/// What `prepare` does once the sources are parsed. When plugin API calls
/// were detected, it lists the plugins and prepares each (without
/// functions); otherwise it falls back on `declare function` declarations,
/// grouped into plugins by name prefix, and stops when there are none.
pub open spec fn prepare_steps(
    detected: Seq<Seq<char>>,
    declared: Seq<FunctionModel>,
    output: Seq<char>,
    dry_run: bool,
    no_stubs: bool,
    entries: Seq<EntryFile>,
    modules: Seq<ModuleSummary>,
) -> Seq<StepModel> {
    if detected.len() > 0 {
        let gs = detected_groups(detected);
        seq![StepModel::Print("  ✓ Detected "@ + decimal_seq(detected.len()) + " plugin(s) via AST analysis:"@)]
            + detected_lines(detected) + generation_steps(
            output,
            official_groups_of(gs),
            custom_groups_of(gs),
            dry_run,
            no_stubs,
            entries,
            modules,
        )
    } else if declared.len() == 0 {
        seq![fallback_line(), StepModel::Fail(PrepareErrorModel::NothingToPrepare)]
    } else {
        let gs = groups_of(declared);
        seq![
            fallback_line(),
            StepModel::Print("  ✓ Parsed "@ + decimal_seq(declared.len()) + " FFI functions via declare statements"@),
        ] + generation_steps(
            output,
            official_groups_of(gs),
            custom_groups_of(gs),
            dry_run,
            no_stubs,
            entries,
            modules,
        )
    }
}

/// The plan of `prepare` once every TypeScript file is read and parsed:
/// `sources` are the files' texts and `modules` what their parsed modules
/// hold, in the same order as `entries`. When no plugin API call is found,
/// the plan falls back on the `declare function` statements of the sources;
/// it stops with `InvalidPattern` when the regex engine refuses the
/// declaration pattern, and with `MalformedMatch` when a match lacks one of
/// its groups.
pub fn cmd_prepare(
    entries: &Vec<EntryFile>,
    modules: &Vec<ModuleSummary>,
    sources: &Vec<String>,
    output: &str,
    dry_run: bool,
    no_stubs: bool,
) -> (r: Vec<PrepareStep>)
    requires
        entries.len() == modules.len(),
    ensures
        modules_plugins(modules@).len() > 0 ==> step_models(r@) == prepare_steps(
            modules_plugins(modules@),
            seq![],
            output@,
            dry_run,
            no_stubs,
            entries@,
            modules@,
        ),
        modules_plugins(modules@).len() == 0 ==> step_models(r@) == if !regex_accepts(
            DECLARE_FUNCTION_PATTERN@,
        ) {
            seq![fallback_line(), StepModel::Fail(PrepareErrorModel::InvalidPattern)]
        } else if !sources_well_formed(sources.deep_view()) {
            seq![fallback_line(), StepModel::Fail(PrepareErrorModel::MalformedMatch)]
        } else {
            prepare_steps(
                seq![],
                declared_in_sources(sources.deep_view()),
                output@,
                dry_run,
                no_stubs,
                entries@,
                modules@,
            )
        },
{
    let detected = detect_plugins_from_ast(modules);
    let ghost dv = detected.deep_view();
    let mut steps: Vec<PrepareStep> = Vec::new();
    if detected.len() > 0 {
        let mut l = String::from_str("  ✓ Detected ");
        let d = decimal_string(detected.len());
        l.append(d.as_str());
        l.append(" plugin(s) via AST analysis:");
        push_print(&mut steps, l);
        let ghost head = step_models(steps@);
        let mut groups: Vec<PluginGroup> = Vec::new();
        let mut i: usize = 0;
        assert(dv.subrange(0, 0) =~= Seq::<Seq<char>>::empty());
        assert(group_models(groups@) =~= Seq::<GroupModel>::empty());
        while i < detected.len()
            invariant
                dv == detected.deep_view(),
                i <= detected.len(),
                step_models(steps@) == head + detected_lines(dv.subrange(0, i as int)),
                group_models(groups@) == detected_groups(dv.subrange(0, i as int)),
                groups.len() == i,
            decreases detected.len() - i,
        {
            let mut l = String::from_str("    - ");
            l.append(detected[i].as_str());
            push_print(&mut steps, l);
            let g = PluginGroup { name: detected[i].clone(), functions: Vec::new() };
            let ghost before = group_models(groups@);
            groups.push(g);
            assert(g@.functions =~= Seq::<FunctionModel>::empty());
            assert(group_models(groups@) =~= before.push(g@));
            assert(detected_groups(dv.subrange(0, i as int + 1)) =~= detected_groups(dv.subrange(0, i as int)).push(g@));
            assert(step_models(steps@) =~= head + detected_lines(dv.subrange(0, i as int + 1)));
            i = i + 1;
        }
        assert(dv.subrange(0, detected.len() as int) =~= dv);
        let ghost gs = group_models(groups@);
        proof {
            lemma_partition_totals(gs);
            lemma_detected_groups_total(dv);
        }
        let (official, custom) = partition_groups(groups);
        let mut rest = generate_plugins_from_groups(&official, &custom, output, dry_run, no_stubs, entries, modules);
        let ghost before = step_models(steps@);
        let ghost tail = step_models(rest@);
        steps.append(&mut rest);
        assert(step_models(steps@) =~= before + tail);
        return steps;
    }
    push_step(&mut steps, PrepareStep::Print(String::from_str(
        "  ⚠\u{fe0f}  No plugin APIs detected via AST, trying declare function parsing...",
    )));
    match parse_ffi_declarations(sources) {
        Err(DeclarationError::InvalidPattern) => {
            push_step(&mut steps, PrepareStep::Fail(PrepareError::InvalidPattern));
            assert(step_models(steps@) =~= seq![fallback_line(), StepModel::Fail(PrepareErrorModel::InvalidPattern)]);
            steps
        },
        Err(DeclarationError::MalformedMatch) => {
            push_step(&mut steps, PrepareStep::Fail(PrepareError::MalformedMatch));
            assert(step_models(steps@) =~= seq![fallback_line(), StepModel::Fail(PrepareErrorModel::MalformedMatch)]);
            steps
        },
        Ok(functions) => {
            if functions.len() == 0 {
                push_step(&mut steps, PrepareStep::Fail(PrepareError::NothingToPrepare));
                assert(step_models(steps@) =~= seq![fallback_line(), StepModel::Fail(PrepareErrorModel::NothingToPrepare)]);
                return steps;
            }
            let mut l = String::from_str("  ✓ Parsed ");
            let d = decimal_string(functions.len());
            l.append(d.as_str());
            l.append(" FFI functions via declare statements");
            push_print(&mut steps, l);
            let groups = group_by_plugin(&functions);
            let ghost gs = group_models(groups@);
            proof {
                lemma_partition_totals(gs);
                lemma_groups_total(function_models(functions@));
                crate::grouping::law_groups_partition_functions(function_models(functions@));
            }
            assert(gs.len() == groups.len());
            let (official, custom) = partition_groups(groups);
            let mut rest = generate_plugins_from_groups(&official, &custom, output, dry_run, no_stubs, entries, modules);
            let ghost before = step_models(steps@);
            let ghost tail = step_models(rest@);
            steps.append(&mut rest);
            assert(step_models(steps@) =~= before + tail);
            steps
        },
    }
}

proof fn lemma_detected_groups_total(ps: Seq<Seq<char>>)
    ensures
        total_functions(detected_groups(ps)) == 0,
    decreases ps.len(),
{
    if ps.len() > 0 {
        lemma_detected_groups_total(ps.drop_last());
        assert(detected_groups(ps).drop_last() =~= detected_groups(ps.drop_last()));
    }
}


/// Every step of the list only prints.
pub open spec fn only_prints(s: Seq<StepModel>) -> bool {
    forall|i: int| 0 <= i < s.len() ==> #[trigger] s[i] is Print
}

proof fn lemma_only_prints_concat(a: Seq<StepModel>, b: Seq<StepModel>)
    requires
        only_prints(a),
        only_prints(b),
    ensures
        only_prints(a + b),
{
    assert forall|i: int| 0 <= i < (a + b).len() implies #[trigger] (a + b)[i] is Print by {
        if i < a.len() {
            assert((a + b)[i] == a[i]);
        } else {
            assert((a + b)[i] == b[i - a.len()]);
        }
    }
}

proof fn lemma_official_preview_prints(gs: Seq<GroupModel>)
    ensures
        only_prints(official_preview_lines(gs)),
    decreases gs.len(),
{
    if gs.len() > 0 {
        lemma_official_preview_prints(gs.drop_last());
        lemma_only_prints_concat(official_preview_lines(gs.drop_last()), seq![official_preview_line(gs.last().name)]);
        assert(official_preview_lines(gs.drop_last()).push(official_preview_line(gs.last().name))
            =~= official_preview_lines(gs.drop_last()) + seq![official_preview_line(gs.last().name)]);
    }
}

proof fn lemma_function_preview_prints(fs: Seq<FunctionModel>)
    ensures
        only_prints(function_preview_lines(fs)),
    decreases fs.len(),
{
    if fs.len() > 0 {
        lemma_function_preview_prints(fs.drop_last());
        let l = StepModel::Print("        - "@ + function_summary(fs.last()));
        lemma_only_prints_concat(function_preview_lines(fs.drop_last()), seq![l]);
        assert(function_preview_lines(fs.drop_last()).push(l) =~= function_preview_lines(fs.drop_last()) + seq![l]);
    }
}

proof fn lemma_custom_previews_print(output: Seq<char>, gs: Seq<GroupModel>)
    ensures
        only_prints(custom_previews(output, gs)),
    decreases gs.len(),
{
    if gs.len() > 0 {
        lemma_custom_previews_print(output, gs.drop_last());
        let g = gs.last();
        lemma_function_preview_prints(g.functions);
        let n = c_name(g.name);
        let head = seq![
            StepModel::Print("  📁 "@ + path_join_seq(path_join_seq(output, "tsnp"@), g.name)),
            StepModel::Print("     📄 "@ + n + "_win.c"@),
            StepModel::Print("     📄 "@ + n + "_linux.c"@),
            StepModel::Print("     📄 "@ + n + "_macos.c"@),
            StepModel::Print("     📄 ts-native.toml"@),
            StepModel::Print("     📄 ts-native-win.toml"@),
            StepModel::Print("     📄 ts-native-linux.toml"@),
            StepModel::Print("     📄 ts-native-macos.toml"@),
        ];
        let funcs = if g.functions.len() > 0 {
            seq![StepModel::Print("     📝 Functions:"@)] + function_preview_lines(g.functions)
        } else {
            seq![StepModel::Print("     📝 Functions: (will be added manually)"@)]
        };
        if g.functions.len() > 0 {
            lemma_only_prints_concat(seq![StepModel::Print("     📝 Functions:"@)], function_preview_lines(g.functions));
        }
        lemma_only_prints_concat(head, funcs);
        lemma_only_prints_concat(head + funcs, seq![StepModel::Print(seq![])]);
        lemma_only_prints_concat(custom_previews(output, gs.drop_last()), custom_preview(output, g));
    }
}

/// A dry run only prints: it creates no directory and writes no file.
pub proof fn law_dry_run_only_prints(output: Seq<char>, official: Seq<GroupModel>, custom: Seq<GroupModel>)
    ensures
        only_prints(dry_run_steps(output, official, custom)),
        forall|i: int|
            0 <= i < dry_run_steps(output, official, custom).len() ==> !writes(
                #[trigger] dry_run_steps(output, official, custom)[i],
            ),
{
    let first = seq![StepModel::Print("\n🔍 Preview mode (no files will be written):\n"@)];
    let off = if official.len() > 0 {
        seq![
            StepModel::Print("📦 Official Plugins (available from tsnp-contrib):"@),
            StepModel::Print("  📄 has-tsnp-contrib.txt (list of official plugins)"@),
            StepModel::Print("  📁 templates/tsnp/ (empty templates for each plugin)"@),
        ] + official_preview_lines(official) + seq![StepModel::Print(seq![])]
    } else {
        seq![]
    };
    let cus = if custom.len() > 0 {
        seq![StepModel::Print("🔧 Custom Plugins (need implementation):"@)] + custom_previews(output, custom)
    } else {
        seq![]
    };
    let sum = summary_lines(
        "✅ Would prepare "@,
        " official (ready to use)"@,
        " custom (need implementation)"@,
        official,
        custom,
    );
    lemma_official_preview_prints(official);
    lemma_custom_previews_print(output, custom);
    if official.len() > 0 {
        let h = seq![
            StepModel::Print("📦 Official Plugins (available from tsnp-contrib):"@),
            StepModel::Print("  📄 has-tsnp-contrib.txt (list of official plugins)"@),
            StepModel::Print("  📁 templates/tsnp/ (empty templates for each plugin)"@),
        ];
        lemma_only_prints_concat(h, official_preview_lines(official));
        lemma_only_prints_concat(h + official_preview_lines(official), seq![StepModel::Print(seq![])]);
    }
    if custom.len() > 0 {
        lemma_only_prints_concat(seq![StepModel::Print("🔧 Custom Plugins (need implementation):"@)], custom_previews(output, custom));
    }
    lemma_only_prints_concat(first, off);
    lemma_only_prints_concat(first + off, cus);
    lemma_only_prints_concat(first + off + cus, sum);
    assert(dry_run_steps(output, official, custom) == first + off + cus + sum);
}

/// A real run first refuses an output directory that exists already, before
/// it creates or writes anything, and then creates that directory.
pub proof fn law_real_run_refuses_existing_output(
    output: Seq<char>,
    official: Seq<GroupModel>,
    custom: Seq<GroupModel>,
    no_stubs: bool,
    entries: Seq<EntryFile>,
    modules: Seq<ModuleSummary>,
)
    ensures
        ({
            let s = real_run_steps(output, official, custom, no_stubs, entries, modules);
            &&& s.len() >= 3
            &&& s[0] is Print
            &&& s[1] == StepModel::RefuseExistingOutput(output)
            &&& s[2] == StepModel::CreateDir(output)
        }),
{
}


/// The manifests that `prepare` writes put a custom plugin at priority 1000
/// and the template of an official plugin at priority 0.
pub proof fn law_plugin_priorities(plugin_name: Seq<char>, fs: Seq<FunctionModel>, official_name: Seq<char>)
    ensures
        contains_seq(main_toml_text(plugin_name, fs), "priority = 1000"@),
        contains_seq(official_toml_text(official_name), "priority = 0"@),
{
    let c = "\"\nversion = \"0.1.0\"\npriority = 1000\n\n[includes]\nwin = \"ts-native-win.toml\"\nlinux = \"ts-native-linux.toml\"\nmacos = \"ts-native-macos.toml\"\n\n[signatures]\n"@;
    let c1 = "\"\nversion = \"0.1.0\"\n"@;
    let c2 = "\n\n[includes]\nwin = \"ts-native-win.toml\"\nlinux = \"ts-native-linux.toml\"\nmacos = \"ts-native-macos.toml\"\n\n[signatures]\n"@;
    reveal_strlit("\"\nversion = \"0.1.0\"\npriority = 1000\n\n[includes]\nwin = \"ts-native-win.toml\"\nlinux = \"ts-native-linux.toml\"\nmacos = \"ts-native-macos.toml\"\n\n[signatures]\n");
    reveal_strlit("\"\nversion = \"0.1.0\"\n");
    reveal_strlit("\n\n[includes]\nwin = \"ts-native-win.toml\"\nlinux = \"ts-native-linux.toml\"\nmacos = \"ts-native-macos.toml\"\n\n[signatures]\n");
    reveal_strlit("priority = 1000");
    assert(c =~= c1 + "priority = 1000"@ + c2);
    let a = "# ts-native Plugin Configuration\n# Auto-generated by cargo tsn prepare\n# Plugin: "@ + plugin_name
        + "\n\n[package]\nname = \"tsnp-"@ + plugin_name + c1;
    let d = c2 + signature_lines(fs) + "\n[build]\nwarn_on_missing = true\nerror_on_mismatch = true\n"@;
    lemma_contains_middle(a, "priority = 1000"@, d);
    assert(main_toml_text(plugin_name, fs) =~= a + "priority = 1000"@ + d);
    let o1 = "\"\nversion = \"0.1.0\"\npriority = 0\n\n[capabilities]\nfunctions = []\n"@;
    let p1 = "\"\nversion = \"0.1.0\"\n"@;
    let p2 = "\n\n[capabilities]\nfunctions = []\n"@;
    reveal_strlit("\"\nversion = \"0.1.0\"\npriority = 0\n\n[capabilities]\nfunctions = []\n");
    reveal_strlit("\n\n[capabilities]\nfunctions = []\n");
    reveal_strlit("priority = 0");
    assert(o1 =~= p1 + "priority = 0"@ + p2);
    let oa = "[package]\nname = \""@ + official_name + p1;
    lemma_contains_middle(oa, "priority = 0"@, p2);
    assert(official_toml_text(official_name) =~= oa + "priority = 0"@ + p2);
}

} // verus!
