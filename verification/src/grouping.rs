//! Grouping of declared functions into plugins, and the split of plugins into
//! official ones (shipped with tsnp-contrib) and custom ones.

use vstd::prelude::*;
use crate::text::{find_char, index_of_char, str_equal};
use crate::declarations::{FFIFunction, FunctionModel, function_models};

verus! {

/// The plugin a function belongs to: the part of its name before the first
/// underscore, or `default` when the name has no underscore.
pub open spec fn plugin_prefix(name: Seq<char>) -> Seq<char> {
    match index_of_char(name, '_') {
        Some(i) => name.subrange(0, i),
        None => "default"@,
    }
}

/// The plugin name of a function name.
pub fn plugin_name_of(name: &str) -> (r: String)
    ensures
        r@ == plugin_prefix(name@),
{
    match find_char(name, '_') {
        Some(i) => String::from_str(name.substring_char(0, i)),
        None => String::from_str("default"),
    }
}

/// A plugin and the functions that belong to it.
pub struct PluginGroup {
    pub name: String,
    pub functions: Vec<FFIFunction>,
}

/// The model of a plugin group.
pub struct GroupModel {
    pub name: Seq<char>,
    pub functions: Seq<FunctionModel>,
}

impl View for PluginGroup {
    type V = GroupModel;

    open spec fn view(&self) -> GroupModel {
        GroupModel { name: self.name@, functions: function_models(self.functions@) }
    }
}

/// The models of a list of groups.
pub open spec fn group_models(gs: Seq<PluginGroup>) -> Seq<GroupModel> {
    gs.map_values(|g: PluginGroup| g@)
}

/// No two groups have the same name.
pub open spec fn distinct_names(gs: Seq<GroupModel>) -> bool {
    forall|i: int, j: int| 0 <= i < gs.len() && 0 <= j < gs.len() && i != j ==> #[trigger] gs[i].name != #[trigger] gs[j].name
}

/// The groups after adding `f`: to the group of its plugin when there is
/// one, else to a new group at the end.
pub open spec fn add_to_groups(gs: Seq<GroupModel>, f: FunctionModel) -> Seq<GroupModel> {
    let p = plugin_prefix(f.name);
    if exists|i: int| 0 <= i < gs.len() && gs[i].name == p {
        let i = choose|i: int| 0 <= i < gs.len() && gs[i].name == p;
        gs.update(i, GroupModel { name: p, functions: gs[i].functions.push(f) })
    } else {
        gs.push(GroupModel { name: p, functions: seq![f] })
    }
}

/// The groups of a list of functions, in the order in which each plugin
/// first appears.
pub open spec fn groups_of(fs: Seq<FunctionModel>) -> Seq<GroupModel>
    decreases fs.len(),
{
    if fs.len() == 0 {
        seq![]
    } else {
        add_to_groups(groups_of(fs.drop_last()), fs.last())
    }
}

/// The functions, in order, whose plugin is `p`.
pub open spec fn functions_of_plugin(fs: Seq<FunctionModel>, p: Seq<char>) -> Seq<FunctionModel>
    decreases fs.len(),
{
    if fs.len() == 0 {
        seq![]
    } else {
        let rest = functions_of_plugin(fs.drop_last(), p);
        if plugin_prefix(fs.last().name) == p {
            rest.push(fs.last())
        } else {
            rest
        }
    }
}

/// No two groups made by `group_by_plugin` share a name.
pub proof fn lemma_groups_distinct(fs: Seq<FunctionModel>)
    ensures
        distinct_names(groups_of(fs)),
    decreases fs.len(),
{
    if fs.len() > 0 {
        lemma_groups_distinct(fs.drop_last());
    }
}

/// Groups the functions by plugin, the part of the name before the first
/// underscore (`default` without one). Groups come in the order in which
/// their plugin first appears; within a group functions keep their order.
pub fn group_by_plugin(functions: &Vec<FFIFunction>) -> (r: Vec<PluginGroup>)
    ensures
        group_models(r@) == groups_of(function_models(functions@)),
{
    let ghost fs = function_models(functions@);
    let mut groups: Vec<PluginGroup> = Vec::new();
    let mut k: usize = 0;
    assert(fs.subrange(0, 0) =~= Seq::<FunctionModel>::empty());
    assert(group_models(groups@) =~= Seq::<GroupModel>::empty());
    while k < functions.len()
        invariant
            fs == function_models(functions@),
            k <= functions.len(),
            group_models(groups@) == groups_of(fs.subrange(0, k as int)),
        decreases functions.len() - k,
    {
        let ghost prefix = fs.subrange(0, k as int + 1);
        assert(prefix.drop_last() =~= fs.subrange(0, k as int));
        assert(prefix.last() == functions@[k as int]@);
        proof {
            lemma_groups_distinct(fs.subrange(0, k as int));
        }
        let ghost gs = group_models(groups@);
        let f = functions[k].duplicate();
        let p = plugin_name_of(f.name.as_str());
        let mut found: Option<usize> = None;
        let mut j: usize = 0;
        while j < groups.len()
            invariant
                gs == group_models(groups@),
                j <= groups.len(),
                found is None ==> forall|t: int| 0 <= t < j ==> gs[t].name != p@,
                found matches Some(t) ==> t < groups.len() && gs[t as int].name == p@,
            decreases groups.len() - j,
        {
            if found.is_none() && str_equal(groups[j].name.as_str(), p.as_str()) {
                found = Some(j);
            }
            j = j + 1;
        }
        match found {
            Some(t) => {
                proof {
                    let c = choose|i: int| 0 <= i < gs.len() && gs[i].name == p@;
                    assert(c == t as int);
                }
                let mut g = groups.remove(t);
                let ghost old_g = g@;
                g.functions.push(f);
                assert(function_models(g.functions@) =~= old_g.functions.push(f@));
                groups.insert(t, g);
                assert(group_models(groups@) =~= gs.update(
                    t as int,
                    GroupModel { name: p@, functions: gs[t as int].functions.push(f@) },
                ));
            },
            None => {
                let mut fns: Vec<FFIFunction> = Vec::new();
                fns.push(f);
                let g = PluginGroup { name: p, functions: fns };
                assert(g@.functions =~= seq![f@]);
                groups.push(g);
                assert(group_models(groups@) =~= gs.push(g@));
            },
        }
        k = k + 1;
    }
    assert(fs.subrange(0, functions.len() as int) =~= fs);
    groups
}

/// Grouping loses and invents nothing: each group holds exactly the
/// functions whose plugin is the group's name, in the order they were given, and
/// the plugin of every function has a group.
pub proof fn law_groups_partition_functions(fs: Seq<FunctionModel>)
    ensures
        forall|i: int|
            0 <= i < groups_of(fs).len() ==> (#[trigger] groups_of(fs)[i]).functions
                == functions_of_plugin(fs, groups_of(fs)[i].name),
        forall|k: int|
            0 <= k < fs.len() ==> exists|i: int|
                0 <= i < groups_of(fs).len() && groups_of(fs)[i].name == plugin_prefix(
                    #[trigger] fs[k].name,
                ),
    decreases fs.len(),
{
    if fs.len() > 0 {
        let rest = fs.drop_last();
        let f = fs.last();
        let p = plugin_prefix(f.name);
        let old_gs = groups_of(rest);
        law_groups_partition_functions(rest);
        lemma_groups_distinct(rest);
        let gs = groups_of(fs);
        assert(gs == add_to_groups(old_gs, f));
        assert forall|k: int| 0 <= k < fs.len() implies exists|i: int|
            0 <= i < gs.len() && gs[i].name == plugin_prefix(#[trigger] fs[k].name) by {
            if k < fs.len() - 1 {
                assert(fs[k] == rest[k]);
                let i = choose|i: int| 0 <= i < old_gs.len() && old_gs[i].name == plugin_prefix(rest[k].name);
                assert(gs[i].name == old_gs[i].name);
            } else {
                if exists|i: int| 0 <= i < old_gs.len() && old_gs[i].name == p {
                    let i = choose|i: int| 0 <= i < old_gs.len() && old_gs[i].name == p;
                    assert(gs[i].name == p);
                } else {
                    assert(gs[old_gs.len() as int].name == p);
                }
            }
        }
        assert forall|i: int| 0 <= i < gs.len() implies (#[trigger] gs[i]).functions
            == functions_of_plugin(fs, gs[i].name) by {
            let n = gs[i].name;
            if n == p {
                if exists|j: int| 0 <= j < old_gs.len() && old_gs[j].name == p {
                    let j = choose|j: int| 0 <= j < old_gs.len() && old_gs[j].name == p;
                    assert(i == j);
                    assert(old_gs[j].functions == functions_of_plugin(rest, p));
                } else {
                    assert(i == old_gs.len());
                    if functions_of_plugin(rest, p).len() > 0 {
                        lemma_plugin_member(rest, p);
                    }
                    assert(functions_of_plugin(rest, p) =~= Seq::<FunctionModel>::empty());
                }
            } else {
                assert(gs[i] == old_gs[i]);
            }
        }
    }
}

proof fn lemma_plugin_member(fs: Seq<FunctionModel>, p: Seq<char>)
    requires
        functions_of_plugin(fs, p).len() > 0,
    ensures
        exists|k: int| 0 <= k < fs.len() && plugin_prefix(#[trigger] fs[k].name) == p,
    decreases fs.len(),
{
    if fs.len() > 0 {
        if plugin_prefix(fs.last().name) == p {
            assert(plugin_prefix(fs[fs.len() - 1].name) == p);
        } else {
            lemma_plugin_member(fs.drop_last(), p);
            let k = choose|k: int| 0 <= k < fs.drop_last().len() && plugin_prefix(fs.drop_last()[k].name) == p;
            assert(fs[k] == fs.drop_last()[k]);
        }
    }
}

/// The plugins that tsnp-contrib ships.
pub open spec fn official_plugin_names() -> Seq<Seq<char>> {
    seq![
        "http"@,
        "fs"@,
        "crypto"@,
        "os"@,
        "path"@,
        "cli"@,
        "timer"@,
        "json"@,
        "net"@,
        "process"@,
        "log"@,
        "env"@,
    ]
}

/// The names of the official plugins (from tsnp-contrib).
pub fn get_official_plugins() -> (r: Vec<String>)
    ensures
        r.deep_view() == official_plugin_names(),
{
    let mut v: Vec<String> = Vec::new();
    v.push(String::from_str("http"));
    v.push(String::from_str("fs"));
    v.push(String::from_str("crypto"));
    v.push(String::from_str("os"));
    v.push(String::from_str("path"));
    v.push(String::from_str("cli"));
    v.push(String::from_str("timer"));
    v.push(String::from_str("json"));
    v.push(String::from_str("net"));
    v.push(String::from_str("process"));
    v.push(String::from_str("log"));
    v.push(String::from_str("env"));
    assert(v.deep_view() =~= official_plugin_names());
    v
}

/// Whether `name` is the name of an official plugin.
pub fn is_official_plugin(name: &str) -> (r: bool)
    ensures
        r == official_plugin_names().contains(name@),
{
    let official = get_official_plugins();
    let ghost names = official.deep_view();
    let mut i: usize = 0;
    while i < official.len()
        invariant
            names == official.deep_view(),
            names == official_plugin_names(),
            i <= official.len(),
            forall|k: int| 0 <= k < i ==> names[k] != name@,
        decreases official.len() - i,
    {
        if str_equal(official[i].as_str(), name) {
            assert(names[i as int] == name@);
            return true;
        }
        i = i + 1;
    }
    false
}

/// The groups whose plugin is official, in order.
pub open spec fn official_groups_of(gs: Seq<GroupModel>) -> Seq<GroupModel> {
    gs.filter(|g: GroupModel| official_plugin_names().contains(g.name))
}

/// The groups whose plugin is not official, in order.
pub open spec fn custom_groups_of(gs: Seq<GroupModel>) -> Seq<GroupModel> {
    gs.filter(|g: GroupModel| !official_plugin_names().contains(g.name))
}

/// Splits the groups into those of official plugins and the custom ones,
/// each part keeping the order of the groups.
pub fn partition_groups(groups: Vec<PluginGroup>) -> (r: (Vec<PluginGroup>, Vec<PluginGroup>))
    ensures
        group_models(r.0@) == official_groups_of(group_models(groups@)),
        group_models(r.1@) == custom_groups_of(group_models(groups@)),
{
    let ghost gs = group_models(groups@);
    let total = groups.len();
    let mut official: Vec<PluginGroup> = Vec::new();
    let mut custom: Vec<PluginGroup> = Vec::new();
    let mut rest = groups;
    let ghost n = gs.len();
    assert(n == total);
    let mut i: usize = 0;
    assert(gs.subrange(0, 0).filter(|g: GroupModel| official_plugin_names().contains(g.name)) =~= Seq::<GroupModel>::empty()) by {
        reveal(Seq::filter);
    }
    assert(gs.subrange(0, 0).filter(|g: GroupModel| !official_plugin_names().contains(g.name)) =~= Seq::<GroupModel>::empty()) by {
        reveal(Seq::filter);
    }
    while rest.len() > 0
        invariant
            n == gs.len(),
            n <= usize::MAX,
            i + rest.len() == n,
            group_models(rest@) =~= gs.subrange(i as int, n as int),
            group_models(official@) == official_groups_of(gs.subrange(0, i as int)),
            group_models(custom@) == custom_groups_of(gs.subrange(0, i as int)),
        decreases rest.len(),
    {
        let ghost before_rest = group_models(rest@);
        let g = rest.remove(0);
        assert(before_rest[0] == g@);
        assert(group_models(rest@) =~= before_rest.drop_first());
        assert(g@ == gs[i as int]);
        let ghost prefix = gs.subrange(0, i as int + 1);
        assert(prefix.drop_last() =~= gs.subrange(0, i as int));
        assert(prefix.last() == g@);
        proof {
            reveal(Seq::filter);
        }
        let ghost before_o = group_models(official@);
        let ghost before_c = group_models(custom@);
        if is_official_plugin(g.name.as_str()) {
            official.push(g);
            assert(group_models(official@) =~= before_o.push(g@));
            assert(group_models(custom@) =~= before_c);
        } else {
            custom.push(g);
            assert(group_models(custom@) =~= before_c.push(g@));
            assert(group_models(official@) =~= before_o);
        }
        i = i + 1;
        assert(group_models(rest@) =~= gs.subrange(i as int, n as int));
    }
    assert(gs.subrange(0, n as int) =~= gs);
    (official, custom)
}


/// Each group goes to exactly one side of the split, by its name: the
/// official side holds the groups of official plugins, the custom side the
/// others.
pub proof fn law_partition_by_official_name(gs: Seq<GroupModel>)
    ensures
        forall|i: int|
            0 <= i < official_groups_of(gs).len() ==> official_plugin_names().contains(
                #[trigger] official_groups_of(gs)[i].name,
            ),
        forall|i: int|
            0 <= i < custom_groups_of(gs).len() ==> !official_plugin_names().contains(
                #[trigger] custom_groups_of(gs)[i].name,
            ),
        forall|i: int|
            0 <= i < gs.len() ==> (official_plugin_names().contains(gs[i].name) ==> official_groups_of(
                gs,
            ).contains(#[trigger] gs[i])) && (!official_plugin_names().contains(gs[i].name)
                ==> custom_groups_of(gs).contains(gs[i])),
{
    broadcast use vstd::seq_lib::group_filter_ensures;

    let po = |g: GroupModel| official_plugin_names().contains(g.name);
    let pc = |g: GroupModel| !official_plugin_names().contains(g.name);
    assert forall|i: int| 0 <= i < official_groups_of(gs).len() implies official_plugin_names().contains(
        #[trigger] official_groups_of(gs)[i].name,
    ) by {
        gs.lemma_filter_pred(po, i);
    }
    assert forall|i: int| 0 <= i < custom_groups_of(gs).len() implies !official_plugin_names().contains(
        #[trigger] custom_groups_of(gs)[i].name,
    ) by {
        gs.lemma_filter_pred(pc, i);
    }
    assert forall|i: int| 0 <= i < gs.len() implies (official_plugin_names().contains(gs[i].name)
        ==> official_groups_of(gs).contains(#[trigger] gs[i])) && (!official_plugin_names().contains(
        gs[i].name,
    ) ==> custom_groups_of(gs).contains(gs[i])) by {
        if po(gs[i]) {
            gs.lemma_filter_contains(po, i);
        } else {
            gs.lemma_filter_contains(pc, i);
        }
    }
}

} // verus!
