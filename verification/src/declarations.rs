//! FFI functions declared with `declare function` in TypeScript sources:
//! their model, and how they are read with the `regex` crate.

use vstd::prelude::*;
use crate::text::{split_char, split_seq, trim, trim_seq};

verus! {

/// One parameter of a declared FFI function.
#[derive(Debug, Clone)]
pub struct ParamInfo {
    pub name: String,
    pub param_type: String,
}

/// A declared FFI function: its name, parameters and return type.
#[derive(Debug, Clone)]
pub struct FFIFunction {
    pub name: String,
    pub params: Vec<ParamInfo>,
    pub return_type: String,
}

/// The model of a parameter.
pub struct ParamModel {
    pub name: Seq<char>,
    pub param_type: Seq<char>,
}

/// The model of a declared function.
pub struct FunctionModel {
    pub name: Seq<char>,
    pub params: Seq<ParamModel>,
    pub return_type: Seq<char>,
}

impl View for ParamInfo {
    type V = ParamModel;

    open spec fn view(&self) -> ParamModel {
        ParamModel { name: self.name@, param_type: self.param_type@ }
    }
}

impl View for FFIFunction {
    type V = FunctionModel;

    open spec fn view(&self) -> FunctionModel {
        FunctionModel {
            name: self.name@,
            params: self.params@.map_values(|p: ParamInfo| p@),
            return_type: self.return_type@,
        }
    }
}

/// The models of a list of functions.
pub open spec fn function_models(fs: Seq<FFIFunction>) -> Seq<FunctionModel> {
    fs.map_values(|f: FFIFunction| f@)
}

impl ParamInfo {
    /// A copy of this parameter.
    pub fn duplicate(&self) -> (r: ParamInfo)
        ensures
            r@ == self@,
    {
        ParamInfo { name: self.name.clone(), param_type: self.param_type.clone() }
    }
}

impl FFIFunction {
    /// A copy of this function.
    pub fn duplicate(&self) -> (r: FFIFunction)
        ensures
            r@ == self@,
    {
        let mut params: Vec<ParamInfo> = Vec::new();
        let mut i: usize = 0;
        while i < self.params.len()
            invariant
                i <= self.params.len(),
                params@.map_values(|p: ParamInfo| p@) =~= self.params@.subrange(0, i as int).map_values(
                    |p: ParamInfo| p@,
                ),
            decreases self.params.len() - i,
        {
            let ghost before = params@.map_values(|p: ParamInfo| p@);
            let q = self.params[i].duplicate();
            params.push(q);
            assert(params@.map_values(|p: ParamInfo| p@) =~= before.push(q@));
            assert(self.params@.subrange(0, i as int + 1).map_values(|p: ParamInfo| p@)
                =~= self.params@.subrange(0, i as int).map_values(|p: ParamInfo| p@).push(
                self.params@[i as int]@,
            ));
            i = i + 1;
        }
        assert(self.params@.subrange(0, self.params.len() as int) =~= self.params@);
        let r = FFIFunction {
            name: self.name.clone(),
            params,
            return_type: self.return_type.clone(),
        };
        assert(r@.params =~= self@.params);
        r
    }
}

/// The parameter written in one comma-separated piece `name: type`: the
/// trimmed piece must hold exactly one colon; name and type are trimmed.
pub open spec fn param_of_piece(piece: Seq<char>) -> Option<ParamModel> {
    let parts = split_seq(trim_seq(piece), ':');
    if parts.len() == 2 {
        Some(ParamModel { name: trim_seq(parts[0]), param_type: trim_seq(parts[1]) })
    } else {
        None
    }
}

/// The parameters written in the pieces, skipping pieces that are not of
/// the form `name: type`.
pub open spec fn params_of_pieces(pieces: Seq<Seq<char>>) -> Seq<ParamModel>
    decreases pieces.len(),
{
    if pieces.len() == 0 {
        seq![]
    } else {
        let rest = params_of_pieces(pieces.drop_last());
        match param_of_piece(pieces.last()) {
            Some(p) => rest.push(p),
            None => rest,
        }
    }
}

/// The parameters of a declaration's parameter list text.
pub open spec fn params_of_list(list: Seq<char>) -> Seq<ParamModel> {
    if trim_seq(list).len() == 0 {
        seq![]
    } else {
        params_of_pieces(split_seq(list, ','))
    }
}

/// The parameter in one piece of a parameter list, if it is `name: type`.
pub fn parse_param(piece: &str) -> (r: Option<ParamInfo>)
    ensures
        r matches Some(p) ==> param_of_piece(piece@) == Some(p@),
        r is None ==> param_of_piece(piece@) is None,
{
    let parts = split_char(trim(piece), ':');
    proof {
        assert(parts@.map_values(|x: &str| x@).len() == parts@.len());
    }
    if parts.len() == 2 {
        let ghost views = parts@.map_values(|x: &str| x@);
        assert(views[0] == parts[0]@ && views[1] == parts[1]@);
        Some(
            ParamInfo {
                name: String::from_str(trim(parts[0])),
                param_type: String::from_str(trim(parts[1])),
            },
        )
    } else {
        None
    }
}

/// The parameters of a declaration's parameter list such as
/// `path: string, content: string`; an empty list gives none, and pieces
/// that are not `name: type` are left out.
pub fn parse_params(list: &str) -> (r: Vec<ParamInfo>)
    ensures
        r@.map_values(|p: ParamInfo| p@) == params_of_list(list@),
{
    let mut out: Vec<ParamInfo> = Vec::new();
    if trim(list).unicode_len() == 0 {
        assert(out@.map_values(|p: ParamInfo| p@) =~= Seq::<ParamModel>::empty());
        return out;
    }
    let pieces = split_char(list, ',');
    let ghost views = pieces@.map_values(|x: &str| x@);
    let mut i: usize = 0;
    assert(views.subrange(0, 0) =~= Seq::<Seq<char>>::empty());
    assert(out@.map_values(|p: ParamInfo| p@) =~= Seq::<ParamModel>::empty());
    while i < pieces.len()
        invariant
            views == pieces@.map_values(|x: &str| x@),
            views == split_seq(list@, ','),
            i <= pieces.len(),
            out@.map_values(|p: ParamInfo| p@) == params_of_pieces(views.subrange(0, i as int)),
        decreases pieces.len() - i,
    {
        let ghost prefix = views.subrange(0, i as int + 1);
        assert(prefix.drop_last() =~= views.subrange(0, i as int));
        assert(prefix.last() == pieces[i as int]@);
        match parse_param(pieces[i]) {
            Some(p) => {
                let ghost before = out@.map_values(|q: ParamInfo| q@);
                out.push(p);
                assert(out@.map_values(|q: ParamInfo| q@) =~= before.push(p@));
            },
            None => {},
        }
        i = i + 1;
    }
    assert(views.subrange(0, pieces.len() as int) =~= views);
    out
}

/// The pattern that finds `declare function name(params): ret` in a
/// TypeScript source; its groups are the name, the parameter list and the
/// return type.
pub const DECLARE_FUNCTION_PATTERN: &'static str = r#"declare\s+function\s+(\w+)\s*\(([^)]*)\)\s*:\s*(\w+)"#;

/// A match of the declaration pattern has its groups 1 to 3.
pub open spec fn well_formed_match(m: Seq<Option<Seq<char>>>) -> bool {
    m.len() >= 4 && m[1] is Some && m[2] is Some && m[3] is Some
}

/// The function declared by a match of the declaration pattern.
pub open spec fn declaration_of_match(m: Seq<Option<Seq<char>>>) -> FunctionModel {
    FunctionModel {
        name: m[1]->0,
        params: params_of_list(m[2]->0),
        return_type: m[3]->0,
    }
}

/// The functions declared by a list of matches, in order.
pub open spec fn declarations_of_matches(ms: Seq<Seq<Option<Seq<char>>>>) -> Seq<FunctionModel> {
    ms.map_values(|m: Seq<Option<Seq<char>>>| declaration_of_match(m))
}

/// The functions declared by the matches of the declaration pattern in a
/// source, in the order of the matches.
pub fn declarations_from_captures(matches: &Vec<Vec<Option<String>>>) -> (r: Vec<FFIFunction>)
    requires
        forall|i: int|
            0 <= i < matches@.len() ==> well_formed_match(#[trigger] matches.deep_view()[i]),
    ensures
        function_models(r@) == declarations_of_matches(matches.deep_view()),
{
    let mut out: Vec<FFIFunction> = Vec::new();
    let mut i: usize = 0;
    let ghost ms = matches.deep_view();
    while i < matches.len()
        invariant
            ms == matches.deep_view(),
            i <= matches.len(),
            forall|k: int| 0 <= k < matches@.len() ==> well_formed_match(#[trigger] ms[k]),
            function_models(out@) =~= declarations_of_matches(ms.subrange(0, i as int)),
        decreases matches.len() - i,
    {
        let m = &matches[i];
        assert(ms[i as int] == m.deep_view());
        assert(well_formed_match(ms[i as int]));
        assert(m.deep_view()[1] == m@[1].deep_view());
        assert(m.deep_view()[2] == m@[2].deep_view());
        assert(m.deep_view()[3] == m@[3].deep_view());
        let name = match &m[1] {
            Some(g) => g.clone(),
            None => String::new(),
        };
        let params = match &m[2] {
            Some(g) => parse_params(g.as_str()),
            None => Vec::new(),
        };
        let return_type = match &m[3] {
            Some(g) => g.clone(),
            None => String::new(),
        };
        let f = FFIFunction { name, params, return_type };
        assert(f@ == declaration_of_match(ms[i as int]));
        let ghost before = function_models(out@);
        out.push(f);
        assert(function_models(out@) =~= before.push(f@));
        assert(declarations_of_matches(ms.subrange(0, i as int + 1)) =~= declarations_of_matches(
            ms.subrange(0, i as int),
        ).push(declaration_of_match(ms[i as int])));
        i = i + 1;
    }
    assert(ms.subrange(0, matches.len() as int) =~= ms);
    out
}

#[verifier::external_type_specification]
#[verifier::external_body]
pub struct ExRegex(regex::Regex);

#[verifier::external_type_specification]
#[verifier::external_body]
pub struct ExRegexError(regex::Error);

/// A compiled regular expression together with the pattern it was compiled
/// from.
pub struct CompiledPattern {
    regex: regex::Regex,
    pattern: String,
}

impl View for CompiledPattern {
    type V = Seq<char>;

    closed spec fn view(&self) -> Seq<char> {
        self.pattern@
    }
}

/// The capture groups of the successive non-overlapping matches of the
/// regular expression `pattern` in `haystack`, as `regex::Regex::captures_iter`
/// yields them: per match, the text of each group, `None` for a group that
/// did not take part in the match.
pub uninterp spec fn regex_captures(pattern: Seq<char>, haystack: Seq<char>) -> Seq<
    Seq<Option<Seq<char>>>,
>;

/// Whether `regex::Regex::new` accepts `pattern`: the pattern is valid
/// syntax and the compiled expression stays within the crate's default size
/// limits.
pub uninterp spec fn regex_accepts(pattern: Seq<char>) -> bool;

/// Calls `regex::Regex::new`. Whether it succeeds is named
/// `regex_accepts(pattern)`; on success the compiled expression is kept with
/// the pattern it came from.
#[verifier::external_body]
fn compile_pattern(pattern: &str) -> (r: Result<CompiledPattern, regex::Error>)
    ensures
        r is Ok <==> regex_accepts(pattern@),
        r matches Ok(c) ==> c@ == pattern@,
{
    match regex::Regex::new(pattern) {
        Ok(regex) => Ok(CompiledPattern { regex, pattern: pattern.to_string() }),
        Err(e) => Err(e),
    }
}

/// Calls `regex::Regex::captures_iter` and collects, for each match, the
/// text of every capture group (`Captures::iter`). The result is named
/// `regex_captures` of the pattern and the haystack.
#[verifier::external_body]
fn capture_groups(re: &CompiledPattern, haystack: &str) -> (r: Vec<Vec<Option<String>>>)
    ensures
        r.deep_view() == regex_captures(re@, haystack@),
{
    re.regex.captures_iter(haystack).map(
        |caps| caps.iter().map(|g| g.map(|m| m.as_str().to_string())).collect(),
    ).collect()
}

/// The declaration matches of every source have their three groups.
pub open spec fn sources_well_formed(sources: Seq<Seq<char>>) -> bool {
    forall|k: int, i: int|
        #![trigger regex_captures(DECLARE_FUNCTION_PATTERN@, sources[k])[i]]
        0 <= k < sources.len() && 0 <= i < regex_captures(DECLARE_FUNCTION_PATTERN@, sources[k]).len()
            ==> well_formed_match(regex_captures(DECLARE_FUNCTION_PATTERN@, sources[k])[i])
}

/// The functions declared in the sources, source by source.
pub open spec fn declared_in_sources(sources: Seq<Seq<char>>) -> Seq<FunctionModel>
    decreases sources.len(),
{
    if sources.len() == 0 {
        seq![]
    } else {
        declared_in_sources(sources.drop_last()) + declarations_of_matches(
            regex_captures(DECLARE_FUNCTION_PATTERN@, sources.last()),
        )
    }
}

/// Why declarations could not be read.
pub enum DeclarationError {
    /// The declaration pattern did not compile.
    InvalidPattern,
    /// A match of the declaration pattern lacks one of its groups.
    MalformedMatch,
}

/// The FFI functions declared with `declare function name(params): ret` in
/// the given TypeScript sources, source by source and in order of
/// appearance. A parameter list piece is kept only when it is `name: type`.
pub fn parse_ffi_declarations(sources: &Vec<String>) -> (r: Result<Vec<FFIFunction>, DeclarationError>)
    ensures
        r matches Err(DeclarationError::InvalidPattern) <==> !regex_accepts(DECLARE_FUNCTION_PATTERN@),
        r matches Err(DeclarationError::MalformedMatch) <==> regex_accepts(DECLARE_FUNCTION_PATTERN@)
            && !sources_well_formed(sources.deep_view()),
        r is Ok <==> regex_accepts(DECLARE_FUNCTION_PATTERN@) && sources_well_formed(sources.deep_view()),
        r matches Ok(fs) ==> function_models(fs@) == declared_in_sources(sources.deep_view()),
{
    let re = match compile_pattern(DECLARE_FUNCTION_PATTERN) {
        Ok(re) => re,
        Err(_) => {
            return Err(DeclarationError::InvalidPattern);
        },
    };
    let ghost srcs = sources.deep_view();
    let mut out: Vec<FFIFunction> = Vec::new();
    let mut k: usize = 0;
    assert(srcs.subrange(0, 0) =~= Seq::<Seq<char>>::empty());
    assert(function_models(out@) =~= Seq::<FunctionModel>::empty());
    while k < sources.len()
        invariant
            srcs == sources.deep_view(),
            re@ == DECLARE_FUNCTION_PATTERN@,
            regex_accepts(DECLARE_FUNCTION_PATTERN@),
            k <= sources.len(),
            function_models(out@) == declared_in_sources(srcs.subrange(0, k as int)),
            forall|k2: int, i2: int|
                #![trigger regex_captures(DECLARE_FUNCTION_PATTERN@, srcs[k2])[i2]]
                0 <= k2 < k && 0 <= i2 < regex_captures(DECLARE_FUNCTION_PATTERN@, srcs[k2]).len()
                    ==> well_formed_match(regex_captures(DECLARE_FUNCTION_PATTERN@, srcs[k2])[i2]),
        decreases sources.len() - k,
    {
        let matches = capture_groups(&re, sources[k].as_str());
        let ghost ms = matches.deep_view();
        assert(srcs[k as int] == sources[k as int]@);
        let mut i: usize = 0;
        while i < matches.len()
            invariant
                ms == matches.deep_view(),
                ms == regex_captures(DECLARE_FUNCTION_PATTERN@, srcs[k as int]),
                regex_accepts(DECLARE_FUNCTION_PATTERN@),
                srcs == sources.deep_view(),
                k < sources.len(),
                i <= matches.len(),
                forall|j: int| 0 <= j < i ==> well_formed_match(#[trigger] ms[j]),
            decreases matches.len() - i,
        {
            let m = &matches[i];
            assert(ms[i as int] == m.deep_view());
            let ok = m.len() >= 4 && m[1].is_some() && m[2].is_some() && m[3].is_some();
            proof {
                if m.len() >= 4 {
                    assert(m.deep_view()[1] == m@[1].deep_view());
                    assert(m.deep_view()[2] == m@[2].deep_view());
                    assert(m.deep_view()[3] == m@[3].deep_view());
                }
            }
            if !ok {
                proof {
                    let t = regex_captures(DECLARE_FUNCTION_PATTERN@, srcs[k as int]);
                    assert(!well_formed_match(t[i as int]));
                }
                return Err(DeclarationError::MalformedMatch);
            }
            i = i + 1;
        }
        let found = declarations_from_captures(&matches);
        let ghost before = function_models(out@);
        let mut found = found;
        out.append(&mut found);
        let ghost prefix = srcs.subrange(0, k as int + 1);
        assert(prefix.drop_last() =~= srcs.subrange(0, k as int));
        assert(function_models(out@) =~= before + declarations_of_matches(ms));
        assert forall|i2: int|
            0 <= i2 < regex_captures(DECLARE_FUNCTION_PATTERN@, srcs[k as int]).len() implies well_formed_match(
            #[trigger] regex_captures(DECLARE_FUNCTION_PATTERN@, srcs[k as int])[i2],
        ) by {
            assert(well_formed_match(ms[i2]));
        }
        k = k + 1;
    }
    assert(srcs.subrange(0, sources.len() as int) =~= srcs);
    Ok(out)
}

/// Reading the declarations of two lists of sources one after the other
/// gives the declarations of the first list followed by those of the second,
/// and the matches of both are well formed exactly when those of each are.
pub proof fn law_declarations_of_joined_sources(a: Seq<Seq<char>>, b: Seq<Seq<char>>)
    ensures
        declared_in_sources(a + b) == declared_in_sources(a) + declared_in_sources(b),
        sources_well_formed(a + b) <==> sources_well_formed(a) && sources_well_formed(b),
    decreases b.len(),
{
    if b.len() == 0 {
        assert(a + b =~= a);
        assert(declared_in_sources(a) + declared_in_sources(b) =~= declared_in_sources(a));
    } else {
        law_declarations_of_joined_sources(a, b.drop_last());
        assert((a + b).drop_last() =~= a + b.drop_last());
        assert((a + b).last() == b.last());
        let d = declarations_of_matches(regex_captures(DECLARE_FUNCTION_PATTERN@, b.last()));
        assert(declared_in_sources(a) + (declared_in_sources(b.drop_last()) + d) =~= declared_in_sources(a)
            + declared_in_sources(b.drop_last()) + d);
    }
    let ab = a + b;
    assert forall|k: int| 0 <= k < ab.len() implies #[trigger] ab[k] == if k < a.len() {
        a[k]
    } else {
        b[k - a.len()]
    } by {}
    if sources_well_formed(ab) {
        assert forall|k: int, i: int|
            0 <= k < a.len() && 0 <= i < regex_captures(DECLARE_FUNCTION_PATTERN@, a[k]).len()
                implies well_formed_match(#[trigger] regex_captures(DECLARE_FUNCTION_PATTERN@, a[k])[i]) by {
            assert(ab[k] == a[k]);
            assert(well_formed_match(regex_captures(DECLARE_FUNCTION_PATTERN@, ab[k])[i]));
        }
        assert forall|k: int, i: int|
            0 <= k < b.len() && 0 <= i < regex_captures(DECLARE_FUNCTION_PATTERN@, b[k]).len()
                implies well_formed_match(#[trigger] regex_captures(DECLARE_FUNCTION_PATTERN@, b[k])[i]) by {
            assert(ab[k + a.len()] == b[k]);
            assert(well_formed_match(regex_captures(DECLARE_FUNCTION_PATTERN@, ab[k + a.len()])[i]));
        }
    }
    if sources_well_formed(a) && sources_well_formed(b) {
        assert forall|k: int, i: int|
            0 <= k < ab.len() && 0 <= i < regex_captures(DECLARE_FUNCTION_PATTERN@, ab[k]).len()
                implies well_formed_match(#[trigger] regex_captures(DECLARE_FUNCTION_PATTERN@, ab[k])[i]) by {
            if k < a.len() {
                assert(well_formed_match(regex_captures(DECLARE_FUNCTION_PATTERN@, a[k])[i]));
            } else {
                assert(well_formed_match(regex_captures(DECLARE_FUNCTION_PATTERN@, b[k - a.len()])[i]));
            }
        }
    }
}

} // verus!
