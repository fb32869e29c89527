//! Aggregation helper: the arguments of a multi-controller documentation
//! request, their grammar, and the plan of the emitted documentation struct.

use vstd::prelude::*;
use vstd::string::*;

use crate::attr::AttrTok;
use crate::attr::spec_render_toks;
use crate::parse::{opt_str_view, strs_view, with_strs_prefix, SyntaxError};
use crate::text::str_eq;

verus! {

/// One tag definition of the documentation request.
#[derive(Debug)]
pub struct TagDef {
    pub name: String,
    pub description: String,
}

/// Mathematical view of a [`TagDef`].
#[verifier::ext_equal]
pub ghost struct TagDefV {
    pub name: Seq<char>,
    pub description: Seq<char>,
}

impl View for TagDef {
    type V = TagDefV;

    open spec fn view(&self) -> TagDefV {
        TagDefV { name: self.name@, description: self.description@ }
    }
}

/// View of a tag list.
pub open spec fn tags_view(s: Seq<TagDef>) -> Seq<TagDefV> {
    s.map_values(|t: TagDef| t@)
}

/// The top-level metadata of the documentation request.
#[derive(Debug)]
pub struct ApiInfo {
    pub title: String,
    pub version: String,
    pub description: Option<String>,
}

/// Mathematical view of an [`ApiInfo`].
#[verifier::ext_equal]
pub ghost struct ApiInfoV {
    pub title: Seq<char>,
    pub version: Seq<char>,
    pub description: Option<Seq<char>>,
}

impl View for ApiInfo {
    type V = ApiInfoV;

    open spec fn view(&self) -> ApiInfoV {
        ApiInfoV {
            title: self.title@,
            version: self.version@,
            description: opt_str_view(self.description),
        }
    }
}

/// The parsed arguments of a documentation request.
#[derive(Debug)]
pub struct OpenApiForArgs {
    /// Controllers whose documentation modules are aggregated.
    pub controllers: Vec<String>,
    /// Additional schema type names.
    pub schemas: Vec<String>,
    /// Tag definitions.
    pub tags: Vec<TagDef>,
    /// Top-level metadata.
    pub info: Option<ApiInfo>,
}

/// Mathematical view of [`OpenApiForArgs`].
#[verifier::ext_equal]
pub ghost struct OpenApiForArgsV {
    pub controllers: Seq<Seq<char>>,
    pub schemas: Seq<Seq<char>>,
    pub tags: Seq<TagDefV>,
    pub info: Option<ApiInfoV>,
}

impl View for OpenApiForArgs {
    type V = OpenApiForArgsV;

    open spec fn view(&self) -> OpenApiForArgsV {
        OpenApiForArgsV {
            controllers: strs_view(self.controllers@),
            schemas: strs_view(self.schemas@),
            tags: tags_view(self.tags@),
            info: match self.info {
                Some(i) => Some(i@),
                None => None,
            },
        }
    }
}

/// Parse of a bracketed name list from position `j` with the current run
/// `cur`: comma-separated nonempty runs, each rendered as text, a trailing
/// comma allowed.
pub open spec fn spec_parse_path_list(s: Seq<AttrTok>, j: int, cur: Seq<AttrTok>) -> Result<
    Seq<Seq<char>>,
    (),
>
    decreases s.len() - j,
{
    if j < 0 || j >= s.len() {
        if cur.len() == 0 {
            Ok(Seq::empty())
        } else {
            Ok(seq![spec_render_toks(cur)])
        }
    } else if s[j] is Comma {
        if cur.len() == 0 {
            Err(())
        } else {
            match spec_parse_path_list(s, j + 1, Seq::empty()) {
                Ok(rest) => Ok(seq![spec_render_toks(cur)] + rest),
                Err(e) => Err(e),
            }
        }
    } else {
        spec_parse_path_list(s, j + 1, cur.push(s[j]))
    }
}

/// Parse of one tag tuple body: `key = "value"` pairs separated by commas,
/// a trailing comma allowed; `name` and `description` set their fields, any
/// other key is ignored.
pub open spec fn spec_parse_tag_kvs(s: Seq<AttrTok>, j: int, acc: TagDefV) -> Result<TagDefV, ()>
    decreases s.len() - j,
{
    if j < 0 || j >= s.len() {
        Ok(acc)
    } else {
        if s.len() - j >= 3 && s[j] is Ident && s[j + 1] is Eq && s[j + 2] is StrLit {
            let key = s[j]->Ident_0;
            let v = s[j + 2]->StrLit_0;
            let acc2 = if key@ == "name"@ {
                TagDefV { name: v@, ..acc }
            } else if key@ == "description"@ {
                TagDefV { description: v@, ..acc }
            } else {
                acc
            };
            if j + 3 == s.len() {
                Ok(acc2)
            } else if s[j + 3] is Comma {
                spec_parse_tag_kvs(s, j + 4, acc2)
            } else {
                Err(())
            }
        } else {
            Err(())
        }
    }
}

/// A tag with both fields empty.
pub open spec fn spec_tag_init() -> TagDefV {
    TagDefV { name: Seq::empty(), description: Seq::empty() }
}

/// Parse of the `tags = [...]` body: parenthesized tag tuples separated by
/// commas, a trailing comma allowed.
pub open spec fn spec_parse_tags(s: Seq<AttrTok>, j: int) -> Result<Seq<TagDefV>, ()>
    decreases s.len() - j,
{
    if j < 0 || j >= s.len() {
        Ok(Seq::empty())
    } else {
        match s[j] {
            AttrTok::Group(d, c) => if d is Paren {
                match spec_parse_tag_kvs(c@, 0, spec_tag_init()) {
                    Ok(tag) => if j == s.len() - 1 {
                        Ok(seq![tag])
                    } else if s[j + 1] is Comma {
                        match spec_parse_tags(s, j + 2) {
                            Ok(rest) => Ok(seq![tag] + rest),
                            Err(e) => Err(e),
                        }
                    } else {
                        Err(())
                    },
                    Err(e) => Err(e),
                }
            } else {
                Err(())
            },
            _ => Err(()),
        }
    }
}

/// Parse of the `info = (...)` body: `key = "value"` pairs separated by
/// commas, a trailing comma allowed; `title`, `version` and `description`
/// set their fields, any other key is ignored.
pub open spec fn spec_parse_info_kvs(s: Seq<AttrTok>, j: int, acc: ApiInfoV) -> Result<
    ApiInfoV,
    (),
>
    decreases s.len() - j,
{
    if j < 0 || j >= s.len() {
        Ok(acc)
    } else {
        if s.len() - j >= 3 && s[j] is Ident && s[j + 1] is Eq && s[j + 2] is StrLit {
            let key = s[j]->Ident_0;
            let v = s[j + 2]->StrLit_0;
            let acc2 = if key@ == "title"@ {
                ApiInfoV { title: v@, ..acc }
            } else if key@ == "version"@ {
                ApiInfoV { version: v@, ..acc }
            } else if key@ == "description"@ {
                ApiInfoV { description: Some(v@), ..acc }
            } else {
                acc
            };
            if j + 3 == s.len() {
                Ok(acc2)
            } else if s[j + 3] is Comma {
                spec_parse_info_kvs(s, j + 4, acc2)
            } else {
                Err(())
            }
        } else {
            Err(())
        }
    }
}

/// The metadata with every field empty.
pub open spec fn spec_info_init() -> ApiInfoV {
    ApiInfoV { title: Seq::empty(), version: Seq::empty(), description: None }
}

/// The request arguments with nothing declared.
pub open spec fn spec_openapi_args_init() -> OpenApiForArgsV {
    OpenApiForArgsV {
        controllers: Seq::empty(),
        schemas: Seq::empty(),
        tags: Seq::empty(),
        info: None,
    }
}

/// The whole request-argument parse from position `j`: `key = [...]` or
/// `key = (...)` clauses, each optionally followed by a comma; an unknown
/// key is rejected.
pub open spec fn spec_parse_openapi_args(s: Seq<AttrTok>, j: int, acc: OpenApiForArgsV) -> Result<
    OpenApiForArgsV,
    (),
>
    decreases s.len() - j,
{
    if j < 0 || j >= s.len() {
        Ok(acc)
    } else {
        if s.len() - j >= 3 && s[j] is Ident && s[j + 1] is Eq && s[j + 2] is Group {
            let key = s[j]->Ident_0;
            let d = s[j + 2]->Group_0;
            let c = s[j + 2]->Group_1;
            let step = if key@ == "controllers"@ {
                if d is Bracket {
                    match spec_parse_path_list(c@, 0, Seq::empty()) {
                        Ok(ps) => Ok(OpenApiForArgsV { controllers: ps, ..acc }),
                        Err(e) => Err(e),
                    }
                } else {
                    Err(())
                }
            } else if key@ == "schemas"@ {
                if d is Bracket {
                    match spec_parse_path_list(c@, 0, Seq::empty()) {
                        Ok(ps) => Ok(OpenApiForArgsV { schemas: ps, ..acc }),
                        Err(e) => Err(e),
                    }
                } else {
                    Err(())
                }
            } else if key@ == "tags"@ {
                if d is Bracket {
                    match spec_parse_tags(c@, 0) {
                        Ok(ts) => Ok(OpenApiForArgsV { tags: ts, ..acc }),
                        Err(e) => Err(e),
                    }
                } else {
                    Err(())
                }
            } else if key@ == "info"@ {
                if d is Paren {
                    match spec_parse_info_kvs(c@, 0, spec_info_init()) {
                        Ok(inf) => Ok(OpenApiForArgsV { info: Some(inf), ..acc }),
                        Err(e) => Err(e),
                    }
                } else {
                    Err(())
                }
            } else {
                Err(())
            };
            match step {
                Ok(acc2) => if j + 3 == s.len() {
                    Ok(acc2)
                } else if s[j + 3] is Comma {
                    spec_parse_openapi_args(s, j + 4, acc2)
                } else {
                    spec_parse_openapi_args(s, j + 3, acc2)
                },
                Err(e) => Err(e),
            }
        } else {
            Err(())
        }
    }
}

/// The plan of the emitted documentation struct: which sections appear and
/// with what content.
#[derive(Debug)]
pub struct ApiDocPlan {
    /// Controllers whose documentation modules are referenced.
    pub controllers: Vec<String>,
    /// Schema type names of the components section.
    pub schemas: Vec<String>,
    /// Tag definitions of the tags section.
    pub tags: Vec<TagDef>,
    /// Top-level metadata, when declared.
    pub info: Option<ApiInfo>,
    /// Whether a placeholder paths section is emitted: only when at least
    /// one controller is named.
    pub has_paths_section: bool,
    /// Whether the components section is emitted.
    pub has_schemas_section: bool,
    /// Whether the tags section is emitted.
    pub has_tags_section: bool,
    /// Whether the metadata carries a nonempty description.
    pub info_has_description: bool,
}

/// Mathematical view of an [`ApiDocPlan`].
#[verifier::ext_equal]
pub ghost struct ApiDocPlanV {
    pub controllers: Seq<Seq<char>>,
    pub schemas: Seq<Seq<char>>,
    pub tags: Seq<TagDefV>,
    pub info: Option<ApiInfoV>,
    pub has_paths_section: bool,
    pub has_schemas_section: bool,
    pub has_tags_section: bool,
    pub info_has_description: bool,
}

impl View for ApiDocPlan {
    type V = ApiDocPlanV;

    open spec fn view(&self) -> ApiDocPlanV {
        ApiDocPlanV {
            controllers: strs_view(self.controllers@),
            schemas: strs_view(self.schemas@),
            tags: tags_view(self.tags@),
            info: match self.info {
                Some(i) => Some(i@),
                None => None,
            },
            has_paths_section: self.has_paths_section,
            has_schemas_section: self.has_schemas_section,
            has_tags_section: self.has_tags_section,
            info_has_description: self.info_has_description,
        }
    }
}

/// The plan computed from parsed arguments: every list is carried over, a
/// section is emitted exactly when its list is nonempty, and the metadata
/// description is shown only when nonempty.
pub open spec fn spec_openapi_plan(args: OpenApiForArgsV) -> ApiDocPlanV {
    ApiDocPlanV {
        controllers: args.controllers,
        schemas: args.schemas,
        tags: args.tags,
        info: args.info,
        has_paths_section: args.controllers.len() > 0,
        has_schemas_section: args.schemas.len() > 0,
        has_tags_section: args.tags.len() > 0,
        info_has_description: match args.info {
            Some(i) => match i.description {
                Some(d) => d.len() > 0,
                None => false,
            },
            None => false,
        },
    }
}

/// Plans the emitted documentation struct from parsed arguments.
pub fn openapi_for_impl(args: OpenApiForArgs) -> (r: ApiDocPlan)
    ensures
        r@ == spec_openapi_plan(args@),
{
    let has_paths_section = args.controllers.len() > 0;
    let has_schemas_section = args.schemas.len() > 0;
    let has_tags_section = args.tags.len() > 0;
    let info_has_description = match &args.info {
        Some(i) => match &i.description {
            Some(d) => d.unicode_len() > 0,
            None => false,
        },
        None => false,
    };
    let r = ApiDocPlan {
        controllers: args.controllers,
        schemas: args.schemas,
        tags: args.tags,
        info: args.info,
        has_paths_section,
        has_schemas_section,
        has_tags_section,
        info_has_description,
    };
    proof {
        assert(r@ =~= spec_openapi_plan(
            OpenApiForArgsV {
                controllers: strs_view(r.controllers@),
                schemas: strs_view(r.schemas@),
                tags: tags_view(r.tags@),
                info: match r.info {
                    Some(i) => Some(i@),
                    None => None,
                },
            },
        ));
    }
    r
}


/// A tag-list result with a parsed prefix prepended.
pub open spec fn with_tags_prefix(o: Seq<TagDefV>, r: Result<Seq<TagDefV>, ()>) -> Result<
    Seq<TagDefV>,
    (),
> {
    match r {
        Ok(x) => Ok(o + x),
        Err(e) => Err(e),
    }
}

/// A pushed tag extends the view by its own view.
proof fn lemma_tags_view_push(v1: Seq<TagDef>, v2: Seq<TagDef>)
    requires
        v2.len() == v1.len() + 1,
        v2 == v1.push(v2.last()),
    ensures
        tags_view(v2) == tags_view(v1).push(v2.last()@),
{
    assert forall|j: int| 0 <= j < v2.len() implies tags_view(v2)[j] == tags_view(v1).push(
        v2.last()@,
    )[j] by {
        if j < v1.len() {
            assert(v2[j] == v1[j]);
        } else {
            assert(v2[j] == v2.last());
        }
    }
    assert(tags_view(v2) =~= tags_view(v1).push(v2.last()@));
}

/// A pushed name extends the view by its own view.
proof fn lemma_strs_view_push(v1: Seq<String>, v2: Seq<String>)
    requires
        v2.len() == v1.len() + 1,
        v2 == v1.push(v2.last()),
    ensures
        strs_view(v2) == strs_view(v1).push(v2.last()@),
{
    assert forall|j: int| 0 <= j < v2.len() implies strs_view(v2)[j] == strs_view(v1).push(
        v2.last()@,
    )[j] by {
        if j < v1.len() {
            assert(v2[j] == v1[j]);
        } else {
            assert(v2[j] == v2.last());
        }
    }
    assert(strs_view(v2) =~= strs_view(v1).push(v2.last()@));
}

/// Parses a bracketed name list.
fn parse_path_list(s: &Vec<AttrTok>) -> (r: Result<Vec<String>, SyntaxError>)
    ensures
        match r {
            Ok(v) => spec_parse_path_list(s@, 0, Seq::empty()) == Ok::<Seq<Seq<char>>, ()>(
                strs_view(v@),
            ),
            Err(_) => spec_parse_path_list(s@, 0, Seq::empty()) is Err,
        },
{
    let mut out: Vec<String> = Vec::new();
    let mut start: usize = 0;
    let mut j: usize = 0;
    proof {
        assert(s@.subrange(0, 0) =~= Seq::<AttrTok>::empty());
        if spec_parse_path_list(s@, 0, Seq::empty()) is Ok {
            assert(Seq::<Seq<char>>::empty() + spec_parse_path_list(s@, 0, Seq::empty())->Ok_0
                =~= spec_parse_path_list(s@, 0, Seq::empty())->Ok_0);
        }
        assert(with_strs_prefix(
            strs_view(out@),
            spec_parse_path_list(s@, 0, s@.subrange(0, 0)),
        ) == spec_parse_path_list(s@, 0, Seq::empty()));
    }
    while j < s.len()
        invariant
            0 <= start <= j <= s@.len(),
            with_strs_prefix(
                strs_view(out@),
                spec_parse_path_list(s@, j as int, s@.subrange(start as int, j as int)),
            ) == spec_parse_path_list(s@, 0, Seq::empty()),
        decreases s@.len() - j,
    {
        let ghost cur = s@.subrange(start as int, j as int);
        let is_comma = match &s[j] {
            AttrTok::Comma => true,
            _ => false,
        };
        if is_comma {
            if start == j {
                return Err(SyntaxError);
            }
            let piece = crate::attr::render_toks_range(s, start, j);
            let ghost out_pre = out@;
            out.push(piece);
            proof {
                lemma_strs_view_push(out_pre, out@);
                let ghost rest = spec_parse_path_list(s@, j as int + 1, Seq::empty());
                if rest is Ok {
                    assert(spec_parse_path_list(s@, j as int, cur) == Ok::<Seq<Seq<char>>, ()>(
                        seq![spec_render_toks(cur)] + rest->Ok_0,
                    ));
                    assert(strs_view(out_pre) + (seq![spec_render_toks(cur)] + rest->Ok_0)
                        =~= strs_view(out@) + rest->Ok_0);
                }
                assert(s@.subrange(j as int + 1, j as int + 1) =~= Seq::<AttrTok>::empty());
            }
            start = j + 1;
        } else {
            proof {
                assert(s@.subrange(start as int, j as int + 1) =~= cur.push(s@[j as int]));
            }
        }
        j = j + 1;
    }
    let ghost cur = s@.subrange(start as int, j as int);
    if start < s.len() {
        let piece = crate::attr::render_toks_range(s, start, s.len());
        let ghost out_pre = out@;
        out.push(piece);
        proof {
            lemma_strs_view_push(out_pre, out@);
            assert(spec_parse_path_list(s@, j as int, cur) == Ok::<Seq<Seq<char>>, ()>(
                seq![spec_render_toks(cur)],
            ));
            assert(strs_view(out_pre) + seq![spec_render_toks(cur)] =~= strs_view(out@));
        }
    } else {
        proof {
            assert(cur.len() == 0);
            assert(spec_parse_path_list(s@, j as int, cur) == Ok::<Seq<Seq<char>>, ()>(
                Seq::empty(),
            ));
            assert(strs_view(out@) + Seq::<Seq<char>>::empty() =~= strs_view(out@));
        }
    }
    Ok(out)
}

/// Parses the body of one tag tuple.
fn parse_tag_kvs(s: &Vec<AttrTok>) -> (r: Result<TagDef, SyntaxError>)
    ensures
        match r {
            Ok(t) => spec_parse_tag_kvs(s@, 0, spec_tag_init()) == Ok::<TagDefV, ()>(t@),
            Err(_) => spec_parse_tag_kvs(s@, 0, spec_tag_init()) is Err,
        },
{
    let mut acc = TagDef { name: String::new(), description: String::new() };
    proof {
        assert(acc@ =~= spec_tag_init());
    }
    let mut j: usize = 0;
    while j < s.len()
        invariant
            0 <= j <= s@.len(),
            spec_parse_tag_kvs(s@, j as int, acc@) == spec_parse_tag_kvs(s@, 0, spec_tag_init()),
        decreases s@.len() - j,
    {
        if s.len() - j < 3 {
            return Err(SyntaxError);
        }
        let key = match &s[j] {
            AttrTok::Ident(k) => k,
            _ => {
                return Err(SyntaxError);
            },
        };
        match &s[j + 1] {
            AttrTok::Eq => {},
            _ => {
                return Err(SyntaxError);
            },
        }
        let v = match &s[j + 2] {
            AttrTok::StrLit(v) => v.clone(),
            _ => {
                return Err(SyntaxError);
            },
        };
        if str_eq(key.as_str(), "name") {
            acc.name = v;
        } else if str_eq(key.as_str(), "description") {
            acc.description = v;
        }
        if j + 3 >= s.len() {
            return Ok(acc);
        }
        match &s[j + 3] {
            AttrTok::Comma => {},
            _ => {
                return Err(SyntaxError);
            },
        }
        j = j + 4;
    }
    Ok(acc)
}

/// Parses the body of the `tags = [...]` directive.
fn parse_tags(s: &Vec<AttrTok>) -> (r: Result<Vec<TagDef>, SyntaxError>)
    ensures
        match r {
            Ok(v) => spec_parse_tags(s@, 0) == Ok::<Seq<TagDefV>, ()>(tags_view(v@)),
            Err(_) => spec_parse_tags(s@, 0) is Err,
        },
{
    let mut out: Vec<TagDef> = Vec::new();
    let mut j: usize = 0;
    proof {
        assert(tags_view(out@) =~= Seq::<TagDefV>::empty());
        if spec_parse_tags(s@, 0) is Ok {
            assert(Seq::<TagDefV>::empty() + spec_parse_tags(s@, 0)->Ok_0 =~= spec_parse_tags(
                s@,
                0,
            )->Ok_0);
        }
        assert(with_tags_prefix(tags_view(out@), spec_parse_tags(s@, 0)) == spec_parse_tags(
            s@,
            0,
        ));
    }
    while j < s.len()
        invariant
            0 <= j <= s@.len(),
            with_tags_prefix(tags_view(out@), spec_parse_tags(s@, j as int)) == spec_parse_tags(
                s@,
                0,
            ),
        decreases s@.len() - j,
    {
        let tag = match &s[j] {
            AttrTok::Group(d, c) => match d {
                crate::attr::Delim::Paren => match parse_tag_kvs(c) {
                    Ok(t) => t,
                    Err(e) => {
                        return Err(e);
                    },
                },
                _ => {
                    return Err(SyntaxError);
                },
            },
            _ => {
                return Err(SyntaxError);
            },
        };
        let ghost out_pre = out@;
        let ghost tagv = tag@;
        out.push(tag);
        proof {
            lemma_tags_view_push(out_pre, out@);
        }
        if j + 1 >= s.len() {
            proof {
                assert(spec_parse_tags(s@, j as int) == Ok::<Seq<TagDefV>, ()>(seq![tagv]));
                assert(tags_view(out_pre) + seq![tagv] =~= tags_view(out@));
            }
            return Ok(out);
        }
        match &s[j + 1] {
            AttrTok::Comma => {},
            _ => {
                return Err(SyntaxError);
            },
        }
        proof {
            let rest = spec_parse_tags(s@, j as int + 2);
            if rest is Ok {
                assert(spec_parse_tags(s@, j as int) == Ok::<Seq<TagDefV>, ()>(
                    seq![tagv] + rest->Ok_0,
                ));
                assert(tags_view(out_pre) + (seq![tagv] + rest->Ok_0) =~= tags_view(out@)
                    + rest->Ok_0);
            }
        }
        j = j + 2;
    }
    proof {
        assert(spec_parse_tags(s@, j as int) == Ok::<Seq<TagDefV>, ()>(Seq::empty()));
        assert(tags_view(out@) + Seq::<TagDefV>::empty() =~= tags_view(out@));
    }
    Ok(out)
}

/// Parses the body of the `info = (...)` directive.
fn parse_info_kvs(s: &Vec<AttrTok>) -> (r: Result<ApiInfo, SyntaxError>)
    ensures
        match r {
            Ok(i) => spec_parse_info_kvs(s@, 0, spec_info_init()) == Ok::<ApiInfoV, ()>(i@),
            Err(_) => spec_parse_info_kvs(s@, 0, spec_info_init()) is Err,
        },
{
    let mut acc = ApiInfo { title: String::new(), version: String::new(), description: None };
    proof {
        assert(acc@ =~= spec_info_init());
    }
    let mut j: usize = 0;
    while j < s.len()
        invariant
            0 <= j <= s@.len(),
            spec_parse_info_kvs(s@, j as int, acc@) == spec_parse_info_kvs(
                s@,
                0,
                spec_info_init(),
            ),
        decreases s@.len() - j,
    {
        if s.len() - j < 3 {
            return Err(SyntaxError);
        }
        let key = match &s[j] {
            AttrTok::Ident(k) => k,
            _ => {
                return Err(SyntaxError);
            },
        };
        match &s[j + 1] {
            AttrTok::Eq => {},
            _ => {
                return Err(SyntaxError);
            },
        }
        let v = match &s[j + 2] {
            AttrTok::StrLit(v) => v.clone(),
            _ => {
                return Err(SyntaxError);
            },
        };
        if str_eq(key.as_str(), "title") {
            acc.title = v;
        } else if str_eq(key.as_str(), "version") {
            acc.version = v;
        } else if str_eq(key.as_str(), "description") {
            acc.description = Some(v);
        }
        if j + 3 >= s.len() {
            return Ok(acc);
        }
        match &s[j + 3] {
            AttrTok::Comma => {},
            _ => {
                return Err(SyntaxError);
            },
        }
        j = j + 4;
    }
    Ok(acc)
}

impl OpenApiForArgs {
    /// Parses the arguments of a documentation request: `key = [...]` or
    /// `key = (...)` clauses, each optionally followed by a comma. Fails
    /// with a syntax error exactly when a clause is malformed or its key is
    /// unknown.
    pub fn parse(tokens: &Vec<AttrTok>) -> (r: Result<OpenApiForArgs, SyntaxError>)
        ensures
            match r {
                Ok(a) => spec_parse_openapi_args(tokens@, 0, spec_openapi_args_init())
                    == Ok::<OpenApiForArgsV, ()>(a@),
                Err(_) => spec_parse_openapi_args(tokens@, 0, spec_openapi_args_init()) is Err,
            },
    {
        let mut acc = OpenApiForArgs {
            controllers: Vec::new(),
            schemas: Vec::new(),
            tags: Vec::new(),
            info: None,
        };
        proof {
            assert(strs_view(acc.controllers@) =~= Seq::<Seq<char>>::empty());
            assert(strs_view(acc.schemas@) =~= Seq::<Seq<char>>::empty());
            assert(tags_view(acc.tags@) =~= Seq::<TagDefV>::empty());
            assert(acc@ =~= spec_openapi_args_init());
        }
        let mut j: usize = 0;
        let n = tokens.len();
        while j < n
            invariant
                0 <= j <= n,
                n == tokens@.len(),
                spec_parse_openapi_args(tokens@, j as int, acc@) == spec_parse_openapi_args(
                    tokens@,
                    0,
                    spec_openapi_args_init(),
                ),
            decreases n - j,
        {
            if n - j < 3 {
                return Err(SyntaxError);
            }
            let key = match &tokens[j] {
                AttrTok::Ident(k) => k,
                _ => {
                    return Err(SyntaxError);
                },
            };
            match &tokens[j + 1] {
                AttrTok::Eq => {},
                _ => {
                    return Err(SyntaxError);
                },
            }
            let group: (&crate::attr::Delim, &Vec<AttrTok>) = match &tokens[j + 2] {
                AttrTok::Group(d, c) => (d, c),
                _ => {
                    return Err(SyntaxError);
                },
            };
            if str_eq(key.as_str(), "controllers") {
                match group.0 {
                    crate::attr::Delim::Bracket => {},
                    _ => {
                        return Err(SyntaxError);
                    },
                }
                match parse_path_list(group.1) {
                    Ok(ps) => {
                        acc.controllers = ps;
                    },
                    Err(e) => {
                        return Err(e);
                    },
                }
            } else if str_eq(key.as_str(), "schemas") {
                match group.0 {
                    crate::attr::Delim::Bracket => {},
                    _ => {
                        return Err(SyntaxError);
                    },
                }
                match parse_path_list(group.1) {
                    Ok(ps) => {
                        acc.schemas = ps;
                    },
                    Err(e) => {
                        return Err(e);
                    },
                }
            } else if str_eq(key.as_str(), "tags") {
                match group.0 {
                    crate::attr::Delim::Bracket => {},
                    _ => {
                        return Err(SyntaxError);
                    },
                }
                match parse_tags(group.1) {
                    Ok(ts) => {
                        acc.tags = ts;
                    },
                    Err(e) => {
                        return Err(e);
                    },
                }
            } else if str_eq(key.as_str(), "info") {
                match group.0 {
                    crate::attr::Delim::Paren => {},
                    _ => {
                        return Err(SyntaxError);
                    },
                }
                match parse_info_kvs(group.1) {
                    Ok(inf) => {
                        acc.info = Some(inf);
                    },
                    Err(e) => {
                        return Err(e);
                    },
                }
            } else {
                return Err(SyntaxError);
            }
            if j + 3 >= n {
                j = j + 3;
            } else {
                let next_comma = match &tokens[j + 3] {
                    AttrTok::Comma => true,
                    _ => false,
                };
                if next_comma {
                    j = j + 4;
                } else {
                    j = j + 3;
                }
            }
        }
        Ok(acc)
    }
}

} // verus!
