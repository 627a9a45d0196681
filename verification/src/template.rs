//! Destination computation: one source path, its capture groups, its
//! sequence index and an optional metadata lookup, rendered through the
//! destination template.
//!
//! The template engine is a boundary: what it renders is named, as a
//! function of the template text and the context values alone. The
//! engine runs in strict mode with three text-case filters beside its
//! built-ins — `uppercase`, `lowercase` and `titlecase` — registered
//! at the boundary, since they belong to the template grammar, not to
//! this crate's logic. What
//! this module verifies is the context itself — which placeholder
//! carries which value — and that the computed destination is exactly
//! the named rendering of that context.

use vstd::prelude::*;

use crate::logfmt::chars_to_string;
use crate::pattern::CompiledPattern;
use crate::pattern::re_captures;

verus! {

/// Declares `serde_json::Value`, the engine's context value tree.
#[verifier::external_type_specification]
#[verifier::external_body]
pub struct ExJsonValue(serde_json::Value);

/// One value a placeholder can carry.
pub enum CtxVal {
    /// A text value: a capture group, or the source path itself.
    Str(String),
    /// A number: the record's sequence index.
    Num(usize),
    /// The metadata block read from the source file: tag and display
    /// text pairs.
    MetaMap(Vec<(String, String)>),
    /// An absent value: the lookup found no parseable metadata block.
    Absent,
}

/// The mathematical model of a placeholder value.
pub ghost enum CtxValModel {
    Str(Seq<char>),
    Num(int),
    MetaMap(Seq<(Seq<char>, Seq<char>)>),
    Absent,
}

impl View for CtxVal {
    type V = CtxValModel;

    open spec fn view(&self) -> CtxValModel {
        match self {
            CtxVal::Str(s) => CtxValModel::Str(s@),
            CtxVal::Num(n) => CtxValModel::Num(*n as int),
            CtxVal::MetaMap(m) => CtxValModel::MetaMap(
                m@.map(|i: int, p: (String, String)| (p.0@, p.1@)),
            ),
            CtxVal::Absent => CtxValModel::Absent,
        }
    }
}

/// The model of a whole context: named placeholders in order. A later
/// entry with the same name shadows an earlier one.
pub open spec fn ctx_model(v: Seq<(String, CtxVal)>) -> Seq<(Seq<char>, CtxValModel)> {
    v.map(|i: int, p: (String, CtxVal)| (p.0@, p.1@))
}

/// Whether the template text compiles.
pub uninterp spec fn tpl_compiles(tpl: Seq<char>) -> bool;

/// What the engine renders for a template and a context — or nothing,
/// when the template references a placeholder the context does not
/// hold.
pub uninterp spec fn render_of(tpl: Seq<char>, ctx: Seq<(Seq<char>, CtxValModel)>) -> Option<
    Seq<char>,
>;

#[verifier::external_type_specification]
#[verifier::external_body]
pub struct ExHandlebars<'reg>(handlebars::Handlebars<'reg>);

/// Relies on `handlebars::Handlebars::register_template_string`:
/// whether a template compiles is a function of its text alone.
#[verifier::external_body]
pub fn template_compiles(tpl: &str) -> (r: bool)
    ensures
        r == tpl_compiles(tpl@),
{
    handlebars::Handlebars::new().register_template_string("t", tpl).is_ok()
}

/// Relies on `handlebars::Handlebars::register_helper` and
/// `str::to_uppercase`: adds the `uppercase` text-case filter.
#[verifier::external_body]
fn register_uppercase(hb: &mut handlebars::Handlebars) {
    hb.register_helper("uppercase", Box::new(
        |h: &handlebars::Helper, _: &handlebars::Handlebars, _: &handlebars::Context,
            _: &mut handlebars::RenderContext, out: &mut dyn handlebars::Output|
            -> handlebars::HelperResult {
            let p = h.param(0).and_then(|v| v.value().as_str()).ok_or(
                handlebars::RenderErrorReason::ParamTypeMismatchForName(
                    "uppercase", "0".to_owned(), "string".to_owned()))?;
            out.write(&p.to_uppercase())?;
            Ok(())
        },
    ));
}

/// Relies on `handlebars::Handlebars::register_helper` and
/// `str::to_lowercase`: adds the `lowercase` text-case filter.
#[verifier::external_body]
fn register_lowercase(hb: &mut handlebars::Handlebars) {
    hb.register_helper("lowercase", Box::new(
        |h: &handlebars::Helper, _: &handlebars::Handlebars, _: &handlebars::Context,
            _: &mut handlebars::RenderContext, out: &mut dyn handlebars::Output|
            -> handlebars::HelperResult {
            let p = h.param(0).and_then(|v| v.value().as_str()).ok_or(
                handlebars::RenderErrorReason::ParamTypeMismatchForName(
                    "lowercase", "0".to_owned(), "string".to_owned()))?;
            out.write(&p.to_lowercase())?;
            Ok(())
        },
    ));
}

/// Relies on `handlebars::Handlebars::register_helper` and heck's
/// `to_title_case`: adds the `titlecase` text-case filter.
#[verifier::external_body]
fn register_titlecase(hb: &mut handlebars::Handlebars) {
    hb.register_helper("titlecase", Box::new(
        |h: &handlebars::Helper, _: &handlebars::Handlebars, _: &handlebars::Context,
            _: &mut handlebars::RenderContext, out: &mut dyn handlebars::Output|
            -> handlebars::HelperResult {
            let p = h.param(0).and_then(|v| v.value().as_str()).ok_or(
                handlebars::RenderErrorReason::ParamTypeMismatchForName(
                    "titlecase", "0".to_owned(), "string".to_owned()))?;
            out.write(&heck::ToTitleCase::to_title_case(p))?;
            Ok(())
        },
    ));
}

/// Relies on `handlebars::Handlebars::new` and `set_strict_mode`: the
/// one engine configuration this crate ever renders with — strict
/// mode, the engine's built-in helpers, and the three text-case
/// filters `uppercase`, `lowercase` and `titlecase`. Because every
/// render uses this fixed configuration, what it renders stays a
/// function of the template text and the context values.
#[verifier::external_body]
fn engine() -> handlebars::Handlebars<'static> {
    let mut hb = handlebars::Handlebars::new();
    hb.set_strict_mode(true);
    register_uppercase(&mut hb);
    register_lowercase(&mut hb);
    register_titlecase(&mut hb);
    hb
}

/// Relies on `serde_json::Value` construction: the context pairs are
/// converted, one for one, into the engine's value tree.
#[verifier::external_body]
fn ctx_to_json(ctx: &Vec<(String, CtxVal)>) -> serde_json::Value {
    let mut m = serde_json::Map::new();
    for (k, v) in ctx.iter() {
        let jv = match v {
            CtxVal::Str(s) => serde_json::Value::String(s.clone()),
            CtxVal::Num(n) => serde_json::Value::from(*n as u64),
            CtxVal::MetaMap(kvs) => serde_json::Value::Object(
                kvs.iter().map(|(t, d)| (t.clone(), serde_json::Value::String(d.clone()))).collect(),
            ),
            CtxVal::Absent => serde_json::Value::Null,
        };
        m.insert(k.clone(), jv);
    }
    serde_json::Value::Object(m)
}

/// Relies on `handlebars::Handlebars::render`, over the fixed engine
/// configuration of [`engine`]: the rendered text, or the failure, is
/// a function of the template text and the context values alone. A
/// template that does not compile renders nothing.
#[verifier::external_body]
fn hb_render(tpl: &str, ctx: &Vec<(String, CtxVal)>) -> (r: Option<String>)
    ensures
        !tpl_compiles(tpl@) ==> r is None,
        tpl_compiles(tpl@) ==> match r {
            Option::Some(s) => render_of(tpl@, ctx_model(ctx@)) == Option::Some(s@),
            Option::None => render_of(tpl@, ctx_model(ctx@)) is None,
        },
{
    let mut hb = engine();
    if hb.register_template_string("t", tpl).is_err() {
        return None;
    }
    hb.render("t", &ctx_to_json(ctx)).ok()
}

/// The decimal digit characters of `n`.
pub open spec fn dec_digit(d: nat) -> char {
    if d == 0 {
        '0'
    } else if d == 1 {
        '1'
    } else if d == 2 {
        '2'
    } else if d == 3 {
        '3'
    } else if d == 4 {
        '4'
    } else if d == 5 {
        '5'
    } else if d == 6 {
        '6'
    } else if d == 7 {
        '7'
    } else if d == 8 {
        '8'
    } else {
        '9'
    }
}

/// The decimal writing of `n`, most significant digit first.
pub open spec fn dec_str(n: nat) -> Seq<char>
    decreases n,
{
    if n < 10 {
        seq![dec_digit(n)]
    } else {
        dec_str(n / 10) + seq![dec_digit(n % 10)]
    }
}

fn push_digits(n: usize, out: &mut Vec<char>)
    ensures
        final(out)@ == old(out)@ + dec_str(n as nat),
    decreases n,
{
    if n >= 10 {
        push_digits(n / 10, out);
    }
    let d = n % 10;
    let c: char = if d == 0 {
        '0'
    } else if d == 1 {
        '1'
    } else if d == 2 {
        '2'
    } else if d == 3 {
        '3'
    } else if d == 4 {
        '4'
    } else if d == 5 {
        '5'
    } else if d == 6 {
        '6'
    } else if d == 7 {
        '7'
    } else if d == 8 {
        '8'
    } else {
        '9'
    };
    out.push(c);
    proof {
        assert(c == dec_digit(n as nat % 10));
        if n < 10 {
            assert(n as nat % 10 == n as nat);
            assert(out@ =~= old(out)@ + dec_str(n as nat));
        } else {
            assert(out@ =~= old(out)@ + (dec_str(n as nat / 10) + seq![
                dec_digit(n as nat % 10),
            ]));
        }
    }
}

/// The placeholder name for capture group `j`: an underscore followed
/// by the group's position in decimal.
pub open spec fn group_key(j: nat) -> Seq<char> {
    seq!['_'] + dec_str(j)
}

fn group_key_exec(j: usize) -> (r: String)
    ensures
        r@ == group_key(j as nat),
{
    let mut v: Vec<char> = Vec::new();
    v.push('_');
    push_digits(j, &mut v);
    proof {
        assert(v@ =~= group_key(j as nat));
    }
    chars_to_string(&v)
}

/// The context entries one match contributes, from group `from` on: a
/// placeholder per participating group, by position.
pub open spec fn match_entries(groups: Seq<Option<Seq<char>>>, from: nat) -> Seq<
    (Seq<char>, CtxValModel),
>
    decreases groups.len() - from,
{
    if from >= groups.len() {
        Seq::empty()
    } else {
        (match groups[from as int] {
            Option::Some(t) => seq![(group_key(from), CtxValModel::Str(t))],
            Option::None => Seq::empty(),
        }) + match_entries(groups, from + 1)
    }
}

/// The context entries all matches contribute, in match order; a later
/// match's groups shadow an earlier match's.
pub open spec fn all_match_entries(caps: Seq<Seq<Option<Seq<char>>>>, from: nat) -> Seq<
    (Seq<char>, CtxValModel),
>
    decreases caps.len() - from,
{
    if from >= caps.len() {
        Seq::empty()
    } else {
        match_entries(caps[from as int], 0) + all_match_entries(caps, from + 1)
    }
}

/// The model of an optional metadata block.
pub open spec fn meta_model(m: Option<Vec<(String, String)>>) -> Option<
    Seq<(Seq<char>, Seq<char>)>,
> {
    match m {
        Option::Some(v) => Option::Some(v@.map(|i: int, p: (String, String)| (p.0@, p.1@))),
        Option::None => Option::None,
    }
}

/// The full render context for one source path: the capture groups of
/// every match, then the source path itself, the sequence index, and
/// the metadata block or an absent value in its place.
pub open spec fn context_model(
    pat: Seq<char>,
    src: Seq<char>,
    n: nat,
    meta: Option<Seq<(Seq<char>, Seq<char>)>>,
) -> Seq<(Seq<char>, CtxValModel)> {
    all_match_entries(re_captures(pat, src), 0) + seq![
        ("__self"@, CtxValModel::Str(src)),
        ("__n"@, CtxValModel::Num(n as int)),
        ("__exif"@, match meta {
            Option::Some(m) => CtxValModel::MetaMap(m),
            Option::None => CtxValModel::Absent,
        }),
    ]
}

/// The destination the template computes for one source path, or
/// nothing when rendering fails for that path.
pub open spec fn transform_model(
    pat: Seq<char>,
    tpl: Seq<char>,
    src: Seq<char>,
    n: nat,
    meta: Option<Seq<(Seq<char>, Seq<char>)>>,
) -> Option<Seq<char>> {
    render_of(tpl, context_model(pat, src, n, meta))
}

fn clone_pairs(v: &Vec<(String, String)>) -> (r: Vec<(String, String)>)
    ensures
        r@.map(|i: int, p: (String, String)| (p.0@, p.1@)) == v@.map(
            |i: int, p: (String, String)| (p.0@, p.1@),
        ),
{
    let n = v.len();
    let mut r: Vec<(String, String)> = Vec::new();
    let mut i: usize = 0;
    while i < n
        invariant
            i <= n,
            n == v@.len(),
            r@.len() == i,
            forall|j: int| 0 <= j < i ==> r@[j].0@ == v@[j].0@ && r@[j].1@ == v@[j].1@,
        decreases n - i,
    {
        let p = &v[i];
        r.push((p.0.clone(), p.1.clone()));
        i = i + 1;
    }
    proof {
        assert(r@.map(|i: int, p: (String, String)| (p.0@, p.1@)) =~= v@.map(
            |i: int, p: (String, String)| (p.0@, p.1@),
        ));
    }
    r
}

/// Compute the destination for `src` at sequence index `number`: apply
/// the pattern for capture groups, build the render context — one
/// placeholder per participating group, the path, the index, and the
/// metadata block or an absent value — and render the template over
/// it. `None` when the template does not compile or references a
/// placeholder the context does not hold.
pub fn transform_name(
    src: &String,
    pattern: &CompiledPattern,
    tpl: &str,
    number: usize,
    meta: &Option<Vec<(String, String)>>,
) -> (r: Option<String>)
    ensures
        !tpl_compiles(tpl@) ==> r is None,
        tpl_compiles(tpl@) ==> match r {
            Option::Some(d) => transform_model(
                pattern.pat(),
                tpl@,
                src@,
                number as nat,
                meta_model(*meta),
            ) == Option::Some(d@),
            Option::None => transform_model(
                pattern.pat(),
                tpl@,
                src@,
                number as nat,
                meta_model(*meta),
            ) is None,
        },
{
    let caps = pattern.captures_list(src.as_str());
    let ghost capsv = caps.deep_view();
    let mut ctx: Vec<(String, CtxVal)> = Vec::new();
    let mut mi: usize = 0;
    let caps_n = caps.len();
    while mi < caps_n
        invariant
            mi <= caps_n,
            caps_n == caps@.len(),
            capsv == caps.deep_view(),
            capsv.len() == caps@.len(),
            ctx_model(ctx@) + all_match_entries(capsv, mi as nat) == all_match_entries(capsv, 0),
        decreases caps_n - mi,
    {
        let groups = &caps[mi];
        let groups_n = groups.len();
        proof {
            assert(ctx_model(ctx@) + match_entries(capsv[mi as int], 0) + all_match_entries(
                capsv,
                mi as nat + 1,
            ) =~= ctx_model(ctx@) + all_match_entries(capsv, mi as nat));
        }
        let mut gi: usize = 0;
        while gi < groups_n
            invariant
                gi <= groups_n,
                mi < caps_n,
                caps_n == caps@.len(),
                capsv == caps.deep_view(),
                capsv.len() == caps@.len(),
                groups_n == caps@[mi as int]@.len(),
                capsv[mi as int].len() == groups_n,
                groups == caps@[mi as int],
                ctx_model(ctx@) + match_entries(capsv[mi as int], gi as nat) + all_match_entries(
                    capsv,
                    mi as nat + 1,
                ) == all_match_entries(capsv, 0),
            decreases groups_n - gi,
        {
            let ghost ctx_before = ctx@;
            match &groups[gi] {
                Option::Some(text) => {
                    let key = group_key_exec(gi);
                    ctx.push((key, CtxVal::Str(text.clone())));
                    proof {
                        assert(capsv[mi as int][gi as int] == Option::Some(text@));
                        assert(ctx_model(ctx@) =~= ctx_model(ctx_before) + seq![
                            (group_key(gi as nat), CtxValModel::Str(text@)),
                        ]);
                    }
                },
                Option::None => {
                    proof {
                        assert(capsv[mi as int][gi as int] is None);
                    }
                },
            }
            proof {
                assert(ctx_model(ctx@) + match_entries(capsv[mi as int], gi as nat + 1)
                    =~= ctx_model(ctx_before) + match_entries(capsv[mi as int], gi as nat));
            }
            gi = gi + 1;
        }
        proof {
            assert(match_entries(capsv[mi as int], gi as nat) =~= Seq::<
                (Seq<char>, CtxValModel),
            >::empty());
            assert(ctx_model(ctx@) + all_match_entries(capsv, mi as nat + 1)
                =~= ctx_model(ctx@) + match_entries(capsv[mi as int], gi as nat)
                + all_match_entries(capsv, mi as nat + 1));
        }
        mi = mi + 1;
    }
    proof {
        assert(all_match_entries(capsv, mi as nat) =~= Seq::<(Seq<char>, CtxValModel)>::empty());
    }
    let ghost ctx_groups = ctx@;
    ctx.push(("__self".to_owned(), CtxVal::Str(src.clone())));
    ctx.push(("__n".to_owned(), CtxVal::Num(number)));
    match meta {
        Option::Some(pairs) => {
            let copied = clone_pairs(pairs);
            ctx.push(("__exif".to_owned(), CtxVal::MetaMap(copied)));
        },
        Option::None => {
            ctx.push(("__exif".to_owned(), CtxVal::Absent));
        },
    }
    proof {
        assert(ctx_model(ctx@) =~= context_model(
            pattern.pat(),
            src@,
            number as nat,
            meta_model(*meta),
        ));
    }
    hb_render(tpl, &ctx)
}

/// Law: destination computation is deterministic. For a fixed pattern,
/// template, source path, sequence index and metadata block, any two
/// computed destinations agree — including whether rendering fails.
pub proof fn lemma_transform_deterministic(
    pat: Seq<char>,
    tpl: Seq<char>,
    src: Seq<char>,
    n: nat,
    meta: Option<Seq<(Seq<char>, Seq<char>)>>,
    d1: Option<Seq<char>>,
    d2: Option<Seq<char>>,
)
    requires
        d1 == transform_model(pat, tpl, src, n, meta),
        d2 == transform_model(pat, tpl, src, n, meta),
    ensures
        d1 == d2,
{
}

} // verus!
