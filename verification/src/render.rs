//! Plain-text assembly of the report.  Everything here is deterministic
//! text built from the resolved data; terminal coloring is a presentation
//! concern of the caller and never changes the text.

use vstd::prelude::*;
use vstd::string::{StrSliceExecFns, StringExecFns};

use crate::deps::{
    classify_deps, lemma_classification_agrees, lemma_kind_positions_increasing,
    positions_of_kind, spec_dep_statuses, spec_kind_positions,
};
use crate::features::{
    ActivationToken, FeatureGraph, FeatureStatus, RawFeature, count_disabled, count_disabled_exec,
    dep_events, lemma_count_disabled_le_len, name_views, resolve_features, spec_feature_statuses,
    spec_names_of,
};
use crate::package::{DepKind, Dependency, ResolvedPackage, Summary};
use crate::sorting::{
    DisplayEntry, entry_key, lemma_sorted_permutation_unique, sort_entries, sorted_entries,
};
use crate::version::{Version, same_version, spec_version_le, spec_version_lt, version_le};

verus! {

broadcast use vstd::seq_lib::group_to_multiset_ensures;

/// How much the report shows; mirrors the shell's verbosity setting.
#[derive(Clone, Copy, Debug, PartialEq, Eq, Structural)]
pub enum Verbosity {
    Quiet,
    Normal,
    Verbose,
}

pub open spec fn dec_digit_char(d: int) -> char {
    if d == 0 {
        '0'
    } else if d == 1 {
        '1'
    } else if d == 2 {
        '2'
    } else if d == 3 {
        '3'
    } else if d == 4 {
        '4'
    } else if d == 5 {
        '5'
    } else if d == 6 {
        '6'
    } else if d == 7 {
        '7'
    } else if d == 8 {
        '8'
    } else {
        '9'
    }
}

/// The decimal digits of a number, most significant first.
pub open spec fn dec_chars(n: int) -> Seq<char>
    decreases n,
{
    if n < 10 {
        seq![dec_digit_char(n)]
    } else {
        dec_chars(n / 10).push(dec_digit_char(n % 10))
    }
}

fn digit_str(d: u64) -> (r: &'static str)
    requires
        d < 10,
    ensures
        r@ == seq![dec_digit_char(d as int)],
{
    proof {
        reveal_strlit("0");
        reveal_strlit("1");
        reveal_strlit("2");
        reveal_strlit("3");
        reveal_strlit("4");
        reveal_strlit("5");
        reveal_strlit("6");
        reveal_strlit("7");
        reveal_strlit("8");
        reveal_strlit("9");
    }
    let r = match d {
        0 => "0",
        1 => "1",
        2 => "2",
        3 => "3",
        4 => "4",
        5 => "5",
        6 => "6",
        7 => "7",
        8 => "8",
        _ => "9",
    };
    proof {
        assert(r@ =~= seq![dec_digit_char(d as int)]);
    }
    r
}

/// Decimal text of a number.
pub fn u64_text(n: u64) -> (r: String)
    ensures
        r@ == dec_chars(n as int),
    decreases n,
{
    if n < 10 {
        String::from_str(digit_str(n))
    } else {
        let mut s = u64_text(n / 10);
        s.append(digit_str(n % 10));
        proof {
            assert(s@ =~= dec_chars(n as int / 10).push(dec_digit_char(n as int % 10)));
        }
        s
    }
}

/// The display text of a version: the dotted triple, and the pre-release
/// tag after a dash when there is one.
pub open spec fn spec_version_chars(v: Version) -> Seq<char> {
    dec_chars(v.major as int) + "."@ + dec_chars(v.minor as int) + "."@ + dec_chars(v.patch as int)
        + (if v.pre@.len() > 0 {
        "-"@ + v.pre@
    } else {
        Seq::<char>::empty()
    })
}

pub fn version_text(v: &Version) -> (r: String)
    ensures
        r@ == spec_version_chars(*v),
{
    let mut s = u64_text(v.major);
    s.append(".");
    let minor = u64_text(v.minor);
    s.append(minor.as_str());
    s.append(".");
    let patch = u64_text(v.patch);
    s.append(patch.as_str());
    if !v.is_release() {
        s.append("-");
        s.append(v.pre.as_str());
    }
    proof {
        assert(s@ =~= spec_version_chars(*v));
    }
    s
}

/// The display form of a version requirement: a single leading caret of
/// the default comparator form is stripped; anything else stands as
/// rendered.
pub open spec fn spec_pretty_req(text: Seq<char>, single_comparator: bool) -> Seq<char> {
    if single_comparator && text.len() > 0 && text[0] == '^' {
        text.drop_first()
    } else {
        text
    }
}

pub fn pretty_req(text: &String, single_comparator: bool) -> (r: String)
    ensures
        r@ == spec_pretty_req(text@, single_comparator),
{
    let len = text.as_str().unicode_len();
    if single_comparator && len > 0 {
        let c = text.as_str().get_char(0);
        if c == '^' {
            let stripped = text.as_str().substring_char(1, len);
            proof {
                assert(text@.subrange(1, len as int) =~= text@.drop_first());
            }
            return String::from_str(stripped);
        }
    }
    text.clone()
}

/// Texts joined by a separator.
pub open spec fn spec_join(items: Seq<Seq<char>>, sep: Seq<char>) -> Seq<char>
    decreases items.len(),
{
    if items.len() == 0 {
        Seq::empty()
    } else if items.len() == 1 {
        items[0]
    } else {
        spec_join(items.drop_last(), sep) + sep + items.last()
    }
}

/// `k` spaces.
pub open spec fn spec_spaces(k: int) -> Seq<char>
    decreases k,
{
    if k <= 0 {
        Seq::empty()
    } else {
        spec_spaces(k - 1).push(' ')
    }
}

/// A name padded with spaces to the given width; a longer name stands as
/// it is.
pub open spec fn spec_padded(name: Seq<char>, width: int) -> Seq<char> {
    name + spec_spaces(width - name.len())
}

fn push_spaces(s: &mut String, k: usize)
    ensures
        final(s)@ == old(s)@ + spec_spaces(k as int),
{
    let mut t: usize = 0;
    while t < k
        invariant
            t <= k,
            s@ == old(s)@ + spec_spaces(t as int),
        decreases k - t,
    {
        s.append(" ");
        proof {
            reveal_strlit(" ");
            assert(" "@ =~= seq![' ']);
            assert(old(s)@ + spec_spaces(t + 1) =~= (old(s)@ + spec_spaces(t as int)).push(' '));
        }
        t += 1;
    }
}

/// The display text of one activation token, as a manifest writes it.
pub open spec fn spec_token_chars(t: ActivationToken) -> Seq<char> {
    match t {
        ActivationToken::Feature { name } => name@,
        ActivationToken::Dependency { dep } => "dep:"@ + dep@,
        ActivationToken::DepFeature { dep, feature, weak } => dep@ + (if weak {
            "?"@
        } else {
            Seq::<char>::empty()
        }) + "/"@ + feature@,
    }
}

pub fn token_text(t: &ActivationToken) -> (r: String)
    ensures
        r@ == spec_token_chars(*t),
{
    match t {
        ActivationToken::Feature { name } => name.clone(),
        ActivationToken::Dependency { dep } => {
            let mut s = String::from_str("dep:");
            s.append(dep.as_str());
            proof {
                assert(s@ =~= spec_token_chars(*t));
            }
            s
        },
        ActivationToken::DepFeature { dep, feature, weak } => {
            let mut s = dep.clone();
            if *weak {
                s.append("?");
            }
            s.append("/");
            s.append(feature.as_str());
            proof {
                assert(s@ =~= spec_token_chars(*t));
            }
            s
        },
    }
}

/// The two-column activation marker: a plus for what the user activated,
/// blank alignment otherwise.
pub open spec fn spec_marker(rank: u8) -> Seq<char> {
    if rank == 0 {
        " +"@
    } else {
        "  "@
    }
}

fn marker_str(rank: u8) -> (r: &'static str)
    ensures
        r@ == spec_marker(rank),
{
    if rank == 0 {
        " +"
    } else {
        "  "
    }
}

/// The texts of an activation list, in order.
pub open spec fn spec_token_texts(tokens: Seq<ActivationToken>) -> Seq<Seq<char>> {
    tokens.map_values(|t: ActivationToken| spec_token_chars(t))
}

/// Joins the given texts with a separator.
pub fn join_texts(items: &Vec<String>, sep: &str) -> (r: String)
    ensures
        r@ == spec_join(items@.map_values(|s: String| s@), sep@),
{
    let ghost views = items@.map_values(|s: String| s@);
    let mut s = String::new();
    let n = items.len();
    let mut i: usize = 0;
    while i < n
        invariant
            n == items@.len(),
            i <= n,
            s@ == spec_join(items@.map_values(|x: String| x@).take(i as int), sep@),
        decreases n - i,
    {
        proof {
            let vs = items@.map_values(|x: String| x@);
            assert(vs.take(i + 1).drop_last() =~= vs.take(i as int));
            assert(vs.take(i + 1).last() == vs[i as int]);
        }
        if i > 0 {
            s.append(sep);
        }
        s.append(items[i].as_str());
        proof {
            let vs = items@.map_values(|x: String| x@);
            if i == 0 {
                assert(Seq::<char>::empty() + vs[0] =~= vs[0]);
                assert(s@ =~= spec_join(vs.take(1), sep@));
            } else {
                assert(s@ =~= spec_join(vs.take(i + 1), sep@));
            }
        }
        i += 1;
    }
    proof {
        assert(items@.map_values(|x: String| x@).take(n as int) =~= items@.map_values(
            |x: String| x@,
        ));
    }
    s
}

/// The display line of one dependency: the activation marker, the name,
/// and either the version requirement (registry dependencies) or the
/// source location (path and git dependencies).
pub open spec fn spec_dep_line(d: Dependency, rank: u8) -> Seq<char> {
    spec_marker(rank) + d.name@ + (if d.source.spec_is_registry() {
        "@"@ + spec_pretty_req(d.req_text@, d.req_single_comparator)
    } else {
        " ("@ + d.source.locator@ + ")"@
    })
}

pub fn dep_line(d: &Dependency, rank: u8) -> (r: String)
    ensures
        r@ == spec_dep_line(*d, rank),
{
    let mut s = String::from_str(marker_str(rank));
    s.append(d.name.as_str());
    if d.source.is_registry() {
        s.append("@");
        let req = pretty_req(&d.req_text, d.req_single_comparator);
        s.append(req.as_str());
    } else {
        s.append(" (");
        s.append(d.source.locator.as_str());
        s.append(")");
    }
    proof {
        assert(s@ =~= spec_dep_line(*d, rank));
    }
    s
}

/// The dependency lines for a display order.
pub open spec fn spec_dep_lines(deps: Seq<Dependency>, entries: Seq<DisplayEntry>) -> Seq<
    Seq<char>,
> {
    Seq::new(entries.len(), |t: int| spec_dep_line(deps[entries[t].idx as int], entries[t].rank))
}

/// A dependency block: the heading, then one line per entry; an empty
/// block disappears entirely.
pub open spec fn spec_deps_block(
    label: Seq<char>,
    deps: Seq<Dependency>,
    entries: Seq<DisplayEntry>,
) -> Seq<Seq<char>> {
    if entries.len() == 0 {
        Seq::empty()
    } else {
        seq![label] + spec_dep_lines(deps, entries)
    }
}

/// The dependency sections of the report: nothing below verbose output;
/// otherwise the normal block, then the build block.
pub open spec fn spec_deps_sections(
    deps: Seq<Dependency>,
    normal: Seq<DisplayEntry>,
    build: Seq<DisplayEntry>,
    verbosity: Verbosity,
) -> Seq<Seq<char>> {
    if verbosity != Verbosity::Verbose {
        Seq::empty()
    } else {
        spec_deps_block("dependencies:"@, deps, normal) + spec_deps_block(
            "build-dependencies:"@,
            deps,
            build,
        )
    }
}

fn dep_block(label: &str, deps: &Vec<Dependency>, entries: &Vec<DisplayEntry>) -> (r: Vec<String>)
    requires
        forall|t: int| 0 <= t < entries@.len() ==> (#[trigger] entries@[t]).idx < deps@.len(),
    ensures
        r@.map_values(|s: String| s@) == spec_deps_block(label@, deps@, entries@),
{
    let mut out: Vec<String> = Vec::new();
    let n = entries.len();
    if n == 0 {
        proof {
            assert(out@.map_values(|s: String| s@) =~= spec_deps_block(label@, deps@, entries@));
        }
        return out;
    }
    out.push(String::from_str(label));
    let mut t: usize = 0;
    while t < n
        invariant
            n == entries@.len(),
            t <= n,
            forall|q: int| 0 <= q < n ==> (#[trigger] entries@[q]).idx < deps@.len(),
            out@.len() == t + 1,
            out@[0]@ == label@,
            forall|q: int| 1 <= q < out@.len() ==> (#[trigger] out@[q])@ == spec_dep_lines(
                deps@,
                entries@,
            )[q - 1],
        decreases n - t,
    {
        let e = &entries[t];
        let line = dep_line(&deps[e.idx], e.rank);
        out.push(line);
        t += 1;
    }
    proof {
        assert(out@.map_values(|s: String| s@) =~= spec_deps_block(label@, deps@, entries@));
    }
    out
}

/// The largest declared feature-name length; zero means there is nothing
/// to show.
pub open spec fn spec_max_name_len(features: Seq<RawFeature>) -> int
    decreases features.len(),
{
    if features.len() == 0 {
        0
    } else {
        let rest = spec_max_name_len(features.drop_last());
        if features.last().name@.len() > rest {
            features.last().name@.len() as int
        } else {
            rest
        }
    }
}

fn max_name_len(features: &Vec<RawFeature>) -> (r: usize)
    ensures
        r == spec_max_name_len(features@),
{
    let n = features.len();
    let mut r: usize = 0;
    let mut i: usize = 0;
    while i < n
        invariant
            n == features@.len(),
            i <= n,
            r == spec_max_name_len(features@.take(i as int)),
        decreases n - i,
    {
        proof {
            assert(features@.take(i + 1).drop_last() =~= features@.take(i as int));
            assert(features@.take(i + 1).last() == features@[i as int]);
        }
        let len = features[i].name.as_str().unicode_len();
        if len > r {
            r = len;
        }
        i += 1;
    }
    proof {
        assert(features@.take(n as int) =~= features@);
    }
    r
}

/// The display line of one feature: the activation marker, the name
/// padded to the widest name, and the activation list as the manifest
/// writes it.
pub open spec fn spec_feature_line(f: RawFeature, rank: u8, width: int) -> Seq<char> {
    spec_marker(rank) + spec_padded(f.name@, width) + " = ["@ + spec_join(
        spec_token_texts(f.tokens@),
        ", "@,
    ) + "]"@
}

pub fn feature_line(f: &RawFeature, rank: u8, width: usize) -> (r: String)
    ensures
        r@ == spec_feature_line(*f, rank, width as int),
{
    let mut s = String::from_str(marker_str(rank));
    s.append(f.name.as_str());
    let name_len = f.name.as_str().unicode_len();
    if name_len < width {
        push_spaces(&mut s, width - name_len);
    } else {
        proof {
            assert(spec_spaces(width - f.name@.len()) =~= Seq::<char>::empty());
        }
    }
    s.append(" = [");
    let m = f.tokens.len();
    let mut texts: Vec<String> = Vec::new();
    let mut k: usize = 0;
    while k < m
        invariant
            m == f.tokens@.len(),
            k <= m,
            texts@.len() == k,
            forall|q: int| 0 <= q < k ==> (#[trigger] texts@[q])@ == spec_token_chars(
                f.tokens@[q],
            ),
        decreases m - k,
    {
        let tt = token_text(&f.tokens[k]);
        texts.push(tt);
        k += 1;
    }
    proof {
        assert(texts@.map_values(|x: String| x@) =~= spec_token_texts(f.tokens@));
    }
    let joined = join_texts(&texts, ", ");
    s.append(joined.as_str());
    s.append("]");
    proof {
        assert(s@ =~= spec_feature_line(*f, rank, width as int));
    }
    s
}

/// The feature lines of a display order, honoring the two show switches:
/// one for lines of activated features, one for lines of deactivated
/// ones.
pub open spec fn spec_feature_lines(
    features: Seq<RawFeature>,
    entries: Seq<DisplayEntry>,
    width: int,
    show_activated: bool,
    show_deactivated: bool,
) -> Seq<Seq<char>>
    decreases entries.len(),
{
    if entries.len() == 0 {
        Seq::empty()
    } else {
        let rest = spec_feature_lines(
            features,
            entries.drop_last(),
            width,
            show_activated,
            show_deactivated,
        );
        let e = entries.last();
        if (e.rank != 2 && show_activated) || (e.rank == 2 && show_deactivated) {
            rest.push(spec_feature_line(features[e.idx as int], e.rank, width))
        } else {
            rest
        }
    }
}

/// How many feature lines the report shows before it collapses a side of
/// the listing into a count.
pub const MAX_FEATURE_PRINTS: usize = 30;

/// The features section: nothing when no feature has a name to show;
/// otherwise the heading, the lines of the display order (a side with too
/// many lines is collapsed unless the output is verbose), and a count
/// line for each collapsed side.
pub open spec fn spec_features_section(
    features: Seq<RawFeature>,
    entries: Seq<DisplayEntry>,
    st: Seq<FeatureStatus>,
    verbosity: Verbosity,
) -> Seq<Seq<char>> {
    let width = spec_max_name_len(features);
    let deactivated = count_disabled(st) as int;
    let activated = st.len() - deactivated;
    let show_all = verbosity == Verbosity::Verbose;
    let show_activated = activated <= MAX_FEATURE_PRINTS || show_all;
    let show_deactivated = activated + deactivated <= MAX_FEATURE_PRINTS || show_all;
    if width == 0 {
        Seq::empty()
    } else {
        seq!["features:"@] + spec_feature_lines(
            features,
            entries,
            width,
            show_activated,
            show_deactivated,
        ) + (if !show_activated {
            seq!["  "@ + dec_chars(activated) + " activated features"@]
        } else {
            Seq::<Seq<char>>::empty()
        }) + (if !show_deactivated {
            seq!["  "@ + dec_chars(deactivated) + " deactivated features"@]
        } else {
            Seq::<Seq<char>>::empty()
        })
    }
}

/// Writes the features section for a display order of the declared
/// features.
pub fn pretty_features(
    features: &Vec<RawFeature>,
    entries: &Vec<DisplayEntry>,
    st: &Vec<FeatureStatus>,
    verbosity: Verbosity,
) -> (r: Vec<String>)
    requires
        forall|t: int| 0 <= t < entries@.len() ==> (#[trigger] entries@[t]).idx < features@.len(),
    ensures
        r@.map_values(|s: String| s@) == spec_features_section(
            features@,
            entries@,
            st@,
            verbosity,
        ),
{
    let width = max_name_len(features);
    let mut out: Vec<String> = Vec::new();
    if width == 0 {
        proof {
            assert(out@.map_values(|s: String| s@) =~= spec_features_section(
                features@,
                entries@,
                st@,
                verbosity,
            ));
        }
        return out;
    }
    proof {
        lemma_count_disabled_le_len(st@);
    }
    let deactivated = count_disabled_exec(st);
    let activated = st.len() - deactivated;
    let show_all = verbosity == Verbosity::Verbose;
    let show_activated = activated <= MAX_FEATURE_PRINTS || show_all;
    let show_deactivated = activated + deactivated <= MAX_FEATURE_PRINTS || show_all;
    out.push(String::from_str("features:"));
    let n = entries.len();
    let mut t: usize = 0;
    let ghost line_pool = spec_feature_lines(
        features@,
        entries@,
        width as int,
        show_activated,
        show_deactivated,
    );
    while t < n
        invariant
            n == entries@.len(),
            t <= n,
            width == spec_max_name_len(features@),
            forall|q: int| 0 <= q < n ==> (#[trigger] entries@[q]).idx < features@.len(),
            out@.len() == 1 + spec_feature_lines(
                features@,
                entries@.take(t as int),
                width as int,
                show_activated,
                show_deactivated,
            ).len(),
            out@[0]@ == "features:"@,
            forall|q: int| 1 <= q < out@.len() ==> (#[trigger] out@[q])@ == spec_feature_lines(
                features@,
                entries@.take(t as int),
                width as int,
                show_activated,
                show_deactivated,
            )[q - 1],
        decreases n - t,
    {
        proof {
            assert(entries@.take(t + 1).drop_last() =~= entries@.take(t as int));
            assert(entries@.take(t + 1).last() == entries@[t as int]);
        }
        let e = &entries[t];
        let shown = if e.rank != 2 {
            show_activated
        } else {
            show_deactivated
        };
        if shown {
            let line = feature_line(&features[e.idx], e.rank, width);
            out.push(line);
        }
        t += 1;
    }
    proof {
        assert(entries@.take(n as int) =~= entries@);
    }
    if !show_activated {
        let mut line = String::from_str("  ");
        let num = u64_text(activated as u64);
        line.append(num.as_str());
        line.append(" activated features");
        proof {
            assert(line@ =~= "  "@ + dec_chars(activated as int) + " activated features"@);
        }
        out.push(line);
    }
    if !show_deactivated {
        let mut line = String::from_str("  ");
        let num = u64_text(deactivated as u64);
        line.append(num.as_str());
        line.append(" deactivated features");
        proof {
            assert(line@ =~= "  "@ + dec_chars(deactivated as int) + " deactivated features"@);
        }
        out.push(line);
    }
    proof {
        assert(out@.map_values(|s: String| s@) =~= spec_features_section(
            features@,
            entries@,
            st@,
            verbosity,
        ));
    }
    out
}

pub open spec fn spec_is_ws(c: char) -> bool {
    c == ' ' || c == '\t' || c == '\n' || c == '\r'
}

fn ws_char(c: char) -> (r: bool)
    ensures
        r == spec_is_ws(c),
{
    c == ' ' || c == '\t' || c == '\n' || c == '\r'
}

/// The text with trailing whitespace removed.
pub open spec fn spec_trim_end(s: Seq<char>) -> Seq<char>
    decreases s.len(),
{
    if s.len() == 0 {
        s
    } else if spec_is_ws(s.last()) {
        spec_trim_end(s.drop_last())
    } else {
        s
    }
}

pub fn trim_end_text(s: &String) -> (r: String)
    ensures
        r@ == spec_trim_end(s@),
{
    let len = s.as_str().unicode_len();
    let mut end = len;
    proof {
        assert(s@.take(len as int) =~= s@);
    }
    while end > 0 && ws_char(s.as_str().get_char(end - 1))
        invariant
            end <= len,
            len == s@.len(),
            spec_trim_end(s@) == spec_trim_end(s@.take(end as int)),
        decreases end,
    {
        proof {
            assert(s@.take(end as int).drop_last() =~= s@.take(end - 1));
            assert(s@.take(end as int).last() == s@[end - 1]);
        }
        end -= 1;
    }
    proof {
        if end > 0 {
            assert(s@.take(end as int).last() == s@[end - 1]);
        }
        assert(spec_trim_end(s@.take(end as int)) == s@.take(end as int));
    }
    String::from_str(s.as_str().substring_char(0, end))
}

/// The display-order entries of the declared features: one per feature,
/// ranked by its status, positioned by its declaration index.
pub open spec fn spec_feature_entries(features: Seq<RawFeature>, st: Seq<FeatureStatus>) -> Seq<
    DisplayEntry,
> {
    Seq::new(
        features.len(),
        |i: int|
            DisplayEntry { rank: st[i].spec_rank(), name: features[i].name, idx: i as usize },
    )
}

pub fn feature_display_entries(features: &Vec<RawFeature>, st: &Vec<FeatureStatus>) -> (r: Vec<
    DisplayEntry,
>)
    requires
        st@.len() == features@.len(),
    ensures
        r@ == spec_feature_entries(features@, st@),
{
    let n = features.len();
    let mut out: Vec<DisplayEntry> = Vec::new();
    let mut i: usize = 0;
    while i < n
        invariant
            n == features@.len(),
            st@.len() == n,
            i <= n,
            out@.len() == i,
            forall|t: int| 0 <= t < i ==> (#[trigger] out@[t]) == spec_feature_entries(
                features@,
                st@,
            )[t],
        decreases n - i,
    {
        let e = DisplayEntry { rank: st[i].rank(), name: features[i].name.clone(), idx: i };
        out.push(e);
        i += 1;
    }
    proof {
        assert(out@ =~= spec_feature_entries(features@, st@));
    }
    out
}

/// The display-order entries for the dependencies at the given positions,
/// ranked by their classification, positioned by declaration order.
pub open spec fn spec_dep_entries(
    deps: Seq<Dependency>,
    positions: Seq<usize>,
    st: Seq<FeatureStatus>,
) -> Seq<DisplayEntry> {
    Seq::new(
        positions.len(),
        |t: int|
            DisplayEntry {
                rank: st[positions[t] as int].spec_rank(),
                name: deps[positions[t] as int].name,
                idx: positions[t],
            },
    )
}

pub fn dep_display_entries(
    deps: &Vec<Dependency>,
    positions: &Vec<usize>,
    st: &Vec<FeatureStatus>,
) -> (r: Vec<DisplayEntry>)
    requires
        st@.len() == deps@.len(),
        forall|t: int| 0 <= t < positions@.len() ==> (#[trigger] positions@[t]) < deps@.len(),
    ensures
        r@ == spec_dep_entries(deps@, positions@, st@),
{
    let n = positions.len();
    let mut out: Vec<DisplayEntry> = Vec::new();
    let mut t: usize = 0;
    while t < n
        invariant
            n == positions@.len(),
            st@.len() == deps@.len(),
            forall|q: int| 0 <= q < n ==> (#[trigger] positions@[q]) < deps@.len(),
            t <= n,
            out@.len() == t,
            forall|q: int| 0 <= q < t ==> (#[trigger] out@[q]) == spec_dep_entries(
                deps@,
                positions@,
                st@,
            )[q],
        decreases n - t,
    {
        let p = positions[t];
        let e = DisplayEntry { rank: st[p].rank(), name: deps[p].name.clone(), idx: p };
        out.push(e);
        t += 1;
    }
    proof {
        assert(out@ =~= spec_dep_entries(deps@, positions@, st@));
    }
    out
}

/// The position of the newest version in the candidate set: of maximal
/// version rank, and the last such position.
pub open spec fn spec_latest_at(cands: Seq<Summary>, i: int) -> bool {
    &&& 0 <= i < cands.len()
    &&& forall|j: int| 0 <= j < cands.len() ==> spec_version_le(
        (#[trigger] cands[j]).id.version,
        cands[i].id.version,
    )
    &&& forall|j: int| i < j < cands.len() ==> spec_version_lt(
        (#[trigger] cands[j]).id.version,
        cands[i].id.version,
    )
}

/// The newest version among the candidates, used to warn when the
/// reported package is not the latest.
pub fn latest_version(summaries: &Vec<Summary>) -> (r: Option<Version>)
    ensures
        ({
            match r {
                Some(v) => exists|i: int|
                    #[trigger] spec_latest_at(summaries@, i) && v == summaries@[i].id.version,
                None => summaries@.len() == 0,
            }
        }),
{
    let n = summaries.len();
    if n == 0 {
        return None;
    }
    let mut best: usize = 0;
    let mut j: usize = 1;
    while j < n
        invariant
            n == summaries@.len(),
            best < j,
            j <= n,
            forall|t: int| 0 <= t < j ==> spec_version_le(
                (#[trigger] summaries@[t]).id.version,
                summaries@[best as int].id.version,
            ),
            forall|t: int| best < t < j ==> spec_version_lt(
                (#[trigger] summaries@[t]).id.version,
                summaries@[best as int].id.version,
            ),
        decreases n - j,
    {
        if version_le(&summaries[best].id.version, &summaries[j].id.version) {
            best = j;
        }
        j += 1;
    }
    proof {
        assert(spec_latest_at(summaries@, best as int));
    }
    Some(summaries[best].id.version.duplicate())
}

/// The report's first line: the package name, then its keywords as
/// hashtags when there are any.
pub open spec fn spec_title_line(pkg: ResolvedPackage) -> Seq<char> {
    pkg.id.name@ + (if pkg.metadata.keywords@.len() > 0 {
        " #"@ + spec_join(pkg.metadata.keywords@.map_values(|s: String| s@), " #"@)
    } else {
        Seq::<char>::empty()
    })
}

pub open spec fn spec_description_lines(pkg: ResolvedPackage) -> Seq<Seq<char>> {
    match pkg.metadata.description {
        Option::Some(d) => seq![spec_trim_end(d@)],
        Option::None => Seq::empty(),
    }
}

/// What follows the version number: a warning naming the newest version
/// when the reported one is not it, and the source when the package does
/// not come from the default registry.
pub open spec fn spec_version_suffix(pkg: ResolvedPackage, latest: Option<Version>) -> Seq<char> {
    let cio = pkg.id.source.spec_is_crates_io();
    match latest {
        Option::Some(lv) => {
            if lv.key() != pkg.id.version.key() {
                if cio {
                    " (latest "@ + spec_version_chars(lv) + ")"@
                } else {
                    " (latest "@ + spec_version_chars(lv) + " from "@ + pkg.id.source.locator@
                        + ")"@
                }
            } else {
                if cio {
                    Seq::<char>::empty()
                } else {
                    " (from "@ + pkg.id.source.locator@ + ")"@
                }
            }
        },
        Option::None => {
            if cio {
                Seq::<char>::empty()
            } else {
                " (from "@ + pkg.id.source.locator@ + ")"@
            }
        },
    }
}

pub open spec fn spec_version_line(pkg: ResolvedPackage, latest: Option<Version>) -> Seq<char> {
    "version: "@ + spec_version_chars(pkg.id.version) + spec_version_suffix(pkg, latest)
}

/// Absent metadata never fails the display: it shows an explicit
/// placeholder instead.
pub open spec fn spec_license_line(pkg: ResolvedPackage) -> Seq<char> {
    "license: "@ + (match pkg.metadata.license {
        Option::Some(l) => l@,
        Option::None => "unknown"@,
    })
}

pub open spec fn spec_rust_version_line(pkg: ResolvedPackage) -> Seq<char> {
    "rust-version: "@ + (match pkg.metadata.rust_version {
        Option::Some(v) => spec_version_chars(v),
        Option::None => "unknown"@,
    })
}

/// The documentation link: the declared one, or the documentation host's
/// well-known address for packages of the default registry.
pub open spec fn spec_documentation_lines(pkg: ResolvedPackage) -> Seq<Seq<char>> {
    match pkg.metadata.documentation {
        Option::Some(l) => seq!["documentation: "@ + l@],
        Option::None => {
            if pkg.id.source.spec_is_crates_io() {
                seq![
                    "documentation: https://docs.rs/"@ + pkg.id.name@ + "/"@ + spec_version_chars(
                        pkg.id.version,
                    ),
                ]
            } else {
                Seq::empty()
            }
        },
    }
}

pub open spec fn spec_homepage_lines(pkg: ResolvedPackage) -> Seq<Seq<char>> {
    match pkg.metadata.homepage {
        Option::Some(l) => seq!["homepage: "@ + l@],
        Option::None => Seq::empty(),
    }
}

pub open spec fn spec_repository_lines(pkg: ResolvedPackage) -> Seq<Seq<char>> {
    match pkg.metadata.repository {
        Option::Some(l) => seq!["repository: "@ + l@],
        Option::None => Seq::empty(),
    }
}

pub open spec fn spec_crates_io_lines(pkg: ResolvedPackage) -> Seq<Seq<char>> {
    if pkg.id.source.spec_is_crates_io() {
        seq![
            "crates.io: https://crates.io/crates/"@ + pkg.id.name@ + "/"@ + spec_version_chars(
                pkg.id.version,
            ),
        ]
    } else {
        Seq::empty()
    }
}

/// The metadata block at the top of the report.
pub open spec fn spec_header_lines(pkg: ResolvedPackage, latest: Option<Version>) -> Seq<
    Seq<char>,
> {
    seq![spec_title_line(pkg)] + spec_description_lines(pkg) + seq![
        spec_version_line(pkg, latest),
        spec_license_line(pkg),
        spec_rust_version_line(pkg),
    ] + spec_documentation_lines(pkg) + spec_homepage_lines(pkg) + spec_repository_lines(pkg)
        + spec_crates_io_lines(pkg)
}

fn docs_rs_link(pkg: &ResolvedPackage) -> (r: String)
    ensures
        r@ == "documentation: https://docs.rs/"@ + pkg.id.name@ + "/"@ + spec_version_chars(
            pkg.id.version,
        ),
{
    let mut s = String::from_str("documentation: https://docs.rs/");
    s.append(pkg.id.name.as_str());
    s.append("/");
    let v = version_text(&pkg.id.version);
    s.append(v.as_str());
    proof {
        assert(s@ =~= "documentation: https://docs.rs/"@ + pkg.id.name@ + "/"@
            + spec_version_chars(pkg.id.version));
    }
    s
}

/// Writes the metadata block.
#[verifier::rlimit(100)]
pub fn header_lines(pkg: &ResolvedPackage, latest: &Option<Version>) -> (r: Vec<String>)
    ensures
        r@.map_values(|s: String| s@) == spec_header_lines(*pkg, *latest),
{
    let mut out: Vec<String> = Vec::new();

    let mut title = pkg.id.name.clone();
    if pkg.metadata.keywords.len() > 0 {
        title.append(" #");
        let joined = join_texts(&pkg.metadata.keywords, " #");
        title.append(joined.as_str());
    }
    proof {
        assert(title@ =~= spec_title_line(*pkg));
    }
    out.push(title);

    if let Some(d) = &pkg.metadata.description {
        out.push(trim_end_text(d));
    }

    let mut version_line = String::from_str("version: ");
    let vt = version_text(&pkg.id.version);
    version_line.append(vt.as_str());
    let cio = pkg.id.source.is_crates_io();
    let mut named_latest = false;
    if let Some(lv) = latest {
        if !same_version(lv, &pkg.id.version) {
            named_latest = true;
            version_line.append(" (latest ");
            let lt = version_text(lv);
            version_line.append(lt.as_str());
            if cio {
                version_line.append(")");
            } else {
                version_line.append(" from ");
                version_line.append(pkg.id.source.locator.as_str());
                version_line.append(")");
            }
        }
    }
    if !named_latest && !cio {
        version_line.append(" (from ");
        version_line.append(pkg.id.source.locator.as_str());
        version_line.append(")");
    }
    proof {
        assert(version_line@ =~= spec_version_line(*pkg, *latest));
    }
    out.push(version_line);

    let mut license_line = String::from_str("license: ");
    match &pkg.metadata.license {
        Some(l) => license_line.append(l.as_str()),
        None => license_line.append("unknown"),
    }
    proof {
        assert(license_line@ =~= spec_license_line(*pkg));
    }
    out.push(license_line);

    let mut rv_line = String::from_str("rust-version: ");
    match &pkg.metadata.rust_version {
        Some(v) => {
            let t = version_text(v);
            rv_line.append(t.as_str());
        },
        None => rv_line.append("unknown"),
    }
    proof {
        assert(rv_line@ =~= spec_rust_version_line(*pkg));
    }
    out.push(rv_line);

    match &pkg.metadata.documentation {
        Some(l) => {
            let mut line = String::from_str("documentation: ");
            line.append(l.as_str());
            proof {
                assert(line@ =~= "documentation: "@ + l@);
            }
            out.push(line);
        },
        None => {
            if cio {
                out.push(docs_rs_link(pkg));
            }
        },
    }

    if let Some(l) = &pkg.metadata.homepage {
        let mut line = String::from_str("homepage: ");
        line.append(l.as_str());
        proof {
            assert(line@ =~= "homepage: "@ + l@);
        }
        out.push(line);
    }

    if let Some(l) = &pkg.metadata.repository {
        let mut line = String::from_str("repository: ");
        line.append(l.as_str());
        proof {
            assert(line@ =~= "repository: "@ + l@);
        }
        out.push(line);
    }

    if cio {
        let mut line = String::from_str("crates.io: https://crates.io/crates/");
        line.append(pkg.id.name.as_str());
        line.append("/");
        let v = version_text(&pkg.id.version);
        line.append(v.as_str());
        proof {
            assert(line@ =~= "crates.io: https://crates.io/crates/"@ + pkg.id.name@ + "/"@
                + spec_version_chars(pkg.id.version));
        }
        out.push(line);
    }

    proof {
        assert(out@.map_values(|s: String| s@) =~= spec_header_lines(*pkg, *latest));
    }
    out
}

/// Writes the dependency sections for the two display orders.
pub fn pretty_deps(
    deps: &Vec<Dependency>,
    normal: &Vec<DisplayEntry>,
    build: &Vec<DisplayEntry>,
    verbosity: Verbosity,
) -> (r: Vec<String>)
    requires
        forall|t: int| 0 <= t < normal@.len() ==> (#[trigger] normal@[t]).idx < deps@.len(),
        forall|t: int| 0 <= t < build@.len() ==> (#[trigger] build@[t]).idx < deps@.len(),
    ensures
        r@.map_values(|s: String| s@) == spec_deps_sections(deps@, normal@, build@, verbosity),
{
    let mut out: Vec<String> = Vec::new();
    if !(verbosity == Verbosity::Verbose) {
        proof {
            assert(out@.map_values(|s: String| s@) =~= spec_deps_sections(
                deps@,
                normal@,
                build@,
                verbosity,
            ));
        }
        return out;
    }
    let mut a = dep_block("dependencies:", deps, normal);
    let mut b = dep_block("build-dependencies:", deps, build);
    out.append(&mut a);
    out.append(&mut b);
    proof {
        assert(out@.map_values(|s: String| s@) =~= spec_deps_sections(
            deps@,
            normal@,
            build@,
            verbosity,
        ));
    }
    out
}

/// The owners block for a list of owner display texts: nothing for an
/// empty list, else the heading and one indented line per owner.
pub open spec fn spec_owner_block(list: Seq<Seq<char>>) -> Seq<Seq<char>> {
    if list.len() == 0 {
        Seq::empty()
    } else {
        seq!["owners:"@] + list.map_values(|o: Seq<char>| "  "@ + o)
    }
}

/// The owners section: present only when an owner list was obtained and
/// it is not empty.
pub open spec fn spec_owner_lines(owners: Option<Seq<Seq<char>>>) -> Seq<Seq<char>> {
    match owners {
        Option::Some(list) => spec_owner_block(list),
        Option::None => Seq::empty(),
    }
}

/// Writes the owners block.
pub fn pretty_owners(owners: &Vec<String>) -> (r: Vec<String>)
    ensures
        r@.map_values(|s: String| s@) == spec_owner_block(owners@.map_values(|s: String| s@)),
{
    let mut out: Vec<String> = Vec::new();
    let n = owners.len();
    if n == 0 {
        proof {
            assert(out@.map_values(|s: String| s@) =~= spec_owner_block(
                owners@.map_values(|s: String| s@),
            ));
        }
        return out;
    }
    out.push(String::from_str("owners:"));
    let mut i: usize = 0;
    while i < n
        invariant
            n == owners@.len(),
            i <= n,
            out@.len() == i + 1,
            out@[0]@ == "owners:"@,
            forall|q: int| 1 <= q < out@.len() ==> (#[trigger] out@[q])@ == "  "@ + owners@[q
                - 1]@,
        decreases n - i,
    {
        let mut line = String::from_str("  ");
        line.append(owners[i].as_str());
        out.push(line);
        i += 1;
    }
    proof {
        assert(out@.map_values(|s: String| s@) =~= spec_owner_block(
            owners@.map_values(|s: String| s@),
        ));
    }
    out
}

/// The closing hint: how to see what depends on the package, shown only
/// when a dependency tree of the surrounding workspace would say more
/// than the package itself.
pub open spec fn spec_suggestion_lines(pkg: ResolvedPackage, suggest: bool) -> Seq<Seq<char>> {
    if suggest {
        seq![
            "note: to see how you depend on "@ + pkg.id.name@
                + ", run `cargo tree --invert --package "@ + pkg.id.name@ + "@"@
                + spec_version_chars(pkg.id.version) + "`"@,
        ]
    } else {
        Seq::empty()
    }
}

/// Writes the closing hint.
pub fn suggestion_lines(pkg: &ResolvedPackage, suggest: bool) -> (r: Vec<String>)
    ensures
        r@.map_values(|s: String| s@) == spec_suggestion_lines(*pkg, suggest),
{
    let mut out: Vec<String> = Vec::new();
    if suggest {
        let mut line = String::from_str("note: to see how you depend on ");
        line.append(pkg.id.name.as_str());
        line.append(", run `cargo tree --invert --package ");
        line.append(pkg.id.name.as_str());
        line.append("@");
        let v = version_text(&pkg.id.version);
        line.append(v.as_str());
        line.append("`");
        proof {
            assert(line@ =~= spec_suggestion_lines(*pkg, suggest)[0]);
        }
        out.push(line);
    }
    proof {
        assert(out@.map_values(|s: String| s@) =~= spec_suggestion_lines(*pkg, suggest));
    }
    out
}

/// The whole report for one resolved package: the metadata block, the
/// features and dependency sections in their display orders, the owners,
/// and the closing hint.  The display orders are the sorted forms of the
/// declared orders; their keys are distinct, so they are unique.
pub open spec fn spec_report(
    pkg: ResolvedPackage,
    latest: Option<Version>,
    owners: Option<Seq<Seq<char>>>,
    suggest: bool,
    verbosity: Verbosity,
    feature_order: Seq<DisplayEntry>,
    normal_order: Seq<DisplayEntry>,
    build_order: Seq<DisplayEntry>,
) -> Seq<Seq<char>> {
    let st = spec_feature_statuses(pkg.features@);
    spec_header_lines(pkg, latest) + spec_features_section(
        pkg.features@,
        feature_order,
        st,
        verbosity,
    ) + spec_deps_sections(pkg.deps@, normal_order, build_order, verbosity) + spec_owner_lines(
        owners,
    ) + spec_suggestion_lines(pkg, suggest)
}

/// Whether the given display orders are the sorted forms of the feature
/// list and of the two dependency kind lists of the package.
pub open spec fn spec_report_orders(
    pkg: ResolvedPackage,
    feature_order: Seq<DisplayEntry>,
    normal_order: Seq<DisplayEntry>,
    build_order: Seq<DisplayEntry>,
) -> bool {
    let st = spec_feature_statuses(pkg.features@);
    let dst = spec_dep_statuses(pkg.deps@, pkg.features@, st);
    &&& sorted_entries(feature_order)
    &&& feature_order.to_multiset() == spec_feature_entries(pkg.features@, st).to_multiset()
    &&& sorted_entries(normal_order)
    &&& normal_order.to_multiset() == spec_dep_entries(
        pkg.deps@,
        spec_kind_positions(pkg.deps@, DepKind::Normal),
        dst,
    ).to_multiset()
    &&& sorted_entries(build_order)
    &&& build_order.to_multiset() == spec_dep_entries(
        pkg.deps@,
        spec_kind_positions(pkg.deps@, DepKind::Build),
        dst,
    ).to_multiset()
}

/// Assembles the whole report: resolves the feature map, classifies the
/// dependencies, sorts the display orders, and writes every section.
pub fn pretty_view(
    pkg: &ResolvedPackage,
    latest: &Option<Version>,
    owners: &Option<Vec<String>>,
    suggest: bool,
    verbosity: Verbosity,
) -> (r: Vec<String>)
    ensures
        exists|fe: Seq<DisplayEntry>, dn: Seq<DisplayEntry>, db: Seq<DisplayEntry>|
            {
                &&& #[trigger] spec_report_orders(*pkg, fe, dn, db)
                &&& r@.map_values(|s: String| s@) == spec_report(
                    *pkg,
                    *latest,
                    match *owners {
                        Option::Some(list) => Option::Some(list@.map_values(|s: String| s@)),
                        Option::None => Option::None,
                    },
                    suggest,
                    verbosity,
                    fe,
                    dn,
                    db,
                )
            },
{
    let g = FeatureGraph::new(&pkg.features);
    let st = resolve_features(&pkg.features);
    let dst = classify_deps(&pkg.deps, &g, &st);
    proof {
        assert forall|i: int| 0 <= i < pkg.deps@.len() implies (#[trigger] dst@[i])
            == spec_dep_statuses(pkg.deps@, pkg.features@, st@)[i] by {
            lemma_classification_agrees(g, pkg.features@, st@, pkg.deps@[i]);
        }
        assert(dst@ =~= spec_dep_statuses(pkg.deps@, pkg.features@, st@));
    }

    let fe_raw = feature_display_entries(&pkg.features, &st);
    let fe = sort_entries(fe_raw);

    let normal_positions = positions_of_kind(&pkg.deps, DepKind::Normal);
    let dn_raw = dep_display_entries(&pkg.deps, &normal_positions, &dst);
    let dn = sort_entries(dn_raw);

    let build_positions = positions_of_kind(&pkg.deps, DepKind::Build);
    let db_raw = dep_display_entries(&pkg.deps, &build_positions, &dst);
    let db = sort_entries(db_raw);

    proof {
        assert(spec_report_orders(*pkg, fe@, dn@, db@)) by {
            assert(st@ == spec_feature_statuses(pkg.features@));
        }
        assert forall|t: int| 0 <= t < fe@.len() implies (#[trigger] fe@[t]).idx
            < pkg.features@.len() by {
            assert(fe@.contains(fe@[t]));
            assert(fe@.to_multiset().count(fe@[t]) > 0);
            assert(fe_raw@.to_multiset().count(fe@[t]) > 0);
            assert(fe_raw@.contains(fe@[t]));
        }
        assert forall|t: int| 0 <= t < dn@.len() implies (#[trigger] dn@[t]).idx
            < pkg.deps@.len() by {
            assert(dn@.contains(dn@[t]));
            assert(dn@.to_multiset().count(dn@[t]) > 0);
            assert(dn_raw@.to_multiset().count(dn@[t]) > 0);
            assert(dn_raw@.contains(dn@[t]));
        }
        assert forall|t: int| 0 <= t < db@.len() implies (#[trigger] db@[t]).idx
            < pkg.deps@.len() by {
            assert(db@.contains(db@[t]));
            assert(db@.to_multiset().count(db@[t]) > 0);
            assert(db_raw@.to_multiset().count(db@[t]) > 0);
            assert(db_raw@.contains(db@[t]));
        }
    }

    let mut out = header_lines(pkg, latest);
    let mut features_out = pretty_features(&pkg.features, &fe, &st, verbosity);
    let mut deps_out = pretty_deps(&pkg.deps, &dn, &db, verbosity);
    let mut owners_out = match owners {
        Some(list) => pretty_owners(list),
        None => Vec::new(),
    };
    let mut suggestion_out = suggestion_lines(pkg, suggest);
    out.append(&mut features_out);
    out.append(&mut deps_out);
    out.append(&mut owners_out);
    out.append(&mut suggestion_out);

    proof {
        let ghost_owners = match owners {
            Option::Some(list) => Option::Some(list@.map_values(|s: String| s@)),
            Option::None => Option::<Seq<Seq<char>>>::None,
        };
        assert(out@.map_values(|s: String| s@) =~= spec_report(
            *pkg,
            *latest,
            ghost_owners,
            suggest,
            verbosity,
            fe@,
            dn@,
            db@,
        ));
    }
    out
}

proof fn lemma_feature_order_injective(pkg: ResolvedPackage, fe: Seq<DisplayEntry>)
    requires
        pkg.features@.len() <= usize::MAX,
        fe.to_multiset() == spec_feature_entries(
            pkg.features@,
            spec_feature_statuses(pkg.features@),
        ).to_multiset(),
    ensures
        forall|x: DisplayEntry, y: DisplayEntry|
            fe.contains(x) && fe.contains(y) && entry_key(x) == entry_key(y) ==> x == y,
{
    let pool = spec_feature_entries(pkg.features@, spec_feature_statuses(pkg.features@));
    assert forall|x: DisplayEntry, y: DisplayEntry|
        fe.contains(x) && fe.contains(y) && entry_key(x) == entry_key(y) implies x == y by {
        assert(fe.to_multiset().count(x) > 0);
        assert(pool.to_multiset().count(x) > 0);
        assert(pool.contains(x));
        assert(fe.to_multiset().count(y) > 0);
        assert(pool.to_multiset().count(y) > 0);
        assert(pool.contains(y));
        let i = choose|i: int| 0 <= i < pool.len() && pool[i] == x;
        let j = choose|j: int| 0 <= j < pool.len() && pool[j] == y;
        assert(x.idx == i as usize);
        assert(y.idx == j as usize);
    }
}

proof fn lemma_dep_order_injective(
    pkg: ResolvedPackage,
    kind: DepKind,
    order: Seq<DisplayEntry>,
)
    requires
        pkg.deps@.len() <= usize::MAX,
        order.to_multiset() == spec_dep_entries(
            pkg.deps@,
            spec_kind_positions(pkg.deps@, kind),
            spec_dep_statuses(
                pkg.deps@,
                pkg.features@,
                spec_feature_statuses(pkg.features@),
            ),
        ).to_multiset(),
    ensures
        forall|x: DisplayEntry, y: DisplayEntry|
            order.contains(x) && order.contains(y) && entry_key(x) == entry_key(y) ==> x == y,
{
    let positions = spec_kind_positions(pkg.deps@, kind);
    let dst = spec_dep_statuses(pkg.deps@, pkg.features@, spec_feature_statuses(pkg.features@));
    let pool = spec_dep_entries(pkg.deps@, positions, dst);
    lemma_kind_positions_increasing(pkg.deps@, kind);
    assert forall|x: DisplayEntry, y: DisplayEntry|
        order.contains(x) && order.contains(y) && entry_key(x) == entry_key(y) implies x == y by {
        assert(order.to_multiset().count(x) > 0);
        assert(pool.to_multiset().count(x) > 0);
        assert(pool.contains(x));
        assert(order.to_multiset().count(y) > 0);
        assert(pool.to_multiset().count(y) > 0);
        assert(pool.contains(y));
        let i = choose|i: int| 0 <= i < pool.len() && pool[i] == x;
        let j = choose|j: int| 0 <= j < pool.len() && pool[j] == y;
        assert(x.idx == positions[i]);
        assert(y.idx == positions[j]);
        if i < j {
            assert(positions[i] < positions[j]);
        }
        if j < i {
            assert(positions[j] < positions[i]);
        }
        assert(i == j);
    }
}

/// Reproducibility of the report: its text is a function of the package,
/// the newest candidate version, the owner texts and the display
/// switches.  Any two line sequences that meet the report contract for
/// the same inputs agree, display orders included.
pub proof fn lemma_report_deterministic(
    pkg: ResolvedPackage,
    latest: Option<Version>,
    owners: Option<Seq<Seq<char>>>,
    suggest: bool,
    verbosity: Verbosity,
    fe1: Seq<DisplayEntry>,
    dn1: Seq<DisplayEntry>,
    db1: Seq<DisplayEntry>,
    fe2: Seq<DisplayEntry>,
    dn2: Seq<DisplayEntry>,
    db2: Seq<DisplayEntry>,
)
    requires
        pkg.features@.len() <= usize::MAX,
        pkg.deps@.len() <= usize::MAX,
        spec_report_orders(pkg, fe1, dn1, db1),
        spec_report_orders(pkg, fe2, dn2, db2),
    ensures
        fe1 == fe2,
        dn1 == dn2,
        db1 == db2,
        spec_report(pkg, latest, owners, suggest, verbosity, fe1, dn1, db1) == spec_report(
            pkg,
            latest,
            owners,
            suggest,
            verbosity,
            fe2,
            dn2,
            db2,
        ),
{
    lemma_feature_order_injective(pkg, fe1);
    lemma_sorted_permutation_unique(fe1, fe2);
    lemma_dep_order_injective(pkg, DepKind::Normal, dn1);
    lemma_sorted_permutation_unique(dn1, dn2);
    lemma_dep_order_injective(pkg, DepKind::Build, db1);
    lemma_sorted_permutation_unique(db1, db2);
}

} // verus!
