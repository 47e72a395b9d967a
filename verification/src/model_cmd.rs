//! The `model` command: listing and searching the model catalog, and
//! choosing the default model.

use crate::text::{
    ascii_lower, ascii_upper, contains_seq, occurs_at, contains_str, dash_line, is_ascii_chars, lemma_ascii_upper_then_lower, dashes, decimal, lemma_seq_lt_asymmetric, lemma_seq_lt_total,
    lemma_seq_lt_transitive, pad_right, padded, seq_lt, str_eq, str_lt, u64_to_decimal,
};
use vstd::prelude::*;

verus! {

/// Subcommands of `model`.
#[derive(Debug)]
pub enum ModelSubcommand {
    List(ListModelsArgs),
    Search(SearchModelsArgs),
    Use(UseModelArgs),
}

/// Arguments of `model list`.
#[derive(Debug)]
pub struct ListModelsArgs {
    /// Filter by provider ID (e.g. "openai", "anthropic").
    pub provider: Option<String>,
    /// Output as JSON.
    pub json: bool,
    /// Show all models including those hidden from the picker.
    pub all: bool,
}

/// Arguments of `model search`.
#[derive(Debug)]
pub struct SearchModelsArgs {
    /// Search query (matches against model slug, display name, and description).
    pub query: String,
    /// Output as JSON.
    pub json: bool,
}

/// Arguments of `model use`.
#[derive(Debug)]
pub struct UseModelArgs {
    /// Model slug to set as default (e.g. "gpt-5.4", "o3").
    pub model: String,
    /// Reasoning effort level: low, medium, high.
    pub effort: Option<String>,
}

/// Reasoning effort of a model.
#[derive(Debug, Clone, Copy, PartialEq, Eq, Structural)]
pub enum ReasoningEffort {
    Off,
    Minimal,
    Low,
    Medium,
    High,
    XHigh,
}

/// A model of the catalog, as the picker shows it.
#[derive(Debug)]
pub struct ModelPreset {
    pub id: String,
    pub model: String,
    /// The id of the provider that serves the model (e.g. "openai").
    pub provider: String,
    pub display_name: String,
    pub description: String,
    pub default_reasoning_effort: ReasoningEffort,
    pub is_default: bool,
    pub show_in_picker: bool,
}

pub open spec fn lines_view(lines: Seq<String>) -> Seq<Seq<char>> {
    lines.map_values(|l: String| l@)
}

fn push_line(lines: &mut Vec<String>, line: String)
    ensures
        lines_view(final(lines)@) == lines_view(old(lines)@).push(line@),
{
    let ghost before = lines@;
    lines.push(line);
    assert(lines_view(lines@) =~= lines_view(before).push(line@));
}

/// A copy of `p`.
pub fn clone_preset(p: &ModelPreset) -> (r: ModelPreset)
    ensures
        r == *p,
{
    ModelPreset {
        id: p.id.clone(),
        model: p.model.clone(),
        provider: p.provider.clone(),
        display_name: p.display_name.clone(),
        description: p.description.clone(),
        default_reasoning_effort: p.default_reasoning_effort,
        is_default: p.is_default,
        show_in_picker: p.show_in_picker,
    }
}

// ---------------------------------------------------------------------------
// model list
// ---------------------------------------------------------------------------

/// Whether `model list` shows `p`: it is shown in the picker (or all models
/// are asked for), and its provider is the one asked for, if any.
pub open spec fn is_listed(p: ModelPreset, all: bool, provider: Option<String>) -> bool {
    &&& all || p.show_in_picker
    &&& match provider {
        Some(pid) => p.provider@ == pid@,
        None => true,
    }
}

/// `is_listed` as a predicate to filter by.
pub open spec fn listed_pred(all: bool, provider: Option<String>) -> spec_fn(ModelPreset) -> bool {
    |p: ModelPreset| is_listed(p, all, provider)
}

/// The presets that `model list` shows, in catalog order.
pub open spec fn listed(ps: Seq<ModelPreset>, all: bool, provider: Option<String>) -> Seq<ModelPreset> {
    ps.filter(listed_pred(all, provider))
}

/// Selects the presets that `model list` shows, keeping their order.
pub fn listed_models(presets: &Vec<ModelPreset>, args: &ListModelsArgs) -> (r: Vec<ModelPreset>)
    ensures
        r@ == listed(presets@, args.all, args.provider),
{
    let mut r: Vec<ModelPreset> = Vec::new();
    let mut i: usize = 0;
    assert(presets@.take(0) =~= Seq::<ModelPreset>::empty());
    while i < presets.len()
        invariant
            i <= presets@.len(),
            r@ == listed(presets@.take(i as int), args.all, args.provider),
        decreases presets.len() - i,
    {
        proof {
            assert(presets@.take(i + 1) =~= presets@.take(i as int).push(presets@[i as int]));
            presets@.take(i as int).lemma_filter_push(presets@[i as int], listed_pred(args.all, args.provider));
        }
        let p = &presets[i];
        let shown = args.all || p.show_in_picker;
        let provider_ok = match &args.provider {
            Some(pid) => str_eq(p.provider.as_str(), pid.as_str()),
            None => true,
        };
        if shown && provider_ok {
            r.push(clone_preset(p));
        }
        i = i + 1;
    }
    assert(presets@.take(presets@.len() as int) =~= presets@);
    r
}

/// `p` inserted into `s` after every preset whose display name is not greater.
pub open spec fn insert_by_name(s: Seq<ModelPreset>, p: ModelPreset) -> Seq<ModelPreset>
    decreases s.len(),
{
    if s.len() == 0 {
        seq![p]
    } else if seq_lt(p.display_name@, s.last().display_name@) {
        insert_by_name(s.drop_last(), p).push(s.last())
    } else {
        s.push(p)
    }
}

/// `s` sorted by display name, stably: presets with equal names keep their order.
pub open spec fn sorted_by_name(s: Seq<ModelPreset>) -> Seq<ModelPreset>
    decreases s.len(),
{
    if s.len() == 0 {
        s
    } else {
        insert_by_name(sorted_by_name(s.drop_last()), s.last())
    }
}

/// `s` is in nondecreasing order of display name.
pub open spec fn is_sorted_by_name(s: Seq<ModelPreset>) -> bool {
    forall|i: int, j: int|
        0 <= i < j < s.len() ==> !seq_lt(#[trigger] s[j].display_name@, #[trigger] s[i].display_name@)
}

proof fn lemma_insert_at(s: Seq<ModelPreset>, p: ModelPreset, j: int)
    requires
        0 <= j <= s.len(),
        forall|k: int| j <= k < s.len() ==> seq_lt(p.display_name@, #[trigger] s[k].display_name@),
        j > 0 ==> !seq_lt(p.display_name@, s[j - 1].display_name@),
    ensures
        insert_by_name(s, p) == s.insert(j, p),
    decreases s.len(),
{
    if s.len() == 0 {
        assert(s.insert(j, p) =~= seq![p]);
    } else if j == s.len() {
        assert(s.insert(j, p) =~= s.push(p));
    } else {
        assert(seq_lt(p.display_name@, s.last().display_name@));
        lemma_insert_at(s.drop_last(), p, j);
        assert(s.drop_last().insert(j, p).push(s.last()) =~= s.insert(j, p));
    }
}

fn insert_sorted(v: &mut Vec<ModelPreset>, p: ModelPreset)
    ensures
        final(v)@ == insert_by_name(old(v)@, p),
{
    let mut j = v.len();
    while j > 0
        invariant
            j <= v@.len(),
            v@ == old(v)@,
            forall|k: int| j <= k < v@.len() ==> seq_lt(p.display_name@, #[trigger] v@[k].display_name@),
        ensures
            j <= v@.len(),
            v@ == old(v)@,
            forall|k: int| j <= k < v@.len() ==> seq_lt(p.display_name@, #[trigger] v@[k].display_name@),
            j > 0 ==> !seq_lt(p.display_name@, v@[j - 1].display_name@),
        decreases j,
    {
        if !str_lt(p.display_name.as_str(), v[j - 1].display_name.as_str()) {
            break;
        }
        j = j - 1;
    }
    proof {
        lemma_insert_at(v@, p, j as int);
    }
    v.insert(j, p);
}

/// Sorts presets by display name, stably, as `sort_by` on `display_name.cmp` does.
pub fn sort_by_display_name(presets: Vec<ModelPreset>) -> (r: Vec<ModelPreset>)
    ensures
        r@ == sorted_by_name(presets@),
{
    let mut presets = presets;
    let ghost all = presets@;
    let n = presets.len();
    let mut r: Vec<ModelPreset> = Vec::new();
    let mut i: usize = 0;
    assert(all.take(0) =~= Seq::<ModelPreset>::empty());
    while i < n
        invariant
            n == all.len(),
            presets@.len() == n,
            i <= n,
            forall|k: int| i <= k < n ==> presets@[k] == all[k],
            r@ == sorted_by_name(all.take(i as int)),
        decreases n - i,
    {
        assert(all.take(i + 1).drop_last() =~= all.take(i as int));
        assert(all.take(i + 1).last() == all[i as int]);
        let mut p = ModelPreset {
            id: String::new(),
            model: String::new(),
            provider: String::new(),
            display_name: String::new(),
            description: String::new(),
            default_reasoning_effort: ReasoningEffort::Off,
            is_default: false,
            show_in_picker: false,
        };
        presets.set_and_swap(i, &mut p);
        insert_sorted(&mut r, p);
        i = i + 1;
    }
    assert(all.take(n as int) =~= all);
    r
}

/// The display name of a reasoning effort.
pub open spec fn effort_name(e: ReasoningEffort) -> Seq<char> {
    match e {
        ReasoningEffort::Off => "none"@,
        ReasoningEffort::Minimal => "minimal"@,
        ReasoningEffort::Low => "low"@,
        ReasoningEffort::Medium => "medium"@,
        ReasoningEffort::High => "high"@,
        ReasoningEffort::XHigh => "xhigh"@,
    }
}

/// The display name of a reasoning effort, as `Display` prints it.
pub fn effort_display(e: ReasoningEffort) -> (r: &'static str)
    ensures
        r@ == effort_name(e),
{
    match e {
        ReasoningEffort::Off => "none",
        ReasoningEffort::Minimal => "minimal",
        ReasoningEffort::Low => "low",
        ReasoningEffort::Medium => "medium",
        ReasoningEffort::High => "high",
        ReasoningEffort::XHigh => "xhigh",
    }
}

/// The model named as current: the configured one, else `(provider default)`.
pub open spec fn current_label(model: Option<String>) -> Seq<char> {
    match model {
        Some(m) => m@,
        None => "(provider default)"@,
    }
}

/// The configured model, or `(provider default)`.
pub fn current_model_label(model: &Option<String>) -> (r: String)
    ensures
        r@ == current_label(*model),
{
    match model {
        Some(m) => m.clone(),
        None => String::from_str("(provider default)"),
    }
}

pub open spec fn list_header() -> Seq<char> {
    padded("Slug"@, 30) + " "@ + padded("Display Name"@, 25) + " "@ + padded("Reasoning"@, 15)
}

/// The table row of `p` in `model list`; ` *` marks the provider default.
pub open spec fn list_row(p: ModelPreset) -> Seq<char> {
    padded(p.model@, 30) + " "@ + padded(p.display_name@, 25) + " "@ + padded(
        effort_name(p.default_reasoning_effort),
        15,
    ) + if p.is_default {
        " *"@
    } else {
        ""@
    }
}

/// The lines that `model list` prints for the selected presets `ps`.
pub open spec fn list_lines(ps: Seq<ModelPreset>, current: Option<String>) -> Seq<Seq<char>> {
    if ps.len() == 0 {
        seq!["No models available."@]
    } else {
        let sorted = sorted_by_name(ps);
        seq!["Current model: "@ + current_label(current), ""@, list_header(), dashes(70)] + sorted.map_values(
            |p: ModelPreset| list_row(p),
        ) + seq![""@, decimal(ps.len()) + " models available. (* = provider default)"@]
    }
}

fn join3(a: String, b: &str, c: &str) -> (r: String)
    ensures
        r@ == a@ + b@ + c@,
{
    let mut r = a;
    r.append(b);
    r.append(c);
    r
}

fn list_row_exec(p: &ModelPreset) -> (r: String)
    ensures
        r@ == list_row(*p),
{
    let mut r = pad_right(p.model.as_str(), 30);
    r.append(" ");
    let name = pad_right(p.display_name.as_str(), 25);
    r.append(name.as_str());
    r.append(" ");
    let effort = pad_right(effort_display(p.default_reasoning_effort), 15);
    r.append(effort.as_str());
    if p.is_default {
        r.append(" *");
    } else {
        r.append("");
    }
    r
}

proof fn lemma_sorted_len(s: Seq<ModelPreset>)
    ensures
        sorted_by_name(s).len() == s.len(),
    decreases s.len(),
{
    if s.len() > 0 {
        lemma_sorted_len(s.drop_last());
        lemma_insert_len(sorted_by_name(s.drop_last()), s.last());
    }
}

proof fn lemma_insert_len(s: Seq<ModelPreset>, p: ModelPreset)
    ensures
        insert_by_name(s, p).len() == s.len() + 1,
    decreases s.len(),
{
    if s.len() > 0 {
        lemma_insert_len(s.drop_last(), p);
    }
}

/// The lines that `model list` prints (without `--json`) for the selected presets.
pub fn list_output_lines(selected: Vec<ModelPreset>, current_model: &Option<String>) -> (r: Vec<String>)
    ensures
        lines_view(r@) == list_lines(selected@, *current_model),
{
    let mut lines: Vec<String> = Vec::new();
    if selected.len() == 0 {
        push_line(&mut lines, String::from_str("No models available."));
        assert(lines_view(lines@) =~= list_lines(selected@, *current_model));
        return lines;
    }
    let count = selected.len();
    let ghost ps = selected@;
    let label = current_model_label(current_model);
    push_line(&mut lines, join3(String::from_str("Current model: "), label.as_str(), ""));
    push_line(&mut lines, String::new());
    let mut header = pad_right("Slug", 30);
    header.append(" ");
    let h2 = pad_right("Display Name", 25);
    header.append(h2.as_str());
    header.append(" ");
    let h3 = pad_right("Reasoning", 15);
    header.append(h3.as_str());
    push_line(&mut lines, header);
    push_line(&mut lines, dash_line(70));
    let ghost head = lines_view(lines@);
    let sorted = sort_by_display_name(selected);
    proof {
        lemma_sorted_len(ps);
    }
    let mut i: usize = 0;
    while i < sorted.len()
        invariant
            i <= sorted@.len(),
            lines_view(lines@) == head + sorted@.take(i as int).map_values(|p: ModelPreset| list_row(p)),
        decreases sorted.len() - i,
    {
        push_line(&mut lines, list_row_exec(&sorted[i]));
        i = i + 1;
        assert(sorted@.take(i as int).map_values(|p: ModelPreset| list_row(p)) =~= sorted@.take(
            (i - 1) as int,
        ).map_values(|p: ModelPreset| list_row(p)).push(list_row(sorted@[i - 1])));
    }
    assert(sorted@.take(sorted@.len() as int) =~= sorted@);
    let ghost rows = lines_view(lines@);
    push_line(&mut lines, String::new());
    let n = u64_to_decimal(count as u64);
    push_line(&mut lines, join3(n, " models available. (* = provider default)", ""));
    proof {
        reveal_strlit("");
        assert(""@ =~= Seq::<char>::empty());
        assert(rows =~= seq!["Current model: "@ + current_label(*current_model), ""@, list_header(), dashes(70)]
            + sorted_by_name(ps).map_values(|p: ModelPreset| list_row(p)));
        assert(lines_view(lines@) =~= rows + seq![""@, decimal(ps.len()) + " models available. (* = provider default)"@]);
    }
    assert(lines_view(lines@) =~= list_lines(ps, *current_model));
    lines
}


// ---------------------------------------------------------------------------
// model search
// ---------------------------------------------------------------------------

/// The lowercase form of `s` as `str::to_lowercase` computes it (Unicode
/// lowercase mapping, independent of locale).
pub uninterp spec fn lowercase(s: Seq<char>) -> Seq<char>;

/// `str::to_lowercase`. The contract names the result `lowercase`, and
/// states it only for ASCII text: there the Unicode lowercase mapping, which
/// `char::to_lowercase` documents as that of the Unicode Character Database,
/// turns `A`..`Z` into `a`..`z` and keeps every other character. The mapping
/// of other characters is not stated.
#[verifier::external_body]
fn to_lowercase(s: &str) -> (r: String)
    ensures
        r@ == lowercase(s@),
        is_ascii_chars(s@) ==> r@ == ascii_lower(s@),
{
    s.to_lowercase()
}

/// Whether `p` matches the lowercased query `q`: `q` occurs in the lowercased
/// slug, display name or description.
pub open spec fn matches_query(p: ModelPreset, q: Seq<char>) -> bool {
    contains_seq(lowercase(p.model@), q) || contains_seq(lowercase(p.display_name@), q) || contains_seq(
        lowercase(p.description@),
        q,
    )
}

/// `matches_query` as a predicate to filter by.
pub open spec fn matching_pred(q: Seq<char>) -> spec_fn(ModelPreset) -> bool {
    |p: ModelPreset| matches_query(p, q)
}

/// The presets of `ps` that match the lowercased query `q`, in catalog order.
pub open spec fn matching(ps: Seq<ModelPreset>, q: Seq<char>) -> Seq<ModelPreset> {
    ps.filter(matching_pred(q))
}

/// Case-insensitive substring search over slug, display name and description,
/// keeping catalog order.
pub fn search_models(presets: &Vec<ModelPreset>, query: &str) -> (r: Vec<ModelPreset>)
    ensures
        r@ == matching(presets@, lowercase(query@)),
        is_ascii_chars(query@) ==> r@ == matching(presets@, ascii_lower(query@)),
{
    let q = to_lowercase(query);
    let mut r: Vec<ModelPreset> = Vec::new();
    let mut i: usize = 0;
    assert(presets@.take(0) =~= Seq::<ModelPreset>::empty());
    while i < presets.len()
        invariant
            i <= presets@.len(),
            q@ == lowercase(query@),
            r@ == matching(presets@.take(i as int), q@),
        decreases presets.len() - i,
    {
        proof {
            assert(presets@.take(i + 1) =~= presets@.take(i as int).push(presets@[i as int]));
            presets@.take(i as int).lemma_filter_push(presets@[i as int], matching_pred(q@));
        }
        let p = &presets[i];
        let m = to_lowercase(p.model.as_str());
        let d = to_lowercase(p.display_name.as_str());
        let e = to_lowercase(p.description.as_str());
        let hit = contains_str(m.as_str(), q.as_str()) || contains_str(d.as_str(), q.as_str()) || contains_str(
            e.as_str(),
            q.as_str(),
        );
        if hit {
            r.push(clone_preset(p));
        }
        i = i + 1;
    }
    assert(presets@.take(presets@.len() as int) =~= presets@);
    r
}

/// A description as the search table shows it: cut to 37 characters and `...`
/// where it is longer than 40 characters.
pub open spec fn shown_description(d: Seq<char>) -> Seq<char> {
    if d.len() > 40 {
        d.take(37) + "..."@
    } else {
        d
    }
}

/// Shortens a description for the search table.
pub fn truncate_description(d: &str) -> (r: String)
    ensures
        r@ == shown_description(d@),
{
    if d.unicode_len() > 40 {
        let head = d.substring_char(0, 37);
        let mut r = String::from_str(head);
        r.append("...");
        assert(d@.subrange(0, 37) =~= d@.take(37));
        r
    } else {
        String::from_str(d)
    }
}

pub open spec fn search_header() -> Seq<char> {
    padded("Slug"@, 30) + " "@ + padded("Display Name"@, 25) + " "@ + "Description"@
}

/// The table row of `p` in `model search`.
pub open spec fn search_row(p: ModelPreset) -> Seq<char> {
    padded(p.model@, 30) + " "@ + padded(p.display_name@, 25) + " "@ + shown_description(p.description@)
}

/// The lines that `model search` prints for the matches `ms` of `query`.
pub open spec fn search_lines(ms: Seq<ModelPreset>, query: Seq<char>) -> Seq<Seq<char>> {
    if ms.len() == 0 {
        seq!["No models matching `"@ + query + "`."@]
    } else {
        seq![search_header(), dashes(100)] + ms.map_values(|p: ModelPreset| search_row(p)) + seq![
            ""@,
            decimal(ms.len()) + " models found."@,
        ]
    }
}

fn search_row_exec(p: &ModelPreset) -> (r: String)
    ensures
        r@ == search_row(*p),
{
    let mut r = pad_right(p.model.as_str(), 30);
    r.append(" ");
    let name = pad_right(p.display_name.as_str(), 25);
    r.append(name.as_str());
    r.append(" ");
    let desc = truncate_description(p.description.as_str());
    r.append(desc.as_str());
    r
}

/// The lines that `model search` prints (without `--json`) for its matches.
pub fn search_output_lines(matches: &Vec<ModelPreset>, query: &str) -> (r: Vec<String>)
    ensures
        lines_view(r@) == search_lines(matches@, query@),
{
    let mut lines: Vec<String> = Vec::new();
    if matches.len() == 0 {
        push_line(&mut lines, join3(String::from_str("No models matching `"), query, "`."));
        assert(lines_view(lines@) =~= search_lines(matches@, query@));
        return lines;
    }
    let mut header = pad_right("Slug", 30);
    header.append(" ");
    let h2 = pad_right("Display Name", 25);
    header.append(h2.as_str());
    header.append(" ");
    header.append("Description");
    push_line(&mut lines, header);
    push_line(&mut lines, dash_line(100));
    let ghost head = lines_view(lines@);
    let mut i: usize = 0;
    while i < matches.len()
        invariant
            i <= matches@.len(),
            lines_view(lines@) == head + matches@.take(i as int).map_values(|p: ModelPreset| search_row(p)),
        decreases matches.len() - i,
    {
        push_line(&mut lines, search_row_exec(&matches[i]));
        i = i + 1;
        assert(matches@.take(i as int).map_values(|p: ModelPreset| search_row(p)) =~= matches@.take(
            (i - 1) as int,
        ).map_values(|p: ModelPreset| search_row(p)).push(search_row(matches@[i - 1])));
    }
    assert(matches@.take(matches@.len() as int) =~= matches@);
    let ghost rows = lines_view(lines@);
    push_line(&mut lines, String::new());
    let n = u64_to_decimal(matches.len() as u64);
    push_line(&mut lines, join3(n, " models found.", ""));
    proof {
        reveal_strlit("");
        assert(""@ =~= Seq::<char>::empty());
        assert(lines_view(lines@) =~= rows + seq![""@, decimal(matches@.len()) + " models found."@]);
    }
    assert(lines_view(lines@) =~= search_lines(matches@, query@));
    lines
}

// ---------------------------------------------------------------------------
// model use
// ---------------------------------------------------------------------------

/// The message for an unknown reasoning effort.
pub open spec fn unknown_effort_message(e: Seq<char>) -> Seq<char> {
    "Unknown reasoning effort `"@ + e + "`. Use `low`, `medium`, or `high`."@
}

/// The reasoning effort that `model use --effort` asks for: `low`, `medium`
/// and `high` are accepted, no `--effort` asks for none, anything else is an
/// error with `unknown_effort_message`.
pub open spec fn effort_choice(effort: Option<String>) -> Result<Option<ReasoningEffort>, Seq<char>> {
    match effort {
        None => Ok(None),
        Some(e) => if e@ == "low"@ {
            Ok(Some(ReasoningEffort::Low))
        } else if e@ == "medium"@ {
            Ok(Some(ReasoningEffort::Medium))
        } else if e@ == "high"@ {
            Ok(Some(ReasoningEffort::High))
        } else {
            Err(unknown_effort_message(e@))
        },
    }
}

/// Parses the `--effort` argument of `model use`.
pub fn parse_effort(effort: &Option<String>) -> (r: Result<Option<ReasoningEffort>, String>)
    ensures
        match (r, effort_choice(*effort)) {
            (Ok(a), Ok(b)) => a == b,
            (Err(m), Err(n)) => m@ == n,
            _ => false,
        },
{
    match effort {
        None => Ok(None),
        Some(e) => {
            if str_eq(e.as_str(), "low") {
                Ok(Some(ReasoningEffort::Low))
            } else if str_eq(e.as_str(), "medium") {
                Ok(Some(ReasoningEffort::Medium))
            } else if str_eq(e.as_str(), "high") {
                Ok(Some(ReasoningEffort::High))
            } else {
                Err(join3(String::from_str("Unknown reasoning effort `"), e.as_str(), "`. Use `low`, `medium`, or `high`."))
            }
        },
    }
}

/// The line printed once the default model is set.
pub fn model_set_line(model: &str) -> (r: String)
    ensures
        r@ == "Default model set to `"@ + model@ + "`."@,
{
    join3(String::from_str("Default model set to `"), model, "`.")
}

/// The lines that report the configuration after `model use`: the active
/// model (or `(provider default)`) and the provider's name and id.
pub fn active_model_lines(active_model: &Option<String>, provider_name: &str, provider_id: &str) -> (r: Vec<
    String,
>)
    ensures
        lines_view(r@) == seq![
            "Active model: "@ + current_label(*active_model),
            "Provider: "@ + provider_name@ + " ("@ + provider_id@ + ")"@,
        ],
{
    let mut lines: Vec<String> = Vec::new();
    let label = current_model_label(active_model);
    push_line(&mut lines, join3(String::from_str("Active model: "), label.as_str(), ""));
    let mut p = join3(String::from_str("Provider: "), provider_name, " (");
    p.append(provider_id);
    p.append(")");
    push_line(&mut lines, p);
    proof {
        reveal_strlit("");
        assert(""@ =~= Seq::<char>::empty());
    }
    assert(lines_view(lines@) =~= seq![
        "Active model: "@ + current_label(*active_model),
        "Provider: "@ + provider_name@ + " ("@ + provider_id@ + ")"@,
    ]);
    lines
}


// ---------------------------------------------------------------------------
// Laws
// ---------------------------------------------------------------------------

/// `model list` shows exactly the catalog presets that are shown in the picker
/// (or all, with `--all`) and whose provider is the one asked for.
pub proof fn lemma_listed_members(ps: Seq<ModelPreset>, all: bool, provider: Option<String>, x: ModelPreset)
    ensures
        listed(ps, all, provider).contains(x) <==> (ps.contains(x) && is_listed(x, all, provider)),
{
    broadcast use vstd::seq_lib::group_filter_ensures;

    let l = listed(ps, all, provider);
    if l.contains(x) {
        ps.lemma_filter_contains_rev(listed_pred(all, provider), x);
        let k = choose|k: int| 0 <= k < l.len() && l[k] == x;
        assert(listed_pred(all, provider)(l[k]));
    }
    if ps.contains(x) && is_listed(x, all, provider) {
        let k = choose|k: int| 0 <= k < ps.len() && ps[k] == x;
        assert(l.contains(ps[k]));
    }
}

/// `model search` finds exactly the catalog presets whose lowercased slug,
/// display name or description contains the lowercased query.
pub proof fn lemma_matching_members(ps: Seq<ModelPreset>, q: Seq<char>, x: ModelPreset)
    ensures
        matching(ps, q).contains(x) <==> (ps.contains(x) && matches_query(x, q)),
{
    broadcast use vstd::seq_lib::group_filter_ensures;

    let m = matching(ps, q);
    if m.contains(x) {
        ps.lemma_filter_contains_rev(matching_pred(q), x);
        let k = choose|k: int| 0 <= k < m.len() && m[k] == x;
        assert(matching_pred(q)(m[k]));
    }
    if ps.contains(x) && matches_query(x, q) {
        let k = choose|k: int| 0 <= k < ps.len() && ps[k] == x;
        assert(m.contains(ps[k]));
    }
}

proof fn lemma_insert_multiset(s: Seq<ModelPreset>, p: ModelPreset)
    ensures
        insert_by_name(s, p).to_multiset() == s.to_multiset().insert(p),
    decreases s.len(),
{
    broadcast use vstd::seq_lib::group_to_multiset_ensures, vstd::multiset::group_multiset_axioms;

    if s.len() == 0 {
        assert(seq![p] =~= Seq::<ModelPreset>::empty().push(p));
    } else {
        assert(s =~= s.drop_last().push(s.last()));
        if seq_lt(p.display_name@, s.last().display_name@) {
            lemma_insert_multiset(s.drop_last(), p);
            assert(insert_by_name(s, p).to_multiset() =~= s.to_multiset().insert(p));
        }
    }
}

/// Sorting the listed presets by display name keeps every preset, each as
/// often as before, and adds none.
pub proof fn lemma_sort_permutes(s: Seq<ModelPreset>)
    ensures
        sorted_by_name(s).to_multiset() == s.to_multiset(),
    decreases s.len(),
{
    broadcast use vstd::seq_lib::group_to_multiset_ensures, vstd::multiset::group_multiset_axioms;

    if s.len() > 0 {
        lemma_sort_permutes(s.drop_last());
        lemma_insert_multiset(sorted_by_name(s.drop_last()), s.last());
        assert(s =~= s.drop_last().push(s.last()));
    }
}

proof fn lemma_insert_members(s: Seq<ModelPreset>, p: ModelPreset, x: ModelPreset)
    ensures
        insert_by_name(s, p).contains(x) ==> x == p || s.contains(x),
{
    broadcast use vstd::seq_lib::group_to_multiset_ensures, vstd::multiset::group_multiset_axioms;

    lemma_insert_multiset(s, p);
    if insert_by_name(s, p).contains(x) {
        assert(insert_by_name(s, p).to_multiset().count(x) > 0);
    }
}

proof fn lemma_insert_keeps_sorted(s: Seq<ModelPreset>, p: ModelPreset)
    requires
        is_sorted_by_name(s),
    ensures
        is_sorted_by_name(insert_by_name(s, p)),
    decreases s.len(),
{
    if s.len() == 0 {
        return;
    }
    let last = s.last();
    let init = s.drop_last();
    assert(is_sorted_by_name(init)) by {
        assert forall|i: int, j: int| 0 <= i < j < init.len() implies !seq_lt(
            #[trigger] init[j].display_name@,
            #[trigger] init[i].display_name@,
        ) by {
            assert(init[i] == s[i] && init[j] == s[j]);
        }
    }
    if seq_lt(p.display_name@, last.display_name@) {
        lemma_insert_keeps_sorted(init, p);
        let t = insert_by_name(init, p);
        let r = t.push(last);
        assert forall|i: int, j: int| 0 <= i < j < r.len() implies !seq_lt(
            #[trigger] r[j].display_name@,
            #[trigger] r[i].display_name@,
        ) by {
            if j < t.len() {
                assert(r[i] == t[i] && r[j] == t[j]);
            } else {
                assert(r[j] == last);
                assert(r[i] == t[i]);
                assert(t.contains(t[i]));
                lemma_insert_members(init, p, t[i]);
                if t[i] == p {
                    lemma_seq_lt_asymmetric(p.display_name@, last.display_name@);
                } else {
                    let k = choose|k: int| 0 <= k < init.len() && init[k] == t[i];
                    assert(s[k] == t[i]);
                    assert(s[s.len() - 1] == last);
                }
            }
        }
    } else {
        let r = s.push(p);
        assert forall|i: int, j: int| 0 <= i < j < r.len() implies !seq_lt(
            #[trigger] r[j].display_name@,
            #[trigger] r[i].display_name@,
        ) by {
            if j < s.len() {
                assert(r[i] == s[i] && r[j] == s[j]);
            } else {
                assert(r[j] == p);
                assert(r[i] == s[i]);
                assert(s[s.len() - 1] == last);
                if i < s.len() - 1 {
                    lemma_seq_lt_total(s[i].display_name@, last.display_name@);
                    lemma_seq_lt_transitive(p.display_name@, s[i].display_name@, last.display_name@);
                }
            }
        }
    }
}

/// `model list` prints its presets in order of display name.
pub proof fn lemma_sort_sorted(s: Seq<ModelPreset>)
    ensures
        is_sorted_by_name(sorted_by_name(s)),
    decreases s.len(),
{
    if s.len() > 0 {
        lemma_sort_sorted(s.drop_last());
        lemma_insert_keeps_sorted(sorted_by_name(s.drop_last()), s.last());
    }
}

/// A description in the search table is never longer than 40 characters, and
/// a description of at most 40 characters is shown whole.
pub proof fn lemma_shown_description_fits(d: Seq<char>)
    ensures
        shown_description(d).len() <= 40,
        d.len() <= 40 ==> shown_description(d) == d,
{
    reveal_strlit("...");
}

/// For an ASCII query, searching with the query in capitals finds the same
/// presets in the same order: both calls match against the query made small.
pub proof fn lemma_ascii_query_case_insensitive(ps: Seq<ModelPreset>, q: Seq<char>)
    requires
        is_ascii_chars(q),
    ensures
        is_ascii_chars(ascii_upper(q)),
        matching(ps, ascii_lower(ascii_upper(q))) == matching(ps, ascii_lower(q)),
{
    lemma_ascii_upper_then_lower(q);
}

/// The empty query matches every model: `model search ""` lists the catalog.
pub proof fn lemma_empty_query_matches_all(ps: Seq<ModelPreset>)
    ensures
        is_ascii_chars(Seq::<char>::empty()),
        ascii_lower(Seq::<char>::empty()) == Seq::<char>::empty(),
        matching(ps, Seq::empty()) == ps,
    decreases ps.len(),
{
    assert(ascii_lower(Seq::<char>::empty()) =~= Seq::<char>::empty());
    if ps.len() == 0 {
        Seq::<ModelPreset>::empty().lemma_filter_len(matching_pred(Seq::empty()));
    } else {
        lemma_empty_query_matches_all(ps.drop_last());
        let p = ps.last();
        assert(occurs_at(Seq::<char>::empty(), lowercase(p.model@), 0)) by {
            assert(lowercase(p.model@).subrange(0, 0) =~= Seq::<char>::empty());
        }
        ps.drop_last().lemma_filter_push(p, matching_pred(Seq::empty()));
        assert(ps.drop_last().push(ps.last()) =~= ps);
    }
}

/// `model search` looks at the slug, the display name and the description:
/// a catalog preset is found exactly when one of the three, made small,
/// contains the query made small.
pub proof fn lemma_search_fields(ps: Seq<ModelPreset>, q: Seq<char>, p: ModelPreset)
    requires
        ps.contains(p),
    ensures
        matching(ps, q).contains(p) <==> (contains_seq(lowercase(p.model@), q) || contains_seq(
            lowercase(p.display_name@),
            q,
        ) || contains_seq(lowercase(p.description@), q)),
{
    lemma_matching_members(ps, q, p);
}

/// Each reasoning effort is printed under a name of its own, and the efforts
/// that `model use --effort` accepts are printed as the names it reads back
/// as the same effort: `low`, `medium` and `high`.
pub proof fn lemma_effort_names(e1: ReasoningEffort, e2: ReasoningEffort, name: String)
    ensures
        e1 != e2 ==> effort_name(e1) != effort_name(e2),
        effort_name(ReasoningEffort::Low) == "low"@,
        effort_name(ReasoningEffort::Medium) == "medium"@,
        effort_name(ReasoningEffort::High) == "high"@,
        (e1 == ReasoningEffort::Low || e1 == ReasoningEffort::Medium || e1 == ReasoningEffort::High) && name@
            == effort_name(e1) ==> effort_choice(Some(name)) == Ok::<Option<ReasoningEffort>, Seq<char>>(Some(e1)),
{
    reveal_strlit("none");
    reveal_strlit("minimal");
    reveal_strlit("low");
    reveal_strlit("medium");
    reveal_strlit("high");
    reveal_strlit("xhigh");
    if e1 != e2 {
        assert(effort_name(e1).len() != effort_name(e2).len() || effort_name(e1)[0] != effort_name(e2)[0]);
    }
    assert("low"@ != "medium"@ && "low"@ != "high"@ && "medium"@ != "high"@) by {
        assert("low"@.len() != "medium"@.len());
        assert("medium"@.len() != "high"@.len());
        assert("low"@.len() != "high"@.len());
    }
}

} // verus!
