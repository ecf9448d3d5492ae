//! Picks the transformer that owns a path: an override first, then the
//! file-name suffix rules, most specific first.

use vstd::prelude::*;

use crate::context::InstanceContext;
use crate::init::{init_candidates, init_transformers, INIT_CANDIDATE_COUNT};
use crate::path::{
    ends_with, file_name, file_name_ends_with_spec, file_name_of, lemma_differs_from_end, str_ends_with,
};
use crate::transformer::Transformer;

verus! {

/// How many suffix rules there are.
pub const RULE_COUNT: usize = 15;

/// The suffix rules in the order they are tried. A name takes the outcome of
/// the first rule whose suffix it ends with; an outcome of `None` (metadata
/// sidecar files) means the file never becomes an instance of its own.
pub open spec fn suffix_rules() -> Seq<(Seq<char>, Option<Transformer>)> {
    seq![
        (".server.lua"@, Some(Transformer::LuauServer)),
        (".server.luau"@, Some(Transformer::LuauServer)),
        (".client.lua"@, Some(Transformer::LuauClient)),
        (".client.luau"@, Some(Transformer::LuauClient)),
        (".lua"@, Some(Transformer::LuauModule)),
        (".luau"@, Some(Transformer::LuauModule)),
        (".project.json"@, Some(Transformer::Project)),
        (".model.json"@, Some(Transformer::JsonModel)),
        (".meta.json"@, None),
        (".json"@, Some(Transformer::Json)),
        (".toml"@, Some(Transformer::Toml)),
        (".csv"@, Some(Transformer::Csv)),
        (".txt"@, Some(Transformer::Plain)),
        (".rbxmx"@, Some(Transformer::Rbxmx)),
        (".rbxm"@, Some(Transformer::Rbxm)),
    ]
}

/// The outcome of the first rule at index `i` or later that `name` matches.
pub open spec fn first_rule_from(name: Seq<char>, i: int) -> Option<Option<Transformer>>
    decreases suffix_rules().len() - i,
{
    if i < 0 || i >= suffix_rules().len() {
        None
    } else if ends_with(name, suffix_rules()[i].0) {
        Some(suffix_rules()[i].1)
    } else {
        first_rule_from(name, i + 1)
    }
}

/// The transformer that the suffix rules give a file name, if any.
pub open spec fn transformer_for_name(name: Seq<char>) -> Option<Transformer> {
    match first_rule_from(name, 0) {
        Some(outcome) => outcome,
        None => None,
    }
}

/// The transformer owning `path` under the overrides `ctx`: the override when
/// there is one, otherwise what the suffix rules give its file name.
pub open spec fn transformer_for(ctx: Map<Seq<char>, Transformer>, path: Seq<char>) -> Option<Transformer> {
    if ctx.contains_key(path) {
        Some(ctx[path])
    } else {
        match file_name_of(path) {
            Some(name) => transformer_for_name(name),
            None => None,
        }
    }
}

/// The suffix rule at index `i`.
pub fn suffix_rule(i: usize) -> (r: (&'static str, Option<Transformer>))
    requires
        i < RULE_COUNT,
    ensures
        r.0@ == suffix_rules()[i as int].0,
        r.1 == suffix_rules()[i as int].1,
{
    match i {
        0 => (".server.lua", Some(Transformer::LuauServer)),
        1 => (".server.luau", Some(Transformer::LuauServer)),
        2 => (".client.lua", Some(Transformer::LuauClient)),
        3 => (".client.luau", Some(Transformer::LuauClient)),
        4 => (".lua", Some(Transformer::LuauModule)),
        5 => (".luau", Some(Transformer::LuauModule)),
        6 => (".project.json", Some(Transformer::Project)),
        7 => (".model.json", Some(Transformer::JsonModel)),
        8 => (".meta.json", None),
        9 => (".json", Some(Transformer::Json)),
        10 => (".toml", Some(Transformer::Toml)),
        11 => (".csv", Some(Transformer::Csv)),
        12 => (".txt", Some(Transformer::Plain)),
        13 => (".rbxmx", Some(Transformer::Rbxmx)),
        _ => (".rbxm", Some(Transformer::Rbxm)),
    }
}

/// The transformer that the suffix rules give a file name, trying each rule
/// in order.
pub fn transformer_for_file_name(name: &str) -> (r: Option<Transformer>)
    ensures
        r == transformer_for_name(name@),
{
    let mut i: usize = 0;
    while i < RULE_COUNT
        invariant
            i <= RULE_COUNT,
            suffix_rules().len() == RULE_COUNT,
            first_rule_from(name@, 0) == first_rule_from(name@, i as int),
        decreases RULE_COUNT - i,
    {
        let rule = suffix_rule(i);
        if str_ends_with(name, rule.0) {
            return rule.1;
        }
        i = i + 1;
    }
    None
}

/// Returns the transformer for the object. Any override rules in the `context`
/// take precedence.
pub fn get_transformer(context: &InstanceContext, path: &str) -> (r: Option<Transformer>)
    ensures
        r == transformer_for(context@, path@),
{
    if let Some(forced) = context.get_transformer_override(path) {
        return Some(forced);
    }
    match file_name(path) {
        Some(name) => transformer_for_file_name(name),
        None => None,
    }
}

/// An override always decides the transformer, whatever the file name says,
/// even for a metadata sidecar name.
pub proof fn lemma_override_wins(ctx: Map<Seq<char>, Transformer>, path: Seq<char>)
    requires
        ctx.contains_key(path),
    ensures
        transformer_for(ctx, path) == Some(ctx[path]),
{
}

/// A file name ending in a server-script suffix is a server script, never a
/// module, though it also ends in a generic script suffix.
pub proof fn lemma_server_suffix_wins(name: Seq<char>)
    requires
        ends_with(name, ".server.lua"@) || ends_with(name, ".server.luau"@),
    ensures
        transformer_for_name(name) == Some(Transformer::LuauServer),
{
    assert(suffix_rules()[0].0 == ".server.lua"@);
    assert(suffix_rules()[1].0 == ".server.luau"@);
    if !ends_with(name, ".server.lua"@) {
        assert(first_rule_from(name, 0) == first_rule_from(name, 1));
    }
}

/// Without an override, a path whose file name ends in a server-script
/// suffix is owned by the server-script transformer.
pub proof fn lemma_server_script_path(ctx: Map<Seq<char>, Transformer>, path: Seq<char>)
    requires
        !ctx.contains_key(path),
        file_name_ends_with_spec(path, ".server.lua"@) || file_name_ends_with_spec(path, ".server.luau"@),
    ensures
        transformer_for(ctx, path) == Some(Transformer::LuauServer),
{
    lemma_server_suffix_wins(file_name_of(path)->Some_0);
}

/// The rule at index `i` does not match `name`, which differs from its
/// suffix at `j` characters from the end of a suffix `u` of `name`.
proof fn lemma_rule_skipped(name: Seq<char>, i: int, u: Seq<char>, j: int)
    requires
        0 <= i < RULE_COUNT,
        ends_with(name, u),
        0 <= j < u.len(),
        j < suffix_rules()[i].0.len(),
        u[u.len() - 1 - j] != suffix_rules()[i].0[suffix_rules()[i].0.len() - 1 - j],
    ensures
        first_rule_from(name, i) == first_rule_from(name, i + 1),
{
    lemma_differs_from_end(name, suffix_rules()[i].0, u, j);
}

/// A metadata sidecar name never selects a transformer: sidecars only
/// annotate a sibling.
pub proof fn lemma_meta_sidecar_name(name: Seq<char>)
    requires
        ends_with(name, ".meta.json"@),
    ensures
        transformer_for_name(name) is None,
{
    reveal_strlit(".server.lua");
    reveal_strlit(".server.luau");
    reveal_strlit(".client.lua");
    reveal_strlit(".client.luau");
    reveal_strlit(".lua");
    reveal_strlit(".luau");
    reveal_strlit(".project.json");
    reveal_strlit(".model.json");
    reveal_strlit(".meta.json");
    let m = ".meta.json"@;
    lemma_rule_skipped(name, 0, m, 0);
    lemma_rule_skipped(name, 1, m, 0);
    lemma_rule_skipped(name, 2, m, 0);
    lemma_rule_skipped(name, 3, m, 0);
    lemma_rule_skipped(name, 4, m, 0);
    lemma_rule_skipped(name, 5, m, 0);
    lemma_rule_skipped(name, 6, m, 5);
    lemma_rule_skipped(name, 7, m, 5);
}

/// Each init candidate's name selects the transformer that its position in
/// the candidate list gives it.
pub proof fn lemma_init_candidate_name(k: int)
    requires
        0 <= k < INIT_CANDIDATE_COUNT,
    ensures
        transformer_for_name(init_candidates()[k]) == Some(init_transformers()[k]),
{
    reveal_strlit("default.project.json");
    reveal_strlit("init.luau");
    reveal_strlit("init.lua");
    reveal_strlit("init.server.luau");
    reveal_strlit("init.server.lua");
    reveal_strlit("init.client.luau");
    reveal_strlit("init.client.lua");
    reveal_strlit("init.csv");
    reveal_strlit(".server.lua");
    reveal_strlit(".server.luau");
    reveal_strlit(".client.lua");
    reveal_strlit(".client.luau");
    reveal_strlit(".lua");
    reveal_strlit(".luau");
    reveal_strlit(".project.json");
    reveal_strlit(".model.json");
    reveal_strlit(".meta.json");
    reveal_strlit(".json");
    reveal_strlit(".toml");
    reveal_strlit(".csv");
    let name = init_candidates()[k];
    assert(name.subrange(0, name.len() as int) =~= name);
    if k == 0 {
        let t = suffix_rules()[6].0;
        assert(name.subrange(name.len() - t.len(), name.len() as int) =~= t);
        lemma_rule_skipped(name, 0, name, 0);
        lemma_rule_skipped(name, 1, name, 0);
        lemma_rule_skipped(name, 2, name, 0);
        lemma_rule_skipped(name, 3, name, 0);
        lemma_rule_skipped(name, 4, name, 0);
        lemma_rule_skipped(name, 5, name, 0);
    } else if k == 1 {
        let t = suffix_rules()[5].0;
        assert(name.subrange(name.len() - t.len(), name.len() as int) =~= t);
        lemma_rule_skipped(name, 0, name, 0);
        lemma_rule_skipped(name, 1, name, 5);
        lemma_rule_skipped(name, 2, name, 0);
        lemma_rule_skipped(name, 3, name, 6);
        lemma_rule_skipped(name, 4, name, 0);
    } else if k == 2 {
        let t = suffix_rules()[4].0;
        assert(name.subrange(name.len() - t.len(), name.len() as int) =~= t);
        lemma_rule_skipped(name, 0, name, 4);
        lemma_rule_skipped(name, 1, name, 0);
        lemma_rule_skipped(name, 2, name, 5);
        lemma_rule_skipped(name, 3, name, 0);
    } else if k == 3 {
        let t = suffix_rules()[1].0;
        assert(name.subrange(name.len() - t.len(), name.len() as int) =~= t);
        lemma_rule_skipped(name, 0, name, 0);
    } else if k == 4 {
        let t = suffix_rules()[0].0;
        assert(name.subrange(name.len() - t.len(), name.len() as int) =~= t);
    } else if k == 5 {
        let t = suffix_rules()[3].0;
        assert(name.subrange(name.len() - t.len(), name.len() as int) =~= t);
        lemma_rule_skipped(name, 0, name, 0);
        lemma_rule_skipped(name, 1, name, 5);
        lemma_rule_skipped(name, 2, name, 0);
    } else if k == 6 {
        let t = suffix_rules()[2].0;
        assert(name.subrange(name.len() - t.len(), name.len() as int) =~= t);
        lemma_rule_skipped(name, 0, name, 4);
        lemma_rule_skipped(name, 1, name, 0);
    } else if k == 7 {
        let t = suffix_rules()[11].0;
        assert(name.subrange(name.len() - t.len(), name.len() as int) =~= t);
        lemma_rule_skipped(name, 0, name, 0);
        lemma_rule_skipped(name, 1, name, 0);
        lemma_rule_skipped(name, 2, name, 0);
        lemma_rule_skipped(name, 3, name, 0);
        lemma_rule_skipped(name, 4, name, 0);
        lemma_rule_skipped(name, 5, name, 0);
        lemma_rule_skipped(name, 6, name, 0);
        lemma_rule_skipped(name, 7, name, 0);
        lemma_rule_skipped(name, 8, name, 0);
        lemma_rule_skipped(name, 9, name, 0);
        lemma_rule_skipped(name, 10, name, 0);
    }
}

} // verus!
