//! The init files that make a directory a composite object, in priority
//! order.

use vstd::prelude::*;

use crate::path::{is_separator, join_spec, lemma_file_name_of_join, file_name_of};
use crate::transformer::Transformer;

verus! {

/// How many init candidates there are.
pub const INIT_CANDIDATE_COUNT: usize = 8;

/// The init file names, probed in this order; the first that exists wins.
pub open spec fn init_candidates() -> Seq<Seq<char>> {
    seq![
        "default.project.json"@,
        "init.luau"@,
        "init.lua"@,
        "init.server.luau"@,
        "init.server.lua"@,
        "init.client.luau"@,
        "init.client.lua"@,
        "init.csv"@,
    ]
}

/// The path of the first init candidate at index `k` or later that is among
/// the existing paths `present`.
pub open spec fn init_from(dir: Seq<char>, present: Set<Seq<char>>, k: int) -> Option<Seq<char>>
    decreases init_candidates().len() - k,
{
    if k < 0 || k >= init_candidates().len() {
        None
    } else if present.contains(join_spec(dir, init_candidates()[k])) {
        Some(join_spec(dir, init_candidates()[k]))
    } else {
        init_from(dir, present, k + 1)
    }
}

/// The init file of the directory `dir`, given the set of existing paths.
pub open spec fn resolve_init(dir: Seq<char>, present: Set<Seq<char>>) -> Option<Seq<char>> {
    init_from(dir, present, 0)
}

/// The init candidate at index `i`.
pub fn init_candidate(i: usize) -> (r: &'static str)
    requires
        i < INIT_CANDIDATE_COUNT,
    ensures
        r@ == init_candidates()[i as int],
{
    match i {
        0 => "default.project.json",
        1 => "init.luau",
        2 => "init.lua",
        3 => "init.server.luau",
        4 => "init.server.lua",
        5 => "init.client.luau",
        6 => "init.client.lua",
        _ => "init.csv",
    }
}

/// A composite-project file wins over every init script beside it.
pub proof fn lemma_project_file_wins(dir: Seq<char>, present: Set<Seq<char>>)
    requires
        present.contains(join_spec(dir, "default.project.json"@)),
    ensures
        resolve_init(dir, present) == Some(join_spec(dir, "default.project.json"@)),
{
    assert(init_candidates()[0] == "default.project.json"@);
}

/// With no project file and no module script, a server init script wins over
/// a client one: server candidates come before client candidates.
pub proof fn lemma_server_before_client(dir: Seq<char>, present: Set<Seq<char>>)
    requires
        !present.contains(join_spec(dir, "default.project.json"@)),
        !present.contains(join_spec(dir, "init.luau"@)),
        !present.contains(join_spec(dir, "init.lua"@)),
        present.contains(join_spec(dir, "init.server.luau"@)) || present.contains(
            join_spec(dir, "init.server.lua"@),
        ),
    ensures
        resolve_init(dir, present) == Some(
            join_spec(
                dir,
                if present.contains(join_spec(dir, "init.server.luau"@)) {
                    "init.server.luau"@
                } else {
                    "init.server.lua"@
                },
            ),
        ),
{
    let c = init_candidates();
    assert(c[0] == "default.project.json"@ && c[1] == "init.luau"@ && c[2] == "init.lua"@);
    assert(c[3] == "init.server.luau"@ && c[4] == "init.server.lua"@);
    assert(init_from(dir, present, 0) == init_from(dir, present, 1));
    assert(init_from(dir, present, 1) == init_from(dir, present, 2));
    assert(init_from(dir, present, 2) == init_from(dir, present, 3));
    if !present.contains(join_spec(dir, "init.server.luau"@)) {
        assert(init_from(dir, present, 3) == init_from(dir, present, 4));
    }
}

/// The transformer that each init candidate's name selects, by position.
pub open spec fn init_transformers() -> Seq<Transformer> {
    seq![
        Transformer::Project,
        Transformer::LuauModule,
        Transformer::LuauModule,
        Transformer::LuauServer,
        Transformer::LuauServer,
        Transformer::LuauClient,
        Transformer::LuauClient,
        Transformer::Csv,
    ]
}

/// Each init candidate is a single path component, so it is the file name
/// of its path inside any directory.
pub proof fn lemma_init_candidate_file_name(dir: Seq<char>, k: int)
    requires
        0 <= k < INIT_CANDIDATE_COUNT,
    ensures
        file_name_of(join_spec(dir, init_candidates()[k])) == Some(init_candidates()[k]),
{
    reveal_strlit("default.project.json");
    reveal_strlit("init.luau");
    reveal_strlit("init.lua");
    reveal_strlit("init.server.luau");
    reveal_strlit("init.server.lua");
    reveal_strlit("init.client.luau");
    reveal_strlit("init.client.lua");
    reveal_strlit("init.csv");
    let name = init_candidates()[k];
    assert(name.len() > 2);
    assert(forall|i: int| 0 <= i < name.len() ==> !is_separator(#[trigger] name[i]));
    lemma_file_name_of_join(dir, name);
}

} // verus!
