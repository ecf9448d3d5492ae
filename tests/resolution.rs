use std::collections::HashMap;

use rojo_snapshot::dispatch::{
    decide_directory, decide_file, is_reserved, Call, Dispatch, DispatchError, EntryKind, ErrorKind, Resolution,
    Step,
};
use rojo_snapshot::init::{init_candidate, INIT_CANDIDATE_COUNT};
use rojo_snapshot::{InstanceContext, ScriptType, Transformer};
use EntryKind::{Directory, File};

fn tree(entries: &[(&str, EntryKind)]) -> HashMap<String, EntryKind> {
    entries.iter().map(|(p, k)| (p.to_string(), *k)).collect()
}

fn run(
    ctx: &InstanceContext,
    path: &str,
    fs: &HashMap<String, EntryKind>,
) -> Result<Option<Dispatch>, DispatchError> {
    let mut res = Resolution::new(path);
    let mut probe = res.probe_path();
    loop {
        match res.advance(ctx, fs.get(&probe).copied())? {
            Step::Probe(next) => probe = next,
            Step::Done(d) => return Ok(d),
        }
    }
}

fn call(call: Call, path: &str) -> Option<Dispatch> {
    Some(Dispatch { call, path: path.to_string() })
}


#[test]
fn candidate_order_is_fixed() {
    let names: Vec<&str> = (0..INIT_CANDIDATE_COUNT).map(init_candidate).collect();
    assert_eq!(
        names,
        vec![
            "default.project.json",
            "init.luau",
            "init.lua",
            "init.server.luau",
            "init.server.lua",
            "init.client.luau",
            "init.client.lua",
            "init.csv",
        ]
    );
}

#[test]
fn project_file_beats_init_script() {
    let ctx = InstanceContext::new();
    let fs = tree(&[
        ("game", Directory),
        ("game/default.project.json", File),
        ("game/init.lua", File),
        ("game/init.server.lua", File),
    ]);
    assert_eq!(run(&ctx, "game", &fs), Ok(call(Call::Project, "game/default.project.json")));
}

#[test]
fn server_init_beats_client_init() {
    let ctx = InstanceContext::new();
    let fs = tree(&[("svc", Directory), ("svc/init.client.lua", File), ("svc/init.server.lua", File)]);
    assert_eq!(run(&ctx, "svc", &fs), Ok(call(Call::LuaInit(ScriptType::Server), "svc/init.server.lua")));
    let fs = tree(&[("svc", Directory), ("svc/init.client.luau", File)]);
    assert_eq!(run(&ctx, "svc", &fs), Ok(call(Call::LuaInit(ScriptType::Client), "svc/init.client.luau")));
}

#[test]
fn luau_module_beats_lua_module() {
    let ctx = InstanceContext::new();
    let fs = tree(&[("m", Directory), ("m/init.lua", File), ("m/init.luau", File)]);
    assert_eq!(run(&ctx, "m", &fs), Ok(call(Call::LuaInit(ScriptType::Module), "m/init.luau")));
}

#[test]
fn csv_init_makes_csv_directory() {
    let ctx = InstanceContext::new();
    let fs = tree(&[("loc", Directory), ("loc/init.csv", File)]);
    assert_eq!(run(&ctx, "loc", &fs), Ok(call(Call::CsvInit, "loc/init.csv")));
}

#[test]
fn directory_without_init_is_plain() {
    let ctx = InstanceContext::new();
    let fs = tree(&[("d", Directory), ("d/a.lua", File)]);
    assert_eq!(run(&ctx, "d", &fs), Ok(call(Call::Dir, "d")));
}

#[test]
fn init_directory_counts_as_present() {
    let ctx = InstanceContext::new();
    let fs = tree(&[("d", Directory), ("d/init.lua", Directory)]);
    assert_eq!(run(&ctx, "d", &fs), Ok(call(Call::LuaInit(ScriptType::Module), "d/init.lua")));
}

#[test]
fn init_override_to_plain_falls_back_to_directory() {
    let mut ctx = InstanceContext::new();
    ctx.add_transformer_override("d/init.lua", Transformer::Plain);
    let fs = tree(&[("d", Directory), ("d/init.lua", File)]);
    assert_eq!(run(&ctx, "d", &fs), Ok(call(Call::Dir, "d")));
}

#[test]
fn standalone_init_lua_has_no_instance() {
    let ctx = InstanceContext::new();
    let fs = tree(&[("d/init.lua", File)]);
    assert_eq!(run(&ctx, "d/init.lua", &fs), Ok(None));
    assert_eq!(run(&ctx, "init.lua", &tree(&[("init.lua", File)])), Ok(None));
}

#[test]
fn standalone_reserved_names_have_no_instance() {
    let ctx = InstanceContext::new();
    for p in ["d/init.luau", "d/init.server.lua", "d/init.client.luau", "d/init.csv"] {
        assert_eq!(run(&ctx, p, &tree(&[(p, File)])), Ok(None));
    }
    assert!(is_reserved("d/init.server.luau"));
    assert!(!is_reserved("d/init.model.json"));
    assert!(!is_reserved("d/initial.lua"));
}

#[test]
fn settings_meta_json_has_no_instance() {
    let ctx = InstanceContext::new();
    let fs = tree(&[("settings.meta.json", File)]);
    assert_eq!(run(&ctx, "settings.meta.json", &fs), Ok(None));
}

#[test]
fn missing_path_has_no_instance() {
    let ctx = InstanceContext::new();
    let fs = tree(&[("other.lua", File)]);
    assert_eq!(run(&ctx, "missing.lua", &fs), Ok(None));
}

#[test]
fn files_dispatch_by_suffix() {
    let ctx = InstanceContext::new();
    let cases = [
        ("a.server.lua", Call::Lua(ScriptType::Server)),
        ("a.client.luau", Call::Lua(ScriptType::Client)),
        ("a.lua", Call::Lua(ScriptType::Module)),
        ("a.project.json", Call::Project),
        ("a.model.json", Call::JsonModel),
        ("a.json", Call::Json),
        ("a.toml", Call::Toml),
        ("a.csv", Call::Csv),
        ("a.txt", Call::Txt),
        ("a.rbxmx", Call::Rbxmx),
        ("a.rbxm", Call::Rbxm),
    ];
    for (p, c) in cases {
        assert_eq!(run(&ctx, p, &tree(&[(p, File)])), Ok(call(c, p)));
    }
    assert_eq!(run(&ctx, "a.png", &tree(&[("a.png", File)])), Ok(None));
}

#[test]
fn ignore_override_has_no_instance() {
    let mut ctx = InstanceContext::new();
    ctx.add_transformer_override("a.lua", Transformer::Ignore);
    assert_eq!(decide_file(&ctx, "a.lua"), Ok(None));
}

#[test]
fn override_on_sidecar_dispatches() {
    let mut ctx = InstanceContext::new();
    ctx.add_transformer_override("x.meta.json", Transformer::Json);
    assert_eq!(decide_file(&ctx, "x.meta.json"), Ok(call(Call::Json, "x.meta.json")));
}

#[test]
fn unknown_override_fails_for_file() {
    let mut ctx = InstanceContext::new();
    ctx.add_transformer_override("a.lua", Transformer::Other("Sprite".to_string()));
    let err = run(&ctx, "a.lua", &tree(&[("a.lua", File)])).unwrap_err();
    assert_eq!(err.kind, ErrorKind::UnknownOverride);
    assert_eq!(err.subject, "Sprite");
    assert_eq!(err.message(), "Unknown rojo type: Sprite");
}

#[test]
fn unknown_override_fails_for_directory_init() {
    let mut ctx = InstanceContext::new();
    ctx.add_transformer_override("d/init.server.lua", Transformer::Other("Widget".to_string()));
    let fs = tree(&[("d", Directory), ("d/init.server.lua", File)]);
    let err = run(&ctx, "d", &fs).unwrap_err();
    assert_eq!(err, DispatchError { kind: ErrorKind::UnknownOverride, subject: "Widget".to_string() });
}

#[test]
fn file_without_name_is_invalid() {
    let ctx = InstanceContext::new();
    let err = run(&ctx, "a/..", &tree(&[("a/..", File)])).unwrap_err();
    assert_eq!(err.kind, ErrorKind::InvalidName);
    assert_eq!(err.message(), "Path had an invalid file name: a/..");
}

#[test]
fn decide_directory_without_init_is_plain() {
    let ctx = InstanceContext::new();
    assert_eq!(decide_directory(&ctx, "d", None), Ok(Dispatch { call: Call::Dir, path: "d".to_string() }));
    assert_eq!(
        decide_directory(&ctx, "d", Some("d/init.client.lua")),
        Ok(Dispatch { call: Call::LuaInit(ScriptType::Client), path: "d/init.client.lua".to_string() })
    );
}

#[test]
fn init_resolution_round_trip_is_stable() {
    let ctx = InstanceContext::new();
    let fs = tree(&[("d", Directory), ("d/init.server.luau", File)]);
    let first = run(&ctx, "d", &fs);
    let second = run(&ctx, "d", &fs);
    assert_eq!(first, Ok(call(Call::LuaInit(ScriptType::Server), "d/init.server.luau")));
    assert_eq!(first, second);
    assert_eq!(
        rojo_snapshot::get_transformer(&ctx, "d/init.server.luau"),
        rojo_snapshot::get_transformer(&ctx, "d/init.server.luau")
    );
}

#[test]
fn probes_follow_candidate_order() {
    let ctx = InstanceContext::new();
    let mut res = Resolution::new("d");
    assert_eq!(res.probe_path(), "d");
    let mut seen = Vec::new();
    let mut step = res.advance(&ctx, Some(Directory)).unwrap();
    while let Step::Probe(p) = step {
        assert_eq!(res.probe_path(), p);
        seen.push(p);
        step = res.advance(&ctx, None).unwrap();
    }
    assert_eq!(step, Step::Done(call(Call::Dir, "d")));
    assert_eq!(seen.len(), INIT_CANDIDATE_COUNT);
    assert_eq!(seen[0], "d/default.project.json");
    assert_eq!(seen[7], "d/init.csv");
}
