use rojo_snapshot::path::{file_name, file_name_ends_with, file_name_trim_end, join, str_ends_with};
use rojo_snapshot::selector::{suffix_rule, transformer_for_file_name, RULE_COUNT};
use rojo_snapshot::{get_transformer, InstanceContext, Transformer};

fn select(path: &str) -> Option<Transformer> {
    get_transformer(&InstanceContext::new(), path)
}

#[test]
fn file_name_is_final_component() {
    assert_eq!(file_name("src/shared/foo.lua"), Some("foo.lua"));
    assert_eq!(file_name("foo.lua"), Some("foo.lua"));
    assert_eq!(file_name("src/"), None);
    assert_eq!(file_name(""), None);
    assert_eq!(file_name("src/.."), None);
    assert_eq!(file_name("src/."), None);
    assert_eq!(file_name("src/.gitignore"), Some(".gitignore"));
}

#[test]
fn suffix_checks_use_file_name_only() {
    assert!(str_ends_with("foo.server.lua", ".lua"));
    assert!(!str_ends_with("lua", ".lua"));
    assert!(file_name_ends_with("a.lua/b.txt", ".txt"));
    assert!(!file_name_ends_with("a.lua/b.txt", ".lua"));
    assert!(!file_name_ends_with("a.lua/", ".lua"));
}

#[test]
fn trim_end_strips_suffix_or_fails() {
    assert_eq!(file_name_trim_end("src/init.server.lua", ".lua"), Some("init.server"));
    assert_eq!(file_name_trim_end("src/init.csv", ".csv"), Some("init"));
    assert_eq!(file_name_trim_end("src/init.csv", ".lua"), None);
    assert_eq!(file_name_trim_end("src/.lua", ".lua"), Some(""));
}

#[test]
fn join_inserts_one_separator() {
    assert_eq!(join("src", "init.lua"), "src/init.lua");
    assert_eq!(join("src/", "init.lua"), "src/init.lua");
    assert_eq!(join("", "init.lua"), "init.lua");
}

#[test]
fn each_suffix_selects_its_transformer() {
    assert_eq!(select("a/x.server.lua"), Some(Transformer::LuauServer));
    assert_eq!(select("a/x.server.luau"), Some(Transformer::LuauServer));
    assert_eq!(select("a/x.client.lua"), Some(Transformer::LuauClient));
    assert_eq!(select("a/x.client.luau"), Some(Transformer::LuauClient));
    assert_eq!(select("a/x.lua"), Some(Transformer::LuauModule));
    assert_eq!(select("a/x.luau"), Some(Transformer::LuauModule));
    assert_eq!(select("a/x.project.json"), Some(Transformer::Project));
    assert_eq!(select("a/x.model.json"), Some(Transformer::JsonModel));
    assert_eq!(select("a/x.meta.json"), None);
    assert_eq!(select("a/x.json"), Some(Transformer::Json));
    assert_eq!(select("a/x.toml"), Some(Transformer::Toml));
    assert_eq!(select("a/x.csv"), Some(Transformer::Csv));
    assert_eq!(select("a/x.txt"), Some(Transformer::Plain));
    assert_eq!(select("a/x.rbxmx"), Some(Transformer::Rbxmx));
    assert_eq!(select("a/x.rbxm"), Some(Transformer::Rbxm));
    assert_eq!(select("a/x.png"), None);
    assert_eq!(select("a/README"), None);
}

#[test]
fn server_suffix_beats_generic_script_suffix() {
    assert_eq!(select("foo.server.lua"), Some(Transformer::LuauServer));
    assert_ne!(select("foo.server.lua"), Some(Transformer::LuauModule));
    assert_eq!(transformer_for_file_name("foo.server.luau"), Some(Transformer::LuauServer));
}

#[test]
fn sidecar_without_override_selects_nothing() {
    assert_eq!(select("settings.meta.json"), None);
    assert_eq!(select("src/init.meta.json"), None);
}

#[test]
fn override_beats_sidecar_suffix() {
    let mut ctx = InstanceContext::new();
    ctx.add_transformer_override("src/settings.meta.json", Transformer::Json);
    assert_eq!(get_transformer(&ctx, "src/settings.meta.json"), Some(Transformer::Json));
    assert_eq!(get_transformer(&ctx, "settings.meta.json"), None);
}

#[test]
fn later_override_replaces_earlier() {
    let mut ctx = InstanceContext::new();
    ctx.add_transformer_override("a.lua", Transformer::Plain);
    ctx.add_transformer_override("a.lua", Transformer::Ignore);
    assert_eq!(ctx.get_transformer_override("a.lua"), Some(Transformer::Ignore));
    assert_eq!(ctx.get_transformer_override("b.lua"), None);
    assert_eq!(get_transformer(&ctx, "a.lua"), Some(Transformer::Ignore));
}

#[test]
fn override_with_unknown_identifier_is_returned() {
    let mut ctx = InstanceContext::new();
    ctx.add_transformer_override("a.txt", Transformer::Other("Sprite".to_string()));
    assert_eq!(get_transformer(&ctx, "a.txt"), Some(Transformer::Other("Sprite".to_string())));
}

#[test]
fn rules_are_most_specific_first() {
    assert_eq!(RULE_COUNT, 15);
    assert_eq!(suffix_rule(0).0, ".server.lua");
    assert_eq!(suffix_rule(4).0, ".lua");
    assert_eq!(suffix_rule(8), (".meta.json", None));
    assert_eq!(suffix_rule(9).0, ".json");
    assert_eq!(suffix_rule(14), (".rbxm", Some(Transformer::Rbxm)));
}

#[test]
fn selection_is_repeatable() {
    let ctx = InstanceContext::new();
    let first = get_transformer(&ctx, "src/init.client.lua");
    let second = get_transformer(&ctx, "src/init.client.lua");
    assert_eq!(first, Some(Transformer::LuauClient));
    assert_eq!(first, second);
}
