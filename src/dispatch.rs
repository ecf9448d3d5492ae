//! Resolves a path into the one handler call that produces its instance, or
//! into no instance at all.
//!
//! Resolution probes the filesystem step by step: the caller asks a
//! [`Resolution`] which path to probe, reports what it found, and repeats
//! until the resolution is done. The outcome is the one that [`resolve`]
//! gives for any filesystem that answers the probes the same way.

use vstd::prelude::*;

use crate::context::InstanceContext;
use crate::init::{
    init_candidate, init_candidates, init_from, init_transformers, lemma_init_candidate_file_name, resolve_init,
    INIT_CANDIDATE_COUNT,
};
use crate::path::{
    file_name, file_name_ends_with_spec, file_name_of, file_name_trim_end, file_name_trim_end_spec, join, join_spec,
    lemma_differs_from_end, str_eq,
};
use crate::selector::{get_transformer, lemma_init_candidate_name, lemma_meta_sidecar_name, transformer_for};
use crate::transformer::{ScriptType, Transformer};

verus! {

/// What an existing filesystem entry is.
#[derive(Debug, Clone, Copy, PartialEq, Eq, Structural)]
pub enum EntryKind {
    File,
    Directory,
}

/// The content handler to invoke, with the script role where one applies.
#[derive(Debug, Clone, Copy, PartialEq, Eq, Structural)]
pub enum Call {
    /// A composite-project file.
    Project,
    /// A directory configured by its init script.
    LuaInit(ScriptType),
    /// A directory configured by its tabular-data init file.
    CsvInit,
    /// A plain directory, whose children are resolved one by one.
    Dir,
    Lua(ScriptType),
    JsonModel,
    Json,
    Toml,
    Csv,
    Txt,
    Rbxmx,
    Rbxm,
}

/// One handler invocation: the handler and the path it is given.
#[derive(Debug, Clone, PartialEq, Eq)]
pub struct Dispatch {
    pub call: Call,
    pub path: String,
}

/// Why a path could not be resolved.
#[derive(Debug, Clone, Copy, PartialEq, Eq, Structural)]
pub enum ErrorKind {
    /// The path has no usable file name.
    InvalidName,
    /// An override names no known transformer.
    UnknownOverride,
}

/// A fatal resolution error, with the offending path or identifier.
#[derive(Debug, Clone, PartialEq, Eq)]
pub struct DispatchError {
    pub kind: ErrorKind,
    pub subject: String,
}

impl DispatchError {
    /// A message naming the error and its subject.
    pub fn message(&self) -> (r: String)
        ensures
            r@ == (match self.kind {
                ErrorKind::InvalidName => "Path had an invalid file name: "@,
                ErrorKind::UnknownOverride => "Unknown rojo type: "@,
            }) + self.subject@,
    {
        let mut r = match self.kind {
            ErrorKind::InvalidName => "Path had an invalid file name: ".to_owned(),
            ErrorKind::UnknownOverride => "Unknown rojo type: ".to_owned(),
        };
        r.append(self.subject.as_str());
        r
    }
}

/// The outcome of a resolution: no instance (`Ok(None)`), one handler call on
/// a path, or an error with its subject.
pub type Outcome = Result<Option<(Call, Seq<char>)>, (ErrorKind, Seq<char>)>;

pub open spec fn dispatch_view(d: Option<Dispatch>) -> Option<(Call, Seq<char>)> {
    match d {
        Some(d) => Some((d.call, d.path@)),
        None => None,
    }
}

pub open spec fn result_view(r: Result<Option<Dispatch>, DispatchError>) -> Outcome {
    match r {
        Ok(d) => Ok(dispatch_view(d)),
        Err(e) => Err((e.kind, e.subject@)),
    }
}

/// What the directory `dir` becomes, given the init file found in it.
pub open spec fn dir_outcome(
    ctx: Map<Seq<char>, Transformer>,
    dir: Seq<char>,
    init: Option<Seq<char>>,
) -> Outcome {
    match init {
        Some(p) => match transformer_for(ctx, p) {
            Some(Transformer::Project) => Ok(Some((Call::Project, p))),
            Some(Transformer::LuauModule) => Ok(Some((Call::LuaInit(ScriptType::Module), p))),
            Some(Transformer::LuauServer) => Ok(Some((Call::LuaInit(ScriptType::Server), p))),
            Some(Transformer::LuauClient) => Ok(Some((Call::LuaInit(ScriptType::Client), p))),
            Some(Transformer::Csv) => Ok(Some((Call::CsvInit, p))),
            Some(Transformer::Other(id)) => Err((ErrorKind::UnknownOverride, id@)),
            _ => Ok(Some((Call::Dir, dir))),
        },
        None => Ok(Some((Call::Dir, dir))),
    }
}

/// A stem left by stripping a script extension that marks an init script.
pub open spec fn is_reserved_stem(stem: Option<Seq<char>>) -> bool {
    stem == Some("init"@) || stem == Some("init.client"@) || stem == Some("init.server"@)
}

/// `path` names an init file, which only its directory consumes.
pub open spec fn is_reserved_file(path: Seq<char>) -> bool {
    is_reserved_stem(file_name_trim_end_spec(path, ".lua"@))
        || is_reserved_stem(file_name_trim_end_spec(path, ".luau"@))
        || file_name_trim_end_spec(path, ".csv"@) == Some("init"@)
}

/// The handler that a file owned by `t` is given, if any.
pub open spec fn file_call(t: Transformer) -> Option<Call> {
    match t {
        Transformer::Project => Some(Call::Project),
        Transformer::LuauModule => Some(Call::Lua(ScriptType::Module)),
        Transformer::LuauServer => Some(Call::Lua(ScriptType::Server)),
        Transformer::LuauClient => Some(Call::Lua(ScriptType::Client)),
        Transformer::Json => Some(Call::Json),
        Transformer::JsonModel => Some(Call::JsonModel),
        Transformer::Toml => Some(Call::Toml),
        Transformer::Csv => Some(Call::Csv),
        Transformer::Plain => Some(Call::Txt),
        Transformer::Rbxmx => Some(Call::Rbxmx),
        Transformer::Rbxm => Some(Call::Rbxm),
        Transformer::Ignore => None,
        Transformer::Other(_) => None,
    }
}

/// What the file at `path` becomes.
pub open spec fn file_outcome(ctx: Map<Seq<char>, Transformer>, path: Seq<char>) -> Outcome {
    if file_name_of(path) is None {
        Err((ErrorKind::InvalidName, path))
    } else if is_reserved_file(path) {
        Ok(None)
    } else {
        match transformer_for(ctx, path) {
            Some(Transformer::Other(id)) => Err((ErrorKind::UnknownOverride, id@)),
            Some(t) => match file_call(t) {
                Some(c) => Ok(Some((c, path))),
                None => Ok(None),
            },
            None => Ok(None),
        }
    }
}

/// What `path` becomes on the filesystem `fs`, which maps each existing path
/// to its kind.
pub open spec fn resolve(
    ctx: Map<Seq<char>, Transformer>,
    path: Seq<char>,
    fs: Map<Seq<char>, EntryKind>,
) -> Outcome {
    if !fs.contains_key(path) {
        Ok(None)
    } else if fs[path] == EntryKind::Directory {
        dir_outcome(ctx, path, init_from(path, fs.dom(), 0))
    } else {
        file_outcome(ctx, path)
    }
}

/// Whether `path` names an init file, which yields no instance of its own.
pub fn is_reserved(path: &str) -> (r: bool)
    ensures
        r == is_reserved_file(path@),
{
    let lua = file_name_trim_end(path, ".lua");
    let luau = file_name_trim_end(path, ".luau");
    let csv = file_name_trim_end(path, ".csv");
    is_reserved_stem_exec(lua) || is_reserved_stem_exec(luau) || match csv {
        Some(stem) => str_eq(stem, "init"),
        None => false,
    }
}

fn is_reserved_stem_exec(stem: Option<&str>) -> (r: bool)
    ensures
        r == is_reserved_stem(match stem {
            Some(s) => Some(s@),
            None => None,
        }),
{
    match stem {
        Some(s) => str_eq(s, "init") || str_eq(s, "init.client") || str_eq(s, "init.server"),
        None => false,
    }
}

fn unknown_override(id: &String) -> (e: DispatchError)
    ensures
        e.kind == ErrorKind::UnknownOverride,
        e.subject@ == id@,
{
    DispatchError { kind: ErrorKind::UnknownOverride, subject: id.clone() }
}

/// What the directory `dir` becomes, given the init file found in it, if any.
pub fn decide_directory(context: &InstanceContext, dir: &str, init: Option<&str>) -> (r: Result<
    Dispatch,
    DispatchError,
>)
    ensures
        result_view(
            match r {
                Ok(d) => Ok(Some(d)),
                Err(e) => Err(e),
            },
        ) == dir_outcome(
            context@,
            dir@,
            match init {
                Some(p) => Some(p@),
                None => None,
            },
        ),
{
    let plain = Dispatch { call: Call::Dir, path: dir.to_owned() };
    match init {
        None => Ok(plain),
        Some(p) => {
            let call = match get_transformer(context, p) {
                Some(Transformer::Project) => Call::Project,
                Some(Transformer::LuauModule) => Call::LuaInit(ScriptType::Module),
                Some(Transformer::LuauServer) => Call::LuaInit(ScriptType::Server),
                Some(Transformer::LuauClient) => Call::LuaInit(ScriptType::Client),
                Some(Transformer::Csv) => Call::CsvInit,
                Some(Transformer::Other(id)) => return Err(unknown_override(&id)),
                _ => return Ok(plain),
            };
            Ok(Dispatch { call, path: p.to_owned() })
        },
    }
}

/// What the file at `path` becomes.
pub fn decide_file(context: &InstanceContext, path: &str) -> (r: Result<Option<Dispatch>, DispatchError>)
    ensures
        result_view(r) == file_outcome(context@, path@),
{
    if file_name(path).is_none() {
        return Err(DispatchError { kind: ErrorKind::InvalidName, subject: path.to_owned() });
    }
    if is_reserved(path) {
        return Ok(None);
    }
    let call = match get_transformer(context, path) {
        Some(Transformer::Project) => Call::Project,
        Some(Transformer::LuauModule) => Call::Lua(ScriptType::Module),
        Some(Transformer::LuauServer) => Call::Lua(ScriptType::Server),
        Some(Transformer::LuauClient) => Call::Lua(ScriptType::Client),
        Some(Transformer::Json) => Call::Json,
        Some(Transformer::JsonModel) => Call::JsonModel,
        Some(Transformer::Toml) => Call::Toml,
        Some(Transformer::Csv) => Call::Csv,
        Some(Transformer::Plain) => Call::Txt,
        Some(Transformer::Rbxmx) => Call::Rbxmx,
        Some(Transformer::Rbxm) => Call::Rbxm,
        Some(Transformer::Other(id)) => return Err(unknown_override(&id)),
        Some(Transformer::Ignore) | None => return Ok(None),
    };
    Ok(Some(Dispatch { call, path: path.to_owned() }))
}

/// Where a resolution stands.
#[derive(Debug, Clone, Copy, PartialEq, Eq, Structural)]
pub enum Phase {
    /// The path itself is to be probed.
    Entry,
    /// The path is a directory; its init candidate at this index is to be
    /// probed.
    Init(usize),
}

/// The state of a resolution that proceeds one probe at a time.
pub struct Resolution {
    path: String,
    phase: Phase,
}

impl View for Resolution {
    type V = (Seq<char>, Phase);

    closed spec fn view(&self) -> (Seq<char>, Phase) {
        (self.path@, self.phase)
    }
}

/// A state is well formed when its candidate index is in range.
pub open spec fn wf_state(s: (Seq<char>, Phase)) -> bool {
    match s.1 {
        Phase::Init(k) => k < INIT_CANDIDATE_COUNT,
        Phase::Entry => true,
    }
}

/// The path that the state `s` asks to probe next.
pub open spec fn probe_target(s: (Seq<char>, Phase)) -> Seq<char> {
    match s.1 {
        Phase::Entry => s.0,
        Phase::Init(k) => join_spec(s.0, init_candidates()[k as int]),
    }
}

/// The outcome that a resolution in state `s` reaches on the filesystem `fs`.
pub open spec fn outcome_from(
    ctx: Map<Seq<char>, Transformer>,
    s: (Seq<char>, Phase),
    fs: Map<Seq<char>, EntryKind>,
) -> Outcome {
    match s.1 {
        Phase::Entry => resolve(ctx, s.0, fs),
        Phase::Init(k) => dir_outcome(ctx, s.0, init_from(s.0, fs.dom(), k as int)),
    }
}

/// `fs` gives `probed` as the result of probing `target`.
pub open spec fn answers(fs: Map<Seq<char>, EntryKind>, target: Seq<char>, probed: Option<EntryKind>) -> bool {
    match probed {
        Some(kind) => fs.contains_key(target) && fs[target] == kind,
        None => !fs.contains_key(target),
    }
}

/// What a resolution asks for after a probe.
#[derive(Debug, Clone, PartialEq, Eq)]
pub enum Step {
    /// Probe this path and report what was found.
    Probe(String),
    /// The resolution is over: no instance, or this handler call.
    Done(Option<Dispatch>),
}

impl Resolution {
    /// Starts resolving `path`; the first probe is of `path` itself.
    pub fn new(path: &str) -> (r: Resolution)
        ensures
            r@ == (path@, Phase::Entry),
    {
        Resolution { path: path.to_owned(), phase: Phase::Entry }
    }

    /// The path to probe next.
    pub fn probe_path(&self) -> (r: String)
        requires
            wf_state(self@),
        ensures
            r@ == probe_target(self@),
    {
        match self.phase {
            Phase::Entry => self.path.clone(),
            Phase::Init(k) => join(self.path.as_str(), init_candidate(k)),
        }
    }

    /// Takes the result of probing [`Self::probe_path`]: `None` when nothing
    /// exists there. A directory moves on to its first init candidate, and an
    /// absent candidate to the next one; every other result finishes, so at
    /// most one probe per candidate follows the first. On every filesystem
    /// that gives this result, the outcome is unchanged by the step, and a
    /// finished resolution returns that outcome.
    pub fn advance(&mut self, context: &InstanceContext, probed: Option<EntryKind>) -> (r: Result<
        Step,
        DispatchError,
    >)
        requires
            wf_state(old(self)@),
        ensures
            wf_state(final(self)@),
            final(self)@.0 == old(self)@.0,
            r matches Ok(Step::Probe(p)) ==> p@ == probe_target(final(self)@),
            old(self)@.1 == Phase::Entry && probed == Some(EntryKind::Directory) ==> final(self)@.1
                == Phase::Init(0) && r matches Ok(Step::Probe(_)),
            old(self)@.1 == Phase::Entry && probed != Some(EntryKind::Directory) ==> !(r matches Ok(
                Step::Probe(_),
            )),
            old(self)@.1 is Init && probed is None && old(self)@.1->Init_0 + 1 < INIT_CANDIDATE_COUNT
                ==> final(self)@.1 == Phase::Init((old(self)@.1->Init_0 + 1) as usize) && r matches Ok(
                Step::Probe(_),
            ),
            old(self)@.1 is Init && !(probed is None && old(self)@.1->Init_0 + 1 < INIT_CANDIDATE_COUNT)
                ==> !(r matches Ok(Step::Probe(_))),
            forall|fs: Map<Seq<char>, EntryKind>|
                answers(fs, probe_target(old(self)@), probed) ==> #[trigger] outcome_from(
                    context@,
                    old(self)@,
                    fs,
                ) == match r {
                    Ok(Step::Done(d)) => Ok(dispatch_view(d)),
                    Ok(Step::Probe(_)) => outcome_from(context@, final(self)@, fs),
                    Err(e) => Err((e.kind, e.subject@)),
                },
    {
        let ghost start = self@;
        let ghost ctx = context@;
        match self.phase {
            Phase::Entry => match probed {
                None => {
                    assert forall|fs: Map<Seq<char>, EntryKind>|
                        answers(fs, probe_target(start), probed) implies #[trigger] outcome_from(ctx, start, fs)
                            == Ok::<Option<(Call, Seq<char>)>, (ErrorKind, Seq<char>)>(None) by {}
                    Ok(Step::Done(None))
                },
                Some(EntryKind::File) => {
                    let d = decide_file(context, self.path.as_str());
                    assert forall|fs: Map<Seq<char>, EntryKind>|
                        answers(fs, probe_target(start), probed) implies #[trigger] outcome_from(ctx, start, fs)
                            == result_view(d) by {}
                    match d {
                        Ok(d) => Ok(Step::Done(d)),
                        Err(e) => Err(e),
                    }
                },
                Some(EntryKind::Directory) => {
                    self.phase = Phase::Init(0);
                    assert forall|fs: Map<Seq<char>, EntryKind>|
                        answers(fs, probe_target(start), probed) implies #[trigger] outcome_from(ctx, start, fs)
                            == outcome_from(ctx, self@, fs) by {}
                    Ok(Step::Probe(join(self.path.as_str(), init_candidate(0))))
                },
            },
            Phase::Init(k) => {
                let candidate = join(self.path.as_str(), init_candidate(k));
                match probed {
                    Some(_) => {
                        let d = decide_directory(context, self.path.as_str(), Some(candidate.as_str()));
                        assert forall|fs: Map<Seq<char>, EntryKind>|
                            answers(fs, probe_target(start), probed) implies #[trigger] outcome_from(
                                ctx,
                                start,
                                fs,
                            ) == dir_outcome(ctx, start.0, Some(candidate@)) by {
                            assert(fs.dom().contains(candidate@));
                        }
                        match d {
                            Ok(d) => Ok(Step::Done(Some(d))),
                            Err(e) => Err(e),
                        }
                    },
                    None => {
                        if k + 1 < INIT_CANDIDATE_COUNT {
                            self.phase = Phase::Init(k + 1);
                            assert forall|fs: Map<Seq<char>, EntryKind>|
                                answers(fs, probe_target(start), probed) implies #[trigger] outcome_from(
                                    ctx,
                                    start,
                                    fs,
                                ) == outcome_from(ctx, self@, fs) by {
                                assert(!fs.dom().contains(candidate@));
                            }
                            Ok(Step::Probe(join(self.path.as_str(), init_candidate(k + 1))))
                        } else {
                            assert forall|fs: Map<Seq<char>, EntryKind>|
                                answers(fs, probe_target(start), probed) implies #[trigger] outcome_from(
                                    ctx,
                                    start,
                                    fs,
                                ) == Ok::<Option<(Call, Seq<char>)>, (ErrorKind, Seq<char>)>(
                                    Some((Call::Dir, start.0)),
                                ) by {
                                assert(!fs.dom().contains(candidate@));
                                assert(init_candidates().len() == INIT_CANDIDATE_COUNT);
                                assert(init_from(start.0, fs.dom(), k + 1) is None);
                            }
                            Ok(Step::Done(Some(Dispatch { call: Call::Dir, path: self.path.clone() })))
                        }
                    },
                }
            },
        }
    }
}

/// A path that does not exist yields no instance; it is no error.
pub proof fn lemma_absent_path_no_instance(
    ctx: Map<Seq<char>, Transformer>,
    path: Seq<char>,
    fs: Map<Seq<char>, EntryKind>,
)
    requires
        !fs.contains_key(path),
    ensures
        resolve(ctx, path, fs) == Ok::<Option<(Call, Seq<char>)>, (ErrorKind, Seq<char>)>(None),
{
}

/// A file named `init.lua` met on its own yields no instance: its directory
/// consumes it.
pub proof fn lemma_standalone_init_script(
    ctx: Map<Seq<char>, Transformer>,
    path: Seq<char>,
    fs: Map<Seq<char>, EntryKind>,
)
    requires
        fs.contains_key(path),
        fs[path] == EntryKind::File,
        file_name_of(path) == Some("init.lua"@),
    ensures
        resolve(ctx, path, fs) == Ok::<Option<(Call, Seq<char>)>, (ErrorKind, Seq<char>)>(None),
{
    reveal_strlit("init.lua");
    reveal_strlit(".lua");
    reveal_strlit("init");
    let name = "init.lua"@;
    assert(name.subrange(4, 8) =~= ".lua"@);
    assert(name.subrange(0, 4) =~= "init"@);
    assert(file_name_trim_end_spec(path, ".lua"@) == Some("init"@));
}

/// A fatal error names an override identifier that no transformer answers
/// to, when it reaches a standalone file.
pub proof fn lemma_unknown_override_file(
    ctx: Map<Seq<char>, Transformer>,
    path: Seq<char>,
    fs: Map<Seq<char>, EntryKind>,
    id: String,
)
    requires
        fs.contains_key(path),
        fs[path] == EntryKind::File,
        file_name_of(path) is Some,
        !is_reserved_file(path),
        ctx.contains_key(path),
        ctx[path] == Transformer::Other(id),
    ensures
        resolve(ctx, path, fs) == Err::<Option<(Call, Seq<char>)>, (ErrorKind, Seq<char>)>(
            (ErrorKind::UnknownOverride, id@),
        ),
{
}

/// A fatal error names an override identifier that no transformer answers
/// to, when it reaches the init file of a directory.
pub proof fn lemma_unknown_override_directory(
    ctx: Map<Seq<char>, Transformer>,
    dir: Seq<char>,
    fs: Map<Seq<char>, EntryKind>,
    init: Seq<char>,
    id: String,
)
    requires
        fs.contains_key(dir),
        fs[dir] == EntryKind::Directory,
        resolve_init(dir, fs.dom()) == Some(init),
        ctx.contains_key(init),
        ctx[init] == Transformer::Other(id),
    ensures
        resolve(ctx, dir, fs) == Err::<Option<(Call, Seq<char>)>, (ErrorKind, Seq<char>)>(
            (ErrorKind::UnknownOverride, id@),
        ),
{
}

/// A metadata sidecar file yields no instance unless an override claims it.
pub proof fn lemma_sidecar_file_no_instance(
    ctx: Map<Seq<char>, Transformer>,
    path: Seq<char>,
    fs: Map<Seq<char>, EntryKind>,
)
    requires
        fs.contains_key(path),
        fs[path] == EntryKind::File,
        !ctx.contains_key(path),
        file_name_ends_with_spec(path, ".meta.json"@),
    ensures
        resolve(ctx, path, fs) == Ok::<Option<(Call, Seq<char>)>, (ErrorKind, Seq<char>)>(None),
{
    reveal_strlit(".meta.json");
    reveal_strlit(".lua");
    reveal_strlit(".luau");
    reveal_strlit(".csv");
    let name = file_name_of(path)->Some_0;
    lemma_differs_from_end(name, ".lua"@, ".meta.json"@, 0);
    lemma_differs_from_end(name, ".luau"@, ".meta.json"@, 0);
    lemma_differs_from_end(name, ".csv"@, ".meta.json"@, 0);
    lemma_meta_sidecar_name(name);
}

/// The handler call that each init candidate gives its directory, by
/// position.
pub open spec fn init_calls() -> Seq<Call> {
    seq![
        Call::Project,
        Call::LuaInit(ScriptType::Module),
        Call::LuaInit(ScriptType::Module),
        Call::LuaInit(ScriptType::Server),
        Call::LuaInit(ScriptType::Server),
        Call::LuaInit(ScriptType::Client),
        Call::LuaInit(ScriptType::Client),
        Call::CsvInit,
    ]
}

/// The init file found for a directory selects, without an override, the
/// transformer that its candidate name stands for, every time; the directory
/// then becomes that handler's call on the init file.
pub proof fn lemma_init_round_trip(
    ctx: Map<Seq<char>, Transformer>,
    dir: Seq<char>,
    fs: Map<Seq<char>, EntryKind>,
    k: int,
)
    requires
        fs.contains_key(dir),
        fs[dir] == EntryKind::Directory,
        0 <= k < INIT_CANDIDATE_COUNT,
        resolve_init(dir, fs.dom()) == Some(join_spec(dir, init_candidates()[k])),
        !ctx.contains_key(join_spec(dir, init_candidates()[k])),
    ensures
        transformer_for(ctx, join_spec(dir, init_candidates()[k])) == Some(init_transformers()[k]),
        resolve(ctx, dir, fs) == Ok::<Option<(Call, Seq<char>)>, (ErrorKind, Seq<char>)>(
            Some((init_calls()[k], join_spec(dir, init_candidates()[k]))),
        ),
{
    lemma_init_candidate_file_name(dir, k);
    lemma_init_candidate_name(k);
}

} // verus!
