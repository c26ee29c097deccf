//! Rhai scripting integration via soushi: hook scripts run on events, named
//! scripts run on request, and the replies of the file-manager functions
//! scripts can call (`tanken_cd`, `tanken_copy`, `tanken_open`).

use vstd::prelude::*;
use crate::path::{joined, path_join};
use crate::text::{chars_equal, chars_of, concat2, owned};

verus! {

#[verifier::external_type_specification]
#[verifier::external_body]
pub struct ExScriptEngine(soushi::ScriptEngine);

#[verifier::external_type_specification]
#[verifier::external_body]
pub struct ExAst(soushi::rhai::AST);

#[verifier::external_type_specification]
#[verifier::external_body]
pub struct ExSoushiError(soushi::SoushiError);

/// Script event hooks that scripts can define.
#[derive(Debug, Clone, Copy, PartialEq, Eq, Structural, Hash)]
pub enum ScriptEvent {
    /// Fired when the application starts.
    OnStart,
    /// Fired when the application is about to quit.
    OnQuit,
    /// Fired on every key press.
    OnKey,
}

/// The reply of `tanken_cd(path)`.
pub fn cd_reply(path: &str) -> (r: String)
    ensures
        r@ == "changed to: "@ + path@,
{
    concat2("changed to: ", path)
}

/// The reply of `tanken_copy(src, dst)`.
pub fn copy_reply(src: &str, dst: &str) -> (r: String)
    ensures
        r@ == "copied "@ + src@ + " -> "@ + dst@,
{
    let mut r = concat2("copied ", src);
    r.append(" -> ");
    r.append(dst);
    r
}

/// The reply of `tanken_open(path)`.
pub fn open_reply(path: &str) -> (r: String)
    ensures
        r@ == "opened: "@ + path@,
{
    concat2("opened: ", path)
}

/// Where user scripts live: `tanken/scripts` under the configuration
/// directory, or under `~/.config` when there is none.
pub open spec fn scripts_dir_under(config_dir: Option<Seq<char>>) -> Seq<char> {
    let base = match config_dir {
        Some(d) => d,
        None => "~/.config"@,
    };
    joined(joined(base, "tanken"@), "scripts"@)
}

/// The scripts directory for a configuration directory (see
/// `scripts_dir_under`).
pub fn scripts_dir(config_dir: Option<String>) -> (r: String)
    ensures
        r@ == scripts_dir_under(match config_dir {
            Some(d) => Some(d@),
            None => None,
        }),
{
    let base = match config_dir {
        Some(d) => d,
        None => owned("~/.config"),
    };
    let app = path_join(base.as_str(), "tanken");
    path_join(app.as_str(), "scripts")
}

/// The file a named script is read from: `{name}.rhai` in the scripts
/// directory.
pub fn script_path(dir: &str, name: &str) -> (r: String)
    ensures
        r@ == joined(dir@, name@ + ".rhai"@),
{
    let file = concat2(name, ".rhai");
    path_join(dir, file.as_str())
}

/// Whether `ScriptEngine::compile` accepts a script on an engine: a
/// function of the engine (its registered functions and settings) and the
/// script's text alone.
pub uninterp spec fn compiles_on(engine: soushi::ScriptEngine, script: Seq<char>) -> bool;

/// `ScriptEngine::compile`: the script parsed into an AST, or the error.
/// It succeeds exactly when the engine accepts the script (`compiles_on`);
/// which AST comes back is not stated.
#[verifier::external_body]
fn compile_script(engine: &soushi::ScriptEngine, script: &str) -> (r: Result<soushi::rhai::AST, soushi::SoushiError>)
    ensures
        r is Ok <==> compiles_on(*engine, script@),
{
    engine.compile(script)
}

/// The most operations a script may run before it is stopped with an
/// error, so that evaluating any script comes to an end.
pub const MAX_SCRIPT_OPERATIONS: u64 = 10000000;

/// `rhai::Engine::set_max_operations` on the engine inside a soushi
/// `ScriptEngine` (reached through `inner_mut`): evaluation then stops with
/// an error once a script has run that many operations.
#[verifier::external_body]
fn limit_operations(engine: &mut soushi::ScriptEngine, operations: u64) {
    engine.inner_mut().set_max_operations(operations);
}

/// `ScriptEngine::eval_ast`, with its value (or error) dropped: running a
/// hook is done for its effects. It is only called on a manager's engine,
/// whose operations `with_engine` has limited, so it always returns.
#[verifier::external_body]
fn run_ast(engine: &soushi::ScriptEngine, ast: &soushi::rhai::AST) {
    let _ = engine.eval_ast(ast);
}

/// Manages the Rhai scripting engine and user scripts.
pub struct ScriptManager {
    engine: soushi::ScriptEngine,
    on_start: Vec<soushi::rhai::AST>,
    on_quit: Vec<soushi::rhai::AST>,
    on_key: Vec<soushi::rhai::AST>,
    named: Vec<(String, soushi::rhai::AST)>,
    dir: String,
}

/// The script compiled under a name, among named scripts whose names are
/// distinct.
pub open spec fn script_named(named: Seq<(String, soushi::rhai::AST)>, name: Seq<char>) -> Option<soushi::rhai::AST> {
    if exists|i: int| 0 <= i < named.len() && (#[trigger] named[i]).0@ == name {
        Some(named[choose|i: int| 0 <= i < named.len() && (#[trigger] named[i]).0@ == name].1)
    } else {
        None
    }
}

/// No two named scripts share a name.
pub open spec fn names_distinct(named: Seq<(String, soushi::rhai::AST)>) -> bool {
    forall|i: int, j: int|
        0 <= i < named.len() && 0 <= j < named.len() && (#[trigger] named[i]).0@ == (#[trigger] named[j]).0@ ==> i == j
}

/// Where `run_script` takes a named script from.
pub enum ScriptSource<'a> {
    /// The script compiled when scripts were loaded.
    Compiled(&'a soushi::rhai::AST),
    /// A file of the scripts directory, read and run anew.
    File(String),
}

impl ScriptManager {
    /// The hook scripts registered for an event, in registration order.
    pub closed spec fn hooks(&self, event: ScriptEvent) -> Seq<soushi::rhai::AST> {
        match event {
            ScriptEvent::OnStart => self.on_start@,
            ScriptEvent::OnQuit => self.on_quit@,
            ScriptEvent::OnKey => self.on_key@,
        }
    }

    /// The named scripts compiled so far.
    pub closed spec fn named_scripts(&self) -> Seq<(String, soushi::rhai::AST)> {
        self.named@
    }

    /// The scripts directory.
    pub closed spec fn directory(&self) -> Seq<char> {
        self.dir@
    }

    /// The engine.
    pub closed spec fn engine_value(&self) -> soushi::ScriptEngine {
        self.engine
    }

    /// Well-formed: no two named scripts share a name.
    pub closed spec fn wf(&self) -> bool {
        names_distinct(self.named@)
    }

    /// A manager with no hooks and no named scripts, around an engine that
    /// already has its functions registered, for scripts in `dir`. The
    /// engine is limited to `MAX_SCRIPT_OPERATIONS` operations per run, so
    /// that every script it runs comes to an end.
    pub fn with_engine(engine: soushi::ScriptEngine, dir: String) -> (m: Self)
        ensures
            m.wf(),
            m.directory() == dir@,
            m.named_scripts().len() == 0,
            forall|e: ScriptEvent| (#[trigger] m.hooks(e)).len() == 0,
    {
        let mut engine = engine;
        limit_operations(&mut engine, MAX_SCRIPT_OPERATIONS);
        ScriptManager { engine, on_start: Vec::new(), on_quit: Vec::new(), on_key: Vec::new(), named: Vec::new(), dir }
    }

    /// Add a compiled hook script for an event; a script that failed to
    /// compile is dropped.
    pub fn add_hook(&mut self, event: ScriptEvent, compiled: Result<soushi::rhai::AST, soushi::SoushiError>)
        ensures
            final(self).wf() == old(self).wf(),
            final(self).engine_value() == old(self).engine_value(),
            final(self).directory() == old(self).directory(),
            final(self).named_scripts() == old(self).named_scripts(),
            forall|e: ScriptEvent|
                e != event ==> #[trigger] final(self).hooks(e) == old(self).hooks(e),
            final(self).hooks(event) == match compiled {
                Ok(ast) => old(self).hooks(event).push(ast),
                Err(_) => old(self).hooks(event),
            },
    {
        match compiled {
            Ok(ast) => match event {
                ScriptEvent::OnStart => self.on_start.push(ast),
                ScriptEvent::OnQuit => self.on_quit.push(ast),
                ScriptEvent::OnKey => self.on_key.push(ast),
            },
            Err(_) => {},
        }
    }

    /// Register a hook script for an event: it is compiled, and kept when
    /// that succeeds.
    pub fn register_hook(&mut self, event: ScriptEvent, script: &str)
        ensures
            final(self).wf() == old(self).wf(),
            final(self).engine_value() == old(self).engine_value(),
            final(self).directory() == old(self).directory(),
            final(self).named_scripts() == old(self).named_scripts(),
            forall|e: ScriptEvent|
                e != event ==> #[trigger] final(self).hooks(e) == old(self).hooks(e),
            compiles_on(old(self).engine_value(), script@) ==> final(self).hooks(event).len() == old(
                self,
            ).hooks(event).len() + 1 && final(self).hooks(event).drop_last() == old(self).hooks(event),
            !compiles_on(old(self).engine_value(), script@) ==> final(self).hooks(event) == old(self).hooks(
                event,
            ),
    {
        let compiled = compile_script(&self.engine, script);
        self.add_hook(event, compiled);
    }

    /// How many hooks are registered for an event.
    pub fn hook_count(&self, event: ScriptEvent) -> (n: usize)
        ensures
            n == self.hooks(event).len(),
    {
        match event {
            ScriptEvent::OnStart => self.on_start.len(),
            ScriptEvent::OnQuit => self.on_quit.len(),
            ScriptEvent::OnKey => self.on_key.len(),
        }
    }

    /// Run every hook registered for an event, in order; a failing hook
    /// does not stop the others.
    pub fn fire_event(&self, event: ScriptEvent) {
        let hooks = match event {
            ScriptEvent::OnStart => &self.on_start,
            ScriptEvent::OnQuit => &self.on_quit,
            ScriptEvent::OnKey => &self.on_key,
        };
        let mut i: usize = 0;
        while i < hooks.len()
            invariant
                i <= hooks.len(),
            decreases hooks.len() - i,
        {
            run_ast(&self.engine, &hooks[i]);
            i = i + 1;
        }
    }

    /// Keep a named script compiled from `{name}.rhai`; a later one of the
    /// same name replaces it, and one that failed to compile is dropped.
    pub fn add_named_script(&mut self, name: String, compiled: Result<soushi::rhai::AST, soushi::SoushiError>)
        requires
            old(self).wf(),
        ensures
            final(self).wf(),
            final(self).engine_value() == old(self).engine_value(),
            final(self).directory() == old(self).directory(),
            forall|e: ScriptEvent| #[trigger] final(self).hooks(e) == old(self).hooks(e),
            forall|k: Seq<char>|
                #[trigger] script_named(final(self).named_scripts(), k) == match compiled {
                    Ok(ast) => if k == name@ {
                        Some(ast)
                    } else {
                        script_named(old(self).named_scripts(), k)
                    },
                    Err(_) => script_named(old(self).named_scripts(), k),
                },
    {
        let ast = match compiled {
            Ok(ast) => ast,
            Err(_) => {
                return;
            },
        };
        let ghost old_named = self.named@;
        let key = chars_of(name.as_str());
        let mut i: usize = 0;
        let mut found = false;
        while i < self.named.len() && !found
            invariant
                i <= self.named.len(),
                self.named@ == old_named,
                key@ == name@,
                found ==> i < self.named.len() && old_named[i as int].0@ == name@,
                forall|k: int| 0 <= k < i ==> (#[trigger] old_named[k]).0@ != name@,
            decreases self.named.len() - i, if found { 0int } else { 1int },
        {
            if chars_equal(&key, self.named[i].0.as_str()) {
                found = true;
            } else {
                i = i + 1;
            }
        }
        if found {
            assert(old_named[i as int].0@ == name@);
            self.named.set(i, (name, ast));
            proof {
                let new_named = self.named@;
                assert forall|k: Seq<char>| #[trigger] script_named(new_named, k) == (if k == old_named[i as int].0@ {
                    Some(ast)
                } else {
                    script_named(old_named, k)
                }) by {
                    if k == old_named[i as int].0@ {
                        assert(new_named[i as int].0@ == k);
                        let c = choose|c: int| 0 <= c < new_named.len() && (#[trigger] new_named[c]).0@ == k;
                        if c != i {
                            assert(old_named[c].0@ == k);
                        }
                    } else {
                        if exists|c: int| 0 <= c < new_named.len() && (#[trigger] new_named[c]).0@ == k {
                            let c = choose|c: int| 0 <= c < new_named.len() && (#[trigger] new_named[c]).0@ == k;
                            assert(old_named[c] == new_named[c]);
                            let d = choose|d: int| 0 <= d < old_named.len() && (#[trigger] old_named[d]).0@ == k;
                            assert(new_named[d] == old_named[d]);
                        } else {
                            if exists|d: int| 0 <= d < old_named.len() && (#[trigger] old_named[d]).0@ == k {
                                let d = choose|d: int| 0 <= d < old_named.len() && (#[trigger] old_named[d]).0@ == k;
                                assert(new_named[d] == old_named[d]);
                            }
                        }
                    }
                }
                assert forall|a: int, b: int|
                    0 <= a < new_named.len() && 0 <= b < new_named.len() && (#[trigger] new_named[a]).0@ == (
                    #[trigger] new_named[b]).0@ implies a == b by {
                    if a != i && b != i {
                        assert(old_named[a] == new_named[a] && old_named[b] == new_named[b]);
                    } else if a == i && b != i {
                        assert(old_named[b] == new_named[b]);
                    } else if a != i && b == i {
                        assert(old_named[a] == new_named[a]);
                    }
                }
            }
        } else {
            self.named.push((name, ast));
            proof {
                let new_named = self.named@;
                let n = old_named.len() as int;
                assert(new_named[n].0@ == name@);
                assert forall|k: Seq<char>| #[trigger] script_named(new_named, k) == (if k == name@ {
                    Some(ast)
                } else {
                    script_named(old_named, k)
                }) by {
                    if k == name@ {
                        let c = choose|c: int| 0 <= c < new_named.len() && (#[trigger] new_named[c]).0@ == k;
                        if c < n {
                            assert(old_named[c].0@ == name@);
                        }
                    } else {
                        if exists|c: int| 0 <= c < new_named.len() && (#[trigger] new_named[c]).0@ == k {
                            let c = choose|c: int| 0 <= c < new_named.len() && (#[trigger] new_named[c]).0@ == k;
                            assert(old_named[c] == new_named[c]);
                            let d = choose|d: int| 0 <= d < old_named.len() && (#[trigger] old_named[d]).0@ == k;
                            assert(new_named[d] == old_named[d]);
                        } else {
                            if exists|d: int| 0 <= d < old_named.len() && (#[trigger] old_named[d]).0@ == k {
                                let d = choose|d: int| 0 <= d < old_named.len() && (#[trigger] old_named[d]).0@ == k;
                                assert(new_named[d] == old_named[d]);
                            }
                        }
                    }
                }
                assert forall|a: int, b: int|
                    0 <= a < new_named.len() && 0 <= b < new_named.len() && (#[trigger] new_named[a]).0@ == (
                    #[trigger] new_named[b]).0@ implies a == b by {
                    if a < n && b < n {
                        assert(old_named[a] == new_named[a] && old_named[b] == new_named[b]);
                    } else if a < n {
                        assert(old_named[a] == new_named[a]);
                    } else if b < n {
                        assert(old_named[b] == new_named[b]);
                    }
                }
            }
        }
    }

    /// Compile the source of the named script `{name}.rhai` and keep it
    /// under `name` (replacing an earlier one of that name); gives whether
    /// it compiled. A source that fails to compile leaves the named scripts
    /// as they were.
    pub fn load_named_script(&mut self, name: String, source: &str) -> (compiled: bool)
        requires
            old(self).wf(),
        ensures
            compiled == compiles_on(old(self).engine_value(), source@),
            final(self).wf(),
            final(self).engine_value() == old(self).engine_value(),
            final(self).directory() == old(self).directory(),
            forall|e: ScriptEvent| #[trigger] final(self).hooks(e) == old(self).hooks(e),
            forall|k: Seq<char>|
                k != name@ ==> #[trigger] script_named(final(self).named_scripts(), k) == script_named(
                    old(self).named_scripts(),
                    k,
                ),
            compiled ==> script_named(final(self).named_scripts(), name@) is Some,
            !compiled ==> script_named(final(self).named_scripts(), name@) == script_named(
                old(self).named_scripts(),
                name@,
            ),
    {
        let result = compile_script(&self.engine, source);
        let compiled = result.is_ok();
        self.add_named_script(name, result);
        compiled
    }

    /// Where a named script is run from: its compiled form when one was
    /// kept under that name, else the file `{name}.rhai` of the scripts
    /// directory.
    pub fn script_source(&self, name: &str) -> (r: ScriptSource)
        requires
            self.wf(),
        ensures
            match script_named(self.named_scripts(), name@) {
                Some(ast) => r matches ScriptSource::Compiled(a) && *a == ast,
                None => r matches ScriptSource::File(p) && p@ == joined(self.directory(), name@ + ".rhai"@),
            },
    {
        let key = chars_of(name);
        let mut i: usize = 0;
        while i < self.named.len()
            invariant
                i <= self.named.len(),
                key@ == name@,
                self.wf(),
                forall|k: int| 0 <= k < i ==> (#[trigger] self.named@[k]).0@ != name@,
            decreases self.named.len() - i,
        {
            if chars_equal(&key, self.named[i].0.as_str()) {
                proof {
                    assert(self.named@[i as int].0@ == name@);
                    let c = choose|c: int| 0 <= c < self.named@.len() && (#[trigger] self.named@[c]).0@ == name@;
                    assert(names_distinct(self.named@));
                    assert(c == i);
                }
                return ScriptSource::Compiled(&self.named[i].1);
            }
            i = i + 1;
        }
        ScriptSource::File(script_path(self.dir.as_str(), name))
    }

    /// The underlying script engine.
    pub fn engine(&self) -> (r: &soushi::ScriptEngine)
        ensures
            *r == self.engine_value(),
    {
        &self.engine
    }
}

} // verus!
