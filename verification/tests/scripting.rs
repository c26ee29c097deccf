use tanken::scripting::{
    cd_reply, copy_reply, open_reply, script_path, scripts_dir, ScriptEvent, ScriptManager, ScriptSource,
};

#[test]
fn replies_of_script_functions() {
    assert_eq!(cd_reply("/tmp"), "changed to: /tmp");
    assert_eq!(copy_reply("/tmp/a", "/tmp/b"), "copied /tmp/a -> /tmp/b");
    assert_eq!(open_reply("/tmp/file.txt"), "opened: /tmp/file.txt");
}

#[test]
fn scripts_directory_location() {
    assert_eq!(scripts_dir(Some(String::from("/home/u/.config"))), "/home/u/.config/tanken/scripts");
    assert_eq!(scripts_dir(None), "~/.config/tanken/scripts");
    assert_eq!(script_path("/s", "greet"), "/s/greet.rhai");
}

#[test]
fn register_and_fire_hook() {
    let mut mgr = ScriptManager::with_engine(soushi::ScriptEngine::new(), String::from("/nowhere"));
    mgr.register_hook(ScriptEvent::OnStart, "let x = 1 + 1;");
    assert_eq!(mgr.hook_count(ScriptEvent::OnStart), 1);
    mgr.register_hook(ScriptEvent::OnStart, "this is not rhai (");
    assert_eq!(mgr.hook_count(ScriptEvent::OnStart), 1);
    assert_eq!(mgr.hook_count(ScriptEvent::OnQuit), 0);
    mgr.register_hook(ScriptEvent::OnQuit, "print(\"bye\");");
    assert_eq!(mgr.hook_count(ScriptEvent::OnQuit), 1);
    assert_eq!(mgr.hook_count(ScriptEvent::OnStart), 1);
    mgr.fire_event(ScriptEvent::OnStart);
    mgr.fire_event(ScriptEvent::OnQuit);
}

#[test]
fn named_scripts_are_found_before_files() {
    let engine = soushi::ScriptEngine::new();
    let compiled = engine.compile("40 + 2");
    let mut mgr = ScriptManager::with_engine(engine, String::from("/scripts"));
    assert!(matches!(mgr.script_source("answer"), ScriptSource::File(p) if p == "/scripts/answer.rhai"));
    mgr.add_named_script(String::from("answer"), compiled);
    match mgr.script_source("answer") {
        ScriptSource::Compiled(ast) => {
            let v = mgr.engine().eval_ast(ast).unwrap();
            assert_eq!(v.as_int().unwrap(), 42);
        }
        ScriptSource::File(_) => panic!("expected the compiled script"),
    }
    let broken = mgr.engine().compile("(");
    mgr.add_named_script(String::from("broken"), broken);
    assert!(matches!(mgr.script_source("broken"), ScriptSource::File(_)));
}

#[test]
fn looping_hook_is_stopped() {
    let mut mgr = ScriptManager::with_engine(soushi::ScriptEngine::new(), String::from("/nowhere"));
    mgr.register_hook(ScriptEvent::OnKey, "loop { }");
    mgr.fire_event(ScriptEvent::OnKey);
    assert!(mgr.engine().eval("let n = 0; loop { n += 1; }").is_err());
}

#[test]
fn named_script_loaded_from_source() {
    let mut mgr = ScriptManager::with_engine(soushi::ScriptEngine::new(), String::from("/scripts"));
    assert!(mgr.load_named_script(String::from("seven"), "3 + 4"));
    match mgr.script_source("seven") {
        ScriptSource::Compiled(ast) => assert_eq!(mgr.engine().eval_ast(ast).unwrap().as_int().unwrap(), 7),
        ScriptSource::File(_) => panic!("expected the compiled script"),
    }
    assert!(!mgr.load_named_script(String::from("seven"), "this is ( not rhai"));
    assert!(matches!(mgr.script_source("seven"), ScriptSource::Compiled(_)));
    assert!(!mgr.load_named_script(String::from("bad"), "("));
    assert!(matches!(mgr.script_source("bad"), ScriptSource::File(p) if p == "/scripts/bad.rhai"));
}
