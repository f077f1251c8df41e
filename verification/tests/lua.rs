use coroutine_scheduler::lua::LuaHandle;
use coroutine_scheduler::scheduler::fifo;

#[test]
fn lua_coroutines_run_to_completion() {
    let lua = mlua::Lua::new();
    lua.load("n = 0").exec().unwrap();
    let f: mlua::Function = lua
        .load(
            "return function() \
                n = n + 1 coroutine.yield() \
                n = n + 1 coroutine.yield() \
                n = n + 1 \
            end",
        )
        .eval()
        .unwrap();
    let thread = lua.create_thread(f).unwrap();

    let mut s = fifo::<LuaHandle>();
    s.add_task(LuaHandle::from_thread(thread), 1).unwrap();
    s.run();

    assert!(!s.has_tasks());
    assert_eq!(s.lifetime(), 3);
    let n: i64 = lua.globals().get("n").unwrap();
    assert_eq!(n, 3);
}

#[test]
fn lua_coroutines_interleave_in_fifo_order() {
    let lua = mlua::Lua::new();
    lua.load("trace = ''").exec().unwrap();
    let make = |name: &str| -> mlua::Thread {
        let body = format!(
            "return function() \
                trace = trace .. '{}' coroutine.yield() \
                trace = trace .. '{}' \
            end",
            name, name
        );
        let f: mlua::Function = lua.load(&body).eval().unwrap();
        lua.create_thread(f).unwrap()
    };

    let mut s = fifo::<LuaHandle>();
    s.add_task(LuaHandle::from_thread(make("a")), 1).unwrap();
    s.add_task(LuaHandle::from_thread(make("b")), 1).unwrap();
    s.run();

    assert!(!s.has_tasks());
    assert_eq!(s.lifetime(), 4);
    let trace: String = lua.globals().get("trace").unwrap();
    assert_eq!(trace, "abab");
}

#[test]
fn an_erroring_lua_coroutine_is_dropped() {
    let lua = mlua::Lua::new();
    let f: mlua::Function = lua
        .load("return function() error('task failure') end")
        .eval()
        .unwrap();
    let thread = lua.create_thread(f).unwrap();

    let mut s = fifo::<LuaHandle>();
    s.add_task(LuaHandle::from_thread(thread), 1).unwrap();
    s.step();

    assert!(!s.has_tasks());
    assert_eq!(s.lifetime(), 1);
}
