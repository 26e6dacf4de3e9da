use lua_bind::{
    engine_result, escape, namespace_name, require_script, short_name, LiveTable, LuaBindError,
};

fn std_short(full: &str) -> &str {
    full.rsplit("::").next().unwrap_or(full)
}

#[test]
fn test_short_name_strips_the_namespace() {
    assert_eq!(short_name("a::b::Name"), "Name");
    assert_eq!(short_name("crate_name::module::MathUtils"), "MathUtils");
    assert_eq!(short_name("x::Y"), "Y");
}

#[test]
fn test_short_name_without_separator_is_the_name() {
    assert_eq!(short_name("Name"), "Name");
    assert_eq!(short_name(""), "");
    assert_eq!(short_name(":"), ":");
    assert_eq!(short_name("a:b"), "a:b");
}

#[test]
fn test_short_name_edge_cases() {
    assert_eq!(short_name("::"), "");
    assert_eq!(short_name("a::"), "");
    assert_eq!(short_name("::a"), "a");
    assert_eq!(short_name(":::"), "");
    assert_eq!(short_name("a:::b"), "b");
    assert_eq!(short_name("a::::b"), "b");
    assert_eq!(short_name("a::b:"), "b:");
    assert_eq!(short_name("alloc::vec::Vec<core::option::Option<u8>>"), "Option<u8>>");
}

#[test]
fn test_short_name_counts_characters_not_bytes() {
    assert_eq!(short_name("模块::类型"), "类型");
    assert_eq!(short_name("é::ü"), "ü");
    assert_eq!(short_name("名前"), "名前");
}

#[test]
fn test_short_name_agrees_with_std_rsplit() {
    let samples = [
        "", ":", "::", ":::", "::::", "a", "a::b", "a::b::c", "a:::b", "::a::", "a::b:", "é::ü",
        "x::y::模块::类型", "no separators here", "trailing::",
    ];
    for sample in samples {
        assert_eq!(short_name(sample), std_short(sample), "for {:?}", sample);
    }
}

#[test]
fn test_require_script_text() {
    assert_eq!(require_script("math"), "return require('math')");
    assert_eq!(require_script("_G"), "return require('_G')");
    assert_eq!(require_script(""), "return require('')");
    assert_eq!(require_script("a.b"), "return require('a.b')");
}

#[test]
fn test_require_script_keeps_the_module_a_name() {
    assert_eq!(require_script("a'b"), r"return require('a\'b')");
    assert_eq!(
        require_script("math'), (function() X = 1 end)(), require('math"),
        r"return require('math\'), (function() X = 1 end)(), require(\'math')"
    );
    assert_eq!(require_script(r"a\b"), r"return require('a\\b')");
}

#[test]
fn test_escape() {
    assert_eq!(escape(""), "");
    assert_eq!(escape("plain.name_1"), "plain.name_1");
    assert_eq!(escape("'"), "\\'");
    assert_eq!(escape("\\"), "\\\\");
    assert_eq!(escape("\n"), "\\n");
    assert_eq!(escape("\r"), "\\r");
    assert_eq!(escape("a'b\\c\nd\re"), "a\\'b\\\\c\\nd\\re");
    assert_eq!(escape("\\'"), "\\\\\\'");
    assert_eq!(escape("\"quoted\""), "\"quoted\"");
    assert_eq!(escape("模块'类型"), "模块\\'类型");
}

#[test]
fn test_escaped_text_reads_back_as_itself() {
    let lua = mlua::Lua::new();
    let samples = [
        "", "plain", "a'b", "''", "\\", "\\'", "'\\", "a\nb", "a\r\nb", "tab\there", "模块'类型",
        "x') os.exit() ('",
    ];
    for sample in samples {
        let script = format!("return '{}'", escape(sample));
        let back: mlua::String = lua.load(script.as_str()).eval().unwrap();
        assert_eq!(back.to_str().unwrap(), sample, "for {:?}", sample);
    }
}

#[test]
fn test_namespace_name() {
    assert_eq!(namespace_name(), "Rust");
}

#[test]
fn test_error_messages() {
    assert_eq!(
        LuaBindError::Init("no table".to_string()).message(),
        "Initialization error: no table"
    );
    assert_eq!(
        LuaBindError::Serialization("bad json".to_string()).message(),
        "Serialization error: bad json"
    );
    assert_eq!(
        LuaBindError::TypeError("not a number".to_string()).message(),
        "Type conversion error: not a number"
    );
    assert_eq!(LuaBindError::Init(String::new()).message(), "Initialization error: ");
    let engine = LuaBindError::Lua(mlua::Error::RuntimeError("boom".to_string()));
    assert_eq!(engine.message(), "Lua error: runtime error: boom");
}

#[test]
fn test_from_engine_error() {
    let error = LuaBindError::from(mlua::Error::RuntimeError("boom".to_string()));
    match error {
        LuaBindError::Lua(mlua::Error::RuntimeError(text)) => assert_eq!(text, "boom"),
        other => panic!("unexpected {:?}", other),
    }
}

#[test]
fn test_engine_result() {
    let passed: Result<i32, LuaBindError> = engine_result(Ok(7));
    assert!(matches!(passed, Ok(7)));
    let failed: Result<i32, LuaBindError> =
        engine_result(Err(mlua::Error::RuntimeError("boom".to_string())));
    match failed {
        Err(LuaBindError::Lua(mlua::Error::RuntimeError(text))) => assert_eq!(text, "boom"),
        other => panic!("unexpected {:?}", other),
    }
}

#[test]
fn test_into_init() {
    match LuaBindError::Init("kept".to_string()).into_init() {
        LuaBindError::Init(text) => assert_eq!(text, "kept"),
        other => panic!("unexpected {:?}", other),
    }
    match LuaBindError::TypeError("wrong".to_string()).into_init() {
        LuaBindError::Init(text) => assert_eq!(text, "Type conversion error: wrong"),
        other => panic!("unexpected {:?}", other),
    }
    match LuaBindError::Serialization("bad".to_string()).into_init() {
        LuaBindError::Init(text) => assert_eq!(text, "Serialization error: bad"),
        other => panic!("unexpected {:?}", other),
    }
    match LuaBindError::Lua(mlua::Error::RuntimeError("boom".to_string())).into_init() {
        LuaBindError::Init(text) => assert_eq!(text, "Lua error: runtime error: boom"),
        other => panic!("unexpected {:?}", other),
    }
}

#[test]
fn test_live_table_hands_out_rising_identities() {
    let mut live = LiveTable::new();
    assert_eq!(live.len(), 0);
    assert_eq!(live.insert(), Some(0));
    assert_eq!(live.insert(), Some(1));
    assert_eq!(live.insert(), Some(2));
    assert_eq!(live.len(), 3);
    assert!(live.contains(0) && live.contains(1) && live.contains(2));
    assert!(!live.contains(3));
}

#[test]
fn test_live_table_remove_takes_only_its_identity() {
    let mut live = LiveTable::new();
    for _ in 0..4 {
        live.insert();
    }
    live.remove(1);
    assert_eq!(live.len(), 3);
    assert!(!live.contains(1));
    assert!(live.contains(0) && live.contains(2) && live.contains(3));
}

#[test]
fn test_live_table_second_remove_is_a_no_op() {
    let mut live = LiveTable::new();
    live.insert();
    live.insert();
    live.remove(0);
    live.remove(0);
    live.remove(17);
    assert_eq!(live.len(), 1);
    assert!(live.contains(1));
}

#[test]
fn test_live_table_never_reuses_an_identity() {
    let mut live = LiveTable::new();
    assert_eq!(live.insert(), Some(0));
    live.remove(0);
    assert_eq!(live.insert(), Some(1));
    live.remove(1);
    assert_eq!(live.insert(), Some(2));
    assert_eq!(live.len(), 1);
}

#[test]
fn test_teardown_in_any_order_removes_exactly_those() {
    let orders: [[u64; 3]; 6] =
        [[1, 3, 4], [1, 4, 3], [3, 1, 4], [3, 4, 1], [4, 1, 3], [4, 3, 1]];
    for order in orders {
        let mut live = LiveTable::new();
        for _ in 0..6 {
            live.insert();
        }
        for id in order {
            live.remove(id);
        }
        assert_eq!(live.len(), 3);
        for id in 0..6u64 {
            assert_eq!(live.contains(id), !order.contains(&id));
        }
    }
}
