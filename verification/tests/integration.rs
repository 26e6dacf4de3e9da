use lua_bind::{binding_of, get_lua, Descriptor, LiveTable, Registry, ThreadSlot};
use serde::ser::SerializeStruct;

#[derive(Default)]
struct User {
    name: String,
    age: u32,
}

impl serde::Serialize for User {
    fn serialize<S: serde::Serializer>(&self, serializer: S) -> Result<S::Ok, S::Error> {
        let mut state = serializer.serialize_struct("User", 2)?;
        state.serialize_field("name", &self.name)?;
        state.serialize_field("age", &self.age)?;
        state.end()
    }
}

impl mlua::UserData for User {
    fn add_methods<'lua, M: mlua::UserDataMethods<'lua, Self>>(methods: &mut M) {
        methods.add_function("new", |_, (name, age): (String, u32)| Ok(User { name, age }));
        methods.add_method("get_name", |_, this, ()| Ok(this.name.clone()));
        methods.add_method("to_json", |_, this, ()| Ok(serde_json::to_string(this).unwrap()));
    }
}

fn user() -> Descriptor {
    binding_of::<User>("integration::User")
}

fn acquire<'a>(slot: &'a mut ThreadSlot, live: &mut LiveTable) -> &'a mlua::Lua {
    let mut registry: Registry<fn() -> Descriptor> = Registry::new();
    registry.register(user);
    get_lua(slot, &registry, live).unwrap()
}

#[test]
fn test_complex_types() {
    let mut live = LiveTable::new();
    let mut slot = ThreadSlot::new();
    let lua = acquire(&mut slot, &mut live);
    lua.load(
        r#"
        local user = Rust.User.new("Alice", 21)
        print(user:get_name())  -- prints "Alice"
        print(user:to_json())   -- prints JSON
    "#,
    )
    .exec()
    .unwrap();
}

#[test]
fn test_complex_types_values() {
    let mut live = LiveTable::new();
    let mut slot = ThreadSlot::new();
    let lua = acquire(&mut slot, &mut live);
    let (name, json): (String, String) = lua
        .load(
            r#"
            local user = Rust.User.new("Alice", 21)
            return user:get_name(), user:to_json()
        "#,
        )
        .eval()
        .unwrap();
    assert_eq!(name, "Alice");
    assert_eq!(json, r#"{"name":"Alice","age":21}"#);
}
