//! The embedded scripting engine, as far as this crate touches it.
//!
//! Everything here is trusted rather than proved: the engine's types are
//! declared so that they can be carried through verified code, and each call
//! into the engine is a thin wrapper whose contract states only what the
//! engine's own source shows. The rest of the crate is verified against these
//! contracts.

use vstd::prelude::*;

verus! {

/// `mlua::Lua`: one engine instance. Opaque.
#[verifier::external_type_specification]
#[verifier::external_body]
pub struct ExLua(mlua::Lua);

/// `mlua::Table`: a handle to a table inside an engine instance. Opaque; what
/// it holds is spoken of through [`table_keys`].
#[verifier::external_type_specification]
#[verifier::external_body]
pub struct ExTable<'lua>(mlua::Table<'lua>);

/// `mlua::AnyUserData`: a handle to a userdata value, here always the proxy
/// of a native type. Opaque.
#[verifier::external_type_specification]
#[verifier::external_body]
pub struct ExAnyUserData<'lua>(mlua::AnyUserData<'lua>);

/// `mlua::Function`: a handle to a callable script value. Opaque.
#[verifier::external_type_specification]
#[verifier::external_body]
pub struct ExFunction<'lua>(mlua::Function<'lua>);

/// `mlua::Chunk`: source text that has been handed to the engine but not yet
/// run. Opaque.
#[verifier::external_type_specification]
#[verifier::external_body]
pub struct ExChunk<'lua, 'a>(mlua::Chunk<'lua, 'a>);

/// `mlua::Error`: any failure the engine reports. Opaque.
#[verifier::external_type_specification]
#[verifier::external_body]
pub struct ExError(mlua::Error);

/// `std::any::TypeId`: the identity of a native type. Opaque.
#[verifier::external_type_specification]
#[verifier::external_body]
pub struct ExTypeId(std::any::TypeId);

/// The text keys under which a table holds a value, looked up without
/// metamethods.
pub uninterp spec fn table_keys(table: mlua::Table) -> Set<Seq<char>>;

/// Whether a table has a metatable. A table without one stores and finds its
/// entries directly; with one, a script may have redirected either.
pub uninterp spec fn table_has_metatable(table: mlua::Table) -> bool;

/// The engine instance in which a table lives. A handle never changes
/// instance.
pub uninterp spec fn table_home(table: mlua::Table) -> mlua::Lua;

/// The engine instance in which a userdata value lives. A handle never
/// changes instance.
pub uninterp spec fn userdata_home(value: mlua::AnyUserData) -> mlua::Lua;

/// `mlua::Lua::new`: a fresh engine instance with the safe standard
/// libraries loaded. Nothing is claimed of it. The engine panics here only
/// when it cannot allocate the instance.
#[verifier::external_body]
pub(crate) fn new_runtime() -> (lua: mlua::Lua) {
    mlua::Lua::new()
}

/// `mlua::Lua::create_table`, documented as "creates and returns a new empty
/// table": on success the table lives in `lua`, holds no key and has no
/// metatable.
#[verifier::external_body]
pub(crate) fn create_table<'lua>(lua: &'lua mlua::Lua) -> (r: Result<
    mlua::Table<'lua>,
    mlua::Error,
>)
    ensures
        r matches Ok(table) ==> {
            &&& table_home(table) == *lua
            &&& table_keys(table) == Set::<Seq<char>>::empty()
            &&& !table_has_metatable(table)
        },
{
    lua.create_table()
}

/// `mlua::Lua::create_proxy`: the script-visible proxy of the native type
/// `T`. On success it lives in `lua`; nothing else is claimed of it.
#[verifier::external_body]
pub(crate) fn create_proxy<'lua, T: mlua::UserData + 'static>(lua: &'lua mlua::Lua) -> (r: Result<
    mlua::AnyUserData<'lua>,
    mlua::Error,
>)
    ensures
        r matches Ok(proxy) ==> userdata_home(proxy) == *lua,
{
    lua.create_proxy::<T>()
}

/// `mlua::Table::set` with a text key and a proxy as the value. The engine
/// takes the table by shared reference and changes it in place; here it is
/// taken by `&mut` so that the change can be stated.
///
/// The engine panics when it is handed a value of another instance, so the
/// proxy must live where the table lives. On a table without a metatable
/// `set` forwards to `raw_set`, which writes this one pair and nothing else:
/// whatever the outcome no key but `key` has come and none has gone, and on
/// success `key` is present, since a proxy is never `nil`. Such a table has
/// no metatable afterwards either. On a table with a metatable the engine
/// runs the `__newindex` metamethod, and only the table's instance is
/// claimed.
#[verifier::external_body]
pub(crate) fn table_set<'lua>(
    table: &mut mlua::Table<'lua>,
    key: &str,
    value: mlua::AnyUserData<'lua>,
) -> (r: Result<(), mlua::Error>)
    requires
        userdata_home(value) == table_home(*old(table)),
    ensures
        table_home(*final(table)) == table_home(*old(table)),
        !table_has_metatable(*old(table)) ==> {
            &&& !table_has_metatable(*final(table))
            &&& table_keys(*old(table)).subset_of(table_keys(*final(table)))
            &&& table_keys(*final(table)).subset_of(table_keys(*old(table)).insert(key@))
            &&& r is Ok ==> table_keys(*final(table)).contains(key@)
        },
{
    table.set(key, value)
}

/// `mlua::Lua::globals`: a handle to the global scope of `lua`, which lives
/// in `lua`. Nothing is claimed of what it holds.
#[verifier::external_body]
pub(crate) fn globals<'lua>(lua: &'lua mlua::Lua) -> (scope: mlua::Table<'lua>)
    ensures
        table_home(scope) == *lua,
{
    lua.globals()
}

/// `mlua::Table::set` with a text key and a table as the value, used to
/// publish a table in the global scope. The engine panics when it is handed a
/// value of another instance, so both tables must live in the same one. The
/// scope may carry a metatable, so nothing is claimed of what it then holds.
#[verifier::external_body]
pub(crate) fn table_set_table<'lua>(
    table: &mut mlua::Table<'lua>,
    key: &str,
    value: mlua::Table<'lua>,
) -> (r: Result<(), mlua::Error>)
    requires
        table_home(value) == table_home(*old(table)),
    ensures
        table_home(*final(table)) == table_home(*old(table)),
{
    table.set(key, value)
}

/// `mlua::Lua::load`: wraps source text for the engine. The text is not
/// parsed until the chunk is evaluated.
#[verifier::external_body]
pub(crate) fn load_chunk<'lua, 'a>(lua: &'lua mlua::Lua, source: &'a str) -> (chunk: mlua::Chunk<
    'lua,
    'a,
>) {
    lua.load(source)
}

/// `mlua::Chunk::eval`, asking for a table: runs the chunk and converts what
/// it returns. What comes back depends on the engine's state, so nothing is
/// claimed of it. The call returns when the script does, and a panic in
/// native code that the script calls passes through the engine.
#[verifier::external_body]
pub(crate) fn eval_table<'lua, 'a>(chunk: mlua::Chunk<'lua, 'a>) -> (r: Result<
    mlua::Table<'lua>,
    mlua::Error,
>) {
    chunk.eval::<mlua::Table>()
}

/// `mlua::Table::get`, asking for a function under a text key. The lookup
/// may run an `__index` metamethod, so nothing is claimed of the result.
#[verifier::external_body]
pub(crate) fn table_get_function<'lua>(table: &mlua::Table<'lua>, name: &str) -> (r: Result<
    mlua::Function<'lua>,
    mlua::Error,
>) {
    table.get::<_, mlua::Function>(name)
}

/// The text that an engine error displays as.
pub uninterp spec fn error_display(error: mlua::Error) -> Seq<char>;

/// The `Display` text of an engine error, which is written from the error's
/// own fields and so is the same wherever the same error is displayed.
#[verifier::external_body]
pub(crate) fn error_text(error: &mlua::Error) -> (text: String)
    ensures
        text@ == error_display(*error),
{
    error.to_string()
}

/// `std::any::TypeId::of`: the identity of `T`. Nothing is claimed of it.
#[verifier::external_body]
pub(crate) fn type_id_of<T: 'static>() -> (id: std::any::TypeId) {
    std::any::TypeId::of::<T>()
}

} // verus!
