//! The lifecycle of runtime instances: building one, keeping it in the slot
//! of the thread that owns it, looking up script functions in it, and tearing
//! it down.
//!
//! Nothing here reaches for process-wide state. The live-instance table and
//! the slot of the calling thread are handed in by the caller, who holds them
//! wherever such state lives and takes the table's lock around the call.

use vstd::prelude::*;
use vstd::string::StrSliceExecFns;
use vstd::string::StringExecFns;

use crate::bind::{holds_namespace, iterate_bindings, names_of, Descriptor, Registry};
use crate::engine::{eval_table, load_chunk, new_runtime, table_get_function};
use crate::error::{engine_result, LuaBindError};
use crate::live::{lemma_distinct_identities, LiveTable};

verus! {

/// A runtime instance on its way to being ready: created and populated from
/// the registry, but not yet recorded in the live-instance table. It gives no
/// access to the engine; it can only be finished or dropped.
pub struct Initializing {
    lua: mlua::Lua,
    names: Vec<String>,
}

impl Initializing {
    #[verifier::type_invariant]
    spec fn populated(self) -> bool {
        holds_namespace(self.lua, self.names@)
    }

    /// The engine instance.
    pub closed spec fn runtime(&self) -> mlua::Lua {
        self.lua
    }

    /// The short names that were installed, in registry order.
    pub closed spec fn names(&self) -> Seq<String> {
        self.names@
    }

    /// Creates an engine instance, installs every descriptor of the registry
    /// into it and publishes the namespace table. This touches no shared
    /// state, so it needs no lock. Every failure is an initialization error,
    /// and the half-built instance is dropped with it.
    pub fn start<C: Fn() -> Descriptor>(registry: &Registry<C>) -> (r: Result<
        Initializing,
        LuaBindError,
    >)
        requires
            registry.wf(),
        ensures
            match r {
                Ok(instance) => {
                    &&& names_of(registry@, instance.names())
                    &&& holds_namespace(instance.runtime(), instance.names())
                },
                Err(error) => error is Init,
            },
    {
        let lua = new_runtime();
        match iterate_bindings(&lua, registry) {
            Ok(names) => Ok(Initializing { lua, names }),
            Err(error) => Err(error),
        }
    }

    /// Records the instance in the live-instance table and so makes it ready.
    /// This is the only step of an acquisition that touches the table. It
    /// fails, with an initialization error and the table as it was, exactly
    /// when the table has no identity left to hand out.
    pub fn finish(self, live: &mut LiveTable) -> (r: Result<LuaGuard, LuaBindError>)
        requires
            old(live).wf(),
        ensures
            final(live).wf(),
            r is Err <==> old(live).issued() == u64::MAX,
            match r {
                Ok(guard) => {
                    &&& old(live).recorded(guard.id(), *final(live))
                    &&& guard.runtime() == self.runtime()
                    &&& guard.names() == self.names()
                },
                Err(error) => error is Init && *final(live) == *old(live),
            },
    {
        proof {
            use_type_invariant(&self);
        }
        match live.insert() {
            Some(id) => Ok(LuaGuard { lua: self.lua, id, names: self.names }),
            None => Err(
                LuaBindError::Init(String::from_str("no identity is left for a new instance")),
            ),
        }
    }
}

/// One runtime instance together with what is needed to tear it down: the
/// identity under which it is recorded in the live-instance table.
pub struct LuaGuard {
    lua: mlua::Lua,
    id: u64,
    names: Vec<String>,
}

impl LuaGuard {
    #[verifier::type_invariant]
    spec fn populated(self) -> bool {
        holds_namespace(self.lua, self.names@)
    }

    /// The engine instance.
    pub closed spec fn runtime(&self) -> mlua::Lua {
        self.lua
    }

    /// The identity under which the instance is recorded.
    pub closed spec fn id(&self) -> u64 {
        self.id
    }

    /// The short names that were installed into the instance's namespace
    /// table, in registry order.
    pub closed spec fn names(&self) -> Seq<String> {
        self.names@
    }

    /// Builds a runtime instance: creates the engine instance, installs every
    /// descriptor of the registry, publishes the namespace table, and only
    /// then records the instance in the live-instance table.
    ///
    /// On failure nothing is left behind: the table is as it was and the
    /// half-built instance is dropped. Every failure is an initialization
    /// error.
    pub fn new<C: Fn() -> Descriptor>(registry: &Registry<C>, live: &mut LiveTable) -> (r:
        Result<LuaGuard, LuaBindError>)
        requires
            registry.wf(),
            old(live).wf(),
        ensures
            final(live).wf(),
            match r {
                Ok(guard) => {
                    &&& old(live).recorded(guard.id(), *final(live))
                    &&& names_of(registry@, guard.names())
                },
                Err(error) => error is Init && *final(live) == *old(live),
            },
    {
        match Initializing::start(registry) {
            Ok(instance) => instance.finish(live),
            Err(error) => Err(error),
        }
    }

    /// The engine instance, to load and run script in.
    pub fn lua(&self) -> (lua: &mlua::Lua)
        ensures
            *lua == self.runtime(),
    {
        &self.lua
    }

    /// The identity under which the instance is recorded in the
    /// live-instance table.
    pub fn identity(&self) -> (id: u64)
        ensures
            id == self.id(),
    {
        self.id
    }

    /// The short names that were installed into the instance's namespace
    /// table, in registry order.
    pub fn installed(&self) -> (names: &Vec<String>)
        ensures
            names@ == self.names(),
    {
        &self.names
    }

    /// Takes the instance's identity out of the live-instance table and
    /// hands the engine instance back, so that the caller can release it
    /// after letting go of the table. Only this instance's identity is
    /// touched.
    pub fn retire(self, live: &mut LiveTable) -> (lua: mlua::Lua)
        requires
            old(live).wf(),
        ensures
            final(live).wf(),
            old(live).erased(self.id(), *final(live)),
            !final(live)@.contains(self.id()),
            lua == self.runtime(),
    {
        live.remove(self.id);
        self.lua
    }

    /// Tears the instance down: takes its identity out of the live-instance
    /// table, then releases the engine instance. Only this instance's
    /// identity is touched.
    pub fn release(self, live: &mut LiveTable)
        requires
            old(live).wf(),
        ensures
            final(live).wf(),
            old(live).erased(self.id(), *final(live)),
            !final(live)@.contains(self.id()),
    {
        let _ = self.retire(live);
    }
}

/// The cache slot of one thread: empty until the thread first asks for its
/// runtime instance, and then holding that instance until the thread ends.
pub struct ThreadSlot {
    guard: Option<LuaGuard>,
}

impl ThreadSlot {
    /// What the slot holds.
    pub closed spec fn guard(&self) -> Option<LuaGuard> {
        self.guard
    }

    /// Whether the slot holds a fully built instance.
    pub open spec fn is_ready(&self) -> bool {
        self.guard() is Some
    }

    /// An empty slot.
    pub fn new() -> (slot: Self)
        ensures
            !slot.is_ready(),
    {
        ThreadSlot { guard: None }
    }

    /// Whether the slot holds a fully built instance.
    pub fn ready(&self) -> (ready: bool)
        ensures
            ready == self.is_ready(),
    {
        self.guard.is_some()
    }

    /// The instance in the slot, if there is one.
    pub fn instance(&self) -> (guard: Option<&LuaGuard>)
        ensures
            match guard {
                Some(guard) => self.guard() == Some(*guard),
                None => !self.is_ready(),
            },
    {
        self.guard.as_ref()
    }

    /// Puts a ready instance into the slot. A slot holds at most one
    /// instance: if it already holds one, it is left as it is and the
    /// instance that was offered is handed back.
    pub fn store(&mut self, guard: LuaGuard) -> (rejected: Option<LuaGuard>)
        ensures
            match rejected {
                None => !old(self).is_ready() && final(self).guard() == Some(guard),
                Some(back) => old(self).is_ready() && *final(self) == *old(self) && back == guard,
            },
    {
        if self.guard.is_some() {
            Some(guard)
        } else {
            self.guard = Some(guard);
            None
        }
    }

    /// Ends the slot with its thread, like [`ThreadSlot::teardown`], but
    /// hands the engine instance back instead of releasing it, so that the
    /// caller can release it after letting go of the table.
    pub fn retire(self, live: &mut LiveTable) -> (lua: Option<mlua::Lua>)
        requires
            old(live).wf(),
        ensures
            final(live).wf(),
            match self.guard() {
                Some(guard) => {
                    &&& old(live).erased(guard.id(), *final(live))
                    &&& !final(live)@.contains(guard.id())
                    &&& lua == Some(guard.runtime())
                },
                None => *final(live) == *old(live) && lua is None,
            },
    {
        match self.guard {
            Some(guard) => Some(guard.retire(live)),
            None => None,
        }
    }

    /// Ends the slot with its thread: tears down the instance it holds, if
    /// any. An empty slot leaves the live-instance table as it was.
    pub fn teardown(self, live: &mut LiveTable)
        requires
            old(live).wf(),
        ensures
            final(live).wf(),
            match self.guard() {
                Some(guard) => {
                    &&& old(live).erased(guard.id(), *final(live))
                    &&& !final(live)@.contains(guard.id())
                },
                None => *final(live) == *old(live),
            },
    {
        match self.guard {
            Some(guard) => guard.release(live),
            None => {},
        }
    }
}

/// What an acquisition that succeeds does to the slot and the table. A slot
/// that held an instance keeps it and nothing changes. An empty slot now
/// holds a new instance, populated from the whole registry and recorded in
/// the table under a fresh identity.
pub open spec fn acquired<C: Fn() -> Descriptor>(
    before: ThreadSlot,
    after: ThreadSlot,
    live_before: LiveTable,
    live_after: LiveTable,
    constructors: Seq<C>,
) -> bool {
    if before.is_ready() {
        after == before && live_after == live_before
    } else {
        &&& after.guard() matches Some(guard)
        &&& live_before.recorded(guard.id(), live_after)
        &&& names_of(constructors, guard.names())
    }
}

/// What an acquisition that fails leaves behind: nothing. The slot was empty
/// and is empty, and the table is as it was.
pub open spec fn no_residue(
    before: ThreadSlot,
    after: ThreadSlot,
    live_before: LiveTable,
    live_after: LiveTable,
) -> bool {
    !before.is_ready() && !after.is_ready() && live_after == live_before
}

/// Acquisition is idempotent: once an acquisition has succeeded, the slot
/// holds an instance, and a further successful acquisition on that slot
/// changes neither the slot nor the table, so it answers with the same
/// instance and installs nothing again.
pub proof fn lemma_acquisition_is_idempotent<C: Fn() -> Descriptor>(
    slot0: ThreadSlot,
    slot1: ThreadSlot,
    slot2: ThreadSlot,
    live0: LiveTable,
    live1: LiveTable,
    live2: LiveTable,
    constructors: Seq<C>,
)
    requires
        acquired(slot0, slot1, live0, live1, constructors),
        acquired(slot1, slot2, live1, live2, constructors),
    ensures
        slot1.is_ready(),
        slot2 == slot1,
        live2 == live1,
{
}

/// Instances are isolated per thread: two empty slots that acquire against
/// the same table, one after the other with anything recorded or taken out
/// in between, end up holding instances with different identities.
pub proof fn lemma_per_thread_isolation<C: Fn() -> Descriptor>(
    first_before: ThreadSlot,
    first_after: ThreadSlot,
    second_before: ThreadSlot,
    second_after: ThreadSlot,
    live0: LiveTable,
    live1: LiveTable,
    live2: LiveTable,
    live3: LiveTable,
    constructors: Seq<C>,
)
    requires
        !first_before.is_ready(),
        !second_before.is_ready(),
        acquired(first_before, first_after, live0, live1, constructors),
        live1.issued() <= live2.issued(),
        acquired(second_before, second_after, live2, live3, constructors),
    ensures
        first_after.guard()->0.id() != second_after.guard()->0.id(),
        live1@.contains(first_after.guard()->0.id()),
        live3@.contains(second_after.guard()->0.id()),
{
    let first = first_after.guard()->0.id();
    let second = second_after.guard()->0.id();
    lemma_distinct_identities(live0, live1, live2, live3, first, second);
    assert(live1@[live0@.len() as int] == first);
    assert(live3@[live2@.len() as int] == second);
}

/// Isolation from the instances that already exist: an empty slot that
/// acquires against a table ends up with an identity that differs from every
/// identity recorded in the table before, so from that of every slot filled
/// earlier and not yet torn down; and the earlier identities stay recorded.
pub proof fn lemma_isolation_from_live_instances<C: Fn() -> Descriptor>(
    before: ThreadSlot,
    after: ThreadSlot,
    live_before: LiveTable,
    live_after: LiveTable,
    constructors: Seq<C>,
    earlier: u64,
)
    requires
        live_before.wf(),
        live_before@.contains(earlier),
        !before.is_ready(),
        acquired(before, after, live_before, live_after, constructors),
    ensures
        after.guard()->0.id() != earlier,
        live_after@.contains(earlier),
        live_after@.contains(after.guard()->0.id()),
{
    let id = after.guard()->0.id();
    let at = choose|at: int| 0 <= at < live_before@.len() && live_before@[at] == earlier;
    assert(live_before@[at] < live_before.issued());
    assert(live_after@[at] == earlier);
    assert(live_after@[live_before@.len() as int] == id);
}

/// Returns the runtime instance of the calling thread, building it first if
/// the thread's slot is empty.
///
/// A slot that already holds an instance answers with it and nothing
/// changes. An empty slot is filled with a new instance, fully populated
/// before it is handed out. Either way the instance is one in which a
/// namespace table was built whose entries are exactly the installed names. If building fails, the error is an
/// initialization error, the slot stays empty and the table is as it was, so
/// that the next call starts from scratch.
pub fn get_lua<'a, C: Fn() -> Descriptor>(
    slot: &'a mut ThreadSlot,
    registry: &Registry<C>,
    live: &mut LiveTable,
) -> (r: Result<&'a mlua::Lua, LuaBindError>)
    requires
        registry.wf(),
        old(live).wf(),
    ensures
        final(live).wf(),
        old(slot).is_ready() ==> r is Ok,
        match r {
            Ok(lua) => {
                &&& acquired(*old(slot), *final(slot), *old(live), *final(live), registry@)
                &&& final(slot).guard() matches Some(guard)
                &&& *lua == guard.runtime()
                &&& holds_namespace(*lua, guard.names())
            },
            Err(error) => error is Init && no_residue(
                *old(slot),
                *final(slot),
                *old(live),
                *final(live),
            ),
        },
{
    if slot.guard.is_none() {
        match LuaGuard::new(registry, live) {
            Ok(guard) => {
                slot.guard = Some(guard);
            },
            Err(error) => {
                return Err(error);
            },
        }
    }
    let guard = slot.guard.as_ref().unwrap();
    proof {
        use_type_invariant(guard);
    }
    Ok(&guard.lua)
}

/// Returns the runtime instance of the calling thread like [`get_lua`], for
/// a caller that shares the live-instance table under a lock and wants to
/// hold the lock for the recording alone: the table is reached only through
/// `record`, which is handed the populated instance and answers with the
/// recorded one (as [`Initializing::finish`] does).
///
/// A slot that already holds an instance answers with it; nothing changes
/// and `record` is not called. An empty slot is filled with what `record`
/// answered for an instance populated from the whole registry. If the
/// instance cannot be built, the error is an initialization error; if
/// `record` fails, its error comes back. Either way the slot stays empty.
pub fn get_lua_with<'a, C, R>(slot: &'a mut ThreadSlot, registry: &Registry<C>, record: R) -> (r:
    Result<&'a mlua::Lua, LuaBindError>) where
    C: Fn() -> Descriptor,
    R: FnOnce(Initializing) -> Result<LuaGuard, LuaBindError>,

    requires
        registry.wf(),
        forall|instance: Initializing| call_requires(record, (instance,)),
    ensures
        old(slot).is_ready() ==> r is Ok && *final(slot) == *old(slot),
        match r {
            Ok(lua) => {
                &&& final(slot).guard() matches Some(guard)
                &&& *lua == guard.runtime()
                &&& holds_namespace(*lua, guard.names())
                &&& !old(slot).is_ready() ==> exists|instance: Initializing|
                    names_of(registry@, instance.names()) && #[trigger] call_ensures(
                        record,
                        (instance,),
                        Ok::<LuaGuard, LuaBindError>(guard),
                    )
            },
            Err(error) => {
                &&& !old(slot).is_ready()
                &&& !final(slot).is_ready()
                &&& error is Init || exists|instance: Initializing|
                    names_of(registry@, instance.names()) && #[trigger] call_ensures(
                        record,
                        (instance,),
                        Err::<LuaGuard, LuaBindError>(error),
                    )
            },
        },
{
    if slot.guard.is_none() {
        let instance = match Initializing::start(registry) {
            Ok(instance) => instance,
            Err(error) => {
                return Err(error);
            },
        };
        let recorded = record(instance);
        assert(call_ensures(record, (instance,), recorded));
        match recorded {
            Ok(guard) => {
                slot.guard = Some(guard);
            },
            Err(error) => {
                return Err(error);
            },
        }
    }
    let guard = slot.guard.as_ref().unwrap();
    proof {
        use_type_invariant(guard);
    }
    Ok(&guard.lua)
}

/// How one character of a module path is written inside the quotes of the
/// script: a backslash, a quote, a line feed and a carriage return are
/// written as escapes, every other character as itself.
pub open spec fn escaped_char(c: char) -> Seq<char> {
    if c == '\\' {
        "\\\\"@
    } else if c == '\'' {
        "\\'"@
    } else if c == '\n' {
        "\\n"@
    } else if c == '\r' {
        "\\r"@
    } else {
        seq![c]
    }
}

/// A text with every character written as [`escaped_char`] says.
pub open spec fn escaped(text: Seq<char>) -> Seq<char>
    decreases text.len(),
{
    if text.len() == 0 {
        Seq::empty()
    } else {
        escaped(text.drop_last()) + escaped_char(text.last())
    }
}

/// Writes a text so that, between single quotes in a script, the engine
/// reads it back as that text and as nothing else.
pub fn escape(text: &str) -> (out: String)
    ensures
        out@ == escaped(text@),
{
    let len: usize = text.unicode_len();
    let mut out = String::new();
    let mut index: usize = 0;
    while index < len
        invariant
            index <= len,
            len == text@.len(),
            out@ == escaped(text@.take(index as int)),
        decreases len - index,
    {
        let c = text.get_char(index);
        proof {
            let longer = text@.take(index + 1);
            assert(longer.drop_last() == text@.take(index as int));
            assert(longer.last() == c);
        }
        if c == '\\' {
            out.append("\\\\");
        } else if c == '\'' {
            out.append("\\'");
        } else if c == '\n' {
            out.append("\\n");
        } else if c == '\r' {
            out.append("\\r");
        } else {
            let same = text.substring_char(index, index + 1);
            assert(same@ == seq![c]);
            out.append(same);
        }
        index = index + 1;
    }
    assert(text@.take(len as int) == text@);
    out
}

/// The script that resolves a module path to its table: the path is handed
/// to `require` as a quoted text.
pub open spec fn require_script_text(module: Seq<char>) -> Seq<char> {
    "return require('"@ + escaped(module) + "')"@
}

/// Builds the script that resolves `module` to its table:
/// `return require('<module>')`, with the module path written by
/// [`escape`], so that it is used as a name and never read as script.
pub fn require_script(module: &str) -> (script: String)
    ensures
        script@ == require_script_text(module@),
{
    let name = escape(module);
    String::from_str("return require('").concat(name.as_str()).concat("')")
}

/// Resolves `func_name` in the module `module` of a runtime instance: runs
/// the script that [`require_script`] builds for the module and looks the
/// name up in the table that the script returns.
///
/// Whether the lookup succeeds is the engine's to decide. Every failure (the
/// path does not resolve to a table, the name is absent, or what it names is
/// not callable) is the engine's error, passed on as [`LuaBindError::Lua`].
pub fn find_func<'lua>(lua: &'lua mlua::Lua, module: &str, func_name: &str) -> (r: Result<
    mlua::Function<'lua>,
    LuaBindError,
>)
    ensures
        r matches Err(error) ==> error is Lua,
{
    let script = require_script(module);
    let chunk = load_chunk(lua, script.as_str());
    match engine_result(eval_table(chunk)) {
        Ok(table) => engine_result(table_get_function(&table, func_name)),
        Err(error) => Err(error),
    }
}

/// Resolves `func_name` in the module `module` of the calling thread's
/// runtime instance, acquiring the instance first as [`get_lua`] does and
/// then looking the function up as [`find_func`] does.
///
/// A failure to acquire is an initialization error and leaves nothing
/// behind. Once the instance is there, every failure of the lookup is the
/// engine's error, passed on as [`LuaBindError::Lua`].
pub fn get_func<'a, C: Fn() -> Descriptor>(
    slot: &'a mut ThreadSlot,
    registry: &Registry<C>,
    live: &mut LiveTable,
    module: &str,
    func_name: &str,
) -> (r: Result<mlua::Function<'a>, LuaBindError>)
    requires
        registry.wf(),
        old(live).wf(),
    ensures
        final(live).wf(),
        match r {
            Ok(_) => acquired(*old(slot), *final(slot), *old(live), *final(live), registry@),
            Err(LuaBindError::Lua(_)) => acquired(
                *old(slot),
                *final(slot),
                *old(live),
                *final(live),
                registry@,
            ),
            Err(LuaBindError::Init(_)) => no_residue(
                *old(slot),
                *final(slot),
                *old(live),
                *final(live),
            ),
            Err(_) => false,
        },
{
    match get_lua(slot, registry, live) {
        Ok(lua) => find_func(lua, module, func_name),
        Err(error) => Err(error),
    }
}

/// Resolves a named script function as [`get_func`] does and hands it to
/// `callback`, whose result is returned.
///
/// The callback runs only if the lookup succeeded. Its error, like a failed
/// lookup, comes back as [`LuaBindError::Lua`]; a failure to acquire the
/// instance comes back as an initialization error.
pub fn call_with<C, F, R>(
    slot: &mut ThreadSlot,
    registry: &Registry<C>,
    live: &mut LiveTable,
    module: &str,
    func_name: &str,
    callback: F,
) -> (r: Result<R, LuaBindError>) where
    C: Fn() -> Descriptor,
    F: FnOnce(&mlua::Function) -> Result<R, mlua::Error>,

    requires
        registry.wf(),
        old(live).wf(),
        forall|function: &mlua::Function| call_requires(callback, (function,)),
    ensures
        final(live).wf(),
        match r {
            Ok(value) => {
                &&& acquired(*old(slot), *final(slot), *old(live), *final(live), registry@)
                &&& exists|function: &mlua::Function| #[trigger]
                    call_ensures(callback, (function,), Ok::<R, mlua::Error>(value))
            },
            Err(LuaBindError::Lua(_)) => acquired(
                *old(slot),
                *final(slot),
                *old(live),
                *final(live),
                registry@,
            ),
            Err(LuaBindError::Init(_)) => no_residue(
                *old(slot),
                *final(slot),
                *old(live),
                *final(live),
            ),
            Err(_) => false,
        },
{
    let function = match get_func(slot, registry, live, module, func_name) {
        Ok(function) => function,
        Err(error) => {
            return Err(error);
        },
    };
    let outcome = callback(&function);
    let ghost returned = outcome;
    let r = engine_result(outcome);
    proof {
        if r is Ok {
            assert(returned == Ok::<R, mlua::Error>(r->Ok_0));
            assert(call_ensures(callback, (&function,), Ok::<R, mlua::Error>(r->Ok_0)));
        }
    }
    r
}

} // verus!
