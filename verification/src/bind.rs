//! Type descriptors, the registry of their constructors, and the installation
//! of a registry into a runtime instance.

use vstd::prelude::*;
use vstd::string::StrSliceExecFns;
use vstd::string::StringExecFns;

use crate::engine::{
    create_proxy, create_table, globals, table_has_metatable, table_home, table_keys, table_set,
    table_set_table, type_id_of, userdata_home,
};
use crate::error::{engine_result, LuaBindError};

verus! {

/// Whether the namespace separator `::` starts at position `at` of `name`.
pub open spec fn separator_at(name: Seq<char>, at: int) -> bool {
    0 <= at && at + 2 <= name.len() && name[at] == ':' && name[at + 1] == ':'
}

/// The largest position below `bound` at which a separator starts, or -1
/// where there is none.
pub open spec fn last_separator(name: Seq<char>, bound: int) -> int
    decreases bound,
{
    if bound <= 0 {
        -1
    } else if separator_at(name, bound - 1) {
        bound - 1
    } else {
        last_separator(name, bound - 1)
    }
}

/// A fully-qualified name with its namespace stripped: what follows the last
/// separator, or the whole name where it has none.
pub open spec fn last_segment(name: Seq<char>) -> Seq<char> {
    let at = last_separator(name, name.len() as int);
    if at < 0 {
        name
    } else {
        name.subrange(at + 2, name.len() as int)
    }
}

/// `last_separator` finds a separator below the bound and none lies between
/// it and the bound; it answers -1 exactly when none lies below the bound.
pub proof fn lemma_last_separator(name: Seq<char>, bound: int)
    ensures
        -1 <= last_separator(name, bound),
        last_separator(name, bound) >= 0 ==> last_separator(name, bound) < bound && separator_at(
            name,
            last_separator(name, bound),
        ),
        forall|at: int|
            last_separator(name, bound) < at < bound ==> !#[trigger] separator_at(name, at),
    decreases bound,
{
    if bound > 0 && !separator_at(name, bound - 1) {
        lemma_last_separator(name, bound - 1);
    }
}

/// A separator with none after it is the last one.
pub proof fn lemma_last_separator_is(name: Seq<char>, at: int)
    requires
        separator_at(name, at),
        forall|later: int| at < later ==> !#[trigger] separator_at(name, later),
    ensures
        last_separator(name, name.len() as int) == at,
{
    lemma_last_separator(name, name.len() as int);
}

/// A name without any separator is its own last segment.
pub proof fn lemma_unqualified_name(name: Seq<char>)
    requires
        forall|at: int| !#[trigger] separator_at(name, at),
    ensures
        last_segment(name) == name,
{
    lemma_last_separator(name, name.len() as int);
}

/// Strips the namespace from a fully-qualified name: `a::b::Name` gives
/// `Name`, and a name without `::` is returned whole.
pub fn short_name<'a>(full: &'a str) -> (short: &'a str)
    ensures
        short@ == last_segment(full@),
{
    let len: usize = full.unicode_len();
    let mut bound: usize = if len == 0 {
        0
    } else {
        len - 1
    };
    while bound > 0
        invariant
            len == full@.len(),
            bound < len || (bound == 0 && len == 0),
            forall|at: int| bound <= at ==> !#[trigger] separator_at(full@, at),
        decreases bound,
    {
        let at: usize = bound - 1;
        if full.get_char(at) == ':' && full.get_char(at + 1) == ':' {
            proof {
                lemma_last_separator_is(full@, at as int);
            }
            return full.substring_char(at + 2, len);
        }
        bound = at;
    }
    proof {
        lemma_unqualified_name(full@);
    }
    full
}

/// What an installation under `key` does to a namespace table, whatever its
/// outcome. The table stays in its instance. If it had no metatable, it has
/// none afterwards, no key but `key` has come and none has gone, and if the
/// installation succeeded, `key` is there.
pub open spec fn installed_under(
    before: mlua::Table,
    after: mlua::Table,
    key: Seq<char>,
    succeeded: bool,
) -> bool {
    &&& table_home(after) == table_home(before)
    &&& !table_has_metatable(before) ==> {
        &&& !table_has_metatable(after)
        &&& table_keys(before).subset_of(table_keys(after))
        &&& table_keys(after).subset_of(table_keys(before).insert(key))
        &&& succeeded ==> table_keys(after).contains(key)
    }
}

/// After a successful installation into a table without a metatable the
/// keys are the keys from before and the new one.
pub proof fn lemma_installed_keys(before: mlua::Table, after: mlua::Table, key: Seq<char>)
    requires
        installed_under(before, after, key, true),
        !table_has_metatable(before),
    ensures
        table_keys(after) == table_keys(before).insert(key),
{
    assert(table_keys(after) =~= table_keys(before).insert(key));
}

/// A type descriptor: the capability to expose one native type to script.
///
/// The descriptors of this crate are [`Binding`]s; [`binding_of`] makes the
/// one for a native type. A registry deals in [`Descriptor`]s, which box any
/// implementation. An implementation is held to the contracts below, so it
/// has to be verified like this crate.
pub trait LuaBindings: Send + Sync + 'static {
    /// The fully-qualified name of the native type.
    spec fn spec_name(&self) -> Seq<char>;

    /// The fully-qualified name of the native type, for diagnostics.
    fn name(&self) -> (name: &'static str)
        ensures
            name@ == self.spec_name(),
    ;

    /// The name under which the type is exposed to script: the
    /// fully-qualified name with its namespace stripped.
    fn short(&self) -> (short: &'static str)
        ensures
            short@ == last_segment(self.spec_name()),
    ;

    /// The identity of the native type.
    spec fn spec_type_id(&self) -> std::any::TypeId;

    /// The identity of the native type.
    fn type_id(&self) -> (id: std::any::TypeId)
        ensures
            id == self.spec_type_id(),
    ;

    /// Installs the native type into a runtime instance: creates its
    /// script-visible proxy in `lua` and stores it in the namespace table
    /// under the short name.
    ///
    /// The table must live in `lua`. Whether the installation succeeds is
    /// the engine's to decide. What it does to the table, whatever the
    /// outcome, is what [`installed_under`] says for the short name: on a
    /// table without a metatable no other entry comes or goes, and on
    /// success the entry is there.
    fn register<'lua>(&self, lua: &'lua mlua::Lua, table: &mut mlua::Table<'lua>) -> (r: Result<
        (),
        LuaBindError,
    >)
        requires
            table_home(*old(table)) == *lua,
        ensures
            installed_under(
                *old(table),
                *final(table),
                last_segment(self.spec_name()),
                r is Ok,
            ),
    ;
}

/// Creates the script-visible proxy of the native type `T` in `lua`. Whether
/// that succeeds is the engine's to decide; its error is passed on as
/// [`LuaBindError::Lua`]. A proxy that comes back lives in `lua`.
pub fn proxy_of<'lua, T: mlua::UserData + 'static>(lua: &'lua mlua::Lua) -> (r: Result<
    mlua::AnyUserData<'lua>,
    LuaBindError,
>)
    ensures
        match r {
            Ok(proxy) => userdata_home(proxy) == *lua,
            Err(error) => error is Lua,
        },
{
    engine_result(create_proxy::<T>(lua))
}

/// What a descriptor asks of the function that makes its proxies: it can be
/// called on every instance, and a proxy that it hands back lives in the
/// instance it was called on. (The engine panics when a value of one
/// instance is stored in another.)
pub open spec fn makes_proxies<F>(make: F) -> bool where
    F: for<'lua> Fn(&'lua mlua::Lua) -> Result<mlua::AnyUserData<'lua>, LuaBindError>,
 {
    &&& forall|lua: &mlua::Lua| call_requires(make, (lua,))
    &&& forall|lua: &mlua::Lua, r: Result<mlua::AnyUserData, LuaBindError>|
        call_ensures(make, (lua,), r) ==> (r matches Ok(proxy) ==> userdata_home(proxy) == *lua)
}

/// The descriptor of one native type: its fully-qualified name, its
/// identity, and the function that makes its proxy.
pub struct Binding<F> where
    F: for<'lua> Fn(&'lua mlua::Lua) -> Result<mlua::AnyUserData<'lua>, LuaBindError>,
 {
    full: &'static str,
    identity: std::any::TypeId,
    make: F,
}

impl<F> Binding<F> where
    F: for<'lua> Fn(&'lua mlua::Lua) -> Result<mlua::AnyUserData<'lua>, LuaBindError>,
 {
    #[verifier::type_invariant]
    spec fn well_made(self) -> bool {
        makes_proxies(self.make)
    }

    /// The fully-qualified name this descriptor was made with.
    pub closed spec fn full_name(&self) -> Seq<char> {
        self.full@
    }

    /// The identity this descriptor was made with.
    pub closed spec fn identity(&self) -> std::any::TypeId {
        self.identity
    }

    /// The function that makes this descriptor's proxies.
    pub closed spec fn maker(&self) -> F {
        self.make
    }

    /// A descriptor under the fully-qualified name `full`, whose proxies
    /// `make` creates. For a native type `T` the function to hand in is
    /// [`proxy_of::<T>`](proxy_of).
    pub fn new(full: &'static str, identity: std::any::TypeId, make: F) -> (binding: Self)
        requires
            makes_proxies(make),
        ensures
            binding.full_name() == full@,
            binding.identity() == identity,
            binding.maker() == make,
    {
        Binding { full, identity, make }
    }
}

impl<F> LuaBindings for Binding<F> where
    F: for<'lua> Fn(&'lua mlua::Lua) -> Result<mlua::AnyUserData<'lua>, LuaBindError>
        + Send + Sync + 'static,
 {
    open spec fn spec_name(&self) -> Seq<char> {
        self.full_name()
    }

    fn name(&self) -> (name: &'static str) {
        self.full
    }

    fn short(&self) -> (short: &'static str) {
        short_name(self.full)
    }

    open spec fn spec_type_id(&self) -> std::any::TypeId {
        self.identity()
    }

    fn type_id(&self) -> (id: std::any::TypeId) {
        self.identity
    }

    /// Asks the maker for the proxy and stores it under the short name. It
    /// succeeds only if the maker did. If the maker failed, its error comes
    /// back and the table is as it was. Otherwise an error is the engine's
    /// refusal to store the proxy, passed on as [`LuaBindError::Lua`].
    fn register<'lua>(&self, lua: &'lua mlua::Lua, table: &mut mlua::Table<'lua>) -> (r: Result<
        (),
        LuaBindError,
    >)
        ensures
            r is Ok ==> exists|proxy: mlua::AnyUserData<'lua>| #[trigger]
                call_ensures(
                    self.maker(),
                    (lua,),
                    Ok::<mlua::AnyUserData<'lua>, LuaBindError>(proxy),
                ),
            r matches Err(error) ==> (*final(table) == *old(table) && call_ensures(
                self.maker(),
                (lua,),
                Err::<mlua::AnyUserData<'lua>, LuaBindError>(error),
            )) || (error is Lua && exists|proxy: mlua::AnyUserData<'lua>| #[trigger]
                call_ensures(
                    self.maker(),
                    (lua,),
                    Ok::<mlua::AnyUserData<'lua>, LuaBindError>(proxy),
                )),
    {
        proof {
            use_type_invariant(self);
        }
        let made = (self.make)(lua);
        assert(call_ensures(self.maker(), (lua,), made));
        match made {
            Ok(proxy) => engine_result(table_set(table, self.short(), proxy)),
            Err(error) => Err(error),
        }
    }
}

/// Whether two texts are the same.
fn same_text(left: &str, right: &str) -> (same: bool)
    ensures
        same == (left@ == right@),
{
    String::from_str(left) == String::from_str(right)
}

/// A type descriptor as a constructor of the registry hands it out: some
/// implementation of [`LuaBindings`], boxed, together with the name and the
/// identity that it gave when it was boxed.
pub struct Descriptor {
    full: &'static str,
    identity: std::any::TypeId,
    inner: Box<dyn LuaBindings>,
}

impl Descriptor {
    /// The fully-qualified name of the native type.
    pub closed spec fn spec_name(&self) -> Seq<char> {
        self.full@
    }

    /// The identity of the native type.
    pub closed spec fn spec_type_id(&self) -> std::any::TypeId {
        self.identity
    }

    /// The fully-qualified name that the descriptor in the box gives.
    pub closed spec fn boxed_name(&self) -> Seq<char> {
        self.inner.spec_name()
    }

    /// Boxes a descriptor. The box answers with the name and the identity
    /// that the descriptor gives now.
    pub fn new<B: LuaBindings>(binding: B) -> (descriptor: Self)
        ensures
            descriptor.spec_name() == binding.spec_name(),
            descriptor.spec_type_id() == binding.spec_type_id(),
    {
        let full = binding.name();
        let identity = binding.type_id();
        Descriptor { full, identity, inner: Box::new(binding) }
    }

    /// The fully-qualified name of the native type, for diagnostics.
    pub fn name(&self) -> (name: &'static str)
        ensures
            name@ == self.spec_name(),
    {
        self.full
    }

    /// The name under which the type is exposed to script: the
    /// fully-qualified name with its namespace stripped.
    pub fn short(&self) -> (short: &'static str)
        ensures
            short@ == last_segment(self.spec_name()),
    {
        short_name(self.full)
    }

    /// The identity of the native type.
    pub fn type_id(&self) -> (id: std::any::TypeId)
        ensures
            id == self.spec_type_id(),
    {
        self.identity
    }

    /// Installs the native type into a runtime instance, as
    /// [`LuaBindings::register`] describes, under the short name of this
    /// descriptor. A box whose descriptor gives another short name than the
    /// one it was boxed under is refused with an initialization error, and
    /// the table is left as it was.
    pub fn register<'lua>(&self, lua: &'lua mlua::Lua, table: &mut mlua::Table<'lua>) -> (r: Result<
        (),
        LuaBindError,
    >)
        requires
            table_home(*old(table)) == *lua,
        ensures
            installed_under(
                *old(table),
                *final(table),
                last_segment(self.spec_name()),
                r is Ok,
            ),
            last_segment(self.boxed_name()) != last_segment(self.spec_name()) ==> {
                &&& r matches Err(error)
                &&& error is Init
                &&& *final(table) == *old(table)
            },
    {
        if !same_text(self.inner.short(), self.short()) {
            return Err(
                LuaBindError::Init(String::from_str("a descriptor answers to a changed name")),
            );
        }
        self.inner.register(lua, table)
    }
}

/// A [`Binding`] answers, as a descriptor, with the name and the identity it
/// was made with.
pub proof fn lemma_binding_describes_itself<F>(binding: Binding<F>) where
    F: for<'lua> Fn(&'lua mlua::Lua) -> Result<mlua::AnyUserData<'lua>, LuaBindError>
        + Send + Sync + 'static,

    ensures
        binding.spec_name() == binding.full_name(),
        binding.spec_type_id() == binding.identity(),
{
}

/// The descriptor of the native type `T` under the fully-qualified name
/// `full`, as a constructor of the registry hands it out. Its proxies are
/// made by [`proxy_of::<T>`](proxy_of).
pub fn binding_of<T: mlua::UserData + 'static>(full: &'static str) -> (descriptor: Descriptor)
    ensures
        descriptor.spec_name() == full@,
{
    let binding = Binding::new(full, type_id_of::<T>(), proxy_of::<T>);
    proof {
        lemma_binding_describes_itself(binding);
    }
    Descriptor::new(binding)
}

/// The binding registry: an append-only, ordered sequence of zero-argument
/// constructors, each yielding one type descriptor.
pub struct Registry<C> {
    constructors: Vec<C>,
}

impl<C: Fn() -> Descriptor> Registry<C> {
    /// The constructors, in the order in which they were contributed.
    pub closed spec fn view(&self) -> Seq<C> {
        self.constructors@
    }

    /// Every constructor can be called.
    pub open spec fn wf(&self) -> bool {
        forall|i: int| 0 <= i < self@.len() ==> call_requires(#[trigger] self@[i], ())
    }

    /// The empty registry.
    pub fn new() -> (registry: Self)
        ensures
            registry@ == Seq::<C>::empty(),
            registry.wf(),
    {
        Registry { constructors: Vec::new() }
    }

    /// Contributes one constructor; it comes after all earlier ones.
    pub fn register(&mut self, constructor: C)
        requires
            old(self).wf(),
            call_requires(constructor, ()),
        ensures
            final(self)@ == old(self)@.push(constructor),
            final(self).wf(),
    {
        self.constructors.push(constructor);
        assert forall|i: int| 0 <= i < self@.len() implies call_requires(#[trigger] self@[i], ()) by {
            if i < old(self)@.len() {
                assert(self@[i] == old(self)@[i]);
            }
        }
    }

    /// How many constructors have been contributed.
    pub fn len(&self) -> (len: usize)
        ensures
            len == self@.len(),
    {
        self.constructors.len()
    }

    /// The constructor at `index`, counted from the first contribution.
    pub fn get(&self, index: usize) -> (constructor: &C)
        requires
            index < self@.len(),
        ensures
            *constructor == self@[index as int],
    {
        &self.constructors[index]
    }
}

/// That a constructor has built a descriptor whose short name is `name`.
pub open spec fn builds<C: Fn() -> Descriptor>(constructor: C, name: Seq<char>) -> bool {
    exists|made: Descriptor| #[trigger]
        call_ensures(constructor, (), made) && name == last_segment(made.spec_name())
}

/// That `names` are the short names of the descriptors of a registry: each
/// constructor built one descriptor, and `names` lists their
/// namespace-stripped names in registry order.
pub open spec fn names_of<C: Fn() -> Descriptor>(
    constructors: Seq<C>,
    names: Seq<String>,
) -> bool {
    &&& names.len() == constructors.len()
    &&& forall|i: int|
        0 <= i < constructors.len() ==> builds(#[trigger] constructors[i], names[i]@)
}

/// The set of names that a list of names holds.
pub open spec fn name_set(names: Seq<String>) -> Set<Seq<char>> {
    Set::new(|name: Seq<char>| exists|i: int| 0 <= i < names.len() && #[trigger] names[i]@ == name)
}

/// Adding a name to the list adds it to the set.
pub proof fn lemma_name_set_push(names: Seq<String>, name: String)
    ensures
        name_set(names.push(name)) == name_set(names).insert(name@),
{
    let longer = names.push(name);
    assert forall|key: Seq<char>| name_set(longer).contains(key) <==> name_set(names).insert(
        name@,
    ).contains(key) by {
        if name_set(longer).contains(key) {
            let i = choose|i: int| 0 <= i < longer.len() && #[trigger] longer[i]@ == key;
            if i < names.len() {
                assert(names[i]@ == key);
            }
        }
        if name_set(names).contains(key) {
            let i = choose|i: int| 0 <= i < names.len() && #[trigger] names[i]@ == key;
            assert(longer[i]@ == key);
        }
        if key == name@ {
            assert(longer[names.len() as int]@ == key);
        }
    }
    assert(name_set(longer) =~= name_set(names).insert(name@));
}

/// Builds the namespace table of a runtime instance: a fresh table into
/// which the descriptor of every constructor of the registry has been
/// installed, in registry order, together with the short names under which
/// they were installed.
///
/// On success the table holds an entry for the short name of each of those
/// descriptors and no other entry. The first failing step ends the work with
/// an initialization error; what had been installed up to then is dropped
/// with the table.
pub fn namespace_table<'lua, C: Fn() -> Descriptor>(
    lua: &'lua mlua::Lua,
    registry: &Registry<C>,
) -> (r: Result<(mlua::Table<'lua>, Vec<String>), LuaBindError>)
    requires
        registry.wf(),
    ensures
        match r {
            Ok((table, names)) => {
                &&& names_of(registry@, names@)
                &&& table_keys(table) == name_set(names@)
                &&& table_home(table) == *lua
                &&& !table_has_metatable(table)
            },
            Err(error) => error is Init,
        },
{
    let mut table = match engine_result(create_table(lua)) {
        Ok(table) => table,
        Err(error) => {
            return Err(error.into_init());
        },
    };
    let mut names: Vec<String> = Vec::new();
    assert(table_keys(table) =~= name_set(names@));
    let mut index: usize = 0;
    while index < registry.len()
        invariant
            registry.wf(),
            index <= registry@.len(),
            names@.len() == index,
            forall|i: int| 0 <= i < index ==> builds(#[trigger] registry@[i], names@[i]@),
            table_keys(table) == name_set(names@),
            table_home(table) == *lua,
            !table_has_metatable(table),
        decreases registry@.len() - index,
    {
        let constructor = registry.get(index);
        let binding = constructor();
        let ghost before = table;
        match binding.register(lua, &mut table) {
            Ok(()) => {
                let name = String::from_str(binding.short());
                proof {
                    lemma_installed_keys(before, table, name@);
                    lemma_name_set_push(names@, name);
                    assert(call_ensures(*constructor, (), binding));
                    assert(builds(*constructor, name@));
                }
                names.push(name);
            },
            Err(error) => {
                return Err(error.into_init());
            },
        }
        index = index + 1;
    }
    Ok((table, names))
}

/// That a namespace table was built in the instance `lua` whose entries are
/// exactly `names`: a table of that instance, without a metatable, whose
/// keys are the names of the list and no others.
pub open spec fn holds_namespace(lua: mlua::Lua, names: Seq<String>) -> bool {
    exists|table: mlua::Table| #[trigger]
        table_home(table) == lua && !table_has_metatable(table) && table_keys(table) == name_set(
            names,
        )
}

/// The global name under which the namespace table is published: `Rust`.
pub fn namespace_name() -> (name: &'static str)
    ensures
        name@ == "Rust"@,
{
    "Rust"
}

/// Populates a runtime instance from the registry: builds the namespace
/// table and publishes it in the instance's global scope under
/// [`namespace_name`]. Returns the short names that were installed, in registry order.
///
/// Every failure, of an installation or of the publication, is an
/// initialization error.
pub fn iterate_bindings<C: Fn() -> Descriptor>(
    lua: &mlua::Lua,
    registry: &Registry<C>,
) -> (r: Result<Vec<String>, LuaBindError>)
    requires
        registry.wf(),
    ensures
        match r {
            Ok(names) => names_of(registry@, names@) && holds_namespace(*lua, names@),
            Err(error) => error is Init,
        },
{
    match namespace_table(lua, registry) {
        Ok((table, names)) => {
            assert(holds_namespace(*lua, names@)) by {
                assert(table_home(table) == *lua);
            }
            let mut scope = globals(lua);
            match engine_result(table_set_table(&mut scope, namespace_name(), table)) {
                Ok(()) => Ok(names),
                Err(error) => Err(error.into_init()),
            }
        },
        Err(error) => Err(error),
    }
}

} // verus!
