//! The one error type that every fallible operation of this crate returns.

use vstd::prelude::*;
use vstd::std_specs::convert::FromSpecImpl;
use vstd::string::StringExecFns;

use crate::engine::{error_display, error_text};

verus! {

/// What went wrong, by the stage that failed.
#[derive(Debug)]
pub enum LuaBindError {
    /// The engine raised: a script failed to load or run, a lookup did not
    /// resolve, or a native call surfaced an error through the engine.
    Lua(mlua::Error),
    /// A runtime instance could not be built or populated.
    Init(String),
    /// Raised by binding authors when a payload cannot be encoded or decoded.
    Serialization(String),
    /// Raised by binding authors when a value has the wrong type.
    TypeError(String),
}

/// The label that opens the message of each kind of error.
pub open spec fn message_label(error: LuaBindError) -> Seq<char> {
    match error {
        LuaBindError::Lua(_) => "Lua error: "@,
        LuaBindError::Init(_) => "Initialization error: "@,
        LuaBindError::Serialization(_) => "Serialization error: "@,
        LuaBindError::TypeError(_) => "Type conversion error: "@,
    }
}

/// The detail of an error: for an engine error the text that the engine
/// displays it as, for the others the text they carry.
pub open spec fn message_detail(error: LuaBindError) -> Seq<char> {
    match error {
        LuaBindError::Lua(inner) => error_display(inner),
        LuaBindError::Init(detail) => detail@,
        LuaBindError::Serialization(detail) => detail@,
        LuaBindError::TypeError(detail) => detail@,
    }
}

/// The message of an error: the label of its kind followed by its detail.
pub open spec fn message_of(error: LuaBindError) -> Seq<char> {
    message_label(error) + message_detail(error)
}

impl LuaBindError {
    /// The human-readable message: which stage failed, then the detail.
    pub fn message(&self) -> (text: String)
        ensures
            text@ == message_of(*self),
    {
        match self {
            LuaBindError::Lua(inner) => {
                let detail = error_text(inner);
                String::from_str("Lua error: ").concat(detail.as_str())
            },
            LuaBindError::Init(detail) => String::from_str("Initialization error: ").concat(
                detail.as_str(),
            ),
            LuaBindError::Serialization(detail) => String::from_str(
                "Serialization error: ",
            ).concat(detail.as_str()),
            LuaBindError::TypeError(detail) => String::from_str("Type conversion error: ").concat(
                detail.as_str(),
            ),
        }
    }

    /// Recasts a failure met while building a runtime instance as an
    /// initialization error. One that already is of that kind is kept as it
    /// is; any other is replaced by an initialization error whose detail is
    /// the message of the failure.
    pub fn into_init(self) -> (r: LuaBindError)
        ensures
            r is Init,
            self is Init ==> r == self,
            !(self is Init) ==> r->Init_0@ == message_of(self),
    {
        match self {
            LuaBindError::Init(detail) => LuaBindError::Init(detail),
            other => {
                let text = other.message();
                LuaBindError::Init(text)
            },
        }
    }
}

impl From<mlua::Error> for LuaBindError {
    fn from(error: mlua::Error) -> (r: LuaBindError) {
        LuaBindError::Lua(error)
    }
}

impl FromSpecImpl<mlua::Error> for LuaBindError {
    open spec fn obeys_from_spec() -> bool {
        true
    }

    open spec fn from_spec(error: mlua::Error) -> LuaBindError {
        LuaBindError::Lua(error)
    }
}

/// Carries an engine result into this crate's error type: a value passes
/// through, an engine error becomes [`LuaBindError::Lua`].
pub fn engine_result<T>(outcome: Result<T, mlua::Error>) -> (r: Result<T, LuaBindError>)
    ensures
        r == match outcome {
            Ok(value) => Ok::<T, LuaBindError>(value),
            Err(error) => Err::<T, LuaBindError>(LuaBindError::Lua(error)),
        },
{
    match outcome {
        Ok(value) => Ok(value),
        Err(error) => Err(LuaBindError::from(error)),
    }
}

} // verus!
