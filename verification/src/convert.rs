//! The identity and conversion bridge: turning a script value back into a
//! host value, distinguishing a soft "wrong shape" outcome from a hard
//! thrown error.

use vstd::prelude::*;
use vstd::string::StringExecFns;

use crate::engine::{Engine, Slot};
use crate::error::{missing_private_message, Error};

verus! {

/// A script-side value handed to the conversion bridge: a primitive, or a
/// handle to an object of the engine heap.
#[derive(Debug, Clone)]
pub enum ScriptValue {
    Undefined,
    Null,
    Boolean(bool),
    Integer(i64),
    Text(String),
    ObjectRef(usize),
}

/// The outcome of converting a script value into a host value: success, or
/// a soft failure describing a shape mismatch. A soft failure is not an
/// error: callers may go on to try other conversions.
#[derive(Debug)]
pub enum Conversion<V> {
    Success(V),
    Failure(String),
}

/// The soft-failure message for a script value that is no object at all.
pub open spec fn not_object_message() -> Seq<char> {
    "Value is not an object"@
}

/// The soft-failure message for an object of an unrelated class, naming the
/// expected class.
pub open spec fn wrong_class_message(name: Seq<char>) -> Seq<char> {
    "Object is not a "@ + name
}

impl<V: Clone> Engine<V> {
    /// Converts a script value into a cloned host value of the class
    /// registered for `key`.
    ///
    /// A non-object value, or an object of an unrelated class, is a soft
    /// failure, never a thrown error, so that callers can try alternative
    /// conversions. A correctly-classed instance whose private slot is
    /// empty is a hard error: that is an internal consistency violation,
    /// not a shape mismatch. The engine itself is never modified.
    pub fn from_script_value(&self, val: &ScriptValue, key: u64) -> (r: Result<
        Conversion<V>,
        Error,
    >)
        requires
            self.wf(),
            self.reg_has(key),
            val matches ScriptValue::ObjectRef(id) ==> id < self.objects@.len(),
        ensures
            // a non-object is a soft failure, never a thrown error
            !(val matches ScriptValue::ObjectRef(id)) ==> (r matches Ok(c) && c matches
                Conversion::Failure(m) && m@ == not_object_message()),
            // an object of an unrelated class is a soft failure naming the
            // expected class
            val matches ScriptValue::ObjectRef(id) && !self.spec_instance_of(id as int, key)
                ==> (r matches Ok(c) && c matches Conversion::Failure(m) && m@
                == wrong_class_message(self.reg_class_name(key))),
            // an instance with a value attached converts to a clone of it
            val matches ScriptValue::ObjectRef(id) ==> (self.spec_instance_of(id as int, key)
                ==> (self.objects@[id as int].slot matches Slot::Attached(v) ==> (r matches Ok(c)
                && c matches Conversion::Success(out) && cloned(v, out)))),
            // an instance whose slot is empty raises the missing error
            val matches ScriptValue::ObjectRef(id) && self.spec_instance_of(id as int, key)
                && self.objects@[id as int].slot is Detached ==> (r matches Err(e) && e.message@
                == missing_private_message(self.reg_class_name(key))),
    {
        match val {
            ScriptValue::ObjectRef(id) => {
                if self.instance_of(*id, key) {
                    match self.borrow(*id, key) {
                        Ok(v) => Ok(Conversion::Success(v.clone())),
                        Err(e) => Err(e),
                    }
                } else {
                    let idx = match self.find_class_index(key) {
                        Some(idx) => idx,
                        None => vstd::pervasive::unreached(),
                    };
                    let mut m = <String as StringExecFns>::from_str("Object is not a ");
                    m.append(self.classes[idx].name.as_str());
                    Ok(Conversion::Failure(m))
                }
            },
            _ => Ok(
                Conversion::Failure(<String as StringExecFns>::from_str("Value is not an object")),
            ),
        }
    }
}

} // verus!
