//! Handler dispatch by parameter type.
//!
//! A `Context` carries the values a handler might want. A handler is any
//! function whose parameters each implement `FromContext`; `trigger`
//! extracts the right values from the context and calls it. Which values
//! a handler receives is decided by its parameter types alone.

use vstd::prelude::*;

verus! {

/// The values handlers can draw from: a textual parameter and an id.
#[derive(Clone)]
pub struct Context {
    param: String,
    id: u32,
}

impl Context {
    pub closed spec fn spec_param(self) -> Seq<char> {
        self.param@
    }

    pub closed spec fn spec_id(self) -> u32 {
        self.id
    }

    pub fn new(param: String, id: u32) -> (c: Self)
        ensures
            c.spec_param() == param@,
            c.spec_id() == id,
    {
        Context { param, id }
    }
}

/// The textual parameter of a context.
pub struct Param(pub String);

/// The id of a context.
pub struct Id(pub u32);

/// How a handler parameter is produced out of a context.
pub trait FromContext: Sized {
    /// What the extracted value is, in terms of the context.
    spec fn extract_ens(context: Context, r: Self) -> bool;

    fn from_context(context: &Context) -> (r: Self)
        ensures
            Self::extract_ens(*context, r),
    ;
}

impl FromContext for Param {
    open spec fn extract_ens(context: Context, r: Self) -> bool {
        r.0@ == context.spec_param()
    }

    fn from_context(context: &Context) -> (r: Self) {
        Param(context.param.clone())
    }
}

impl FromContext for Id {
    open spec fn extract_ens(context: Context, r: Self) -> bool {
        r.0 == context.spec_id()
    }

    fn from_context(context: &Context) -> (r: Self) {
        Id(context.id)
    }
}

/// A function that can be called with values extracted from a context.
/// `T` is the tuple of parameter types it draws from the context.
pub trait Handler<T>: Sized {
    /// Whether the function accepts whatever the context can produce for
    /// its parameter types.
    spec fn callable(self, context: Context) -> bool;

    /// What one dispatch guarantees: with which extracted values the
    /// handler was invoked.
    spec fn dispatched(self, context: Context) -> bool;

    fn call(self, context: Context)
        requires
            self.callable(context),
        ensures
            self.dispatched(context),
    ;
}

impl<T, F> Handler<T> for F where T: FromContext, F: Fn(T) {
    open spec fn callable(self, context: Context) -> bool {
        forall|t: T| T::extract_ens(context, t) ==> #[trigger] call_requires(self, (t,))
    }

    /// The function ran once, on a value extracted from the context by
    /// its parameter type.
    open spec fn dispatched(self, context: Context) -> bool {
        exists|t: T| T::extract_ens(context, t) && #[trigger] call_ensures(self, (t,), ())
    }

    fn call(self, context: Context) {
        let t = T::from_context(&context);
        let ghost t0 = t;
        (self)(t);
        proof {
            assert(T::extract_ens(context, t0) && call_ensures(self, (t0,), ()));
        }
    }
}

impl<T1, T2, F> Handler<(T1, T2)> for F where T1: FromContext, T2: FromContext, F: Fn(T1, T2) {
    open spec fn callable(self, context: Context) -> bool {
        forall|t1: T1, t2: T2|
            (T1::extract_ens(context, t1) && T2::extract_ens(context, t2))
                ==> #[trigger] call_requires(self, (t1, t2))
    }

    /// The function ran once, on one value per parameter, each extracted
    /// from the context by its own type alone — not by position.
    open spec fn dispatched(self, context: Context) -> bool {
        exists|t1: T1, t2: T2|
            T1::extract_ens(context, t1) && T2::extract_ens(context, t2)
                && #[trigger] call_ensures(self, (t1, t2), ())
    }

    fn call(self, context: Context) {
        let t1 = T1::from_context(&context);
        let t2 = T2::from_context(&context);
        let ghost p1 = t1;
        let ghost p2 = t2;
        (self)(t1, t2);
        proof {
            assert(T1::extract_ens(context, p1) && T2::extract_ens(context, p2)
                && call_ensures(self, (p1, p2), ()));
        }
    }
}

/// Hand the context to the handler: the values it receives are extracted
/// from the context according to its parameter types, as the handler's
/// `dispatched` spec states.
pub fn trigger<T, H: Handler<T>>(context: Context, handler: H)
    requires
        handler.callable(context),
    ensures
        handler.dispatched(context),
{
    handler.call(context);
}

} // verus!
