use vstd::prelude::*;
use vstd::string::StringSliceAdditionalSpecFns;
use vstd::utf8::encode_utf8;
use crate::path::{last_component, last_component_range, trim_trailing_slashes, copy_range};

verus! {

/// The utilities that the dispatcher can run.
#[derive(Clone, Copy, Debug, PartialEq, Eq, Structural)]
pub enum Utility {
    Basename,
    Cat,
    Cmp,
}

/// The dispatcher's decision.
#[derive(Clone, Copy, Debug, PartialEq, Eq, Structural)]
pub enum Dispatch {
    /// Run `utility` on the arguments from index `skip` on; the argument at
    /// `skip` takes the program-name slot.
    Run { utility: Utility, skip: usize },
    /// No utility could be named; exit with this status.
    NoUtility(i32),
    /// The second argument names no known utility; exit with status 1.
    NotFound,
}

/// The utility called `name`, if any.
pub open spec fn utility_named(name: Seq<u8>) -> Option<Utility> {
    if name == "basename".spec_bytes() {
        Some(Utility::Basename)
    } else if name == "cat".spec_bytes() {
        Some(Utility::Cat)
    } else if name == "cmp".spec_bytes() {
        Some(Utility::Cmp)
    } else {
        None
    }
}

/// The decision for the process arguments `args` (program name first): the
/// program name's last component selects a utility, and failing that the next
/// argument does.
pub open spec fn dispatch_of(args: Seq<String>) -> Dispatch {
    if args.len() == 0 {
        Dispatch::NoUtility(1)
    } else if trim_trailing_slashes(encode_utf8(args[0]@)).len() == 0 {
        Dispatch::NoUtility(1)
    } else if utility_named(last_component(encode_utf8(args[0]@))) is Some {
        Dispatch::Run {
            utility: utility_named(last_component(encode_utf8(args[0]@))).unwrap(),
            skip: 0,
        }
    } else if args.len() < 2 {
        Dispatch::NoUtility(2)
    } else if utility_named(encode_utf8(args[1]@)) is Some {
        Dispatch::Run { utility: utility_named(encode_utf8(args[1]@)).unwrap(), skip: 1 }
    } else {
        Dispatch::NotFound
    }
}

fn same_bytes(a: &[u8], b: &[u8]) -> (r: bool)
    ensures
        r == (a@ == b@),
{
    if a.len() != b.len() {
        return false;
    }
    let mut i: usize = 0;
    while i < a.len()
        invariant
            a@.len() == b@.len(),
            i <= a@.len(),
            forall|k: int| 0 <= k < i ==> a@[k] == b@[k],
        decreases a@.len() - i,
    {
        if a[i] != b[i] {
            return false;
        }
        i = i + 1;
    }
    proof {
        assert(a@ =~= b@);
    }
    true
}

/// The utility called `name`, if any.
pub fn utility_of(name: &[u8]) -> (r: Option<Utility>)
    ensures
        r == utility_named(name@),
{
    if same_bytes(name, "basename".as_bytes()) {
        Some(Utility::Basename)
    } else if same_bytes(name, "cat".as_bytes()) {
        Some(Utility::Cat)
    } else if same_bytes(name, "cmp".as_bytes()) {
        Some(Utility::Cmp)
    } else {
        None
    }
}

/// Decides which utility the process arguments `args` select, and from which
/// argument on that utility reads them.
pub fn dispatch(args: &Vec<String>) -> (r: Dispatch)
    ensures
        r == dispatch_of(args@),
{
    if args.len() == 0 {
        return Dispatch::NoUtility(1);
    }
    let callee = args[0].as_str().as_bytes();
    let (start, end) = last_component_range(callee);
    if end == 0 {
        return Dispatch::NoUtility(1);
    }
    let name = copy_range(callee, start, end);
    match utility_of(name.as_slice()) {
        Some(u) => Dispatch::Run { utility: u, skip: 0 },
        None => {
            if args.len() < 2 {
                Dispatch::NoUtility(2)
            } else {
                match utility_of(args[1].as_str().as_bytes()) {
                    Some(u) => Dispatch::Run { utility: u, skip: 1 },
                    None => Dispatch::NotFound,
                }
            }
        },
    }
}

} // verus!
