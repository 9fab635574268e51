pub mod enumerate_files;
pub mod enumerate_subdomains;
pub mod events_log;
pub mod passive_dns;
pub mod ready;

use crate::events::Type;
use vstd::prelude::*;

verus! {

/// A unit of work in a session: it has a name and a description, and it runs on the
/// events it subscribes to.
pub trait Module {
    spec fn spec_name(&self) -> Seq<char>;

    spec fn spec_description(&self) -> Seq<char>;

    spec fn spec_subscribers(&self) -> Seq<Type>;

    fn name(&self) -> (n: String)
        ensures
            n@ == self.spec_name(),
    ;

    fn description(&self) -> (d: String)
        ensures
            d@ == self.spec_description(),
    ;

    fn subscribers(&self) -> (s: Vec<Type>)
        ensures
            s@ == self.spec_subscribers(),
    ;
}

} // verus!
