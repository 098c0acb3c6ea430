//! The checks of a data request before it reaches a table: that it names a
//! database alias with a route, and that the alias has the table.
use vstd::prelude::*;
use vstd::string::StringExecFns;
use crate::text::{views, str_eq};
use crate::error::Error;
use crate::dal::table::common_info;

verus! {

/// Whether a request can be dispatched: it must carry its descriptor with a
/// database alias (`None` when it carries none), and the alias must be one
/// of those with a route.  A refusal is answered with its message.
pub fn dispatch_check(db: Option<&str>, known: &Vec<String>) -> (r: Result<(), String>)
    ensures
        db is None ==> (r matches Err(m) && m@ == "uri is null"@),
        db matches Some(d) ==> (views(known@).contains(d@) <==> r is Ok),
        db matches Some(d) ==> (!views(known@).contains(d@) ==> (r matches Err(m) && m@
            == "not fond db:"@ + d@)),
{
    let d = match db {
        None => {
            let m = String::from_str("uri is null");
            assert(m@ == "uri is null"@);
            return Err(m);
        },
        Some(d) => d,
    };
    let mut i: usize = 0;
    while i < known.len()
        invariant
            db == Some(d),
            i <= known.len(),
            forall|k: int| 0 <= k < i ==> #[trigger] known@[k]@ != d@,
        decreases known.len() - i,
    {
        if str_eq(known[i].as_str(), d) {
            assert(views(known@)[i as int] == d@);
            assert(views(known@).contains(d@));
            return Ok(());
        }
        i = i + 1;
    }
    assert(!views(known@).contains(d@)) by {
        if views(known@).contains(d@) {
            let k = choose|k: int| 0 <= k < views(known@).len() && views(known@)[k] == d@;
            assert(known@[k]@ == d@);
        }
    }
    let mut m = String::from_str("not fond db:");
    m.append(d);
    Err(m)
}

/// The error for a request on a table that the alias lacks.
pub fn missing_table(orm: &str) -> (e: Error)
    ensures
        common_info(e) == Some("table "@ + orm@ + " not found"@),
{
    let mut info = String::from_str("table ");
    info.append(orm);
    info.append(" not found");
    Error::CommonError { info }
}

} // verus!
