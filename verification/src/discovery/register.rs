//! Node paths of the coordination service.
use vstd::prelude::*;
use vstd::string::StringExecFns;
use vstd::string::StrSliceExecFns;
use crate::text::{joined, views, join_strings};

verus! {

/// The finished non-empty segments of a path read so far, and the segment
/// being read.
pub open spec fn segments_state(s: Seq<char>) -> (Seq<Seq<char>>, Seq<char>)
    decreases s.len(),
{
    if s.len() == 0 {
        (Seq::empty(), Seq::empty())
    } else {
        let (done, cur) = segments_state(s.drop_last());
        if s.last() == '/' {
            (if cur.len() > 0 {
                done.push(cur)
            } else {
                done
            }, Seq::empty())
        } else {
            (done, cur.push(s.last()))
        }
    }
}

/// The non-empty segments of a path between its slashes, in order.
pub open spec fn segments(s: Seq<char>) -> Seq<Seq<char>> {
    let (done, cur) = segments_state(s);
    if cur.len() > 0 {
        done.push(cur)
    } else {
        done
    }
}

/// Whether a path holds a slash.
pub open spec fn has_slash(s: Seq<char>) -> bool {
    exists|i: int| 0 <= i < s.len() && #[trigger] s[i] == '/'
}

/// Splits a node path into its parent path and the node's name: a path
/// without a slash is a node under the root; otherwise the parent is the
/// segments but the last, joined under the root, and the node the last
/// segment.  A path of slashes alone names no node.
pub fn split(path: String) -> (r: (String, String))
    requires
        has_slash(path@) ==> segments(path@).len() > 0,
    ensures
        !has_slash(path@) ==> r.0@ == "/"@ && r.1@ == path@,
        has_slash(path@) ==> r.0@ == "/"@ + joined(segments(path@).drop_last(), "/"@) && r.1@
            == segments(path@).last(),
{
    let p = path.as_str();
    let n = p.unicode_len();
    let mut done: Vec<String> = Vec::new();
    let mut cur = String::new();
    let mut slash = false;
    let mut i: usize = 0;
    while i < n
        invariant
            n == p@.len(),
            p@ == path@,
            i <= n,
            (views(done@), cur@) == segments_state(p@.take(i as int)),
            slash == has_slash(p@.take(i as int)),
        decreases n - i,
    {
        let c = p.get_char(i);
        assert(p@.take(i as int + 1).drop_last() =~= p@.take(i as int));
        assert(p@.take(i as int + 1).last() == c);
        if c == '/' {
            assert(p@.take(i as int + 1)[i as int] == '/');
            slash = true;
            if cur.unicode_len() > 0 {
                let ghost before = views(done@);
                done.push(cur);
                assert(views(done@) =~= before.push(segments_state(p@.take(i as int)).1));
            }
            cur = String::new();
        } else {
            proof {
                if has_slash(p@.take(i as int + 1)) {
                    let k = choose|k: int| 0 <= k < i + 1 && #[trigger] p@.take(i as int + 1)[k] == '/';
                    assert(k < i);
                    assert(p@.take(i as int)[k] == '/');
                }
            }
            cur.append(p.substring_char(i, i + 1));
        }
        i = i + 1;
    }
    assert(p@.take(n as int) =~= p@);
    if !slash {
        return (String::from_str("/"), path);
    }
    if cur.unicode_len() > 0 {
        let ghost before = views(done@);
        done.push(cur);
        assert(views(done@) =~= before.push(segments_state(p@).1));
    }
    let ghost all = views(done@);
    let node = done.pop().unwrap();
    assert(views(done@) =~= all.drop_last());
    let mut parent = String::from_str("/");
    parent.append(join_strings(&done, "/").as_str());
    (parent, node)
}

} // verus!
