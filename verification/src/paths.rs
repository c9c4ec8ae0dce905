use vstd::prelude::*;
use vstd::string::StringExecFns;

verus! {

/// `{base}/{name}`: one path component appended to a base path.
pub open spec fn path_append(base: Seq<char>, name: Seq<char>) -> Seq<char> {
    base + seq!['/'] + name
}

/// Appends one path component to a base path with a `/` separator.
pub fn join_path(base: &String, name: &str) -> (r: String)
    ensures
        r@ == path_append(base@, name@),
{
    proof {
        reveal_strlit("/");
        assert("/"@ =~= seq!['/']);
    }
    let s = base.clone();
    let s = s.concat("/");
    let r = s.concat(name);
    proof {
        assert(r@ =~= path_append(base@, name@));
    }
    r
}

} // verus!
