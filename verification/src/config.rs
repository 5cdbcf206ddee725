//! Helpers for walking a configuration document: element scopes are
//! tracked as a stack of names and addressed by their slash-joined path.

use vstd::prelude::*;

verus! {

use vstd::string::StringExecFns;

/// The slash-joined path of a scope stack.
pub open spec fn spec_scope_path(scope: Seq<Seq<char>>) -> Seq<char>
    decreases scope.len(),
{
    if scope.len() == 0 {
        Seq::empty()
    } else if scope.len() == 1 {
        scope[0]
    } else {
        spec_scope_path(scope.drop_last()) + seq!['/'] + scope.last()
    }
}

/// Joins a scope stack into its path, one slash between the names.
pub fn scope_path(scope: &[String]) -> (r: String)
    ensures
        r@ == spec_scope_path(Seq::new(scope@.len(), |i: int| scope@[i]@)),
{
    let ghost names = Seq::new(scope@.len(), |i: int| scope@[i]@);
    let mut out = String::new();
    let n: usize = scope.len();
    let mut i: usize = 0;
    proof {
        reveal_strlit("/");
    }
    while i < n
        invariant
            i <= n,
            n == scope@.len(),
            names == Seq::new(scope@.len(), |q: int| scope@[q]@),
            out@ == spec_scope_path(names.take(i as int)),
        decreases n - i,
    {
        proof {
            reveal_strlit("/");
        }
        if i > 0 {
            out.append("/");
        }
        let name: &String = &scope[i];
        out.append(name.as_str());
        proof {
            let taken = names.take(i + 1 as int);
            assert(taken.drop_last() =~= names.take(i as int));
            assert(taken.last() == names[i as int]);
            if i == 0 {
                assert(taken.len() == 1);
                assert(out@ =~= spec_scope_path(taken));
            } else {
                assert(("/"@) =~= seq!['/']);
                assert(out@ =~= spec_scope_path(names.take(i as int)) + seq!['/'] + names[i as int]);
                assert(out@ =~= spec_scope_path(taken));
            }
        }
        i = i + 1;
    }
    proof {
        assert(names.take(n as int) =~= names);
    }
    out
}

} // verus!
