use vstd::prelude::*;
use vstd::string::StringExecFns;

verus! {

/// The pieces of text, in order, with `", "` between each two of them.
pub open spec fn joined(parts: Seq<Seq<char>>) -> Seq<char>
    decreases parts.len(),
{
    if parts.len() == 0 {
        Seq::empty()
    } else if parts.len() == 1 {
        parts[0]
    } else {
        joined(parts.drop_last()) + ", "@ + parts.last()
    }
}

/// The pieces of text joined by `", "` and enclosed in `[` and `]`.
pub open spec fn bracketed(parts: Seq<Seq<char>>) -> Seq<char> {
    "["@ + joined(parts) + "]"@
}

/// The text of each string, in order.
pub open spec fn texts(parts: Seq<String>) -> Seq<Seq<char>> {
    parts.map_values(|p: String| p@)
}

/// Writes the pieces as a list: `[a, b, c]`, or `[]` when there are none.
pub fn join_bracketed(parts: &Vec<String>) -> (r: String)
    ensures
        r@ == bracketed(texts(parts@)),
{
    let mut out = String::from_str("[");
    let mut i: usize = 0;
    while i < parts.len()
        invariant
            0 <= i <= parts@.len(),
            out@ == "["@ + joined(texts(parts@.take(i as int))),
        decreases parts@.len() - i,
    {
        let ghost before = texts(parts@.take(i as int));
        if i > 0 {
            out.append(", ");
        }
        out.append(parts[i].as_str());
        proof {
            let now = texts(parts@.take(i + 1));
            assert(now.drop_last() =~= before);
            assert(now.last() == parts@[i as int]@);
        }
        i = i + 1;
    }
    proof {
        assert(parts@.take(parts@.len() as int) =~= parts@);
    }
    out.append("]");
    out
}

} // verus!
