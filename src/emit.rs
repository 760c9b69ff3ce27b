//! Pieces of the text form: indentation and quoted key/value lines.

use vstd::prelude::*;
use vstd::string::StringExecFns;

verus! {

/// `n` tab characters.
pub open spec fn tabs(n: nat) -> Seq<char> {
    Seq::new(n, |i: int| '\t')
}

/// One key/value line at depth `indent`: `<indent>\t"KEY" "VALUE"\n`.
pub open spec fn kv_line(indent: Seq<char>, key: Seq<char>, value: Seq<char>) -> Seq<char> {
    indent + seq!['\t', '"'] + key + seq!['"', ' ', '"'] + value + seq!['"', '\n']
}

/// The opening of a block named `name` at depth `indent`: `<indent>NAME\n<indent>{\n`.
pub open spec fn block_open(indent: Seq<char>, name: Seq<char>) -> Seq<char> {
    indent + name + seq!['\n'] + indent + seq!['{', '\n']
}

/// The closing brace line at depth `indent`.
pub open spec fn block_close(indent: Seq<char>) -> Seq<char> {
    indent + seq!['}', '\n']
}

/// The indentation text for depth `n`.
pub fn indent_string(n: usize) -> (r: String)
    ensures
        r@ == tabs(n as nat),
{
    let mut r = String::new();
    let mut i: usize = 0;
    while i < n
        invariant
            i <= n,
            r@ == tabs(i as nat),
        decreases n - i,
    {
        proof {
            reveal_strlit("\t");
        }
        r.append("\t");
        assert(tabs(i as nat) + "\t"@ =~= tabs((i + 1) as nat));
        i = i + 1;
    }
    r
}

/// Appends a key/value line at depth `indent`.
pub fn push_kv_line(out: &mut String, indent: &str, key: &str, value: &str)
    ensures
        final(out)@ == old(out)@ + kv_line(indent@, key@, value@),
{
    proof {
        reveal_strlit("\t\"");
        reveal_strlit("\" \"");
        reveal_strlit("\"\n");
    }
    out.append(indent);
    out.append("\t\"");
    out.append(key);
    out.append("\" \"");
    out.append(value);
    out.append("\"\n");
    assert(final(out)@ =~= old(out)@ + kv_line(indent@, key@, value@));
}

/// Appends the opening lines of a block named `name` at depth `indent`.
pub fn push_block_open(out: &mut String, indent: &str, name: &str)
    ensures
        final(out)@ == old(out)@ + block_open(indent@, name@),
{
    proof {
        reveal_strlit("\n");
        reveal_strlit("{\n");
    }
    out.append(indent);
    out.append(name);
    out.append("\n");
    out.append(indent);
    out.append("{\n");
    assert(final(out)@ =~= old(out)@ + block_open(indent@, name@));
}

/// Appends the closing brace line at depth `indent`.
pub fn push_block_close(out: &mut String, indent: &str)
    ensures
        final(out)@ == old(out)@ + block_close(indent@),
{
    proof {
        reveal_strlit("}\n");
    }
    out.append(indent);
    out.append("}\n");
    assert(final(out)@ =~= old(out)@ + block_close(indent@));
}

} // verus!
