//! Logical paths: the keys of the metadata table.

use vstd::prelude::*;

verus! {

/// A separator of either convention becomes `/`; any other character stays.
pub open spec fn slashed(c: char) -> char {
    if c == '\\' {
        '/'
    } else {
        c
    }
}

/// `text` with every `\` turned into `/`.
pub open spec fn normalized(text: Seq<char>) -> Seq<char> {
    Seq::new(text.len(), |i: int| slashed(text[i]))
}

/// The components with a `/` between each two.
pub open spec fn joined(parts: Seq<Seq<char>>) -> Seq<char>
    decreases parts.len(),
{
    if parts.len() == 0 {
        Seq::empty()
    } else if parts.len() == 1 {
        parts[0]
    } else {
        joined(parts.drop_last()) + seq!['/'] + parts.last()
    }
}

/// The first `depth` components, those of the source root, dropped.
pub open spec fn below_root(components: Seq<Seq<char>>, depth: nat) -> Seq<Seq<char>> {
    if depth <= components.len() {
        components.skip(depth as int)
    } else {
        Seq::empty()
    }
}

/// The logical path of a node: a leading `/`, then the components below the
/// source root joined by `/`, with every `\` turned into `/`.
pub open spec fn spec_logical_path(components: Seq<Seq<char>>, depth: nat) -> Seq<char> {
    seq!['/'] + normalized(joined(below_root(components, depth)))
}

/// The texts of a list of strings.
pub open spec fn texts(strings: Seq<String>) -> Seq<Seq<char>> {
    Seq::new(strings.len(), |i: int| strings[i]@)
}

/// A path is normal when it starts with `/` and holds no `\`.
pub open spec fn is_normal(path: Seq<char>) -> bool {
    &&& path.len() > 0
    &&& path[0] == '/'
    &&& forall|i: int| 0 <= i < path.len() ==> path[i] != '\\'
}

/// `String::push`: the character is appended to the string.
#[verifier::external_body]
fn push_char(text: &mut String, c: char)
    ensures
        final(text)@ == old(text)@.push(c),
{
    text.push(c)
}

/// The logical path under which a node is recorded. `components` are the
/// components of the node's path on the host, of which the first `depth`
/// belong to the source root.
pub fn logical_path(components: &Vec<String>, depth: usize) -> (path: String)
    ensures
        path@ == spec_logical_path(texts(components@), depth as nat),
        is_normal(path@),
{
    let ghost parts = texts(components@);
    let mut path = String::new();
    push_char(&mut path, '/');
    let mut i = depth;
    while i < components.len()
        invariant
            parts == texts(components@),
            depth <= i,
            i <= components.len() || i == depth,
            path@ == seq!['/'] + normalized(
                joined(below_root(parts, depth as nat).take(i - depth)),
            ),
        decreases components.len() - i,
    {
        let ghost below = below_root(parts, depth as nat);
        let ghost before = joined(below.take(i - depth));
        if i > depth {
            push_char(&mut path, '/');
        }
        let ghost lead = if i > depth {
            before + seq!['/']
        } else {
            before
        };
        let text = components[i].as_str();
        proof {
            broadcast use vstd::string::axiom_spec_iter;
        }
        for c in it: text.chars()
            invariant
                it.seq() == text@,
                path@ == seq!['/'] + normalized(lead + text@.take(it.index() as int)),
        {
            push_char(&mut path, if c == '\\' {
                '/'
            } else {
                c
            });
        }
        assert(below.take(i + 1 - depth).drop_last() =~= below.take(i - depth));
        i += 1;
    }
    assert(below_root(parts, depth as nat).take(i - depth) =~= below_root(parts, depth as nat));
    path
}

} // verus!
