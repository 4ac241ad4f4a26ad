//! Labels: `[name]` padded with spaces so that every label of a run has the
//! same width.
use vstd::prelude::*;
use vstd::string::*;

use crate::names::views;

verus! {

/// The length of the longest of `names`, zero where there are none.
pub open spec fn max_len(names: Seq<Seq<char>>) -> nat
    decreases names.len(),
{
    if names.len() == 0 {
        0
    } else {
        let m = max_len(names.drop_last());
        let b = names.last().len();
        if b > m {
            b
        } else {
            m
        }
    }
}

/// `n` spaces.
pub open spec fn spaces(n: nat) -> Seq<char> {
    Seq::new(n, |_i: int| ' ')
}

/// The label of `name` in a run whose labels are `width + 2` characters wide.
pub open spec fn prefix_of(name: Seq<char>, width: nat) -> Seq<char> {
    seq!['['] + name + seq![']'] + spaces((width - name.len()) as nat)
}

/// No name is longer than the longest.
pub proof fn lemma_max_len_bounds(names: Seq<Seq<char>>, i: int)
    requires
        0 <= i < names.len(),
    ensures
        names[i].len() <= max_len(names),
    decreases names.len(),
{
    if i < names.len() - 1 {
        lemma_max_len_bounds(names.drop_last(), i);
    }
}

/// Every label of a run has the same width, two more than the longest name,
/// and starts with its own name in brackets, so that the labelled lines of
/// all commands line up and each is told apart by its name.
pub proof fn lemma_prefixes_aligned(names: Seq<Seq<char>>, i: int)
    requires
        0 <= i < names.len(),
    ensures
        prefix_of(names[i], max_len(names)).len() == max_len(names) + 2,
        prefix_of(names[i], max_len(names)).subrange(0, names[i].len() + 2 as int) == seq!['[']
            + names[i] + seq![']'],
{
    lemma_max_len_bounds(names, i);
    let p = prefix_of(names[i], max_len(names));
    assert(p.subrange(0, names[i].len() + 2 as int) =~= seq!['['] + names[i] + seq![']']);
}

/// The length of the longest name, in characters.
pub fn name_width(names: &Vec<String>) -> (r: usize)
    ensures
        r == max_len(views(names@)),
{
    let mut w: usize = 0;
    let mut i: usize = 0;
    while i < names.len()
        invariant
            i <= names@.len(),
            w == max_len(views(names@).subrange(0, i as int)),
        decreases names@.len() - i,
    {
        let b = names[i].as_str().unicode_len();
        proof {
            let all = views(names@);
            assert(all[i as int] == names@[i as int]@);
            assert(all.subrange(0, i as int + 1).drop_last() =~= all.subrange(0, i as int));
        }
        if b > w {
            w = b;
        }
        i += 1;
    }
    assert(views(names@).subrange(0, names@.len() as int) =~= views(names@));
    w
}

/// The label of `name` padded to `width + 2` characters.
pub fn make_prefix(name: &str, width: usize) -> (r: String)
    requires
        name@.len() <= width,
    ensures
        r@ == prefix_of(name@, width as nat),
{
    proof {
        reveal_strlit("[");
        reveal_strlit("]");
        reveal_strlit(" ");
    }
    assert(" "@ =~= seq![' ']);
    let mut r = String::from_str("[");
    r.append(name);
    r.append("]");
    let pad = width - name.unicode_len();
    let ghost head = r@;
    let mut k: usize = 0;
    while k < pad
        invariant
            k <= pad,
            " "@ == seq![' '],
            r@ == head + spaces(k as nat),
        decreases pad - k,
    {
        r.append(" ");
        assert(head + spaces(k as nat + 1) =~= (head + spaces(k as nat)).push(' '));
        k += 1;
    }
    assert(head =~= seq!['['] + name@ + seq![']']);
    r
}

/// The labels of all `names`, padded to the width of the longest.
pub fn make_prefixes(names: &Vec<String>) -> (r: Vec<String>)
    ensures
        r@.len() == names@.len(),
        forall|i: int|
            0 <= i < names@.len() ==> #[trigger] r@[i]@ == prefix_of(
                names@[i]@,
                max_len(views(names@)),
            ),
{
    let width = name_width(names);
    let mut r: Vec<String> = Vec::new();
    let mut i: usize = 0;
    while i < names.len()
        invariant
            i <= names@.len(),
            width == max_len(views(names@)),
            r@.len() == i,
            forall|j: int|
                0 <= j < i ==> #[trigger] r@[j]@ == prefix_of(names@[j]@, width as nat),
        decreases names@.len() - i,
    {
        proof {
            lemma_max_len_bounds(views(names@), i as int);
        }
        let p = make_prefix(names[i].as_str(), width);
        r.push(p);
        i += 1;
    }
    r
}

} // verus!
