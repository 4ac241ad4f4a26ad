//! Reconciling the names given for the commands with the commands themselves.
use vstd::prelude::*;
use vstd::string::*;

use crate::text::{decimal, decimal_string};

verus! {

/// The views of a sequence of strings.
pub open spec fn views(v: Seq<String>) -> Seq<Seq<char>> {
    v.map_values(|s: String| s@)
}

/// The default name of the command at position `i` (counted from zero):
/// `cmd-` followed by its position counted from one.
pub open spec fn default_name(i: nat) -> Seq<char> {
    seq!['c', 'm', 'd', '-'] + decimal(i + 1)
}

/// The default names `cmd-1`, `cmd-2`, ... for `count` commands.
pub fn default_names(count: usize) -> (r: Vec<String>)
    ensures
        r@.len() == count,
        forall|i: int| 0 <= i < count ==> #[trigger] r@[i]@ == default_name(i as nat),
{
    let mut r: Vec<String> = Vec::new();
    let mut i: usize = 0;
    while i < count
        invariant
            i <= count,
            r@.len() == i,
            forall|j: int| 0 <= j < i ==> #[trigger] r@[j]@ == default_name(j as nat),
        decreases count - i,
    {
        proof {
            reveal_strlit("cmd-");
        }
        let mut name = String::from_str("cmd-");
        let number = decimal_string(i as u64 + 1);
        name.append(number.as_str());
        assert(name@ =~= default_name(i as nat));
        r.push(name);
        i += 1;
    }
    r
}


/// The names as given on the command line, and the commands to run.
pub struct Args {
    pub names: Option<Vec<String>>,
    pub commands: Vec<String>,
}

/// The names could not be matched with the commands: `expected` names were
/// needed and `got` were found.
#[derive(Debug, PartialEq, Eq, Structural, Clone, Copy)]
pub struct NameCountError {
    pub expected: usize,
    pub got: usize,
}

/// `s` cut at every comma; the commas themselves are dropped. A string
/// without commas gives itself alone, and `n` commas give `n + 1` pieces.
pub open spec fn split_commas(s: Seq<char>) -> Seq<Seq<char>>
    decreases s.len(),
{
    if s.len() == 0 {
        seq![Seq::empty()]
    } else {
        let init = split_commas(s.drop_last());
        if s.last() == ',' {
            init.push(Seq::empty())
        } else {
            init.update(init.len() - 1, init.last().push(s.last()))
        }
    }
}

proof fn lemma_split_commas_nonempty(s: Seq<char>)
    ensures
        split_commas(s).len() >= 1,
    decreases s.len(),
{
    if s.len() > 0 {
        lemma_split_commas_nonempty(s.drop_last());
    }
}

/// Cuts `s` at every comma.
pub fn split_commas_exec(s: &str) -> (r: Vec<String>)
    ensures
        views(r@) == split_commas(s@),
{
    let n = s.unicode_len();
    let mut parts: Vec<String> = Vec::new();
    let mut start: usize = 0;
    let mut i: usize = 0;
    assert(s@.subrange(0, 0) =~= Seq::<char>::empty());
    assert(views(parts@) =~= Seq::<Seq<char>>::empty());
    assert(views(parts@).push(s@.subrange(0, 0)) =~= split_commas(s@.subrange(0, 0)));
    while i < n
        invariant
            n == s@.len(),
            start <= i <= n,
            views(parts@).push(s@.subrange(start as int, i as int)) == split_commas(
                s@.subrange(0, i as int),
            ),
        decreases n - i,
    {
        let c = s.get_char(i);
        proof {
            lemma_split_commas_nonempty(s@.subrange(0, i as int));
            assert(s@.subrange(0, i as int + 1).drop_last() =~= s@.subrange(0, i as int));
        }
        let ghost before = views(parts@);
        let ghost sub = s@.subrange(0, i as int + 1);
        assert(sub.last() == c);
        if c == ',' {
            let piece = String::from_str(s.substring_char(start, i));
            parts.push(piece);
            assert(views(parts@) =~= before.push(s@.subrange(start as int, i as int)));
            start = i + 1;
            assert(s@.subrange(start as int, i as int + 1) =~= Seq::<char>::empty());
            assert(split_commas(sub) == split_commas(sub.drop_last()).push(Seq::empty()));
            assert(views(parts@).push(s@.subrange(start as int, i as int + 1)) =~= split_commas(
                s@.subrange(0, i as int + 1),
            ));
        } else {
            let ghost prev = s@.subrange(start as int, i as int);
            assert(s@.subrange(start as int, i as int + 1) =~= prev.push(c));
            assert(views(parts@).push(s@.subrange(start as int, i as int + 1)) =~= split_commas(
                s@.subrange(0, i as int + 1),
            ));
        }
        i += 1;
    }
    let last = String::from_str(s.substring_char(start, n));
    let ghost before = views(parts@);
    parts.push(last);
    assert(views(parts@) =~= before.push(s@.subrange(start as int, n as int)));
    assert(s@.subrange(0, n as int) =~= s@);
    assert(views(parts@) =~= split_commas(s@));
    parts
}

/// The names to use for `count` commands, given `names`: the names themselves
/// where there is one per command, else the pieces of a single name cut at its
/// commas where that gives one per command, else none.
pub open spec fn reconciled(names: Seq<Seq<char>>, count: nat) -> Option<Seq<Seq<char>>> {
    if names.len() == count {
        Some(names)
    } else if names.len() == 1 && split_commas(names[0]).len() == count {
        Some(split_commas(names[0]))
    } else {
        None
    }
}

/// How many names were found in `names` after a single name was cut at its
/// commas.
pub open spec fn names_found(names: Seq<Seq<char>>) -> nat {
    if names.len() == 1 {
        split_commas(names[0]).len()
    } else {
        names.len()
    }
}

/// Makes `names` hold one name per command: a list that already matches is
/// kept, a single name is cut at its commas. Fails, leaving `names` as it was,
/// where the count still differs from `cmd_count`.
pub fn fixup_names(names: &mut Vec<String>, cmd_count: usize) -> (r: Result<(), NameCountError>)
    ensures
        r is Ok <==> reconciled(views(old(names)@), cmd_count as nat) is Some,
        r is Ok ==> views(final(names)@) == reconciled(views(old(names)@), cmd_count as nat)->0,
        r is Err ==> *final(names) == *old(names),
        r is Err ==> r->Err_0.expected == cmd_count,
        r is Err ==> r->Err_0.got == names_found(views(old(names)@)),
{
    if names.len() == cmd_count {
        return Ok(());
    }
    if names.len() == 1 {
        let pieces = split_commas_exec(names[0].as_str());
        if pieces.len() == cmd_count {
            *names = pieces;
            return Ok(());
        }
        return Err(NameCountError { expected: cmd_count, got: pieces.len() });
    }
    Err(NameCountError { expected: cmd_count, got: names.len() })
}

/// The names for `count` commands: the default ones where none were given,
/// else the given ones reconciled with the count.
pub open spec fn resolved(names: Option<Seq<Seq<char>>>, count: nat) -> Option<Seq<Seq<char>>> {
    match names {
        None => Some(Seq::new(count, |i: int| default_name(i as nat))),
        Some(given) => reconciled(given, count),
    }
}

/// The view of an optional list of names.
pub open spec fn opt_views(names: Option<Vec<String>>) -> Option<Seq<Seq<char>>> {
    match names {
        None => None,
        Some(v) => Some(views(v@)),
    }
}

/// The final list of names for `count` commands.
pub fn resolve_names(names: Option<Vec<String>>, count: usize) -> (r: Result<
    Vec<String>,
    NameCountError,
>)
    ensures
        r is Ok <==> resolved(opt_views(names), count as nat) is Some,
        r is Ok ==> views(r->Ok_0@) == resolved(opt_views(names), count as nat)->0,
        r is Err ==> r->Err_0.expected == count,
        r is Err ==> r->Err_0.got == names_found(opt_views(names)->0),
{
    match names {
        None => {
            let d = default_names(count);
            assert(views(d@) =~= Seq::new(count as nat, |i: int| default_name(i as nat)));
            Ok(d)
        },
        Some(given) => {
            let mut given = given;
            match fixup_names(&mut given, count) {
                Ok(()) => Ok(given),
                Err(e) => Err(e),
            }
        },
    }
}

} // verus!
