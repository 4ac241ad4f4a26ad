//! The run plan: for each command, its name and its label.
use vstd::prelude::*;
use vstd::string::*;

use crate::label::{lemma_max_len_bounds, make_prefixes, max_len, prefix_of};
use crate::names::{
    default_name,
    names_found,
    opt_views,
    reconciled,
    resolve_names,
    resolved,
    split_commas,
    views,
    Args,
    NameCountError,
};
use crate::text::{decimal, decimal_string, digit_char};

verus! {

/// One command to start: its name, the shell command, and the label in
/// front of each line it prints.
pub struct Launch {
    pub name: String,
    pub command: String,
    pub prefix: String,
}

/// The names that a run of `args` uses, where it can start at all.
pub open spec fn run_names(args: Args) -> Option<Seq<Seq<char>>> {
    resolved(opt_views(args.names), args.commands@.len())
}

/// Works out what to start for `args`: one launch per command, in order,
/// named and labelled. Fails, before anything is started, where the names
/// cannot be matched with the commands.
pub fn plan(args: Args) -> (r: Result<Vec<Launch>, NameCountError>)
    ensures
        r is Ok <==> run_names(args) is Some,
        r is Ok ==> {
            let ns = run_names(args)->0;
            let ls = r->Ok_0@;
            &&& ls.len() == args.commands@.len()
            &&& forall|i: int|
                0 <= i < ls.len() ==> {
                    &&& #[trigger] ls[i].name@ == ns[i]
                    &&& ls[i].command@ == args.commands@[i]@
                    &&& ls[i].prefix@ == prefix_of(ns[i], max_len(ns))
                }
        },
        r is Err ==> r->Err_0.expected == args.commands@.len(),
        r is Err ==> r->Err_0.got == names_found(opt_views(args.names)->0),
{
    let count = args.commands.len();
    let names = match resolve_names(args.names, count) {
        Ok(ns) => ns,
        Err(e) => {
            return Err(e);
        },
    };
    let prefixes = make_prefixes(&names);
    let ghost ns = views(names@);
    assert(ns.len() == names@.len());
    proof {
        match opt_views(args.names) {
            None => {},
            Some(given) => {
                assert(reconciled(given, count as nat) is Some);
            },
        }
    }
    assert(ns.len() == count);
    let mut out: Vec<Launch> = Vec::new();
    let mut i: usize = 0;
    while i < count
        invariant
            count == args.commands@.len(),
            names@.len() == count,
            prefixes@.len() == count,
            ns == views(names@),
            forall|j: int|
                0 <= j < count ==> #[trigger] prefixes@[j]@ == prefix_of(
                    names@[j]@,
                    max_len(ns),
                ),
            i <= count,
            out@.len() == i,
            forall|j: int|
                0 <= j < i ==> {
                    &&& #[trigger] out@[j].name@ == ns[j]
                    &&& out@[j].command@ == args.commands@[j]@
                    &&& out@[j].prefix@ == prefix_of(ns[j], max_len(ns))
                },
        decreases count - i,
    {
        let launch = Launch {
            name: names[i].clone(),
            command: args.commands[i].clone(),
            prefix: prefixes[i].clone(),
        };
        assert(ns[i as int] == names@[i as int]@);
        out.push(launch);
        i += 1;
    }
    Ok(out)
}

impl NameCountError {
    /// A line that says how many names were needed and how many were found.
    pub fn message(&self) -> (r: String)
        ensures
            r@ == seq!['e', 'x', 'p', 'e', 'c', 't', 'e', 'd', ' '] + decimal(self.expected as nat)
                + seq![' ', 'n', 'a', 'm', 'e', 's', ',', ' ', 'g', 'o', 't', ' '] + decimal(
                self.got as nat,
            ),
    {
        proof {
            reveal_strlit("expected ");
            reveal_strlit(" names, got ");
        }
        let mut r = String::from_str("expected ");
        let e = decimal_string(self.expected as u64);
        r.append(e.as_str());
        r.append(" names, got ");
        let g = decimal_string(self.got as u64);
        r.append(g.as_str());
        r
    }
}

/// A list of names whose length is neither one nor the number of commands
/// is refused, so nothing is started.
pub proof fn lemma_count_mismatch_refused(names: Seq<Seq<char>>, count: nat)
    requires
        names.len() != 1,
        names.len() != count,
    ensures
        reconciled(names, count) is None,
{
}

/// A single name given for several commands is cut at its commas; the run
/// goes ahead exactly when that gives one name per command, with those names.
pub proof fn lemma_single_name_split(name: Seq<char>, count: nat)
    requires
        count != 1,
    ensures
        reconciled(seq![name], count) is Some <==> split_commas(name).len() == count,
        reconciled(seq![name], count) is Some ==> reconciled(seq![name], count)->0
            == split_commas(name),
{
}

/// Two different names get two different labels, so every line printed tells
/// which command printed it.
pub proof fn lemma_labels_differ(names: Seq<Seq<char>>, i: int, j: int)
    requires
        0 <= i < names.len(),
        0 <= j < names.len(),
        names[i] != names[j],
    ensures
        prefix_of(names[i], max_len(names)) != prefix_of(names[j], max_len(names)),
{
    let w = max_len(names);
    lemma_max_len_bounds(names, i);
    lemma_max_len_bounds(names, j);
    let a = names[i];
    let b = names[j];
    let pa = prefix_of(a, w);
    let pb = prefix_of(b, w);
    if a.len() == b.len() {
        if pa == pb {
            assert forall|k: int| 0 <= k < a.len() implies a[k] == b[k] by {
                assert(pa[k + 1] == a[k]);
                assert(pb[k + 1] == b[k]);
            }
            assert(a =~= b);
        }
    } else if a.len() < b.len() {
        assert(pb[b.len() + 1 as int] == ']');
        assert(pa[b.len() + 1 as int] == ' ');
    } else {
        assert(pa[a.len() + 1 as int] == ']');
        assert(pb[a.len() + 1 as int] == ' ');
    }
}

proof fn lemma_decimal_len(n: nat)
    ensures
        n < 10 ==> decimal(n).len() == 1,
        n >= 10 ==> decimal(n).len() >= 2,
    decreases n,
{
    if n >= 10 {
        lemma_decimal_len(n / 10);
    }
}

proof fn lemma_digit_char_injective(a: nat, b: nat)
    requires
        a < 10,
        b < 10,
        digit_char(a) == digit_char(b),
    ensures
        a == b,
{
}

proof fn lemma_decimal_injective(a: nat, b: nat)
    requires
        decimal(a) == decimal(b),
    ensures
        a == b,
    decreases a,
{
    lemma_decimal_len(a);
    lemma_decimal_len(b);
    if a < 10 {
        if b < 10 {
            assert(decimal(a)[0] == digit_char(a));
            assert(decimal(b)[0] == digit_char(b));
            lemma_digit_char_injective(a, b);
        }
    } else if b >= 10 {
        let da = decimal(a);
        let db = decimal(b);
        assert(da.last() == digit_char(a % 10));
        assert(db.last() == digit_char(b % 10));
        lemma_digit_char_injective(a % 10, b % 10);
        assert(da.drop_last() =~= decimal(a / 10));
        assert(db.drop_last() =~= decimal(b / 10));
        lemma_decimal_injective(a / 10, b / 10);
    }
}

/// Commands that run under the default names all have labels of their own.
pub proof fn lemma_default_labels_differ(count: nat, i: int, j: int)
    requires
        0 <= i < count,
        0 <= j < count,
        i != j,
    ensures
        ({
            let ns = Seq::new(count, |k: int| default_name(k as nat));
            prefix_of(ns[i], max_len(ns)) != prefix_of(ns[j], max_len(ns))
        }),
{
    let ns = Seq::new(count, |k: int| default_name(k as nat));
    if ns[i] == ns[j] {
        assert(ns[i].subrange(4, ns[i].len() as int) =~= decimal((i + 1) as nat));
        assert(ns[j].subrange(4, ns[j].len() as int) =~= decimal((j + 1) as nat));
        lemma_decimal_injective((i + 1) as nat, (j + 1) as nat);
    }
    lemma_labels_differ(ns, i, j);
}

} // verus!
