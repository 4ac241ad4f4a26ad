//! Cutting a child's output into complete lines, each written out with the
//! child's label in front.
use vstd::prelude::*;
use vstd::string::*;

verus! {

/// The byte that ends a line.
pub const NEWLINE: u8 = 10;

/// The byte between a label and the line it labels.
pub const SPACE: u8 = 32;

/// The complete lines of `s`, each with its terminating newline; bytes after
/// the last newline are no complete line.
pub open spec fn complete_lines(s: Seq<u8>) -> Seq<Seq<u8>>
    decreases s.len(),
{
    if s.len() == 0 {
        Seq::empty()
    } else {
        let p = s.drop_last();
        if s.last() == NEWLINE {
            complete_lines(p).push(partial_line(p).push(NEWLINE))
        } else {
            complete_lines(p)
        }
    }
}

/// The bytes of `s` after its last newline: a line begun and not yet ended.
pub open spec fn partial_line(s: Seq<u8>) -> Seq<u8>
    decreases s.len(),
{
    if s.len() == 0 {
        Seq::empty()
    } else if s.last() == NEWLINE {
        Seq::empty()
    } else {
        partial_line(s.drop_last()).push(s.last())
    }
}

/// `s` holds no newline.
pub open spec fn no_newline(s: Seq<u8>) -> bool {
    forall|i: int| 0 <= i < s.len() ==> s[i] != NEWLINE
}

/// What is written for `line` under `label`: the label, one space, the line.
pub open spec fn labelled(label: Seq<u8>, line: Seq<u8>) -> Seq<u8> {
    label + seq![SPACE] + line
}

proof fn lemma_no_newline(s: Seq<u8>)
    requires
        no_newline(s),
    ensures
        complete_lines(s) == Seq::<Seq<u8>>::empty(),
        partial_line(s) == s,
    decreases s.len(),
{
    if s.len() > 0 {
        lemma_no_newline(s.drop_last());
        assert(s.drop_last().push(s.last()) =~= s);
    }
}

proof fn lemma_partial_line_has_no_newline(s: Seq<u8>)
    ensures
        no_newline(partial_line(s)),
    decreases s.len(),
{
    if s.len() > 0 {
        lemma_partial_line_has_no_newline(s.drop_last());
    }
}

/// Reading the output in pieces changes nothing: the lines completed by `a`
/// and then by `b`, fed after what `a` left pending, are the lines of `a + b`,
/// and what stays pending is the same.
pub proof fn lemma_chunks_join(a: Seq<u8>, b: Seq<u8>)
    ensures
        complete_lines(a + b) == complete_lines(a) + complete_lines(partial_line(a) + b),
        partial_line(a + b) == partial_line(partial_line(a) + b),
    decreases b.len(),
{
    let p = partial_line(a);
    if b.len() == 0 {
        assert(a + b =~= a);
        assert(p + b =~= p);
        lemma_partial_line_has_no_newline(a);
        lemma_no_newline(p);
        assert(complete_lines(a) + Seq::<Seq<u8>>::empty() =~= complete_lines(a));
    } else {
        let b2 = b.drop_last();
        lemma_chunks_join(a, b2);
        assert((a + b).drop_last() =~= a + b2);
        assert((p + b).drop_last() =~= p + b2);
        assert((a + b).last() == b.last());
        assert((p + b).last() == b.last());
        if b.last() == NEWLINE {
            let line = partial_line(a + b2).push(NEWLINE);
            assert((complete_lines(a) + complete_lines(p + b2)).push(line) =~= complete_lines(a)
                + complete_lines(p + b2).push(line));
        }
    }
}

/// The bytes of a line begun and not yet ended.
pub struct LineBuffer {
    pending: Vec<u8>,
}

impl View for LineBuffer {
    type V = Seq<u8>;

    closed spec fn view(&self) -> Seq<u8> {
        self.pending@
    }
}

impl LineBuffer {
    /// The buffer holds no newline: what it holds is the start of one line.
    pub open spec fn wf(&self) -> bool {
        no_newline(self@)
    }

    /// An empty buffer.
    pub fn new() -> (r: LineBuffer)
        ensures
            r@ == Seq::<u8>::empty(),
            r.wf(),
    {
        LineBuffer { pending: Vec::new() }
    }

    /// Takes the next `chunk` of output and returns, labelled with `label`,
    /// each line that it completes, in order. Bytes after the last newline
    /// are kept for the next chunk; at the end of the output they are never
    /// returned.
    pub fn feed(&mut self, label: &str, chunk: &[u8]) -> (r: Vec<Vec<u8>>)
        requires
            old(self).wf(),
        ensures
            final(self).wf(),
            final(self)@ == partial_line(old(self)@ + chunk@),
            r@.len() == complete_lines(old(self)@ + chunk@).len(),
            forall|i: int|
                0 <= i < r@.len() ==> #[trigger] r@[i]@ == labelled(
                    label.spec_bytes(),
                    complete_lines(old(self)@ + chunk@)[i],
                ),
    {
        let label_bytes = label.as_bytes();
        let ghost start = self.pending@;
        proof {
            lemma_no_newline(start);
            assert(start + chunk@.subrange(0, 0) =~= start);
        }
        let mut out: Vec<Vec<u8>> = Vec::new();
        let mut i: usize = 0;
        while i < chunk.len()
            invariant
                i <= chunk@.len(),
                label_bytes@ == label.spec_bytes(),
                self.pending@ == partial_line(start + chunk@.subrange(0, i as int)),
                out@.len() == complete_lines(start + chunk@.subrange(0, i as int)).len(),
                forall|k: int|
                    0 <= k < out@.len() ==> #[trigger] out@[k]@ == labelled(
                        label.spec_bytes(),
                        complete_lines(start + chunk@.subrange(0, i as int))[k],
                    ),
            decreases chunk@.len() - i,
        {
            let b = chunk[i];
            let ghost seen = start + chunk@.subrange(0, i as int + 1);
            assert(seen.drop_last() =~= start + chunk@.subrange(0, i as int));
            self.pending.push(b);
            if b == NEWLINE {
                let line = labelled_line(label_bytes, &self.pending);
                out.push(line);
                self.pending = Vec::new();
            }
            i += 1;
        }
        assert(start + chunk@.subrange(0, chunk@.len() as int) =~= start + chunk@);
        proof {
            lemma_partial_line_has_no_newline(start + chunk@);
        }
        out
    }
}

fn labelled_line(label: &[u8], line: &Vec<u8>) -> (r: Vec<u8>)
    ensures
        r@ == labelled(label@, line@),
{
    let mut r: Vec<u8> = Vec::new();
    let mut i: usize = 0;
    while i < label.len()
        invariant
            i <= label@.len(),
            r@ == label@.subrange(0, i as int),
        decreases label@.len() - i,
    {
        r.push(label[i]);
        assert(label@.subrange(0, i as int + 1) =~= label@.subrange(0, i as int).push(label[i as int]));
        i += 1;
    }
    r.push(SPACE);
    let ghost head = r@;
    assert(head =~= label@ + seq![SPACE]);
    let mut j: usize = 0;
    while j < line.len()
        invariant
            j <= line@.len(),
            r@ == head + line@.subrange(0, j as int),
        decreases line@.len() - j,
    {
        r.push(line[j]);
        assert(line@.subrange(0, j as int + 1) =~= line@.subrange(0, j as int).push(line[j as int]));
        j += 1;
    }
    assert(line@.subrange(0, line@.len() as int) =~= line@);
    r
}

} // verus!
