use vstd::prelude::*;

verus! {

/// Whether a stream is finished after one more pull: it ends at the first
/// pull that finds the cursor empty, and stays ended.
pub open spec fn done_after(done: bool, row_present: bool) -> bool {
    done || !row_present
}

/// For each pull in turn, whether it yields a row, given whether the cursor
/// had a row at that pull.
pub open spec fn yields(done: bool, present: Seq<bool>) -> Seq<bool>
    decreases present.len(),
{
    if present.len() == 0 {
        Seq::empty()
    } else {
        seq![!done && present[0]] + yields(done_after(done, present[0]), present.drop_first())
    }
}

/// A forward-only sequence of projected rows: each pull hands over the row
/// the cursor produced, mapped by the projection, until the cursor first
/// runs out; from then on every pull signals the end.
pub struct RowStream<F> {
    func: F,
    done: bool,
}

impl<F> RowStream<F> {
    /// The stream has signalled its end.
    pub closed spec fn is_done_spec(&self) -> bool {
        self.done
    }

    /// The projection applied to each row.
    pub closed spec fn func_spec(&self) -> F {
        self.func
    }

    /// A stream that maps each row by `func`.
    pub fn new(func: F) -> (r: Self)
        ensures
            !r.is_done_spec(),
            r.func_spec() == func,
    {
        RowStream { func, done: false }
    }

    /// Whether the stream has signalled its end; once it has, the cursor
    /// need not be pulled again.
    pub fn is_done(&self) -> (r: bool)
        ensures
            r == self.is_done_spec(),
    {
        self.done
    }

    /// One pull: `row` is what the cursor produced. Yields the projected row
    /// while the stream is running and the cursor had one; otherwise signals
    /// the end, for this pull and every later one.
    pub fn pull<R, Ret>(&mut self, row: Option<R>) -> (r: Option<Ret>) where F: Fn(R) -> Ret
        requires
            !old(self).is_done_spec() && row is Some ==> old(self).func_spec().requires(
                (row->0,),
            ),
        ensures
            final(self).func_spec() == old(self).func_spec(),
            final(self).is_done_spec() == done_after(old(self).is_done_spec(), row is Some),
            r is Some <==> !old(self).is_done_spec() && row is Some,
            r is Some ==> old(self).func_spec().ensures((row->0,), r->0),
    {
        if self.done {
            return None;
        }
        match row {
            Some(x) => Some((self.func)(x)),
            None => {
                self.done = true;
                None
            },
        }
    }
}

/// Pull `i` yields a row exactly when the cursor had a row at every pull up
/// to and including `i`: the rows come out in order, and after the first
/// empty pull the stream signals the end on every later pull.
pub proof fn lemma_yields_until_exhausted(done: bool, present: Seq<bool>, i: int)
    requires
        0 <= i < present.len(),
    ensures
        yields(done, present).len() == present.len(),
        yields(done, present)[i] == (!done && forall|j: int| 0 <= j <= i ==> #[trigger] present[j]),
    decreases present.len(),
{
    lemma_yields_len(done, present);
    if i > 0 {
        let rest = present.drop_first();
        lemma_yields_until_exhausted(done_after(done, present[0]), rest, i - 1);
        if !done && present[0] {
            assert forall|j: int| 0 <= j <= i && (forall|k: int| 0 <= k <= i - 1 ==> #[trigger] rest[k])
                implies #[trigger] present[j] by {
                if j > 0 {
                    assert(present[j] == rest[j - 1]);
                }
            }
            assert((forall|j: int| 0 <= j <= i ==> #[trigger] present[j]) ==> (forall|k: int|
                0 <= k <= i - 1 ==> #[trigger] rest[k])) by {
                assert forall|k: int| 0 <= k <= i - 1 && (forall|j: int| 0 <= j <= i ==> #[trigger] present[j])
                    implies #[trigger] rest[k] by {
                    assert(rest[k] == present[k + 1]);
                }
            }
        } else if !done {
            assert(!present[0]);
        }
    }
}

/// There is one outcome per pull.
pub proof fn lemma_yields_len(done: bool, present: Seq<bool>)
    ensures
        yields(done, present).len() == present.len(),
    decreases present.len(),
{
    if present.len() > 0 {
        lemma_yields_len(done_after(done, present[0]), present.drop_first());
    }
}

} // verus!
