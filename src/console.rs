use vstd::prelude::*;

verus! {

/// One buffered console operation.
#[derive(Debug, Clone, Copy, PartialEq, Eq, Structural)]
pub enum StreamOperation {
    /// A write of this many bytes
    Write(usize),
    /// A flush
    Flush,
}

/// The console stream an operation goes to.
#[derive(Debug, Clone, Copy, PartialEq, Eq, Structural)]
pub enum Target {
    /// Standard output
    Stdout,
    /// Standard error
    Stderr,
}

/// The buffered writes of one stream of a task: the bytes, and the
/// operations tagged with sequence ids.
#[derive(Debug)]
pub struct StreamWrites {
    data: Vec<u8>,
    operations: Vec<(usize, StreamOperation)>,
}

/// One operation to replay: where it goes, its id, what it is, and for a
/// write where its bytes start in that stream's buffer.
#[derive(Debug, Clone, Copy, PartialEq, Eq, Structural)]
pub struct ReplayStep {
    /// The stream
    pub target: Target,
    /// The operation's sequence id
    pub id: usize,
    /// The operation
    pub op: StreamOperation,
    /// The start of the written bytes in the stream's buffer
    pub start: usize,
}

/// The bytes written by the first `i` operations.
pub open spec fn written_before(ops: Seq<(usize, StreamOperation)>, i: int) -> int
    decreases i,
{
    if i <= 0 {
        0
    } else {
        written_before(ops, i - 1) + match ops[i - 1].1 {
            StreamOperation::Write(n) => n as int,
            StreamOperation::Flush => 0,
        }
    }
}

/// The order of replay: the two operation lists merged by id, each kept in
/// its order (the smaller id first; on a tie, standard error first). Each
/// entry names a stream and the index of the operation in its list.
pub open spec fn merged(a: Seq<(usize, StreamOperation)>, i: int, b: Seq<(usize, StreamOperation)>, j: int) -> Seq<
    (Target, int),
>
    decreases a.len() - i + b.len() - j,
{
    if i < 0 || j < 0 || i > a.len() || j > b.len() || (i >= a.len() && j >= b.len()) {
        Seq::empty()
    } else if j >= b.len() || (i < a.len() && a[i].0 < b[j].0) {
        if i >= a.len() {
            Seq::empty()
        } else {
            seq![(Target::Stdout, i)] + merged(a, i + 1, b, j)
        }
    } else {
        seq![(Target::Stderr, j)] + merged(a, i, b, j + 1)
    }
}

impl StreamWrites {
    /// The operations.
    pub closed spec fn ops(&self) -> Seq<(usize, StreamOperation)> {
        self.operations@
    }

    /// The buffered bytes.
    pub closed spec fn bytes(&self) -> Seq<u8> {
        self.data@
    }

    /// The operations account for every buffered byte.
    pub open spec fn wf(&self) -> bool {
        written_before(self.ops(), self.ops().len() as int) == self.bytes().len()
    }

    /// Nothing buffered.
    pub fn new() -> (r: StreamWrites)
        ensures
            r.ops() == Seq::<(usize, StreamOperation)>::empty(),
            r.bytes() == Seq::<u8>::empty(),
            r.wf(),
    {
        StreamWrites { data: Vec::new(), operations: Vec::new() }
    }

    /// Buffers a write with sequence id `id`; returns the number of bytes
    /// taken (all of them).
    pub fn write(&mut self, id: usize, data: &[u8]) -> (r: usize)
        requires
            old(self).wf(),
        ensures
            final(self).wf(),
            r == data@.len(),
            final(self).bytes() == old(self).bytes() + data@,
            final(self).ops() == old(self).ops().push((id, StreamOperation::Write(data@.len() as usize))),
    {
        let ghost before = self.operations@;
        crate::bytes::push_bytes(&mut self.data, data);
        self.operations.push((id, StreamOperation::Write(data.len())));
        proof {
            assert(self.operations@.len() - 1 == before.len());
            assert(self.operations@[before.len() as int] == (id, StreamOperation::Write(data@.len() as usize)));
            lemma_written_before_prefix(before, self.operations@, before.len() as int);
        }
        data.len()
    }

    /// Buffers a flush with sequence id `id`.
    pub fn flush(&mut self, id: usize)
        requires
            old(self).wf(),
        ensures
            final(self).wf(),
            final(self).bytes() == old(self).bytes(),
            final(self).ops() == old(self).ops().push((id, StreamOperation::Flush)),
    {
        let ghost before = self.operations@;
        self.operations.push((id, StreamOperation::Flush));
        proof {
            lemma_written_before_prefix(before, self.operations@, before.len() as int);
        }
    }

    /// The buffered bytes.
    pub fn data(&self) -> (r: &[u8])
        ensures
            r@ == self.bytes(),
    {
        self.data.as_slice()
    }
}

proof fn lemma_written_before_prefix(a: Seq<(usize, StreamOperation)>, b: Seq<(usize, StreamOperation)>, i: int)
    requires
        0 <= i <= a.len(),
        i <= b.len(),
        forall|k: int| 0 <= k < i ==> a[k] == b[k],
    ensures
        written_before(a, i) == written_before(b, i),
    decreases i,
{
    if i > 0 {
        lemma_written_before_prefix(a, b, i - 1);
    }
}

proof fn lemma_written_before_bound(ops: Seq<(usize, StreamOperation)>, i: int, k: int)
    requires
        0 <= i <= k <= ops.len(),
    ensures
        0 <= written_before(ops, i) <= written_before(ops, k),
    decreases k,
{
    if k > i {
        lemma_written_before_bound(ops, i, k - 1);
    } else if i > 0 {
        lemma_written_before_bound(ops, i - 1, i - 1);
    }
}

/// The steps that replay the buffered operations of both streams in the
/// order in which they were made.
pub fn replay_order(out: &StreamWrites, err: &StreamWrites) -> (r: Vec<ReplayStep>)
    requires
        out.wf(),
        err.wf(),
    ensures
        r@.len() == merged(out.ops(), 0, err.ops(), 0).len(),
        forall|k: int| 0 <= k < r@.len() ==> {
            let (t, i) = #[trigger] merged(out.ops(), 0, err.ops(), 0)[k];
            let ops = if t == Target::Stdout {
                out.ops()
            } else {
                err.ops()
            };
            &&& r@[k].target == t
            &&& 0 <= i < ops.len()
            &&& r@[k].id == ops[i].0
            &&& r@[k].op == ops[i].1
            &&& r@[k].start == written_before(ops, i)
        },
{
    let a = &out.operations;
    let b = &err.operations;
    let mut steps: Vec<ReplayStep> = Vec::new();
    let mut i: usize = 0;
    let mut j: usize = 0;
    let mut out_offset: usize = 0;
    let mut err_offset: usize = 0;
    let ghost total = merged(a@, 0, b@, 0);
    let out_len = out.data.len();
    let err_len = err.data.len();
    proof {
        lemma_written_before_bound(a@, 0, a@.len() as int);
        lemma_written_before_bound(b@, 0, b@.len() as int);
    }
    while i < a.len() || j < b.len()
        invariant
            a@ == out.ops(),
            b@ == err.ops(),
            out.wf(),
            err.wf(),
            out_len == written_before(a@, a@.len() as int),
            err_len == written_before(b@, b@.len() as int),
            i <= a@.len(),
            j <= b@.len(),
            out_offset == written_before(a@, i as int),
            err_offset == written_before(b@, j as int),
            total == merged(a@, 0, b@, 0),
            steps@.len() + merged(a@, i as int, b@, j as int).len() == total.len(),
            forall|k: int| 0 <= k < merged(a@, i as int, b@, j as int).len() ==> #[trigger] merged(a@, i as int, b@, j as int)[k]
                == total[steps@.len() + k],
            forall|k: int| 0 <= k < steps@.len() ==> {
                let (t, x) = #[trigger] total[k];
                let ops = if t == Target::Stdout {
                    a@
                } else {
                    b@
                };
                &&& steps@[k].target == t
                &&& 0 <= x < ops.len()
                &&& steps@[k].id == ops[x].0
                &&& steps@[k].op == ops[x].1
                &&& steps@[k].start == written_before(ops, x)
            },
        decreases a@.len() - i + b@.len() - j,
    {
        let ghost rest = merged(a@, i as int, b@, j as int);
        let take_out = if j >= b.len() {
            true
        } else if i < a.len() {
            a[i].0 < b[j].0
        } else {
            false
        };
        if take_out {
            let (id, op) = a[i];
            steps.push(ReplayStep { target: Target::Stdout, id, op, start: out_offset });
            proof {
                assert(rest == seq![(Target::Stdout, i as int)] + merged(a@, i + 1, b@, j as int));
                assert(rest[0] == (Target::Stdout, i as int));
                assert(total[steps@.len() - 1] == rest[0]);
                lemma_written_before_bound(a@, i + 1, a@.len() as int);
            }
            match op {
                StreamOperation::Write(n) => {
                    out_offset = out_offset + n;
                },
                StreamOperation::Flush => {},
            }
            i = i + 1;
            proof {
                assert forall|k: int| 0 <= k < merged(a@, i as int, b@, j as int).len() implies #[trigger] merged(a@, i as int, b@, j as int)[k]
                    == total[steps@.len() + k] by {
                    assert(merged(a@, i as int, b@, j as int)[k] == rest[k + 1]);
                }
            }
        } else {
            let (id, op) = b[j];
            steps.push(ReplayStep { target: Target::Stderr, id, op, start: err_offset });
            proof {
                assert(rest == seq![(Target::Stderr, j as int)] + merged(a@, i as int, b@, j + 1));
                assert(rest[0] == (Target::Stderr, j as int));
                assert(total[steps@.len() - 1] == rest[0]);
                lemma_written_before_bound(b@, j + 1, b@.len() as int);
            }
            match op {
                StreamOperation::Write(n) => {
                    err_offset = err_offset + n;
                },
                StreamOperation::Flush => {},
            }
            j = j + 1;
            proof {
                assert forall|k: int| 0 <= k < merged(a@, i as int, b@, j as int).len() implies #[trigger] merged(a@, i as int, b@, j as int)[k]
                    == total[steps@.len() + k] by {
                    assert(merged(a@, i as int, b@, j as int)[k] == rest[k + 1]);
                }
            }
        }
    }
    steps
}

} // verus!
