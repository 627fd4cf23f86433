use vstd::prelude::*;

use crate::text::{ascii_fold, to_ascii_upper};

verus! {

/// Which values of a field a delete request covers.
#[derive(Debug)]
pub enum ValueMatch {
    /// Every value
    All,
    /// Only the values listed
    ContainedIn(Vec<String>),
}

impl ValueMatch {
    /// Does the request cover value `v`?
    pub open spec fn covers(&self, v: Seq<char>) -> bool {
        match self {
            ValueMatch::All => true,
            ValueMatch::ContainedIn(vs) => exists|i: int| 0 <= i < vs@.len() && #[trigger] vs@[i]@ == v,
        }
    }

    /// A request that covers exactly one value.
    pub fn singleton(value: String) -> (r: ValueMatch)
        ensures
            r is ContainedIn,
            forall|v: Seq<char>| #[trigger] r.covers(v) <==> v == value@,
    {
        let ghost val = value@;
        let mut vs: Vec<String> = Vec::new();
        vs.push(value);
        proof {
            assert(vs@.len() == 1);
            assert(vs@[0]@ == val);
        }
        let ghost vsv = vs@;
        let r = ValueMatch::ContainedIn(vs);
        proof {
            assert(r is ContainedIn);
            assert(r->ContainedIn_0@ == vsv);
            assert(vsv[0]@ == val);
            assert(r.covers(val));
            assert forall|v: Seq<char>| #[trigger] r.covers(v) <==> v == val by {
                if v == val {
                    assert(vsv[0]@ == v);
                }
                if r.covers(v) {
                    let i = choose|i: int| 0 <= i < vsv.len() && #[trigger] vsv[i]@ == v;
                    assert(i == 0);
                }
            }
        }
        r
    }

    /// A request that covers no value.
    pub fn none() -> (r: ValueMatch)
        ensures
            r is ContainedIn,
            forall|v: Seq<char>| !#[trigger] r.covers(v),
    {
        ValueMatch::ContainedIn(Vec::new())
    }

    /// Does the request cover `value`?
    pub fn matches(&self, value: &str) -> (r: bool)
        ensures
            r == self.covers(value@),
    {
        match self {
            ValueMatch::All => true,
            ValueMatch::ContainedIn(vs) => {
                let owned = value.to_owned();
                let mut i: usize = 0;
                while i < vs.len()
                    invariant
                        i <= vs@.len(),
                        owned@ == value@,
                        self is ContainedIn && self->ContainedIn_0@ == vs@,
                        forall|j: int| 0 <= j < i ==> #[trigger] vs@[j]@ != value@,
                    decreases vs@.len() - i,
                {
                    if vs[i] == owned {
                        proof {
                            assert(vs@[i as int]@ == value@);
                            assert(self->ContainedIn_0@ == vs@);
                        }
                        return true;
                    }
                    i = i + 1;
                }
                false
            },
        }
    }

    /// A copy.
    pub fn duplicate(&self) -> (r: ValueMatch)
        ensures
            forall|v: Seq<char>| #[trigger] r.covers(v) == self.covers(v),
            (r is All) == (self is All),
    {
        match self {
            ValueMatch::All => ValueMatch::All,
            ValueMatch::ContainedIn(vs) => {
                let mut out: Vec<String> = Vec::new();
                let mut i: usize = 0;
                while i < vs.len()
                    invariant
                        i <= vs@.len(),
                        out@.len() == i,
                        forall|j: int| 0 <= j < i ==> #[trigger] out@[j]@ == vs@[j]@,
                    decreases vs@.len() - i,
                {
                    let c = vs[i].clone();
                    proof {
                        assert(c@ == vs@[i as int]@);
                    }
                    out.push(c);
                    i = i + 1;
                }
                let ghost ov = out@;
                let r = ValueMatch::ContainedIn(out);
                proof {
                    assert(r->ContainedIn_0@ == ov);
                    assert(self->ContainedIn_0@ == vs@);
                    assert forall|v: Seq<char>| #[trigger] r.covers(v) == self.covers(v) by {
                        if self.covers(v) {
                            let j = choose|j: int| 0 <= j < vs@.len() && #[trigger] vs@[j]@ == v;
                            assert(ov[j]@ == v);
                        }
                        if r.covers(v) {
                            let j = choose|j: int| 0 <= j < ov.len() && #[trigger] ov[j]@ == v;
                            assert(vs@[j]@ == v);
                        }
                    }
                }
                r
            },
        }
    }

    /// Merges two requests: the result covers what either covers, and `All`
    /// absorbs any list.
    pub fn union(self, rhs: ValueMatch) -> (r: ValueMatch)
        ensures
            forall|v: Seq<char>| #[trigger] r.covers(v) == (self.covers(v) || rhs.covers(v)),
            (r is All) == (self is All || rhs is All),
    {
        match (self, rhs) {
            (ValueMatch::ContainedIn(a), ValueMatch::ContainedIn(b)) => {
                let ghost a0 = a@;
                let ghost b0 = b@;
                let mut out = a;
                let mut i: usize = 0;
                while i < b.len()
                    invariant
                        i <= b@.len(),
                        b@ == b0,
                        out@ == a0 + b0.take(i as int),
                    decreases b@.len() - i,
                {
                    out.push(b[i].clone());
                    proof {
                        assert(out@ =~= a0 + b0.take(i + 1));
                    }
                    i = i + 1;
                }
                proof {
                    assert(b0.take(i as int) =~= b0);
                }
                let ghost ov = out@;
                let r = ValueMatch::ContainedIn(out);
                proof {
                    assert(r->ContainedIn_0@ == ov);
                    assert forall|v: Seq<char>| #[trigger] r.covers(v) == ((exists|j: int| 0 <= j < a0.len() && #[trigger] a0[j]@ == v) || (exists|j: int| 0 <= j < b0.len() && #[trigger] b0[j]@ == v)) by {
                        if exists|j: int| 0 <= j < a0.len() && #[trigger] a0[j]@ == v {
                            let j = choose|j: int| 0 <= j < a0.len() && #[trigger] a0[j]@ == v;
                            assert(ov[j]@ == v);
                        }
                        if exists|j: int| 0 <= j < b0.len() && #[trigger] b0[j]@ == v {
                            let j = choose|j: int| 0 <= j < b0.len() && #[trigger] b0[j]@ == v;
                            assert(ov[a0.len() + j]@ == v);
                        }
                        if r.covers(v) {
                            let j = choose|j: int| 0 <= j < ov.len() && #[trigger] ov[j]@ == v;
                            if j < a0.len() {
                                assert(a0[j]@ == v);
                            } else {
                                assert(b0[j - a0.len()]@ == v);
                            }
                        }
                    }
                }
                r
            },
            _ => ValueMatch::All,
        }
    }
}

/// Delete requests by field name (ignoring ASCII case): which comments to
/// drop.
#[derive(Debug)]
pub struct KeyValueMatch {
    keys: Vec<(String, ValueMatch)>,
}

impl KeyValueMatch {
    /// Does the request drop the comment `k=v`?
    pub closed spec fn covers(&self, k: Seq<char>, v: Seq<char>) -> bool {
        exists|i: int| 0 <= i < self.keys@.len() && #[trigger] self.keys@[i].0@ == ascii_fold(k) && self.keys@[i].1.covers(v)
    }

    /// A request that drops nothing.
    pub fn new() -> (r: KeyValueMatch)
        ensures
            forall|k: Seq<char>, v: Seq<char>| !#[trigger] r.covers(k, v),
    {
        KeyValueMatch { keys: Vec::new() }
    }

    /// Adds a request for field `key` (ignoring ASCII case), merged with any
    /// earlier request for the same field.
    pub fn add(&mut self, key: String, value: ValueMatch)
        ensures
            forall|k: Seq<char>, v: Seq<char>| #[trigger] final(self).covers(k, v) == (old(self).covers(k, v) || (
                ascii_fold(k) == ascii_fold(key@) && value.covers(v))),
    {
        let folded = to_ascii_upper(key.as_str());
        proof {
            assert(folded@ == ascii_fold(key@));
        }
        let ghost old_keys = self.keys@;
        let mut i: usize = 0;
        while i < self.keys.len()
            invariant
                self.keys@ == old_keys,
                i <= old_keys.len(),
                forall|j: int| 0 <= j < i ==> #[trigger] old_keys[j].0@ != folded@,
        ensures
            self.keys@ == old_keys,
            i <= old_keys.len(),
            forall|j: int| 0 <= j < i ==> #[trigger] old_keys[j].0@ != folded@,
            i < old_keys.len() ==> old_keys[i as int].0@ == folded@,
            decreases old_keys.len() - i,
        {
            if self.keys[i].0 == folded {
                break;
            }
            i = i + 1;
        }
        if i == self.keys.len() {
            self.keys.push((folded, value));
            proof {
                assert forall|k: Seq<char>, v: Seq<char>| #[trigger] self.covers(k, v) == (old(self).covers(k, v) || (
                    ascii_fold(k) == ascii_fold(key@) && value.covers(v))) by {
                    if old(self).covers(k, v) {
                        let j = choose|j: int| 0 <= j < old_keys.len() && #[trigger] old_keys[j].0@ == ascii_fold(k) && old_keys[j].1.covers(v);
                        assert(self.keys@[j] == old_keys[j]);
                    }
                    if ascii_fold(k) == ascii_fold(key@) && value.covers(v) {
                        assert(self.keys@[old_keys.len() as int].0@ == ascii_fold(k));
                    }
                    if self.covers(k, v) {
                        let j = choose|j: int| 0 <= j < self.keys@.len() && #[trigger] self.keys@[j].0@ == ascii_fold(k) && self.keys@[j].1.covers(v);
                        if j < old_keys.len() {
                            assert(old_keys[j] == self.keys@[j]);
                        }
                    }
                }
            }
        } else {
            let dup = self.keys[i].1.duplicate();
            let ghost d = dup;
            let merged = dup.union(value);
            let ghost m = merged;
            let ghost f = folded@;
            self.keys.set(i, (folded, merged));
            proof {
                let nk = self.keys@;
                assert(nk[i as int].1 == m);
                assert(nk[i as int].0@ == f);
                assert(forall|v: Seq<char>| #[trigger] m.covers(v) == (old_keys[i as int].1.covers(v) || value.covers(v)));
                assert forall|k: Seq<char>, v: Seq<char>| #[trigger] self.covers(k, v) == (old(self).covers(k, v) || (
                    ascii_fold(k) == ascii_fold(key@) && value.covers(v))) by {
                    if old(self).covers(k, v) {
                        let t = choose|t: int| 0 <= t < old_keys.len() && #[trigger] old_keys[t].0@ == ascii_fold(k) && old_keys[t].1.covers(v);
                        if t != i {
                            assert(nk[t] == old_keys[t]);
                        } else {
                            assert(nk[t].1.covers(v));
                        }
                    }
                    if ascii_fold(k) == ascii_fold(key@) && value.covers(v) {
                        assert(nk[i as int].0@ == ascii_fold(k));
                        assert(nk[i as int].1.covers(v));
                    }
                    if self.covers(k, v) {
                        let t = choose|t: int| 0 <= t < nk.len() && #[trigger] nk[t].0@ == ascii_fold(k) && nk[t].1.covers(v);
                        if t != i {
                            assert(nk[t] == old_keys[t]);
                        }
                    }
                }
            }
        }
    }

    /// Does the request drop the comment `key=value`?
    pub fn matches(&self, key: &str, value: &str) -> (r: bool)
        ensures
            r == self.covers(key@, value@),
    {
        let folded = to_ascii_upper(key);
        let mut i: usize = 0;
        while i < self.keys.len()
            invariant
                i <= self.keys@.len(),
                folded@ == ascii_fold(key@),
                forall|j: int| 0 <= j < i ==> !(#[trigger] self.keys@[j].0@ == ascii_fold(key@) && self.keys@[j].1.covers(value@)),
            decreases self.keys@.len() - i,
        {
            let e = &self.keys[i];
            if e.0 == folded && e.1.matches(value) {
                return true;
            }
            i = i + 1;
        }
        false
    }
}

} // verus!
