//! Views: who leads, how many replicas there are, and which leader may
//! propose which requests.

use crate::crypto::hash::Digest;
use crate::error::{Error, ErrorKind};
use crate::node_id::NodeId;
use crate::ordering::SeqNo;
use vstd::prelude::*;

verus! {

/// The size of the system: `n` replicas, of which up to `f` may fail in any
/// way.
#[derive(Copy, Clone, Debug, PartialEq, Eq, Structural)]
pub struct SystemParams {
    n: usize,
    f: usize,
}

impl SystemParams {
    /// The number of replicas, in contracts.
    pub closed spec fn spec_n(&self) -> nat {
        self.n as nat
    }

    /// The number of tolerated failures, in contracts.
    pub closed spec fn spec_f(&self) -> nat {
        self.f as nat
    }

    /// The size of a quorum, in contracts: `2f + 1`.
    pub open spec fn spec_quorum(&self) -> nat {
        2 * self.spec_f() + 1
    }

    /// There are at least `3f + 1` replicas, and every replica id fits in 32
    /// bits.
    pub open spec fn wf(&self) -> bool {
        &&& self.spec_n() >= 3 * self.spec_f() + 1
        &&& self.spec_n() <= u32::MAX
    }

    /// The parameters of a system of `n` replicas that tolerates `f`
    /// failures. This fails with an error of kind `Communication` unless
    /// `n >= 3f + 1` and `n` fits in 32 bits.
    pub fn new(n: usize, f: usize) -> (r: Result<SystemParams, Error>)
        ensures
            r is Ok <==> (n >= 3 * f + 1 && n <= u32::MAX),
            r is Ok ==> r->Ok_0.spec_n() == n && r->Ok_0.spec_f() == f && r->Ok_0.wf(),
            r is Err ==> r->Err_0.kind() == ErrorKind::Communication,
    {
        if n > 0xffff_ffff || f >= n || (n - 1) / 3 < f {
            return Err(Error::simple_with_msg(ErrorKind::Communication, "Invalid number of replicas"));
        }
        Ok(SystemParams { n, f })
    }

    /// The number of replicas.
    #[verifier::when_used_as_spec(spec_n_usize)]
    pub fn n(&self) -> (r: usize)
        ensures
            r == self.spec_n(),
    {
        self.n
    }

    /// The number of tolerated failures.
    #[verifier::when_used_as_spec(spec_f_usize)]
    pub fn f(&self) -> (r: usize)
        ensures
            r == self.spec_f(),
    {
        self.f
    }

    /// The size of a quorum: `2f + 1`.
    pub fn quorum(&self) -> (r: usize)
        requires
            self.wf(),
        ensures
            r == self.spec_quorum(),
    {
        2 * self.f + 1
    }

    /// The number of replicas, as a machine integer.
    pub closed spec fn spec_n_usize(&self) -> usize {
        self.n
    }

    /// The number of tolerated failures, as a machine integer.
    pub closed spec fn spec_f_usize(&self) -> usize {
        self.f
    }
}

/// Two systems of the same size and the same number of tolerated failures
/// have the same parameters.
pub proof fn lemma_params_equal(a: SystemParams, b: SystemParams)
    requires
        a.spec_n() == b.spec_n(),
        a.spec_f() == b.spec_f(),
    ensures
        a == b,
{
}

/// The place of a request in the space of digests: its first eight bytes,
/// read as a number in big endian.
pub open spec fn hash_point(d: Seq<u8>) -> nat
    recommends
        d.len() >= 8,
{
    (d[0] as nat) * 0x100_0000_0000_0000 + (d[1] as nat) * 0x1_0000_0000_0000 + (d[2] as nat)
        * 0x100_0000_0000 + (d[3] as nat) * 0x1_0000_0000 + (d[4] as nat) * 0x100_0000 + (
    d[5] as nat) * 0x1_0000 + (d[6] as nat) * 0x100 + (d[7] as nat)
}

/// The width of the slice of each leader but the last, where `m` leaders
/// share the space.
pub open spec fn slice_width(m: nat) -> nat
    recommends
        m > 0,
{
    (u64::MAX as nat) / m
}

/// The first point of the slice of the leader at place `i` of `m`.
pub open spec fn slice_start(i: nat, m: nat) -> nat {
    i * slice_width(m)
}

/// The last point of the slice of the leader at place `i` of `m`: the point
/// before the next slice, and the end of the space for the last leader.
pub open spec fn slice_end(i: nat, m: nat) -> nat {
    if i + 1 == m {
        u64::MAX as nat
    } else {
        ((i + 1) * slice_width(m) - 1) as nat
    }
}

/// Whether a request with the given digest lies in the slice from `start` to
/// `end`, both included.
pub open spec fn in_hash_space(d: Seq<u8>, slice: (u64, u64)) -> bool {
    slice.0 <= hash_point(d) <= slice.1
}

/// Whether the request with digest `rq` lies in `slice`.
pub fn is_request_in_hash_space(rq: &Digest, slice: &(u64, u64)) -> (r: bool)
    ensures
        r == in_hash_space(rq@, *slice),
{
    let d = &rq.0;
    let p: u64 = ((d[0] as u64) << 56) | ((d[1] as u64) << 48) | ((d[2] as u64) << 40) | ((
    d[3] as u64) << 32) | ((d[4] as u64) << 24) | ((d[5] as u64) << 16) | ((d[6] as u64) << 8) | (
    d[7] as u64);
    let (d0, d1, d2, d3, d4, d5, d6, d7) = (d[0], d[1], d[2], d[3], d[4], d[5], d[6], d[7]);
    assert(p == (d0 as u64) * 0x100_0000_0000_0000 + (d1 as u64) * 0x1_0000_0000_0000 + (d2 as u64)
        * 0x100_0000_0000 + (d3 as u64) * 0x1_0000_0000 + (d4 as u64) * 0x100_0000 + (d5 as u64)
        * 0x1_0000 + (d6 as u64) * 0x100 + (d7 as u64)) by (bit_vector)
        requires
            p == ((d0 as u64) << 56) | ((d1 as u64) << 48) | ((d2 as u64) << 40) | ((d3 as u64)
                << 32) | ((d4 as u64) << 24) | ((d5 as u64) << 16) | ((d6 as u64) << 8) | (
            d7 as u64),
    ;
    slice.0 <= p && p <= slice.1
}

/// The state of a view: its number, the size of the system, the leaders and
/// the slice of the space of digests that each leader may propose from.
#[derive(Clone, Debug)]
pub struct ViewInfo {
    seq: SeqNo,
    params: SystemParams,
    leader_set: Vec<NodeId>,
    slices: Vec<(u64, u64)>,
}

impl ViewInfo {
    /// The number of the view, in contracts.
    pub closed spec fn spec_seq(&self) -> SeqNo {
        self.seq
    }

    /// The size of the system, in contracts.
    pub closed spec fn spec_params(&self) -> SystemParams {
        self.params
    }

    /// The leaders of the view, the primary first, in contracts.
    pub closed spec fn spec_leader_set(&self) -> Seq<NodeId> {
        self.leader_set@
    }

    /// The slices of the leaders, in the order of the leaders, in contracts.
    pub closed spec fn spec_slices(&self) -> Seq<(u64, u64)> {
        self.slices@
    }

    /// The primary of the view, in contracts: the replica whose id is the
    /// number of the view modulo the number of replicas.
    pub open spec fn spec_leader(&self) -> NodeId {
        NodeId((self.spec_seq().value() % (self.spec_params().spec_n() as int)) as u32)
    }

    /// The view number is not negative, the parameters are well formed, and
    /// the leaders are replicas that follow the primary in the order of
    /// their ids; they share the space of digests in equal slices.
    pub open spec fn wf(&self) -> bool {
        let m = self.spec_leader_set().len();
        &&& self.spec_seq().value() >= 0
        &&& self.spec_params().wf()
        &&& 0 < m <= self.spec_params().spec_n()
        &&& self.spec_slices().len() == m
        &&& forall|i: int|
            0 <= i < m ==> (#[trigger] self.spec_leader_set()[i]).0 == (self.spec_seq().value() + i)
                % (self.spec_params().spec_n() as int)
        &&& forall|i: int|
            0 <= i < m ==> (#[trigger] self.spec_slices()[i]) == (
                slice_start(i as nat, m) as u64,
                slice_end(i as nat, m) as u64,
            )
    }

    /// The view with number `seq` of a system of `n` replicas that tolerates
    /// `f` failures, led by its primary alone. This fails with an error of
    /// kind `Communication` unless `n >= 3f + 1`, `n` fits in 32 bits and
    /// `seq` is not negative.
    pub fn new(seq: SeqNo, n: usize, f: usize) -> (r: Result<ViewInfo, Error>)
        ensures
            r is Ok <==> (n >= 3 * f + 1 && n <= u32::MAX && seq.value() >= 0),
            r is Ok ==> {
                let v = r->Ok_0;
                &&& v.wf()
                &&& v.spec_seq() == seq
                &&& v.spec_params().spec_n() == n
                &&& v.spec_params().spec_f() == f
                &&& v.spec_leader_set().len() == 1
            },
            r is Err ==> r->Err_0.kind() == ErrorKind::Communication,
    {
        ViewInfo::with_leaders(seq, n, f, 1)
    }

    /// The view with number `seq` of a system of `n` replicas that tolerates
    /// `f` failures, led by the primary and the `leaders - 1` replicas after
    /// it. This fails with an error of kind `Communication` unless
    /// `n >= 3f + 1`, `n` fits in 32 bits, `seq` is not negative and
    /// `1 <= leaders <= n`.
    pub fn with_leaders(seq: SeqNo, n: usize, f: usize, leaders: usize) -> (r: Result<
        ViewInfo,
        Error,
    >)
        ensures
            r is Ok <==> (n >= 3 * f + 1 && n <= u32::MAX && seq.value() >= 0 && 1 <= leaders <= n),
            r is Ok ==> {
                let v = r->Ok_0;
                &&& v.wf()
                &&& v.spec_seq() == seq
                &&& v.spec_params().spec_n() == n
                &&& v.spec_params().spec_f() == f
                &&& v.spec_leader_set().len() == leaders
            },
            r is Err ==> r->Err_0.kind() == ErrorKind::Communication,
    {
        let params = match SystemParams::new(n, f) {
            Ok(p) => p,
            Err(e) => {
                return Err(e);
            },
        };
        if seq.0 < 0 || leaders < 1 || leaders > n {
            return Err(Error::simple_with_msg(ErrorKind::Communication, "Invalid view"));
        }
        let width: u64 = u64::MAX / (leaders as u64);
        let mut leader_set: Vec<NodeId> = Vec::with_capacity(leaders);
        let mut slices: Vec<(u64, u64)> = Vec::with_capacity(leaders);
        let mut i: usize = 0;
        while i < leaders
            invariant
                i <= leaders,
                1 <= leaders <= n <= u32::MAX,
                seq.0 >= 0,
                width == slice_width(leaders as nat),
                leader_set@.len() == i,
                slices@.len() == i,
                forall|j: int|
                    0 <= j < i ==> (#[trigger] leader_set@[j]).0 == (seq.value() + j) % (n as int),
                forall|j: int|
                    0 <= j < i ==> (#[trigger] slices@[j]) == (
                        slice_start(j as nat, leaders as nat) as u64,
                        slice_end(j as nat, leaders as nat) as u64,
                    ),
            decreases leaders - i,
        {
            let id: u64 = (seq.0 as u64 + i as u64) % (n as u64);
            leader_set.push(NodeId(id as u32));
            proof {
                lemma_slice_bounds(i as nat, leaders as nat);
            }
            let start: u64 = (i as u64) * width;
            let end: u64 = if i + 1 == leaders {
                u64::MAX
            } else {
                (i as u64 + 1) * width - 1
            };
            slices.push((start, end));
            i += 1;
        }
        Ok(ViewInfo { seq, params, leader_set, slices })
    }

    /// A copy of this view.
    pub fn duplicate(&self) -> (v: ViewInfo)
        ensures
            same_view(v, *self),
            v.wf() == self.wf(),
    {
        let mut leader_set: Vec<NodeId> = Vec::with_capacity(self.leader_set.len());
        let mut i: usize = 0;
        while i < self.leader_set.len()
            invariant
                i <= self.leader_set.len(),
                leader_set@ == self.leader_set@.take(i as int),
            decreases self.leader_set.len() - i,
        {
            leader_set.push(self.leader_set[i]);
            assert(self.leader_set@.take(i + 1) == self.leader_set@.take(i as int).push(
                self.leader_set@[i as int],
            ));
            i += 1;
        }
        assert(self.leader_set@.take(i as int) == self.leader_set@);
        let mut slices: Vec<(u64, u64)> = Vec::with_capacity(self.slices.len());
        let mut j: usize = 0;
        while j < self.slices.len()
            invariant
                j <= self.slices.len(),
                slices@ == self.slices@.take(j as int),
            decreases self.slices.len() - j,
        {
            slices.push(self.slices[j]);
            assert(self.slices@.take(j + 1) == self.slices@.take(j as int).push(self.slices@[j as int]));
            j += 1;
        }
        assert(self.slices@.take(j as int) == self.slices@);
        ViewInfo { seq: self.seq, params: self.params, leader_set, slices }
    }

    /// The number of the view.
    pub fn sequence_number(&self) -> (s: SeqNo)
        ensures
            s == self.spec_seq(),
    {
        self.seq
    }

    /// The size of the system.
    pub fn params(&self) -> (p: &SystemParams)
        ensures
            *p == self.spec_params(),
    {
        &self.params
    }

    /// The primary of the view.
    pub fn leader(&self) -> (l: NodeId)
        requires
            self.wf(),
        ensures
            l == self.spec_leader(),
            l == self.spec_leader_set()[0],
    {
        self.leader_set[0]
    }

    /// The leaders of the view, the primary first.
    pub fn leader_set(&self) -> (l: &Vec<NodeId>)
        ensures
            l@ == self.spec_leader_set(),
    {
        &self.leader_set
    }

    /// The slices of the leaders, in the order of the leaders.
    pub fn hash_space_division(&self) -> (s: &Vec<(u64, u64)>)
        ensures
            s@ == self.spec_slices(),
    {
        &self.slices
    }

    /// The place of `node` among the leaders, if it is one.
    pub fn leader_index(&self, node: NodeId) -> (r: Option<usize>)
        ensures
            r is Some <==> self.spec_leader_set().contains(node),
            r is Some ==> r->0 < self.spec_leader_set().len() && self.spec_leader_set()[r->0 as int]
                == node,
            r is Some ==> forall|j: int| 0 <= j < r->0 ==> self.spec_leader_set()[j] != node,
    {
        let mut i: usize = 0;
        while i < self.leader_set.len()
            invariant
                i <= self.leader_set.len(),
                forall|j: int| 0 <= j < i ==> self.leader_set@[j] != node,
            decreases self.leader_set.len() - i,
        {
            if self.leader_set[i].0 == node.0 {
                return Some(i);
            }
            i += 1;
        }
        None
    }

    /// The view after this one, with as many leaders. There is none after
    /// the largest view number.
    pub fn next_view(&self) -> (r: Option<ViewInfo>)
        requires
            self.wf(),
        ensures
            r is Some <==> self.spec_seq().value() < i32::MAX,
            r is Some ==> {
                let v = r->0;
                &&& v.wf()
                &&& v.spec_seq().value() == self.spec_seq().value() + 1
                &&& v.spec_params() == self.spec_params()
                &&& v.spec_leader_set().len() == self.spec_leader_set().len()
            },
    {
        if self.seq.0 == i32::MAX {
            return None;
        }
        let r = ViewInfo::with_leaders(
            SeqNo(self.seq.0 + 1),
            self.params.n,
            self.params.f,
            self.leader_set.len(),
        );
        match r {
            Ok(v) => Some(v),
            Err(_) => None,
        }
    }
}

/// Whether two views are the same view: they agree in number, in the size of
/// the system, in their leaders and in the slices of the leaders.
pub open spec fn same_view(a: ViewInfo, b: ViewInfo) -> bool {
    &&& a.spec_seq() == b.spec_seq()
    &&& a.spec_params() == b.spec_params()
    &&& a.spec_leader_set() == b.spec_leader_set()
    &&& a.spec_slices() == b.spec_slices()
}

/// The slices lie within the space and in order.
pub proof fn lemma_slice_bounds(i: nat, m: nat)
    requires
        i < m,
        m <= u64::MAX,
    ensures
        slice_width(m) >= 1,
        slice_start(i, m) <= slice_end(i, m) <= u64::MAX,
        (i + 1) * slice_width(m) <= u64::MAX,
        i + 1 < m ==> slice_end(i, m) + 1 == slice_start(i + 1, m),
{
    let w = slice_width(m);
    assert(w >= 1 && m * w <= u64::MAX) by (nonlinear_arith)
        requires
            w == (u64::MAX as nat) / m,
            0 < m <= u64::MAX,
    ;
    assert((i + 1) * w <= m * w) by (nonlinear_arith)
        requires
            i + 1 <= m,
    ;
    assert(i * w <= (i + 1) * w - 1 && (i + 1) * w == i * w + w) by (nonlinear_arith)
        requires
            w >= 1,
    ;
}

/// The slices of a view part the space of digests: every point of the space
/// lies in the slice of exactly one leader, so no two leaders may propose the
/// same request.
pub proof fn lemma_slices_partition(p: nat, m: nat)
    requires
        0 < m <= u64::MAX,
        p <= u64::MAX,
    ensures
        exists|i: nat| i < m && #[trigger] slice_start(i, m) <= p <= slice_end(i, m),
        forall|i: nat, j: nat|
            i < m && j < m && #[trigger] slice_start(i, m) <= p <= slice_end(i, m)
                && #[trigger] slice_start(j, m) <= p <= slice_end(j, m) ==> i == j,
{
    let w = slice_width(m);
    lemma_slice_bounds(0, m);
    let q = p / w;
    let i: nat = if q >= m {
        (m - 1) as nat
    } else {
        q
    };
    assert(q * w <= p < (q + 1) * w) by (nonlinear_arith)
        requires
            q == p / w,
            w >= 1,
    ;
    assert(i * w <= q * w) by (nonlinear_arith)
        requires
            i <= q,
    ;
    lemma_slice_bounds(i, m);
    assert(slice_start(i, m) <= p <= slice_end(i, m));
    assert forall|a: nat, b: nat|
        a < m && b < m && #[trigger] slice_start(a, m) <= p <= slice_end(a, m)
            && #[trigger] slice_start(b, m) <= p <= slice_end(b, m) implies a == b by {
        if a < b {
            lemma_slice_bounds(a, m);
            assert((a + 1) * w <= b * w) by (nonlinear_arith)
                requires
                    a + 1 <= b,
            ;
        } else if b < a {
            lemma_slice_bounds(b, m);
            assert((b + 1) * w <= a * w) by (nonlinear_arith)
                requires
                    b + 1 <= a,
            ;
        }
    }
}

} // verus!
