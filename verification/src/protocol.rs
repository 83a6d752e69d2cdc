//! The declarative protocol descriptor and the compiler that produces it.
//!
//! A [`ProtocolDescriptor`] is the static, backend-independent description of
//! one verifying key: instance shape, proof layout, query points, gate
//! expressions, and permutation and lookup layouts. It is compiled once by
//! [`compile`] from external [`VerifyingKeyData`] and is immutable afterwards,
//! safely shared read-only across concurrent verification runs.
//!
//! The compiler is a pure, deterministic validator: it either proves the key
//! structurally consistent (every referenced query, challenge and instance
//! slot exists; every rotation lies in the declared rotation set; every
//! embedded constant is canonical) and returns the descriptor, or fails with
//! [`Error::InvalidProtocol`] before any cryptographic work can start.

use vstd::prelude::*;
use crate::arith::{f_add, f_mul, f_neg, f_pow, pow_mod};
use crate::loader::{step_ok, LoadedScalar, Loader};
use crate::Error;

verus! {

/// Hard ceiling on each section of a protocol (witness commitments, queries):
/// anything larger is unreasonable for a verifier to process.
pub const MAX_DIM: usize = 1048576;

/// An algebraic identity over queried evaluations, derived challenges, public
/// instances and constants. Every identity in a protocol must evaluate to
/// zero.
#[derive(Debug)]
pub enum Expr {
    /// A canonical field constant.
    Constant(u64),
    /// One public-instance value, by column and row.
    Instance(usize, usize),
    /// The claimed evaluation of the polynomial behind the given query.
    Query(usize),
    /// One transcript-derived challenge.
    Challenge(usize),
    /// Field addition of two sub-expressions.
    Sum(Box<Expr>, Box<Expr>),
    /// Field multiplication of two sub-expressions.
    Product(Box<Expr>, Box<Expr>),
    /// Field negation of a sub-expression.
    Negated(Box<Expr>),
    /// A sub-expression scaled by a canonical constant.
    Scaled(Box<Expr>, u64),
}

/// Row counts per instance column, as mathematical naturals.
pub open spec fn counts_of(s: Seq<usize>) -> Seq<nat> {
    s.map(|i: int, x: usize| x as nat)
}

/// Structural well-formedness of an expression against a protocol shape:
/// every index in range, every constant canonical.
pub open spec fn expr_wf(e: Expr, p: nat, shape: Seq<nat>, nq: nat, nc: nat) -> bool
    decreases e,
{
    match e {
        Expr::Constant(c) => (c as nat) < p,
        Expr::Instance(col, row) => (col as nat) < shape.len() && (row as nat) < shape[col as int],
        Expr::Query(i) => (i as nat) < nq,
        Expr::Challenge(i) => (i as nat) < nc,
        Expr::Sum(a, b) => expr_wf(*a, p, shape, nq, nc) && expr_wf(*b, p, shape, nq, nc),
        Expr::Product(a, b) => expr_wf(*a, p, shape, nq, nc) && expr_wf(*b, p, shape, nq, nc),
        Expr::Negated(a) => expr_wf(*a, p, shape, nq, nc),
        Expr::Scaled(a, k) => expr_wf(*a, p, shape, nq, nc) && (k as nat) < p,
    }
}

/// The value of an expression under given instances, evaluations and
/// challenges, in the field of modulus `p`.
pub open spec fn eval_expr(
    e: Expr,
    p: nat,
    inst: Seq<Seq<nat>>,
    evals: Seq<nat>,
    chals: Seq<nat>,
) -> nat
    decreases e,
{
    match e {
        Expr::Constant(c) => c as nat,
        Expr::Instance(col, row) => inst[col as int][row as int],
        Expr::Query(i) => evals[i as int],
        Expr::Challenge(i) => chals[i as int],
        Expr::Sum(a, b) => f_add(
            p,
            eval_expr(*a, p, inst, evals, chals),
            eval_expr(*b, p, inst, evals, chals),
        ),
        Expr::Product(a, b) => f_mul(
            p,
            eval_expr(*a, p, inst, evals, chals),
            eval_expr(*b, p, inst, evals, chals),
        ),
        Expr::Negated(a) => f_neg(p, eval_expr(*a, p, inst, evals, chals)),
        Expr::Scaled(a, k) => f_mul(p, eval_expr(*a, p, inst, evals, chals), k as nat),
    }
}

/// Check an expression's structural well-formedness.
pub fn check_expr(e: &Expr, p: u64, ncols: &Vec<usize>, nq: usize, nc: usize) -> (r: bool)
    ensures
        r == expr_wf(*e, p as nat, counts_of(ncols@), nq as nat, nc as nat),
    decreases *e,
{
    match e {
        Expr::Constant(c) => *c < p,
        Expr::Instance(col, row) => *col < ncols.len() && *row < ncols[*col],
        Expr::Query(i) => *i < nq,
        Expr::Challenge(i) => *i < nc,
        Expr::Sum(a, b) => check_expr(&**a, p, ncols, nq, nc) && check_expr(&**b, p, ncols, nq, nc),
        Expr::Product(a, b) => check_expr(&**a, p, ncols, nq, nc) && check_expr(
            &**b,
            p,
            ncols,
            nq,
            nc,
        ),
        Expr::Negated(a) => check_expr(&**a, p, ncols, nq, nc),
        Expr::Scaled(a, k) => check_expr(&**a, p, ncols, nq, nc) && *k < p,
    }
}

/// The values of a sequence of loaded scalars.
pub open spec fn loaded_vals(s: Seq<LoadedScalar>) -> Seq<nat> {
    s.map(|i: int, x: LoadedScalar| x.value())
}

/// The values of instance columns of loaded scalars.
pub open spec fn loaded_vals2(s: Seq<Vec<LoadedScalar>>) -> Seq<Seq<nat>> {
    s.map(|i: int, c: Vec<LoadedScalar>| loaded_vals(c@))
}

/// The shape (row counts) of instance columns of loaded scalars.
pub open spec fn shape_of(s: Seq<Vec<LoadedScalar>>) -> Seq<nat> {
    s.map(|i: int, c: Vec<LoadedScalar>| c@.len())
}

/// All scalars of a column vector are owned by the given loader.
pub open spec fn scalars_wf(s: Seq<LoadedScalar>, l: Loader) -> bool {
    forall|i: int| 0 <= i < s.len() ==> (#[trigger] s[i]).wf(l)
}

/// All scalars of all columns are owned by the given loader.
pub open spec fn columns_wf(s: Seq<Vec<LoadedScalar>>, l: Loader) -> bool {
    forall|c: int| 0 <= c < s.len() ==> scalars_wf((#[trigger] s[c])@, l)
}

/// Evaluate an expression through the loader, so that in symbolic mode the
/// whole algebraic check becomes part of the emitted trace.
pub fn evaluate(
    l: &mut Loader,
    e: &Expr,
    inst: &Vec<Vec<LoadedScalar>>,
    evals: &Vec<LoadedScalar>,
    chals: &Vec<LoadedScalar>,
) -> (r: LoadedScalar)
    requires
        old(l).wf(),
        expr_wf(*e, old(l).modulus as nat, shape_of(inst@), evals@.len(), chals@.len()),
        columns_wf(inst@, *old(l)),
        scalars_wf(evals@, *old(l)),
        scalars_wf(chals@, *old(l)),
    ensures
        step_ok(*old(l), *final(l)),
        r.wf(*final(l)),
        r.value() == eval_expr(
            *e,
            old(l).modulus as nat,
            loaded_vals2(inst@),
            loaded_vals(evals@),
            loaded_vals(chals@),
        ),
    decreases *e,
{
    broadcast use crate::loader::lemma_scalar_wf_mono;

    match e {
        Expr::Constant(c) => l.load_const(*c),
        Expr::Instance(col, row) => {
            let column = &inst[*col];
            let v = column[*row];
            proof {
                assert(inst@[*col as int]@[*row as int].wf(*l));
                assert(loaded_vals2(inst@)[*col as int] == loaded_vals(inst@[*col as int]@));
            }
            v
        },
        Expr::Query(i) => evals[*i],
        Expr::Challenge(i) => chals[*i],
        Expr::Sum(a, b) => {
            let ra = evaluate(l, &**a, inst, evals, chals);
            let rb = evaluate(l, &**b, inst, evals, chals);
            l.add(&ra, &rb)
        },
        Expr::Product(a, b) => {
            let ra = evaluate(l, &**a, inst, evals, chals);
            let rb = evaluate(l, &**b, inst, evals, chals);
            l.mul(&ra, &rb)
        },
        Expr::Negated(a) => {
            let ra = evaluate(l, &**a, inst, evals, chals);
            l.neg(&ra)
        },
        Expr::Scaled(a, k) => {
            let ra = evaluate(l, &**a, inst, evals, chals);
            let kk = l.load_const(*k);
            l.mul(&ra, &kk)
        },
    }
}

/// One query: the polynomial it opens and the multiplicative shift its
/// evaluation point applies to the transcript's evaluation challenge.
#[derive(Clone, Copy, Debug)]
pub struct Query {
    /// Index into the concatenation of fixed and witness polynomials.
    pub poly: usize,
    /// The rotation, as a canonical multiplier of the evaluation challenge.
    pub shift: u64,
}

/// The compiled, immutable description of one verifying key.
#[derive(Debug)]
pub struct ProtocolDescriptor {
    /// The field modulus.
    pub modulus: u64,
    /// Expected number of instance rows per instance column.
    pub num_instance: Vec<usize>,
    /// How many witness commitments the proof carries.
    pub num_witness: usize,
    /// How many challenges are squeezed after the witness commitments.
    pub num_challenges: usize,
    /// Commitments to the fixed polynomials, from the verifying key.
    pub fixed: Vec<u64>,
    /// The ordered query list: which polynomial is opened at which shifted
    /// point.
    pub queries: Vec<Query>,
    /// Gate identities; each must evaluate to zero.
    pub gates: Vec<Expr>,
    /// Permutation argument layout: pairs of queries whose evaluations the
    /// permutation forces equal.
    pub permutations: Vec<(usize, usize)>,
    /// Lookup argument layout: pairs (input query, table query) whose
    /// evaluations the lookup forces equal.
    pub lookups: Vec<(usize, usize)>,
    /// The first-group generator used for claimed-value terms.
    pub g1: u64,
}

impl ProtocolDescriptor {
    /// How many polynomials the protocol speaks about.
    pub open spec fn num_poly(self) -> nat {
        self.fixed@.len() + self.num_witness as nat
    }

    /// Internal consistency: every reference lands inside the protocol, every
    /// embedded value is canonical, every section is reasonably sized.
    pub open spec fn wf(self) -> bool {
        &&& 2 <= self.modulus
        &&& self.num_witness <= MAX_DIM
        &&& self.queries@.len() <= MAX_DIM as nat
        &&& self.fixed@.len() <= MAX_DIM as nat
        &&& self.g1 < self.modulus
        &&& forall|i: int|
            0 <= i < self.fixed@.len() ==> #[trigger] self.fixed@[i] < self.modulus
        &&& forall|i: int|
            0 <= i < self.queries@.len() ==> (#[trigger] self.queries@[i]).poly < self.num_poly()
                && self.queries@[i].shift < self.modulus
        &&& forall|i: int|
            0 <= i < self.gates@.len() ==> expr_wf(
                #[trigger] self.gates@[i],
                self.modulus as nat,
                counts_of(self.num_instance@),
                self.queries@.len(),
                self.num_challenges as nat,
            )
        &&& forall|i: int|
            0 <= i < self.permutations@.len() ==> (#[trigger] self.permutations@[i]).0
                < self.queries@.len() && self.permutations@[i].1 < self.queries@.len()
        &&& forall|i: int|
            0 <= i < self.lookups@.len() ==> (#[trigger] self.lookups@[i]).0 < self.queries@.len()
                && self.lookups@[i].1 < self.queries@.len()
    }

    /// The number of stream elements a proof for this protocol holds:
    /// witness commitments, one evaluation per query, one opening per query.
    pub open spec fn proof_len(self) -> nat {
        self.num_witness as nat + self.queries@.len() + self.queries@.len()
    }

    /// The descriptor's mathematical content, for contracts.
    pub open spec fn view(self) -> DescriptorView {
        DescriptorView {
            modulus: self.modulus,
            num_instance: self.num_instance@,
            num_witness: self.num_witness,
            num_challenges: self.num_challenges,
            fixed: self.fixed@,
            queries: self.queries@,
            gates: self.gates@,
            permutations: self.permutations@,
            lookups: self.lookups@,
            g1: self.g1,
        }
    }
}

/// The mathematical content of a protocol descriptor: what every contract of
/// the verifier is stated over.
#[verifier::ext_equal]
pub struct DescriptorView {
    /// The field modulus.
    pub modulus: u64,
    /// Expected instance rows per column.
    pub num_instance: Seq<usize>,
    /// Number of witness commitments.
    pub num_witness: usize,
    /// Number of squeezed challenges.
    pub num_challenges: usize,
    /// Fixed commitments.
    pub fixed: Seq<u64>,
    /// The query list.
    pub queries: Seq<Query>,
    /// Gate identities.
    pub gates: Seq<Expr>,
    /// Permutation layout.
    pub permutations: Seq<(usize, usize)>,
    /// Lookup layout.
    pub lookups: Seq<(usize, usize)>,
    /// First-group generator.
    pub g1: u64,
}

/// What compiling a consistent key yields: every field a pure function of the
/// key and the configured instance shape.
pub open spec fn compiled_view(vkd: VerifyingKeyData, shape: Seq<usize>) -> DescriptorView {
    DescriptorView {
        modulus: vkd.modulus,
        num_instance: shape,
        num_witness: vkd.num_witness,
        num_challenges: vkd.num_challenges,
        fixed: vkd.fixed_commitments@,
        queries: Seq::new(
            vkd.queries@.len(),
            |i: int| Query {
                poly: vkd.queries@[i].0,
                shift: f_pow(
                    vkd.modulus as nat,
                    vkd.omega as nat,
                    vkd.rotations@[vkd.queries@[i].1 as int] as nat,
                ) as u64,
            },
        ),
        gates: vkd.gates@,
        permutations: vkd.permutation_pairs@,
        lookups: vkd.lookup_pairs@,
        g1: vkd.g1,
    }
}

/// External verifying-key data, read (never written) by the compiler: the
/// plain values a key exposes — layout sizes, the rotation set, fixed
/// commitments, gate expressions, and the argument layouts.
#[derive(Debug)]
pub struct VerifyingKeyData {
    /// The field modulus.
    pub modulus: u64,
    /// The root of unity generating evaluation-point rotations.
    pub omega: u64,
    /// How many instance columns the key requires.
    pub num_instance_columns: usize,
    /// How many witness commitments a proof carries.
    pub num_witness: usize,
    /// How many challenges the protocol squeezes.
    pub num_challenges: usize,
    /// Commitments to the fixed polynomials.
    pub fixed_commitments: Vec<u64>,
    /// The declared rotation set, as exponents of `omega`.
    pub rotations: Vec<u64>,
    /// Queries as (polynomial index, index into the rotation set).
    pub queries: Vec<(usize, usize)>,
    /// Gate identities.
    pub gates: Vec<Expr>,
    /// Permutation layout, as pairs of query indices.
    pub permutation_pairs: Vec<(usize, usize)>,
    /// Lookup layout, as pairs of query indices.
    pub lookup_pairs: Vec<(usize, usize)>,
    /// The first-group generator.
    pub g1: u64,
}

/// Configuration for the compiler: the commitment scheme is the batched KZG
/// variant; the instance shape is chosen by the caller.
#[derive(Clone, Debug)]
pub struct Config {
    /// Expected number of instance rows per instance column.
    pub num_instance: Vec<usize>,
}

impl Config {
    /// The batched-KZG configuration with no instance columns.
    pub fn kzg() -> (c: Config)
        ensures
            c.num_instance@ =~= Seq::<usize>::empty(),
    {
        Config { num_instance: Vec::new() }
    }

    /// The same configuration with the given instance shape.
    pub fn with_num_instance(self, num_instance: Vec<usize>) -> (c: Config)
        ensures
            c.num_instance@ == num_instance@,
    {
        Config { num_instance }
    }
}

/// Structural compatibility of key and configured instance shape: everything
/// [`compile`] accepts, and nothing else.
pub open spec fn vk_consistent(vkd: VerifyingKeyData, shape: Seq<usize>) -> bool {
    &&& 2 <= vkd.modulus
    &&& vkd.omega < vkd.modulus
    &&& vkd.g1 < vkd.modulus
    &&& shape.len() == vkd.num_instance_columns as nat
    &&& vkd.num_witness <= MAX_DIM
    &&& vkd.queries@.len() <= MAX_DIM as nat
    &&& vkd.fixed_commitments@.len() <= MAX_DIM as nat
    &&& forall|i: int|
        0 <= i < vkd.fixed_commitments@.len() ==> #[trigger] vkd.fixed_commitments@[i]
            < vkd.modulus
    &&& forall|i: int|
        0 <= i < vkd.queries@.len() ==> ((#[trigger] vkd.queries@[i]).0 as nat)
            < vkd.fixed_commitments@.len() + vkd.num_witness as nat && vkd.queries@[i].1
            < vkd.rotations@.len()
    &&& forall|i: int|
        0 <= i < vkd.gates@.len() ==> expr_wf(
            #[trigger] vkd.gates@[i],
            vkd.modulus as nat,
            counts_of(shape),
            vkd.queries@.len(),
            vkd.num_challenges as nat,
        )
    &&& forall|i: int|
        0 <= i < vkd.permutation_pairs@.len() ==> (#[trigger] vkd.permutation_pairs@[i]).0
            < vkd.queries@.len() && vkd.permutation_pairs@[i].1 < vkd.queries@.len()
    &&& forall|i: int|
        0 <= i < vkd.lookup_pairs@.len() ==> (#[trigger] vkd.lookup_pairs@[i]).0
            < vkd.queries@.len() && vkd.lookup_pairs@[i].1 < vkd.queries@.len()
}

/// Compile external verifying-key data into a protocol descriptor.
///
/// Pure and deterministic: succeeds exactly on structurally consistent input,
/// and the descriptor's every field is pinned by the key and configuration.
/// Fails with [`Error::InvalidProtocol`] otherwise, before any cryptographic
/// work is done.
pub fn compile(vkd: &VerifyingKeyData, cfg: Config) -> (r: Result<ProtocolDescriptor, Error>)
    ensures
        r is Ok <==> vk_consistent(*vkd, cfg.num_instance@),
        r is Err ==> r matches Err(Error::InvalidProtocol(_)),
        r matches Ok(d) ==> d.wf() && d.view() == compiled_view(*vkd, cfg.num_instance@),
{
    if vkd.modulus < 2 {
        return Err(Error::InvalidProtocol(String::from_str("the field modulus is degenerate")));
    }
    if vkd.omega >= vkd.modulus {
        return Err(
            Error::InvalidProtocol(String::from_str("the rotation root is not canonical")),
        );
    }
    if vkd.g1 >= vkd.modulus {
        return Err(Error::InvalidProtocol(String::from_str("the generator is not canonical")));
    }
    if cfg.num_instance.len() != vkd.num_instance_columns {
        return Err(
            Error::InvalidProtocol(
                String::from_str("the configured instance shape does not fit the key"),
            ),
        );
    }
    if vkd.num_witness > MAX_DIM || vkd.queries.len() > MAX_DIM
        || vkd.fixed_commitments.len() > MAX_DIM {
        return Err(
            Error::InvalidProtocol(String::from_str("the protocol is unreasonably large")),
        );
    }
    let p = vkd.modulus;
    let nq = vkd.queries.len();
    let nc = vkd.num_challenges;

    let mut i: usize = 0;
    while i < vkd.fixed_commitments.len()
        invariant
            p == vkd.modulus,
            i <= vkd.fixed_commitments@.len(),
            forall|j: int| 0 <= j < i ==> #[trigger] vkd.fixed_commitments@[j] < vkd.modulus,
        decreases vkd.fixed_commitments@.len() - i,
    {
        if vkd.fixed_commitments[i] >= p {
            return Err(
                Error::InvalidProtocol(String::from_str("a fixed commitment is not canonical")),
            );
        }
        i = i + 1;
    }

    let num_poly = vkd.fixed_commitments.len() + vkd.num_witness;
    let mut queries: Vec<Query> = Vec::new();
    let mut i: usize = 0;
    while i < vkd.queries.len()
        invariant
            2 <= vkd.modulus,
            vkd.omega < vkd.modulus,
            p == vkd.modulus,
            num_poly == vkd.fixed_commitments@.len() + vkd.num_witness as nat,
            i <= vkd.queries@.len(),
            queries@.len() == i,
            forall|j: int|
                0 <= j < i ==> (#[trigger] vkd.queries@[j]).0 < num_poly && vkd.queries@[j].1
                    < vkd.rotations@.len(),
            forall|j: int|
                0 <= j < i ==> (#[trigger] queries@[j]).poly == vkd.queries@[j].0 && queries@[
                    j
                ].shift < vkd.modulus && queries@[j].shift as nat == f_pow(
                    vkd.modulus as nat,
                    vkd.omega as nat,
                    vkd.rotations@[vkd.queries@[j].1 as int] as nat,
                ),
        decreases vkd.queries@.len() - i,
    {
        let (poly, rot) = vkd.queries[i];
        if poly >= num_poly {
            return Err(
                Error::InvalidProtocol(
                    String::from_str("a query refers to a polynomial outside the key"),
                ),
            );
        }
        if rot >= vkd.rotations.len() {
            return Err(
                Error::InvalidProtocol(
                    String::from_str("a query point lies outside the declared rotation set"),
                ),
            );
        }
        let shift = pow_mod(p, vkd.omega, vkd.rotations[rot]);
        queries.push(Query { poly, shift });
        i = i + 1;
    }

    let mut i: usize = 0;
    while i < vkd.gates.len()
        invariant
            i <= vkd.gates@.len(),
            p == vkd.modulus,
            nq == vkd.queries@.len(),
            nc == vkd.num_challenges,
            forall|j: int|
                0 <= j < i ==> expr_wf(
                    #[trigger] vkd.gates@[j],
                    vkd.modulus as nat,
                    counts_of(cfg.num_instance@),
                    vkd.queries@.len(),
                    vkd.num_challenges as nat,
                ),
        decreases vkd.gates@.len() - i,
    {
        if !check_expr(&vkd.gates[i], p, &cfg.num_instance, nq, nc) {
            return Err(
                Error::InvalidProtocol(
                    String::from_str("a gate refers outside the protocol or holds a non-canonical constant"),
                ),
            );
        }
        i = i + 1;
    }

    let mut i: usize = 0;
    while i < vkd.permutation_pairs.len()
        invariant
            i <= vkd.permutation_pairs@.len(),
            nq == vkd.queries@.len(),
            forall|j: int|
                0 <= j < i ==> (#[trigger] vkd.permutation_pairs@[j]).0 < vkd.queries@.len()
                    && vkd.permutation_pairs@[j].1 < vkd.queries@.len(),
        decreases vkd.permutation_pairs@.len() - i,
    {
        let (a, b) = vkd.permutation_pairs[i];
        if a >= nq || b >= nq {
            return Err(
                Error::InvalidProtocol(
                    String::from_str("a permutation pair refers to a missing query"),
                ),
            );
        }
        i = i + 1;
    }

    let mut i: usize = 0;
    while i < vkd.lookup_pairs.len()
        invariant
            i <= vkd.lookup_pairs@.len(),
            nq == vkd.queries@.len(),
            forall|j: int|
                0 <= j < i ==> (#[trigger] vkd.lookup_pairs@[j]).0 < vkd.queries@.len()
                    && vkd.lookup_pairs@[j].1 < vkd.queries@.len(),
        decreases vkd.lookup_pairs@.len() - i,
    {
        let (a, b) = vkd.lookup_pairs[i];
        if a >= nq || b >= nq {
            return Err(
                Error::InvalidProtocol(
                    String::from_str("a lookup pair refers to a missing query"),
                ),
            );
        }
        i = i + 1;
    }

    let d = ProtocolDescriptor {
        modulus: vkd.modulus,
        num_instance: cfg.num_instance,
        num_witness: vkd.num_witness,
        num_challenges: vkd.num_challenges,
        fixed: clone_u64_vec(&vkd.fixed_commitments),
        queries,
        gates: clone_exprs(&vkd.gates),
        permutations: clone_pairs(&vkd.permutation_pairs),
        lookups: clone_pairs(&vkd.lookup_pairs),
        g1: vkd.g1,
    };
    proof {
        assert(d.view() =~= compiled_view(*vkd, d.num_instance@));
    }
    Ok(d)
}

/// Copy a vector of plain values.
fn clone_u64_vec(v: &Vec<u64>) -> (r: Vec<u64>)
    ensures
        r@ == v@,
{
    let mut r: Vec<u64> = Vec::new();
    let mut i: usize = 0;
    while i < v.len()
        invariant
            i <= v@.len(),
            r@ =~= v@.take(i as int),
        decreases v@.len() - i,
    {
        r.push(v[i]);
        i = i + 1;
    }
    proof {
        assert(v@.take(v@.len() as int) =~= v@);
    }
    r
}

/// Copy a vector of index pairs.
fn clone_pairs(v: &Vec<(usize, usize)>) -> (r: Vec<(usize, usize)>)
    ensures
        r@ == v@,
{
    let mut r: Vec<(usize, usize)> = Vec::new();
    let mut i: usize = 0;
    while i < v.len()
        invariant
            i <= v@.len(),
            r@ =~= v@.take(i as int),
        decreases v@.len() - i,
    {
        r.push(v[i]);
        i = i + 1;
    }
    proof {
        assert(v@.take(v@.len() as int) =~= v@);
    }
    r
}

/// Copy one expression tree.
fn clone_expr(e: &Expr) -> (r: Expr)
    ensures
        r == *e,
    decreases *e,
{
    match e {
        Expr::Constant(c) => Expr::Constant(*c),
        Expr::Instance(col, row) => Expr::Instance(*col, *row),
        Expr::Query(i) => Expr::Query(*i),
        Expr::Challenge(i) => Expr::Challenge(*i),
        Expr::Sum(a, b) => Expr::Sum(Box::new(clone_expr(&**a)), Box::new(clone_expr(&**b))),
        Expr::Product(a, b) => Expr::Product(
            Box::new(clone_expr(&**a)),
            Box::new(clone_expr(&**b)),
        ),
        Expr::Negated(a) => Expr::Negated(Box::new(clone_expr(&**a))),
        Expr::Scaled(a, k) => Expr::Scaled(Box::new(clone_expr(&**a)), *k),
    }
}

/// Copy a vector of expression trees.
fn clone_exprs(v: &Vec<Expr>) -> (r: Vec<Expr>)
    ensures
        r@ == v@,
{
    let mut r: Vec<Expr> = Vec::new();
    let mut i: usize = 0;
    while i < v.len()
        invariant
            i <= v@.len(),
            r@ =~= v@.take(i as int),
        decreases v@.len() - i,
    {
        r.push(clone_expr(&v[i]));
        i = i + 1;
    }
    proof {
        assert(v@.take(v@.len() as int) =~= v@);
    }
    r
}

} // verus!
