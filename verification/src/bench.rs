use vstd::prelude::*;

verus! {

/// A synchronisation primitive whose read cost the lock-scaling benchmark measures.
#[derive(Clone, Copy)]
pub enum Primitive {
    Mutex,
    RwLock,
    Atomic,
}

pub open spec fn primitive_name(p: Primitive) -> Seq<char> {
    match p {
        Primitive::Mutex => "mutex"@,
        Primitive::RwLock => "rwlock"@,
        Primitive::Atomic => "atomic"@,
    }
}

impl Primitive {
    /// The name printed for the primitive.
    pub fn name(self) -> (s: &'static str)
        ensures
            s@ == primitive_name(self),
    {
        match self {
            Primitive::Mutex => "mutex",
            Primitive::RwLock => "rwlock",
            Primitive::Atomic => "atomic",
        }
    }
}

/// The primitives, in the order they are measured.
pub open spec fn primitive_order() -> Seq<Primitive> {
    seq![Primitive::Mutex, Primitive::RwLock, Primitive::Atomic]
}

/// The thread counts, in the order they are measured.
pub open spec fn thread_counts() -> Seq<usize> {
    seq![1usize, 2, 3, 4, 6, 8, 10]
}

/// One measurement of the lock-scaling benchmark.
pub struct ScalingRun {
    pub primitive: Primitive,
    pub threads: usize,
    pub trial: usize,
}

/// The `k`-th measurement: primitives outermost, then thread counts, then trials.
pub open spec fn run_at(trials: nat, k: int) -> (Primitive, usize, nat) {
    let per_prim = 7 * trials;
    (
        primitive_order()[k / per_prim as int],
        thread_counts()[(k % per_prim as int) / trials as int],
        ((k % per_prim as int) % trials as int) as nat,
    )
}

fn thread_count_list() -> (v: Vec<usize>)
    ensures
        v@ == thread_counts(),
{
    let v: Vec<usize> = vec![1, 2, 3, 4, 6, 8, 10];
    assert(v@ =~= thread_counts());
    v
}

fn primitive_list() -> (v: Vec<Primitive>)
    ensures
        v@ == primitive_order(),
{
    let v: Vec<Primitive> = vec![Primitive::Mutex, Primitive::RwLock, Primitive::Atomic];
    assert(v@ =~= primitive_order());
    v
}

/// Every measurement of the lock-scaling benchmark with `trials` trials each, in the order
/// they are taken: each primitive in turn, each thread count in turn, each trial in turn.
pub fn scaling_schedule(trials: usize) -> (runs: Vec<ScalingRun>)
    requires
        21 * trials <= usize::MAX,
    ensures
        runs@.len() == 21 * trials,
        forall|k: int|
            0 <= k < runs@.len() ==> (#[trigger] runs@[k].primitive, runs@[k].threads,
            runs@[k].trial as nat) == run_at(trials as nat, k),
{
    let prims = primitive_list();
    let counts = thread_count_list();
    let mut runs: Vec<ScalingRun> = Vec::new();
    let mut p: usize = 0;
    while p < 3
        invariant
            prims@ == primitive_order(),
            counts@ == thread_counts(),
            21 * trials <= usize::MAX,
            p <= 3,
            runs@.len() == 7 * trials * p,
            forall|k: int|
                0 <= k < runs@.len() ==> (#[trigger] runs@[k].primitive, runs@[k].threads,
                runs@[k].trial as nat) == run_at(trials as nat, k),
        decreases 3 - p,
    {
        let mut c: usize = 0;
        while c < 7
            invariant
                prims@ == primitive_order(),
                counts@ == thread_counts(),
                21 * trials <= usize::MAX,
                p < 3,
                c <= 7,
                runs@.len() == 7 * trials * p + trials * c,
                forall|k: int|
                    0 <= k < runs@.len() ==> (#[trigger] runs@[k].primitive, runs@[k].threads,
                    runs@[k].trial as nat) == run_at(trials as nat, k),
            decreases 7 - c,
        {
            let mut t: usize = 0;
            while t < trials
                invariant
                    prims@ == primitive_order(),
                    counts@ == thread_counts(),
                    21 * trials <= usize::MAX,
                    p < 3,
                    c < 7,
                    t <= trials,
                    runs@.len() == 7 * trials * p + trials * c + t,
                    forall|k: int|
                        0 <= k < runs@.len() ==> (#[trigger] runs@[k].primitive, runs@[k].threads,
                        runs@[k].trial as nat) == run_at(trials as nat, k),
                decreases trials - t,
            {
                proof {
                    let k = (7 * trials * p + trials * c + t) as int;
                    let per = 7 * trials as int;
                    assert(k / per == p as int && k % per == trials * c + t) by (nonlinear_arith)
                        requires
                            k == per * p + trials * c + t,
                            per == 7 * trials,
                            0 <= t < trials,
                            0 <= c < 7,
                            p >= 0,
                    ;
                    assert((trials * c + t) / (trials as int) == c as int && (trials * c + t)
                        % (trials as int) == t as int) by (nonlinear_arith)
                        requires
                            0 <= t < trials,
                            c >= 0,
                    ;
                }
                runs.push(ScalingRun { primitive: prims[p], threads: counts[c], trial: t });
                t = t + 1;
            }
            assert(trials * c + trials == trials * (c + 1)) by (nonlinear_arith);
            c = c + 1;
        }
        assert(7 * trials * p + trials * 7 == 7 * trials * (p + 1)) by (nonlinear_arith);
        p = p + 1;
    }
    runs
}

/// Which variants the lock-across-await benchmark runs: the mutex one for `mutex` or
/// `both`, the broadcast one for `broadcast` or `both`, in that order.
pub fn variants_to_run(variant: &String) -> (r: (bool, bool))
    ensures
        r.0 == (variant@ == "mutex"@ || variant@ == "both"@),
        r.1 == (variant@ == "broadcast"@ || variant@ == "both"@),
{
    let mutex = String::from_str("mutex");
    let broadcast = String::from_str("broadcast");
    let both = String::from_str("both");
    (*variant == mutex || *variant == both, *variant == broadcast || *variant == both)
}

} // verus!
