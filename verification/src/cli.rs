use vstd::prelude::*;

use crate::text::{chars_of, parse_u64, parse_unsigned, parse_usize};

verus! {

/// Why a command line was refused.
pub enum ArgError {
    /// An argument that is not a known flag.
    Unknown { arg: String },
    /// A flag with nothing after it.
    MissingValue { flag: String },
    /// A flag whose value is not a number of the kind it takes.
    BadNumber { flag: String, value: String },
}

pub enum ArgErrorModel {
    Unknown(Seq<char>),
    MissingValue(Seq<char>),
    BadNumber(Seq<char>, Seq<char>),
}

impl View for ArgError {
    type V = ArgErrorModel;

    open spec fn view(&self) -> ArgErrorModel {
        match self {
            ArgError::Unknown { arg } => ArgErrorModel::Unknown(arg@),
            ArgError::MissingValue { flag } => ArgErrorModel::MissingValue(flag@),
            ArgError::BadNumber { flag, value } => ArgErrorModel::BadNumber(flag@, value@),
        }
    }
}

/// The arguments as character sequences.
pub open spec fn argv_model(argv: Seq<String>) -> Seq<Seq<char>> {
    argv.map_values(|s: String| s@)
}

/// Reads `rest` as flag-value pairs from left to right, starting from `a`: an argument that
/// `known` does not accept, or a flag with no value after it, is refused; otherwise `step`
/// applies the pair, and the first refusal ends the reading.
pub open spec fn run_flags<M>(
    rest: Seq<Seq<char>>,
    a: M,
    known: spec_fn(Seq<char>) -> bool,
    step: spec_fn(M, Seq<char>, Seq<char>) -> Result<M, ArgErrorModel>,
) -> Result<M, ArgErrorModel>
    decreases rest.len(),
{
    if rest.len() == 0 {
        Ok(a)
    } else if !known(rest[0]) {
        Err(ArgErrorModel::Unknown(rest[0]))
    } else if rest.len() < 2 {
        Err(ArgErrorModel::MissingValue(rest[0]))
    } else {
        match step(a, rest[0], rest[1]) {
            Ok(b) => run_flags(rest.subrange(2, rest.len() as int), b, known, step),
            Err(e) => Err(e),
        }
    }
}

/// The command line without the program name.
pub open spec fn after_program(argv: Seq<Seq<char>>) -> Seq<Seq<char>> {
    if argv.len() == 0 {
        argv
    } else {
        argv.drop_first()
    }
}

proof fn lemma_run_flags_step<M>(
    argv: Seq<Seq<char>>,
    i: int,
    a: M,
    b: M,
    known: spec_fn(Seq<char>) -> bool,
    step: spec_fn(M, Seq<char>, Seq<char>) -> Result<M, ArgErrorModel>,
)
    requires
        0 <= i,
        i + 2 <= argv.len(),
        known(argv[i]),
        step(a, argv[i], argv[i + 1]) == Ok::<M, ArgErrorModel>(b),
    ensures
        run_flags(argv.subrange(i, argv.len() as int), a, known, step) == run_flags(
            argv.subrange(i + 2, argv.len() as int),
            b,
            known,
            step,
        ),
{
    let r = argv.subrange(i, argv.len() as int);
    assert(r[0] == argv[i]);
    assert(r[1] == argv[i + 1]);
    assert(r.subrange(2, r.len() as int) == argv.subrange(i + 2, argv.len() as int));
}

/// Whether `arg` is the flag `lit`.
fn is_flag(arg: &String, lit: &str) -> (b: bool)
    ensures
        b == (arg@ == lit@),
{
    let l = String::from_str(lit);
    *arg == l
}

/// Reads `value` as a `usize` for `flag`.
fn usize_value(flag: &String, value: &String) -> (r: Result<usize, ArgError>)
    ensures
        match r {
            Ok(n) => parse_unsigned(value@, usize::MAX as nat) == Some(n as nat),
            Err(e) => parse_unsigned(value@, usize::MAX as nat) is None && e@
                == ArgErrorModel::BadNumber(flag@, value@),
        },
{
    match parse_usize(&chars_of(value.as_str())) {
        Some(n) => Ok(n),
        None => Err(ArgError::BadNumber { flag: flag.clone(), value: value.clone() }),
    }
}

/// Reads `value` as a `u64` for `flag`.
fn u64_value(flag: &String, value: &String) -> (r: Result<u64, ArgError>)
    ensures
        match r {
            Ok(n) => parse_unsigned(value@, u64::MAX as nat) == Some(n as nat),
            Err(e) => parse_unsigned(value@, u64::MAX as nat) is None && e@
                == ArgErrorModel::BadNumber(flag@, value@),
        },
{
    match parse_u64(&chars_of(value.as_str())) {
        Some(n) => Ok(n),
        None => Err(ArgError::BadNumber { flag: flag.clone(), value: value.clone() }),
    }
}

/// A number flag's effect: the value read, or the refusal of `value`.
pub open spec fn number_for(flag: Seq<char>, value: Seq<char>, max: nat) -> Result<nat, ArgErrorModel> {
    match parse_unsigned(value, max) {
        Some(n) => Ok(n),
        None => Err(ArgErrorModel::BadNumber(flag, value)),
    }
}

// ---------------------------------------------------------------------------------------
// The lock-scaling benchmark: `--secs <u64>` and `--trials <usize>`.

/// The lock-scaling benchmark's settings.
pub struct ScalingArgs {
    pub secs: u64,
    pub trials: usize,
}

pub struct ScalingModel {
    pub secs: nat,
    pub trials: nat,
}

impl View for ScalingArgs {
    type V = ScalingModel;

    open spec fn view(&self) -> ScalingModel {
        ScalingModel { secs: self.secs as nat, trials: self.trials as nat }
    }
}

pub open spec fn scaling_default() -> ScalingModel {
    ScalingModel { secs: 2, trials: 5 }
}

pub open spec fn scaling_known(f: Seq<char>) -> bool {
    f == "--secs"@ || f == "--trials"@
}

pub open spec fn scaling_step(a: ScalingModel, f: Seq<char>, v: Seq<char>) -> Result<
    ScalingModel,
    ArgErrorModel,
> {
    if f == "--secs"@ {
        match number_for(f, v, u64::MAX as nat) {
            Ok(n) => Ok(ScalingModel { secs: n, ..a }),
            Err(e) => Err(e),
        }
    } else {
        match number_for(f, v, usize::MAX as nat) {
            Ok(n) => Ok(ScalingModel { trials: n, ..a }),
            Err(e) => Err(e),
        }
    }
}

/// The lock-scaling benchmark's settings that a command line gives: 2 seconds and 5 trials
/// unless `--secs` or `--trials` say otherwise; a later flag overrides an earlier one.
pub open spec fn scaling_args(argv: Seq<Seq<char>>) -> Result<ScalingModel, ArgErrorModel> {
    run_flags(
        after_program(argv),
        scaling_default(),
        |f: Seq<char>| scaling_known(f),
        |a: ScalingModel, f: Seq<char>, v: Seq<char>| scaling_step(a, f, v),
    )
}

fn scaling_is_flag(f: &String) -> (b: bool)
    ensures
        b == scaling_known(f@),
{
    is_flag(f, "--secs") || is_flag(f, "--trials")
}

fn scaling_apply(a: ScalingArgs, f: &String, v: &String) -> (r: Result<ScalingArgs, ArgError>)
    ensures
        match r {
            Ok(b) => scaling_step(a@, f@, v@) == Ok::<ScalingModel, ArgErrorModel>(b@),
            Err(e) => scaling_step(a@, f@, v@) == Err::<ScalingModel, ArgErrorModel>(e@),
        },
{
    if is_flag(f, "--secs") {
        match u64_value(f, v) {
            Ok(n) => Ok(ScalingArgs { secs: n, ..a }),
            Err(e) => Err(e),
        }
    } else {
        match usize_value(f, v) {
            Ok(n) => Ok(ScalingArgs { trials: n, ..a }),
            Err(e) => Err(e),
        }
    }
}

/// Why the lock-scaling benchmark's command line (`argv[0]` is the program) is refused, or `None` when it is
/// accepted.
pub fn scaling_args_refusal(argv: &Vec<String>) -> (r: Option<ArgError>)
    ensures
        match r {
            None => scaling_args(argv_model(argv@)) is Ok,
            Some(e) => scaling_args(argv_model(argv@)) == Err::<ScalingModel, ArgErrorModel>(e@),
        },
{
    match read_scaling_args(argv) {
        Ok(_) => None,
        Err(e) => Some(e),
    }
}

/// Reads the lock-scaling benchmark's command line (`argv[0]` is the program); a refused one is not
/// read here (see `scaling_args_refusal`).
pub fn parse_scaling_args(argv: &Vec<String>) -> (a: ScalingArgs)
    requires
        scaling_args(argv_model(argv@)) is Ok,
    ensures
        scaling_args(argv_model(argv@)) == Ok::<ScalingModel, ArgErrorModel>(a@),
{
    match read_scaling_args(argv) {
        Ok(a) => a,
        Err(_) => ScalingArgs { secs: 2, trials: 5 },
    }
}

/// Reads the lock-scaling benchmark's command line, or says why it is refused.
fn read_scaling_args(argv: &Vec<String>) -> (r: Result<ScalingArgs, ArgError>)
    ensures
        match r {
            Ok(a) => scaling_args(argv_model(argv@)) == Ok::<ScalingModel, ArgErrorModel>(a@),
            Err(e) => scaling_args(argv_model(argv@)) == Err::<ScalingModel, ArgErrorModel>(e@),
        },
{
    let ghost m = argv_model(argv@);
    let ghost known = |f: Seq<char>| scaling_known(f);
    let ghost step = |a: ScalingModel, f: Seq<char>, v: Seq<char>| scaling_step(a, f, v);
    let mut a = ScalingArgs { secs: 2, trials: 5 };
    if argv.len() == 0 {
        return Ok(a);
    }
    assert(after_program(m) == m.subrange(1, m.len() as int));
    let mut i: usize = 1;
    while i < argv.len()
        invariant
            1 <= i <= argv@.len(),
            m == argv_model(argv@),
            m.len() == argv@.len(),
            known == (|f: Seq<char>| scaling_known(f)),
            step == (|a: ScalingModel, f: Seq<char>, v: Seq<char>| scaling_step(a, f, v)),
            scaling_args(m) == run_flags(m.subrange(i as int, m.len() as int), a@, known, step),
        decreases argv@.len() - i,
    {
        let flag = &argv[i];
        let ghost rest = m.subrange(i as int, m.len() as int);
        assert(rest[0] == flag@);
        if !scaling_is_flag(flag) {
            return Err(ArgError::Unknown { arg: flag.clone() });
        }
        if i + 1 >= argv.len() {
            return Err(ArgError::MissingValue { flag: flag.clone() });
        }
        assert(rest[1] == argv@[i + 1]@);
        match scaling_apply(a, flag, &argv[i + 1]) {
            Ok(b) => {
                proof {
                    lemma_run_flags_step(m, i as int, a@, b@, known, step);
                }
                a = b;
            },
            Err(e) => {
                return Err(e);
            },
        }
        i = i + 2;
    }
    assert(m.subrange(i as int, m.len() as int).len() == 0);
    Ok(a)
}

// ---------------------------------------------------------------------------------------
/// The load driver's settings. The rate per client stays text: it is a decimal fraction,
/// which this library does not read.
pub struct LoadArgs {
    pub addr: String,
    pub clients: usize,
    pub duration_secs: u64,
    pub warmup_secs: u64,
    pub rate_per_client: Option<String>,
    pub slow_count: usize,
    pub label: String,
}

pub struct LoadModel {
    pub addr: Seq<char>,
    pub clients: nat,
    pub duration_secs: nat,
    pub warmup_secs: nat,
    pub rate_per_client: Option<Seq<char>>,
    pub slow_count: nat,
    pub label: Seq<char>,
}

impl View for LoadArgs {
    type V = LoadModel;

    open spec fn view(&self) -> LoadModel {
        LoadModel {
            addr: self.addr@,
            clients: self.clients as nat,
            duration_secs: self.duration_secs as nat,
            warmup_secs: self.warmup_secs as nat,
            rate_per_client: match &self.rate_per_client {
                Some(t) => Some(t@),
                None => None,
            },
            slow_count: self.slow_count as nat,
            label: self.label@,
        }
    }
}

pub open spec fn load_default() -> LoadModel {
    LoadModel {
        addr: "127.0.0.1:8080"@,
        clients: 50,
        duration_secs: 15,
        warmup_secs: 3,
        rate_per_client: None,
        slow_count: 0,
        label: "run"@,
    }
}

pub open spec fn load_known(f: Seq<char>) -> bool {
    f == "--addr"@ || f == "--clients"@ || f == "--duration-secs"@ || f == "--warmup-secs"@ || f == "--rate-per-client"@ || f == "--slow-count"@ || f == "--label"@
}

pub open spec fn load_step(a: LoadModel, f: Seq<char>, v: Seq<char>) -> Result<
    LoadModel,
    ArgErrorModel,
> {
    if f == "--addr"@ {
        Ok(LoadModel { addr: v, ..a })
    } else if f == "--clients"@ {
        match number_for(f, v, usize::MAX as nat) {
            Ok(n) => Ok(LoadModel { clients: n, ..a }),
            Err(e) => Err(e),
        }
    } else if f == "--duration-secs"@ {
        match number_for(f, v, u64::MAX as nat) {
            Ok(n) => Ok(LoadModel { duration_secs: n, ..a }),
            Err(e) => Err(e),
        }
    } else if f == "--warmup-secs"@ {
        match number_for(f, v, u64::MAX as nat) {
            Ok(n) => Ok(LoadModel { warmup_secs: n, ..a }),
            Err(e) => Err(e),
        }
    } else if f == "--rate-per-client"@ {
        Ok(LoadModel { rate_per_client: Some(v), ..a })
    } else if f == "--slow-count"@ {
        match number_for(f, v, usize::MAX as nat) {
            Ok(n) => Ok(LoadModel { slow_count: n, ..a }),
            Err(e) => Err(e),
        }
    } else {
        Ok(LoadModel { label: v, ..a })
    }
}

/// The load driver's settings that a command line gives, from the defaults (127.0.0.1:8080,
/// 50 clients, 15 s measured after 3 s of warm-up, no rate given, no slow clients, label
/// `run`); a later flag overrides an earlier one.
pub open spec fn load_args(argv: Seq<Seq<char>>) -> Result<LoadModel, ArgErrorModel> {
    run_flags(
        after_program(argv),
        load_default(),
        |f: Seq<char>| load_known(f),
        |a: LoadModel, f: Seq<char>, v: Seq<char>| load_step(a, f, v),
    )
}

fn load_is_flag(f: &String) -> (b: bool)
    ensures
        b == load_known(f@),
{
    is_flag(f, "--addr") || is_flag(f, "--clients") || is_flag(f, "--duration-secs") || is_flag(f, "--warmup-secs") || is_flag(f, "--rate-per-client") || is_flag(f, "--slow-count") || is_flag(f, "--label")
}

fn load_apply(a: LoadArgs, f: &String, v: &String) -> (r: Result<LoadArgs, ArgError>)
    ensures
        match r {
            Ok(b) => load_step(a@, f@, v@) == Ok::<LoadModel, ArgErrorModel>(b@),
            Err(e) => load_step(a@, f@, v@) == Err::<LoadModel, ArgErrorModel>(e@),
        },
{
    if is_flag(f, "--addr") {
        Ok(LoadArgs { addr: v.clone(), ..a })
    } else if is_flag(f, "--clients") {
        match usize_value(f, v) {
            Ok(n) => Ok(LoadArgs { clients: n, ..a }),
            Err(e) => Err(e),
        }
    } else if is_flag(f, "--duration-secs") {
        match u64_value(f, v) {
            Ok(n) => Ok(LoadArgs { duration_secs: n, ..a }),
            Err(e) => Err(e),
        }
    } else if is_flag(f, "--warmup-secs") {
        match u64_value(f, v) {
            Ok(n) => Ok(LoadArgs { warmup_secs: n, ..a }),
            Err(e) => Err(e),
        }
    } else if is_flag(f, "--rate-per-client") {
        Ok(LoadArgs { rate_per_client: Some(v.clone()), ..a })
    } else if is_flag(f, "--slow-count") {
        match usize_value(f, v) {
            Ok(n) => Ok(LoadArgs { slow_count: n, ..a }),
            Err(e) => Err(e),
        }
    } else {
        Ok(LoadArgs { label: v.clone(), ..a })
    }
}

fn load_defaults() -> (a: LoadArgs)
    ensures
        a@ == load_default(),
{
    LoadArgs {
        addr: String::from_str("127.0.0.1:8080"),
        clients: 50,
        duration_secs: 15,
        warmup_secs: 3,
        rate_per_client: None,
        slow_count: 0,
        label: String::from_str("run"),
    }
}

/// Why the load driver's command line (`argv[0]` is the program) is refused, or `None` when it is
/// accepted.
pub fn load_args_refusal(argv: &Vec<String>) -> (r: Option<ArgError>)
    ensures
        match r {
            None => load_args(argv_model(argv@)) is Ok,
            Some(e) => load_args(argv_model(argv@)) == Err::<LoadModel, ArgErrorModel>(e@),
        },
{
    match read_load_args(argv) {
        Ok(_) => None,
        Err(e) => Some(e),
    }
}

/// Reads the load driver's command line (`argv[0]` is the program); a refused one is not
/// read here (see `load_args_refusal`).
pub fn parse_load_args(argv: &Vec<String>) -> (a: LoadArgs)
    requires
        load_args(argv_model(argv@)) is Ok,
    ensures
        load_args(argv_model(argv@)) == Ok::<LoadModel, ArgErrorModel>(a@),
{
    match read_load_args(argv) {
        Ok(a) => a,
        Err(_) => load_defaults(),
    }
}

/// Reads the load driver's command line, or says why it is refused.
fn read_load_args(argv: &Vec<String>) -> (r: Result<LoadArgs, ArgError>)
    ensures
        match r {
            Ok(a) => load_args(argv_model(argv@)) == Ok::<LoadModel, ArgErrorModel>(a@),
            Err(e) => load_args(argv_model(argv@)) == Err::<LoadModel, ArgErrorModel>(e@),
        },
{
    let ghost m = argv_model(argv@);
    let ghost known = |f: Seq<char>| load_known(f);
    let ghost step = |a: LoadModel, f: Seq<char>, v: Seq<char>| load_step(a, f, v);
    let mut a = load_defaults();
    if argv.len() == 0 {
        return Ok(a);
    }
    assert(after_program(m) == m.subrange(1, m.len() as int));
    let mut i: usize = 1;
    while i < argv.len()
        invariant
            1 <= i <= argv@.len(),
            m == argv_model(argv@),
            m.len() == argv@.len(),
            known == (|f: Seq<char>| load_known(f)),
            step == (|a: LoadModel, f: Seq<char>, v: Seq<char>| load_step(a, f, v)),
            load_args(m) == run_flags(m.subrange(i as int, m.len() as int), a@, known, step),
        decreases argv@.len() - i,
    {
        let flag = &argv[i];
        let ghost rest = m.subrange(i as int, m.len() as int);
        assert(rest[0] == flag@);
        if !load_is_flag(flag) {
            return Err(ArgError::Unknown { arg: flag.clone() });
        }
        if i + 1 >= argv.len() {
            return Err(ArgError::MissingValue { flag: flag.clone() });
        }
        assert(rest[1] == argv@[i + 1]@);
        match load_apply(a, flag, &argv[i + 1]) {
            Ok(b) => {
                proof {
                    lemma_run_flags_step(m, i as int, a@, b@, known, step);
                }
                a = b;
            },
            Err(e) => {
                return Err(e);
            },
        }
        i = i + 2;
    }
    assert(m.subrange(i as int, m.len() as int).len() == 0);
    Ok(a)
}

// ---------------------------------------------------------------------------------------
/// The lock-across-await benchmark's settings.
pub struct PathologyArgs {
    pub variant: String,
    pub publishers: usize,
    pub subscribers: usize,
    pub slow_count: usize,
    pub slow_delay_ms: u64,
    pub pub_rate_hz: u64,
    pub duration_secs: u64,
}

pub struct PathologyModel {
    pub variant: Seq<char>,
    pub publishers: nat,
    pub subscribers: nat,
    pub slow_count: nat,
    pub slow_delay_ms: nat,
    pub pub_rate_hz: nat,
    pub duration_secs: nat,
}

impl View for PathologyArgs {
    type V = PathologyModel;

    open spec fn view(&self) -> PathologyModel {
        PathologyModel {
            variant: self.variant@,
            publishers: self.publishers as nat,
            subscribers: self.subscribers as nat,
            slow_count: self.slow_count as nat,
            slow_delay_ms: self.slow_delay_ms as nat,
            pub_rate_hz: self.pub_rate_hz as nat,
            duration_secs: self.duration_secs as nat,
        }
    }
}

pub open spec fn pathology_default() -> PathologyModel {
    PathologyModel {
        variant: "both"@,
        publishers: 8,
        subscribers: 200,
        slow_count: 1,
        slow_delay_ms: 10,
        pub_rate_hz: 200,
        duration_secs: 10,
    }
}

pub open spec fn pathology_known(f: Seq<char>) -> bool {
    f == "--variant"@ || f == "--publishers"@ || f == "--subscribers"@ || f == "--slow-count"@ || f == "--slow-delay-ms"@ || f == "--pub-rate-hz"@ || f == "--duration-secs"@
}

pub open spec fn pathology_step(a: PathologyModel, f: Seq<char>, v: Seq<char>) -> Result<
    PathologyModel,
    ArgErrorModel,
> {
    if f == "--variant"@ {
        Ok(PathologyModel { variant: v, ..a })
    } else if f == "--publishers"@ {
        match number_for(f, v, usize::MAX as nat) {
            Ok(n) => Ok(PathologyModel { publishers: n, ..a }),
            Err(e) => Err(e),
        }
    } else if f == "--subscribers"@ {
        match number_for(f, v, usize::MAX as nat) {
            Ok(n) => Ok(PathologyModel { subscribers: n, ..a }),
            Err(e) => Err(e),
        }
    } else if f == "--slow-count"@ {
        match number_for(f, v, usize::MAX as nat) {
            Ok(n) => Ok(PathologyModel { slow_count: n, ..a }),
            Err(e) => Err(e),
        }
    } else if f == "--slow-delay-ms"@ {
        match number_for(f, v, u64::MAX as nat) {
            Ok(n) => Ok(PathologyModel { slow_delay_ms: n, ..a }),
            Err(e) => Err(e),
        }
    } else if f == "--pub-rate-hz"@ {
        match number_for(f, v, u64::MAX as nat) {
            Ok(n) => Ok(PathologyModel { pub_rate_hz: n, ..a }),
            Err(e) => Err(e),
        }
    } else {
        match number_for(f, v, u64::MAX as nat) {
            Ok(n) => Ok(PathologyModel { duration_secs: n, ..a }),
            Err(e) => Err(e),
        }
    }
}

/// The lock-across-await benchmark's settings that a command line gives, from the defaults
/// (both variants, 8 publishers, 200 subscribers of which 1 is slow, 10 ms slow delay,
/// 200 publications a second, 10 s); a later flag overrides an earlier one.
pub open spec fn pathology_args(argv: Seq<Seq<char>>) -> Result<PathologyModel, ArgErrorModel> {
    run_flags(
        after_program(argv),
        pathology_default(),
        |f: Seq<char>| pathology_known(f),
        |a: PathologyModel, f: Seq<char>, v: Seq<char>| pathology_step(a, f, v),
    )
}

fn pathology_is_flag(f: &String) -> (b: bool)
    ensures
        b == pathology_known(f@),
{
    is_flag(f, "--variant") || is_flag(f, "--publishers") || is_flag(f, "--subscribers") || is_flag(f, "--slow-count") || is_flag(f, "--slow-delay-ms") || is_flag(f, "--pub-rate-hz") || is_flag(f, "--duration-secs")
}

fn pathology_apply(a: PathologyArgs, f: &String, v: &String) -> (r: Result<PathologyArgs, ArgError>)
    ensures
        match r {
            Ok(b) => pathology_step(a@, f@, v@) == Ok::<PathologyModel, ArgErrorModel>(b@),
            Err(e) => pathology_step(a@, f@, v@) == Err::<PathologyModel, ArgErrorModel>(e@),
        },
{
    if is_flag(f, "--variant") {
        Ok(PathologyArgs { variant: v.clone(), ..a })
    } else if is_flag(f, "--publishers") {
        match usize_value(f, v) {
            Ok(n) => Ok(PathologyArgs { publishers: n, ..a }),
            Err(e) => Err(e),
        }
    } else if is_flag(f, "--subscribers") {
        match usize_value(f, v) {
            Ok(n) => Ok(PathologyArgs { subscribers: n, ..a }),
            Err(e) => Err(e),
        }
    } else if is_flag(f, "--slow-count") {
        match usize_value(f, v) {
            Ok(n) => Ok(PathologyArgs { slow_count: n, ..a }),
            Err(e) => Err(e),
        }
    } else if is_flag(f, "--slow-delay-ms") {
        match u64_value(f, v) {
            Ok(n) => Ok(PathologyArgs { slow_delay_ms: n, ..a }),
            Err(e) => Err(e),
        }
    } else if is_flag(f, "--pub-rate-hz") {
        match u64_value(f, v) {
            Ok(n) => Ok(PathologyArgs { pub_rate_hz: n, ..a }),
            Err(e) => Err(e),
        }
    } else {
        match u64_value(f, v) {
            Ok(n) => Ok(PathologyArgs { duration_secs: n, ..a }),
            Err(e) => Err(e),
        }
    }
}

fn pathology_defaults() -> (a: PathologyArgs)
    ensures
        a@ == pathology_default(),
{
    PathologyArgs {
        variant: String::from_str("both"),
        publishers: 8,
        subscribers: 200,
        slow_count: 1,
        slow_delay_ms: 10,
        pub_rate_hz: 200,
        duration_secs: 10,
    }
}

/// Why the lock-across-await benchmark's command line (`argv[0]` is the program) is refused, or `None` when it is
/// accepted.
pub fn pathology_args_refusal(argv: &Vec<String>) -> (r: Option<ArgError>)
    ensures
        match r {
            None => pathology_args(argv_model(argv@)) is Ok,
            Some(e) => pathology_args(argv_model(argv@)) == Err::<PathologyModel, ArgErrorModel>(e@),
        },
{
    match read_pathology_args(argv) {
        Ok(_) => None,
        Err(e) => Some(e),
    }
}

/// Reads the lock-across-await benchmark's command line (`argv[0]` is the program); a refused one is not
/// read here (see `pathology_args_refusal`).
pub fn parse_pathology_args(argv: &Vec<String>) -> (a: PathologyArgs)
    requires
        pathology_args(argv_model(argv@)) is Ok,
    ensures
        pathology_args(argv_model(argv@)) == Ok::<PathologyModel, ArgErrorModel>(a@),
{
    match read_pathology_args(argv) {
        Ok(a) => a,
        Err(_) => pathology_defaults(),
    }
}

/// Reads the lock-across-await benchmark's command line, or says why it is refused.
fn read_pathology_args(argv: &Vec<String>) -> (r: Result<PathologyArgs, ArgError>)
    ensures
        match r {
            Ok(a) => pathology_args(argv_model(argv@)) == Ok::<PathologyModel, ArgErrorModel>(a@),
            Err(e) => pathology_args(argv_model(argv@)) == Err::<PathologyModel, ArgErrorModel>(e@),
        },
{
    let ghost m = argv_model(argv@);
    let ghost known = |f: Seq<char>| pathology_known(f);
    let ghost step = |a: PathologyModel, f: Seq<char>, v: Seq<char>| pathology_step(a, f, v);
    let mut a = pathology_defaults();
    if argv.len() == 0 {
        return Ok(a);
    }
    assert(after_program(m) == m.subrange(1, m.len() as int));
    let mut i: usize = 1;
    while i < argv.len()
        invariant
            1 <= i <= argv@.len(),
            m == argv_model(argv@),
            m.len() == argv@.len(),
            known == (|f: Seq<char>| pathology_known(f)),
            step == (|a: PathologyModel, f: Seq<char>, v: Seq<char>| pathology_step(a, f, v)),
            pathology_args(m) == run_flags(m.subrange(i as int, m.len() as int), a@, known, step),
        decreases argv@.len() - i,
    {
        let flag = &argv[i];
        let ghost rest = m.subrange(i as int, m.len() as int);
        assert(rest[0] == flag@);
        if !pathology_is_flag(flag) {
            return Err(ArgError::Unknown { arg: flag.clone() });
        }
        if i + 1 >= argv.len() {
            return Err(ArgError::MissingValue { flag: flag.clone() });
        }
        assert(rest[1] == argv@[i + 1]@);
        match pathology_apply(a, flag, &argv[i + 1]) {
            Ok(b) => {
                proof {
                    lemma_run_flags_step(m, i as int, a@, b@, known, step);
                }
                a = b;
            },
            Err(e) => {
                return Err(e);
            },
        }
        i = i + 2;
    }
    assert(m.subrange(i as int, m.len() as int).len() == 0);
    Ok(a)
}

// ---------------------------------------------------------------------------------------
// Laws of the command lines.

/// Reading flag-value pairs is done left to right: once a prefix is read without refusal,
/// what follows is read starting from the settings the prefix gave.
proof fn lemma_run_flags_append<M>(
    rest: Seq<Seq<char>>,
    tail: Seq<Seq<char>>,
    a: M,
    known: spec_fn(Seq<char>) -> bool,
    step: spec_fn(M, Seq<char>, Seq<char>) -> Result<M, ArgErrorModel>,
)
    requires
        run_flags(rest, a, known, step) is Ok,
    ensures
        run_flags(rest + tail, a, known, step) == run_flags(
            tail,
            run_flags(rest, a, known, step)->Ok_0,
            known,
            step,
        ),
    decreases rest.len(),
{
    if rest.len() == 0 {
        assert(rest + tail =~= tail);
    } else {
        let b = step(a, rest[0], rest[1])->Ok_0;
        let r2 = rest.subrange(2, rest.len() as int);
        let whole = rest + tail;
        assert(whole[0] == rest[0]);
        assert(whole[1] == rest[1]);
        assert(whole.subrange(2, whole.len() as int) =~= r2 + tail);
        lemma_run_flags_append(r2, tail, b, known, step);
    }
}

/// Two more arguments after a command line: its program name stays first.
proof fn lemma_after_program_append(argv: Seq<Seq<char>>, f: Seq<char>, v: Seq<char>)
    requires
        argv.len() >= 1,
    ensures
        after_program(argv.push(f).push(v)) == after_program(argv) + seq![f, v],
{
    assert(after_program(argv.push(f).push(v)) =~= after_program(argv) + seq![f, v]);
}

/// One more flag and value read from `b`: the known flag's step, or its refusal.
proof fn lemma_run_flags_pair<M>(
    f: Seq<char>,
    v: Seq<char>,
    b: M,
    known: spec_fn(Seq<char>) -> bool,
    step: spec_fn(M, Seq<char>, Seq<char>) -> Result<M, ArgErrorModel>,
)
    requires
        known(f),
    ensures
        run_flags(seq![f, v], b, known, step) == step(b, f, v),
{
    let r = seq![f, v];
    assert(r[0] == f && r[1] == v);
    assert(r.subrange(2, r.len() as int) =~= Seq::<Seq<char>>::empty());
    if let Ok(c) = step(b, f, v) {
        assert(run_flags(Seq::<Seq<char>>::empty(), c, known, step) == Ok::<M, ArgErrorModel>(c));
    }
}

/// A command line with nothing after the program name gives the lock-scaling benchmark's
/// defaults: 2 seconds per run and 5 trials.
pub proof fn scaling_defaults(p: Seq<char>)
    ensures
        scaling_args(seq![p]) == Ok::<ScalingModel, ArgErrorModel>(ScalingModel { secs: 2, trials: 5 }),
{
    assert(after_program(seq![p]) =~= Seq::<Seq<char>>::empty());
}

/// Each flag of the lock-scaling benchmark sets its own setting and nothing else: after an
/// accepted command line, `--secs v` sets the seconds to `v` and keeps the trials, and
/// `--trials v` sets the trials to `v` and keeps the seconds; a value that is not a number
/// is refused.
pub proof fn scaling_flag_sets_only_its_setting(argv: Seq<Seq<char>>, f: Seq<char>, v: Seq<char>)
    requires
        argv.len() >= 1,
        scaling_args(argv) is Ok,
        f == "--secs"@ || f == "--trials"@,
    ensures
        ({
            let before = scaling_args(argv)->Ok_0;
            let after = scaling_args(argv.push(f).push(v));
            &&& f == "--secs"@ ==> match parse_unsigned(v, u64::MAX as nat) {
                Some(n) => after == Ok::<ScalingModel, ArgErrorModel>(
                    ScalingModel { secs: n, trials: before.trials },
                ),
                None => after == Err::<ScalingModel, ArgErrorModel>(ArgErrorModel::BadNumber(f, v)),
            }
            &&& f == "--trials"@ ==> match parse_unsigned(v, usize::MAX as nat) {
                Some(n) => after == Ok::<ScalingModel, ArgErrorModel>(
                    ScalingModel { secs: before.secs, trials: n },
                ),
                None => after == Err::<ScalingModel, ArgErrorModel>(ArgErrorModel::BadNumber(f, v)),
            }
        }),
{
    reveal_strlit("--secs");
    reveal_strlit("--trials");
    let known = |g: Seq<char>| scaling_known(g);
    let step = |a: ScalingModel, g: Seq<char>, w: Seq<char>| scaling_step(a, g, w);
    lemma_after_program_append(argv, f, v);
    lemma_run_flags_append(after_program(argv), seq![f, v], scaling_default(), known, step);
    lemma_run_flags_pair(f, v, scaling_args(argv)->Ok_0, known, step);
    assert("--secs"@.len() != "--trials"@.len());
}

/// A command line with nothing after the program name gives the lock-across-await
/// benchmark's defaults: both variants, 8 publishers, 200 subscribers of which 1 is slow by
/// 10 ms, 200 publications per second, for 10 seconds.
pub proof fn pathology_defaults_law(p: Seq<char>)
    ensures
        pathology_args(seq![p]) == Ok::<PathologyModel, ArgErrorModel>(
            PathologyModel {
                variant: "both"@,
                publishers: 8,
                subscribers: 200,
                slow_count: 1,
                slow_delay_ms: 10,
                pub_rate_hz: 200,
                duration_secs: 10,
            },
        ),
{
    assert(after_program(seq![p]) =~= Seq::<Seq<char>>::empty());
}

/// Each flag of the lock-across-await benchmark sets its own setting and nothing else:
/// after an accepted command line, a further flag with a value that reads as its number
/// (any text for `--variant`) changes that one setting to the value and keeps all others.
pub proof fn pathology_flag_sets_only_its_setting(
    argv: Seq<Seq<char>>,
    f: Seq<char>,
    v: Seq<char>,
)
    requires
        argv.len() >= 1,
        pathology_args(argv) is Ok,
        pathology_known(f),
    ensures
        ({
            let b = pathology_args(argv)->Ok_0;
            let after = pathology_args(argv.push(f).push(v));
            let word = parse_unsigned(v, usize::MAX as nat);
            let wide = parse_unsigned(v, u64::MAX as nat);
            &&& f == "--variant"@ ==> after == Ok::<PathologyModel, ArgErrorModel>(
                PathologyModel { variant: v, ..b },
            )
            &&& f == "--publishers"@ && word is Some ==> after == Ok::<PathologyModel, ArgErrorModel>(
                PathologyModel { publishers: word->Some_0, ..b },
            )
            &&& f == "--subscribers"@ && word is Some ==> after == Ok::<PathologyModel, ArgErrorModel>(
                PathologyModel { subscribers: word->Some_0, ..b },
            )
            &&& f == "--slow-count"@ && word is Some ==> after == Ok::<PathologyModel, ArgErrorModel>(
                PathologyModel { slow_count: word->Some_0, ..b },
            )
            &&& f == "--slow-delay-ms"@ && wide is Some ==> after == Ok::<PathologyModel, ArgErrorModel>(
                PathologyModel { slow_delay_ms: wide->Some_0, ..b },
            )
            &&& f == "--pub-rate-hz"@ && wide is Some ==> after == Ok::<PathologyModel, ArgErrorModel>(
                PathologyModel { pub_rate_hz: wide->Some_0, ..b },
            )
            &&& f == "--duration-secs"@ && wide is Some ==> after == Ok::<PathologyModel, ArgErrorModel>(
                PathologyModel { duration_secs: wide->Some_0, ..b },
            )
        }),
{
    reveal_strlit("--variant");
    reveal_strlit("--publishers");
    reveal_strlit("--subscribers");
    reveal_strlit("--slow-count");
    reveal_strlit("--slow-delay-ms");
    reveal_strlit("--pub-rate-hz");
    reveal_strlit("--duration-secs");
    let names = seq![
        "--variant"@,
        "--publishers"@,
        "--subscribers"@,
        "--slow-count"@,
        "--slow-delay-ms"@,
        "--pub-rate-hz"@,
        "--duration-secs"@,
    ];
    assert forall|i: int, j: int| 0 <= i < j < 7 implies names[i] != names[j] by {
        if names[i].len() == names[j].len() {
            assert(names[i][2] != names[j][2]);
        }
    }
    assert(names[0] != names[1] && names[0] != names[2] && names[0] != names[3]);
    assert(names[0] != names[4] && names[0] != names[5] && names[0] != names[6]);
    assert(names[1] != names[2] && names[1] != names[3] && names[1] != names[4]);
    assert(names[1] != names[5] && names[1] != names[6] && names[2] != names[3]);
    assert(names[2] != names[4] && names[2] != names[5] && names[2] != names[6]);
    assert(names[3] != names[4] && names[3] != names[5] && names[3] != names[6]);
    assert(names[4] != names[5] && names[4] != names[6] && names[5] != names[6]);
    let known = |g: Seq<char>| pathology_known(g);
    let step = |a: PathologyModel, g: Seq<char>, w: Seq<char>| pathology_step(a, g, w);
    lemma_after_program_append(argv, f, v);
    lemma_run_flags_append(after_program(argv), seq![f, v], pathology_default(), known, step);
    lemma_run_flags_pair(f, v, pathology_args(argv)->Ok_0, known, step);
}

} // verus!
