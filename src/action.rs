//! The workload command: from the operator's options to a plan with one
//! worker per target, each with its addresses, its label and its pace.
use vstd::prelude::*;
use crate::rate::{RateParseError, RateSpec, parse_target_rate, spec_parse_rate};
use crate::text::{decimal, parse_unsigned, push_decimal, same_text, split_on, split_text, strings_view, unsigned_of};
use crate::time::{Time, TimeType, TimeUnit, spec_parse_duration};
use rand::rngs::StdRng;

verus! {

/// Seconds between two throughput reports when none is given.
pub const DEFAULT_LOG_TIME_SECS: u32 = 30;

/// Accounts of a smallbank workload when none is given.
pub const DEFAULT_NUM_ACCOUNTS: usize = 100;

/// Relies on rand 0.8's `Rng::gen::<u64>`: any value may come back.
#[verifier::external_body]
fn draw_seed(rng: &mut StdRng) -> (r: u64) {
    rand::Rng::gen::<u64>(rng)
}

/// The workload command.
pub struct WorkloadAction;

/// The options of the workload command, as the operator wrote them.
pub struct WorkloadArgs {
    /// One entry per worker; the addresses of one worker are separated by `;`.
    pub targets: Option<Vec<String>>,
    pub target_rate: Option<String>,
    pub workload: Option<String>,
    pub update: Option<String>,
    pub seed: Option<String>,
    pub duration: Option<String>,
    pub smallbank_num_accounts: Option<String>,
}

#[derive(PartialEq, Eq, Structural, Clone, Copy, Debug)]
pub enum WorkloadKind {
    Command,
    Smallbank,
}

/// Why the workload command cannot start.
#[derive(PartialEq, Eq, Structural, Clone, Copy, Debug)]
pub enum WorkloadError {
    TargetsRequired,
    Rate(RateParseError),
    WorkloadRequired,
    UpdateUnparseable,
    SeedUnparseable,
    DurationUnparseable,
    UnsupportedWorkload,
    AccountsUnparseable,
}

/// One worker: its label, its addresses and the pause between two of its
/// submissions.
pub struct WorkerPlan {
    pub id: String,
    pub targets: Vec<String>,
    pub time_to_wait_micros: u64,
}

/// Everything needed to start a run.
pub struct WorkloadPlan {
    pub kind: WorkloadKind,
    pub rate: RateSpec,
    pub update_secs: u32,
    pub seed: u64,
    pub duration: Option<Time>,
    /// Accounts of a smallbank workload; `None` for other kinds.
    pub num_accounts: Option<usize>,
    /// Whether workers check the status of each submitted batch.
    pub get_batch_status: bool,
    pub workers: Vec<WorkerPlan>,
}

pub open spec fn opt_view(o: Option<String>) -> Option<Seq<char>> {
    match o {
        Some(s) => Some(s@),
        None => None,
    }
}

pub open spec fn kind_of(s: Seq<char>) -> Option<WorkloadKind> {
    if s == "command"@ {
        Some(WorkloadKind::Command)
    } else if s == "smallbank"@ {
        Some(WorkloadKind::Smallbank)
    } else {
        None
    }
}

pub open spec fn rate_of(o: Option<Seq<char>>) -> Result<RateSpec, RateParseError> {
    match o {
        Some(s) => spec_parse_rate(s),
        None => Ok(
            RateSpec {
                min: Time { thousandths: 1000, unit: TimeUnit::Second, time_type: TimeType::Rate },
                max: Time { thousandths: 1000, unit: TimeUnit::Second, time_type: TimeType::Rate },
            },
        ),
    }
}

pub open spec fn update_of(o: Option<Seq<char>>) -> Option<nat> {
    match o {
        Some(s) => unsigned_of(s, u32::MAX as nat),
        None => Some(DEFAULT_LOG_TIME_SECS as nat),
    }
}

pub open spec fn explicit_seed_ok(o: Option<Seq<char>>) -> bool {
    match o {
        Some(s) => unsigned_of(s, u64::MAX as nat) is Some,
        None => true,
    }
}

pub open spec fn duration_ok(o: Option<Seq<char>>) -> bool {
    match o {
        Some(s) => spec_parse_duration(s) is Some,
        None => true,
    }
}

pub open spec fn duration_of(o: Option<Seq<char>>) -> Option<Time> {
    match o {
        Some(s) => spec_parse_duration(s),
        None => None,
    }
}

pub open spec fn accounts_of(o: Option<Seq<char>>) -> Option<nat> {
    match o {
        Some(s) => unsigned_of(s, usize::MAX as nat),
        None => Some(DEFAULT_NUM_ACCOUNTS as nat),
    }
}

/// The first problem with the options, in the order they are looked at,
/// or `None` when the run can start.
pub open spec fn config_error(a: WorkloadArgs) -> Option<WorkloadError> {
    if a.targets is None {
        Some(WorkloadError::TargetsRequired)
    } else if rate_of(opt_view(a.target_rate)) is Err {
        Some(WorkloadError::Rate(rate_of(opt_view(a.target_rate))->Err_0))
    } else if a.workload is None {
        Some(WorkloadError::WorkloadRequired)
    } else if update_of(opt_view(a.update)) is None {
        Some(WorkloadError::UpdateUnparseable)
    } else if !explicit_seed_ok(opt_view(a.seed)) {
        Some(WorkloadError::SeedUnparseable)
    } else if !duration_ok(opt_view(a.duration)) {
        Some(WorkloadError::DurationUnparseable)
    } else if kind_of(a.workload->0@) is None {
        Some(WorkloadError::UnsupportedWorkload)
    } else if kind_of(a.workload->0@) == Some(WorkloadKind::Smallbank) && accounts_of(
        opt_view(a.smallbank_num_accounts),
    ) is None {
        Some(WorkloadError::AccountsUnparseable)
    } else {
        None
    }
}

pub open spec fn label_prefix(kind: WorkloadKind) -> Seq<char> {
    match kind {
        WorkloadKind::Command => "Command-Workload-"@,
        WorkloadKind::Smallbank => "Smallbank-Workload-"@,
    }
}

/// The label of the `i`-th worker and of its request counter.
pub open spec fn worker_label(kind: WorkloadKind, i: nat) -> Seq<char> {
    label_prefix(kind) + decimal(i)
}

/// `w` is the `i`-th worker of a run of `kind` at `rate` against `target`.
pub open spec fn worker_fits(
    w: WorkerPlan,
    i: nat,
    kind: WorkloadKind,
    rate: RateSpec,
    target: Seq<char>,
) -> bool {
    &&& w.id@ == worker_label(kind, i)
    &&& strings_view(w.targets@) == split_on(target, ';')
    &&& w.time_to_wait_micros > 0
    &&& rate.max.spec_interval_micros() <= w.time_to_wait_micros
    &&& w.time_to_wait_micros <= rate.min.spec_interval_micros()
    &&& rate.is_fixed() ==> w.time_to_wait_micros == rate.min.spec_interval_micros()
}

/// Builds the label of the `i`-th worker (see `worker_label`).
pub fn make_worker_label(kind: WorkloadKind, i: usize) -> (r: String)
    ensures
        r@ == worker_label(kind, i as nat),
{
    let mut s = match kind {
        WorkloadKind::Command => String::from_str("Command-Workload-"),
        WorkloadKind::Smallbank => String::from_str("Smallbank-Workload-"),
    };
    push_decimal(&mut s, i);
    s
}

/// Reads the workload kind (see `kind_of`).
pub fn parse_kind(s: &str) -> (r: Option<WorkloadKind>)
    ensures
        r == kind_of(s@),
{
    if same_text(s, "command") {
        Some(WorkloadKind::Command)
    } else if same_text(s, "smallbank") {
        Some(WorkloadKind::Smallbank)
    } else {
        None
    }
}

impl WorkloadAction {
    /// Checks the options and plans the run: one worker per target, whose
    /// pace is the single rate or, for a range, one drawn for that worker
    /// alone. Without a seed option the seed is drawn.
    pub fn plan(&self, args: &WorkloadArgs, rng: &mut StdRng) -> (r: Result<
        WorkloadPlan,
        WorkloadError,
    >)
        ensures
            r matches Err(e) ==> config_error(*args) == Some(e),
            r is Ok <==> config_error(*args) is None,
            r matches Ok(p) ==> {
                let targets = args.targets->0@;
                &&& p.kind == kind_of(args.workload->0@)->0
                &&& p.rate == rate_of(opt_view(args.target_rate))->Ok_0
                &&& p.rate.wf()
                &&& p.update_secs == update_of(opt_view(args.update))->0
                &&& (args.seed is Some ==> p.seed == unsigned_of(args.seed->0@, u64::MAX as nat)->0)
                &&& p.duration == duration_of(opt_view(args.duration))
                &&& (p.kind == WorkloadKind::Smallbank ==> p.num_accounts == Some(
                    accounts_of(opt_view(args.smallbank_num_accounts))->0 as usize,
                ))
                &&& (p.kind == WorkloadKind::Command ==> p.num_accounts is None)
                &&& p.get_batch_status == (p.kind == WorkloadKind::Command)
                &&& p.workers@.len() == targets.len()
                &&& forall|i: int|
                    0 <= i < targets.len() ==> worker_fits(
                        #[trigger] p.workers@[i],
                        i as nat,
                        p.kind,
                        p.rate,
                        targets[i]@,
                    )
            },
    {
        let targets = match &args.targets {
            Some(t) => t,
            None => return Err(WorkloadError::TargetsRequired),
        };
        let rate_arg: Option<&str> = match &args.target_rate {
            Some(s) => Some(s.as_str()),
            None => None,
        };
        let rate = match parse_target_rate(rate_arg) {
            Ok(r) => r,
            Err(e) => return Err(WorkloadError::Rate(e)),
        };
        let workload = match &args.workload {
            Some(w) => w,
            None => return Err(WorkloadError::WorkloadRequired),
        };
        let update_secs: u32 = match &args.update {
            Some(s) => match parse_unsigned(s.as_str(), u32::MAX as u64) {
                Some(v) => v as u32,
                None => return Err(WorkloadError::UpdateUnparseable),
            },
            None => DEFAULT_LOG_TIME_SECS,
        };
        let seed: u64 = match &args.seed {
            Some(s) => match parse_unsigned(s.as_str(), u64::MAX) {
                Some(v) => v,
                None => return Err(WorkloadError::SeedUnparseable),
            },
            None => draw_seed(rng),
        };
        let duration: Option<Time> = match &args.duration {
            Some(s) => match Time::make_duration_type_time(s.as_str()) {
                Some(t) => Some(t),
                None => return Err(WorkloadError::DurationUnparseable),
            },
            None => None,
        };
        let kind = match parse_kind(workload.as_str()) {
            Some(k) => k,
            None => return Err(WorkloadError::UnsupportedWorkload),
        };
        let num_accounts: Option<usize> = match kind {
            WorkloadKind::Smallbank => match &args.smallbank_num_accounts {
                Some(s) => match parse_unsigned(s.as_str(), usize::MAX as u64) {
                    Some(v) => Some(v as usize),
                    None => return Err(WorkloadError::AccountsUnparseable),
                },
                None => Some(DEFAULT_NUM_ACCOUNTS),
            },
            WorkloadKind::Command => None,
        };
        let mut workers: Vec<WorkerPlan> = Vec::new();
        let mut i: usize = 0;
        while i < targets.len()
            invariant
                i <= targets@.len(),
                rate.wf(),
                workers@.len() == i,
                forall|j: int|
                    0 <= j < i ==> worker_fits(
                        #[trigger] workers@[j],
                        j as nat,
                        kind,
                        rate,
                        targets@[j]@,
                    ),
            decreases targets@.len() - i,
        {
            let addresses = split_text(targets[i].as_str(), ';');
            let id = make_worker_label(kind, i);
            let wait = rate.sample_interval(rng);
            workers.push(WorkerPlan { id, targets: addresses, time_to_wait_micros: wait });
            i = i + 1;
        }
        let get_batch_status = match kind {
            WorkloadKind::Command => true,
            WorkloadKind::Smallbank => false,
        };
        Ok(
            WorkloadPlan {
                kind,
                rate,
                update_secs,
                seed,
                duration,
                num_accounts,
                get_batch_status,
                workers,
            },
        )
    }
}

} // verus!
