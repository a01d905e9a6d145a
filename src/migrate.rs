//! Finds the processes that run a given program and pins them to a fixed set
//! of cores.
//!
//! The caller lists the process table ([`ProcEntry`]); [`Migrate::new`]
//! picks the matching processes out of it. [`Migrate::setting`] checks the
//! core set and hands back an [`AffinityRun`], which says for which process
//! to make the affinity call next and is told how each call went.

use vstd::prelude::*;
use vstd::slice::slice_subrange;
use vstd::utf8::{valid_utf8, decode_utf8};
use crate::decimal::{chars_of, parse_i32, parse_i32_spec};

verus! {

/// Process id used when no process matches: init.
pub const FALLBACK_PID: i32 = 1;

/// Cores that the pinned processes may run on: `0..=LAST_TARGET_CPU`.
pub const LAST_TARGET_CPU: usize = 6;

/// What `str::trim` returns for a string.
pub uninterp spec fn trim_of(s: Seq<char>) -> Seq<char>;

/// `p` is a contiguous piece of `s`.
pub open spec fn is_piece_of(p: Seq<char>, s: Seq<char>) -> bool {
    exists|i: int, j: int| 0 <= i <= j <= s.len() && p == s.subrange(i, j)
}

/// Relies on `std::str::from_utf8`: it succeeds exactly on valid UTF-8 and
/// then views the same bytes as text.
#[verifier::external_body]
fn utf8_text(b: &[u8]) -> (r: Option<&str>)
    ensures
        r is Some <==> valid_utf8(b@),
        r matches Some(s) ==> s@ == decode_utf8(b@),
{
    std::str::from_utf8(b).ok()
}

/// Relies on `str::trim`: leading and trailing white space removed, so the
/// result is a contiguous piece of `s`; it depends on the characters alone.
#[verifier::external_body]
fn trim_text(s: &str) -> (r: &str)
    ensures
        r@ == trim_of(s@),
        is_piece_of(r@, s@),
{
    s.trim()
}

/// Relies on `libc::CPU_SETSIZE`: the number of cores that a `cpu_set_t`
/// holds on the target, a constant that is at least 32 on every target that
/// libc defines it for.
#[verifier::external_body]
fn cpu_set_size() -> (r: usize)
    ensures
        r >= 32,
{
    libc::CPU_SETSIZE as usize
}

/// One entry of the process table: the directory's name and, when it could
/// be read, the raw command line.
pub struct ProcEntry {
    pub name: String,
    pub cmdline: Option<Vec<u8>>,
}

/// `i` is the position of the first NUL byte of `b`.
pub open spec fn is_first_nul(b: Seq<u8>, i: int) -> bool {
    0 <= i < b.len() && b[i] == 0 && forall|j: int| 0 <= j < i ==> b[j] != 0
}

/// The bytes before the first NUL, if `b` holds one.
pub open spec fn first_field(b: Seq<u8>) -> Option<Seq<u8>> {
    if exists|i: int| is_first_nul(b, i) {
        Some(b.take(choose|i: int| is_first_nul(b, i)))
    } else {
        None
    }
}

/// The program name of a command line: its first NUL-terminated field, as
/// UTF-8 text, trimmed.
pub open spec fn process_name_spec(cmdline: Seq<u8>) -> Option<Seq<char>> {
    match first_field(cmdline) {
        Some(f) => if valid_utf8(f) {
            Some(trim_of(decode_utf8(f)))
        } else {
            None
        },
        None => None,
    }
}

/// Whether `name` is exactly `target`.
pub open spec fn name_matches_spec(name: Option<Seq<char>>, target: Seq<char>) -> bool {
    name == Some(target)
}

/// The process id of an entry that runs `target`.
pub open spec fn entry_pid(e: ProcEntry, target: Seq<char>) -> Option<i32> {
    match (parse_i32_spec(e.name@), e.cmdline) {
        (Some(pid), Some(b)) => if name_matches_spec(process_name_spec(b@), target) {
            Some(pid)
        } else {
            None
        },
        _ => None,
    }
}

/// The process ids of the entries that run `target`, in table order.
pub open spec fn matched_pids(table: Seq<ProcEntry>, target: Seq<char>) -> Seq<i32>
    decreases table.len(),
{
    if table.len() == 0 {
        Seq::empty()
    } else {
        let rest = matched_pids(table.drop_last(), target);
        match entry_pid(table.last(), target) {
            Some(pid) => rest.push(pid),
            None => rest,
        }
    }
}

/// The processes to pin: those found, or init alone when none was.
pub open spec fn discovered(found: Seq<i32>) -> Seq<i32> {
    if found.len() == 0 {
        seq![FALLBACK_PID]
    } else {
        found
    }
}

proof fn lemma_first_nul_unique(b: Seq<u8>, i: int, k: int)
    requires
        is_first_nul(b, i),
        is_first_nul(b, k),
    ensures
        i == k,
{
    if i < k {
        assert(b[i] != 0);
    } else if k < i {
        assert(b[k] != 0);
    }
}

/// The program name of a raw command line: the bytes up to the first NUL,
/// read as UTF-8 and trimmed. `None` when there is no NUL or the bytes are
/// not UTF-8.
pub fn process_name(cmdline: &[u8]) -> (r: Option<String>)
    ensures
        r matches Some(s) ==> process_name_spec(cmdline@) == Some(s@),
        r matches Some(s) ==> (first_field(cmdline@) matches Some(f) && is_piece_of(
            s@,
            decode_utf8(f),
        )),
        r is None ==> process_name_spec(cmdline@) is None,
{
    let mut i: usize = 0;
    while i < cmdline.len()
        invariant
            i <= cmdline@.len(),
            forall|j: int| 0 <= j < i ==> cmdline@[j] != 0,
        decreases cmdline@.len() - i,
    {
        if cmdline[i] == 0 {
            proof {
                assert(is_first_nul(cmdline@, i as int));
                let k = choose|k: int| is_first_nul(cmdline@, k);
                lemma_first_nul_unique(cmdline@, i as int, k);
                assert(cmdline@.subrange(0, i as int) =~= cmdline@.take(i as int));
            }
            let field = slice_subrange(cmdline, 0, i);
            return match utf8_text(field) {
                Some(text) => Some(String::from_str(trim_text(text))),
                None => None,
            };
        }
        i = i + 1;
    }
    proof {
        assert forall|k: int| !is_first_nul(cmdline@, k) by {
            if 0 <= k < cmdline@.len() {
                assert(cmdline@[k] != 0);
            }
        }
    }
    None
}

/// Whether a program name read from a command line is exactly `target`.
pub fn name_matches(name: &Option<String>, target: &str) -> (r: bool)
    ensures
        r == name_matches_spec(
            match name {
                Some(s) => Some(s@),
                None => None,
            },
            target@,
        ),
{
    match name {
        Some(s) => {
            let t = String::from_str(target);
            *s == t
        },
        None => false,
    }
}

/// The process ids of the table's entries whose directory name is a process
/// id and whose command line names the program `target_name`, in table
/// order. Entries whose command line could not be read are skipped.
pub fn get_pids_by_process_name(table: &Vec<ProcEntry>, target_name: &str) -> (r: Vec<i32>)
    ensures
        r@ == matched_pids(table@, target_name@),
{
    let mut pids: Vec<i32> = Vec::new();
    let mut i: usize = 0;
    while i < table.len()
        invariant
            i <= table@.len(),
            pids@ == matched_pids(table@.take(i as int), target_name@),
        decreases table@.len() - i,
    {
        let entry = &table[i];
        proof {
            assert(table@.take(i + 1).drop_last() =~= table@.take(i as int));
            assert(table@.take(i + 1).last() == table@[i as int]);
        }
        let name_chars = chars_of(entry.name.as_str());
        match parse_i32(&name_chars) {
            Some(pid) => {
                match &entry.cmdline {
                    Some(b) => {
                        let name = process_name(b.as_slice());
                        if name_matches(&name, target_name) {
                            pids.push(pid);
                        }
                    },
                    None => {},
                }
            },
            None => {},
        }
        i = i + 1;
    }
    proof {
        assert(table@.take(i as int) =~= table@);
    }
    pids
}

/// The processes that run one program, found in a process table.
#[derive(Debug)]
pub struct Migrate {
    pids: Vec<i32>,
    fallback: bool,
}

impl Migrate {
    pub closed spec fn pids_view(&self) -> Seq<i32> {
        self.pids@
    }

    pub closed spec fn fallback_view(&self) -> bool {
        self.fallback
    }

    /// Finds the processes of `table` that run `topapp`; when there is none,
    /// init stands in for them.
    pub fn new(topapp: &str, table: &Vec<ProcEntry>) -> (r: Migrate)
        ensures
            r.pids_view() == discovered(matched_pids(table@, topapp@)),
            r.fallback_view() == (matched_pids(table@, topapp@).len() == 0),
    {
        let found = get_pids_by_process_name(table, topapp);
        if found.len() == 0 {
            let mut pids: Vec<i32> = Vec::new();
            pids.push(FALLBACK_PID);
            Migrate { pids, fallback: true }
        } else {
            Migrate { pids: found, fallback: false }
        }
    }

    /// The processes found, in table order.
    pub fn pids(&self) -> (r: &Vec<i32>)
        ensures
            r@ == self.pids_view(),
    {
        &self.pids
    }

    /// Whether no process matched, so that init stands in for them.
    pub fn is_fallback(&self) -> (r: bool)
        ensures
            r == self.fallback_view(),
    {
        self.fallback
    }

    /// Starts pinning the processes found to cores `0..=LAST_TARGET_CPU`,
    /// once that core set has been checked against the size of the kernel's
    /// core set, which always holds it.
    pub fn setting(&self) -> (r: Result<AffinityRun, AffinityError>)
        ensures
            r is Ok,
            r matches Ok(run) ==> run.pids_view() == self.pids_view() && run.cpus_view()
                == target_cpus_spec() && run.next_view() == 0 && !run.failed_view(),
    {
        let limit = cpu_set_size();
        AffinityRun::start(self.pids.clone(), target_cpus(), limit)
    }
}

/// The cores that pinned processes may run on.
pub open spec fn target_cpus_spec() -> Seq<usize> {
    Seq::new((LAST_TARGET_CPU + 1) as nat, |i: int| i as usize)
}

/// The cores `0..=LAST_TARGET_CPU`, in order.
pub fn target_cpus() -> (r: Vec<usize>)
    ensures
        r@ == target_cpus_spec(),
{
    let mut v: Vec<usize> = Vec::new();
    let mut c: usize = 0;
    while c <= LAST_TARGET_CPU
        invariant
            c <= LAST_TARGET_CPU + 1,
            v@ == Seq::new(c as nat, |i: int| i as usize),
        decreases LAST_TARGET_CPU + 1 - c,
    {
        v.push(c);
        c = c + 1;
        proof {
            assert(v@ =~= Seq::new(c as nat, |i: int| i as usize));
        }
    }
    v
}

/// Why an affinity change was refused before any call was made.
#[derive(Clone, Copy, Debug, PartialEq, Eq, Structural)]
pub enum AffinityError {
    /// A core index is not below the size of the kernel's core set.
    CpuOutOfRange { cpu: usize, limit: usize },
}

/// The first position of `cpus` whose core is not below `limit`.
pub open spec fn is_first_out_of_range(cpus: Seq<usize>, limit: usize, i: int) -> bool {
    0 <= i < cpus.len() && cpus[i] >= limit && forall|j: int| 0 <= j < i ==> cpus[j] < limit
}

/// Checks that every core of `cpus` is below `limit`; the error names the
/// first one that is not.
pub fn check_cpus(cpus: &Vec<usize>, limit: usize) -> (r: Result<(), AffinityError>)
    ensures
        r is Ok <==> forall|i: int| 0 <= i < cpus@.len() ==> cpus@[i] < limit,
        r matches Err(AffinityError::CpuOutOfRange { cpu, limit: l }) ==> l == limit && exists|
            i: int,
        | is_first_out_of_range(cpus@, limit, i) && cpus@[i] == cpu,
{
    let mut i: usize = 0;
    while i < cpus.len()
        invariant
            i <= cpus@.len(),
            forall|j: int| 0 <= j < i ==> cpus@[j] < limit,
        decreases cpus@.len() - i,
    {
        if cpus[i] >= limit {
            proof {
                assert(is_first_out_of_range(cpus@, limit, i as int));
            }
            return Err(AffinityError::CpuOutOfRange { cpu: cpus[i], limit });
        }
        i = i + 1;
    }
    Ok(())
}

/// What the caller is to do next while pinning processes.
#[derive(Clone, Copy, Debug, PartialEq, Eq, Structural)]
pub enum AffinityAction {
    /// Make the affinity call for this process.
    Apply(i32),
    /// Every call succeeded.
    Finished,
    /// The call for this process failed; the processes after it were left
    /// as they were.
    Halted(i32),
}

pub open spec fn run_action(pids: Seq<i32>, next: int, failed: bool) -> AffinityAction {
    if failed {
        AffinityAction::Halted(pids[next])
    } else if next < pids.len() {
        AffinityAction::Apply(pids[next])
    } else {
        AffinityAction::Finished
    }
}

/// The actions asked for when the calls' outcomes are taken from `outcomes`
/// in turn, from the process at `next` on, up to a final action or the last
/// outcome.
pub open spec fn run_actions(pids: Seq<i32>, next: int, outcomes: Seq<bool>) -> Seq<AffinityAction>
    decreases outcomes.len(),
{
    let a = run_action(pids, next, false);
    if !(a is Apply) {
        seq![a]
    } else if outcomes.len() == 0 {
        seq![a]
    } else if !outcomes[0] {
        seq![a, run_action(pids, next, true)]
    } else {
        seq![a] + run_actions(pids, next + 1, outcomes.drop_first())
    }
}

/// The calls for `pids`, as actions.
pub open spec fn applies(pids: Seq<i32>) -> Seq<AffinityAction> {
    pids.map_values(|p: i32| AffinityAction::Apply(p))
}

/// Pinning processes to a checked core set, in progress.
pub struct AffinityRun {
    pids: Vec<i32>,
    cpus: Vec<usize>,
    next: usize,
    failed: bool,
}

impl AffinityRun {
    pub closed spec fn pids_view(&self) -> Seq<i32> {
        self.pids@
    }

    pub closed spec fn cpus_view(&self) -> Seq<usize> {
        self.cpus@
    }

    pub closed spec fn next_view(&self) -> int {
        self.next as int
    }

    pub closed spec fn failed_view(&self) -> bool {
        self.failed
    }

    #[verifier::type_invariant]
    spec fn wf(&self) -> bool {
        self.next <= self.pids@.len() && (self.failed ==> self.next < self.pids@.len())
    }

    /// Starts pinning `pids` to `cpus`, once every core of `cpus` has been
    /// found below `limit`, the size of the kernel's core set. Otherwise no
    /// run exists, and so no call is made.
    pub fn start(pids: Vec<i32>, cpus: Vec<usize>, limit: usize) -> (r: Result<AffinityRun, AffinityError>)
        ensures
            r is Ok <==> forall|i: int| 0 <= i < cpus@.len() ==> cpus@[i] < limit,
            r matches Err(AffinityError::CpuOutOfRange { cpu, limit: l }) ==> l == limit && exists|
                i: int,
            | is_first_out_of_range(cpus@, limit, i) && cpus@[i] == cpu,
            r matches Ok(run) ==> run.pids_view() == pids@ && run.cpus_view() == cpus@
                && run.next_view() == 0 && !run.failed_view(),
    {
        match check_cpus(&cpus, limit) {
            Ok(()) => Ok(AffinityRun { pids, cpus, next: 0, failed: false }),
            Err(e) => Err(e),
        }
    }

    /// The processes to pin, in the order of the calls.
    pub fn pids(&self) -> (r: &Vec<i32>)
        ensures
            r@ == self.pids_view(),
    {
        &self.pids
    }

    /// The cores that the processes are pinned to.
    pub fn cpus(&self) -> (r: &Vec<usize>)
        ensures
            r@ == self.cpus_view(),
    {
        &self.cpus
    }

    /// The call to make next, or the outcome once there is none.
    pub fn action(&self) -> (r: AffinityAction)
        ensures
            r == run_action(self.pids_view(), self.next_view(), self.failed_view()),
    {
        proof {
            use_type_invariant(self);
        }
        if self.failed {
            AffinityAction::Halted(self.pids[self.next])
        } else if self.next < self.pids.len() {
            AffinityAction::Apply(self.pids[self.next])
        } else {
            AffinityAction::Finished
        }
    }

    /// Records whether the call that `action` asked for succeeded. A failed
    /// call ends the run; once the run is over this changes nothing.
    pub fn record(&mut self, ok: bool)
        ensures
            final(self).pids_view() == old(self).pids_view(),
            final(self).cpus_view() == old(self).cpus_view(),
            run_action(old(self).pids_view(), old(self).next_view(), old(self).failed_view()) is Apply
                ==> if ok {
                final(self).next_view() == old(self).next_view() + 1 && !final(self).failed_view()
            } else {
                final(self).next_view() == old(self).next_view() && final(self).failed_view()
            },
            !(run_action(old(self).pids_view(), old(self).next_view(), old(self).failed_view()) is Apply)
                ==> final(self).next_view() == old(self).next_view() && final(self).failed_view()
                == old(self).failed_view(),
    {
        proof {
            use_type_invariant(&*self);
        }
        if !self.failed && self.next < self.pids.len() {
            if ok {
                self.next = self.next + 1;
            } else {
                self.failed = true;
            }
        }
    }
}

proof fn lemma_run_all_ok(pids: Seq<i32>, next: int, outcomes: Seq<bool>)
    requires
        0 <= next <= pids.len(),
        outcomes.len() >= pids.len() - next,
        forall|j: int| 0 <= j < pids.len() - next ==> outcomes[j],
    ensures
        run_actions(pids, next, outcomes) == applies(pids.skip(next)) + seq![
            AffinityAction::Finished,
        ],
    decreases pids.len() - next,
{
    if next == pids.len() {
        assert(applies(pids.skip(next)) =~= Seq::<AffinityAction>::empty());
        assert(run_actions(pids, next, outcomes) =~= seq![AffinityAction::Finished]);
    } else {
        let rest = outcomes.drop_first();
        assert forall|j: int| 0 <= j < pids.len() - (next + 1) implies rest[j] by {
            assert(outcomes[j + 1]);
        }
        lemma_run_all_ok(pids, next + 1, rest);
        assert(outcomes[0]);
        assert(applies(pids.skip(next)) =~= seq![AffinityAction::Apply(pids[next])] + applies(
            pids.skip(next + 1),
        ));
        assert(run_actions(pids, next, outcomes) =~= applies(pids.skip(next)) + seq![
            AffinityAction::Finished,
        ]);
    }
}

proof fn lemma_run_halts(pids: Seq<i32>, next: int, outcomes: Seq<bool>, f: int)
    requires
        0 <= next,
        0 <= f < pids.len() - next,
        f < outcomes.len(),
        !outcomes[f],
        forall|j: int| 0 <= j < f ==> outcomes[j],
    ensures
        run_actions(pids, next, outcomes) == applies(pids.subrange(next, next + f + 1)) + seq![
            AffinityAction::Halted(pids[next + f]),
        ],
    decreases f,
{
    if f == 0 {
        assert(applies(pids.subrange(next, next + 1)) =~= seq![AffinityAction::Apply(pids[next])]);
        assert(run_actions(pids, next, outcomes) =~= applies(pids.subrange(next, next + 1)) + seq![
            AffinityAction::Halted(pids[next]),
        ]);
    } else {
        let rest = outcomes.drop_first();
        assert(outcomes[0]);
        assert forall|j: int| 0 <= j < f - 1 implies rest[j] by {
            assert(outcomes[j + 1]);
        }
        lemma_run_halts(pids, next + 1, rest, f - 1);
        assert(applies(pids.subrange(next, next + f + 1)) =~= seq![
            AffinityAction::Apply(pids[next]),
        ] + applies(pids.subrange(next + 1, next + f + 1)));
        assert(run_actions(pids, next, outcomes) =~= applies(pids.subrange(next, next + f + 1))
            + seq![AffinityAction::Halted(pids[next + f])]);
    }
}

/// The run that `setting` starts asks for one affinity call per process
/// found, each on cores `0..=LAST_TARGET_CPU`, in list order: it ends after
/// the last process when every call succeeds, and halts right after the
/// first failed call otherwise, so that no later process is tried.
pub proof fn lemma_setting_calls_in_list_order(m: &Migrate, run: &AffinityRun, outcomes: Seq<bool>)
    requires
        run.pids_view() == m.pids_view(),
        run.cpus_view() == target_cpus_spec(),
        run.next_view() == 0,
        !run.failed_view(),
        outcomes.len() >= m.pids_view().len(),
    ensures
        run.cpus_view() == Seq::new(7, |i: int| i as usize),
        (forall|j: int| 0 <= j < m.pids_view().len() ==> outcomes[j]) ==> run_actions(
            run.pids_view(),
            run.next_view(),
            outcomes,
        ) == applies(m.pids_view()) + seq![AffinityAction::Finished],
        forall|f: int|
            0 <= f < m.pids_view().len() && !outcomes[f] && (forall|j: int|
                0 <= j < f ==> outcomes[j]) ==> run_actions(run.pids_view(), run.next_view(), outcomes)
                == applies(m.pids_view().take(f + 1)) + seq![
                AffinityAction::Halted(m.pids_view()[f]),
            ],
{
    lemma_calls_in_list_order(m.pids_view(), outcomes);
}

/// Starting from the first process, one affinity call is asked for per
/// process, in list order, as long as the calls succeed: when every call
/// succeeds the run ends after the last process; when the call at position
/// `f` is the first to fail, the run halts there and no process after it is
/// tried.
pub proof fn lemma_calls_in_list_order(pids: Seq<i32>, outcomes: Seq<bool>)
    requires
        outcomes.len() >= pids.len(),
    ensures
        (forall|j: int| 0 <= j < pids.len() ==> outcomes[j]) ==> run_actions(pids, 0, outcomes)
            == applies(pids) + seq![AffinityAction::Finished],
        forall|f: int|
            0 <= f < pids.len() && !outcomes[f] && (forall|j: int| 0 <= j < f ==> outcomes[j])
                ==> run_actions(pids, 0, outcomes) == applies(pids.take(f + 1)) + seq![
                AffinityAction::Halted(pids[f]),
            ],
{
    if forall|j: int| 0 <= j < pids.len() ==> outcomes[j] {
        lemma_run_all_ok(pids, 0, outcomes);
        assert(pids.skip(0) =~= pids);
    }
    assert forall|f: int|
        0 <= f < pids.len() && !outcomes[f] && (forall|j: int| 0 <= j < f ==> outcomes[j])
            implies run_actions(pids, 0, outcomes) == applies(pids.take(f + 1)) + seq![
            AffinityAction::Halted(pids[f]),
        ] by {
        lemma_run_halts(pids, 0, outcomes, f);
        assert(pids.subrange(0, f + 1) =~= pids.take(f + 1));
    }
}

} // verus!
