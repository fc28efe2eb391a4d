use vstd::prelude::*;

verus! {

/// The most worker threads that are chosen without an explicit request.
pub const MAX_AUTO_THREADS: usize = 6;

/// How many processed guests lie between two progress lines.
pub const PROGRESS_INTERVAL: usize = 100;

/// The options of one run.
#[derive(Debug)]
pub struct Args {
    /// Convert for real; without it the run is a dry run.
    pub migrate: bool,
    /// Convert even where the target file exists.
    pub force: bool,
    /// The number of worker threads asked for.
    pub threads: Option<usize>,
    /// Source base directory, where not the default.
    pub source: Option<String>,
    /// Target base directory, where not the default.
    pub target: Option<String>,
    /// Directory of the resource lists, where not the default.
    pub resources: Option<String>,
}

/// The number of worker threads for a machine with `cpus` processors: a
/// quarter of them, at least one and at most `MAX_AUTO_THREADS`.
pub open spec fn auto_threads(cpus: nat) -> nat {
    if cpus < 4 {
        1
    } else if cpus < 4 * MAX_AUTO_THREADS {
        cpus / 4
    } else {
        MAX_AUTO_THREADS as nat
    }
}

/// The number of worker threads to use: the one asked for, whatever it is,
/// else the one that fits the machine.
pub open spec fn chosen_threads(requested: Option<usize>, cpus: nat) -> nat {
    match requested {
        Some(threads) => threads as nat,
        None => auto_threads(cpus),
    }
}

/// The number of worker threads for this run, on a machine with `cpus`
/// processors.
pub fn set_threads(args: &Args, cpus: usize) -> (threads: usize)
    ensures
        threads == chosen_threads(args.threads, cpus as nat),
        args.threads.is_none() ==> 1 <= threads <= MAX_AUTO_THREADS,
{
    if let Some(threads) = args.threads {
        return threads;
    }
    if cpus < MAX_AUTO_THREADS * 4 {
        let threads: usize = cpus / 4;
        if threads == 0 {
            return 1;
        }
        return threads;
    }
    MAX_AUTO_THREADS
}

/// What to do with one source file.
#[derive(Clone, Copy, Debug, PartialEq, Eq, Structural)]
pub enum MigrationStep {
    /// Convert it into the target file.
    Convert,
    /// Leave it: this is a dry run.
    SkipDryRun,
    /// Leave it: the target exists and overwriting was not asked for.
    RefuseExisting,
}

/// What to do with a source file, given whether its target exists. A dry run
/// converts nothing; a real run converts unless the target exists and `force`
/// is not set.
pub open spec fn migration_step(target_exists: bool, migrate: bool, force: bool) -> MigrationStep {
    if !migrate {
        MigrationStep::SkipDryRun
    } else if target_exists && !force {
        MigrationStep::RefuseExisting
    } else {
        MigrationStep::Convert
    }
}

/// Decides what to do with one source file.
pub fn plan_migration(target_exists: bool, migrate: bool, force: bool) -> (step: MigrationStep)
    ensures
        step == migration_step(target_exists, migrate, force),
{
    if !migrate {
        MigrationStep::SkipDryRun
    } else if target_exists && !force {
        MigrationStep::RefuseExisting
    } else {
        MigrationStep::Convert
    }
}

/// Whether the user is told that the target was migrated before: it exists
/// and will not be overwritten. This is said in a dry run too.
pub fn already_migrated(target_exists: bool, force: bool) -> (notice: bool)
    ensures
        notice == (target_exists && !force),
{
    target_exists && !force
}

/// Whether a progress line is due after `done` guests: at every full
/// `PROGRESS_INTERVAL`, not at zero.
pub fn progress_due(done: usize) -> (due: bool)
    ensures
        due == (done > 0 && done % PROGRESS_INTERVAL == 0),
{
    done > 0 && done % PROGRESS_INTERVAL == 0
}

/// The byte `"`.
pub const QUOTE: u8 = 0x22;

/// `name` between two double quotes, as a resource list writes it.
pub open spec fn quoted(name: Seq<u8>) -> Seq<u8> {
    seq![QUOTE] + name + seq![QUOTE]
}

/// Whether `needle` stands in `hay` at offset `at`.
pub open spec fn occurs_at(hay: Seq<u8>, needle: Seq<u8>, at: int) -> bool {
    &&& 0 <= at
    &&& at + needle.len() <= hay.len()
    &&& hay.subrange(at, at + needle.len()) == needle
}

/// Whether `needle` stands somewhere in `hay`.
pub open spec fn occurs(hay: Seq<u8>, needle: Seq<u8>) -> bool {
    exists|at: int| occurs_at(hay, needle, at)
}

/// Whether the quoted `name` stands in `hay` at offset `at`, read byte by
/// byte.
pub open spec fn quoted_at(hay: Seq<u8>, name: Seq<u8>, at: int) -> bool {
    &&& 0 <= at
    &&& at + name.len() + 2 <= hay.len()
    &&& hay[at] == QUOTE
    &&& forall|k: int| 0 <= k < name.len() ==> hay[at + 1 + k] == name[k]
    &&& hay[at + 1 + name.len()] == QUOTE
}

/// Reading byte by byte finds exactly the occurrences of the quoted name.
pub proof fn lemma_quoted_at(hay: Seq<u8>, name: Seq<u8>, at: int)
    ensures
        quoted_at(hay, name, at) == occurs_at(hay, quoted(name), at),
{
    let q = quoted(name);
    let n = name.len() as int;
    assert(q.len() == n + 2);
    assert(q[0] == QUOTE);
    assert(q[n + 1] == QUOTE);
    assert forall|k: int| 0 <= k < name.len() implies q[1 + k] == name[k] by {}
    if 0 <= at && at + q.len() <= hay.len() {
        let part = hay.subrange(at, at + q.len());
        if quoted_at(hay, name, at) {
            assert forall|j: int| 0 <= j < q.len() implies part[j] == q[j] by {
                if 0 < j && j <= name.len() {
                    assert(hay[at + 1 + (j - 1)] == name[j - 1]);
                }
            }
            assert(part =~= q);
        }
        if part == q {
            assert(part[0] == q[0]);
            assert(part[n + 1] == q[n + 1]);
            assert forall|k: int| 0 <= k < name.len() implies hay[at + 1 + k] == name[k] by {
                assert(part[1 + k] == q[1 + k]);
            }
        }
    }
}

/// Whether the quoted `name` stands in `list` at offset `at`.
fn quoted_name_at(list: &[u8], name: &[u8], at: usize) -> (found: bool)
    requires
        at + name@.len() + 2 <= list@.len(),
    ensures
        found == quoted_at(list@, name@, at as int),
{
    if list[at] != QUOTE || list[at + 1 + name.len()] != QUOTE {
        return false;
    }
    let mut k: usize = 0;
    while k < name.len()
        invariant
            k <= name@.len(),
            at + name@.len() + 2 <= list@.len() <= usize::MAX,
            forall|j: int| 0 <= j < k ==> list@[at + 1 + j] == name@[j],
        decreases name@.len() - k,
    {
        if list[at + 1 + k] != name[k] {
            return false;
        }
        k += 1;
    }
    true
}

/// Whether a resource list names `resource`: whether the list holds the
/// resource's name between double quotes.
pub fn resource_present(list: &[u8], resource: &[u8]) -> (present: bool)
    ensures
        present == occurs(list@, quoted(resource@)),
{
    let ghost needle = quoted(resource@);
    if list.len() < 2 || resource.len() > list.len() - 2 {
        proof {
            assert forall|at: int| !occurs_at(list@, needle, at) by {}
        }
        return false;
    }
    let last: usize = list.len() - 2 - resource.len();
    let mut at: usize = 0;
    while at <= last
        invariant
            at <= last + 1,
            last + resource@.len() + 2 == list@.len() <= usize::MAX,
            needle == quoted(resource@),
            forall|j: int| 0 <= j < at ==> !occurs_at(list@, needle, j),
        decreases last + 1 - at,
    {
        proof {
            lemma_quoted_at(list@, resource@, at as int);
        }
        if quoted_name_at(list, resource, at) {
            assert(occurs_at(list@, needle, at as int));
            return true;
        }
        at += 1;
    }
    proof {
        assert forall|j: int| !occurs_at(list@, needle, j) by {}
    }
    false
}

} // verus!
