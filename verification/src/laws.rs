//! What holds of the accessors and of a walk whatever the host: stated over
//! the functions that their contracts use, and proved.

use crate::chain::{
    lemma_first_admitted, Host, KstatCtlView, KstatNamedView, KstatView, ANY_INSTANCE,
};
use crate::error::KstatError;
use crate::stats::{
    both_counts_of, clock_speed, first_yielding, lemma_first_yielding, missing, page_counts,
    spec_boot_time, spec_cpu_mhz, spec_nproc, spec_pages, system_misc, Pages, Target,
    MODULE_CPU_INFO, MODULE_UNIX, NAME_SYSTEM_MISC, NAME_SYSTEM_PAGES, STAT_BOOT_TIME,
    STAT_FREEMEM, STAT_NPROC, STAT_PHYSMEM,
};
use crate::value::lemma_readings_fit;
use crate::wrapper::Cursor;
use vstd::prelude::*;

verus! {

/// On a host whose facility cannot be opened every accessor fails with the
/// error that says so.
pub proof fn lemma_unavailable_host()
    ensures
        spec_cpu_mhz(None) == Err::<u64, KstatError>(KstatError::OpenFailed),
        spec_boot_time(None) == Err::<u64, KstatError>(KstatError::OpenFailed),
        spec_nproc(None) == Err::<u64, KstatError>(KstatError::OpenFailed),
        spec_pages(None) == Err::<Pages, KstatError>(KstatError::OpenFailed),
{
}

/// On a host whose facility opens, an accessor fails exactly when no group
/// of the chain yields what it looks for, and then with its own error.
pub proof fn lemma_missing_statistic(ctl: KstatCtlView)
    ensures
        spec_cpu_mhz(Some(ctl)) is Err <==> missing(ctl, clock_speed()),
        spec_cpu_mhz(Some(ctl)) matches Err(e) ==> e == KstatError::CpuSpeedNotFound,
        spec_boot_time(Some(ctl)) is Err <==> missing(ctl, system_misc(STAT_BOOT_TIME@)),
        spec_boot_time(Some(ctl)) matches Err(e) ==> e == KstatError::BootTimeNotFound,
        spec_nproc(Some(ctl)) is Err <==> missing(ctl, system_misc(STAT_NPROC@)),
        spec_nproc(Some(ctl)) matches Err(e) ==> e == KstatError::ProcessCountNotFound,
        spec_pages(Some(ctl)) is Err <==> missing(ctl, page_counts()),
        spec_pages(Some(ctl)) matches Err(e) ==> e == KstatError::SystemPagesNotAvailable,
{
    lemma_first_yielding(ctl.chain, 0, clock_speed());
    lemma_first_yielding(ctl.chain, 0, system_misc(STAT_BOOT_TIME@));
    lemma_first_yielding(ctl.chain, 0, system_misc(STAT_NPROC@));
    lemma_first_yielding(ctl.chain, 0, page_counts());
}

/// Whether group `j` of the chain lacks one of the two page counts.
pub open spec fn lacks_a_count(ctl: KstatCtlView, j: int) -> bool {
    ctl.chain[j].field(STAT_FREEMEM@) is None || ctl.chain[j].field(STAT_PHYSMEM@) is None
}

/// The page counts come both or not at all: a result holds the two counts
/// of one and the same group, and where there is no result every group of
/// memory page statistics lacks one of them.
pub proof fn lemma_pages_both_or_neither(ctl: KstatCtlView)
    ensures
        match spec_pages(Some(ctl)) {
            Ok(pages) => exists|j: int| both_counts_of(ctl, j, pages),
            Err(_) => forall|j: int|
                #![trigger ctl.chain[j]]
                0 <= j < ctl.chain.len() && ctl.chain[j].module == MODULE_UNIX@
                    && ctl.chain[j].name == NAME_SYSTEM_PAGES@ ==> lacks_a_count(ctl, j),
        },
{
    let target = page_counts();
    lemma_first_yielding(ctl.chain, 0, target);
    match spec_pages(Some(ctl)) {
        Ok(pages) => {
            let j = first_yielding(ctl.chain, 0, target)->0;
            lemma_readings_fit(ctl.chain[j].value(STAT_FREEMEM@), ctl.byte_order);
            lemma_readings_fit(ctl.chain[j].value(STAT_PHYSMEM@), ctl.byte_order);
            assert(both_counts_of(ctl, j, pages));
        },
        Err(_) => {},
    }
}

/// Calls are independent: an accessor's result depends on nothing but what
/// the host it is called on holds. Two hosts that hold the same give the
/// same results, whatever was called before and however often.
pub proof fn lemma_calls_are_independent(a: Host, b: Host)
    requires
        a@ == b@,
    ensures
        spec_cpu_mhz(a@) == spec_cpu_mhz(b@),
        spec_boot_time(a@) == spec_boot_time(b@),
        spec_nproc(a@) == spec_nproc(b@),
        spec_pages(a@) == spec_pages(b@),
{
}

/// The state of a walk after `n` further steps.
pub open spec fn after_steps(c: Cursor, n: nat) -> Cursor
    decreases n,
{
    if n == 0 {
        c
    } else {
        after_steps(c, (n - 1) as nat).step().0
    }
}

/// Each step that arrives at a group moves the walk one group on, until the
/// chain is used up; from then on the walk stays where it is.
proof fn lemma_after_steps(c: Cursor, n: nat)
    requires
        c.wf(),
    ensures
        after_steps(c, n).wf(),
        after_steps(c, n).ctl == c.ctl,
        n <= c.remaining() ==> after_steps(c, n).upcoming() == c.upcoming() + n,
        n > c.remaining() ==> after_steps(c, n).upcoming() == c.ctl.chain.len(),
    decreases n,
{
    if n > 0 {
        lemma_after_steps(c, (n - 1) as nat);
    }
}

/// A walk ends. From any state the steps that arrive at a group are the
/// first `remaining()` ones, which are no more than the chain has groups;
/// every step after those arrives at none.
pub proof fn lemma_walk_ends(c: Cursor)
    requires
        c.wf(),
    ensures
        c.remaining() <= c.ctl.chain.len(),
        forall|n: nat| #[trigger] after_steps(c, n).step().1 <==> n < c.remaining(),
{
    assert forall|n: nat| #[trigger] after_steps(c, n).step().1 <==> n < c.remaining() by {
        lemma_after_steps(c, n);
    }
}

/// A walk that starts at a lookup ends, whatever the filters: it arrives at
/// the group that the lookup found and at each one after it in the chain,
/// and then at none.
pub proof fn lemma_filtered_walk_ends(
    c: Cursor,
    module: Option<Seq<char>>,
    name: Option<Seq<char>>,
)
    ensures
        c.lookup(module, name).wf(),
        c.lookup(module, name).remaining() <= c.ctl.chain.len(),
        forall|n: nat| #[trigger]
            after_steps(c.lookup(module, name), n).step().1 <==> n < c.lookup(
                module,
                name,
            ).remaining(),
{
    lemma_first_admitted(c.ctl.chain, 0, module, ANY_INSTANCE, name);
    lemma_walk_ends(c.lookup(module, name));
}

/// The chain in which group `i` holds `data` in place of its own.
pub open spec fn with_data(
    ctl: KstatCtlView,
    i: int,
    data: Option<Seq<KstatNamedView>>,
) -> KstatCtlView {
    KstatCtlView {
        byte_order: ctl.byte_order,
        chain: ctl.chain.update(
            i,
            KstatView {
                module: ctl.chain[i].module,
                instance: ctl.chain[i].instance,
                name: ctl.chain[i].name,
                data,
            },
        ),
    }
}

/// Chains of one length whose groups yield alike have the same first
/// yielding group.
proof fn lemma_same_yields(a: Seq<KstatView>, b: Seq<KstatView>, from: int, target: Target)
    requires
        0 <= from,
        a.len() == b.len(),
        forall|i: int| 0 <= i < a.len() ==> (#[trigger] a[i]).yields(target) == b[i].yields(target),
    ensures
        first_yielding(a, from, target) == first_yielding(b, from, target),
    decreases a.len() - from,
{
    if from < a.len() {
        if !a[from].yields(target) {
            lemma_same_yields(a, b, from + 1, target);
        }
    }
}

/// What a group with another module or name holds does not bear on the
/// first yielding group.
proof fn lemma_mismatch_passed_over(
    ctl: KstatCtlView,
    i: int,
    data: Option<Seq<KstatNamedView>>,
    target: Target,
)
    requires
        0 <= i < ctl.chain.len(),
        ctl.chain[i].module != target.module || (target.name matches Some(n) && ctl.chain[i].name
            != n),
    ensures
        first_yielding(with_data(ctl, i, data).chain, 0, target) == first_yielding(
            ctl.chain,
            0,
            target,
        ),
        first_yielding(ctl.chain, 0, target) matches Some(j) ==> j != i && with_data(
            ctl,
            i,
            data,
        ).chain[j] == ctl.chain[j],
{
    let changed = with_data(ctl, i, data).chain;
    lemma_same_yields(changed, ctl.chain, 0, target);
    lemma_first_yielding(ctl.chain, 0, target);
}

/// Filtering is by equality of strings, to the letter. A group whose module
/// is not the one an accessor asks for, or whose name is not, is passed
/// over: whatever data it holds, the accessor's result is the same.
pub proof fn lemma_mismatch_is_skipped(
    ctl: KstatCtlView,
    i: int,
    data: Option<Seq<KstatNamedView>>,
)
    requires
        0 <= i < ctl.chain.len(),
    ensures
        ctl.chain[i].module != MODULE_CPU_INFO@ ==> spec_cpu_mhz(Some(with_data(ctl, i, data)))
            == spec_cpu_mhz(Some(ctl)),
        ctl.chain[i].module != MODULE_UNIX@ || ctl.chain[i].name != NAME_SYSTEM_MISC@ ==> {
            &&& spec_boot_time(Some(with_data(ctl, i, data))) == spec_boot_time(Some(ctl))
            &&& spec_nproc(Some(with_data(ctl, i, data))) == spec_nproc(Some(ctl))
        },
        ctl.chain[i].module != MODULE_UNIX@ || ctl.chain[i].name != NAME_SYSTEM_PAGES@
            ==> spec_pages(Some(with_data(ctl, i, data))) == spec_pages(Some(ctl)),
{
    if ctl.chain[i].module != MODULE_CPU_INFO@ {
        lemma_mismatch_passed_over(ctl, i, data, clock_speed());
    }
    if ctl.chain[i].module != MODULE_UNIX@ || ctl.chain[i].name != NAME_SYSTEM_MISC@ {
        lemma_mismatch_passed_over(ctl, i, data, system_misc(STAT_BOOT_TIME@));
        lemma_mismatch_passed_over(ctl, i, data, system_misc(STAT_NPROC@));
    }
    if ctl.chain[i].module != MODULE_UNIX@ || ctl.chain[i].name != NAME_SYSTEM_PAGES@ {
        lemma_mismatch_passed_over(ctl, i, data, page_counts());
    }
}

/// The accessors read the data of wanted groups only: whatever a group that
/// is not wanted holds, and whether or not its refresh fails, every result
/// is the same.
pub proof fn lemma_unwanted_is_unread(
    ctl: KstatCtlView,
    i: int,
    data: Option<Seq<KstatNamedView>>,
)
    requires
        0 <= i < ctl.chain.len(),
        !ctl.chain[i].wanted(),
    ensures
        spec_cpu_mhz(Some(with_data(ctl, i, data))) == spec_cpu_mhz(Some(ctl)),
        spec_boot_time(Some(with_data(ctl, i, data))) == spec_boot_time(Some(ctl)),
        spec_nproc(Some(with_data(ctl, i, data))) == spec_nproc(Some(ctl)),
        spec_pages(Some(with_data(ctl, i, data))) == spec_pages(Some(ctl)),
{
    lemma_mismatch_is_skipped(ctl, i, data);
}

/// Chains that agree up to and including the first yielding group of one
/// have the same first yielding group.
proof fn lemma_same_prefix(
    a: Seq<KstatView>,
    b: Seq<KstatView>,
    from: int,
    j: int,
    target: Target,
)
    requires
        0 <= from <= j < a.len(),
        j < b.len(),
        forall|i: int| 0 <= i <= j ==> a[i] == b[i],
        first_yielding(a, from, target) == Some(j),
    ensures
        first_yielding(b, from, target) == Some(j),
    decreases j - from,
{
    lemma_first_yielding(a, from, target);
    if from < j {
        lemma_same_prefix(a, b, from + 1, j, target);
    }
}

/// The first group that yields decides. Where an accessor finds its result
/// in group `j` of one host, it returns the same on every host of the same
/// byte order whose chain begins with the same groups up to and including
/// that one, whatever follows them.
pub proof fn lemma_later_groups_unseen(a: KstatCtlView, b: KstatCtlView, j: int)
    requires
        a.byte_order == b.byte_order,
        0 <= j < a.chain.len(),
        j < b.chain.len(),
        forall|i: int| 0 <= i <= j ==> a.chain[i] == b.chain[i],
    ensures
        first_yielding(a.chain, 0, clock_speed()) == Some(j) ==> spec_cpu_mhz(Some(b))
            == spec_cpu_mhz(Some(a)),
        first_yielding(a.chain, 0, system_misc(STAT_BOOT_TIME@)) == Some(j) ==> spec_boot_time(
            Some(b),
        ) == spec_boot_time(Some(a)),
        first_yielding(a.chain, 0, system_misc(STAT_NPROC@)) == Some(j) ==> spec_nproc(Some(b))
            == spec_nproc(Some(a)),
        first_yielding(a.chain, 0, page_counts()) == Some(j) ==> spec_pages(Some(b))
            == spec_pages(Some(a)),
{
    if first_yielding(a.chain, 0, clock_speed()) == Some(j) {
        lemma_same_prefix(a.chain, b.chain, 0, j, clock_speed());
    }
    if first_yielding(a.chain, 0, system_misc(STAT_BOOT_TIME@)) == Some(j) {
        lemma_same_prefix(a.chain, b.chain, 0, j, system_misc(STAT_BOOT_TIME@));
    }
    if first_yielding(a.chain, 0, system_misc(STAT_NPROC@)) == Some(j) {
        lemma_same_prefix(a.chain, b.chain, 0, j, system_misc(STAT_NPROC@));
    }
    if first_yielding(a.chain, 0, page_counts()) == Some(j) {
        lemma_same_prefix(a.chain, b.chain, 0, j, page_counts());
    }
}

} // verus!
