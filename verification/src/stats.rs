//! The four accessors, and what each of them returns on a given host.

use crate::chain::{lemma_first_admitted, Host, Kstat, KstatCtlView, KstatView, ANY_INSTANCE};
use crate::error::KstatError;
use crate::value::{
    lemma_long_keeps_bits, lemma_readings_fit, long_bits, long_of, u32_of, ulong_of, unsigned64,
};
use crate::wrapper::{is_c_string, Cursor, KstatWrapper};
use vstd::prelude::*;

verus! {

/// The module of the groups that describe a processor, one per instance.
pub const MODULE_CPU_INFO: &'static str = "cpu_info";

/// The clock speed of a processor in MHz, a signed machine word.
pub const STAT_CLOCK_MHZ: &'static str = "clock_MHz";

/// The module of the groups that describe the system as a whole.
pub const MODULE_UNIX: &'static str = "unix";

/// The group of miscellaneous system statistics.
pub const NAME_SYSTEM_MISC: &'static str = "system_misc";

/// The time at which the system booted, an unsigned 32-bit integer.
pub const STAT_BOOT_TIME: &'static str = "boot_time";

/// The number of processes, an unsigned 32-bit integer.
pub const STAT_NPROC: &'static str = "nproc";

/// The group of memory page statistics.
pub const NAME_SYSTEM_PAGES: &'static str = "system_pages";

/// The number of free memory pages, an unsigned machine word.
pub const STAT_FREEMEM: &'static str = "freemem";

/// The number of physical memory pages, an unsigned machine word.
pub const STAT_PHYSMEM: &'static str = "physmem";

/// The memory page counts of a host.
#[derive(Clone, Copy, Debug, PartialEq, Eq, Structural)]
pub struct Pages {
    pub freemem: u64,
    pub physmem: u64,
}

/// What an accessor looks for in the chain.
pub struct Target {
    /// The module that a group must have, to the letter.
    pub module: Seq<char>,
    /// The name that a group must have, to the letter, where the accessor
    /// asks for one.
    pub name: Option<Seq<char>>,
    /// The fields that the group's refreshed data must hold, all of them.
    pub statistics: Seq<Seq<char>>,
}

/// What `cpu_mhz` looks for: a processor's group with a clock speed.
pub open spec fn clock_speed() -> Target {
    Target { module: MODULE_CPU_INFO@, name: None, statistics: seq![STAT_CLOCK_MHZ@] }
}

/// What `boot_time` and `nproc` look for: a group of miscellaneous system
/// statistics with the field `statistic`.
pub open spec fn system_misc(statistic: Seq<char>) -> Target {
    Target { module: MODULE_UNIX@, name: Some(NAME_SYSTEM_MISC@), statistics: seq![statistic] }
}

/// What `pages` looks for: a group of memory page statistics with both
/// page counts.
pub open spec fn page_counts() -> Target {
    Target {
        module: MODULE_UNIX@,
        name: Some(NAME_SYSTEM_PAGES@),
        statistics: seq![STAT_FREEMEM@, STAT_PHYSMEM@],
    }
}

impl KstatView {
    /// Whether the group is one that a search for `target` takes its result
    /// from.
    pub open spec fn yields(self, target: Target) -> bool {
        &&& self.module == target.module
        &&& target.name matches Some(n) ==> self.name == n
        &&& forall|s: int|
            0 <= s < target.statistics.len() ==> self.field(
                #[trigger] target.statistics[s],
            ) is Some
    }
}

impl KstatView {
    /// Whether the group's module and name are those of a group that some
    /// accessor takes a result from.
    pub open spec fn wanted(self) -> bool {
        ||| self.module == MODULE_CPU_INFO@
        ||| self.module == MODULE_UNIX@ && self.name == NAME_SYSTEM_MISC@
        ||| self.module == MODULE_UNIX@ && self.name == NAME_SYSTEM_PAGES@
    }
}

/// Tells whether some accessor takes a result from the groups of this module
/// and name. The data of any other group is never read, so that a copy of a
/// host's facility need not hold it.
pub fn wanted(group: &Kstat) -> (r: bool)
    ensures
        r == group@.wanted(),
{
    if group.module == MODULE_CPU_INFO.to_owned() {
        true
    } else if group.module == MODULE_UNIX.to_owned() {
        group.name == NAME_SYSTEM_MISC.to_owned() || group.name == NAME_SYSTEM_PAGES.to_owned()
    } else {
        false
    }
}

/// The index of the first group at or after `from` that yields `target`.
pub open spec fn first_yielding(chain: Seq<KstatView>, from: int, target: Target) -> Option<int>
    decreases chain.len() - from,
{
    if from < 0 || from >= chain.len() {
        None
    } else if chain[from].yields(target) {
        Some(from)
    } else {
        first_yielding(chain, from + 1, target)
    }
}

/// Whether no group of the chain yields `target`.
pub open spec fn missing(ctl: KstatCtlView, target: Target) -> bool {
    forall|i: int| 0 <= i < ctl.chain.len() ==> !(#[trigger] ctl.chain[i]).yields(target)
}

/// The clock speed of the first processor whose group holds one: the bits
/// of that signed word as an unsigned integer.
pub open spec fn spec_cpu_mhz(host: Option<KstatCtlView>) -> Result<u64, KstatError> {
    match host {
        None => Err(KstatError::OpenFailed),
        Some(ctl) => match first_yielding(ctl.chain, 0, clock_speed()) {
            Some(j) => Ok(
                unsigned64(long_of(ctl.chain[j].value(STAT_CLOCK_MHZ@), ctl.byte_order)) as u64,
            ),
            None => Err(KstatError::CpuSpeedNotFound),
        },
    }
}

/// The unsigned 32-bit field `statistic` of the first group of
/// miscellaneous system statistics that holds it, or the error `missing`
/// where none does.
pub open spec fn spec_system_misc(
    host: Option<KstatCtlView>,
    statistic: Seq<char>,
    missing: KstatError,
) -> Result<u64, KstatError> {
    match host {
        None => Err(KstatError::OpenFailed),
        Some(ctl) => match first_yielding(ctl.chain, 0, system_misc(statistic)) {
            Some(j) => Ok(u32_of(ctl.chain[j].value(statistic), ctl.byte_order) as u64),
            None => Err(missing),
        },
    }
}

/// The time at which the host booted.
pub open spec fn spec_boot_time(host: Option<KstatCtlView>) -> Result<u64, KstatError> {
    spec_system_misc(host, STAT_BOOT_TIME@, KstatError::BootTimeNotFound)
}

/// The number of processes on the host.
pub open spec fn spec_nproc(host: Option<KstatCtlView>) -> Result<u64, KstatError> {
    spec_system_misc(host, STAT_NPROC@, KstatError::ProcessCountNotFound)
}

/// The page counts of the first group of memory page statistics that holds
/// both of them.
pub open spec fn spec_pages(host: Option<KstatCtlView>) -> Result<Pages, KstatError> {
    match host {
        None => Err(KstatError::OpenFailed),
        Some(ctl) => match first_yielding(ctl.chain, 0, page_counts()) {
            Some(j) => Ok(
                Pages {
                    freemem: ulong_of(ctl.chain[j].value(STAT_FREEMEM@), ctl.byte_order) as u64,
                    physmem: ulong_of(ctl.chain[j].value(STAT_PHYSMEM@), ctl.byte_order) as u64,
                },
            ),
            None => Err(KstatError::SystemPagesNotAvailable),
        },
    }
}

/// Whether `pages` are the two page counts that group `j` of the chain
/// holds, that group being one of memory page statistics.
pub open spec fn both_counts_of(ctl: KstatCtlView, j: int, pages: Pages) -> bool {
    &&& 0 <= j < ctl.chain.len()
    &&& ctl.chain[j].module == MODULE_UNIX@
    &&& ctl.chain[j].name == NAME_SYSTEM_PAGES@
    &&& ctl.chain[j].field(STAT_FREEMEM@) is Some
    &&& ctl.chain[j].field(STAT_PHYSMEM@) is Some
    &&& pages.freemem == ulong_of(ctl.chain[j].value(STAT_FREEMEM@), ctl.byte_order)
    &&& pages.physmem == ulong_of(ctl.chain[j].value(STAT_PHYSMEM@), ctl.byte_order)
}

/// The names that the accessors ask for are strings that the facility can
/// take.
pub proof fn lemma_names_are_c_strings()
    ensures
        is_c_string(MODULE_CPU_INFO@),
        is_c_string(STAT_CLOCK_MHZ@),
        is_c_string(MODULE_UNIX@),
        is_c_string(NAME_SYSTEM_MISC@),
        is_c_string(STAT_BOOT_TIME@),
        is_c_string(STAT_NPROC@),
        is_c_string(NAME_SYSTEM_PAGES@),
        is_c_string(STAT_FREEMEM@),
        is_c_string(STAT_PHYSMEM@),
{
    reveal_strlit("cpu_info");
    reveal_strlit("clock_MHz");
    reveal_strlit("unix");
    reveal_strlit("system_misc");
    reveal_strlit("boot_time");
    reveal_strlit("nproc");
    reveal_strlit("system_pages");
    reveal_strlit("freemem");
    reveal_strlit("physmem");
}

/// The first yielding group is the first: it lies at or after the start of
/// the search and yields, and no group between does. Where there is none,
/// no group from the start on yields.
pub proof fn lemma_first_yielding(chain: Seq<KstatView>, from: int, target: Target)
    requires
        0 <= from,
    ensures
        match first_yielding(chain, from, target) {
            Some(j) => {
                &&& from <= j < chain.len()
                &&& chain[j].yields(target)
                &&& forall|i: int| from <= i < j ==> !(#[trigger] chain[i]).yields(target)
            },
            None => forall|i: int|
                from <= i < chain.len() ==> !(#[trigger] chain[i]).yields(target),
        },
    decreases chain.len() - from,
{
    if from < chain.len() && !chain[from].yields(target) {
        lemma_first_yielding(chain, from + 1, target);
    }
}

/// Groups that do not yield can be passed over.
pub proof fn lemma_pass_over(chain: Seq<KstatView>, from: int, to: int, target: Target)
    requires
        0 <= from <= to <= chain.len(),
        forall|i: int| from <= i < to ==> !(#[trigger] chain[i]).yields(target),
    ensures
        first_yielding(chain, from, target) == first_yielding(chain, to, target),
    decreases to - from,
{
    if from < to {
        lemma_pass_over(chain, from + 1, to, target);
    }
}

impl Cursor {
    /// Whether the walk has passed over no group that yields `target`: what
    /// a search of the whole chain finds is what the rest of the walk will
    /// come to first.
    pub open spec fn searching(self, target: Target) -> bool {
        &&& self.wf()
        &&& first_yielding(self.ctl.chain, 0, target) == first_yielding(
            self.ctl.chain,
            self.upcoming(),
            target,
        )
    }
}

/// A lookup by a target's module and name passes over no group that yields
/// the target.
pub proof fn lemma_lookup_starts_search(c: Cursor, target: Target)
    ensures
        c.lookup(Some(target.module), target.name).searching(target),
{
    let start = c.lookup(Some(target.module), target.name);
    lemma_first_admitted(c.ctl.chain, 0, Some(target.module), ANY_INSTANCE, target.name);
    lemma_pass_over(c.ctl.chain, 0, start.upcoming(), target);
}

/// Reads the clock speed of the host's processors, in MHz. The result is
/// that of the first processor in the chain whose group holds one; the
/// other processors are not looked at.
pub fn cpu_mhz(host: &Host) -> (r: Result<u64, KstatError>)
    ensures
        r == spec_cpu_mhz(host@),
        r is Ok <==> (host@ matches Some(ctl) && !missing(ctl, clock_speed())),
        r matches Err(e) ==> e == if host@ is None {
            KstatError::OpenFailed
        } else {
            KstatError::CpuSpeedNotFound
        },
{
    let mut k = KstatWrapper::open(host)?;
    let ghost ctl = host@.unwrap();
    proof {
        lemma_names_are_c_strings();
        lemma_lookup_starts_search(k@, clock_speed());
    }
    k.lookup(Some(MODULE_CPU_INFO), None);
    let module = MODULE_CPU_INFO.to_owned();
    while k.step()
        invariant
            host@ == Some(ctl),
            k@.ctl == ctl,
            k@.searching(clock_speed()),
            module@ == MODULE_CPU_INFO@,
            is_c_string(STAT_CLOCK_MHZ@),
        decreases k@.remaining(),
    {
        assert(clock_speed().statistics[0] == STAT_CLOCK_MHZ@);
        if !(k.module().unwrap() == module) {
            continue;
        }
        if let Some(mhz) = k.data_long(STAT_CLOCK_MHZ) {
            proof {
                let found = k@.current().unwrap();
                lemma_first_yielding(ctl.chain, 0, clock_speed());
                lemma_long_keeps_bits(found.value(STAT_CLOCK_MHZ@), ctl.byte_order);
            }
            return Ok(long_bits(mhz));
        }
    }
    proof {
        lemma_first_yielding(ctl.chain, 0, clock_speed());
    }
    Err(KstatError::CpuSpeedNotFound)
}

/// Reads the time at which the host booted, in seconds since the epoch,
/// from the first group of miscellaneous system statistics that holds it.
pub fn boot_time(host: &Host) -> (r: Result<u64, KstatError>)
    ensures
        r == spec_boot_time(host@),
        r is Ok <==> (host@ matches Some(ctl) && !missing(ctl, system_misc(STAT_BOOT_TIME@))),
        r matches Err(e) ==> e == if host@ is None {
            KstatError::OpenFailed
        } else {
            KstatError::BootTimeNotFound
        },
{
    let mut k = KstatWrapper::open(host)?;
    let ghost ctl = host@.unwrap();
    proof {
        lemma_names_are_c_strings();
        lemma_lookup_starts_search(k@, system_misc(STAT_BOOT_TIME@));
    }
    k.lookup(Some(MODULE_UNIX), Some(NAME_SYSTEM_MISC));
    let module = MODULE_UNIX.to_owned();
    let name = NAME_SYSTEM_MISC.to_owned();
    while k.step()
        invariant
            host@ == Some(ctl),
            k@.ctl == ctl,
            k@.searching(system_misc(STAT_BOOT_TIME@)),
            module@ == MODULE_UNIX@,
            name@ == NAME_SYSTEM_MISC@,
            is_c_string(STAT_BOOT_TIME@),
        decreases k@.remaining(),
    {
        assert(system_misc(STAT_BOOT_TIME@).statistics[0] == STAT_BOOT_TIME@);
        if !(k.module().unwrap() == module) || !(k.name().unwrap() == name) {
            continue;
        }
        if let Some(boot_time) = k.data_u32(STAT_BOOT_TIME) {
            proof {
                let found = k@.current().unwrap();
                lemma_first_yielding(ctl.chain, 0, system_misc(STAT_BOOT_TIME@));
                lemma_readings_fit(found.value(STAT_BOOT_TIME@), ctl.byte_order);
            }
            return Ok(boot_time as u64);
        }
    }
    proof {
        lemma_first_yielding(ctl.chain, 0, system_misc(STAT_BOOT_TIME@));
    }
    Err(KstatError::BootTimeNotFound)
}

/// Reads the number of processes on the host from the first group of
/// miscellaneous system statistics that holds it.
pub fn nproc(host: &Host) -> (r: Result<u64, KstatError>)
    ensures
        r == spec_nproc(host@),
        r is Ok <==> (host@ matches Some(ctl) && !missing(ctl, system_misc(STAT_NPROC@))),
        r matches Err(e) ==> e == if host@ is None {
            KstatError::OpenFailed
        } else {
            KstatError::ProcessCountNotFound
        },
{
    let mut k = KstatWrapper::open(host)?;
    let ghost ctl = host@.unwrap();
    proof {
        lemma_names_are_c_strings();
        lemma_lookup_starts_search(k@, system_misc(STAT_NPROC@));
    }
    k.lookup(Some(MODULE_UNIX), Some(NAME_SYSTEM_MISC));
    let module = MODULE_UNIX.to_owned();
    let name = NAME_SYSTEM_MISC.to_owned();
    while k.step()
        invariant
            host@ == Some(ctl),
            k@.ctl == ctl,
            k@.searching(system_misc(STAT_NPROC@)),
            module@ == MODULE_UNIX@,
            name@ == NAME_SYSTEM_MISC@,
            is_c_string(STAT_NPROC@),
        decreases k@.remaining(),
    {
        assert(system_misc(STAT_NPROC@).statistics[0] == STAT_NPROC@);
        if !(k.module().unwrap() == module) || !(k.name().unwrap() == name) {
            continue;
        }
        if let Some(nproc) = k.data_u32(STAT_NPROC) {
            proof {
                let found = k@.current().unwrap();
                lemma_first_yielding(ctl.chain, 0, system_misc(STAT_NPROC@));
                lemma_readings_fit(found.value(STAT_NPROC@), ctl.byte_order);
            }
            return Ok(nproc as u64);
        }
    }
    proof {
        lemma_first_yielding(ctl.chain, 0, system_misc(STAT_NPROC@));
    }
    Err(KstatError::ProcessCountNotFound)
}

/// Reads the host's counts of free and of physical memory pages from the
/// first group of memory page statistics that holds both. A group that
/// holds only one of them gives no result: the two counts of a result come
/// from one and the same group.
pub fn pages(host: &Host) -> (r: Result<Pages, KstatError>)
    ensures
        r == spec_pages(host@),
        r is Ok <==> (host@ matches Some(ctl) && !missing(ctl, page_counts())),
        r matches Err(e) ==> e == if host@ is None {
            KstatError::OpenFailed
        } else {
            KstatError::SystemPagesNotAvailable
        },
        r is Ok ==> exists|j: int| both_counts_of(host@.unwrap(), j, r.unwrap()),
{
    let mut k = KstatWrapper::open(host)?;
    let ghost ctl = host@.unwrap();
    proof {
        lemma_names_are_c_strings();
        lemma_lookup_starts_search(k@, page_counts());
    }
    k.lookup(Some(MODULE_UNIX), Some(NAME_SYSTEM_PAGES));
    let module = MODULE_UNIX.to_owned();
    let name = NAME_SYSTEM_PAGES.to_owned();
    while k.step()
        invariant
            host@ == Some(ctl),
            k@.ctl == ctl,
            k@.searching(page_counts()),
            module@ == MODULE_UNIX@,
            name@ == NAME_SYSTEM_PAGES@,
            is_c_string(STAT_FREEMEM@),
            is_c_string(STAT_PHYSMEM@),
        decreases k@.remaining(),
    {
        if !(k.module().unwrap() == module) || !(k.name().unwrap() == name) {
            continue;
        }
        let freemem = k.data_ulong(STAT_FREEMEM);
        let physmem = k.data_ulong(STAT_PHYSMEM);
        if freemem.is_some() && physmem.is_some() {
            let counts = Pages { freemem: freemem.unwrap(), physmem: physmem.unwrap() };
            proof {
                let found = k@.current().unwrap();
                lemma_first_yielding(ctl.chain, 0, page_counts());
                lemma_readings_fit(found.value(STAT_FREEMEM@), ctl.byte_order);
                lemma_readings_fit(found.value(STAT_PHYSMEM@), ctl.byte_order);
                let r: Result<Pages, KstatError> = Ok(counts);
                assert(both_counts_of(ctl, k@.position.unwrap(), r.unwrap()));
            }
            return Ok(counts);
        }
    }
    proof {
        lemma_first_yielding(ctl.chain, 0, page_counts());
    }
    Err(KstatError::SystemPagesNotAvailable)
}

} // verus!
