//! The walk over a facility's chain: where it stands, how a lookup and a
//! step move it, and what it reads from the group it stands at.

use crate::chain::{
    index_view, lemma_first_admitted, named_view, opt_view, Host, KstatCtl, KstatCtlView,
    KstatNamed, KstatNamedView, KstatView, ANY_INSTANCE,
};
use crate::error::KstatError;
use crate::value::{long_of, u32_of, ulong_of};
use vstd::prelude::*;

verus! {

/// Whether a string can be handed to the facility, which takes the NUL
/// character for the end of a string.
pub open spec fn is_c_string(s: Seq<char>) -> bool {
    forall|i: int| 0 <= i < s.len() ==> s[i] != '\0'
}

/// Tells whether a string can be handed to the facility.
pub fn is_c_str(s: &str) -> (ok: bool)
    ensures
        ok == is_c_string(s@),
{
    for c in it: s.chars()
        invariant
            it.seq() == s@,
            forall|i: int| 0 <= i < it.index() ==> s@[i] != '\0',
    {
        if c == '\0' {
            return false;
        }
    }
    true
}

/// The view of an optional string slice.
pub open spec fn str_view(s: Option<&str>) -> Option<Seq<char>> {
    match s {
        Some(s) => Some(s@),
        None => None,
    }
}

/// Turns an optional string slice into the optional owned string that a
/// lookup compares with. A string with a NUL character in it has no such
/// form: test it with `is_c_str` first.
pub fn cstr(s: Option<&str>) -> (r: Option<String>)
    requires
        s matches Some(x) ==> is_c_string(x@),
    ensures
        opt_view(r) == str_view(s),
{
    match s {
        Some(x) => Some(x.to_owned()),
        None => None,
    }
}

/// The state of a walk over an opened facility's chain.
pub struct Cursor {
    /// The opened facility.
    pub ctl: KstatCtlView,
    /// The index of the group that the walk is positioned at, if any.
    pub position: Option<int>,
    /// Whether a step was taken since the last lookup and the chain is not
    /// yet exhausted.
    pub stepping: bool,
}

impl Cursor {
    /// The invariant of a walk: a position lies in the chain, and a walk
    /// that is under way is positioned.
    pub open spec fn wf(self) -> bool {
        &&& self.position matches Some(i) ==> 0 <= i < self.ctl.chain.len()
        &&& self.stepping ==> self.position is Some
    }

    /// The state in which opening a facility leaves a walk.
    pub open spec fn opened(ctl: KstatCtlView) -> Cursor {
        Cursor { ctl, position: None, stepping: false }
    }

    /// The state after a lookup: positioned at the first group that the
    /// filters admit, whatever its instance, and not yet stepping.
    pub open spec fn lookup(self, module: Option<Seq<char>>, name: Option<Seq<char>>) -> Cursor {
        Cursor {
            ctl: self.ctl,
            position: self.ctl.lookup(module, ANY_INSTANCE, name),
            stepping: false,
        }
    }

    /// The index of the group that the next step arrives at, or the chain's
    /// length where it arrives at none.
    pub open spec fn upcoming(self) -> int {
        match self.position {
            Some(i) => if self.stepping {
                i + 1
            } else {
                i
            },
            None => self.ctl.chain.len() as int,
        }
    }

    /// The state after a step, and whether the step arrived at a group. The
    /// first step after a lookup stays where the lookup went; each further
    /// one moves to the next group. A step that arrives at no group leaves
    /// the walk unpositioned and not stepping.
    pub open spec fn step(self) -> (Cursor, bool) {
        if self.upcoming() < self.ctl.chain.len() {
            (Cursor { ctl: self.ctl, position: Some(self.upcoming()), stepping: true }, true)
        } else {
            (Cursor { ctl: self.ctl, position: None, stepping: false }, false)
        }
    }

    /// How many further steps arrive at a group.
    pub open spec fn remaining(self) -> nat {
        (self.ctl.chain.len() - self.upcoming()) as nat
    }

    /// The group that the walk is positioned at.
    pub open spec fn current(self) -> Option<KstatView> {
        match self.position {
            Some(i) => Some(self.ctl.chain[i]),
            None => None,
        }
    }

    /// The module name of the current group.
    pub open spec fn module(self) -> Option<Seq<char>> {
        match self.current() {
            Some(k) => Some(k.module),
            None => None,
        }
    }

    /// The name of the current group.
    pub open spec fn name(self) -> Option<Seq<char>> {
        match self.current() {
            Some(k) => Some(k.name),
            None => None,
        }
    }

    /// Whether the walk is positioned at a group whose data can be refreshed.
    pub open spec fn refreshed(self) -> bool {
        self.current() matches Some(k) && k.data is Some
    }

    /// The field called `statistic` in the refreshed data of the current
    /// group. Nothing where the walk is unpositioned, the refresh fails or
    /// the group has no such field.
    pub open spec fn read_field(self, statistic: Seq<char>) -> Option<KstatNamedView> {
        match self.current() {
            Some(k) => k.field(statistic),
            None => None,
        }
    }

    /// The field called `statistic`, read as a signed machine word.
    pub open spec fn read_long(self, statistic: Seq<char>) -> Option<i64> {
        match self.read_field(statistic) {
            Some(f) => Some(long_of(f.value@, self.ctl.byte_order) as i64),
            None => None,
        }
    }

    /// The field called `statistic`, read as an unsigned machine word.
    pub open spec fn read_ulong(self, statistic: Seq<char>) -> Option<u64> {
        match self.read_field(statistic) {
            Some(f) => Some(ulong_of(f.value@, self.ctl.byte_order) as u64),
            None => None,
        }
    }

    /// The field called `statistic`, read as an unsigned 32-bit integer.
    pub open spec fn read_u32(self, statistic: Seq<char>) -> Option<u32> {
        match self.read_field(statistic) {
            Some(f) => Some(u32_of(f.value@, self.ctl.byte_order) as u32),
            None => None,
        }
    }
}

/// A walk over the chain of an opened facility. It borrows the facility for
/// as long as it lives.
pub struct KstatWrapper<'a> {
    kc: &'a KstatCtl,
    ksp: Option<usize>,
    stepping: bool,
}

impl<'a> View for KstatWrapper<'a> {
    type V = Cursor;

    closed spec fn view(&self) -> Cursor {
        Cursor {
            ctl: self.kc@,
            position: index_view(self.ksp),
            stepping: self.stepping,
        }
    }
}

impl<'a> KstatWrapper<'a> {
    /// Every walk is well formed.
    #[verifier::type_invariant]
    closed spec fn inv(self) -> bool {
        self@.wf()
    }

    /// Opens the host's facility and starts an unpositioned walk over it.
    /// Fails where the facility cannot be opened.
    pub fn open(host: &'a Host) -> (r: Result<KstatWrapper<'a>, KstatError>)
        ensures
            match r {
                Ok(k) => host@ matches Some(ctl) && k@ == Cursor::opened(ctl),
                Err(e) => host@ is None && e == KstatError::OpenFailed,
            },
            r matches Ok(k) ==> k@.wf(),
    {
        match host.open() {
            None => Err(KstatError::OpenFailed),
            Some(kc) => Ok(KstatWrapper { kc, ksp: None, stepping: false }),
        }
    }

    /// Positions the walk at the first group of the chain that has the given
    /// module and name, whatever its instance; an omitted string admits any.
    /// Where no group is admitted the walk is left unpositioned. The strings
    /// must be such as the facility can take.
    pub fn lookup(&mut self, module: Option<&str>, name: Option<&str>)
        requires
            module matches Some(m) ==> is_c_string(m@),
            name matches Some(n) ==> is_c_string(n@),
        ensures
            final(self)@ == old(self)@.lookup(str_view(module), str_view(name)),
            final(self)@.wf(),
    {
        let module = cstr(module);
        let name = cstr(name);
        proof {
            use_type_invariant(&*self);
            lemma_first_admitted(self.kc@.chain, 0, opt_view(module), ANY_INSTANCE, opt_view(name));
        }
        self.stepping = false;
        self.ksp = self.kc.lookup(&module, ANY_INSTANCE, &name);
    }

    /// Advances the walk and says whether it arrived at a group. Call once
    /// to start, then once for each further group of the chain.
    pub fn step(&mut self) -> (more: bool)
        ensures
            final(self)@ == old(self)@.step().0,
            more == old(self)@.step().1,
            final(self)@.wf(),
            old(self)@.remaining() <= old(self)@.ctl.chain.len(),
            more ==> final(self)@.remaining() == old(self)@.remaining() - 1,
            !more ==> old(self)@.remaining() == 0,
    {
        proof {
            use_type_invariant(&*self);
        }
        let arrived = if self.stepping {
            self.kc.next(self.ksp.unwrap())
        } else {
            self.ksp
        };
        match arrived {
            Some(i) => {
                self.ksp = Some(i);
                self.stepping = true;
                true
            },
            None => {
                self.stepping = false;
                self.ksp = None;
                false
            },
        }
    }

    /// The module name of the current group.
    pub fn module(&self) -> (r: Option<String>)
        ensures
            opt_view(r) == self@.module(),
    {
        proof {
            use_type_invariant(self);
        }
        match self.ksp {
            None => None,
            Some(i) => Some(self.kc.chain[i].module()),
        }
    }

    /// The name of the current group.
    pub fn name(&self) -> (r: Option<String>)
        ensures
            opt_view(r) == self@.name(),
    {
        proof {
            use_type_invariant(self);
        }
        match self.ksp {
            None => None,
            Some(i) => Some(self.kc.chain[i].name()),
        }
    }

    /// Refreshes the data of the current group and finds the field called
    /// `statistic` in it. Nothing where the walk is unpositioned, the refresh
    /// fails or the group has no such field. Where the search is made, the
    /// name must be such as the facility can take.
    pub fn data_value(&self, statistic: &str) -> (r: Option<&'a KstatNamed>)
        requires
            self@.refreshed() ==> is_c_string(statistic@),
        ensures
            named_view(r) == self@.read_field(statistic@),
    {
        proof {
            use_type_invariant(self);
        }
        let i = match self.ksp {
            None => {
                return None;
            },
            Some(i) => i,
        };
        let group = &self.kc.chain[i];
        if !group.read() {
            return None;
        }
        let stat = cstr(Some(statistic));
        group.data_lookup(&stat.unwrap())
    }

    /// Finds the field called `statistic` in the current group and reads it
    /// as a signed machine word.
    pub fn data_long(&self, statistic: &str) -> (r: Option<i64>)
        requires
            self@.refreshed() ==> is_c_string(statistic@),
        ensures
            r == self@.read_long(statistic@),
    {
        match self.data_value(statistic) {
            Some(knp) => Some(knp.value.as_long(self.kc.byte_order)),
            None => None,
        }
    }

    /// Finds the field called `statistic` in the current group and reads it
    /// as an unsigned machine word.
    pub fn data_ulong(&self, statistic: &str) -> (r: Option<u64>)
        requires
            self@.refreshed() ==> is_c_string(statistic@),
        ensures
            r == self@.read_ulong(statistic@),
    {
        match self.data_value(statistic) {
            Some(knp) => Some(knp.value.as_ulong(self.kc.byte_order)),
            None => None,
        }
    }

    /// Finds the field called `statistic` in the current group and reads it
    /// as an unsigned 32-bit integer.
    pub fn data_u32(&self, statistic: &str) -> (r: Option<u32>)
        requires
            self@.refreshed() ==> is_c_string(statistic@),
        ensures
            r == self@.read_u32(statistic@),
    {
        match self.data_value(statistic) {
            Some(knp) => Some(knp.value.as_u32(self.kc.byte_order)),
            None => None,
        }
    }
}

} // verus!
