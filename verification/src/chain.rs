//! The facility as plain values: a chain of statistic groups, each with its
//! named fields, and the operations that the facility offers on them:
//! opening, looking a group up, following the chain, refreshing a group's
//! data and looking a field up in it.

use crate::value::{ByteOrder, KstatValue};
use vstd::prelude::*;

verus! {

/// The instance number that a lookup passes to admit every instance.
pub const ANY_INSTANCE: i32 = -1;

/// One named field in the data of a statistic group.
#[derive(Debug)]
pub struct KstatNamed {
    /// The name under which the field is found.
    pub name: String,
    /// The tag by which the facility marks the encoding it stored. Nothing in
    /// this library reads it: a caller picks the encoding by the field's name.
    pub data_type: u8,
    /// The field's value storage.
    pub value: KstatValue,
}

/// A named field as a mathematical value.
pub struct KstatNamedView {
    pub name: Seq<char>,
    pub data_type: u8,
    pub value: KstatValue,
}

impl View for KstatNamed {
    type V = KstatNamedView;

    open spec fn view(&self) -> KstatNamedView {
        KstatNamedView { name: self.name@, data_type: self.data_type, value: self.value }
    }
}

/// One statistic group in the facility's chain, identified by module,
/// instance and name.
#[derive(Debug)]
pub struct Kstat {
    pub module: String,
    pub instance: i32,
    pub name: String,
    /// What refreshing the group's data yields: its named fields in the
    /// facility's order, or nothing where the refresh fails.
    pub data: Option<Vec<KstatNamed>>,
}

/// A statistic group as a mathematical value.
pub struct KstatView {
    pub module: Seq<char>,
    pub instance: i32,
    pub name: Seq<char>,
    pub data: Option<Seq<KstatNamedView>>,
}

impl View for Kstat {
    type V = KstatView;

    open spec fn view(&self) -> KstatView {
        KstatView {
            module: self.module@,
            instance: self.instance,
            name: self.name@,
            data: match self.data {
                Some(fields) => Some(fields@.map_values(|f: KstatNamed| f@)),
                None => None,
            },
        }
    }
}

impl KstatView {
    /// Whether the group passes a lookup's filters. An omitted string and the
    /// instance `ANY_INSTANCE` admit every group.
    pub open spec fn admitted(
        self,
        module: Option<Seq<char>>,
        instance: i32,
        name: Option<Seq<char>>,
    ) -> bool {
        &&& module matches Some(m) ==> self.module == m
        &&& instance == ANY_INSTANCE || self.instance == instance
        &&& name matches Some(n) ==> self.name == n
    }

    /// The field that a named lookup in the group's refreshed data finds: the
    /// first one called `statistic`. Nothing where the refresh fails or no
    /// field has that name.
    pub open spec fn field(self, statistic: Seq<char>) -> Option<KstatNamedView> {
        match self.data {
            Some(fields) => first_named(fields, 0, statistic),
            None => None,
        }
    }

    /// The value storage of the field called `statistic`, as bytes.
    pub open spec fn value(self, statistic: Seq<char>) -> Seq<u8>
        recommends
            self.field(statistic) is Some,
    {
        self.field(statistic).unwrap().value@
    }
}

/// The first field at or after index `from` whose name is `statistic`.
pub open spec fn first_named(
    fields: Seq<KstatNamedView>,
    from: int,
    statistic: Seq<char>,
) -> Option<KstatNamedView>
    decreases fields.len() - from,
{
    if from < 0 || from >= fields.len() {
        None
    } else if fields[from].name == statistic {
        Some(fields[from])
    } else {
        first_named(fields, from + 1, statistic)
    }
}

/// The index of the first group at or after `from` that the filters admit.
pub open spec fn first_admitted(
    chain: Seq<KstatView>,
    from: int,
    module: Option<Seq<char>>,
    instance: i32,
    name: Option<Seq<char>>,
) -> Option<int>
    decreases chain.len() - from,
{
    if from < 0 || from >= chain.len() {
        None
    } else if chain[from].admitted(module, instance, name) {
        Some(from)
    } else {
        first_admitted(chain, from + 1, module, instance, name)
    }
}

/// A lookup's result lies in the chain, at or after the index where the
/// search began; the filters admit the group there and none between.
pub proof fn lemma_first_admitted(
    chain: Seq<KstatView>,
    from: int,
    module: Option<Seq<char>>,
    instance: i32,
    name: Option<Seq<char>>,
)
    requires
        0 <= from,
    ensures
        match first_admitted(chain, from, module, instance, name) {
            Some(p) => {
                &&& from <= p < chain.len()
                &&& chain[p].admitted(module, instance, name)
                &&& forall|i: int|
                    from <= i < p ==> !(#[trigger] chain[i]).admitted(module, instance, name)
            },
            None => forall|i: int|
                from <= i < chain.len() ==> !(#[trigger] chain[i]).admitted(module, instance, name),
        },
    decreases chain.len() - from,
{
    if from < chain.len() && !chain[from].admitted(module, instance, name) {
        lemma_first_admitted(chain, from + 1, module, instance, name);
    }
}

/// The view of an optional field.
pub open spec fn named_view(f: Option<&KstatNamed>) -> Option<KstatNamedView> {
    match f {
        Some(f) => Some(f@),
        None => None,
    }
}

impl Kstat {
    /// The group's name.
    pub fn name(&self) -> (r: String)
        ensures
            r@ == self@.name,
    {
        self.name.clone()
    }

    /// The name of the module that the group belongs to.
    pub fn module(&self) -> (r: String)
        ensures
            r@ == self@.module,
    {
        self.module.clone()
    }

    /// Whether refreshing the group's data succeeds.
    pub fn read(&self) -> (ok: bool)
        ensures
            ok == self@.data.is_some(),
    {
        self.data.is_some()
    }

    /// Finds the field called `statistic` in the group's refreshed data.
    pub fn data_lookup(&self, statistic: &String) -> (r: Option<&KstatNamed>)
        ensures
            named_view(r) == self@.field(statistic@),
    {
        match &self.data {
            None => None,
            Some(fields) => {
                let mut i: usize = 0;
                while i < fields.len()
                    invariant
                        i <= fields.len(),
                        self.data == Some(*fields),
                        self@.field(statistic@) == first_named(
                            self@.data.unwrap(),
                            i as int,
                            statistic@,
                        ),
                    decreases fields.len() - i,
                {
                    if fields[i].name == *statistic {
                        return Some(&fields[i]);
                    }
                    i = i + 1;
                }
                None
            },
        }
    }
}

/// The control structure of an opened facility: the chain of statistic
/// groups, and the byte order in which the host stores their values.
#[derive(Debug)]
pub struct KstatCtl {
    pub byte_order: ByteOrder,
    pub chain: Vec<Kstat>,
}

/// An opened facility as a mathematical value.
pub struct KstatCtlView {
    pub byte_order: ByteOrder,
    pub chain: Seq<KstatView>,
}

impl View for KstatCtl {
    type V = KstatCtlView;

    open spec fn view(&self) -> KstatCtlView {
        KstatCtlView {
            byte_order: self.byte_order,
            chain: self.chain@.map_values(|k: Kstat| k@),
        }
    }
}

impl KstatCtlView {
    /// The group that a lookup with these filters finds: the first one in
    /// the chain that they admit.
    pub open spec fn lookup(
        self,
        module: Option<Seq<char>>,
        instance: i32,
        name: Option<Seq<char>>,
    ) -> Option<int> {
        first_admitted(self.chain, 0, module, instance, name)
    }

    /// The group that follows the one at `index` in the chain.
    pub open spec fn next(self, index: int) -> Option<int> {
        if 0 <= index && index + 1 < self.chain.len() {
            Some(index + 1)
        } else {
            None
        }
    }
}

/// The view of an optional string.
pub open spec fn opt_view(s: Option<String>) -> Option<Seq<char>> {
    match s {
        Some(s) => Some(s@),
        None => None,
    }
}

/// The view of an optional index into the chain.
pub open spec fn index_view(i: Option<usize>) -> Option<int> {
    match i {
        Some(i) => Some(i as int),
        None => None,
    }
}

impl KstatCtl {
    /// Finds the first group in the chain that the filters admit. An omitted
    /// string and the instance `ANY_INSTANCE` admit every group.
    pub fn lookup(
        &self,
        module: &Option<String>,
        instance: i32,
        name: &Option<String>,
    ) -> (r: Option<usize>)
        ensures
            index_view(r) == self@.lookup(opt_view(*module), instance, opt_view(*name)),
    {
        let mut i: usize = 0;
        while i < self.chain.len()
            invariant
                i <= self.chain.len(),
                self@.lookup(opt_view(*module), instance, opt_view(*name)) == first_admitted(
                    self@.chain,
                    i as int,
                    opt_view(*module),
                    instance,
                    opt_view(*name),
                ),
            decreases self.chain.len() - i,
        {
            let group = &self.chain[i];
            let module_ok = match module {
                Some(m) => group.module == *m,
                None => true,
            };
            let instance_ok = instance == ANY_INSTANCE || group.instance == instance;
            let name_ok = match name {
                Some(n) => group.name == *n,
                None => true,
            };
            if module_ok && instance_ok && name_ok {
                return Some(i);
            }
            i = i + 1;
        }
        None
    }

    /// The index of the group that follows the one at `index`, if any.
    pub fn next(&self, index: usize) -> (r: Option<usize>)
        ensures
            index_view(r) == self@.next(index as int),
    {
        if index < self.chain.len() && index + 1 < self.chain.len() {
            Some(index + 1)
        } else {
            None
        }
    }
}

/// A host as a caller of the statistics facility finds it.
#[derive(Debug)]
pub struct Host {
    /// What opening the facility yields, or nothing where the host has no
    /// such facility or refuses to open it.
    pub facility: Option<KstatCtl>,
}

impl View for Host {
    type V = Option<KstatCtlView>;

    open spec fn view(&self) -> Option<KstatCtlView> {
        match self.facility {
            Some(ctl) => Some(ctl@),
            None => None,
        }
    }
}

impl Host {
    /// Opens the host's facility.
    pub fn open(&self) -> (r: Option<&KstatCtl>)
        ensures
            match r {
                Some(ctl) => self.facility == Some(*ctl),
                None => self.facility is None,
            },
    {
        self.facility.as_ref()
    }
}

} // verus!
