//! The registry of available tools, indexed by name, and the context handed
//! to every tool execution.
use vstd::prelude::*;
use crate::error::FerroError;
use crate::text::{join_strings, joined, str_eq, views};

verus! {

/// Shared context passed to every tool execution.
#[derive(Debug)]
pub struct ToolContext {
    /// Current working directory for the execution environment.
    pub cwd: Option<String>,
}

impl Clone for ToolContext {
    fn clone(&self) -> (res: Self)
        ensures
            res == *self,
    {
        ToolContext { cwd: self.cwd.clone() }
    }
}

impl Default for ToolContext {
    fn default() -> (res: Self)
        ensures
            res.cwd is None,
    {
        ToolContext { cwd: None }
    }
}

/// Abstract registry: the registered (name, tool) pairs in the order their
/// names were first registered.
pub type RegistryView<T> = Seq<(Seq<char>, T)>;

/// No two entries share a name.
pub open spec fn distinct_names<T>(entries: RegistryView<T>) -> bool {
    forall|i: int, j: int|
        0 <= i < entries.len() && 0 <= j < entries.len() && i != j ==> entries[i].0 != entries[j].0
}

/// The position of the entry named `name`, or -1.
pub open spec fn name_position<T>(entries: RegistryView<T>, name: Seq<char>) -> int
    decreases entries.len(),
{
    if entries.len() == 0 {
        -1
    } else if entries.last().0 == name {
        entries.len() - 1
    } else {
        name_position(entries.drop_last(), name)
    }
}

/// The tool registered under `name`.
pub open spec fn lookup<T>(entries: RegistryView<T>, name: Seq<char>) -> Option<T> {
    let p = name_position(entries, name);
    if p >= 0 {
        Some(entries[p].1)
    } else {
        None
    }
}

/// The registry after registering `tool` under `name`: an entry with that
/// name has its tool replaced, otherwise the pair is appended.
pub open spec fn registered<T>(entries: RegistryView<T>, name: Seq<char>, tool: T) -> RegistryView<T> {
    let p = name_position(entries, name);
    if p >= 0 {
        entries.update(p, (name, tool))
    } else {
        entries.push((name, tool))
    }
}

/// The names of the entries, in order.
pub open spec fn names_of<T>(entries: RegistryView<T>) -> Seq<Seq<char>> {
    entries.map_values(|e: (Seq<char>, T)| e.0)
}

/// Registry of available tools, indexed by name.
pub struct ToolRegistry<T> {
    tools: Vec<(String, T)>,
}

impl<T> View for ToolRegistry<T> {
    type V = RegistryView<T>;

    closed spec fn view(&self) -> RegistryView<T> {
        self.tools@.map_values(|e: (String, T)| (e.0@, e.1))
    }
}

pub proof fn lemma_name_position<T>(entries: RegistryView<T>, name: Seq<char>)
    ensures
        -1 <= name_position(entries, name) < entries.len(),
        name_position(entries, name) >= 0 ==> entries[name_position(entries, name)].0 == name,
        name_position(entries, name) == -1 ==> forall|i: int|
            0 <= i < entries.len() ==> entries[i].0 != name,
    decreases entries.len(),
{
    if entries.len() > 0 {
        lemma_name_position(entries.drop_last(), name);
        if name_position(entries, name) == -1 {
            assert forall|i: int| 0 <= i < entries.len() implies entries[i].0 != name by {
                if i < entries.len() - 1 {
                    assert(entries.drop_last()[i] == entries[i]);
                }
            }
        }
    }
}

proof fn lemma_position_of_distinct<T>(entries: RegistryView<T>, i: int)
    requires
        distinct_names(entries),
        0 <= i < entries.len(),
    ensures
        name_position(entries, entries[i].0) == i,
    decreases entries.len(),
{
    if i < entries.len() - 1 {
        assert(entries.drop_last()[i] == entries[i]);
        lemma_position_of_distinct(entries.drop_last(), i);
    }
}

impl<T> ToolRegistry<T> {
    /// Registered names never repeat.
    #[verifier::type_invariant]
    spec fn names_distinct(self) -> bool {
        distinct_names(self.tools@.map_values(|e: (String, T)| (e.0@, e.1)))
    }

    /// An empty registry.
    pub fn new() -> (res: Self)
        ensures
            res@ == RegistryView::<T>::empty(),
    {
        let res = ToolRegistry { tools: Vec::new() };
        assert(res@ =~= RegistryView::<T>::empty());
        res
    }

    fn find(&self, name: &str) -> (res: Option<usize>)
        ensures
            match res {
                Some(p) => p < self@.len() && name_position(self@, name@) == p as int,
                None => name_position(self@, name@) == -1,
            },
    {
        proof {
            use_type_invariant(self);
        }
        let mut i: usize = 0;
        while i < self.tools.len()
            invariant
                i <= self@.len(),
                self@.len() == self.tools@.len(),
                distinct_names(self@),
                forall|m: int| 0 <= m < i ==> self@[m].0 != name@,
            decreases self.tools.len() - i,
        {
            if str_eq(self.tools[i].0.as_str(), name) {
                proof {
                    lemma_position_of_distinct(self@, i as int);
                }
                return Some(i);
            }
            i = i + 1;
        }
        proof {
            lemma_name_position(self@, name@);
            if name_position(self@, name@) >= 0 {
                assert(self@[name_position(self@, name@)].0 == name@);
            }
        }
        None
    }

    /// Registers `tool` under `name`, replacing a tool of the same name.
    pub fn register(&mut self, name: String, tool: T)
        ensures
            final(self)@ == registered(old(self)@, name@, tool),
    {
        proof {
            use_type_invariant(&*self);
        }
        let ghost before = self@;
        proof {
            lemma_name_position(before, name@);
        }
        match self.find(name.as_str()) {
            Some(p) => {
                let ghost after = registered(before, name@, tool);
                proof {
                    law_register_then_lookup(before, name@, tool, name@);
                }
                let mut tools: Vec<(String, T)> = Vec::new();
                std::mem::swap(&mut tools, &mut self.tools);
                tools.set(p, (name, tool));
                assert(tools@.map_values(|e: (String, T)| (e.0@, e.1)) =~= after);
                self.tools = tools;
                assert(self@ =~= after);
            },
            None => {
                let ghost after = registered(before, name@, tool);
                proof {
                    law_register_then_lookup(before, name@, tool, name@);
                }
                let mut tools: Vec<(String, T)> = Vec::new();
                std::mem::swap(&mut tools, &mut self.tools);
                tools.push((name, tool));
                assert(tools@.map_values(|e: (String, T)| (e.0@, e.1)) =~= after);
                self.tools = tools;
                assert(self@ =~= after);
            },
        }
    }

    /// The tool registered under `name`.
    pub fn get(&self, name: &str) -> (res: Option<&T>)
        ensures
            distinct_names(self@),
            match res {
                Some(t) => lookup(self@, name@) == Some(*t),
                None => lookup(self@, name@) is None,
            },
    {
        proof {
            use_type_invariant(self);
        }
        match self.find(name) {
            Some(p) => Some(&self.tools[p].1),
            None => None,
        }
    }

    /// The names of all registered tools, in registration order.
    pub fn tool_names(&self) -> (res: Vec<String>)
        ensures
            views(res@) == names_of(self@),
            views(res@).no_duplicates(),
    {
        proof {
            use_type_invariant(self);
        }
        let mut res: Vec<String> = Vec::new();
        let mut i: usize = 0;
        while i < self.tools.len()
            invariant
                i <= self.tools@.len(),
                self@.len() == self.tools@.len(),
                views(res@) == names_of(self@).subrange(0, i as int),
            decreases self.tools.len() - i,
        {
            let ghost old_res = res@;
            let n = self.tools[i].0.clone();
            assert(n@ == self@[i as int].0);
            res.push(n);
            assert(views(res@) =~= views(old_res).push(n@));
            assert(names_of(self@).subrange(0, i as int + 1) =~= names_of(self@).subrange(0, i as int).push(self@[i as int].0));
            i = i + 1;
        }
        assert(names_of(self@).subrange(0, self@.len() as int) =~= names_of(self@));
        assert(names_of(self@).no_duplicates()) by {
            assert forall|i: int, j: int|
                0 <= i < names_of(self@).len() && 0 <= j < names_of(self@).len() && i != j
                implies names_of(self@)[i] != names_of(self@)[j] by {
                assert(self@[i].0 != self@[j].0);
            }
        }
        res
    }

    /// Whether no tool is registered.
    pub fn is_empty(&self) -> (res: bool)
        ensures
            res == (self@.len() == 0),
    {
        self.tools.len() == 0
    }

    /// The number of registered tools.
    pub fn len(&self) -> (res: usize)
        ensures
            res == self@.len(),
    {
        self.tools.len()
    }
}

impl<T> Default for ToolRegistry<T> {
    fn default() -> (res: Self)
        ensures
            res@ == RegistryView::<T>::empty(),
    {
        Self::new()
    }
}

/// Looks up a tool, with a `ToolNotFound` error naming it when it is missing.
pub fn require_tool<'a, T>(registry: &'a ToolRegistry<T>, name: &str) -> (res: Result<&'a T, FerroError>)
    ensures
        match res {
            Ok(t) => lookup(registry@, name@) == Some(*t),
            Err(e) => lookup(registry@, name@) is None && (e matches FerroError::ToolNotFound(n) && n@ == name@),
        },
{
    match registry.get(name) {
        Some(t) => Ok(t),
        None => Err(FerroError::ToolNotFound(name.to_owned())),
    }
}

/// The registered tool names joined with `, ` (as listed in the system
/// prompt).
pub fn tool_names_str<T>(registry: &ToolRegistry<T>) -> (res: String)
    ensures
        res@ == joined(names_of(registry@), ", "@),
{
    let names = registry.tool_names();
    join_strings(&names, ", ")
}

/// Registering a tool makes it the one found under its name and leaves
/// every other name's tool unchanged.
pub proof fn law_register_then_lookup<T>(entries: RegistryView<T>, name: Seq<char>, tool: T, other: Seq<char>)
    requires
        distinct_names(entries),
    ensures
        lookup(registered(entries, name, tool), name) == Some(tool),
        other != name ==> lookup(registered(entries, name, tool), other) == lookup(entries, other),
        distinct_names(registered(entries, name, tool)),
{
    let after = registered(entries, name, tool);
    lemma_name_position(entries, name);
    lemma_name_position(entries, other);
    lemma_name_position(after, name);
    lemma_name_position(after, other);
    let p = name_position(entries, name);
    assert(distinct_names(after));
    if p >= 0 {
        lemma_position_of_distinct(after, p);
        if other != name {
            let q = name_position(entries, other);
            if q >= 0 {
                lemma_position_of_distinct(after, q);
            } else {
                assert forall|i: int| 0 <= i < after.len() implies after[i].0 != other by {}
            }
        }
    } else {
        lemma_position_of_distinct(after, entries.len() as int);
        if other != name {
            let q = name_position(entries, other);
            if q >= 0 {
                lemma_position_of_distinct(entries, q);
                lemma_position_of_distinct(after, q);
            } else {
                assert forall|i: int| 0 <= i < after.len() implies after[i].0 != other by {}
            }
        }
    }
}

/// Registering under a new name adds one tool; re-registering a name keeps
/// the count.
pub proof fn law_register_count<T>(entries: RegistryView<T>, name: Seq<char>, tool: T)
    requires
        distinct_names(entries),
    ensures
        lookup(entries, name) is None ==> registered(entries, name, tool).len() == entries.len() + 1,
        lookup(entries, name) is Some ==> registered(entries, name, tool).len() == entries.len(),
{
    lemma_name_position(entries, name);
}

/// The registry after registering each (name, tool) pair of `regs`, in
/// order.
pub open spec fn registered_all<T>(entries: RegistryView<T>, regs: Seq<(Seq<char>, T)>) -> RegistryView<T>
    decreases regs.len(),
{
    if regs.len() == 0 {
        entries
    } else {
        registered(registered_all(entries, regs.drop_last()), regs.last().0, regs.last().1)
    }
}

/// The tool registered last under `name` in `regs`, if any was.
pub open spec fn last_registered<T>(regs: Seq<(Seq<char>, T)>, name: Seq<char>) -> Option<T>
    decreases regs.len(),
{
    if regs.len() == 0 {
        None
    } else if regs.last().0 == name {
        Some(regs.last().1)
    } else {
        last_registered(regs.drop_last(), name)
    }
}

/// After any sequence of registrations, the tool found under a name is the
/// one registered last under it; a name never registered keeps what it had
/// (nothing, for a registry that started empty, so that `require_tool`
/// reports `ToolNotFound`).  Names stay distinct throughout.
pub proof fn law_registrations_then_lookup<T>(entries: RegistryView<T>, regs: Seq<(Seq<char>, T)>, name: Seq<char>)
    requires
        distinct_names(entries),
    ensures
        distinct_names(registered_all(entries, regs)),
        lookup(registered_all(entries, regs), name) == match last_registered(regs, name) {
            Some(t) => Some(t),
            None => lookup(entries, name),
        },
        entries.len() == 0 && last_registered(regs, name) is None ==> lookup(
            registered_all(entries, regs),
            name,
        ) is None,
    decreases regs.len(),
{
    if regs.len() > 0 {
        let prev = regs.drop_last();
        law_registrations_then_lookup(entries, prev, name);
        law_register_then_lookup(registered_all(entries, prev), regs.last().0, regs.last().1, name);
    }
}

} // verus!
