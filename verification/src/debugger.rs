//! The debugger: the breakpoint and watchpoint tables, the poll deadline and
//! the clock, as they are kept at run time.

use crate::clock::Clock;
use crate::event::AccessKind;
use crate::tables::{lemma_arm_leaves_one, BreakpointState, DebuggerView};
use vstd::prelude::*;

verus! {

struct Breakpoint {
    cpu: String,
    addr: u64,
    state: BreakpointState,
}

struct Watchpoint {
    cpu: String,
    addr: u64,
    kind: AccessKind,
}

spec fn bp_key(b: Breakpoint) -> (Seq<char>, u64) {
    (b.cpu@, b.addr)
}

spec fn bp_has(s: Seq<Breakpoint>, k: (Seq<char>, u64)) -> bool {
    exists|i: int| 0 <= i < s.len() && bp_key(#[trigger] s[i]) == k
}

spec fn bp_index(s: Seq<Breakpoint>, k: (Seq<char>, u64)) -> int {
    choose|i: int| 0 <= i < s.len() && bp_key(#[trigger] s[i]) == k
}

spec fn bp_map(s: Seq<Breakpoint>) -> Map<(Seq<char>, u64), BreakpointState> {
    Map::new(|k: (Seq<char>, u64)| bp_has(s, k), |k: (Seq<char>, u64)| s[bp_index(s, k)].state)
}

/// No two entries share a key, and no two one-shot entries share a CPU.
spec fn bp_inv(s: Seq<Breakpoint>) -> bool {
    &&& forall|i: int, j: int|
        0 <= i < s.len() && 0 <= j < s.len() && bp_key(#[trigger] s[i]) == bp_key(#[trigger] s[j])
            ==> i == j
    &&& forall|i: int, j: int|
        0 <= i < s.len() && 0 <= j < s.len() && (#[trigger] s[i]).state.one_shot
            && (#[trigger] s[j]).state.one_shot && s[i].cpu@ == s[j].cpu@ ==> i == j
}

proof fn lemma_bp_entry(s: Seq<Breakpoint>, i: int)
    requires
        bp_inv(s),
        0 <= i < s.len(),
    ensures
        bp_has(s, bp_key(s[i])),
        bp_index(s, bp_key(s[i])) == i,
        bp_map(s).dom().contains(bp_key(s[i])),
        bp_map(s)[bp_key(s[i])] == s[i].state,
{
    let k = bp_key(s[i]);
    let j = bp_index(s, k);
    assert(0 <= j < s.len() && bp_key(s[j]) == k);
}

proof fn lemma_bp_present(s: Seq<Breakpoint>, k: (Seq<char>, u64))
    requires
        bp_inv(s),
        bp_map(s).dom().contains(k),
    ensures
        0 <= bp_index(s, k) < s.len(),
        bp_key(s[bp_index(s, k)]) == k,
        bp_map(s)[k] == s[bp_index(s, k)].state,
{
}

/// The table that a list of entries stands for has at most one one-shot
/// entry for each CPU.
proof fn lemma_bp_oneshot_unique(s: Seq<Breakpoint>, cpu: Seq<char>, a: u64, b: u64)
    requires
        bp_inv(s),
        bp_map(s).dom().contains((cpu, a)),
        bp_map(s)[(cpu, a)].one_shot,
        bp_map(s).dom().contains((cpu, b)),
        bp_map(s)[(cpu, b)].one_shot,
    ensures
        a == b,
{
    lemma_bp_present(s, (cpu, a));
    lemma_bp_present(s, (cpu, b));
}

proof fn lemma_bp_remove(s: Seq<Breakpoint>, i: int)
    requires
        bp_inv(s),
        0 <= i < s.len(),
    ensures
        bp_inv(s.remove(i)),
        bp_map(s.remove(i)) == bp_map(s).remove(bp_key(s[i])),
{
    let t = s.remove(i);
    let ki = bp_key(s[i]);
    assert forall|j: int| 0 <= j < t.len() implies #[trigger] t[j] == s[if j < i { j } else { j + 1 }] by {}
    assert(bp_inv(t)) by {
        assert forall|a: int, b: int|
            0 <= a < t.len() && 0 <= b < t.len() && bp_key(#[trigger] t[a]) == bp_key(
                #[trigger] t[b],
            ) implies a == b by {
            let a2 = if a < i { a } else { a + 1 };
            let b2 = if b < i { b } else { b + 1 };
            assert(bp_key(s[a2]) == bp_key(s[b2]));
        }
        assert forall|a: int, b: int|
            0 <= a < t.len() && 0 <= b < t.len() && (#[trigger] t[a]).state.one_shot && (
            #[trigger] t[b]).state.one_shot && t[a].cpu@ == t[b].cpu@ implies a == b by {
            let a2 = if a < i { a } else { a + 1 };
            let b2 = if b < i { b } else { b + 1 };
            assert(s[a2].state.one_shot && s[b2].state.one_shot && s[a2].cpu@ == s[b2].cpu@);
        }
    }
    let m = bp_map(s).remove(ki);
    assert forall|k: (Seq<char>, u64)| bp_map(t).dom().contains(k) implies m.dom().contains(k)
        && m[k] == bp_map(t)[k] by {
        let j = bp_index(t, k);
        let j2 = if j < i { j } else { j + 1 };
        assert(bp_key(s[j2]) == k);
        lemma_bp_entry(s, j2);
        lemma_bp_entry(s, i);
    }
    assert forall|k: (Seq<char>, u64)| m.dom().contains(k) implies bp_map(t).dom().contains(k) by {
        lemma_bp_present(s, k);
        let j = bp_index(s, k);
        assert(j != i);
        let j2 = if j < i { j } else { j - 1 };
        assert(bp_key(t[j2]) == k);
    }
    assert(bp_map(t) =~= m);
}

proof fn lemma_bp_push(s: Seq<Breakpoint>, e: Breakpoint)
    requires
        bp_inv(s),
        !bp_map(s).dom().contains(bp_key(e)),
        e.state.one_shot ==> forall|a: u64|
            !(#[trigger] bp_map(s).dom().contains((e.cpu@, a)) && bp_map(s)[(e.cpu@, a)].one_shot),
    ensures
        bp_inv(s.push(e)),
        bp_map(s.push(e)) == bp_map(s).insert(bp_key(e), e.state),
{
    let t = s.push(e);
    let n = s.len() as int;
    assert forall|j: int| 0 <= j < n implies bp_key(#[trigger] s[j]) != bp_key(e) by {
        lemma_bp_entry(s, j);
    }
    assert forall|j: int| 0 <= j < n && e.state.one_shot implies !((#[trigger] s[j]).state.one_shot
        && s[j].cpu@ == e.cpu@) by {
        lemma_bp_entry(s, j);
        assert(bp_map(s).dom().contains((e.cpu@, s[j].addr)) ==> !bp_map(s)[(
            e.cpu@,
            s[j].addr,
        )].one_shot);
    }
    assert(bp_inv(t)) by {
        assert forall|a: int, b: int|
            0 <= a < t.len() && 0 <= b < t.len() && bp_key(#[trigger] t[a]) == bp_key(
                #[trigger] t[b],
            ) implies a == b by {
            if a < n && b < n {
                assert(bp_key(s[a]) == bp_key(s[b]));
            } else if a < n {
                assert(bp_key(s[a]) == bp_key(e));
            } else if b < n {
                assert(bp_key(s[b]) == bp_key(e));
            }
        }
        assert forall|a: int, b: int|
            0 <= a < t.len() && 0 <= b < t.len() && (#[trigger] t[a]).state.one_shot && (
            #[trigger] t[b]).state.one_shot && t[a].cpu@ == t[b].cpu@ implies a == b by {
            if a < n && b < n {
                assert(s[a].state.one_shot && s[b].state.one_shot && s[a].cpu@ == s[b].cpu@);
            } else if a < n {
                assert(s[a].state.one_shot && s[a].cpu@ == e.cpu@);
            } else if b < n {
                assert(s[b].state.one_shot && s[b].cpu@ == e.cpu@);
            }
        }
    }
    let m = bp_map(s).insert(bp_key(e), e.state);
    assert(t[n] == e);
    lemma_bp_entry(t, n);
    assert forall|k: (Seq<char>, u64)| bp_map(t).dom().contains(k) implies m.dom().contains(k)
        && m[k] == bp_map(t)[k] by {
        let j = bp_index(t, k);
        lemma_bp_entry(t, j);
        if j < n {
            assert(t[j] == s[j]);
            lemma_bp_entry(s, j);
        }
    }
    assert forall|k: (Seq<char>, u64)| m.dom().contains(k) implies bp_map(t).dom().contains(k) by {
        if k != bp_key(e) {
            lemma_bp_present(s, k);
            let j = bp_index(s, k);
            assert(t[j] == s[j]);
            lemma_bp_entry(t, j);
        }
    }
    assert(bp_map(t) =~= m);
}

proof fn lemma_bp_absent(s: Seq<Breakpoint>, k: (Seq<char>, u64))
    requires
        forall|i: int| 0 <= i < s.len() ==> bp_key(#[trigger] s[i]) != k,
    ensures
        !bp_has(s, k),
        !bp_map(s).dom().contains(k),
{
}

spec fn wp_key(w: Watchpoint) -> (Seq<char>, u64, AccessKind) {
    (w.cpu@, w.addr, w.kind)
}

spec fn wp_set(s: Seq<Watchpoint>) -> Set<(Seq<char>, u64, AccessKind)> {
    Set::new(
        |k: (Seq<char>, u64, AccessKind)|
            exists|i: int| 0 <= i < s.len() && wp_key(#[trigger] s[i]) == k,
    )
}

/// The tables that checkpoints consult, and the clock that times them.
pub struct Debugger {
    breakpoints: Vec<Breakpoint>,
    watchpoints: Vec<Watchpoint>,
    next_poll: Option<u64>,
    clock: Clock,
}

fn find_breakpoint(v: &Vec<Breakpoint>, cpu: &str, addr: u64) -> (r: Option<usize>)
    ensures
        match r {
            Some(i) => i < v.len() && bp_key(v@[i as int]) == (cpu@, addr),
            None => forall|i: int| 0 <= i < v.len() ==> bp_key(#[trigger] v@[i]) != (cpu@, addr),
        },
{
    let mut i: usize = 0;
    while i < v.len()
        invariant
            i <= v.len(),
            forall|j: int| 0 <= j < i ==> bp_key(#[trigger] v@[j]) != (cpu@, addr),
        decreases v.len() - i,
    {
        if v[i].addr == addr && v[i].cpu.as_str().eq(cpu) {
            return Some(i);
        }
        i += 1;
    }
    None
}

/// Whether `b` is a one-shot entry, of `cpu` where one is named.
spec fn is_oneshot_of(b: Breakpoint, cpu: Option<&str>) -> bool {
    b.state.one_shot && (cpu matches Some(name) ==> b.cpu@ == name@)
}

fn find_oneshot(v: &Vec<Breakpoint>, cpu: Option<&str>) -> (r: Option<usize>)
    ensures
        match r {
            Some(i) => i < v.len() && is_oneshot_of(v@[i as int], cpu),
            None => forall|i: int| 0 <= i < v.len() ==> !is_oneshot_of(#[trigger] v@[i], cpu),
        },
{
    let mut i: usize = 0;
    while i < v.len()
        invariant
            i <= v.len(),
            forall|j: int| 0 <= j < i ==> !is_oneshot_of(#[trigger] v@[j], cpu),
        decreases v.len() - i,
    {
        if v[i].state.one_shot {
            let hit = match cpu {
                Some(name) => v[i].cpu.as_str().eq(name),
                None => true,
            };
            if hit {
                return Some(i);
            }
        }
        i += 1;
    }
    None
}

fn table_remove(v: &mut Vec<Breakpoint>, i: usize)
    requires
        bp_inv(old(v)@),
        i < old(v).len(),
    ensures
        bp_inv(final(v)@),
        bp_map(final(v)@) == bp_map(old(v)@).remove(bp_key(old(v)@[i as int])),
        final(v).len() + 1 == old(v).len(),
{
    proof {
        lemma_bp_remove(v@, i as int);
    }
    let _ = v.remove(i);
}

fn table_put(v: &mut Vec<Breakpoint>, cpu: &str, addr: u64, state: BreakpointState)
    requires
        bp_inv(old(v)@),
        state.one_shot ==> forall|a: u64|
            !(#[trigger] bp_map(old(v)@).dom().contains((cpu@, a)) && bp_map(old(v)@)[(
                cpu@,
                a,
            )].one_shot),
    ensures
        bp_inv(final(v)@),
        bp_map(final(v)@) == bp_map(old(v)@).insert((cpu@, addr), state),
{
    let ghost before = bp_map(v@);
    match find_breakpoint(v, cpu, addr) {
        Some(i) => {
            proof {
                lemma_bp_entry(v@, i as int);
            }
            table_remove(v, i);
        },
        None => {
            proof {
                lemma_bp_absent(v@, (cpu@, addr));
            }
        },
    }
    let entry = Breakpoint { cpu: cpu.to_owned(), addr, state };
    proof {
        assert(bp_map(v@) =~= before.remove((cpu@, addr)));
        lemma_bp_push(v@, entry);
        assert(before.remove((cpu@, addr)).insert((cpu@, addr), state) =~= before.insert(
            (cpu@, addr),
            state,
        ));
    }
    v.push(entry);
}

impl View for Debugger {
    type V = DebuggerView;

    closed spec fn view(&self) -> DebuggerView {
        DebuggerView {
            breakpoints: bp_map(self.breakpoints@),
            watchpoints: wp_set(self.watchpoints@),
            poll_deadline: self.next_poll,
        }
    }
}

impl Debugger {
    #[verifier::type_invariant]
    spec fn inv(self) -> bool {
        bp_inv(self.breakpoints@)
    }

    proof fn lemma_view_wf(self)
        requires
            bp_inv(self.breakpoints@),
        ensures
            self@.wf(),
    {
        assert forall|cpu: Seq<char>, a: u64, b: u64|
            #[trigger] self@.oneshot_at(cpu, a) && #[trigger] self@.oneshot_at(
                cpu,
                b,
            ) implies a == b by {
            lemma_bp_oneshot_unique(self.breakpoints@, cpu, a, b);
        }
    }

    /// A debugger with empty tables, no poll deadline, and a clock that starts
    /// now.
    pub fn new() -> (dbg: Debugger)
        ensures
            dbg@ == DebuggerView::empty(),
            dbg@.wf(),
    {
        let dbg = Debugger {
            breakpoints: Vec::new(),
            watchpoints: Vec::new(),
            next_poll: None,
            clock: Clock::start(),
        };
        assert(dbg@.breakpoints =~= Map::<(Seq<char>, u64), BreakpointState>::empty());
        assert(dbg@.watchpoints =~= Set::<(Seq<char>, u64, AccessKind)>::empty());
        dbg
    }

    /// The table's entry for `cpu` at `addr`, if there is one.
    pub fn breakpoint(&self, cpu: &str, addr: u64) -> (r: Option<BreakpointState>)
        ensures
            self@.wf(),
            r == if self@.breakpoints.dom().contains((cpu@, addr)) {
                Some(self@.breakpoints[(cpu@, addr)])
            } else {
                None
            },
    {
        proof {
            use_type_invariant(self);
            self.lemma_view_wf();
        }
        match find_breakpoint(&self.breakpoints, cpu, addr) {
            Some(i) => {
                proof {
                    lemma_bp_entry(self.breakpoints@, i as int);
                }
                Some(self.breakpoints[i].state)
            },
            None => {
                proof {
                    lemma_bp_absent(self.breakpoints@, (cpu@, addr));
                }
                None
            },
        }
    }

    /// Puts a persistent breakpoint for `cpu` at `addr`, enabled or not, in
    /// place of whatever the table held there.
    pub fn set_breakpoint(&mut self, cpu: &str, addr: u64, enabled: bool)
        ensures
            final(self)@ == old(self)@.with_breakpoint(cpu@, addr, enabled),
            final(self)@.wf(),
    {
        proof {
            use_type_invariant(&*self);
        }
        // The table is taken out while it changes and put back when it is
        // done, so that the debugger holds a table in order at every moment.
        let mut table: Vec<Breakpoint> = Vec::new();
        std::mem::swap(&mut self.breakpoints, &mut table);
        table_put(&mut table, cpu, addr, BreakpointState { enabled, one_shot: false });
        self.breakpoints = table;
        proof {
            self.lemma_view_wf();
        }
    }

    /// Takes the entry for `cpu` at `addr` out of the table, if there is one.
    pub fn remove_breakpoint(&mut self, cpu: &str, addr: u64)
        ensures
            final(self)@ == old(self)@.without_breakpoint(cpu@, addr),
            final(self)@.wf(),
    {
        proof {
            use_type_invariant(&*self);
        }
        let mut table: Vec<Breakpoint> = Vec::new();
        std::mem::swap(&mut self.breakpoints, &mut table);
        match find_breakpoint(&table, cpu, addr) {
            Some(i) => {
                proof {
                    lemma_bp_entry(table@, i as int);
                }
                table_remove(&mut table, i);
            },
            None => {
                proof {
                    lemma_bp_absent(table@, (cpu@, addr));
                    assert(bp_map(table@) =~= bp_map(table@).remove((cpu@, addr)));
                }
            },
        }
        self.breakpoints = table;
        proof {
            self.lemma_view_wf();
        }
    }

    /// Arms the one-shot breakpoint of `cpu` at `addr`, or disarms it where
    /// `addr` is `None`. An earlier one-shot breakpoint of `cpu` leaves the
    /// table; an entry of any kind at `addr` is replaced.
    pub fn set_breakpoint_oneshot(&mut self, cpu: &str, addr: Option<u64>)
        ensures
            final(self)@ == match addr {
                Some(a) => old(self)@.with_oneshot(cpu@, a),
                None => old(self)@.without_oneshot_of(cpu@),
            },
            final(self)@.oneshots_of(cpu@) == match addr {
                Some(a) => set![(cpu@, a)],
                None => Set::<(Seq<char>, u64)>::empty(),
            },
            final(self)@.wf(),
    {
        proof {
            use_type_invariant(&*self);
        }
        let ghost before = self@;
        let mut table: Vec<Breakpoint> = Vec::new();
        std::mem::swap(&mut self.breakpoints, &mut table);
        let ghost entries = table@;
        match find_oneshot(&table, Some(cpu)) {
            Some(i) => {
                table_remove(&mut table, i);
                proof {
                    lemma_bp_entry(entries, i as int);
                    assert forall|k: (Seq<char>, u64)|
                        before.oneshots_of(cpu@).contains(k) implies k == bp_key(
                        entries[i as int],
                    ) by {
                        lemma_bp_oneshot_unique(entries, cpu@, k.1, entries[i as int].addr);
                    }
                }
            },
            None => {
                proof {
                    assert forall|k: (Seq<char>, u64)| !before.oneshots_of(cpu@).contains(k) by {
                        if before.breakpoints.dom().contains(k) {
                            lemma_bp_present(entries, k);
                        }
                    }
                }
            },
        }
        proof {
            assert(bp_map(table@) =~= before.breakpoints.remove_keys(before.oneshots_of(cpu@)));
        }
        match addr {
            Some(a) => {
                table_put(&mut table, cpu, a, BreakpointState { enabled: true, one_shot: true });
            },
            None => {},
        }
        self.breakpoints = table;
        proof {
            self.lemma_view_wf();
            match addr {
                Some(a) => {
                    lemma_arm_leaves_one(before, cpu@, a);
                },
                None => {
                    assert(self@.oneshots_of(cpu@) =~= Set::<(Seq<char>, u64)>::empty());
                },
            }
        }
    }

    /// Takes every one-shot breakpoint out of the table. Calling it again
    /// changes nothing.
    pub fn disable_breakpoint_oneshot(&mut self)
        ensures
            final(self)@ == old(self)@.without_oneshots(),
            final(self)@.wf(),
    {
        proof {
            use_type_invariant(&*self);
        }
        let ghost before = self@;
        let mut table: Vec<Breakpoint> = Vec::new();
        std::mem::swap(&mut self.breakpoints, &mut table);
        loop
            invariant
                bp_inv(table@),
                forall|k: (Seq<char>, u64)| #[trigger]
                    bp_map(table@).dom().contains(k) ==> before.breakpoints.dom().contains(k)
                        && bp_map(table@)[k] == before.breakpoints[k],
                forall|k: (Seq<char>, u64)| #[trigger]
                    before.breakpoints.dom().contains(k) && !before.breakpoints[k].one_shot
                        ==> bp_map(table@).dom().contains(k),
            ensures
                forall|i: int| 0 <= i < table.len() ==> !is_oneshot_of(#[trigger] table@[i], None),
            decreases table.len(),
        {
            match find_oneshot(&table, None) {
                Some(i) => {
                    proof {
                        lemma_bp_entry(table@, i as int);
                    }
                    table_remove(&mut table, i);
                },
                None => {
                    break ;
                },
            }
        }
        proof {
            assert forall|k: (Seq<char>, u64)| #[trigger]
                bp_map(table@).dom().contains(k) implies !bp_map(table@)[k].one_shot by {
                lemma_bp_present(table@, k);
            }
            assert(bp_map(table@) =~= before.breakpoints.remove_keys(before.oneshots()));
        }
        self.breakpoints = table;
        proof {
            self.lemma_view_wf();
        }
    }

    /// The address at which the one-shot breakpoint of `cpu` is armed, if it
    /// has one.
    pub fn breakpoint_oneshot(&self, cpu: &str) -> (r: Option<u64>)
        ensures
            self@.wf(),
            match r {
                Some(a) => self@.oneshot_at(cpu@, a),
                None => forall|a: u64| !self@.oneshot_at(cpu@, a),
            },
    {
        proof {
            use_type_invariant(self);
            self.lemma_view_wf();
        }
        match find_oneshot(&self.breakpoints, Some(cpu)) {
            Some(i) => {
                proof {
                    lemma_bp_entry(self.breakpoints@, i as int);
                }
                Some(self.breakpoints[i].addr)
            },
            None => {
                proof {
                    assert forall|a: u64| !self@.oneshot_at(cpu@, a) by {
                        if self@.breakpoints.dom().contains((cpu@, a)) {
                            lemma_bp_present(self.breakpoints@, (cpu@, a));
                        }
                    }
                }
                None
            },
        }
    }

    /// Adds a watched access: `cpu` touching `addr` in the direction `kind`.
    pub fn add_watchpoint(&mut self, cpu: &str, addr: u64, kind: AccessKind)
        ensures
            final(self)@ == old(self)@.with_watchpoint(cpu@, addr, kind),
            final(self)@.wf(),
    {
        proof {
            use_type_invariant(&*self);
        }
        let mut list: Vec<Watchpoint> = Vec::new();
        std::mem::swap(&mut self.watchpoints, &mut list);
        let ghost entries = list@;
        let w = Watchpoint { cpu: cpu.to_owned(), addr, kind };
        list.push(w);
        proof {
            let n = entries.len() as int;
            assert(wp_key(list@[n]) == (cpu@, addr, kind));
            assert forall|k: (Seq<char>, u64, AccessKind)|
                wp_set(entries).insert((cpu@, addr, kind)).contains(k) implies wp_set(
                list@,
            ).contains(k) by {
                if k != (cpu@, addr, kind) {
                    let i = choose|i: int| 0 <= i < entries.len() && wp_key(#[trigger] entries[i]) == k;
                    assert(wp_key(list@[i]) == k);
                }
            }
            assert forall|k: (Seq<char>, u64, AccessKind)| wp_set(list@).contains(k) implies wp_set(
                entries,
            ).insert((cpu@, addr, kind)).contains(k) by {
                let i = choose|i: int| 0 <= i < list@.len() && wp_key(#[trigger] list@[i]) == k;
                if i < n {
                    assert(wp_key(entries[i]) == k);
                }
            }
            assert(wp_set(list@) =~= wp_set(entries).insert((cpu@, addr, kind)));
        }
        self.watchpoints = list;
        proof {
            self.lemma_view_wf();
        }
    }

    /// Empties the watchpoint table.
    pub fn clear_watchpoints(&mut self)
        ensures
            final(self)@ == old(self)@.without_watchpoints(),
            final(self)@.wf(),
    {
        proof {
            use_type_invariant(&*self);
        }
        self.watchpoints = Vec::new();
        proof {
            assert(wp_set(self.watchpoints@) =~= Set::<(Seq<char>, u64, AccessKind)>::empty());
            self.lemma_view_wf();
        }
    }

    /// Whether `cpu` touching `addr` in the direction `kind` is watched.
    pub fn is_watched(&self, cpu: &str, addr: u64, kind: AccessKind) -> (r: bool)
        ensures
            self@.wf(),
            r == self@.watchpoints.contains((cpu@, addr, kind)),
    {
        proof {
            use_type_invariant(self);
            self.lemma_view_wf();
        }
        let mut i: usize = 0;
        while i < self.watchpoints.len()
            invariant
                self@.wf(),
                i <= self.watchpoints.len(),
                forall|j: int|
                    0 <= j < i ==> wp_key(#[trigger] self.watchpoints@[j]) != (cpu@, addr, kind),
            decreases self.watchpoints.len() - i,
        {
            let w = &self.watchpoints[i];
            if w.addr == addr && w.kind == kind && w.cpu.as_str().eq(cpu) {
                assert(wp_key(self.watchpoints@[i as int]) == (cpu@, addr, kind));
                return true;
            }
            i += 1;
        }
        false
    }

    /// Sets the time from which checkpoints raise `Poll`; with `None` they
    /// never do.
    pub fn set_poll_event(&mut self, deadline: Option<u64>)
        ensures
            final(self)@ == old(self)@.with_poll_deadline(deadline),
            final(self)@.wf(),
    {
        proof {
            use_type_invariant(&*self);
        }
        self.next_poll = deadline;
        proof {
            self.lemma_view_wf();
        }
    }

    /// The time from which checkpoints raise `Poll`, if one is set.
    pub fn poll_deadline(&self) -> (r: Option<u64>)
        ensures
            self@.wf(),
            r == self@.poll_deadline,
    {
        proof {
            use_type_invariant(self);
            self.lemma_view_wf();
        }
        self.next_poll
    }

    /// The present reading of the debugger's clock, in nanoseconds.
    pub fn now(&self) -> (t: u64) {
        self.clock.now()
    }
}

} // verus!
