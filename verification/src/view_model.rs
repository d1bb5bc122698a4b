//! The view model of a rig's execution state, as the debugger shows it: components
//! grouped and placed in rows, the rows that feed each one and that it feeds, and a
//! short name for each handle.
use vstd::prelude::*;
use vstd::string::StringExecFns;

use crate::pages::pairs_view;
use crate::repository::{find_named, has_named};
use crate::text::{chars_of, push_char};

verus! {

/// The shortest prefix of `handle`, from `k` characters up, that is not in `used`; the
/// whole handle where every such prefix is taken.
pub open spec fn free_prefix(handle: Seq<char>, used: Seq<(Seq<char>, Seq<char>)>, k: int) -> Seq<char>
    decreases handle.len() + 1 - k,
{
    if k < 1 || k > handle.len() {
        handle
    } else if !has_key(used, handle.take(k)) {
        handle.take(k)
    } else {
        free_prefix(handle, used, k + 1)
    }
}

/// Some pair has the key `key`.
pub open spec fn has_key(pairs: Seq<(Seq<char>, Seq<char>)>, key: Seq<char>) -> bool {
    exists|k: int| 0 <= k < pairs.len() && pairs[k].0 == key
}

/// The shortcut of `handle` when the shortcuts in `used` are taken: its shortest
/// prefix of at least one character that is still free, else the whole handle.
pub open spec fn shortcut_for(handle: Seq<char>, used: Seq<(Seq<char>, Seq<char>)>) -> Seq<char> {
    free_prefix(handle, used, 1)
}

/// The shortcuts taken, with their handles, after giving each handle of `order` its
/// shortcut in turn. A shortcut is taken only where it was free (a handle whose every
/// prefix is taken, or an empty handle, takes none).
pub open spec fn spec_shortcuts(order: Seq<Seq<char>>) -> Seq<(Seq<char>, Seq<char>)>
    decreases order.len(),
{
    if order.len() == 0 {
        seq![]
    } else {
        let prev = spec_shortcuts(order.drop_last());
        let handle = order.last();
        let s = shortcut_for(handle, prev);
        if s.len() > 0 && !has_key(prev, s) {
            prev.push((s, handle))
        } else {
            prev
        }
    }
}

/// A free prefix is a prefix of the handle.
proof fn lemma_free_prefix_is_prefix(handle: Seq<char>, used: Seq<(Seq<char>, Seq<char>)>, k: int)
    ensures
        free_prefix(handle, used, k).len() <= handle.len(),
        free_prefix(handle, used, k) == handle.take(free_prefix(handle, used, k).len() as int),
    decreases handle.len() + 1 - k,
{
    if k < 1 || k > handle.len() {
        assert(handle.take(handle.len() as int) =~= handle);
    } else if !has_key(used, handle.take(k)) {
        assert(handle.take(k).take(k) =~= handle.take(k));
        assert(handle.take(k).len() == k);
    } else {
        lemma_free_prefix_is_prefix(handle, used, k + 1);
    }
}

/// Every shortcut taken is a nonempty prefix of the handle it stands for, and no two
/// handles share a shortcut.
pub proof fn lemma_shortcuts_are_distinct_prefixes(order: Seq<Seq<char>>)
    ensures
        forall|i: int|
            0 <= i < spec_shortcuts(order).len() ==> {
                let (s, h) = #[trigger] spec_shortcuts(order)[i];
                &&& 0 < s.len() <= h.len()
                &&& s == h.take(s.len() as int)
            },
        forall|i: int, j: int|
            0 <= i < j < spec_shortcuts(order).len() ==> #[trigger] spec_shortcuts(order)[i].0
                != #[trigger] spec_shortcuts(order)[j].0,
    decreases order.len(),
{
    if order.len() > 0 {
        let prev = spec_shortcuts(order.drop_last());
        lemma_shortcuts_are_distinct_prefixes(order.drop_last());
        lemma_free_prefix_is_prefix(order.last(), prev, 1);
        let s = shortcut_for(order.last(), prev);
        if s.len() > 0 && !has_key(prev, s) {
            let p = spec_shortcuts(order);
            assert(p == prev.push((s, order.last())));
            assert forall|i: int, j: int| 0 <= i < j < p.len() implies #[trigger] p[i].0 != #[trigger] p[j].0 by {
                if j == prev.len() {
                    assert(p[i] == prev[i]);
                    if p[i].0 == s {
                        assert(has_key(prev, s));
                    }
                } else {
                    assert(p[i] == prev[i] && p[j] == prev[j]);
                }
            }
            assert forall|i: int| 0 <= i < p.len() implies {
                let (s, h) = #[trigger] p[i];
                &&& 0 < s.len() <= h.len()
                &&& s == h.take(s.len() as int)
            } by {
                if i < prev.len() {
                    assert(p[i] == prev[i]);
                }
            }
        }
    }
}

/// The handles of a list of strings.
pub open spec fn handles_of(v: Seq<String>) -> Seq<Seq<char>> {
    Seq::new(v.len(), |i: int| v[i]@)
}

/// Gives `handle` its shortcut, taking it in `used` where it was free.
fn to_shortcut(handle: &String, used: &mut Vec<(String, String)>) -> (s: String)
    ensures
        s@ == shortcut_for(handle@, pairs_view(old(used)@)),
        pairs_view(final(used)@) == if s@.len() > 0 && !has_key(pairs_view(old(used)@), s@) {
            pairs_view(old(used)@).push((s@, handle@))
        } else {
            pairs_view(old(used)@)
        },
{
    let ghost used0 = pairs_view(used@);
    let ghost h = handle@;
    let chars = chars_of(handle.as_str());
    let mut s = String::new();
    let mut k: usize = 0;
    while k < chars.len()
        invariant
            h == handle@,
            chars@ == h,
            used@ == old(used)@,
            used0 == pairs_view(used@),
            k <= h.len(),
            s@ == h.take(k as int),
            shortcut_for(h, used0) == free_prefix(h, used0, k + 1),
            k > 0 ==> has_key(used0, s@),
        decreases h.len() - k,
    {
        push_char(&mut s, chars[k]);
        k = k + 1;
        assert(s@ =~= h.take(k as int));
        let found = find_named(used, s.as_str());
        proof {
            assert(has_named(used@, s@) == has_key(used0, s@)) by {
                if has_named(used@, s@) {
                    let j = choose|j: int| 0 <= j < used@.len() && used@[j].0@ == s@;
                    assert(used0[j].0 == s@);
                }
                if has_key(used0, s@) {
                    let j = choose|j: int| 0 <= j < used0.len() && used0[j].0 == s@;
                    assert(used@[j].0@ == s@);
                }
            }
        }
        if found.is_none() {
            let entry = (s.clone(), handle.clone());
            used.push(entry);
            assert(pairs_view(used@) =~= used0.push((s@, h)));
            assert(shortcut_for(h, used0) == s@);
            return s;
        }
    }
    proof {
        assert(h.take(h.len() as int) =~= h);
        if h.len() > 0 {
            assert(has_key(used0, s@));
        }
    }
    s
}

/// The shortcuts of the handles of an execution order, given in turn, with the handle
/// each stands for.
pub fn to_shortcuts(order: &Vec<String>) -> (s: Vec<(String, String)>)
    ensures
        pairs_view(s@) == spec_shortcuts(handles_of(order@)),
{
    let mut used: Vec<(String, String)> = Vec::new();
    let mut i: usize = 0;
    while i < order.len()
        invariant
            i <= order@.len(),
            pairs_view(used@) == spec_shortcuts(handles_of(order@).take(i as int)),
        decreases order@.len() - i,
    {
        proof {
            let next = handles_of(order@).take(i + 1);
            assert(next.drop_last() =~= handles_of(order@).take(i as int));
            assert(next.last() == order@[i as int]@);
        }
        let _ = to_shortcut(&order[i], &mut used);
        i = i + 1;
    }
    assert(handles_of(order@).take(order@.len() as int) =~= handles_of(order@));
    used
}

/// What a rig's execution state holds for its view model: its groups of connected
/// components, the order in which its components run, and the dependencies of each
/// component of that order (at the same position).
pub struct ExecutionModel {
    pub groups: Vec<Vec<String>>,
    pub execution_order: Vec<String>,
    pub dependencies: Vec<Vec<String>>,
}

/// An execution state as handles.
pub struct ExecutionView {
    pub groups: Seq<Seq<Seq<char>>>,
    pub order: Seq<Seq<char>>,
    pub dependencies: Seq<Seq<Seq<char>>>,
}

impl ExecutionModel {
    pub open spec fn view(&self) -> ExecutionView {
        ExecutionView {
            groups: Seq::new(self.groups@.len(), |g: int| handles_of(self.groups@[g]@)),
            order: handles_of(self.execution_order@),
            dependencies: Seq::new(
                self.dependencies@.len(),
                |i: int| handles_of(self.dependencies@[i]@),
            ),
        }
    }

    /// What the engine keeps of an execution state: every component of the order has
    /// its dependencies, no component runs twice and no dependency is listed twice, the
    /// groups share no component, and each dependency of a component runs before it, in
    /// its group.
    pub open spec fn wf(&self) -> bool {
        self@.wf()
    }
}

impl ExecutionView {
    pub open spec fn wf(self) -> bool {
        &&& self.dependencies.len() == self.order.len()
        &&& self.order.no_duplicates()
        &&& forall|i: int| 0 <= i < self.order.len() ==> #[trigger] self.dependencies[i].no_duplicates()
        &&& forall|g1: int, g2: int, h: Seq<char>|
            0 <= g1 < g2 < self.groups.len() && #[trigger] self.groups[g1].contains(h)
                ==> !#[trigger] self.groups[g2].contains(h)
        &&& forall|g: int, i: int, d: Seq<char>|
            0 <= g < self.groups.len() && 0 <= i < self.order.len() && #[trigger] self.groups[g].contains(
                self.order[i],
            ) && #[trigger] self.dependencies[i].contains(d) ==> self.groups[g].contains(d) && exists|
                j: int,
            | 0 <= j < i && #[trigger] self.order[j] == d
    }
}

/// The positions in the execution order, below `n`, of the components of group `g`.
pub open spec fn rows_before(v: ExecutionView, g: int, n: int) -> Seq<int>
    decreases n,
{
    if n <= 0 {
        seq![]
    } else if v.groups[g].contains(v.order[n - 1]) {
        rows_before(v, g, n - 1).push(n - 1)
    } else {
        rows_before(v, g, n - 1)
    }
}

/// The rows of group `g`: the positions in the execution order of its components.
pub open spec fn rows(v: ExecutionView, g: int) -> Seq<int> {
    rows_before(v, g, v.order.len() as int)
}

/// The handles of the rows below execution position `n` of group `g`.
pub open spec fn row_handles_before(v: ExecutionView, g: int, n: int) -> Seq<Seq<char>> {
    Seq::new(rows_before(v, g, n).len(), |k: int| v.order[rows_before(v, g, n)[k]])
}

/// The handles of the rows of group `g`, in order.
pub open spec fn row_handles(v: ExecutionView, g: int) -> Seq<Seq<char>> {
    row_handles_before(v, g, v.order.len() as int)
}

/// The handles of the groups before `g`, in the order the view model visits them.
pub open spec fn visits_before(v: ExecutionView, g: int) -> Seq<Seq<char>>
    decreases g,
{
    if g <= 0 {
        seq![]
    } else {
        visits_before(v, g - 1) + row_handles(v, g - 1)
    }
}

/// Row `x` of group `g` feeds row `y`: its handle is a dependency of row `y`.
pub open spec fn feeds(v: ExecutionView, g: int, x: int, y: int) -> bool {
    &&& 0 <= x < rows(v, g).len()
    &&& 0 <= y < rows(v, g).len()
    &&& v.dependencies[rows(v, g)[y]].contains(v.order[rows(v, g)[x]])
}

/// `s` lists, in increasing order, exactly the rows that satisfy `member`.
pub open spec fn is_row_listing(s: Seq<usize>, member: spec_fn(int) -> bool) -> bool {
    &&& forall|i: int, j: int| 0 <= i < j < s.len() ==> s[i] < s[j]
    &&& forall|i: int| 0 <= i < s.len() ==> #[trigger] member(s[i] as int)
    &&& forall|x: int| #[trigger] member(x) ==> exists|i: int| 0 <= i < s.len() && s[i] == x
}

/// One component of the view model.
pub struct ComponentViewModel {
    pub handle: String,
    pub shortcut: String,
    pub group_index: usize,
    pub row_index: usize,
    /// The rows of its group that feed it, in increasing order.
    pub input_columns_indexes: Vec<usize>,
    /// The rows of its group that it feeds, in increasing order.
    pub output_row_indexes: Vec<usize>,
}

/// The components of one group, row by row.
pub struct ComponentGroupViewModel {
    pub components: Vec<ComponentViewModel>,
}

/// The view model of an execution state, group by group.
pub struct RigExecutionStateViewModel {
    pub groups: Vec<ComponentGroupViewModel>,
}

/// Row `r` of group `g` as the view model shows it: its handle; its shortcut, given
/// after those of the groups before and of the rows before it; its place; and the rows
/// that feed it and that it feeds.
pub open spec fn is_component_view(v: ExecutionView, g: int, r: int, c: ComponentViewModel) -> bool {
    &&& c.handle@ == row_handles(v, g)[r]
    &&& c.shortcut@ == shortcut_for(
        c.handle@,
        spec_shortcuts(visits_before(v, g) + row_handles(v, g).take(r)),
    )
    &&& c.group_index == g
    &&& c.row_index == r
    &&& is_row_listing(c.input_columns_indexes@, |x: int| feeds(v, g, x, r))
    &&& is_row_listing(c.output_row_indexes@, |x: int| feeds(v, g, r, x))
}

/// The view model of an execution state: one group for each of its groups, one
/// component for each row.
pub open spec fn is_view_model(v: ExecutionView, vm: RigExecutionStateViewModel) -> bool {
    &&& vm.groups@.len() == v.groups.len()
    &&& forall|g: int|
        0 <= g < v.groups.len() ==> (#[trigger] vm.groups@[g]).components@.len() == rows(v, g).len()
    &&& forall|g: int, r: int|
        0 <= g < v.groups.len() && 0 <= r < rows(v, g).len() ==> is_component_view(
            v,
            g,
            r,
            #[trigger] vm.groups@[g].components@[r],
        )
}

/// Whether `list` holds the handle `handle`.
fn contains_handle(list: &Vec<String>, handle: &String) -> (b: bool)
    ensures
        b == handles_of(list@).contains(handle@),
{
    let mut k: usize = 0;
    while k < list.len()
        invariant
            k <= list@.len(),
            forall|j: int| 0 <= j < k ==> list@[j]@ != handle@,
        decreases list@.len() - k,
    {
        if list[k] == *handle {
            assert(handles_of(list@)[k as int] == handle@);
            return true;
        }
        k = k + 1;
    }
    proof {
        if handles_of(list@).contains(handle@) {
            let j = choose|j: int| 0 <= j < list@.len() && handles_of(list@)[j] == handle@;
            assert(list@[j]@ == handle@);
        }
    }
    false
}

/// The rows of group `g` (their positions in the execution order) and the shortcut of
/// each, given in turn after those already in `used`.
fn group_rows(state: &ExecutionModel, g: usize, used: &mut Vec<(String, String)>) -> (r: (
    Vec<usize>,
    Vec<String>,
))
    requires
        g < state.groups@.len(),
        state.dependencies@.len() == state.execution_order@.len(),
        pairs_view(old(used)@) == spec_shortcuts(visits_before(state@, g as int)),
    ensures
        r.0@.len() == rows(state@, g as int).len(),
        r.1@.len() == r.0@.len(),
        forall|k: int| 0 <= k < r.0@.len() ==> r.0@[k] == rows(state@, g as int)[k],
        forall|k: int| 0 <= k < r.0@.len() ==> r.0@[k] < state.execution_order@.len(),
        forall|k: int|
            0 <= k < r.1@.len() ==> #[trigger] r.1@[k]@ == shortcut_for(
                row_handles(state@, g as int)[k],
                spec_shortcuts(visits_before(state@, g as int) + row_handles(state@, g as int).take(k)),
            ),
        pairs_view(final(used)@) == spec_shortcuts(visits_before(state@, g + 1)),
{
    let ghost v = state@;
    let ghost gi = g as int;
    let ghost before = visits_before(v, gi);
    let mut row_ids: Vec<usize> = Vec::new();
    let mut shortcuts: Vec<String> = Vec::new();
    let mut i: usize = 0;
    while i < state.execution_order.len()
        invariant
            v == state@,
            gi == g,
            g < state.groups@.len(),
            before == visits_before(v, gi),
            i <= v.order.len(),
            v.order.len() == state.execution_order@.len(),
            row_ids@.len() == rows_before(v, gi, i as int).len(),
            shortcuts@.len() == row_ids@.len(),
            forall|k: int| 0 <= k < row_ids@.len() ==> row_ids@[k] == rows_before(v, gi, i as int)[k],
            forall|k: int| 0 <= k < row_ids@.len() ==> row_ids@[k] < i,
            forall|k: int|
                0 <= k < shortcuts@.len() ==> #[trigger] shortcuts@[k]@ == shortcut_for(
                    row_handles_before(v, gi, i as int)[k],
                    spec_shortcuts(before + row_handles_before(v, gi, i as int).take(k)),
                ),
            pairs_view(used@) == spec_shortcuts(before + row_handles_before(v, gi, i as int)),
        decreases v.order.len() - i,
    {
        let ghost old_handles = row_handles_before(v, gi, i as int);
        let ghost old_shortcuts = shortcuts@;
        if contains_handle(&state.groups[g], &state.execution_order[i]) {
            proof {
                assert(v.groups[gi] == handles_of(state.groups@[gi]@));
                assert(v.order[i as int] == state.execution_order@[i as int]@);
            }
            let ghost new_handles = row_handles_before(v, gi, i + 1);
            assert(new_handles =~= old_handles.push(v.order[i as int]));
            assert((before + new_handles).drop_last() =~= before + old_handles);
            let shortcut = to_shortcut(&state.execution_order[i], used);
            row_ids.push(i);
            shortcuts.push(shortcut);
            proof {
                assert forall|k: int| 0 <= k < shortcuts@.len() implies #[trigger] shortcuts@[k]@
                    == shortcut_for(
                    row_handles_before(v, gi, i + 1)[k],
                    spec_shortcuts(before + row_handles_before(v, gi, i + 1).take(k)),
                ) by {
                    assert(new_handles.take(k) =~= if k < old_handles.len() {
                        old_handles.take(k)
                    } else {
                        old_handles
                    });
                    if k < old_handles.len() {
                        assert(shortcuts@[k] == old_shortcuts[k]);
                    }
                }
            }
        } else {
            proof {
                assert(v.groups[gi] == handles_of(state.groups@[gi]@));
                assert(v.order[i as int] == state.execution_order@[i as int]@);
                assert(row_handles_before(v, gi, i + 1) =~= old_handles);
            }
        }
        i = i + 1;
    }
    proof {
        assert(visits_before(v, gi + 1) == before + row_handles(v, gi));
    }
    (row_ids, shortcuts)
}

/// Row `r` of group `g` and row `x` are linked: `x` feeds `r` where `inputs`, else `r`
/// feeds `x`.
pub open spec fn linked(v: ExecutionView, g: int, r: int, x: int, inputs: bool) -> bool {
    if inputs {
        feeds(v, g, x, r)
    } else {
        feeds(v, g, r, x)
    }
}

/// The rows of group `g` that feed row `r` (where `inputs`) or that row `r` feeds, in
/// increasing order.
fn linked_rows(state: &ExecutionModel, g: usize, row_ids: &Vec<usize>, r: usize, inputs: bool) -> (s: Vec<usize>)
    requires
        g < state.groups@.len(),
        state.dependencies@.len() == state.execution_order@.len(),
        row_ids@.len() == rows(state@, g as int).len(),
        forall|k: int| 0 <= k < row_ids@.len() ==> row_ids@[k] == rows(state@, g as int)[k],
        forall|k: int| 0 <= k < row_ids@.len() ==> row_ids@[k] < state.execution_order@.len(),
        r < row_ids@.len(),
    ensures
        is_row_listing(s@, |x: int| linked(state@, g as int, r as int, x, inputs)),
{
    let ghost v = state@;
    let ghost member = |x: int| linked(v, g as int, r as int, x, inputs);
    let mut s: Vec<usize> = Vec::new();
    let mut x: usize = 0;
    while x < row_ids.len()
        invariant
            v == state@,
            member == (|x: int| linked(v, g as int, r as int, x, inputs)),
            x <= row_ids@.len(),
            row_ids@.len() == rows(v, g as int).len(),
            forall|k: int| 0 <= k < row_ids@.len() ==> row_ids@[k] == rows(v, g as int)[k],
            forall|k: int| 0 <= k < row_ids@.len() ==> row_ids@[k] < state.execution_order@.len(),
            state.dependencies@.len() == state.execution_order@.len(),
            r < row_ids@.len(),
            forall|i: int, j: int| 0 <= i < j < s@.len() ==> s@[i] < s@[j],
            forall|i: int| 0 <= i < s@.len() ==> s@[i] < x,
            forall|i: int| 0 <= i < s@.len() ==> #[trigger] member(s@[i] as int),
            forall|y: int| 0 <= y < x && #[trigger] member(y) ==> exists|i: int|
                0 <= i < s@.len() && s@[i] == y,
        decreases row_ids@.len() - x,
    {
        let (source, target) = if inputs {
            (x, r)
        } else {
            (r, x)
        };
        let found = contains_handle(
            &state.dependencies[row_ids[target]],
            &state.execution_order[row_ids[source]],
        );
        proof {
            assert(v.dependencies[row_ids@[target as int] as int] == handles_of(
                state.dependencies@[row_ids@[target as int] as int]@,
            ));
            assert(v.order[row_ids@[source as int] as int] == state.execution_order@[row_ids@[source as int] as int]@);
            assert(found == member(x as int));
        }
        if found {
            let ghost old_s = s@;
            s.push(x);
            proof {
                assert forall|y: int| 0 <= y < x + 1 && #[trigger] member(y) implies exists|i: int|
                    0 <= i < s@.len() && s@[i] == y by {
                    if y < x {
                        let i = choose|i: int| 0 <= i < old_s.len() && old_s[i] == y;
                        assert(s@[i] == y);
                    } else {
                        assert(s@[old_s.len() as int] == y);
                    }
                }
            }
        } else {
            proof {
                assert forall|y: int| 0 <= y < x + 1 && #[trigger] member(y) implies exists|i: int|
                    0 <= i < s@.len() && s@[i] == y by {
                    assert(y != x);
                }
            }
        }
        x = x + 1;
    }
    proof {
        assert forall|y: int| #[trigger] member(y) implies exists|i: int| 0 <= i < s@.len() && s@[i] == y by {
            assert(0 <= y < row_ids@.len());
        }
    }
    s
}

/// The view model of an execution state: for each group, its components in execution
/// order, each with its shortcut (given group by group, row by row, as `to_shortcut`
/// gives them), its group and row, and the rows of its group that feed it and that it
/// feeds, in increasing order.
pub fn to_view_model(state: &ExecutionModel) -> (vm: RigExecutionStateViewModel)
    requires
        state.wf(),
    ensures
        is_view_model(state@, vm),
{
    let ghost v = state@;
    let mut used: Vec<(String, String)> = Vec::new();
    let mut groups: Vec<ComponentGroupViewModel> = Vec::new();
    let mut g: usize = 0;
    while g < state.groups.len()
        invariant
            v == state@,
            v.wf(),
            g <= v.groups.len(),
            v.groups.len() == state.groups@.len(),
            state.dependencies@.len() == state.execution_order@.len(),
            groups@.len() == g,
            forall|gg: int|
                0 <= gg < g ==> (#[trigger] groups@[gg]).components@.len() == rows(v, gg).len(),
            forall|gg: int, r: int|
                0 <= gg < g && 0 <= r < rows(v, gg).len() ==> is_component_view(
                    v,
                    gg,
                    r,
                    #[trigger] groups@[gg].components@[r],
                ),
            pairs_view(used@) == spec_shortcuts(visits_before(v, g as int)),
        decreases v.groups.len() - g,
    {
        let (row_ids, shortcuts) = group_rows(state, g, &mut used);
        let mut components: Vec<ComponentViewModel> = Vec::new();
        let mut r: usize = 0;
        while r < row_ids.len()
            invariant
                v == state@,
                g < v.groups.len(),
                v.groups.len() == state.groups@.len(),
                state.dependencies@.len() == state.execution_order@.len(),
                r <= row_ids@.len(),
                row_ids@.len() == rows(v, g as int).len(),
                shortcuts@.len() == row_ids@.len(),
                forall|k: int| 0 <= k < row_ids@.len() ==> row_ids@[k] == rows(v, g as int)[k],
                forall|k: int| 0 <= k < row_ids@.len() ==> row_ids@[k] < state.execution_order@.len(),
                forall|k: int|
                    0 <= k < shortcuts@.len() ==> #[trigger] shortcuts@[k]@ == shortcut_for(
                        row_handles(v, g as int)[k],
                        spec_shortcuts(visits_before(v, g as int) + row_handles(v, g as int).take(k)),
                    ),
                components@.len() == r,
                forall|k: int|
                    0 <= k < r ==> is_component_view(v, g as int, k, #[trigger] components@[k]),
            decreases row_ids@.len() - r,
        {
            let inputs = linked_rows(state, g, &row_ids, r, true);
            let outputs = linked_rows(state, g, &row_ids, r, false);
            let handle = state.execution_order[row_ids[r]].clone();
            let component = ComponentViewModel {
                handle,
                shortcut: shortcuts[r].clone(),
                group_index: g,
                row_index: r,
                input_columns_indexes: inputs,
                output_row_indexes: outputs,
            };
            proof {
                assert(row_handles(v, g as int)[r as int] == v.order[rows(v, g as int)[r as int]]);
                assert(component.handle@ == row_handles(v, g as int)[r as int]);
                assert(is_row_listing(
                    component.input_columns_indexes@,
                    |x: int| feeds(v, g as int, x, r as int),
                )) by {
                    assert((|x: int| linked(v, g as int, r as int, x, true)) =~= (|x: int|
                        feeds(v, g as int, x, r as int)));
                }
                assert(is_row_listing(
                    component.output_row_indexes@,
                    |x: int| feeds(v, g as int, r as int, x),
                )) by {
                    assert((|x: int| linked(v, g as int, r as int, x, false)) =~= (|x: int|
                        feeds(v, g as int, r as int, x)));
                }
            }
            components.push(component);
            r = r + 1;
        }
        groups.push(ComponentGroupViewModel { components });
        g = g + 1;
    }
    RigExecutionStateViewModel { groups }
}

} // verus!
