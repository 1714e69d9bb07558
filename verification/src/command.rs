use vstd::prelude::*;

verus! {

/// The groups that the occurrences of `sep` cut `s` into, in order: every
/// separator ends one group and opens the next, so a separator at either end
/// or two in a row give an empty group, and an empty `s` is one empty group.
pub open spec fn split_seq<T>(s: Seq<T>, sep: T) -> Seq<Seq<T>>
    decreases s.len(),
{
    if s.len() == 0 {
        seq![Seq::empty()]
    } else {
        let groups = split_seq(s.drop_last(), sep);
        if s.last() == sep {
            groups.push(Seq::empty())
        } else {
            groups.update(groups.len() - 1, groups.last().push(s.last()))
        }
    }
}

/// The groups written one after the other with `sep` between each two.
pub open spec fn join_seq<T>(groups: Seq<Seq<T>>, sep: T) -> Seq<T>
    decreases groups.len(),
{
    if groups.len() == 0 {
        Seq::empty()
    } else if groups.len() == 1 {
        groups[0]
    } else {
        join_seq(groups.drop_last(), sep).push(sep) + groups.last()
    }
}

/// The groups that are not empty, in their order.
pub open spec fn drop_empty<T>(groups: Seq<Seq<T>>) -> Seq<Seq<T>>
    decreases groups.len(),
{
    if groups.len() == 0 {
        Seq::empty()
    } else {
        let kept = drop_empty(groups.drop_last());
        if groups.last().len() == 0 {
            kept
        } else {
            kept.push(groups.last())
        }
    }
}

/// How many times `x` occurs in `s`.
pub open spec fn occurrences<T>(s: Seq<T>, x: T) -> nat
    decreases s.len(),
{
    if s.len() == 0 {
        0
    } else {
        occurrences(s.drop_last(), x) + if s.last() == x { 1nat } else { 0nat }
    }
}

/// There is always at least one group.
pub proof fn lemma_split_nonempty<T>(s: Seq<T>, sep: T)
    ensures
        split_seq(s, sep).len() >= 1,
    decreases s.len(),
{
    if s.len() > 0 {
        lemma_split_nonempty(s.drop_last(), sep);
    }
}

/// A sequence that does not start with the separator has a non-empty first group.
pub proof fn lemma_split_first_group<T>(s: Seq<T>, sep: T)
    requires
        s.len() > 0,
        s[0] != sep,
    ensures
        split_seq(s, sep).len() >= 1,
        split_seq(s, sep)[0].len() > 0,
    decreases s.len(),
{
    lemma_split_nonempty(s, sep);
    let rest = s.drop_last();
    lemma_split_nonempty(rest, sep);
    if s.len() > 1 {
        lemma_split_first_group(rest, sep);
    }
}

/// Splitting on a separator and joining the groups back with it gives the
/// sequence that was split.
pub proof fn law_join_undoes_split<T>(s: Seq<T>, sep: T)
    ensures
        join_seq(split_seq(s, sep), sep) == s,
    decreases s.len(),
{
    if s.len() == 0 {
        assert(join_seq(split_seq(s, sep), sep) =~= s);
    } else {
        let rest = s.drop_last();
        let groups = split_seq(rest, sep);
        law_join_undoes_split(rest, sep);
        lemma_split_nonempty(rest, sep);
        if s.last() == sep {
            let g2 = groups.push(Seq::empty());
            assert(g2.drop_last() =~= groups);
            assert(join_seq(g2, sep) =~= s);
        } else {
            let g2 = groups.update(groups.len() - 1, groups.last().push(s.last()));
            if groups.len() == 1 {
                assert(join_seq(g2, sep) =~= s);
            } else {
                let head = join_seq(groups.drop_last(), sep).push(sep);
                assert(g2.drop_last() =~= groups.drop_last());
                assert(join_seq(g2, sep) == head + groups.last().push(s.last()));
                assert(join_seq(groups, sep) == head + groups.last());
                assert(head + groups.last().push(s.last()) =~= (head + groups.last()).push(s.last()));
                assert(rest.push(s.last()) =~= s);
            }
        }
    }
}

/// There is one group more than there are separators.
pub proof fn law_one_group_per_separator_and_one<T>(s: Seq<T>, sep: T)
    ensures
        split_seq(s, sep).len() == occurrences(s, sep) + 1,
    decreases s.len(),
{
    if s.len() > 0 {
        law_one_group_per_separator_and_one(s.drop_last(), sep);
        lemma_split_nonempty(s.drop_last(), sep);
    }
}

/// Every group that `drop_empty` keeps is non-empty, and each of them is one
/// of the groups it was given.
pub proof fn law_kept_groups_are_nonempty<T>(groups: Seq<Seq<T>>)
    ensures
        forall|i: int| 0 <= i < drop_empty(groups).len() ==> (#[trigger] drop_empty(groups)[i]).len() > 0
            && groups.contains(drop_empty(groups)[i]),
    decreases groups.len(),
{
    if groups.len() > 0 {
        let rest = groups.drop_last();
        law_kept_groups_are_nonempty(rest);
        let kept = drop_empty(groups);
        assert forall|i: int| 0 <= i < kept.len() implies (#[trigger] kept[i]).len() > 0
            && groups.contains(kept[i]) by {
            if i < drop_empty(rest).len() {
                assert(kept[i] == drop_empty(rest)[i]);
                let j = choose|j: int| 0 <= j < rest.len() && rest[j] == kept[i];
                assert(groups[j] == kept[i]);
            } else {
                assert(groups[groups.len() - 1] == kept[i]);
            }
        }
    }
}

/// `drop_empty` keeps exactly the non-empty groups, each once and in their
/// order: it is the filter of the groups by non-emptiness.
pub proof fn law_drop_empty_is_filter_nonempty<T>(groups: Seq<Seq<T>>)
    ensures
        drop_empty(groups) == groups.filter(|g: Seq<T>| g.len() > 0),
    decreases groups.len(),
{
    reveal(Seq::filter);
    if groups.len() > 0 {
        law_drop_empty_is_filter_nonempty(groups.drop_last());
    }
}

/// `drop_empty` keeps every non-empty group and as many groups as there are
/// non-empty ones.
pub proof fn law_drop_empty_keeps_every_nonempty_group<T>(groups: Seq<Seq<T>>)
    ensures
        forall|i: int| 0 <= i < groups.len() && (#[trigger] groups[i]).len() > 0
            ==> drop_empty(groups).contains(groups[i]),
        drop_empty(groups).len() == groups.filter(|g: Seq<T>| g.len() > 0).len(),
{
    law_drop_empty_is_filter_nonempty(groups);
    assert forall|i: int| 0 <= i < groups.len() && (#[trigger] groups[i]).len() > 0
        implies drop_empty(groups).contains(groups[i]) by {
        groups.lemma_filter_contains(|g: Seq<T>| g.len() > 0, i);
    }
}

/// Each group followed by one separator, all written out in order, is the
/// split sequence followed by one separator: the groups are the stretches
/// between separators, none lost, added or reordered.
pub proof fn law_groups_with_separators_spell_the_input<T>(s: Seq<T>, sep: T)
    ensures
        split_seq(s, sep).map_values(|g: Seq<T>| g.push(sep)).flatten() == s.push(sep),
    decreases s.len(),
{
    broadcast use Seq::lemma_flatten_push;
    let f = |g: Seq<T>| g.push(sep);
    if s.len() == 0 {
        let m = split_seq(s, sep).map_values(f);
        assert(m =~= seq![seq![sep]]);
        assert(Seq::<Seq<T>>::empty().push(seq![sep]) =~= m);
        assert(Seq::<Seq<T>>::empty().flatten() =~= Seq::<T>::empty());
        assert(m.flatten() =~= s.push(sep));
    } else {
        let rest = s.drop_last();
        let x = s.last();
        let groups = split_seq(rest, sep);
        lemma_split_nonempty(rest, sep);
        law_groups_with_separators_spell_the_input(rest, sep);
        let mg = groups.map_values(f);
        assert(mg.flatten() == rest.push(sep));
        if x == sep {
            let m = groups.push(Seq::empty()).map_values(f);
            assert(m =~= mg.push(seq![sep]));
            assert(m.flatten() =~= s.push(sep));
        } else {
            let n = groups.len();
            let front = groups.drop_last().map_values(f);
            assert(mg =~= front.push(groups.last().push(sep)));
            assert(front.flatten() + groups.last().push(sep) == rest.push(sep));
            let m = groups.update(n - 1, groups.last().push(x)).map_values(f);
            assert(m =~= front.push(groups.last().push(x).push(sep)));
            assert(front.flatten() + groups.last() =~= rest) by {
                assert((front.flatten() + groups.last()).push(sep) =~= front.flatten() + groups.last().push(sep));
                assert((front.flatten() + groups.last()).push(sep) == rest.push(sep));
                assert((front.flatten() + groups.last()) =~= (front.flatten() + groups.last()).push(sep).drop_last());
                assert(rest =~= rest.push(sep).drop_last());
            }
            assert(m.flatten() =~= front.flatten() + groups.last().push(x).push(sep));
            assert(front.flatten() + groups.last().push(x).push(sep) =~= rest.push(x).push(sep));
            assert(rest.push(x) =~= s);
        }
    }
}

/// No group holds the separator.
pub proof fn law_groups_hold_no_separator<T>(s: Seq<T>, sep: T)
    ensures
        forall|i: int| 0 <= i < split_seq(s, sep).len() ==> !(#[trigger] split_seq(s, sep)[i]).contains(sep),
    decreases s.len(),
{
    if s.len() > 0 {
        let rest = s.drop_last();
        let groups = split_seq(rest, sep);
        law_groups_hold_no_separator(rest, sep);
        lemma_split_nonempty(rest, sep);
        let g2 = split_seq(s, sep);
        assert forall|i: int| 0 <= i < g2.len() implies !(#[trigger] g2[i]).contains(sep) by {
            if s.last() != sep && i == groups.len() - 1 {
                let last = groups.last();
                assert(!last.contains(sep));
                if g2[i].contains(sep) {
                    let j = choose|j: int| 0 <= j < g2[i].len() && g2[i][j] == sep;
                    if j < last.len() {
                        assert(last[j] == sep);
                    }
                }
            } else if i < groups.len() {
                assert(g2[i] == groups[i]);
            }
        }
    }
}

/// Cuts `args` into the groups that the arguments equal to `sep` delimit, as
/// `split_seq` describes; the separators themselves are left out.
pub fn split_on(args: &Vec<String>, sep: &String) -> (groups: Vec<Vec<String>>)
    ensures
        groups.deep_view() == split_seq(args.deep_view(), sep@),
{
    let mut groups: Vec<Vec<String>> = Vec::new();
    let mut current: Vec<String> = Vec::new();
    let mut i: usize = 0;
    assert(args.deep_view().take(0) =~= Seq::<Seq<char>>::empty());
    assert(groups.deep_view() =~= Seq::<Seq<Seq<char>>>::empty());
    assert(current.deep_view() =~= Seq::<Seq<char>>::empty());
    assert(groups.deep_view().push(current.deep_view()) =~= seq![Seq::<Seq<char>>::empty()]);
    while i < args.len()
        invariant
            i <= args.len(),
            groups.deep_view().push(current.deep_view()) == split_seq(
                args.deep_view().take(i as int),
                sep@,
            ),
        decreases args.len() - i,
    {
        let ghost done = groups.deep_view();
        let ghost cur = current.deep_view();
        let ghost prefix = args.deep_view().take(i as int);
        assert(args.deep_view().take(i + 1).drop_last() =~= prefix);
        assert(args.deep_view().take(i + 1).last() == args@[i as int]@);
        if args[i] == *sep {
            let mut finished: Vec<String> = Vec::new();
            std::mem::swap(&mut finished, &mut current);
            groups.push(finished);
            assert(groups.deep_view() =~= done.push(cur));
            assert(current.deep_view() =~= Seq::<Seq<char>>::empty());
            assert(groups.deep_view().push(current.deep_view()) =~= split_seq(
                args.deep_view().take(i + 1),
                sep@,
            ));
        } else {
            current.push(args[i].clone());
            assert(current.deep_view() =~= cur.push(args@[i as int]@));
            assert(groups.deep_view().push(current.deep_view()) =~= split_seq(
                args.deep_view().take(i + 1),
                sep@,
            ));
        }
        i = i + 1;
    }
    let ghost done = groups.deep_view();
    let ghost cur = current.deep_view();
    groups.push(current);
    assert(groups.deep_view() =~= done.push(cur));
    assert(args.deep_view().take(args.len() as int) =~= args.deep_view());
    groups
}

/// A copy of a list of strings with the same contents.
fn copy_strings(v: &Vec<String>) -> (c: Vec<String>)
    ensures
        c.deep_view() == v.deep_view(),
{
    let c = v.clone();
    assert forall|i: int| 0 <= i < v.len() implies c@[i] == v@[i] by {
        assert(cloned::<String>(v[i], c[i]));
    }
    assert(c.deep_view() =~= v.deep_view());
    c
}

/// The commands that a command line holds: the groups of arguments between
/// the `--` separators, without the empty ones.
pub fn commands_to_run(args: &Vec<String>) -> (commands: Vec<Vec<String>>)
    ensures
        commands.deep_view() == drop_empty(split_seq(args.deep_view(), "--"@)),
{
    let sep = "--".to_owned();
    let groups = split_on(args, &sep);
    let mut commands: Vec<Vec<String>> = Vec::new();
    let mut j: usize = 0;
    assert(groups.deep_view().take(0) =~= Seq::<Seq<Seq<char>>>::empty());
    assert(commands.deep_view() =~= Seq::<Seq<Seq<char>>>::empty());
    while j < groups.len()
        invariant
            j <= groups.len(),
            commands.deep_view() == drop_empty(groups.deep_view().take(j as int)),
        decreases groups.len() - j,
    {
        let ghost before = commands.deep_view();
        assert(groups.deep_view().take(j + 1).drop_last() =~= groups.deep_view().take(j as int));
        assert(groups.deep_view().take(j + 1).last() == groups@[j as int].deep_view());
        if groups[j].len() > 0 {
            let command = copy_strings(&groups[j]);
            commands.push(command);
            assert(commands.deep_view() =~= before.push(groups@[j as int].deep_view()));
        }
        j = j + 1;
    }
    assert(groups.deep_view().take(groups.len() as int) =~= groups.deep_view());
    commands
}

/// A program to start and the arguments to give it.
pub struct Invocation {
    pub program: String,
    pub args: Vec<String>,
}

/// `inv` starts the first argument of `group` with the rest as its arguments.
pub open spec fn invokes(inv: Invocation, group: Seq<Seq<char>>) -> bool {
    &&& group.len() > 0
    &&& inv.program@ == group[0]
    &&& inv.args.deep_view() == group.drop_first()
}

/// An invocation of a group is the group itself: its program followed by all
/// of its arguments, with one argument fewer than the group has entries.
pub proof fn law_invocation_rebuilds_group(inv: Invocation, group: Seq<Seq<char>>)
    requires
        invokes(inv, group),
    ensures
        seq![inv.program@] + inv.args.deep_view() == group,
        inv.args.len() == group.len() - 1,
        group.len() >= 1,
{
    assert(seq![inv.program@] + inv.args.deep_view() =~= group);
}

/// What one command asks for: a program to run and, optionally, a program to
/// run once the first has finished.
pub struct RunPlan {
    pub main: Invocation,
    pub callback: Option<Invocation>,
}

/// The plan of one command: the arguments before the first `--cb` name the
/// program to run and its arguments; the group after it, if there is one and
/// it is not empty, names the callback program and its arguments. Groups
/// after a second `--cb` are ignored.
pub fn parse_run_plan(command: &Vec<String>) -> (plan: RunPlan)
    requires
        command.len() > 0,
        command@[0]@ != "--cb"@,
    ensures
        invokes(plan.main, split_seq(command.deep_view(), "--cb"@)[0]),
        plan.callback is Some <==> (split_seq(command.deep_view(), "--cb"@).len() > 1
            && split_seq(command.deep_view(), "--cb"@)[1].len() > 0),
        plan.callback matches Some(cb) ==> invokes(cb, split_seq(command.deep_view(), "--cb"@)[1]),
{
    let sep = "--cb".to_owned();
    let mut task_args = split_on(command, &sep);
    let ghost groups = task_args.deep_view();
    proof {
        lemma_split_first_group(command.deep_view(), sep@);
    }
    assert(task_args@[0].deep_view() == groups[0]);
    let mut main_args = task_args.remove(0);
    let ghost main_group = main_args.deep_view();
    let program = main_args.remove(0);
    assert(main_args.deep_view() =~= main_group.drop_first());
    let main = Invocation { program, args: main_args };
    let callback = if task_args.len() > 0 {
        assert(task_args@[0].deep_view() == groups[1]);
        let mut callback_args = task_args.remove(0);
        let ghost callback_group = callback_args.deep_view();
        if callback_args.len() > 0 {
            let callback_program = callback_args.remove(0);
            assert(callback_args.deep_view() =~= callback_group.drop_first());
            Some(Invocation { program: callback_program, args: callback_args })
        } else {
            None
        }
    } else {
        None
    };
    RunPlan { main, callback }
}

} // verus!
