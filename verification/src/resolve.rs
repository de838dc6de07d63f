//! Overload resolution: the choice of the one member that a name and a list
//! of marshaled argument types select.

use vstd::prelude::*;
use crate::classes::{assignable, ClassModel, ClassTable, Member, MemberModel, members_model};

verus! {

/// Whether values of the types `from` can be passed, position by position,
/// where the types `to` are expected.
pub open spec fn params_assignable(
    classes: Seq<ClassModel>,
    from: Seq<Seq<char>>,
    to: Seq<Seq<char>>,
) -> bool {
    from.len() == to.len() && forall|i: int|
        0 <= i < from.len() ==> #[trigger] assignable(classes, from[i], to[i])
}

/// Whether the member can be called by `name` with arguments of the types
/// `arg_types`. With `statics_only`, only a static member can.
pub open spec fn applicable(
    classes: Seq<ClassModel>,
    member: MemberModel,
    name: Seq<char>,
    arg_types: Seq<Seq<char>>,
    statics_only: bool,
) -> bool {
    member.name == name && (statics_only ==> member.is_static) && params_assignable(
        classes,
        arg_types,
        member.params,
    )
}

/// Whether `a` is strictly more specific than `b`: the parameters of `a` can
/// be passed to `b`, and not the other way round.
pub open spec fn more_specific(classes: Seq<ClassModel>, a: MemberModel, b: MemberModel) -> bool {
    params_assignable(classes, a.params, b.params) && !params_assignable(
        classes,
        b.params,
        a.params,
    )
}

/// Whether the member at `choice` is the one the call selects: it is
/// applicable, and strictly more specific than every other applicable member.
pub open spec fn is_choice(
    classes: Seq<ClassModel>,
    members: Seq<MemberModel>,
    name: Seq<char>,
    arg_types: Seq<Seq<char>>,
    statics_only: bool,
    choice: int,
) -> bool {
    &&& 0 <= choice < members.len()
    &&& applicable(classes, members[choice], name, arg_types, statics_only)
    &&& forall|j: int|
        0 <= j < members.len() && j != choice && applicable(
            classes,
            #[trigger] members[j],
            name,
            arg_types,
            statics_only,
        ) ==> more_specific(classes, members[choice], members[j])
}

/// Whether the call selects any member at all.
pub open spec fn has_choice(
    classes: Seq<ClassModel>,
    members: Seq<MemberModel>,
    name: Seq<char>,
    arg_types: Seq<Seq<char>>,
    statics_only: bool,
) -> bool {
    exists|i: int| is_choice(classes, members, name, arg_types, statics_only, i)
}

/// The member the call selects, where it selects one.
pub open spec fn choice_of(
    classes: Seq<ClassModel>,
    members: Seq<MemberModel>,
    name: Seq<char>,
    arg_types: Seq<Seq<char>>,
    statics_only: bool,
) -> int {
    choose|i: int| is_choice(classes, members, name, arg_types, statics_only, i)
}

/// A call selects at most one member.
pub proof fn lemma_choice_is_unique(
    classes: Seq<ClassModel>,
    members: Seq<MemberModel>,
    name: Seq<char>,
    arg_types: Seq<Seq<char>>,
    statics_only: bool,
    i: int,
    k: int,
)
    requires
        is_choice(classes, members, name, arg_types, statics_only, i),
        is_choice(classes, members, name, arg_types, statics_only, k),
    ensures
        i == k,
{
    if i != k {
        assert(more_specific(classes, members[i], members[k]));
        assert(more_specific(classes, members[k], members[i]));
    }
}

/// A call to which exactly one member is applicable selects that member.
pub proof fn lemma_only_applicable_is_chosen(
    classes: Seq<ClassModel>,
    members: Seq<MemberModel>,
    name: Seq<char>,
    arg_types: Seq<Seq<char>>,
    statics_only: bool,
    i: int,
)
    requires
        0 <= i < members.len(),
        applicable(classes, members[i], name, arg_types, statics_only),
        forall|j: int|
            0 <= j < members.len() && j != i ==> !applicable(
                classes,
                #[trigger] members[j],
                name,
                arg_types,
                statics_only,
            ),
    ensures
        is_choice(classes, members, name, arg_types, statics_only, i),
        has_choice(classes, members, name, arg_types, statics_only),
        choice_of(classes, members, name, arg_types, statics_only) == i,
{
    assert(is_choice(classes, members, name, arg_types, statics_only, i));
    let c = choice_of(classes, members, name, arg_types, statics_only);
    lemma_choice_is_unique(classes, members, name, arg_types, statics_only, i, c);
}

/// Among two applicable members of which one is strictly more specific, and
/// no third, a call selects the more specific one.
pub proof fn lemma_more_specific_is_chosen(
    classes: Seq<ClassModel>,
    members: Seq<MemberModel>,
    name: Seq<char>,
    arg_types: Seq<Seq<char>>,
    statics_only: bool,
    i: int,
    k: int,
)
    requires
        0 <= i < members.len(),
        0 <= k < members.len(),
        i != k,
        applicable(classes, members[i], name, arg_types, statics_only),
        more_specific(classes, members[i], members[k]),
        forall|j: int|
            0 <= j < members.len() && j != i && j != k ==> !applicable(
                classes,
                #[trigger] members[j],
                name,
                arg_types,
                statics_only,
            ),
    ensures
        is_choice(classes, members, name, arg_types, statics_only, i),
        !is_choice(classes, members, name, arg_types, statics_only, k),
{
    if is_choice(classes, members, name, arg_types, statics_only, k) {
        lemma_choice_is_unique(classes, members, name, arg_types, statics_only, i, k);
    }
}

/// A name that no member bears selects nothing.
pub proof fn lemma_unknown_name_selects_nothing(
    classes: Seq<ClassModel>,
    members: Seq<MemberModel>,
    name: Seq<char>,
    arg_types: Seq<Seq<char>>,
    statics_only: bool,
)
    requires
        forall|i: int| 0 <= i < members.len() ==> (#[trigger] members[i]).name != name,
    ensures
        !has_choice(classes, members, name, arg_types, statics_only),
{
}

/// Decides [`params_assignable`].
pub fn check_params(table: &ClassTable, from: &Vec<String>, to: &Vec<String>) -> (r: bool)
    ensures
        r == params_assignable(table@, from.deep_view(), to.deep_view()),
{
    if from.len() != to.len() {
        return false;
    }
    let mut i: usize = 0;
    while i < from.len()
        invariant
            i <= from.len(),
            from.len() == to.len(),
            forall|j: int|
                0 <= j < i ==> #[trigger] assignable(
                    table@,
                    from.deep_view()[j],
                    to.deep_view()[j],
                ),
        decreases from.len() - i,
    {
        if !table.is_assignable(&from[i], &to[i]) {
            assert(!assignable(table@, from.deep_view()[i as int], to.deep_view()[i as int]));
            return false;
        }
        i += 1;
    }
    true
}

/// Decides [`applicable`].
pub fn check_applicable(
    table: &ClassTable,
    member: &Member,
    name: &String,
    arg_types: &Vec<String>,
    statics_only: bool,
) -> (r: bool)
    ensures
        r == applicable(table@, member@, name@, arg_types.deep_view(), statics_only),
{
    if !(member.name == *name) {
        return false;
    }
    if statics_only && !member.is_static {
        return false;
    }
    check_params(table, arg_types, &member.params)
}

/// Decides whether the applicable member at `choice` is strictly more
/// specific than every other applicable member.
fn check_choice(
    table: &ClassTable,
    members: &Vec<Member>,
    name: &String,
    arg_types: &Vec<String>,
    statics_only: bool,
    choice: usize,
) -> (r: bool)
    requires
        choice < members.len(),
        applicable(table@, members[choice as int]@, name@, arg_types.deep_view(), statics_only),
    ensures
        r == is_choice(
            table@,
            members_model(members@),
            name@,
            arg_types.deep_view(),
            statics_only,
            choice as int,
        ),
{
    let ghost ms = members_model(members@);
    let mut j: usize = 0;
    while j < members.len()
        invariant
            j <= members.len(),
            choice < members.len(),
            ms == members_model(members@),
            forall|k: int|
                0 <= k < j && k != choice && applicable(
                    table@,
                    #[trigger] ms[k],
                    name@,
                    arg_types.deep_view(),
                    statics_only,
                ) ==> more_specific(table@, ms[choice as int], ms[k]),
        decreases members.len() - j,
    {
        if j != choice && check_applicable(table, &members[j], name, arg_types, statics_only) {
            let forth = check_params(table, &members[choice].params, &members[j].params);
            let back = check_params(table, &members[j].params, &members[choice].params);
            if !forth || back {
                assert(applicable(table@, ms[j as int], name@, arg_types.deep_view(), statics_only));
                assert(!more_specific(table@, ms[choice as int], ms[j as int]));
                return false;
            }
        }
        j += 1;
    }
    true
}

/// Resolves a call: the position of the member that `name` and `arg_types`
/// select among `members`, or `None` where they select none, because no
/// member is applicable or no applicable member is the most specific.
pub fn resolve(
    table: &ClassTable,
    members: &Vec<Member>,
    name: &String,
    arg_types: &Vec<String>,
    statics_only: bool,
) -> (r: Option<usize>)
    ensures
        match r {
            Some(i) => is_choice(
                table@,
                members_model(members@),
                name@,
                arg_types.deep_view(),
                statics_only,
                i as int,
            ),
            None => !has_choice(
                table@,
                members_model(members@),
                name@,
                arg_types.deep_view(),
                statics_only,
            ),
        },
{
    let ghost ms = members_model(members@);
    let mut i: usize = 0;
    while i < members.len()
        invariant
            i <= members.len(),
            ms == members_model(members@),
            forall|k: int|
                0 <= k < i ==> !is_choice(
                    table@,
                    ms,
                    name@,
                    arg_types.deep_view(),
                    statics_only,
                    k,
                ),
        decreases members.len() - i,
    {
        if check_applicable(table, &members[i], name, arg_types, statics_only) {
            if check_choice(table, members, name, arg_types, statics_only, i) {
                return Some(i);
            }
        }
        i += 1;
    }
    None
}

} // verus!
