use vstd::prelude::*;

use crate::package_info::{PackageGroup, PackageInfo};
use crate::selection::{ids_contain, ids_view};

verus! {

/// The place of a group's section on the main page, from the top.
pub open spec fn group_index(g: PackageGroup) -> nat {
    match g {
        PackageGroup::CodeEditor => 0,
        PackageGroup::ProgrammingLanguage => 1,
        PackageGroup::Framework => 2,
        PackageGroup::Tooling => 3,
        PackageGroup::AIAgent => 4,
        PackageGroup::Browser => 5,
        PackageGroup::Other => 6,
    }
}

/// The number of sections of the main page.
pub const SECTION_COUNT: usize = 7;

/// The section a group's packages are shown in.
pub fn section_of(g: &PackageGroup) -> (s: usize)
    ensures
        s == group_index(*g),
        s < SECTION_COUNT,
{
    match g {
        PackageGroup::CodeEditor => 0,
        PackageGroup::ProgrammingLanguage => 1,
        PackageGroup::Framework => 2,
        PackageGroup::Tooling => 3,
        PackageGroup::AIAgent => 4,
        PackageGroup::Browser => 5,
        PackageGroup::Other => 6,
    }
}

/// `list` holds, in increasing order, exactly the indices of `packages` for which `pick` holds.
pub open spec fn exactly_in_order(packages: Seq<PackageInfo>, list: Seq<usize>, pick: spec_fn(PackageInfo) -> bool) -> bool {
    &&& forall|k: int| 0 <= k < list.len() ==> (#[trigger] list[k]) < packages.len() && pick(packages[list[k] as int])
    &&& forall|k1: int, k2: int| 0 <= k1 < k2 < list.len() ==> #[trigger] list[k1] < #[trigger] list[k2]
    &&& forall|i: int| 0 <= i < packages.len() && pick(#[trigger] packages[i]) ==> exists|k: int|
        0 <= k < list.len() && list[k] == i
}

/// The packages shown in section `s`.
pub open spec fn in_section(s: nat) -> spec_fn(PackageInfo) -> bool {
    |p: PackageInfo| group_index(p.group) == s
}

/// The packages whose id is one of `ids`.
pub open spec fn picked_by(ids: Seq<Seq<char>>) -> spec_fn(PackageInfo) -> bool {
    |p: PackageInfo| ids.contains(p.id@)
}

/// The indices of the packages, one list per section of the main page, each in catalogue order:
/// where each package's card goes.
pub fn sections(packages: &Vec<PackageInfo>) -> (r: Vec<Vec<usize>>)
    ensures
        r@.len() == SECTION_COUNT,
        forall|s: int| 0 <= s < SECTION_COUNT ==> exactly_in_order(packages@, (#[trigger] r@[s])@, in_section(s as nat)),
{
    let mut r: Vec<Vec<usize>> = Vec::new();
    let mut s: usize = 0;
    while s < SECTION_COUNT
        invariant
            s <= SECTION_COUNT,
            r@.len() == s,
            forall|t: int| 0 <= t < s ==> exactly_in_order(packages@, (#[trigger] r@[t])@, in_section(t as nat)),
        decreases SECTION_COUNT - s,
    {
        let mut list: Vec<usize> = Vec::new();
        let mut i: usize = 0;
        while i < packages.len()
            invariant
                i <= packages@.len(),
                s < SECTION_COUNT,
                forall|k: int| 0 <= k < list.len() ==> (#[trigger] list@[k]) < i && group_index(packages@[list@[k] as int].group) == s,
                forall|k1: int, k2: int| 0 <= k1 < k2 < list.len() ==> #[trigger] list@[k1] < #[trigger] list@[k2],
                forall|m: int| 0 <= m < i && group_index((#[trigger] packages@[m]).group) == s ==> exists|k: int|
                    0 <= k < list.len() && list@[k] == m,
            decreases packages@.len() - i,
        {
            if section_of(&packages[i].group) == s {
                let ghost old_list = list@;
                list.push(i);
                assert(list@[list.len() - 1] == i);
                assert forall|m: int| 0 <= m < i + 1 && group_index((#[trigger] packages@[m]).group) == s implies exists|k: int|
                    0 <= k < list.len() && list@[k] == m by {
                    if m < i {
                        let k = choose|k: int| 0 <= k < old_list.len() && old_list[k] == m;
                        assert(list@[k] == m);
                    }
                }
            }
            i = i + 1;
        }
        r.push(list);
        s = s + 1;
    }
    r
}

/// The packages to install when the install button is pressed: those whose id is selected, in
/// catalogue order. `None` when there is none, and then no install window opens.
pub fn packages_to_install(packages: &Vec<PackageInfo>, selected: &Vec<String>) -> (r: Option<Vec<usize>>)
    ensures
        match r {
            Some(list) => list@.len() > 0 && exactly_in_order(packages@, list@, picked_by(ids_view(selected@))),
            None => forall|i: int| 0 <= i < packages@.len() ==> !ids_view(selected@).contains(#[trigger] packages@[i].id@),
        },
{
    let mut list: Vec<usize> = Vec::new();
    let mut i: usize = 0;
    while i < packages.len()
        invariant
            i <= packages@.len(),
            forall|k: int| 0 <= k < list.len() ==> (#[trigger] list@[k]) < i && ids_view(selected@).contains(packages@[list@[k] as int].id@),
            forall|k1: int, k2: int| 0 <= k1 < k2 < list.len() ==> #[trigger] list@[k1] < #[trigger] list@[k2],
            forall|m: int| 0 <= m < i && ids_view(selected@).contains((#[trigger] packages@[m]).id@) ==> exists|k: int|
                0 <= k < list.len() && list@[k] == m,
        decreases packages@.len() - i,
    {
        if ids_contain(selected, &packages[i].id) {
            let ghost old_list = list@;
            list.push(i);
            assert(list@[list.len() - 1] == i);
            assert forall|m: int| 0 <= m < i + 1 && ids_view(selected@).contains((#[trigger] packages@[m]).id@) implies exists|k: int|
                0 <= k < list.len() && list@[k] == m by {
                if m < i {
                    let k = choose|k: int| 0 <= k < old_list.len() && old_list[k] == m;
                    assert(list@[k] == m);
                }
            }
        }
        i = i + 1;
    }
    if list.len() == 0 {
        assert forall|i: int| 0 <= i < packages@.len() implies !ids_view(selected@).contains(#[trigger] packages@[i].id@) by {
            if ids_view(selected@).contains(packages@[i].id@) {
                let k = choose|k: int| 0 <= k < list.len() && list@[k] == i;
            }
        }
        None
    } else {
        Some(list)
    }
}

} // verus!
