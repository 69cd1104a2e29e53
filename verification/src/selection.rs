use vstd::prelude::*;

use crate::event::{Event, EventKind, kind_of_name};

verus! {

/// The text views of a list of ids.
pub open spec fn ids_view(ids: Seq<String>) -> Seq<Seq<char>> {
    ids.map_values(|s: String| s@)
}

/// Toggling `id`: it leaves the selection if it was in it, else it joins at the end.
pub open spec fn toggled(s: Seq<Seq<char>>, id: Seq<char>) -> Seq<Seq<char>> {
    if s.contains(id) {
        s.remove(s.index_of(id))
    } else {
        s.push(id)
    }
}

/// Unselecting `id`: it leaves the selection if it was in it.
pub open spec fn unselected(s: Seq<Seq<char>>, id: Seq<char>) -> Seq<Seq<char>> {
    if s.contains(id) {
        s.remove(s.index_of(id))
    } else {
        s
    }
}

/// A card's new state, to be shown: the package and whether it is selected.
#[derive(Debug, Clone)]
pub struct CardUpdate {
    pub package_id: String,
    pub selected: bool,
}

/// The ids of the packages the user has picked for installation, in the order they were picked.
/// No id is in it twice.
pub struct Selection {
    ids: Vec<String>,
}

impl View for Selection {
    type V = Seq<Seq<char>>;

    closed spec fn view(&self) -> Seq<Seq<char>> {
        ids_view(self.ids@)
    }
}

/// Whether `id` is one of `ids`.
pub fn ids_contain(ids: &Vec<String>, id: &String) -> (r: bool)
    ensures
        r == ids_view(ids@).contains(id@),
{
    let mut k: usize = 0;
    while k < ids.len()
        invariant
            k <= ids@.len(),
            forall|m: int| 0 <= m < k ==> ids@[m]@ != id@,
        decreases ids@.len() - k,
    {
        if ids[k] == *id {
            assert(ids_view(ids@)[k as int] == id@);
            return true;
        }
        k = k + 1;
    }
    false
}

/// The cards, by index, that show the package `package_id`, in order: those the main window
/// updates when that package's selection changes.
pub fn cards_showing(card_ids: &Vec<String>, package_id: &String) -> (r: Vec<usize>)
    ensures
        forall|k: int| 0 <= k < r@.len() ==> (#[trigger] r@[k]) < card_ids@.len() && card_ids@[r@[k] as int]@ == package_id@,
        forall|k1: int, k2: int| 0 <= k1 < k2 < r@.len() ==> #[trigger] r@[k1] < #[trigger] r@[k2],
        forall|c: int| 0 <= c < card_ids@.len() && (#[trigger] card_ids@[c])@ == package_id@ ==> exists|k: int|
            0 <= k < r@.len() && r@[k] == c,
{
    let mut r: Vec<usize> = Vec::new();
    let mut c: usize = 0;
    while c < card_ids.len()
        invariant
            c <= card_ids@.len(),
            forall|k: int| 0 <= k < r@.len() ==> (#[trigger] r@[k]) < c && card_ids@[r@[k] as int]@ == package_id@,
            forall|k1: int, k2: int| 0 <= k1 < k2 < r@.len() ==> #[trigger] r@[k1] < #[trigger] r@[k2],
            forall|m: int| 0 <= m < c && (#[trigger] card_ids@[m])@ == package_id@ ==> exists|k: int|
                0 <= k < r@.len() && r@[k] == m,
        decreases card_ids@.len() - c,
    {
        if card_ids[c] == *package_id {
            let ghost before = r@;
            r.push(c);
            assert(r@[r@.len() - 1] == c);
            assert forall|m: int| 0 <= m < c + 1 && (#[trigger] card_ids@[m])@ == package_id@ implies exists|k: int|
                0 <= k < r@.len() && r@[k] == m by {
                if m < c {
                    let k = choose|k: int| 0 <= k < before.len() && before[k] == m;
                    assert(r@[k] == m);
                }
            }
        }
        c = c + 1;
    }
    r
}

/// The place of `id` in `ids`, if it is there.
fn position_of(ids: &Vec<String>, id: &String) -> (r: Option<usize>)
    ensures
        r matches Some(p) ==> p < ids@.len() && ids@[p as int]@ == id@,
        r is None ==> !ids_view(ids@).contains(id@),
{
    let mut k: usize = 0;
    while k < ids.len()
        invariant
            k <= ids@.len(),
            forall|m: int| 0 <= m < k ==> ids@[m]@ != id@,
        decreases ids@.len() - k,
    {
        if ids[k] == *id {
            return Some(k);
        }
        k = k + 1;
    }
    None
}

proof fn lemma_remove_keeps_distinct(s: Seq<Seq<char>>, i: int)
    requires
        s.no_duplicates(),
        0 <= i < s.len(),
    ensures
        s.remove(i).no_duplicates(),
        !s.remove(i).contains(s[i]),
        forall|x: Seq<char>| x != s[i] ==> (s.remove(i).contains(x) <==> s.contains(x)),
{
    s.remove_ensures(i);
    let r = s.remove(i);
    assert forall|a: int, b: int| 0 <= a < r.len() && 0 <= b < r.len() && a != b implies r[a] != r[b] by {
        let sa: int = if a < i { a } else { a + 1 };
        let sb: int = if b < i { b } else { b + 1 };
        assert(r[a] == s[sa] && r[b] == s[sb]);
    }
    assert forall|x: Seq<char>| x != s[i] implies (r.contains(x) <==> s.contains(x)) by {
        if s.contains(x) {
            let k = choose|k: int| 0 <= k < s.len() && s[k] == x;
            if k < i {
                assert(r[k] == x);
            } else {
                assert(r[k - 1] == x);
            }
        }
        if r.contains(x) {
            let k = choose|k: int| 0 <= k < r.len() && r[k] == x;
            if k < i {
                assert(s[k] == x);
            } else {
                assert(s[k + 1] == x);
            }
        }
    }
    if r.contains(s[i]) {
        let k = choose|k: int| 0 <= k < r.len() && r[k] == s[i];
        if k < i {
            assert(s[k] == s[i]);
        } else {
            assert(s[k + 1] == s[i]);
        }
    }
}

/// Toggling a package twice leaves the same packages selected; when it was not selected, the
/// selection is exactly as before.
pub proof fn lemma_toggle_twice(s: Seq<Seq<char>>, id: Seq<char>)
    requires
        s.no_duplicates(),
    ensures
        toggled(toggled(s, id), id).to_set() == s.to_set(),
        !s.contains(id) ==> toggled(toggled(s, id), id) == s,
{
    if s.contains(id) {
        let i: int = s.index_of(id);
        lemma_remove_keeps_distinct(s, i);
        let r = s.remove(i);
        assert(toggled(s, id) == r);
        assert(toggled(r, id) == r.push(id));
        assert(r.push(id)[r.len() as int] == id);
        assert(r.push(id).to_set() =~= s.to_set()) by {
            assert forall|x: Seq<char>| r.push(id).to_set().contains(x) implies s.to_set().contains(x) by {
                if x != id {
                    let k = choose|k: int| 0 <= k < r.push(id).len() && r.push(id)[k] == x;
                    assert(r[k] == x);
                }
            }
            assert forall|x: Seq<char>| s.to_set().contains(x) implies r.push(id).to_set().contains(x) by {
                if x != id {
                    let k = choose|k: int| 0 <= k < r.len() && r[k] == x;
                    assert(r.push(id)[k] == x);
                }
            }
        }
    } else {
        let t = s.push(id);
        assert(t[s.len() as int] == id);
        assert(t.contains(id));
        let j: int = t.index_of(id);
        assert(j == s.len()) by {
            if j < s.len() {
                assert(s[j] == id);
            }
        }
        assert(t.remove(j) =~= s);
    }
}

/// Unselecting an id takes out that id only: every other id stays, in its order, and the
/// selection is one shorter when it held the id; toggling a selected id does the same.
pub proof fn lemma_unselect_removes_only_that_id(s: Seq<Seq<char>>, id: Seq<char>)
    requires
        s.no_duplicates(),
    ensures
        s.contains(id) ==> exists|p: int| 0 <= p < s.len() && s[p] == id
            && unselected(s, id) == s.subrange(0, p) + s.subrange(p + 1, s.len() as int),
        s.contains(id) ==> unselected(s, id).len() == s.len() - 1,
        !s.contains(id) ==> unselected(s, id) == s,
        forall|x: Seq<char>| x != id ==> (unselected(s, id).contains(x) <==> s.contains(x)),
        !unselected(s, id).contains(id),
        s.contains(id) ==> toggled(s, id) == unselected(s, id),
{
    if s.contains(id) {
        let p: int = s.index_of(id);
        lemma_remove_keeps_distinct(s, p);
        assert(s[p] == id);
        assert(s.remove(p) == s.subrange(0, p) + s.subrange(p + 1, s.len() as int));
    }
}

/// A selection holds no package twice after a toggle or an unselect.
pub proof fn lemma_changes_keep_distinct(s: Seq<Seq<char>>, id: Seq<char>)
    requires
        s.no_duplicates(),
    ensures
        toggled(s, id).no_duplicates(),
        unselected(s, id).no_duplicates(),
        toggled(s, id).contains(id) == !s.contains(id),
        !unselected(s, id).contains(id),
{
    if s.contains(id) {
        let i: int = s.index_of(id);
        lemma_remove_keeps_distinct(s, i);
    } else {
        let t = s.push(id);
        assert(t[s.len() as int] == id);
        assert forall|a: int, b: int| 0 <= a < t.len() && 0 <= b < t.len() && a != b implies t[a] != t[b] by {
            if a < s.len() && b < s.len() {
            } else if a < s.len() {
                assert(t[a] == s[a]);
            } else {
                assert(t[b] == s[b]);
            }
        }
    }
}

impl Selection {
    #[verifier::type_invariant]
    closed spec fn distinct(&self) -> bool {
        ids_view(self.ids@).no_duplicates()
    }

    /// Nothing is selected.
    pub fn new() -> (s: Selection)
        ensures
            s@ == Seq::<Seq<char>>::empty(),
    {
        let s = Selection { ids: Vec::new() };
        assert(ids_view(s.ids@) =~= Seq::<Seq<char>>::empty());
        s
    }

    /// The selected ids, in the order they were picked.
    pub fn ids(&self) -> (ids: &Vec<String>)
        ensures
            ids_view(ids@) == self@,
    {
        &self.ids
    }

    /// Whether `id` is selected.
    pub fn contains(&self, id: &String) -> (r: bool)
        ensures
            r == self@.contains(id@),
    {
        ids_contain(&self.ids, id)
    }

    /// Toggles `id`, as a click on a package card does; returns whether it is now selected.
    pub fn toggle(&mut self, id: &String) -> (selected: bool)
        ensures
            final(self)@ == toggled(old(self)@, id@),
            selected == final(self)@.contains(id@),
            selected == !old(self)@.contains(id@),
            final(self)@.no_duplicates(),
    {
        proof { use_type_invariant(&*self); }
        let ghost s = self@;
        match position_of(&self.ids, id) {
            Some(p) => {
                proof {
                    assert(s[p as int] == id@);
                    assert(s.contains(id@));
                    assert(s.index_of(id@) == p as int) by {
                        let j: int = s.index_of(id@);
                        assert(s[j] == id@);
                    }
                    lemma_remove_keeps_distinct(s, p as int);
                }
                let mut ids: Vec<String> = Vec::new();
                std::mem::swap(&mut ids, &mut self.ids);
                ids.remove(p);
                assert(ids_view(ids@) =~= s.remove(p as int));
                self.ids = ids;
                false
            },
            None => {
                let mut ids: Vec<String> = Vec::new();
                std::mem::swap(&mut ids, &mut self.ids);
                ids.push(id.clone());
                proof {
                    assert(ids_view(ids@) =~= s.push(id@));
                    assert(ids_view(ids@).no_duplicates()) by {
                        let t = s.push(id@);
                        assert forall|a: int, b: int| 0 <= a < t.len() && 0 <= b < t.len() && a != b implies t[a] != t[b] by {
                            if a < s.len() && b < s.len() {
                            } else if a < s.len() {
                                assert(t[a] == s[a]);
                            } else {
                                assert(t[b] == s[b]);
                            }
                        }
                    }
                    assert(s.push(id@)[s.len() as int] == id@);
                }
                self.ids = ids;
                true
            },
        }
    }

    /// Removes `id` from the selection if it is there, as the report of an installed package does.
    pub fn unselect(&mut self, id: &String)
        ensures
            final(self)@ == unselected(old(self)@, id@),
            !final(self)@.contains(id@),
            final(self)@.no_duplicates(),
            old(self)@.contains(id@) ==> final(self)@.len() == old(self)@.len() - 1,
            !old(self)@.contains(id@) ==> final(self)@ == old(self)@,
            forall|x: Seq<char>| x != id@ ==> (final(self)@.contains(x) <==> old(self)@.contains(x)),
    {
        proof {
            use_type_invariant(&*self);
            lemma_unselect_removes_only_that_id(self@, id@);
        }
        let ghost s = self@;
        match position_of(&self.ids, id) {
            Some(p) => {
                proof {
                    assert(s[p as int] == id@);
                    assert(s.contains(id@));
                    assert(s.index_of(id@) == p as int) by {
                        let j: int = s.index_of(id@);
                        assert(s[j] == id@);
                    }
                    lemma_remove_keeps_distinct(s, p as int);
                }
                let mut ids: Vec<String> = Vec::new();
                std::mem::swap(&mut ids, &mut self.ids);
                ids.remove(p);
                assert(ids_view(ids@) =~= s.remove(p as int));
                self.ids = ids;
            },
            None => {},
        }
    }

    /// Applies an event as the main window does: `select-package` toggles the package,
    /// `unselect-package` removes it, `install-completed` empties the selection; any other event
    /// changes nothing. Returns the cards to update.
    pub fn handle_event(&mut self, event: &Event) -> (updates: Vec<CardUpdate>)
        ensures
            match kind_of_name(event.name@) {
                EventKind::SelectPackage => {
                    &&& final(self)@ == toggled(old(self)@, event.package_id@)
                    &&& updates@.len() == 1
                    &&& updates@[0].package_id@ == event.package_id@
                    &&& updates@[0].selected == final(self)@.contains(event.package_id@)
                },
                EventKind::UnselectPackage => {
                    &&& final(self)@ == unselected(old(self)@, event.package_id@)
                    &&& updates@.len() == 1
                    &&& updates@[0].package_id@ == event.package_id@
                    &&& !updates@[0].selected
                },
                EventKind::InstallCompleted => {
                    &&& final(self)@ == Seq::<Seq<char>>::empty()
                    &&& updates@.len() == old(self)@.len()
                    &&& forall|k: int| 0 <= k < updates@.len() ==>
                        (#[trigger] updates@[k]).package_id@ == old(self)@[k] && !updates@[k].selected
                },
                EventKind::Unknown => {
                    &&& final(self)@ == old(self)@
                    &&& updates@.len() == 0
                },
            },
    {
        let mut updates: Vec<CardUpdate> = Vec::new();
        match event.kind() {
            EventKind::SelectPackage => {
                let selected = self.toggle(&event.package_id);
                updates.push(CardUpdate { package_id: event.package_id.clone(), selected });
            },
            EventKind::UnselectPackage => {
                self.unselect(&event.package_id);
                updates.push(CardUpdate { package_id: event.package_id.clone(), selected: false });
            },
            EventKind::InstallCompleted => {
                let former = self.clear();
                let mut k: usize = 0;
                while k < former.len()
                    invariant
                        k <= former@.len(),
                        ids_view(former@) == old(self)@,
                        updates@.len() == k,
                        forall|m: int| 0 <= m < k ==>
                            (#[trigger] updates@[m]).package_id@ == old(self)@[m] && !updates@[m].selected,
                    decreases former@.len() - k,
                {
                    updates.push(CardUpdate { package_id: former[k].clone(), selected: false });
                    k = k + 1;
                }
            },
            EventKind::Unknown => {},
        }
        updates
    }

    /// Applies an event as the plain catalogue window does: only `select-package` counts, and
    /// toggles the package.
    pub fn handle_select_event(&mut self, event: &Event)
        ensures
            kind_of_name(event.name@) == EventKind::SelectPackage ==> final(self)@ == toggled(old(self)@, event.package_id@),
            kind_of_name(event.name@) != EventKind::SelectPackage ==> final(self)@ == old(self)@,
    {
        match event.kind() {
            EventKind::SelectPackage => {
                self.toggle(&event.package_id);
            },
            _ => {},
        }
    }

    /// Empties the selection; returns the ids that were in it.
    pub fn clear(&mut self) -> (former: Vec<String>)
        ensures
            final(self)@ == Seq::<Seq<char>>::empty(),
            ids_view(former@) == old(self)@,
    {
        let mut former: Vec<String> = Vec::new();
        std::mem::swap(&mut former, &mut self.ids);
        assert(ids_view(self.ids@) =~= Seq::<Seq<char>>::empty());
        former
    }
}

} // verus!
