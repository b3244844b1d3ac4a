//! The status-menu model: a registry of labelled items, some marked as
//! members of the connect submenu, and the deterministic rebuild of a menu
//! tree from it. The registry keeps its entries strictly ordered by item
//! id, so the tree a rebuild produces depends on the registry's contents
//! alone, never on the order in which mutations arrived.

use vstd::prelude::*;
use vstd::string::StringExecFns;

use crate::text::{
    lemma_lex_asymmetric, lemma_lex_connected, lemma_lex_irreflexive, lemma_lex_transitive,
    lex_lt, str_eq, str_lex_lt,
};

verus! {

/// One registry entry: an item id, its label, and whether the item is a
/// member of the connect submenu.
pub struct MenuEntry {
    pub id: String,
    pub label: String,
    pub in_connect: bool,
}

/// View of a [`MenuEntry`].
#[verifier::ext_equal]
pub struct MenuEntryView {
    pub id: Seq<char>,
    pub label: Seq<char>,
    pub in_connect: bool,
}

impl View for MenuEntry {
    type V = MenuEntryView;

    open spec fn view(&self) -> MenuEntryView {
        MenuEntryView { id: self.id@, label: self.label@, in_connect: self.in_connect }
    }
}

impl DeepView for MenuEntry {
    type V = MenuEntryView;

    open spec fn deep_view(&self) -> MenuEntryView {
        self.view()
    }
}

/// The two reserved ids, rendered last and out of reach of the CRUD calls.
pub open spec fn reserved_id(id: Seq<char>) -> bool {
    id == "minimize"@ || id == "exit"@
}

/// Well-formed entry sequences: strictly ordered by id — so ids are unique
/// and the order carries no trace of mutation history — and free of the
/// reserved ids.
pub open spec fn entries_wf(s: Seq<MenuEntryView>) -> bool {
    (forall|i: int, j: int|
        0 <= i < j < s.len() ==> lex_lt(#[trigger] s[i].id, #[trigger] s[j].id)) && (forall|
        i: int,
    |
        0 <= i < s.len() ==> !reserved_id(#[trigger] s[i].id))
}

/// What an entry binds its id to.
pub open spec fn entry_data(e: MenuEntryView) -> (Seq<char>, bool) {
    (e.label, e.in_connect)
}

/// The contents of an entry sequence: a map from item id to its label and
/// submenu membership.
pub open spec fn contents(s: Seq<MenuEntryView>) -> Map<Seq<char>, (Seq<char>, bool)>
    decreases s.len(),
{
    if s.len() == 0 {
        Map::empty()
    } else {
        contents(s.drop_first()).insert(s[0].id, entry_data(s[0]))
    }
}

/// Some entry carries this id.
pub open spec fn has_id(s: Seq<MenuEntryView>, id: Seq<char>) -> bool {
    exists|i: int| 0 <= i < s.len() && (#[trigger] s[i].id) == id
}

/// Dropping the first entry keeps a sequence well-formed.
proof fn lemma_wf_drop_first(s: Seq<MenuEntryView>)
    requires
        entries_wf(s),
        s.len() > 0,
    ensures
        entries_wf(s.drop_first()),
{
    assert forall|i: int, j: int| 0 <= i < j < s.drop_first().len() implies lex_lt(
        #[trigger] s.drop_first()[i].id,
        #[trigger] s.drop_first()[j].id,
    ) by {
        assert(s.drop_first()[i] == s[i + 1]);
        assert(s.drop_first()[j] == s[j + 1]);
    }
    assert forall|i: int| 0 <= i < s.drop_first().len() implies !reserved_id(
        #[trigger] s.drop_first()[i].id,
    ) by {
        assert(s.drop_first()[i] == s[i + 1]);
    }
}

/// An id is in the contents exactly when some entry carries it.
proof fn lemma_contents_dom(s: Seq<MenuEntryView>, id: Seq<char>)
    ensures
        contents(s).dom().contains(id) <==> has_id(s, id),
    decreases s.len(),
{
    if s.len() > 0 {
        lemma_contents_dom(s.drop_first(), id);
        if s[0].id == id {
            assert(has_id(s, id));
        } else {
            if has_id(s.drop_first(), id) {
                let i = choose|i: int|
                    0 <= i < s.drop_first().len() && (#[trigger] s.drop_first()[i].id) == id;
                assert(s[i + 1].id == id);
                assert(has_id(s, id));
            }
            if has_id(s, id) {
                let i = choose|i: int| 0 <= i < s.len() && (#[trigger] s[i].id) == id;
                assert(i != 0);
                assert(s.drop_first()[i - 1].id == id);
                assert(has_id(s.drop_first(), id));
            }
        }
    }
}

/// In a well-formed sequence, each entry's id maps to that entry's data.
proof fn lemma_contents_at(s: Seq<MenuEntryView>, i: int)
    requires
        entries_wf(s),
        0 <= i < s.len(),
    ensures
        contents(s).dom().contains(s[i].id),
        contents(s)[s[i].id] == entry_data(s[i]),
    decreases s.len(),
{
    if i > 0 {
        lemma_wf_drop_first(s);
        lemma_contents_at(s.drop_first(), i - 1);
        assert(s.drop_first()[i - 1] == s[i]);
        assert(lex_lt(s[0].id, s[i].id));
        if s[0].id == s[i].id {
            lemma_lex_irreflexive(s[0].id);
        }
    }
}

/// Appending an entry with a fresh id adds exactly its binding.
proof fn lemma_contents_push(s: Seq<MenuEntryView>, e: MenuEntryView)
    requires
        !has_id(s, e.id),
    ensures
        contents(s.push(e)) == contents(s).insert(e.id, entry_data(e)),
    decreases s.len(),
{
    if s.len() == 0 {
        assert(s.push(e).drop_first() =~= s);
        assert(s.push(e)[0] == e);
    } else {
        assert(s.push(e).drop_first() =~= s.drop_first().push(e));
        assert(s.push(e)[0] == s[0]);
        assert(!has_id(s.drop_first(), e.id)) by {
            if has_id(s.drop_first(), e.id) {
                let i = choose|i: int|
                    0 <= i < s.drop_first().len() && (#[trigger] s.drop_first()[i].id) == e.id;
                assert(s[i + 1].id == e.id);
            }
        }
        lemma_contents_push(s.drop_first(), e);
        assert(s[0].id != e.id);
        assert(contents(s.drop_first()).insert(e.id, entry_data(e)).insert(
            s[0].id,
            entry_data(s[0]),
        ) =~= contents(s.drop_first()).insert(s[0].id, entry_data(s[0])).insert(
            e.id,
            entry_data(e),
        ));
    }
}

/// Overwriting the entry that already carries an id replaces exactly its
/// binding.
proof fn lemma_contents_update(s: Seq<MenuEntryView>, k: int, e: MenuEntryView)
    requires
        entries_wf(s),
        0 <= k < s.len(),
        e.id == s[k].id,
    ensures
        contents(s.update(k, e)) == contents(s).insert(e.id, entry_data(e)),
    decreases s.len(),
{
    if k == 0 {
        assert(s.update(0, e).drop_first() =~= s.drop_first());
        assert(s.update(0, e)[0] == e);
        assert(contents(s.drop_first()).insert(s[0].id, entry_data(s[0])).insert(
            e.id,
            entry_data(e),
        ) =~= contents(s.drop_first()).insert(e.id, entry_data(e)));
    } else {
        lemma_wf_drop_first(s);
        assert(s.update(k, e).drop_first() =~= s.drop_first().update(k - 1, e));
        assert(s.update(k, e)[0] == s[0]);
        assert(s.drop_first()[k - 1] == s[k]);
        lemma_contents_update(s.drop_first(), k - 1, e);
        assert(lex_lt(s[0].id, s[k].id));
        if s[0].id == s[k].id {
            lemma_lex_irreflexive(s[0].id);
        }
        assert(contents(s.drop_first()).insert(e.id, entry_data(e)).insert(
            s[0].id,
            entry_data(s[0]),
        ) =~= contents(s.drop_first()).insert(s[0].id, entry_data(s[0])).insert(
            e.id,
            entry_data(e),
        ));
    }
}

/// Inserting an entry with a fresh id, at any position, adds exactly its
/// binding.
proof fn lemma_contents_insert(s: Seq<MenuEntryView>, k: int, e: MenuEntryView)
    requires
        0 <= k <= s.len(),
        !has_id(s, e.id),
    ensures
        contents(s.insert(k, e)) == contents(s).insert(e.id, entry_data(e)),
    decreases s.len(),
{
    if k == 0 {
        assert(s.insert(0, e).drop_first() =~= s);
        assert(s.insert(0, e)[0] == e);
    } else {
        assert(s.insert(k, e).drop_first() =~= s.drop_first().insert(k - 1, e));
        assert(s.insert(k, e)[0] == s[0]);
        assert(!has_id(s.drop_first(), e.id)) by {
            if has_id(s.drop_first(), e.id) {
                let i = choose|i: int|
                    0 <= i < s.drop_first().len() && (#[trigger] s.drop_first()[i].id) == e.id;
                assert(s[i + 1].id == e.id);
            }
        }
        lemma_contents_insert(s.drop_first(), k - 1, e);
        assert(s[0].id != e.id);
        assert(contents(s.drop_first()).insert(e.id, entry_data(e)).insert(
            s[0].id,
            entry_data(s[0]),
        ) =~= contents(s.drop_first()).insert(s[0].id, entry_data(s[0])).insert(
            e.id,
            entry_data(e),
        ));
    }
}

/// Removing an entry removes exactly its binding.
proof fn lemma_contents_remove(s: Seq<MenuEntryView>, k: int)
    requires
        entries_wf(s),
        0 <= k < s.len(),
    ensures
        contents(s.remove(k)) == contents(s).remove(s[k].id),
    decreases s.len(),
{
    lemma_wf_drop_first(s);
    if k == 0 {
        assert(s.remove(0) =~= s.drop_first());
        assert(!has_id(s.drop_first(), s[0].id)) by {
            if has_id(s.drop_first(), s[0].id) {
                let i = choose|i: int|
                    0 <= i < s.drop_first().len() && (#[trigger] s.drop_first()[i].id)
                        == s[0].id;
                assert(s[i + 1].id == s[0].id);
                assert(lex_lt(s[0].id, s[i + 1].id));
                lemma_lex_irreflexive(s[0].id);
            }
        }
        lemma_contents_dom(s.drop_first(), s[0].id);
        assert(contents(s).remove(s[0].id) =~= contents(s.drop_first()));
    } else {
        assert(s.remove(k).drop_first() =~= s.drop_first().remove(k - 1));
        assert(s.remove(k)[0] == s[0]);
        assert(s.drop_first()[k - 1] == s[k]);
        lemma_contents_remove(s.drop_first(), k - 1);
        assert(lex_lt(s[0].id, s[k].id));
        if s[0].id == s[k].id {
            lemma_lex_irreflexive(s[0].id);
        }
        assert(contents(s.drop_first()).remove(s[k].id).insert(s[0].id, entry_data(s[0]))
            =~= contents(s.drop_first()).insert(s[0].id, entry_data(s[0])).remove(s[k].id));
    }
}

/// The registry of menu items. Its view is the ordered entry sequence;
/// its contents are the map that sequence represents.
pub struct MenuRegistry {
    entries: Vec<MenuEntry>,
}

impl View for MenuRegistry {
    type V = Seq<MenuEntryView>;

    closed spec fn view(&self) -> Seq<MenuEntryView> {
        self.entries.deep_view()
    }
}

impl MenuRegistry {
    /// Everything the registry maintains about itself.
    pub open spec fn wf(&self) -> bool {
        entries_wf(self@)
    }

    /// An empty registry.
    pub fn new() -> (r: MenuRegistry)
        ensures
            r@ == Seq::<MenuEntryView>::empty(),
            r.wf(),
    {
        let r = MenuRegistry { entries: Vec::new() };
        proof {
            assert(r@ =~= Seq::<MenuEntryView>::empty());
        }
        r
    }

    /// Whether an id is one of the two reserved ids.
    fn id_is_reserved(id: &str) -> (r: bool)
        ensures
            r == reserved_id(id@),
    {
        str_eq(id, "minimize") || str_eq(id, "exit")
    }

    /// The position at which `id` stands or would be inserted.
    fn find_position(&self, id: &str) -> (k: usize)
        ensures
            k <= self@.len(),
            forall|j: int| 0 <= j < k ==> lex_lt(#[trigger] self@[j].id, id@),
            k < self@.len() ==> !lex_lt(self@[k as int].id, id@),
    {
        let mut k: usize = 0;
        while k < self.entries.len()
            invariant
                k <= self@.len(),
                self@.len() == self.entries.len(),
                forall|j: int| 0 <= j < k ==> lex_lt(#[trigger] self@[j].id, id@),
            decreases self.entries.len() - k,
        {
            proof {
                assert(self@[k as int] == self.entries[k as int].deep_view());
            }
            if !str_lex_lt(self.entries[k].id.as_str(), id) {
                return k;
            }
            k = k + 1;
        }
        k
    }

    /// Insert or update one entry: an idempotent upsert keyed by id. A
    /// reserved id is left untouched; any other id ends bound to the
    /// given label and membership, and nothing else changes.
    fn upsert(&mut self, id: &str, label: &str, in_connect: bool)
        requires
            old(self).wf(),
        ensures
            final(self).wf(),
            reserved_id(id@) ==> final(self)@ == old(self)@,
            !reserved_id(id@) ==> contents(final(self)@) == contents(old(self)@).insert(
                id@,
                (label@, in_connect),
            ),
    {
        if MenuRegistry::id_is_reserved(id) {
            return;
        }
        let k = self.find_position(id);
        let e = MenuEntry {
            id: String::from_str(id),
            label: String::from_str(label),
            in_connect,
        };
        let ghost pre = self@;
        if k < self.entries.len() && str_eq(self.entries[k].id.as_str(), id) {
            proof {
                assert(pre[k as int] == self.entries[k as int].deep_view());
            }
            self.entries.set(k, e);
            proof {
                assert(self@ =~= pre.update(k as int, e@));
                lemma_contents_update(pre, k as int, e@);
                assert forall|i: int, j: int|
                    0 <= i < j < self@.len() implies lex_lt(
                    #[trigger] self@[i].id,
                    #[trigger] self@[j].id,
                ) by {
                    assert(pre[i].id == self@[i].id);
                    assert(pre[j].id == self@[j].id);
                }
                assert(self.wf());
            }
        } else {
            proof {
                if k < pre.len() {
                    assert(pre[k as int] == self.entries[k as int].deep_view());
                    lemma_lex_connected(pre[k as int].id, id@);
                    assert(lex_lt(id@, pre[k as int].id));
                }
                assert(!has_id(pre, id@)) by {
                    if has_id(pre, id@) {
                        let i = choose|i: int|
                            0 <= i < pre.len() && (#[trigger] pre[i].id) == id@;
                        if i < k {
                            assert(lex_lt(pre[i].id, id@));
                            lemma_lex_irreflexive(id@);
                        } else if i == k {
                            lemma_lex_irreflexive(id@);
                        } else {
                            assert(lex_lt(pre[k as int].id, pre[i].id));
                            lemma_lex_transitive(id@, pre[k as int].id, pre[i].id);
                            lemma_lex_irreflexive(id@);
                        }
                    }
                }
            }
            self.entries.insert(k, e);
            proof {
                assert(self@ =~= pre.insert(k as int, e@));
                lemma_contents_insert(pre, k as int, e@);
                assert forall|i: int, j: int|
                    0 <= i < j < self@.len() implies lex_lt(
                    #[trigger] self@[i].id,
                    #[trigger] self@[j].id,
                ) by {
                    let ki = k as int;
                    if j < ki {
                        assert(self@[i] == pre[i]);
                        assert(self@[j] == pre[j]);
                    } else if j == ki {
                        assert(self@[i] == pre[i]);
                        assert(self@[j] == e@);
                    } else {
                        assert(self@[j] == pre[j - 1]);
                        if i < ki {
                            assert(self@[i] == pre[i]);
                        } else if i == ki {
                            assert(self@[i] == e@);
                            if j - 1 == ki {
                                assert(self@[j] == pre[ki]);
                            } else {
                                assert(lex_lt(pre[ki].id, pre[j - 1].id));
                                lemma_lex_transitive(e@.id, pre[ki].id, pre[j - 1].id);
                            }
                        } else {
                            assert(self@[i] == pre[i - 1]);
                        }
                    }
                }
                assert forall|i: int| 0 <= i < self@.len() implies !reserved_id(
                    #[trigger] self@[i].id,
                ) by {
                    let ki = k as int;
                    if i < ki {
                        assert(self@[i] == pre[i]);
                    } else if i == ki {
                        assert(self@[i] == e@);
                    } else {
                        assert(self@[i] == pre[i - 1]);
                    }
                }
                assert(self.wf());
            }
        }
    }

    /// Insert or update a plain menu item.
    pub fn upsert_item(&mut self, id: &str, label: &str)
        requires
            old(self).wf(),
        ensures
            final(self).wf(),
            reserved_id(id@) ==> final(self)@ == old(self)@,
            !reserved_id(id@) ==> contents(final(self)@) == contents(old(self)@).insert(
                id@,
                (label@, false),
            ),
    {
        self.upsert(id, label, false);
    }

    /// Insert or update an item as a member of the connect submenu. The
    /// registry keeps a single submenu, so the submenu id only rides
    /// along with the request.
    pub fn upsert_submenu_item(&mut self, submenu_id: &str, id: &str, label: &str)
        requires
            old(self).wf(),
        ensures
            final(self).wf(),
            reserved_id(id@) ==> final(self)@ == old(self)@,
            !reserved_id(id@) ==> contents(final(self)@) == contents(old(self)@).insert(
                id@,
                (label@, true),
            ),
    {
        let _ = submenu_id;
        self.upsert(id, label, true);
    }

    /// Remove one entry by id. A reserved id is left untouched; any other
    /// id ends unbound, whether or not it was bound before.
    pub fn remove_item(&mut self, id: &str)
        requires
            old(self).wf(),
        ensures
            final(self).wf(),
            reserved_id(id@) ==> final(self)@ == old(self)@,
            !reserved_id(id@) ==> contents(final(self)@) == contents(old(self)@).remove(id@),
    {
        if MenuRegistry::id_is_reserved(id) {
            return;
        }
        let k = self.find_position(id);
        let ghost pre = self@;
        if k < self.entries.len() && str_eq(self.entries[k].id.as_str(), id) {
            proof {
                assert(pre[k as int] == self.entries[k as int].deep_view());
            }
            self.entries.remove(k);
            proof {
                assert(self@ =~= pre.remove(k as int));
                lemma_contents_remove(pre, k as int);
                assert forall|i: int, j: int|
                    0 <= i < j < self@.len() implies lex_lt(
                    #[trigger] self@[i].id,
                    #[trigger] self@[j].id,
                ) by {
                    let ki = k as int;
                    let pi: int = if i < ki { i } else { i + 1 };
                    let pj: int = if j < ki { j } else { j + 1 };
                    assert(self@[i] == pre[pi]);
                    assert(self@[j] == pre[pj]);
                }
                assert forall|i: int| 0 <= i < self@.len() implies !reserved_id(
                    #[trigger] self@[i].id,
                ) by {
                    let ki = k as int;
                    let pi: int = if i < ki { i } else { i + 1 };
                    assert(self@[i] == pre[pi]);
                }
                assert(self.wf());
            }
        } else {
            proof {
                assert(!has_id(pre, id@)) by {
                    if has_id(pre, id@) {
                        let i = choose|i: int|
                            0 <= i < pre.len() && (#[trigger] pre[i].id) == id@;
                        if i < k {
                            assert(lex_lt(pre[i].id, id@));
                            lemma_lex_irreflexive(id@);
                        } else if i == k {
                            lemma_lex_irreflexive(id@);
                        } else {
                            assert(pre[k as int] == self.entries[k as int].deep_view());
                            lemma_lex_connected(pre[k as int].id, id@);
                            assert(lex_lt(id@, pre[k as int].id));
                            assert(lex_lt(pre[k as int].id, pre[i].id));
                            lemma_lex_transitive(id@, pre[k as int].id, pre[i].id);
                            lemma_lex_irreflexive(id@);
                        }
                    }
                }
                lemma_contents_dom(pre, id@);
                assert(contents(pre).remove(id@) =~= contents(pre));
            }
        }
    }

    /// Remove one entry from the connect submenu, by id: the entry goes
    /// when it exists and is marked a member; a plain item, a reserved id
    /// or an unknown id is left untouched.
    pub fn remove_submenu_item(&mut self, submenu_id: &str, id: &str)
        requires
            old(self).wf(),
        ensures
            final(self).wf(),
            (!reserved_id(id@) && contents(old(self)@).dom().contains(id@) && contents(
                old(self)@,
            )[id@].1) ==> contents(final(self)@) == contents(old(self)@).remove(id@),
            (reserved_id(id@) || !contents(old(self)@).dom().contains(id@) || !contents(
                old(self)@,
            )[id@].1) ==> final(self)@ == old(self)@,
    {
        let _ = submenu_id;
        if MenuRegistry::id_is_reserved(id) {
            return;
        }
        let k = self.find_position(id);
        let ghost pre = self@;
        if k < self.entries.len() && str_eq(self.entries[k].id.as_str(), id) {
            proof {
                assert(pre[k as int] == self.entries[k as int].deep_view());
                lemma_contents_at(pre, k as int);
            }
            if self.entries[k].in_connect {
                self.entries.remove(k);
                proof {
                    assert(self@ =~= pre.remove(k as int));
                    lemma_contents_remove(pre, k as int);
                    assert forall|i: int, j: int|
                        0 <= i < j < self@.len() implies lex_lt(
                        #[trigger] self@[i].id,
                        #[trigger] self@[j].id,
                    ) by {
                        let ki = k as int;
                        let pi: int = if i < ki { i } else { i + 1 };
                        let pj: int = if j < ki { j } else { j + 1 };
                        assert(self@[i] == pre[pi]);
                        assert(self@[j] == pre[pj]);
                    }
                    assert forall|i: int| 0 <= i < self@.len() implies !reserved_id(
                        #[trigger] self@[i].id,
                    ) by {
                        let ki = k as int;
                        let pi: int = if i < ki { i } else { i + 1 };
                        assert(self@[i] == pre[pi]);
                    }
                    assert(self.wf());
                }
            } else {
            }
        } else {
            proof {
                assert(!has_id(pre, id@)) by {
                    if has_id(pre, id@) {
                        let i = choose|i: int|
                            0 <= i < pre.len() && (#[trigger] pre[i].id) == id@;
                        if i < k {
                            assert(lex_lt(pre[i].id, id@));
                            lemma_lex_irreflexive(id@);
                        } else if i == k {
                            lemma_lex_irreflexive(id@);
                        } else {
                            assert(pre[k as int] == self.entries[k as int].deep_view());
                            lemma_lex_connected(pre[k as int].id, id@);
                            assert(lex_lt(id@, pre[k as int].id));
                            assert(lex_lt(pre[k as int].id, pre[i].id));
                            lemma_lex_transitive(id@, pre[k as int].id, pre[i].id);
                            lemma_lex_irreflexive(id@);
                        }
                    }
                }
                lemma_contents_dom(pre, id@);
            }
        }
    }
}

/// One renderable leaf: an item id and its label.
pub struct MenuLeaf {
    pub id: String,
    pub label: String,
}

/// View of a [`MenuLeaf`].
#[verifier::ext_equal]
pub struct MenuLeafView {
    pub id: Seq<char>,
    pub label: Seq<char>,
}

impl View for MenuLeaf {
    type V = MenuLeafView;

    open spec fn view(&self) -> MenuLeafView {
        MenuLeafView { id: self.id@, label: self.label@ }
    }
}

impl DeepView for MenuLeaf {
    type V = MenuLeafView;

    open spec fn deep_view(&self) -> MenuLeafView {
        self.view()
    }
}

/// One node of a rebuilt menu tree, in rendering order.
pub enum MenuNode {
    Item { id: String, label: String },
    Submenu { title: String, items: Vec<MenuLeaf> },
    Separator,
}

/// View of a [`MenuNode`].
#[verifier::ext_equal]
pub enum MenuNodeView {
    Item { id: Seq<char>, label: Seq<char> },
    Submenu { title: Seq<char>, items: Seq<MenuLeafView> },
    Separator,
}

impl View for MenuNode {
    type V = MenuNodeView;

    open spec fn view(&self) -> MenuNodeView {
        match self {
            MenuNode::Item { id, label } => MenuNodeView::Item { id: id@, label: label@ },
            MenuNode::Submenu { title, items } => MenuNodeView::Submenu {
                title: title@,
                items: items.deep_view(),
            },
            MenuNode::Separator => MenuNodeView::Separator,
        }
    }
}

impl DeepView for MenuNode {
    type V = MenuNodeView;

    open spec fn deep_view(&self) -> MenuNodeView {
        self.view()
    }
}

/// Membership in the connect submenu.
pub open spec fn in_connect_pred() -> spec_fn(MenuEntryView) -> bool {
    |e: MenuEntryView| e.in_connect
}

/// The complement: a plain item.
pub open spec fn plain_pred() -> spec_fn(MenuEntryView) -> bool {
    |e: MenuEntryView| !e.in_connect
}

/// The leaf an entry renders to.
pub open spec fn leaf_of(e: MenuEntryView) -> MenuLeafView {
    MenuLeafView { id: e.id, label: e.label }
}

/// The plain item an entry renders to.
pub open spec fn item_of(e: MenuEntryView) -> MenuNodeView {
    MenuNodeView::Item { id: e.id, label: e.label }
}

/// The leaves of the connect submenu, in registry order.
pub open spec fn connect_part(s: Seq<MenuEntryView>) -> Seq<MenuLeafView> {
    s.filter(in_connect_pred()).map_values(|e: MenuEntryView| leaf_of(e))
}

/// The plain items, in registry order.
pub open spec fn plain_part(s: Seq<MenuEntryView>) -> Seq<MenuNodeView> {
    s.filter(plain_pred()).map_values(|e: MenuEntryView| item_of(e))
}

/// The submenu grouping, present exactly when it has members.
pub open spec fn submenu_part(s: Seq<MenuEntryView>) -> Seq<MenuNodeView> {
    if connect_part(s).len() > 0 {
        seq![MenuNodeView::Submenu { title: "Connect"@, items: connect_part(s) }]
    } else {
        Seq::empty()
    }
}

/// The separator, present exactly when the registry rendered anything of
/// its own above the reserved items.
pub open spec fn sep_part(s: Seq<MenuEntryView>) -> Seq<MenuNodeView> {
    if s.len() > 0 {
        seq![MenuNodeView::Separator]
    } else {
        Seq::empty()
    }
}

/// The reserved item closing every menu, second to last.
pub open spec fn minimize_item() -> MenuNodeView {
    MenuNodeView::Item { id: "minimize"@, label: "Minimize to Tray"@ }
}

/// The reserved item closing every menu, last.
pub open spec fn exit_item() -> MenuNodeView {
    MenuNodeView::Item { id: "exit"@, label: "Exit"@ }
}

/// The two reserved items, always rendered last.
pub open spec fn reserved_tail() -> Seq<MenuNodeView> {
    seq![minimize_item(), exit_item()]
}

/// The whole tree one rebuild produces: submenu, plain items, separator,
/// reserved items.
pub open spec fn spec_rebuild(s: Seq<MenuEntryView>) -> Seq<MenuNodeView> {
    submenu_part(s) + plain_part(s) + sep_part(s) + reserved_tail()
}

/// Filtering past a pushed element keeps it exactly when it satisfies the
/// predicate.
proof fn lemma_filter_push<A>(s: Seq<A>, x: A, pred: spec_fn(A) -> bool)
    ensures
        s.push(x).filter(pred) == if pred(x) {
            s.filter(pred).push(x)
        } else {
            s.filter(pred)
        },
{
    reveal(Seq::filter);
    assert(s.push(x).drop_last() =~= s);
    assert(s.push(x).last() == x);
}

/// Filtering an empty sequence leaves nothing.
proof fn lemma_filter_empty<A>(pred: spec_fn(A) -> bool)
    ensures
        Seq::<A>::empty().filter(pred) == Seq::<A>::empty(),
{
    reveal(Seq::filter);
}

/// The element-wise view of a sequence of viewable values.
spec fn seq_deep<T: DeepView>(s: Seq<T>) -> Seq<T::V> {
    Seq::new(s.len(), |i: int| s[i].deep_view())
}

/// Pushing commutes with taking element-wise views.
proof fn lemma_seq_deep_push<T: DeepView>(s: Seq<T>, x: T)
    ensures
        seq_deep(s.push(x)) == seq_deep(s).push(x.deep_view()),
{
    assert(seq_deep(s.push(x)) =~= seq_deep(s).push(x.deep_view()));
}

impl MenuRegistry {
    /// Rebuild the ordered menu tree: the connect submenu when it has
    /// members, then the plain items in registry order, then a separator
    /// when anything was rendered, then the two reserved items, always
    /// last.
    pub fn rebuild(&self) -> (r: Vec<MenuNode>)
        ensures
            r.deep_view() == spec_rebuild(self@),
    {
        let ghost s = self@;
        let mut connect: Vec<MenuLeaf> = Vec::new();
        let mut i: usize = 0;
        proof {
            assert(s.take(0) =~= Seq::<MenuEntryView>::empty());
            lemma_filter_empty::<MenuEntryView>(in_connect_pred());
            assert(connect.deep_view() =~= connect_part(s.take(0)));
        }
        while i < self.entries.len()
            invariant
                i <= s.len(),
                s == self@,
                s.len() == self.entries.len(),
                connect.deep_view() == connect_part(s.take(i as int)),
            decreases self.entries.len() - i,
        {
            let e = &self.entries[i];
            proof {
                assert(e.deep_view() == s[i as int]);
            }
            if e.in_connect {
                let leaf = MenuLeaf { id: e.id.clone(), label: e.label.clone() };
                let ghost cprev = connect@;
                proof {
                    assert(connect.deep_view() =~= seq_deep(cprev));
                }
                connect.push(leaf);
                proof {
                    lemma_seq_deep_push(cprev, leaf);
                    assert(connect.deep_view() =~= seq_deep(cprev.push(leaf)));
                    assert(leaf.deep_view() == leaf_of(s[i as int]));
                }
            }
            proof {
                assert(s.take(i + 1) =~= s.take(i as int).push(s[i as int]));
                lemma_filter_push(s.take(i as int), s[i as int], in_connect_pred());
                assert(connect_part(s.take(i + 1)) =~= if s[i as int].in_connect {
                    connect_part(s.take(i as int)).push(leaf_of(s[i as int]))
                } else {
                    connect_part(s.take(i as int))
                });
                assert(connect.deep_view() =~= connect_part(s.take(i + 1)));
            }
            i = i + 1;
        }
        proof {
            assert(s.take(s.len() as int) =~= s);
            assert(connect.deep_view() == connect_part(s));
            assert(connect@.len() == connect.deep_view().len());
        }
        let mut nodes: Vec<MenuNode> = Vec::new();
        if connect.len() > 0 {
            let node = MenuNode::Submenu { title: String::from_str("Connect"), items: connect };
            nodes.push(node);
        }
        proof {
            assert(nodes.deep_view() =~= submenu_part(s));
        }
        let mut k: usize = 0;
        proof {
            lemma_filter_empty::<MenuEntryView>(plain_pred());
            assert(plain_part(s.take(0)) =~= Seq::<MenuNodeView>::empty());
            assert(nodes.deep_view() =~= submenu_part(s) + plain_part(s.take(0)));
        }
        while k < self.entries.len()
            invariant
                k <= s.len(),
                s == self@,
                s.len() == self.entries.len(),
                nodes.deep_view() == submenu_part(s) + plain_part(s.take(k as int)),
            decreases self.entries.len() - k,
        {
            let e = &self.entries[k];
            proof {
                assert(e.deep_view() == s[k as int]);
            }
            if !e.in_connect {
                let node = MenuNode::Item { id: e.id.clone(), label: e.label.clone() };
                let ghost nprev = nodes@;
                proof {
                    assert(nodes.deep_view() =~= seq_deep(nprev));
                }
                nodes.push(node);
                proof {
                    lemma_seq_deep_push(nprev, node);
                    assert(nodes.deep_view() =~= seq_deep(nprev).push(node.deep_view()));
                    assert(node.deep_view() == item_of(s[k as int]));
                }
            }
            proof {
                assert(s.take(k + 1) =~= s.take(k as int).push(s[k as int]));
                lemma_filter_push(s.take(k as int), s[k as int], plain_pred());
                assert(plain_part(s.take(k + 1)) =~= if !s[k as int].in_connect {
                    plain_part(s.take(k as int)).push(item_of(s[k as int]))
                } else {
                    plain_part(s.take(k as int))
                });
                assert(nodes.deep_view() =~= submenu_part(s) + plain_part(s.take(k + 1)));
            }
            k = k + 1;
        }
        proof {
            assert(s.take(s.len() as int) =~= s);
            assert(nodes.deep_view() == submenu_part(s) + plain_part(s));
        }
        let ghost body = nodes.deep_view();
        if !self.entries.is_empty() {
            let ghost nprev = nodes@;
            proof {
                assert(nodes.deep_view() =~= seq_deep(nprev));
            }
            nodes.push(MenuNode::Separator);
            proof {
                lemma_seq_deep_push(nprev, MenuNode::Separator);
                assert(nodes.deep_view() =~= body + sep_part(s));
            }
        } else {
            proof {
                assert(nodes.deep_view() =~= body + sep_part(s));
            }
        }
        let ghost with_sep = nodes.deep_view();
        let minimize_node = MenuNode::Item {
            id: String::from_str("minimize"),
            label: String::from_str("Minimize to Tray"),
        };
        let ghost nprev1 = nodes@;
        proof {
            assert(nodes.deep_view() =~= seq_deep(nprev1));
        }
        nodes.push(minimize_node);
        proof {
            lemma_seq_deep_push(nprev1, minimize_node);
        }
        let exit_node = MenuNode::Item {
            id: String::from_str("exit"),
            label: String::from_str("Exit"),
        };
        let ghost nprev2 = nodes@;
        proof {
            assert(nodes.deep_view() =~= seq_deep(nprev2));
        }
        nodes.push(exit_node);
        proof {
            lemma_seq_deep_push(nprev2, exit_node);
            assert(nodes.deep_view() =~= with_sep + reserved_tail());
            assert(nodes.deep_view() =~= spec_rebuild(s));
        }
        nodes
    }
}

/// Two well-formed registries with the same contents hold the same entry
/// sequence: the strict id order leaves one shape for each contents map.
proof fn lemma_entries_unique(s1: Seq<MenuEntryView>, s2: Seq<MenuEntryView>)
    requires
        entries_wf(s1),
        entries_wf(s2),
        contents(s1) == contents(s2),
    ensures
        s1 == s2,
    decreases s1.len(),
{
    if s1.len() == 0 && s2.len() == 0 {
        assert(s1 =~= s2);
    } else if s1.len() == 0 {
        lemma_contents_at(s2, 0);
        lemma_contents_dom(s1, s2[0].id);
        assert(false);
    } else if s2.len() == 0 {
        lemma_contents_at(s1, 0);
        lemma_contents_dom(s2, s1[0].id);
        assert(false);
    } else {
        lemma_contents_at(s1, 0);
        lemma_contents_dom(s2, s1[0].id);
        let j = choose|j: int| 0 <= j < s2.len() && (#[trigger] s2[j].id) == s1[0].id;
        lemma_contents_at(s2, 0);
        lemma_contents_dom(s1, s2[0].id);
        let i = choose|i: int| 0 <= i < s1.len() && (#[trigger] s1[i].id) == s2[0].id;
        if j > 0 {
            assert(lex_lt(s2[0].id, s2[j].id));
            if i > 0 {
                assert(lex_lt(s1[0].id, s1[i].id));
                lemma_lex_asymmetric(s1[0].id, s2[0].id);
                assert(false);
            } else {
                lemma_lex_irreflexive(s1[0].id);
                assert(false);
            }
        }
        assert(s2[0].id == s1[0].id);
        assert(entry_data(s1[0]) == contents(s1)[s1[0].id]);
        assert(entry_data(s2[0]) == contents(s2)[s2[0].id]);
        assert(s1[0] =~= s2[0]);
        lemma_wf_drop_first(s1);
        lemma_wf_drop_first(s2);
        assert(!has_id(s1.drop_first(), s1[0].id)) by {
            if has_id(s1.drop_first(), s1[0].id) {
                let w = choose|w: int|
                    0 <= w < s1.drop_first().len() && (#[trigger] s1.drop_first()[w].id)
                        == s1[0].id;
                assert(s1[w + 1].id == s1[0].id);
                assert(lex_lt(s1[0].id, s1[w + 1].id));
                lemma_lex_irreflexive(s1[0].id);
            }
        }
        assert(!has_id(s2.drop_first(), s2[0].id)) by {
            if has_id(s2.drop_first(), s2[0].id) {
                let w = choose|w: int|
                    0 <= w < s2.drop_first().len() && (#[trigger] s2.drop_first()[w].id)
                        == s2[0].id;
                assert(s2[w + 1].id == s2[0].id);
                assert(lex_lt(s2[0].id, s2[w + 1].id));
                lemma_lex_irreflexive(s2[0].id);
            }
        }
        lemma_contents_dom(s1.drop_first(), s1[0].id);
        lemma_contents_dom(s2.drop_first(), s2[0].id);
        assert(contents(s1.drop_first()) =~= contents(s1).remove(s1[0].id));
        assert(contents(s2.drop_first()) =~= contents(s2).remove(s2[0].id));
        lemma_entries_unique(s1.drop_first(), s2.drop_first());
        assert(s1 =~= Seq::empty().push(s1.first()) + s1.drop_first());
        assert(s2 =~= Seq::empty().push(s2.first()) + s2.drop_first());
    }
}

/// The rebuilt tree is a pure function of the registry contents: two
/// well-formed registries holding the same bindings produce structurally
/// identical menu trees, whatever order the mutations that built them
/// arrived in.
pub proof fn lemma_rebuild_pure(s1: Seq<MenuEntryView>, s2: Seq<MenuEntryView>)
    requires
        entries_wf(s1),
        entries_wf(s2),
        contents(s1) == contents(s2),
    ensures
        spec_rebuild(s1) == spec_rebuild(s2),
{
    lemma_entries_unique(s1, s2);
}

/// The two reserved items close every rebuilt tree, and a separator stands
/// before them exactly when the registry holds at least one entry — with a
/// well-formed registry, exactly when at least one non-reserved item
/// exists.
pub proof fn lemma_rebuild_shape(s: Seq<MenuEntryView>)
    ensures
        spec_rebuild(s).len() >= 2,
        spec_rebuild(s)[spec_rebuild(s).len() - 2] == minimize_item(),
        spec_rebuild(s)[spec_rebuild(s).len() - 1] == exit_item(),
        spec_rebuild(s).contains(MenuNodeView::Separator) <==> s.len() > 0,
{
    let n = spec_rebuild(s).len() as int;
    assert(spec_rebuild(s)[n - 2] == reserved_tail()[0]);
    assert(spec_rebuild(s)[n - 1] == reserved_tail()[1]);
    if s.len() > 0 {
        let at = submenu_part(s).len() + plain_part(s).len();
        assert(spec_rebuild(s)[at as int] == MenuNodeView::Separator);
        assert(spec_rebuild(s).contains(MenuNodeView::Separator));
    } else {
        lemma_filter_empty::<MenuEntryView>(in_connect_pred());
        lemma_filter_empty::<MenuEntryView>(plain_pred());
        assert(connect_part(s) =~= Seq::<MenuLeafView>::empty());
        assert(plain_part(s) =~= Seq::<MenuNodeView>::empty());
        assert(spec_rebuild(s) =~= reserved_tail());
        assert forall|w: int| 0 <= w < spec_rebuild(s).len() implies spec_rebuild(s)[w]
            != MenuNodeView::Separator by {
            assert(spec_rebuild(s)[w] == reserved_tail()[w]);
        }
    }
}

} // verus!
