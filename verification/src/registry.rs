//! Who is in which group, as far as the live connections know: the table
//! that group messages are fanned out by.
use vstd::prelude::*;

verus! {

#[verifier::external_type_specification]
#[verifier::external_body]
#[verifier::reject_recursive_types(K)]
#[verifier::reject_recursive_types(V)]
#[verifier::reject_recursive_types(S)]
pub struct ExDashMap<K, V, S>(dashmap::DashMap<K, V, S>);

/// A table from group id to member list.
pub type GroupTable = dashmap::DashMap<i64, Vec<i64>>;

/// The contents of a group table: each group's member list.
pub uninterp spec fn group_table(m: GroupTable) -> Map<i64, Seq<i64>>;

/// Calls `DashMap::new`: an empty table.
#[verifier::external_body]
fn table_new() -> (res: GroupTable)
    ensures
        group_table(res).dom() == Set::<i64>::empty(),
{
    dashmap::DashMap::new()
}

/// Calls `DashMap::get` and copies out the member list stored under
/// `group_id`, if any.
#[verifier::external_body]
fn table_get(m: &GroupTable, group_id: i64) -> (res: Option<Vec<i64>>)
    ensures
        match res {
            Some(v) => group_table(*m).contains_key(group_id) && group_table(*m)[group_id]
                == v@,
            None => !group_table(*m).contains_key(group_id),
        },
{
    m.get(&group_id).map(|r| r.value().clone())
}

/// Calls `DashMap::insert`: `group_id` now maps to `members`, every other
/// group is unchanged.
#[verifier::external_body]
fn table_insert(m: &mut GroupTable, group_id: i64, members: Vec<i64>)
    ensures
        group_table(*final(m)) == group_table(*old(m)).insert(group_id, members@),
{
    m.insert(group_id, members);
}

/// No member is listed twice.
pub open spec fn no_repeats(s: Seq<i64>) -> bool {
    forall|i: int, j: int| 0 <= i < j < s.len() ==> s[i] != s[j]
}

/// A member list after `user_id` joins: unchanged when already there,
/// otherwise with `user_id` at its end.
pub open spec fn joined(s: Seq<i64>, user_id: i64) -> Seq<i64> {
    if s.contains(user_id) {
        s
    } else {
        s.push(user_id)
    }
}

/// The table after `user_id` is registered in `group_id`.
pub open spec fn registered(
    t: Map<i64, Seq<i64>>,
    group_id: i64,
    user_id: i64,
) -> Map<i64, Seq<i64>> {
    let before = if t.contains_key(group_id) {
        t[group_id]
    } else {
        Seq::<i64>::empty()
    };
    t.insert(group_id, joined(before, user_id))
}

/// A conversation of a user's conversation list: its chat id, and whether it
/// is a group chat.
#[derive(Clone, Copy, Debug, PartialEq, Eq, Structural)]
pub struct ChatEntry {
    pub chat_id: i64,
    pub is_group: bool,
}

/// The table after `user_id` is registered in each group chat of `chats`,
/// in order.
pub open spec fn registered_in_groups(
    t: Map<i64, Seq<i64>>,
    user_id: i64,
    chats: Seq<ChatEntry>,
) -> Map<i64, Seq<i64>>
    decreases chats.len(),
{
    if chats.len() == 0 {
        t
    } else {
        let before = registered_in_groups(t, user_id, chats.drop_last());
        let c = chats.last();
        if c.is_group {
            registered(before, c.chat_id, user_id)
        } else {
            before
        }
    }
}

/// The members of each group, as registered by the users that listed their
/// conversations. No group lists a member twice.
pub struct GroupRegistry {
    table: Option<GroupTable>,
}

/// No group of the table lists a member twice.
pub open spec fn repeats_none(t: Map<i64, Seq<i64>>) -> bool {
    forall|g: i64| #[trigger] t.contains_key(g) ==> no_repeats(t[g])
}

impl View for GroupRegistry {
    type V = Map<i64, Seq<i64>>;

    closed spec fn view(&self) -> Map<i64, Seq<i64>> {
        match self.table {
            Some(t) => group_table(t),
            None => Map::empty(),
        }
    }
}

fn vec_contains(v: &Vec<i64>, x: i64) -> (res: bool)
    ensures
        res == v@.contains(x),
{
    let mut i: usize = 0;
    while i < v.len()
        invariant
            i <= v.len(),
            forall|k: int| 0 <= k < i ==> v@[k] != x,
        decreases v.len() - i,
    {
        if v[i] == x {
            return true;
        }
        i = i + 1;
    }
    false
}

impl GroupRegistry {
    #[verifier::type_invariant]
    spec fn keeps_members_once(self) -> bool {
        repeats_none(self@)
    }

    /// An empty registry.
    pub fn new() -> (r: Self)
        ensures
            r@ == Map::<i64, Seq<i64>>::empty(),
    {
        GroupRegistry { table: Some(table_new()) }
    }

    /// The members of `group_id` (none when the group is unknown); no member
    /// is listed twice.
    pub fn members(&self, group_id: i64) -> (res: Vec<i64>)
        ensures
            res@ == (if self@.contains_key(group_id) {
                self@[group_id]
            } else {
                Seq::<i64>::empty()
            }),
            no_repeats(res@),
    {
        proof {
            use_type_invariant(self);
        }
        match &self.table {
            Some(t) => match table_get(t, group_id) {
                Some(v) => v,
                None => Vec::new(),
            },
            None => Vec::new(),
        }
    }

    /// Registers `user_id` as a member of `group_id`, creating the group's
    /// list when there is none; a member already listed is not listed again.
    pub fn register(&mut self, group_id: i64, user_id: i64)
        ensures
            final(self)@ == registered(old(self)@, group_id, user_id),
    {
        proof {
            use_type_invariant(&*self);
        }
        let ghost before_all = self@;
        let mut slot: Option<GroupTable> = None;
        std::mem::swap(&mut slot, &mut self.table);
        let mut t = match slot {
            Some(t) => t,
            None => table_new(),
        };
        assert(group_table(t) == before_all);
        let mut list = match table_get(&t, group_id) {
            Some(v) => v,
            None => Vec::new(),
        };
        let ghost before = list@;
        proof {
            if before_all.contains_key(group_id) {
                assert(no_repeats(before_all[group_id]));
            }
        }
        if !vec_contains(&list, user_id) {
            list.push(user_id);
            proof {
                assert forall|i: int, j: int| 0 <= i < j < list@.len() implies list@[i]
                    != list@[j] by {
                    if j == list@.len() - 1 {
                        assert(before[i] == list@[i]);
                        assert(!before.contains(user_id));
                    } else {
                        assert(list@[i] == before[i] && list@[j] == before[j]);
                    }
                }
            }
        }
        table_insert(&mut t, group_id, list);
        proof {
            assert forall|g: i64| #[trigger] group_table(t).contains_key(g) implies no_repeats(
                group_table(t)[g],
            ) by {
                if g != group_id {
                    assert(before_all.contains_key(g));
                }
            }
        }
        self.table = Some(t);
    }

    /// Registers `user_id` in every group chat of its conversation list, in
    /// order; private chats are passed over.
    pub fn register_group_chats(&mut self, user_id: i64, chats: &Vec<ChatEntry>)
        ensures
            final(self)@ == registered_in_groups(old(self)@, user_id, chats@),
    {
        let mut i: usize = 0;
        while i < chats.len()
            invariant
                i <= chats.len(),
                self@ == registered_in_groups(old(self)@, user_id, chats@.take(i as int)),
            decreases chats.len() - i,
        {
            let c = chats[i];
            if c.is_group {
                self.register(c.chat_id, user_id);
            }
            assert(chats@.take(i + 1).drop_last() =~= chats@.take(i as int));
            i = i + 1;
        }
        assert(chats@.take(chats.len() as int) =~= chats@);
    }
}

/// Once registered, a user is a member of the group; registering again
/// changes nothing; no other group is touched.
pub proof fn lemma_register_laws(t: Map<i64, Seq<i64>>, group_id: i64, user_id: i64, other: i64)
    requires
        other != group_id,
    ensures
        registered(t, group_id, user_id)[group_id].contains(user_id),
        registered(registered(t, group_id, user_id), group_id, user_id) == registered(
            t,
            group_id,
            user_id,
        ),
        registered(t, group_id, user_id).contains_key(other) == t.contains_key(other),
        t.contains_key(other) ==> registered(t, group_id, user_id)[other] == t[other],
{
    let before = if t.contains_key(group_id) {
        t[group_id]
    } else {
        Seq::<i64>::empty()
    };
    let after = joined(before, user_id);
    if !before.contains(user_id) {
        assert(after[after.len() - 1] == user_id);
    }
    assert(after.contains(user_id));
    assert(registered(registered(t, group_id, user_id), group_id, user_id) =~= registered(
        t,
        group_id,
        user_id,
    ));
}

/// Whether `g` is the chat id of a group chat in the list.
pub open spec fn lists_group(chats: Seq<ChatEntry>, g: i64) -> bool {
    exists|i: int| 0 <= i < chats.len() && (#[trigger] chats[i]).is_group && chats[i].chat_id == g
}

proof fn lemma_registered_keeps(t: Map<i64, Seq<i64>>, g: i64, u: i64, h: i64, x: i64)
    requires
        t.contains_key(h),
        t[h].contains(x),
    ensures
        registered(t, g, u).contains_key(h),
        registered(t, g, u)[h].contains(x),
{
    if g == h {
        let after = joined(t[h], u);
        let k = choose|k: int| 0 <= k < t[h].len() && t[h][k] == x;
        assert(after[k] == x);
    }
}

proof fn lemma_list_makes_member(t: Map<i64, Seq<i64>>, u: i64, chats: Seq<ChatEntry>, g: i64)
    requires
        lists_group(chats, g),
    ensures
        registered_in_groups(t, u, chats).contains_key(g),
        registered_in_groups(t, u, chats)[g].contains(u),
    decreases chats.len(),
{
    let n = chats.len() - 1;
    let prefix = chats.drop_last();
    let before = registered_in_groups(t, u, prefix);
    let c = chats.last();
    if c.is_group && c.chat_id == g {
        let b = if before.contains_key(g) {
            before[g]
        } else {
            Seq::<i64>::empty()
        };
        let after = joined(b, u);
        if !b.contains(u) {
            assert(after[after.len() - 1] == u);
        }
        assert(after.contains(u));
    } else {
        let i = choose|i: int| 0 <= i < chats.len() && (#[trigger] chats[i]).is_group && chats[i].chat_id == g;
        assert(i < n);
        assert(prefix[i] == chats[i]);
        lemma_list_makes_member(t, u, prefix, g);
        if c.is_group {
            lemma_registered_keeps(before, c.chat_id, u, g, u);
        }
    }
}

proof fn lemma_list_changes_nothing_for_members(
    t: Map<i64, Seq<i64>>,
    u: i64,
    chats: Seq<ChatEntry>,
)
    requires
        forall|g: i64| #[trigger] lists_group(chats, g) ==> t.contains_key(g) && t[g].contains(u),
    ensures
        registered_in_groups(t, u, chats) == t,
    decreases chats.len(),
{
    if chats.len() > 0 {
        let prefix = chats.drop_last();
        assert forall|g: i64| #[trigger] lists_group(prefix, g) implies t.contains_key(g)
            && t[g].contains(u) by {
            let i = choose|i: int| 0 <= i < prefix.len() && (#[trigger] prefix[i]).is_group && prefix[i].chat_id == g;
            assert(chats[i] == prefix[i]);
            assert(lists_group(chats, g));
        }
        lemma_list_changes_nothing_for_members(t, u, prefix);
        let c = chats.last();
        if c.is_group {
            assert(lists_group(chats, c.chat_id)) by {
                assert(chats[chats.len() - 1] == c);
            }
            assert(t[c.chat_id].contains(u));
            assert(registered(t, c.chat_id, u) =~= t);
        }
    }
}

/// Registering a user from its conversation list makes the user a member of
/// every group chat of the list, touches no other group, and doing it a
/// second time changes nothing.
pub proof fn lemma_register_group_chats_laws(
    t: Map<i64, Seq<i64>>,
    u: i64,
    chats: Seq<ChatEntry>,
    g: i64,
)
    ensures
        lists_group(chats, g) ==> registered_in_groups(t, u, chats).contains_key(g)
            && registered_in_groups(t, u, chats)[g].contains(u),
        !lists_group(chats, g) ==> registered_in_groups(t, u, chats).contains_key(g)
            == t.contains_key(g) && (t.contains_key(g) ==> registered_in_groups(t, u, chats)[g]
            == t[g]),
        registered_in_groups(registered_in_groups(t, u, chats), u, chats)
            == registered_in_groups(t, u, chats),
{
    let r = registered_in_groups(t, u, chats);
    if lists_group(chats, g) {
        lemma_list_makes_member(t, u, chats, g);
    } else {
        lemma_list_leaves_others(t, u, chats, g);
    }
    assert forall|h: i64| #[trigger] lists_group(chats, h) implies r.contains_key(h)
        && r[h].contains(u) by {
        lemma_list_makes_member(t, u, chats, h);
    }
    lemma_list_changes_nothing_for_members(r, u, chats);
}

proof fn lemma_list_leaves_others(t: Map<i64, Seq<i64>>, u: i64, chats: Seq<ChatEntry>, g: i64)
    requires
        !lists_group(chats, g),
    ensures
        registered_in_groups(t, u, chats).contains_key(g) == t.contains_key(g),
        t.contains_key(g) ==> registered_in_groups(t, u, chats)[g] == t[g],
    decreases chats.len(),
{
    if chats.len() > 0 {
        let prefix = chats.drop_last();
        assert(!lists_group(prefix, g)) by {
            if lists_group(prefix, g) {
                let i = choose|i: int| 0 <= i < prefix.len() && (#[trigger] prefix[i]).is_group && prefix[i].chat_id == g;
                assert(chats[i] == prefix[i]);
            }
        }
        lemma_list_leaves_others(t, u, prefix, g);
        let c = chats.last();
        if c.is_group {
            assert(c.chat_id != g) by {
                if c.chat_id == g {
                    assert(chats[chats.len() - 1] == c);
                }
            }
        }
    }
}

} // verus!
