//! Who may do what: the owner, users authorized everywhere, and users authorized in one community.

use vstd::prelude::*;
use crate::table::{NameSet, Table};
use crate::{table, text};

verus! {

/// Permission level, from least to most privileged.
#[derive(Debug, Clone, Copy, PartialEq, Eq, PartialOrd, Ord, Structural)]
pub enum AuthLevel {
    /// Anyone.
    Public,
    /// The owner and authorized users.
    Authorized,
    /// The owner alone.
    Owner,
}

impl AuthLevel {
    /// The place of a level in the order.
    pub open spec fn rank(self) -> int {
        match self {
            AuthLevel::Public => 0,
            AuthLevel::Authorized => 1,
            AuthLevel::Owner => 2,
        }
    }

    /// Whether a level meets or exceeds another.
    pub open spec fn covers(self, required: AuthLevel) -> bool {
        self.rank() >= required.rank()
    }

    /// The name of a level.
    pub open spec fn name(self) -> Seq<char> {
        match self {
            AuthLevel::Public => "public"@,
            AuthLevel::Authorized => "authorized"@,
            AuthLevel::Owner => "owner"@,
        }
    }

    /// The name of this level.
    pub fn as_str(&self) -> (r: &'static str)
        ensures
            r@ == self.name(),
    {
        match self {
            AuthLevel::Public => "public",
            AuthLevel::Authorized => "authorized",
            AuthLevel::Owner => "owner",
        }
    }

    /// The name of this level as an owned string.
    pub fn to_text(&self) -> (r: String)
        ensures
            r@ == self.name(),
    {
        self.as_str().to_owned()
    }

    /// Whether this level meets or exceeds `required`.
    pub fn meets(&self, required: AuthLevel) -> (r: bool)
        ensures
            r == self.covers(required),
    {
        match (self, required) {
            (_, AuthLevel::Public) => true,
            (AuthLevel::Public, _) => false,
            (AuthLevel::Authorized, AuthLevel::Owner) => false,
            _ => true,
        }
    }
}

/// Authorized users as they are saved: lists of npubs.
pub struct AuthState {
    /// The flat list of an older file layout; its users count as authorized everywhere.
    pub authorized: Vec<String>,
    /// Users authorized everywhere.
    pub authorized_global: Vec<String>,
    /// Users by community.
    pub authorized_by_community: Vec<(String, Vec<String>)>,
}

/// Who is authorized where.
#[verifier::ext_equal]
pub struct AuthView {
    pub owner: Seq<char>,
    pub global: Set<Seq<char>>,
    pub communities: Map<Seq<char>, Set<Seq<char>>>,
}

impl AuthView {
    /// Whether `npub` is on the list that applies in `community`; without one only the global
    /// list applies.
    pub open spec fn authorizes(self, npub: Seq<char>, community: Option<Seq<char>>) -> bool {
        self.global.contains(npub) || match community {
            Some(cid) => self.communities.dom().contains(cid) && self.communities[cid].contains(
                npub,
            ),
            None => false,
        }
    }

    /// The level of `npub` in `community`.
    pub open spec fn level(self, npub: Seq<char>, community: Option<Seq<char>>) -> AuthLevel {
        if npub == self.owner {
            AuthLevel::Owner
        } else if self.authorizes(npub, community) {
            AuthLevel::Authorized
        } else {
            AuthLevel::Public
        }
    }

    /// The users of a community's own list.
    pub open spec fn local(self, community: Option<Seq<char>>) -> Set<Seq<char>> {
        match community {
            Some(cid) => if self.communities.dom().contains(cid) {
                self.communities[cid]
            } else {
                Set::empty()
            },
            None => Set::empty(),
        }
    }

    /// The list that `community` names, or the global one.
    pub open spec fn list_of(self, community: Option<Seq<char>>) -> Set<Seq<char>> {
        match community {
            Some(_) => self.local(community),
            None => self.global,
        }
    }

    /// The lists with that of `community` replaced.
    pub open spec fn with_list(self, community: Option<Seq<char>>, list: Set<Seq<char>>) -> AuthView {
        match community {
            Some(cid) => AuthView { communities: self.communities.insert(cid, list), ..self },
            None => AuthView { global: list, ..self },
        }
    }
}

impl AuthView {
    /// Every authorization: a list, that of a community or the global one, and a user on it.
    pub open spec fn grants(self) -> Set<(Option<Seq<char>>, Seq<char>)> {
        Set::new(|g: (Option<Seq<char>>, Seq<char>)| self.list_of(g.0).contains(g.1))
    }

    /// How many authorizations there are. A user counts once for each list that they are on.
    pub open spec fn count(self) -> nat {
        self.grants().len()
    }
}

/// The community lists of a saved state, as rows of sets.
pub open spec fn saved_rows(rows: Seq<(String, Vec<String>)>) -> Seq<
    (Seq<char>, Set<Seq<char>>),
> {
    rows.map_values(|r: (String, Vec<String>)| (r.0@, text::views(r.1@).to_set()))
}

/// What a seed list and a saved state make of the authorized users.
pub open spec fn loaded(owner: Seq<char>, seed: Set<Seq<char>>, saved: Option<AuthState>) -> AuthView {
    match saved {
        Some(s) => AuthView {
            owner,
            global: seed.union(text::views(s.authorized@).to_set()).union(
                text::views(s.authorized_global@).to_set(),
            ),
            communities: table::rows_map(saved_rows(s.authorized_by_community@)),
        },
        None => AuthView { owner, global: seed, communities: Map::empty() },
    }
}

spec fn local_count(rows: Seq<(Seq<char>, Set<Seq<char>>)>) -> nat
    decreases rows.len(),
{
    if rows.len() == 0 {
        0
    } else {
        local_count(rows.drop_last()) + rows.last().1.len()
    }
}

spec fn viewed(global: Set<Seq<char>>, rows: Seq<(Seq<char>, Set<Seq<char>>)>) -> AuthView {
    AuthView { owner: Seq::empty(), global, communities: table::rows_map(rows) }
}

proof fn lemma_named(place: Option<Seq<char>>, users: Set<Seq<char>>)
    requires
        users.finite(),
    ensures
        ({
            let pairs = users.map(|n: Seq<char>| (place, n));
            &&& pairs.finite()
            &&& pairs.len() == users.len()
            &&& forall|g: (Option<Seq<char>>, Seq<char>)| #[trigger]
                pairs.contains(g) <==> g.0 == place && users.contains(g.1)
        }),
{
    let f = |n: Seq<char>| (place, n);
    let pairs = users.map(f);
    vstd::set_lib::lemma_map_size(users, pairs, f);
    assert forall|g: (Option<Seq<char>>, Seq<char>)| #[trigger] pairs.contains(g) <==> g.0 == place
        && users.contains(g.1) by {
        if g.0 == place && users.contains(g.1) {
            assert(f(g.1) == g);
        }
    }
}

proof fn lemma_count(global: Set<Seq<char>>, rows: Seq<(Seq<char>, Set<Seq<char>>)>)
    requires
        global.finite(),
        table::distinct_keys(rows),
        forall|i: int| 0 <= i < rows.len() ==> (#[trigger] rows[i]).1.finite(),
    ensures
        viewed(global, rows).grants().finite(),
        viewed(global, rows).count() == global.len() + local_count(rows),
    decreases rows.len(),
{
    let all = viewed(global, rows).grants();
    if rows.len() == 0 {
        lemma_named(None, global);
        assert(all =~= global.map(|n: Seq<char>| (None::<Seq<char>>, n)));
    } else {
        let init = rows.drop_last();
        let (cid, users) = rows.last();
        assert forall|i: int, j: int| 0 <= i < j < init.len() implies (#[trigger] init[i]).0 != (
        #[trigger] init[j]).0 by {
            assert(rows[i].0 != rows[j].0);
        }
        assert forall|i: int| 0 <= i < init.len() implies (#[trigger] init[i]).1.finite() by {
            assert(rows[i].1.finite());
        }
        assert(rows[rows.len() - 1].1.finite());
        lemma_count(global, init);
        lemma_named(Some(cid), users);
        table::lemma_rows_map(init);
        assert(!table::rows_map(init).dom().contains(cid)) by {
            if table::rows_map(init).dom().contains(cid) {
                let i = choose|i: int| 0 <= i < init.len() && (#[trigger] init[i]).0 == cid;
                assert(rows[i].0 != rows[rows.len() - 1].0);
            }
        }
        let before = viewed(global, init).grants();
        let more = users.map(|n: Seq<char>| (Some(cid), n));
        assert(all =~= before + more);
        assert(before.disjoint(more));
        vstd::set_lib::lemma_set_disjoint_lens(before, more);
    }
}

/// The owner and the authorized users.
pub struct AuthManager {
    owner: String,
    global: NameSet,
    communities: Table<NameSet>,
    persist: bool,
}

impl View for AuthManager {
    type V = AuthView;

    closed spec fn view(&self) -> AuthView {
        AuthView { owner: self.owner@, global: self.global@, communities: self.communities@ }
    }
}

/// The view of an optional authorization.
pub open spec fn opt_auth(a: Option<&AuthManager>) -> Option<AuthView> {
    match a {
        Some(m) => Some(m@),
        None => None,
    }
}

fn set_of(names: &Vec<String>) -> (r: NameSet)
    ensures
        r@ == text::views(names@).to_set(),
{
    let mut set = NameSet::new();
    extend(&mut set, names);
    proof {
        assert(set@ =~= text::views(names@).to_set());
    }
    set
}

fn extend(set: &mut NameSet, names: &Vec<String>)
    ensures
        final(set)@ == old(set)@.union(text::views(names@).to_set()),
{
    let ghost start = set@;
    let ghost all = text::views(names@);
    let mut i: usize = 0;
    proof {
        assert(all.take(0).to_set() =~= Set::<Seq<char>>::empty());
        assert(start =~= start.union(all.take(0).to_set()));
    }
    while i < names.len()
        invariant
            i <= names.len(),
            all == text::views(names@),
            set@ == start.union(all.take(i as int).to_set()),
        decreases names.len() - i,
    {
        let _ = set.insert(names[i].as_str());
        proof {
            let wider = all.take(i + 1);
            let narrow = all.take(i as int);
            assert(wider =~= narrow.push(all[i as int]));
            assert forall|x: Seq<char>| wider.to_set().contains(x) <==> narrow.to_set().insert(
                all[i as int],
            ).contains(x) by {
                assert(wider[i as int] == all[i as int]);
                if narrow.contains(x) {
                    let k = choose|k: int| 0 <= k < narrow.len() && narrow[k] == x;
                    assert(wider[k] == x);
                }
            }
            assert(set@ =~= start.union(wider.to_set()));
        }
        i = i + 1;
    }
    proof {
        assert(all.take(i as int) =~= all);
    }
}

impl AuthManager {
    /// Whether changes are to be saved.
    pub closed spec fn persists(&self) -> bool {
        self.persist
    }

    /// Sets up the owner, the seed list and, where changes are kept, what was saved.
    pub fn new(
        owner: &str,
        initial_authorized: &Vec<String>,
        persist: bool,
        saved: Option<&AuthState>,
    ) -> (r: Self)
        ensures
            r@ == loaded(
                owner@,
                text::views(initial_authorized@).to_set(),
                match saved {
                    Some(s) if persist => Some(*s),
                    _ => None,
                },
            ),
            r.persists() == persist,
    {
        let mut global = set_of(initial_authorized);
        let mut communities: Table<NameSet> = Table::new();
        if persist {
            if let Some(state) = saved {
                extend(&mut global, &state.authorized);
                extend(&mut global, &state.authorized_global);
                let rows = &state.authorized_by_community;
                let ghost all = saved_rows(rows@);
                let mut i: usize = 0;
                proof {
                    assert(all.take(0) =~= Seq::empty());
                }
                while i < rows.len()
                    invariant
                        i <= rows.len(),
                        all == saved_rows(rows@),
                        communities@ == table::rows_map(all.take(i as int)),
                    decreases rows.len() - i,
                {
                    communities.insert(rows[i].0.as_str(), set_of(&rows[i].1));
                    proof {
                        assert(all.take(i + 1).drop_last() =~= all.take(i as int));
                        assert(all.take(i + 1).last() == all[i as int]);
                    }
                    i = i + 1;
                }
                proof {
                    assert(all.take(i as int) =~= all);
                }
            }
        }
        AuthManager { owner: owner.to_owned(), global, communities, persist }
    }

    /// The level of a user in a community, or in a direct message.
    pub fn check(&self, npub: &str, community_id: Option<&str>) -> (r: AuthLevel)
        ensures
            r == self@.level(npub@, text::opt_str_view(community_id)),
    {
        if self.is_owner(npub) {
            AuthLevel::Owner
        } else if self.is_authorized(npub, community_id) {
            AuthLevel::Authorized
        } else {
            AuthLevel::Public
        }
    }

    /// Whether a user meets or exceeds a level in a community.
    pub fn has_permission(
        &self,
        npub: &str,
        community_id: Option<&str>,
        required: AuthLevel,
    ) -> (r: bool)
        ensures
            r == self@.level(npub@, text::opt_str_view(community_id)).covers(required),
    {
        self.check(npub, community_id).meets(required)
    }

    /// Whether a user is the owner.
    pub fn is_owner(&self, npub: &str) -> (r: bool)
        ensures
            r == (npub@ == self@.owner),
    {
        text::same(npub, self.owner.as_str())
    }

    /// Whether a user is on the list of a community or on the global one.
    pub fn is_authorized(&self, npub: &str, community_id: Option<&str>) -> (r: bool)
        ensures
            r == self@.authorizes(npub@, text::opt_str_view(community_id)),
    {
        if self.global.contains(npub) {
            return true;
        }
        if let Some(cid) = community_id {
            if let Some(set) = self.communities.get(cid) {
                return set.contains(npub);
            }
        }
        false
    }

    /// The global list and the list of a community, each in increasing order.
    pub fn list(&self, community_id: Option<&str>) -> (r: (Vec<String>, Vec<String>))
        ensures
            text::increasing(text::views(r.0@)),
            text::views(r.0@).to_set() == self@.global,
            text::increasing(text::views(r.1@)),
            text::views(r.1@).to_set() == self@.local(text::opt_str_view(community_id)),
    {
        let global = self.global.sorted();
        if let Some(cid) = community_id {
            if let Some(set) = self.communities.get(cid) {
                let local = set.sorted();
                return (global, local);
            }
        }
        let none: Vec<String> = Vec::new();
        proof {
            assert(text::views(none@).to_set() =~= Set::<Seq<char>>::empty());
        }
        (global, none)
    }

    /// How many users are authorized, over all lists, up to the largest machine word.
    pub fn authorized_count(&self) -> (r: usize)
        ensures
            self@.grants().finite(),
            r == if self@.count() <= usize::MAX {
                self@.count()
            } else {
                usize::MAX as nat
            },
    {
        let n: usize = self.communities.len();
        let ghost rows = self.communities.listed();
        let mut total: usize = self.global.len();
        let mut i: usize = 0;
        proof {
            assert(rows.take(0) =~= Seq::empty());
        }
        while i < n
            invariant
                i <= n,
                n == rows.len(),
                rows == self.communities.listed(),
                forall|k: int| 0 <= k < i ==> (#[trigger] rows[k]).1.finite(),
                total == if self.global@.len() + local_count(rows.take(i as int)) <= usize::MAX {
                    self.global@.len() + local_count(rows.take(i as int))
                } else {
                    usize::MAX as nat
                },
            decreases n - i,
        {
            let more: usize = self.communities.value_at(i).len();
            proof {
                assert(rows.take(i + 1).drop_last() =~= rows.take(i as int));
                assert(rows.take(i + 1).last() == rows[i as int]);
            }
            total = if more > usize::MAX - total {
                usize::MAX
            } else {
                total + more
            };
            i = i + 1;
        }
        proof {
            assert(rows.take(i as int) =~= rows);
            lemma_count(self.global@, rows);
            assert(self@.grants() =~= viewed(self.global@, rows).grants());
        }
        total
    }

    /// The owner's npub.
    pub fn owner(&self) -> (r: String)
        ensures
            r@ == self@.owner,
    {
        self.owner.clone()
    }

    /// The owner's npub, where there is one.
    pub fn owner_npub(&self) -> (r: Option<String>)
        ensures
            text::opt_view(r) == if self@.owner.len() == 0 {
                None
            } else {
                Some(self@.owner)
            },
    {
        if self.owner.as_str().is_empty() {
            None
        } else {
            Some(self.owner.clone())
        }
    }

    /// Authorizes a user in a community, or everywhere. The owner is never listed. Says whether
    /// the user is new on that list.
    pub fn add(&mut self, npub: &str, community_id: Option<&str>) -> (r: bool)
        ensures
            r == (npub@ != old(self)@.owner && !old(self)@.list_of(
                text::opt_str_view(community_id),
            ).contains(npub@)),
            npub@ == old(self)@.owner ==> final(self)@ == old(self)@,
            npub@ != old(self)@.owner ==> final(self)@ == old(self)@.with_list(
                text::opt_str_view(community_id),
                old(self)@.list_of(text::opt_str_view(community_id)).insert(npub@),
            ),
            final(self).persists() == old(self).persists(),
    {
        if self.is_owner(npub) {
            return false;
        }
        match community_id {
            None => self.global.insert(npub),
            Some(cid) => {
                let mut set = match self.communities.remove(cid) {
                    Some(s) => s,
                    None => NameSet::new(),
                };
                let fresh = set.insert(npub);
                self.communities.insert(cid, set);
                proof {
                    assert(self@ =~= old(self)@.with_list(
                        Some(cid@),
                        old(self)@.list_of(Some(cid@)).insert(npub@),
                    ));
                }
                fresh
            },
        }
    }

    /// Takes a user off the list of a community, or off the global one. Says whether the user
    /// was on it.
    pub fn remove(&mut self, npub: &str, community_id: Option<&str>) -> (r: bool)
        ensures
            r == old(self)@.list_of(text::opt_str_view(community_id)).contains(npub@),
            r ==> final(self)@ == old(self)@.with_list(
                text::opt_str_view(community_id),
                old(self)@.list_of(text::opt_str_view(community_id)).remove(npub@),
            ),
            !r ==> final(self)@ == old(self)@,
            final(self).persists() == old(self).persists(),
    {
        match community_id {
            None => {
                let gone = self.global.remove(npub);
                proof {
                    assert(self@ =~= old(self)@.with_list(
                        None,
                        old(self)@.global.remove(npub@),
                    ));
                    if !gone {
                        assert(old(self)@.global.remove(npub@) =~= old(self)@.global);
                    }
                }
                gone
            },
            Some(cid) => match self.communities.remove(cid) {
                Some(s) => {
                    let mut set = s;
                    let ghost list = set@;
                    let gone = set.remove(npub);
                    self.communities.insert(cid, set);
                    proof {
                        if !gone {
                            assert(list.remove(npub@) =~= list);
                            assert(self@ =~= old(self)@);
                        } else {
                            assert(self@ =~= old(self)@.with_list(
                                Some(cid@),
                                old(self)@.list_of(Some(cid@)).remove(npub@),
                            ));
                        }
                    }
                    gone
                },
                None => {
                    proof {
                        assert(self@ =~= old(self)@);
                    }
                    false
                },
            },
        }
    }

    /// What is to be saved: nothing where changes are not kept, else lists from which `new`
    /// restores exactly these users.
    pub fn saved_state(&self) -> (r: Option<AuthState>)
        ensures
            r is Some <==> self.persists(),
            r is Some ==> loaded(self@.owner, Set::empty(), r) == self@,
            r is Some ==> r->0.authorized@.len() == 0,
    {
        if !self.persist {
            return None;
        }
        let global = self.global.sorted();
        let n: usize = self.communities.len();
        let ghost rows = self.communities.listed();
        let mut out: Vec<(String, Vec<String>)> = Vec::new();
        let mut i: usize = 0;
        while i < n
            invariant
                i <= n,
                n == rows.len(),
                rows == self.communities.listed(),
                saved_rows(out@) == rows.take(i as int),
            decreases n - i,
        {
            let ghost before = out@;
            out.push(
                (self.communities.key_at(i).to_owned(), self.communities.value_at(i).sorted()),
            );
            proof {
                assert(saved_rows(out@) =~= saved_rows(before).push(rows[i as int]));
                assert(rows.take(i + 1) =~= rows.take(i as int).push(rows[i as int]));
            }
            i = i + 1;
        }
        proof {
            assert(rows.take(i as int) =~= rows);
        }
        let state = AuthState {
            authorized: Vec::new(),
            authorized_global: global,
            authorized_by_community: out,
        };
        proof {
            assert(text::views(state.authorized@).to_set() =~= Set::<Seq<char>>::empty());
            assert(loaded(self@.owner, Set::empty(), Some(state)) =~= self@);
        }
        Some(state)
    }
}

/// Whether the capability list of a community, as text, names a capability. Outside a community,
/// or where the list cannot be had, the bot has none.
pub fn bot_has_capability(capabilities: Option<&str>, capability: &str) -> (r: bool)
    ensures
        r == match capabilities {
            Some(c) => text::has_substring(c@, capability@),
            None => false,
        },
{
    match capabilities {
        Some(c) => text::contains(c, capability),
        None => false,
    }
}

/// Levels only ever include one another: what a level covers, every higher level covers.
pub proof fn law_levels_are_ordered(a: AuthLevel, b: AuthLevel, required: AuthLevel)
    requires
        a.covers(b),
        b.covers(required),
    ensures
        a.covers(required),
        AuthLevel::Owner.covers(a),
        a.covers(AuthLevel::Public),
        b.covers(a) ==> a == b,
{
}

/// The owner is the owner in every community and in direct messages.
pub proof fn law_owner_everywhere(auth: AuthView, community: Option<Seq<char>>)
    ensures
        auth.level(auth.owner, community) == AuthLevel::Owner,
{
}

/// A user added in one community gains nothing anywhere else, and nobody else gains anything.
pub proof fn law_local_grant_stays_local(
    auth: AuthView,
    npub: Seq<char>,
    cid: Seq<char>,
    who: Seq<char>,
    place: Option<Seq<char>>,
)
    requires
        who != npub || place != Some(cid),
    ensures
        auth.with_list(Some(cid), auth.list_of(Some(cid)).insert(npub)).level(who, place)
            == auth.level(who, place),
{
}

/// A user added in a community is authorized there; a user added for all is authorized
/// everywhere.
pub proof fn law_added_user_is_authorized(
    auth: AuthView,
    npub: Seq<char>,
    community: Option<Seq<char>>,
    place: Option<Seq<char>>,
)
    requires
        community is None || place == community,
    ensures
        auth.with_list(community, auth.list_of(community).insert(npub)).level(npub, place).covers(
            AuthLevel::Authorized,
        ),
{
}

/// Lists that were saved come back as they were when they are loaded next to a seed list that
/// they already hold.
pub proof fn law_saved_lists_come_back(auth: AuthView, seed: Set<Seq<char>>, saved: AuthState)
    requires
        loaded(auth.owner, Set::empty(), Some(saved)) == auth,
        seed.subset_of(auth.global),
    ensures
        loaded(auth.owner, seed, Some(saved)) == auth,
{
    assert(loaded(auth.owner, seed, Some(saved)).global =~= auth.global);
}

/// Putting a user on a list adds one authorization where they were not on it, and none where they
/// were.
pub proof fn law_count_after_add(auth: AuthView, npub: Seq<char>, community: Option<Seq<char>>)
    requires
        auth.grants().finite(),
    ensures
        ({
            let list = auth.list_of(community);
            let added = auth.with_list(community, list.insert(npub));
            &&& added.grants() == auth.grants().insert((community, npub))
            &&& added.count() == auth.count() + if list.contains(npub) {
                0int
            } else {
                1
            }
        }),
{
    let list = auth.list_of(community);
    let added = auth.with_list(community, list.insert(npub));
    assert(added.grants() =~= auth.grants().insert((community, npub)));
    assert(auth.grants().contains((community, npub)) == list.contains(npub));
}

/// Taking a user off a list takes one authorization away where they were on it, and none where
/// they were not.
pub proof fn law_count_after_remove(auth: AuthView, npub: Seq<char>, community: Option<Seq<char>>)
    requires
        auth.grants().finite(),
    ensures
        ({
            let list = auth.list_of(community);
            let removed = auth.with_list(community, list.remove(npub));
            &&& removed.grants() == auth.grants().remove((community, npub))
            &&& removed.count() == auth.count() - if list.contains(npub) {
                1int
            } else {
                0
            }
        }),
{
    let list = auth.list_of(community);
    let removed = auth.with_list(community, list.remove(npub));
    assert(removed.grants() =~= auth.grants().remove((community, npub)));
    assert(auth.grants().contains((community, npub)) == list.contains(npub));
}

/// Taking a user off a list leaves every other list as it was.
pub proof fn law_removal_is_local(
    auth: AuthView,
    npub: Seq<char>,
    community: Option<Seq<char>>,
    place: Option<Seq<char>>,
)
    requires
        place != community,
    ensures
        auth.with_list(community, auth.list_of(community).remove(npub)).list_of(place)
            == auth.list_of(place),
{
}

/// Taking a user off the list that they were just put on gives the lists, the levels and the count
/// that held before.
pub proof fn law_remove_undoes_add(
    auth: AuthView,
    npub: Seq<char>,
    community: Option<Seq<char>>,
    who: Seq<char>,
    place: Option<Seq<char>>,
)
    requires
        !auth.list_of(community).contains(npub),
    ensures
        ({
            let added = auth.with_list(community, auth.list_of(community).insert(npub));
            let back = added.with_list(community, added.list_of(community).remove(npub));
            &&& added.list_of(community).contains(npub)
            &&& !back.list_of(community).contains(npub)
            &&& back.list_of(place) == auth.list_of(place)
            &&& back.level(who, place) == auth.level(who, place)
            &&& back.grants() == auth.grants()
            &&& back.count() == auth.count()
        }),
{
    let list = auth.list_of(community);
    let added = auth.with_list(community, list.insert(npub));
    let back = added.with_list(community, added.list_of(community).remove(npub));
    assert(list.insert(npub).remove(npub) =~= list);
    assert(back.grants() =~= auth.grants());
}

} // verus!
